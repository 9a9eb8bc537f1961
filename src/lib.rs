//! Cleaning of old build jobs on a remote project: the decisions of the
//! cleanup run (which project, which pages, which jobs, what progress) as
//! verified functions, with the network and the terminal left to the caller.

pub mod clock;
pub mod git;
pub mod pipeline;
pub mod batch;
pub mod displ;
pub mod number;
pub mod event;
pub mod run;
