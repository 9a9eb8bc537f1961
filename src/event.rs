use vstd::prelude::*;

verus! {

/// An event published on the bus shared by the services of a run.
#[derive(Clone, Debug)]
pub struct Event(pub String);

} // verus!
