use vstd::prelude::*;

verus! {

/// A progress bar: its label and how far it has come out of `length`.
pub struct Bar {
    pub message: String,
    pub position: u64,
    pub length: u64,
}

/// The state of the progress display: the bar shown, if any.
pub struct Displ {
    pub progress_bar: Option<Bar>,
}

/// Show a line of text to the user.
pub struct DisplayMessage {
    pub message: String,
}

/// Start a new progress bar of `length` steps, labelled `message`.
pub struct InitProgressBar {
    pub message: String,
    pub length: u64,
}

/// Advance the progress bar by one step and relabel it.
pub struct IncreaseProgress {
    pub message: String,
}

/// A bar at `position` of `length` after one step.
pub open spec fn advanced(position: u64, length: u64) -> u64 {
    if position < length { (position + 1) as u64 } else { position }
}

/// A fresh bar of `length` after `steps` advances.
pub open spec fn position_after(steps: nat, length: u64) -> u64
    decreases steps,
{
    if steps == 0 {
        0
    } else {
        advanced(position_after((steps - 1) as nat, length), length)
    }
}

/// A fresh bar counts one per advance up to its length, and stays there:
/// after one advance per job of a batch it stands at the batch's length.
pub proof fn bar_counts_each_step(steps: nat, length: u64)
    ensures
        steps <= length ==> position_after(steps, length) == steps,
        steps >= length ==> position_after(steps, length) == length,
    decreases steps,
{
    if steps > 0 {
        bar_counts_each_step((steps - 1) as nat, length);
    }
}

impl Displ {
    /// A display with no bar.
    pub fn new() -> (r: Displ)
        ensures
            r.progress_bar is None,
    {
        Displ { progress_bar: None }
    }

    /// Shows a line: the bar, if one is shown, is cleared and dropped first.
    /// Returns the line to print and whether a bar had to be cleared.
    pub fn display(&mut self, msg: DisplayMessage) -> (r: (String, bool))
        ensures
            final(self).progress_bar is None,
            r.0 == msg.message,
            r.1 == old(self).progress_bar is Some,
    {
        let cleared = self.progress_bar.is_some();
        self.progress_bar = None;
        (msg.message, cleared)
    }

    /// Replaces any bar with a new one at zero. Returns whether an earlier
    /// bar had to be cleared.
    pub fn init_progress_bar(&mut self, msg: InitProgressBar) -> (r: bool)
        ensures
            r == old(self).progress_bar is Some,
            final(self).progress_bar matches Some(b)
                && b.message == msg.message && b.position == 0 && b.length == msg.length,
    {
        let cleared = self.progress_bar.is_some();
        self.progress_bar = Some(Bar { message: msg.message, position: 0, length: msg.length });
        cleared
    }

    /// Advances the bar by one step, never past its length, and relabels it;
    /// does nothing where no bar is shown. Returns whether a bar was there.
    pub fn increase_progress(&mut self, msg: IncreaseProgress) -> (r: bool)
        ensures
            r == old(self).progress_bar is Some,
            old(self).progress_bar is None ==> final(self).progress_bar is None,
            old(self).progress_bar matches Some(b) ==> final(self).progress_bar matches Some(n)
                && n.message == msg.message && n.length == b.length
                && n.position == advanced(b.position, b.length),
    {
        match self.progress_bar.take() {
            None => false,
            Some(b) => {
                let position = if b.position < b.length { b.position + 1 } else { b.position };
                self.progress_bar = Some(Bar { message: msg.message, position, length: b.length });
                true
            },
        }
    }
}

impl Default for Displ {
    fn default() -> (r: Displ)
        ensures
            r.progress_bar is None,
    {
        Displ::new()
    }
}

} // verus!
