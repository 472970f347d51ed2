//! The state of the small desktop front end: a status line and whether a
//! watch session is running. The button wiring and the event loop are the
//! caller's concern; the state transitions are verified here.

use vstd::prelude::*;
use vstd::string::StringExecFns;

verus! {

/// The front end's state.
pub struct SnaccApp {
    pub status: String,
    pub watching: bool,
}

impl Default for SnaccApp {
    /// A fresh front end: empty status, not watching.
    fn default() -> (r: Self)
        ensures
            r.status@.len() == 0,
            !r.watching,
    {
        SnaccApp { status: String::new(), watching: false }
    }
}

impl SnaccApp {
    /// Records the outcome of a one-shot copy on the status line: the
    /// success message as it is, an error behind a failure mark.
    pub fn record_copy_result(&mut self, outcome: Result<String, String>)
        ensures
            final(self).watching == old(self).watching,
            final(self).status@ == match outcome {
                Ok(m) => m@,
                Err(e) => "❌ "@ + e@,
            },
    {
        match outcome {
            Ok(m) => {
                self.status = m;
            },
            Err(e) => {
                let mut s = String::new();
                s.append("❌ ");
                s.append(e.as_str());
                self.status = s;
            },
        }
    }

    /// Marks the watch session as started and says so on the status line.
    pub fn start_watching(&mut self)
        ensures
            final(self).watching,
            final(self).status@ == "🔁 Watch mode running..."@,
    {
        self.status = String::from_str("🔁 Watch mode running...");
        self.watching = true;
    }
}

} // verus!
