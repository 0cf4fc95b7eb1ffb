//! The running event log: an append-only ordered list of the lines shown
//! to the player. The renderer decides how many recent entries to paint.

use vstd::prelude::*;

use crate::events::Event;
use crate::text::{event_text, spec_event_text};

verus! {

/// Append-only log of event lines.
pub struct EventLog {
    pub entries: Vec<String>,
}

impl EventLog {
    /// A fresh, empty log.
    pub fn new() -> (log: EventLog)
        ensures
            log.entries@.len() == 0,
    {
        EventLog { entries: Vec::new() }
    }

    /// Record an event: its line is appended, except that a silent event
    /// (one that renders to nothing) leaves the log untouched.
    pub fn record(&mut self, e: &Event)
        ensures
            spec_event_text(*e).len() == 0 ==> final(self).entries@ == old(self).entries@,
            spec_event_text(*e).len() > 0 ==> final(self).entries@.len() == old(
                self,
            ).entries@.len() + 1 && final(self).entries@.last()@ == spec_event_text(*e) && forall|
                i: int,
            |
                0 <= i < old(self).entries@.len() ==> final(self).entries@[i] == old(
                    self,
                ).entries@[i],
    {
        let line = event_text(e);
        if line.as_str().unicode_len() > 0 {
            self.entries.push(line);
        }
    }

    /// Append a free-form line (the shell uses this for inspection text).
    pub fn note(&mut self, line: String)
        ensures
            final(self).entries@ == old(self).entries@.push(line),
    {
        self.entries.push(line);
    }

    /// Number of recorded lines.
    pub fn len(&self) -> (n: usize)
        ensures
            n == self.entries@.len(),
    {
        self.entries.len()
    }

    /// The line at `i`, oldest first; `None` off the end.
    pub fn get(&self, i: usize) -> (r: Option<&String>)
        ensures
            i < self.entries@.len() ==> (r matches Some(s) && s == self.entries@[i as int]),
            i >= self.entries@.len() ==> r is None,
    {
        if i < self.entries.len() {
            Some(&self.entries[i])
        } else {
            None
        }
    }
}

} // verus!
