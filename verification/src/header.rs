//! The status line at the top of the screen.

use vstd::prelude::*;
use crate::framework::{AppEvent, CustomAction};

verus! {

broadcast use vstd::string::group_string_axioms;

/// The status line: the last notification shown.
#[derive(Debug)]
pub struct Header {
    pub message: String,
}

impl Header {
    /// A status line showing `msg`.
    pub fn new(msg: &str) -> (r: Header)
        ensures
            r.message@ == msg@,
    {
        Header { message: msg.to_string() }
    }

    /// A notification, of success or of error, replaces the message; other
    /// events leave it.
    pub fn handle_event(&mut self, event: &AppEvent) -> (r: Option<CustomAction>)
        ensures
            r is None,
            final(self).message@ == match *event {
                AppEvent::Action(CustomAction::NotifySuccess(m)) => m@,
                AppEvent::Action(CustomAction::NotifyError(m)) => m@,
                _ => old(self).message@,
            },
    {
        match event {
            AppEvent::Action(CustomAction::NotifySuccess(msg)) => {
                self.message = msg.clone();
            },
            AppEvent::Action(CustomAction::NotifyError(msg)) => {
                self.message = msg.clone();
            },
            _ => {},
        }
        None
    }
}

} // verus!
