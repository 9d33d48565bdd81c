//! Where a message goes: to the help, to the detail view or to the table.

use vstd::prelude::*;
use crate::log_message::{Event, Key, LogReaderMessage, Task};
use crate::model::LogReaderView;
use crate::reader::LogReader;

verus! {

/// What a message makes of the state `pre`, and what is left for the
/// presentation layer to do. Letting go of F1 shows the help, and letting go
/// of Escape hides it again; any other message goes to the detail view while
/// the details of a record are shown, and to the table otherwise.
pub open spec fn dispatched(
    pre: LogReaderView,
    msg: LogReaderMessage,
    post: LogReaderView,
    task: Task,
) -> bool {
    if msg matches LogReaderMessage::Event(Event::KeyReleased { key: Key::F1 }) {
        post == (LogReaderView { show_help: true, ..pre }) && task == Task::Idle
    } else if pre.show_help && msg matches LogReaderMessage::Event(
        Event::KeyReleased { key: Key::Escape },
    ) {
        post == (LogReaderView { show_help: false, ..pre }) && task == Task::Idle
    } else if pre.detail is Some {
        crate::detail_view::updated(pre, msg, post, task)
    } else {
        crate::table_view::updated(pre, msg, post, task)
    }
}

impl LogReader {
    /// Handles a message, and says what is left for the presentation layer
    /// to do.
    pub fn update(&mut self, msg: LogReaderMessage) -> (task: Task)
        requires
            old(self).wf(),
        ensures
            final(self).wf(),
            dispatched(old(self)@, msg, final(self)@, task),
    {
        match &msg {
            LogReaderMessage::Event(Event::KeyReleased { key }) => {
                if *key == Key::F1 {
                    self.set_show_help(true);
                    return Task::Idle;
                }
                if *key == Key::Escape && self.show_help() {
                    self.set_show_help(false);
                    return Task::Idle;
                }
            },
            _ => {},
        }
        if self.view_detail().is_some() {
            crate::detail_view::update(self, msg)
        } else {
            crate::table_view::update(self, msg)
        }
    }
}

} // verus!
