//! The detail view of one record: what each message does to the viewer while
//! it is shown.

use vstd::prelude::*;
use crate::log_message::{Event, Key, LogReaderMessage, Task};
use crate::model::LogReaderView;
use crate::reader::LogReader;

verus! {

/// What a message makes of the state `pre` while the details of a record are
/// shown, and what is left for the presentation layer to do. The text of the
/// record can be read and selected, not changed: an action of the editor is
/// passed on unless it is an edit.
pub open spec fn updated(
    pre: LogReaderView,
    msg: LogReaderMessage,
    post: LogReaderView,
    task: Task,
) -> bool {
    match msg {
        LogReaderMessage::TextEditorEdit { edit } => {
            &&& post == pre
            &&& task == if edit {
                Task::Idle
            } else {
                Task::PerformEditorAction
            }
        },
        LogReaderMessage::Event(Event::KeyPressed { key: Key::Escape, shift }) => {
            &&& post == (LogReaderView { detail: None, ..pre })
            &&& task == Task::Idle
        },
        _ => post == pre && task == Task::Idle,
    }
}

/// Handles a message while the details of a record are shown.
pub fn update(log_reader: &mut LogReader, msg: LogReaderMessage) -> (task: Task)
    requires
        old(log_reader).wf(),
    ensures
        final(log_reader).wf(),
        updated(old(log_reader)@, msg, final(log_reader)@, task),
{
    match msg {
        LogReaderMessage::TextEditorEdit { edit } => {
            if !edit {
                return Task::PerformEditorAction;
            }
        },
        LogReaderMessage::Event(event) => match event {
            Event::KeyPressed { key, shift: _ } => {
                if key == Key::Escape {
                    log_reader.close_detail();
                }
            },
            _ => {},
        },
        _ => {},
    }
    Task::Idle
}

} // verus!
