//! The view shown while a log is loaded.

use vstd::prelude::*;
use crate::log_message::LogReaderMessage;
use crate::reader::LogReader;

verus! {

/// Handles a message while a log is loaded: no message changes anything.
pub fn update(log_reader: &mut LogReader, msg: LogReaderMessage)
    ensures
        *final(log_reader) == *old(log_reader),
{
}

} // verus!
