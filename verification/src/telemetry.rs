//! Messages of the lifecycle-logging observer.
use vstd::prelude::*;
use crate::text::push_chars;

verus! {

/// The size of the buffer in which a message is assembled.
pub const MESSAGE_CAPACITY: usize = 256;

/// The prefix of the message for a command that starts.
pub const COMMAND_START_PREFIX: &'static str = "telemetry: command start -- ";
/// The prefix of the message for a command that ends.
pub const COMMAND_END_PREFIX: &'static str = "telemetry: command end -- ";

/// Whether `prefix` followed by `text` fits in the message buffer.
pub open spec fn fits_message(prefix: &str, text: &str) -> bool {
    prefix.len() + text.len() <= MESSAGE_CAPACITY
}

/// The message logged when a command starts: the prefix, then the command.
pub fn command_start_message(cmd: &str) -> (m: String)
    requires
        fits_message(COMMAND_START_PREFIX, cmd),
    ensures
        m@ == COMMAND_START_PREFIX@ + cmd@,
{
    let mut m = String::from_str(COMMAND_START_PREFIX);
    push_chars(&mut m, cmd);
    m
}

/// The message logged when a command ends: the prefix, then the payload.
pub fn command_end_message(payload: &str) -> (m: String)
    requires
        fits_message(COMMAND_END_PREFIX, payload),
    ensures
        m@ == COMMAND_END_PREFIX@ + payload@,
{
    let mut m = String::from_str(COMMAND_END_PREFIX);
    push_chars(&mut m, payload);
    m
}

/// Tests whether `prefix` followed by `text` fits in the message buffer.
pub fn message_fits(prefix: &str, text: &str) -> (r: bool)
    ensures
        r == fits_message(prefix, text),
{
    let a = prefix.len();
    let b = text.len();
    a <= MESSAGE_CAPACITY && b <= MESSAGE_CAPACITY - a
}

} // verus!
