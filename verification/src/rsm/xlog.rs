//! The log service's shared values: one log record as the client sends it to
//! the log server, and the listener capability an application implements to
//! store or forward records. The datagram transport lives with the
//! application.

use vstd::prelude::*;
use crate::common::errcode;

verus! {

/// Log severities, most severe first.
#[derive(Clone, Copy, Debug, PartialEq, Eq, Structural)]
pub enum LOG_LEVEL {
    LOG_LEVEL_FATAL,
    LOG_LEVEL_ERROR,
    LOG_LEVEL_WARN,
    LOG_LEVEL_INFO,
    LOG_LEVEL_DEBUG,
}

/// One log record: where and when it happened, how severe it is, and what
/// it says.
#[derive(Clone)]
pub struct InnerLogMsg {
    pub ModuleName: String,
    pub OccureTimeUsec: u64,
    pub LogType: i32,
    pub LogLevel: LOG_LEVEL,
    pub Position: String,
    pub ErrCode: errcode::RESULT,
    pub LogDesc: String,
    pub Context: String,
}

/// Log listener, for an application that wants its own log storage or
/// reporting; the server hands each record over with its sequence number.
pub trait LogListener {
    fn NotifyLog(&mut self, msg: &InnerLogMsg, msgSeq: u64) -> bool;
}

} // verus!
