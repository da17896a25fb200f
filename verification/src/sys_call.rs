//! System calls the running program can raise toward the host: the id is
//! popped from the operand stack and dispatched by the embedder.

use vstd::prelude::*;

verus! {

#[derive(Clone, Copy, Debug, PartialEq, Eq, Structural)]
pub enum SysCall {
    /// No request.
    Idle,
    /// Present the video RAM region on screen.
    RenderVRAM,
    /// Poll the host for input events.
    PollInputEvents,
}

/// The wire id of a system call.
pub open spec fn spec_sys_call_id(s: SysCall) -> u8 {
    match s {
        SysCall::Idle => 0x00,
        SysCall::RenderVRAM => 0x01,
        SysCall::PollInputEvents => 0x02,
    }
}

impl SysCall {
    pub fn to_id(self) -> (r: u8)
        ensures
            r == spec_sys_call_id(self),
    {
        match self {
            SysCall::Idle => 0x00,
            SysCall::RenderVRAM => 0x01,
            SysCall::PollInputEvents => 0x02,
        }
    }

    /// Decode a wire id; unknown ids yield `None`.
    pub fn from_id(id: u8) -> (r: Option<SysCall>)
        ensures
            match r {
                Some(s) => spec_sys_call_id(s) == id,
                None => id > 0x02,
            },
    {
        match id {
            0x00 => Some(SysCall::Idle),
            0x01 => Some(SysCall::RenderVRAM),
            0x02 => Some(SysCall::PollInputEvents),
            _ => None,
        }
    }
}

} // verus!
