use vstd::prelude::*;

verus! {

/// The Win32 `OVERLAPPED` record of an asynchronous socket operation.
#[derive(Debug)]
pub struct OVERLAPPED {
    pub internal: usize,
    pub internal_high: usize,
    pub offset: u32,
    pub offset_high: u32,
    pub h_event: usize,
}

/// The state of one pending I/O completion of a socket: the `OVERLAPPED`
/// record the kernel fills, and what the completion reported.
#[derive(Debug)]
pub struct PinnedIoContext {
    pub overlapped: OVERLAPPED,
    pub socket_id: u64,
    pub is_write: bool,
    pub bytes_transferred: u32,
    pub error: u32,
    pub completed: bool,
}

impl OVERLAPPED {
    /// All fields zero.
    pub open spec fn is_clear(&self) -> bool {
        &&& self.internal == 0
        &&& self.internal_high == 0
        &&& self.offset == 0
        &&& self.offset_high == 0
        &&& self.h_event == 0
    }
}

impl PinnedIoContext {
    /// No completion recorded: a clear `OVERLAPPED`, nothing transferred,
    /// no error, not completed.
    pub open spec fn is_fresh(&self) -> bool {
        &&& self.overlapped.is_clear()
        &&& self.bytes_transferred == 0
        &&& self.error == 0
        &&& !self.completed
    }

    /// A context for a read (`is_write` false) or a write on `socket_id`.
    pub fn new(socket_id: u64, is_write: bool) -> (r: Self)
        ensures
            r.socket_id == socket_id,
            r.is_write == is_write,
            r.is_fresh(),
    {
        PinnedIoContext {
            overlapped: OVERLAPPED { internal: 0, internal_high: 0, offset: 0, offset_high: 0, h_event: 0 },
            socket_id,
            is_write,
            bytes_transferred: 0,
            error: 0,
            completed: false,
        }
    }

    /// Clears the completion so the context can be used for the next
    /// operation on the same socket.
    pub fn reset(&mut self)
        ensures
            final(self).socket_id == old(self).socket_id,
            final(self).is_write == old(self).is_write,
            final(self).is_fresh(),
    {
        self.overlapped.internal = 0;
        self.overlapped.internal_high = 0;
        self.overlapped.offset = 0;
        self.overlapped.offset_high = 0;
        self.overlapped.h_event = 0;
        self.bytes_transferred = 0;
        self.error = 0;
        self.completed = false;
    }
}

/// Resetting a used context gives the context a new one for the same
/// socket and direction would be.
pub proof fn law_reset_is_new(a: PinnedIoContext, b: PinnedIoContext)
    requires
        a.is_fresh(),
        b.is_fresh(),
        a.socket_id == b.socket_id,
        a.is_write == b.is_write,
    ensures
        a == b,
{
}

} // verus!
