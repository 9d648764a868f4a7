//! Decisions of the byte pump between the Bluetooth socket and the PTY
//! master: what to do after each poll, read and write.

use vstd::prelude::*;

verus! {

/// Why forwarding stopped.
#[derive(Debug, Clone, Copy, PartialEq, Eq, Structural)]
pub enum ForwardExitReason {
    /// A side hung up, failed, or reached end of file.
    PeerClosed,
    /// A stop was requested through the stop pipe.
    StopRequested,
}

/// Linux `errno` values that the pump tells apart.
pub const EIO: i32 = 5;
pub const EINTR: i32 = 4;
pub const EAGAIN: i32 = 11;
pub const EPIPE: i32 = 32;
pub const ECONNRESET: i32 = 104;
pub const ENOTCONN: i32 = 107;

/// The `errno` values that mean the other end went away.
pub open spec fn disconnect_errno(e: i32) -> bool {
    e == EPIPE || e == ECONNRESET || e == ENOTCONN || e == EIO
}

/// The `errno` values after which the same call is simply tried again.
pub open spec fn retry_errno(e: i32) -> bool {
    e == EINTR || e == EAGAIN
}

pub fn is_disconnect_errno(e: i32) -> (r: bool)
    ensures
        r == disconnect_errno(e),
{
    e == EPIPE || e == ECONNRESET || e == ENOTCONN || e == EIO
}

/// The events `poll` reported for one descriptor.
#[derive(Debug, Clone, Copy, PartialEq, Eq, Structural)]
pub struct PollEvents {
    /// `POLLIN`
    pub readable: bool,
    /// `POLLHUP`
    pub hangup: bool,
    /// `POLLERR`
    pub error: bool,
    /// `POLLNVAL`
    pub invalid: bool,
}

impl PollEvents {
    pub open spec fn broken(self) -> bool {
        self.hangup || self.error || self.invalid
    }

    pub fn is_broken(&self) -> (r: bool)
        ensures
            r == self.broken(),
    {
        self.hangup || self.error || self.invalid
    }
}

/// One of the two descriptors that bytes flow between.
#[derive(Debug, Clone, Copy, PartialEq, Eq, Structural)]
pub enum Side {
    Bluetooth,
    Pty,
}

/// Why writing a whole buffer failed.
#[derive(Debug, Clone, Copy, PartialEq, Eq, Structural)]
pub enum WriteFailure {
    /// `write` failed with this `errno`.
    Errno(i32),
    /// `write` accepted no bytes.
    ShortWrite,
}

/// Whether a failed write means that the other end went away.
pub fn is_disconnect_error(f: &WriteFailure) -> (r: bool)
    ensures
        r == (*f matches WriteFailure::Errno(e) && disconnect_errno(e)),
{
    match f {
        WriteFailure::Errno(e) => is_disconnect_errno(*e),
        WriteFailure::ShortWrite => false,
    }
}

/// Where writing a whole buffer stands after one `write`.
#[derive(Debug, Clone, Copy, PartialEq, Eq, Structural)]
pub enum WriteStep {
    /// This many bytes are still to be written.
    Continue(usize),
    /// Every byte was written.
    Done,
    /// Writing stopped for this reason.
    Failed(WriteFailure),
}

/// The step of `write_all` after a `write` of the remaining bytes returned
/// `result` (bytes written, or `errno`): interrupted and would-block writes are
/// retried, zero bytes is a short write, other errors end it.
pub fn write_all_step(remaining: usize, result: Result<usize, i32>) -> (r: WriteStep)
    requires
        remaining > 0,
        result matches Ok(n) ==> n <= remaining,
    ensures
        match result {
            Ok(n) => if n == 0 {
                r == WriteStep::Failed(WriteFailure::ShortWrite)
            } else if n == remaining {
                r == WriteStep::Done
            } else {
                r == WriteStep::Continue((remaining - n) as usize)
            },
            Err(e) => if retry_errno(e) {
                r == WriteStep::Continue(remaining)
            } else {
                r == WriteStep::Failed(WriteFailure::Errno(e))
            },
        },
{
    match result {
        Ok(n) => {
            if n == 0 {
                WriteStep::Failed(WriteFailure::ShortWrite)
            } else if n == remaining {
                WriteStep::Done
            } else {
                WriteStep::Continue(remaining - n)
            }
        },
        Err(e) => {
            if e == EINTR || e == EAGAIN {
                WriteStep::Continue(remaining)
            } else {
                WriteStep::Failed(WriteFailure::Errno(e))
            }
        },
    }
}


/// Where the byte pump stands.
#[derive(Debug, Clone, Copy, PartialEq, Eq, Structural)]
pub enum ForwardPhase {
    /// Both descriptors are being switched to blocking mode.
    Starting,
    /// Waiting for `poll` on the socket, the PTY and the stop pipe.
    AwaitingPoll,
    /// Reading the socket; `pty_ready` records that the PTY was readable too.
    ReadingBluetooth { pty_ready: bool },
    /// Writing what the socket gave to the PTY.
    WritingPty { pty_ready: bool },
    /// Reading the PTY.
    ReadingPty,
    /// Writing what the PTY gave to the socket.
    WritingBluetooth,
    /// The pump has stopped.
    Finished,
}

/// What the outside world reports back to the pump.
#[derive(Debug, Clone, Copy)]
pub enum ForwardEvent {
    /// Switching to blocking mode succeeded (`true`) or failed.
    Started(bool),
    /// `poll` returned these events for the stop pipe, the socket and the PTY.
    Polled { stop: PollEvents, bluetooth: PollEvents, pty: PollEvents },
    /// `poll` failed.
    PollFailed,
    /// `read` returned a byte count or an `errno`.
    Read(Result<usize, i32>),
    /// Writing the whole buffer succeeded or failed.
    Wrote(Result<(), WriteFailure>),
}

/// What the pump asks the outside world to do next.
#[derive(Debug, Clone, Copy, PartialEq, Eq, Structural)]
pub enum ForwardAction {
    /// Wait with `poll` on the stop pipe, the socket and the PTY.
    Poll,
    /// Read from this side into its buffer.
    Read(Side),
    /// Write the first `len` bytes just read to this side, all of them.
    WriteAll { to: Side, len: usize },
    /// Stop forwarding for this reason.
    Exit(ForwardExitReason),
    /// Stop forwarding on an unexpected error; treated as the peer closing.
    Fail,
}

/// Whether an event is one that can follow the action the phase issued.
pub open spec fn accepts(phase: ForwardPhase, event: ForwardEvent) -> bool {
    match phase {
        ForwardPhase::Starting => event is Started,
        ForwardPhase::AwaitingPoll => event is Polled || event is PollFailed,
        ForwardPhase::ReadingBluetooth { .. } => event is Read,
        ForwardPhase::ReadingPty => event is Read,
        ForwardPhase::WritingPty { .. } => event is Wrote,
        ForwardPhase::WritingBluetooth => event is Wrote,
        ForwardPhase::Finished => false,
    }
}

/// The outcome of a `read` on `from` while the pump is reading it; `next` is
/// where the pump goes once the bytes are written.
pub open spec fn after_read(result: Result<usize, i32>, from: Side, writing: ForwardPhase) -> (
    ForwardPhase,
    ForwardAction,
) {
    match result {
        Ok(n) => if n == 0 {
            (ForwardPhase::Finished, ForwardAction::Exit(ForwardExitReason::PeerClosed))
        } else {
            (
                writing,
                ForwardAction::WriteAll {
                    to: match from {
                        Side::Bluetooth => Side::Pty,
                        Side::Pty => Side::Bluetooth,
                    },
                    len: n,
                },
            )
        },
        Err(e) => if retry_errno(e) {
            (ForwardPhase::AwaitingPoll, ForwardAction::Poll)
        } else if disconnect_errno(e) {
            (ForwardPhase::Finished, ForwardAction::Exit(ForwardExitReason::PeerClosed))
        } else {
            (ForwardPhase::Finished, ForwardAction::Fail)
        },
    }
}

/// The outcome of writing a whole buffer; `next` is where the pump goes when
/// it succeeded.
pub open spec fn after_write(result: Result<(), WriteFailure>, next: (ForwardPhase, ForwardAction)) -> (
    ForwardPhase,
    ForwardAction,
) {
    match result {
        Ok(()) => next,
        Err(f) => if f matches WriteFailure::Errno(e) && disconnect_errno(e) {
            (ForwardPhase::Finished, ForwardAction::Exit(ForwardExitReason::PeerClosed))
        } else {
            (ForwardPhase::Finished, ForwardAction::Fail)
        },
    }
}

/// One transition of the pump.
///
/// After a poll: a readable stop pipe stops it; otherwise a hang-up, error or
/// invalid descriptor on either side closes it; otherwise the socket is read
/// first when readable, then the PTY. A read or write that was interrupted or
/// would block goes back to polling (skipping the PTY for that round), one that
/// failed with a disconnection `errno`, or a read of zero bytes, closes the
/// pump, and any other failure fails it.
pub open spec fn forward_next(phase: ForwardPhase, event: ForwardEvent) -> (ForwardPhase, ForwardAction) {
    match (phase, event) {
        (ForwardPhase::Starting, ForwardEvent::Started(ok)) => if ok {
            (ForwardPhase::AwaitingPoll, ForwardAction::Poll)
        } else {
            (ForwardPhase::Finished, ForwardAction::Fail)
        },
        (ForwardPhase::AwaitingPoll, ForwardEvent::PollFailed) => (
            ForwardPhase::Finished,
            ForwardAction::Fail,
        ),
        (ForwardPhase::AwaitingPoll, ForwardEvent::Polled { stop, bluetooth, pty }) => if stop.readable {
            (ForwardPhase::Finished, ForwardAction::Exit(ForwardExitReason::StopRequested))
        } else if bluetooth.broken() || pty.broken() {
            (ForwardPhase::Finished, ForwardAction::Exit(ForwardExitReason::PeerClosed))
        } else if bluetooth.readable {
            (
                ForwardPhase::ReadingBluetooth { pty_ready: pty.readable },
                ForwardAction::Read(Side::Bluetooth),
            )
        } else if pty.readable {
            (ForwardPhase::ReadingPty, ForwardAction::Read(Side::Pty))
        } else {
            (ForwardPhase::AwaitingPoll, ForwardAction::Poll)
        },
        (ForwardPhase::ReadingBluetooth { pty_ready }, ForwardEvent::Read(result)) => after_read(
            result,
            Side::Bluetooth,
            ForwardPhase::WritingPty { pty_ready },
        ),
        (ForwardPhase::ReadingPty, ForwardEvent::Read(result)) => after_read(
            result,
            Side::Pty,
            ForwardPhase::WritingBluetooth,
        ),
        (ForwardPhase::WritingPty { pty_ready }, ForwardEvent::Wrote(result)) => after_write(
            result,
            if pty_ready {
                (ForwardPhase::ReadingPty, ForwardAction::Read(Side::Pty))
            } else {
                (ForwardPhase::AwaitingPoll, ForwardAction::Poll)
            },
        ),
        (ForwardPhase::WritingBluetooth, ForwardEvent::Wrote(result)) => after_write(
            result,
            (ForwardPhase::AwaitingPoll, ForwardAction::Poll),
        ),
        _ => (ForwardPhase::Finished, ForwardAction::Fail),
    }
}

fn read_step(result: Result<usize, i32>, from: Side, writing: ForwardPhase) -> (r: (
    ForwardPhase,
    ForwardAction,
))
    ensures
        r == after_read(result, from, writing),
{
    match result {
        Ok(n) => {
            if n == 0 {
                (ForwardPhase::Finished, ForwardAction::Exit(ForwardExitReason::PeerClosed))
            } else {
                let to = match from {
                    Side::Bluetooth => Side::Pty,
                    Side::Pty => Side::Bluetooth,
                };
                (writing, ForwardAction::WriteAll { to, len: n })
            }
        },
        Err(e) => {
            if e == EINTR || e == EAGAIN {
                (ForwardPhase::AwaitingPoll, ForwardAction::Poll)
            } else if is_disconnect_errno(e) {
                (ForwardPhase::Finished, ForwardAction::Exit(ForwardExitReason::PeerClosed))
            } else {
                (ForwardPhase::Finished, ForwardAction::Fail)
            }
        },
    }
}

fn write_step(result: Result<(), WriteFailure>, next: (ForwardPhase, ForwardAction)) -> (r: (
    ForwardPhase,
    ForwardAction,
))
    ensures
        r == after_write(result, next),
{
    match result {
        Ok(()) => next,
        Err(f) => {
            if is_disconnect_error(&f) {
                (ForwardPhase::Finished, ForwardAction::Exit(ForwardExitReason::PeerClosed))
            } else {
                (ForwardPhase::Finished, ForwardAction::Fail)
            }
        },
    }
}

/// The pump's transition for an event that its phase accepts.
pub fn forward_step(phase: ForwardPhase, event: ForwardEvent) -> (r: (ForwardPhase, ForwardAction))
    requires
        accepts(phase, event),
    ensures
        r == forward_next(phase, event),
{
    match (phase, event) {
        (ForwardPhase::Starting, ForwardEvent::Started(ok)) => {
            if ok {
                (ForwardPhase::AwaitingPoll, ForwardAction::Poll)
            } else {
                (ForwardPhase::Finished, ForwardAction::Fail)
            }
        },
        (ForwardPhase::AwaitingPoll, ForwardEvent::PollFailed) => (
            ForwardPhase::Finished,
            ForwardAction::Fail,
        ),
        (ForwardPhase::AwaitingPoll, ForwardEvent::Polled { stop, bluetooth, pty }) => {
            if stop.readable {
                (ForwardPhase::Finished, ForwardAction::Exit(ForwardExitReason::StopRequested))
            } else if bluetooth.is_broken() || pty.is_broken() {
                (ForwardPhase::Finished, ForwardAction::Exit(ForwardExitReason::PeerClosed))
            } else if bluetooth.readable {
                (
                    ForwardPhase::ReadingBluetooth { pty_ready: pty.readable },
                    ForwardAction::Read(Side::Bluetooth),
                )
            } else if pty.readable {
                (ForwardPhase::ReadingPty, ForwardAction::Read(Side::Pty))
            } else {
                (ForwardPhase::AwaitingPoll, ForwardAction::Poll)
            }
        },
        (ForwardPhase::ReadingBluetooth { pty_ready }, ForwardEvent::Read(result)) => read_step(
            result,
            Side::Bluetooth,
            ForwardPhase::WritingPty { pty_ready },
        ),
        (ForwardPhase::ReadingPty, ForwardEvent::Read(result)) => read_step(
            result,
            Side::Pty,
            ForwardPhase::WritingBluetooth,
        ),
        (ForwardPhase::WritingPty { pty_ready }, ForwardEvent::Wrote(result)) => {
            let next = if pty_ready {
                (ForwardPhase::ReadingPty, ForwardAction::Read(Side::Pty))
            } else {
                (ForwardPhase::AwaitingPoll, ForwardAction::Poll)
            };
            write_step(result, next)
        },
        (ForwardPhase::WritingBluetooth, ForwardEvent::Wrote(result)) => write_step(
            result,
            (ForwardPhase::AwaitingPoll, ForwardAction::Poll),
        ),
        _ => (ForwardPhase::Finished, ForwardAction::Fail),
    }
}

/// The reason a finished pump reports: a failure counts as the peer closing.
pub fn exit_reason(action: ForwardAction) -> (r: Option<ForwardExitReason>)
    ensures
        match action {
            ForwardAction::Exit(reason) => r == Some(reason),
            ForwardAction::Fail => r == Some(ForwardExitReason::PeerClosed),
            _ => r is None,
        },
{
    match action {
        ForwardAction::Exit(reason) => Some(reason),
        ForwardAction::Fail => Some(ForwardExitReason::PeerClosed),
        _ => None,
    }
}


/// A stop request wins over everything else a poll reports.
pub proof fn law_stop_request_wins(stop: PollEvents, bluetooth: PollEvents, pty: PollEvents)
    requires
        stop.readable,
    ensures
        forward_next(ForwardPhase::AwaitingPoll, (ForwardEvent::Polled { stop, bluetooth, pty })) == (
            ForwardPhase::Finished,
            ForwardAction::Exit(ForwardExitReason::StopRequested),
        ),
{
}

/// Bytes read from one side are written, all of them, to the other side.
pub proof fn law_bytes_cross_over(pty_ready: bool, n: usize)
    requires
        n > 0,
    ensures
        forward_next((ForwardPhase::ReadingBluetooth { pty_ready }), ForwardEvent::Read(Ok(n))).1
            == (ForwardAction::WriteAll { to: Side::Pty, len: n }),
        forward_next(ForwardPhase::ReadingPty, ForwardEvent::Read(Ok(n))).1
            == (ForwardAction::WriteAll { to: Side::Bluetooth, len: n }),
{
}

/// The pump finishes exactly when it exits or fails, and a stop request is
/// only ever reported when the stop pipe was readable.
pub proof fn law_finish_is_exit(phase: ForwardPhase, event: ForwardEvent)
    requires
        accepts(phase, event),
    ensures
        ({
            let (next, action) = forward_next(phase, event);
            &&& next == ForwardPhase::Finished <==> (action is Exit || action is Fail)
            &&& action == ForwardAction::Exit(ForwardExitReason::StopRequested) ==> (phase
                == ForwardPhase::AwaitingPoll && (event matches ForwardEvent::Polled { stop, .. }
                && stop.readable))
        }),
{
}

/// Each `write` that is not retried leaves strictly fewer bytes to write, so
/// writing a whole buffer ends unless the writes keep being interrupted.
pub proof fn law_write_all_progress(remaining: usize, result: Result<usize, i32>)
    requires
        remaining > 0,
        result matches Ok(n) ==> n <= remaining,
    ensures
        ({
            let step = match result {
                Ok(n) => if n == 0 {
                    WriteStep::Failed(WriteFailure::ShortWrite)
                } else if n == remaining {
                    WriteStep::Done
                } else {
                    WriteStep::Continue((remaining - n) as usize)
                },
                Err(e) => if retry_errno(e) {
                    WriteStep::Continue(remaining)
                } else {
                    WriteStep::Failed(WriteFailure::Errno(e))
                },
            };
            step matches WriteStep::Continue(k) ==> (k < remaining || (result matches Err(e)
                && retry_errno(e)))
        }),
{
}


/// When the stop pipe is quiet, a hang-up, error or invalid-descriptor report
/// on either the socket or the PTY closes the pump as the peer closing; when
/// neither side reports any of these, the pump goes on (reading a readable
/// side, or polling again) instead of finishing.
pub proof fn law_poll_failure_flags_close(stop: PollEvents, bluetooth: PollEvents, pty: PollEvents)
    requires
        !stop.readable,
    ensures
        (bluetooth.hangup || bluetooth.error || bluetooth.invalid || pty.hangup || pty.error
            || pty.invalid) ==> forward_next(
            ForwardPhase::AwaitingPoll,
            (ForwardEvent::Polled { stop, bluetooth, pty }),
        ) == (ForwardPhase::Finished, ForwardAction::Exit(ForwardExitReason::PeerClosed)),
        !(bluetooth.hangup || bluetooth.error || bluetooth.invalid || pty.hangup || pty.error
            || pty.invalid) ==> forward_next(
            ForwardPhase::AwaitingPoll,
            (ForwardEvent::Polled { stop, bluetooth, pty }),
        ).0 != ForwardPhase::Finished,
        !(bluetooth.hangup || bluetooth.error || bluetooth.invalid || pty.hangup || pty.error
            || pty.invalid) && bluetooth.readable ==> forward_next(
            ForwardPhase::AwaitingPoll,
            (ForwardEvent::Polled { stop, bluetooth, pty }),
        ).1 == ForwardAction::Read(Side::Bluetooth),
{
}

} // verus!
