use bluetty::session::io_forward::{
    exit_reason, forward_step, is_disconnect_errno, is_disconnect_error, write_all_step,
    ForwardAction, ForwardEvent, ForwardExitReason, ForwardPhase, PollEvents, Side,
    WriteFailure, WriteStep, EAGAIN, ECONNRESET, EINTR, EIO, ENOTCONN, EPIPE,
};

fn ev(readable: bool, hangup: bool) -> PollEvents {
    PollEvents { readable, hangup, error: false, invalid: false }
}

fn quiet() -> PollEvents {
    ev(false, false)
}

#[test]
fn start_then_poll() {
    assert_eq!(
        forward_step(ForwardPhase::Starting, ForwardEvent::Started(true)),
        (ForwardPhase::AwaitingPoll, ForwardAction::Poll)
    );
    assert_eq!(
        forward_step(ForwardPhase::Starting, ForwardEvent::Started(false)),
        (ForwardPhase::Finished, ForwardAction::Fail)
    );
}

#[test]
fn stop_wins_over_everything() {
    let r = forward_step(
        ForwardPhase::AwaitingPoll,
        ForwardEvent::Polled { stop: ev(true, false), bluetooth: ev(true, true), pty: ev(true, false) },
    );
    assert_eq!(r, (ForwardPhase::Finished, ForwardAction::Exit(ForwardExitReason::StopRequested)));
}

#[test]
fn hangup_closes() {
    let r = forward_step(
        ForwardPhase::AwaitingPoll,
        ForwardEvent::Polled { stop: quiet(), bluetooth: ev(true, false), pty: ev(false, true) },
    );
    assert_eq!(r, (ForwardPhase::Finished, ForwardAction::Exit(ForwardExitReason::PeerClosed)));
    let nval = PollEvents { readable: false, hangup: false, error: false, invalid: true };
    let r = forward_step(
        ForwardPhase::AwaitingPoll,
        ForwardEvent::Polled { stop: quiet(), bluetooth: nval, pty: quiet() },
    );
    assert_eq!(r.1, ForwardAction::Exit(ForwardExitReason::PeerClosed));
    assert_eq!(
        forward_step(ForwardPhase::AwaitingPoll, ForwardEvent::PollFailed),
        (ForwardPhase::Finished, ForwardAction::Fail)
    );
}

#[test]
fn both_sides_served_in_one_round() {
    let (p, a) = forward_step(
        ForwardPhase::AwaitingPoll,
        ForwardEvent::Polled { stop: quiet(), bluetooth: ev(true, false), pty: ev(true, false) },
    );
    assert_eq!(a, ForwardAction::Read(Side::Bluetooth));
    assert_eq!(p, ForwardPhase::ReadingBluetooth { pty_ready: true });
    let (p, a) = forward_step(p, ForwardEvent::Read(Ok(12)));
    assert_eq!(a, ForwardAction::WriteAll { to: Side::Pty, len: 12 });
    let (p, a) = forward_step(p, ForwardEvent::Wrote(Ok(())));
    assert_eq!(a, ForwardAction::Read(Side::Pty));
    let (p, a) = forward_step(p, ForwardEvent::Read(Ok(3)));
    assert_eq!(a, ForwardAction::WriteAll { to: Side::Bluetooth, len: 3 });
    let (p, a) = forward_step(p, ForwardEvent::Wrote(Ok(())));
    assert_eq!((p, a), (ForwardPhase::AwaitingPoll, ForwardAction::Poll));
}

#[test]
fn nothing_ready_polls_again() {
    let r = forward_step(
        ForwardPhase::AwaitingPoll,
        ForwardEvent::Polled { stop: quiet(), bluetooth: quiet(), pty: quiet() },
    );
    assert_eq!(r, (ForwardPhase::AwaitingPoll, ForwardAction::Poll));
    let r = forward_step(
        ForwardPhase::AwaitingPoll,
        ForwardEvent::Polled { stop: quiet(), bluetooth: quiet(), pty: ev(true, false) },
    );
    assert_eq!(r, (ForwardPhase::ReadingPty, ForwardAction::Read(Side::Pty)));
}

#[test]
fn read_outcomes() {
    let reading = ForwardPhase::ReadingBluetooth { pty_ready: true };
    assert_eq!(
        forward_step(reading, ForwardEvent::Read(Err(EINTR))),
        (ForwardPhase::AwaitingPoll, ForwardAction::Poll)
    );
    assert_eq!(
        forward_step(reading, ForwardEvent::Read(Err(EAGAIN))),
        (ForwardPhase::AwaitingPoll, ForwardAction::Poll)
    );
    assert_eq!(
        forward_step(reading, ForwardEvent::Read(Ok(0))).1,
        ForwardAction::Exit(ForwardExitReason::PeerClosed)
    );
    for e in [EPIPE, ECONNRESET, ENOTCONN, EIO] {
        assert_eq!(
            forward_step(ForwardPhase::ReadingPty, ForwardEvent::Read(Err(e))).1,
            ForwardAction::Exit(ForwardExitReason::PeerClosed)
        );
    }
    assert_eq!(
        forward_step(ForwardPhase::ReadingPty, ForwardEvent::Read(Err(9))),
        (ForwardPhase::Finished, ForwardAction::Fail)
    );
}

#[test]
fn write_outcomes() {
    let w = ForwardPhase::WritingPty { pty_ready: false };
    assert_eq!(
        forward_step(w, ForwardEvent::Wrote(Ok(()))),
        (ForwardPhase::AwaitingPoll, ForwardAction::Poll)
    );
    assert_eq!(
        forward_step(w, ForwardEvent::Wrote(Err(WriteFailure::Errno(EPIPE)))).1,
        ForwardAction::Exit(ForwardExitReason::PeerClosed)
    );
    assert_eq!(
        forward_step(ForwardPhase::WritingBluetooth, ForwardEvent::Wrote(Err(WriteFailure::ShortWrite))),
        (ForwardPhase::Finished, ForwardAction::Fail)
    );
}

#[test]
fn write_all_steps() {
    assert_eq!(write_all_step(10, Ok(10)), WriteStep::Done);
    assert_eq!(write_all_step(10, Ok(4)), WriteStep::Continue(6));
    assert_eq!(write_all_step(10, Ok(0)), WriteStep::Failed(WriteFailure::ShortWrite));
    assert_eq!(write_all_step(10, Err(EINTR)), WriteStep::Continue(10));
    assert_eq!(write_all_step(10, Err(EAGAIN)), WriteStep::Continue(10));
    assert_eq!(write_all_step(10, Err(EPIPE)), WriteStep::Failed(WriteFailure::Errno(EPIPE)));
}

#[test]
fn disconnect_classification() {
    assert!(is_disconnect_errno(EPIPE));
    assert!(is_disconnect_errno(EIO));
    assert!(!is_disconnect_errno(EINTR));
    assert!(is_disconnect_error(&WriteFailure::Errno(ECONNRESET)));
    assert!(!is_disconnect_error(&WriteFailure::ShortWrite));
    assert!(!is_disconnect_error(&WriteFailure::Errno(EAGAIN)));
}

#[test]
fn exit_reasons() {
    assert_eq!(exit_reason(ForwardAction::Fail), Some(ForwardExitReason::PeerClosed));
    assert_eq!(
        exit_reason(ForwardAction::Exit(ForwardExitReason::StopRequested)),
        Some(ForwardExitReason::StopRequested)
    );
    assert_eq!(exit_reason(ForwardAction::Poll), None);
}
