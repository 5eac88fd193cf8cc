use ws_net::message::{
    decode_data_frame, decode_data_frame_owned, encode_data_frame, new_data_frame_buffer,
};
use ws_net::pump::{
    finish_data_frame, read_step, PumpAction, PumpEvent, ReadOutcome, ReadStep,
    StreamCancellation, TcpPump, TCP_BUFFER_SIZE,
};

#[test]
fn data_is_forwarded_both_ways() {
    let mut pump = TcpPump::new();
    let frame = encode_data_frame(1, b"out");
    let (action, done) = pump.step(PumpEvent::Read(frame.clone()));
    assert!(matches!(action, PumpAction::Forward(forwarded) if forwarded == frame));
    assert!(!done);
    let payload = decode_data_frame_owned(encode_data_frame(1, b"in")).unwrap().1;
    let (action, done) = pump.step(PumpEvent::Data(payload));
    assert!(matches!(action, PumpAction::Write(payload) if payload.as_slice() == b"in"));
    assert!(!done);
    assert_eq!(pump, TcpPump::new());
}

#[test]
fn forwarding_ends_when_both_directions_have_ended() {
    let mut pump = TcpPump::new();
    let (action, done) = pump.step(PumpEvent::ReadEnded);
    assert!(matches!(action, PumpAction::SendEof));
    assert!(!done);
    assert!(!pump.wants_read());
    assert!(pump.wants_data());
    let (action, done) = pump.step(PumpEvent::DataEnded);
    assert!(matches!(action, PumpAction::ShutdownWrite));
    assert!(done);

    let mut pump = TcpPump::new();
    assert!(!pump.step(PumpEvent::DataEnded).1);
    assert!(pump.wants_read());
    assert!(!pump.wants_data());
    assert!(pump.step(PumpEvent::ReadEnded).1);
}

#[test]
fn forwarding_ends_when_it_is_cancelled() {
    let (action, done) = TcpPump::new().step(PumpEvent::Cancelled);
    assert!(matches!(action, PumpAction::Stop));
    assert!(done);
}

#[test]
fn reads_fill_a_frame_as_long_as_data_is_at_hand() {
    assert_eq!(read_step(0, ReadOutcome::Bytes(0)), ReadStep::Ended);
    assert_eq!(read_step(0, ReadOutcome::Bytes(5)), ReadStep::ReadMore { filled: 5 });
    assert_eq!(read_step(5, ReadOutcome::Bytes(2)), ReadStep::ReadMore { filled: 7 });
    assert_eq!(read_step(7, ReadOutcome::Bytes(0)), ReadStep::Send { filled: 7 });
    assert_eq!(read_step(7, ReadOutcome::WouldBlock), ReadStep::Send { filled: 7 });
    assert_eq!(
        read_step(7, ReadOutcome::Bytes(TCP_BUFFER_SIZE - 7)),
        ReadStep::Send { filled: TCP_BUFFER_SIZE }
    );
    assert_eq!(read_step(7, ReadOutcome::Failed), ReadStep::Fail);
    assert_eq!(read_step(0, ReadOutcome::WouldBlock), ReadStep::Fail);
}

#[test]
fn frames_are_cut_to_what_was_read() {
    let mut frame = new_data_frame_buffer(6, TCP_BUFFER_SIZE);
    frame[8..11].copy_from_slice(b"abc");
    let frame = finish_data_frame(frame, 3);
    assert_eq!(decode_data_frame(&frame), Some((6, b"abc".to_vec())));
}

#[test]
fn cancelling_wakes_up_once() {
    let mut cancellation = StreamCancellation::new();
    assert!(!cancellation.is_cancelled());
    assert!(cancellation.cancel());
    assert!(cancellation.is_cancelled());
    assert!(!cancellation.cancel());
    assert!(cancellation.is_cancelled());
}
