use cgroup_oom::descriptor::OwnedDescriptor;
use cgroup_oom::stream::{IoAction, IoEvent, OpState, PipeStream, StreamError};
use std::io::{Read, Write};

/// Runs one read of `stream` to its end against `source`, which never blocks
/// the test for long: the descriptor is reported ready at once.
fn read_through(stream: &mut PipeStream, source: &mut impl Read, buf: &mut [u8]) -> Result<usize, i32> {
    let mut action = stream.poll_read(IoEvent::Polled).unwrap();
    loop {
        let event = match action {
            IoAction::AwaitReadiness { .. } => IoEvent::Ready,
            IoAction::Attempt => match source.read(buf) {
                Ok(n) => IoEvent::Transferred(n),
                Err(e) => IoEvent::Failed(e.raw_os_error().unwrap_or(5)),
            },
            IoAction::Yield => panic!("a ready descriptor does not suspend the task"),
            IoAction::Complete(result) => return result,
        };
        action = stream.poll_read(event).unwrap();
    }
}

fn write_through(stream: &mut PipeStream, sink: &mut impl Write, buf: &[u8]) -> Result<usize, i32> {
    let mut action = stream.poll_write(IoEvent::Polled).unwrap();
    loop {
        let event = match action {
            IoAction::AwaitReadiness { .. } => IoEvent::Ready,
            IoAction::Attempt => match sink.write(buf) {
                Ok(n) => IoEvent::Transferred(n),
                Err(e) => IoEvent::Failed(e.raw_os_error().unwrap_or(5)),
            },
            IoAction::Yield => panic!("a ready descriptor does not suspend the task"),
            IoAction::Complete(result) => return result,
        };
        action = stream.poll_write(event).unwrap();
    }
}

#[test]
fn a_stream_takes_ownership_of_a_descriptor() {
    let stream = PipeStream::new(7).unwrap();
    assert!(stream.is_open());
    assert_eq!(stream.as_raw_fd(), Some(7));
    assert_eq!(stream.into_raw_fd(), Some(7));
}

#[test]
fn a_negative_number_makes_no_stream() {
    assert_eq!(PipeStream::new(-1).err(), Some(StreamError::InvalidDescriptor));
    assert_eq!(PipeStream::new(i32::MIN).err(), Some(StreamError::InvalidDescriptor));
}

#[test]
fn from_fd_owns_the_descriptor() {
    let stream = PipeStream::from_fd(0);
    assert!(stream.is_open());
    assert_eq!(stream.as_raw_fd(), Some(0));
}

#[test]
fn an_owned_descriptor_can_be_wrapped() {
    let owned = OwnedDescriptor::adopt(11).unwrap();
    let stream = PipeStream::from_descriptor(owned);
    assert_eq!(stream.as_raw_fd(), Some(11));
}

#[test]
fn shutdown_hands_the_descriptor_out_for_closing() {
    let mut stream = PipeStream::from_fd(9);
    assert_eq!(stream.shutdown(), Ok(9));
    assert!(!stream.is_open());
    assert_eq!(stream.as_raw_fd(), None);
}

#[test]
fn a_second_shutdown_is_refused() {
    let mut stream = PipeStream::from_fd(9);
    assert_eq!(stream.shutdown(), Ok(9));
    assert_eq!(stream.shutdown(), Err(StreamError::Closed));
    assert_eq!(stream.shutdown(), Err(StreamError::Closed));
    assert!(!stream.is_open());
    assert_eq!(stream.into_raw_fd(), None);
}

#[test]
fn a_closed_stream_neither_reads_nor_writes() {
    let mut stream = PipeStream::from_fd(4);
    stream.shutdown().unwrap();
    assert_eq!(stream.poll_read(IoEvent::Polled), Err(StreamError::Closed));
    assert_eq!(stream.poll_write(IoEvent::Polled), Err(StreamError::Closed));
    assert_eq!(stream.poll_read(IoEvent::Transferred(1)), Err(StreamError::Closed));
}

#[test]
fn a_read_waits_attempts_and_completes() {
    let mut stream = PipeStream::from_fd(4);
    assert_eq!(stream.poll_read(IoEvent::Polled), Ok(IoAction::AwaitReadiness { clear: false }));
    assert_eq!(stream.poll_read(IoEvent::Ready), Ok(IoAction::Attempt));
    assert_eq!(stream.poll_read(IoEvent::Transferred(8)), Ok(IoAction::Complete(Ok(8))));
    assert_eq!(stream.poll_read(IoEvent::Polled), Ok(IoAction::AwaitReadiness { clear: false }));
}

#[test]
fn an_unready_descriptor_suspends_the_task() {
    let mut stream = PipeStream::from_fd(4);
    stream.poll_read(IoEvent::Polled).unwrap();
    assert_eq!(stream.poll_read(IoEvent::NotReady), Ok(IoAction::Yield));
    assert_eq!(stream.poll_read(IoEvent::Polled), Ok(IoAction::AwaitReadiness { clear: false }));
    assert_eq!(stream.poll_read(IoEvent::Ready), Ok(IoAction::Attempt));
}

#[test]
fn a_spurious_wakeup_suspends_again() {
    let mut stream = PipeStream::from_fd(4);
    stream.poll_read(IoEvent::Polled).unwrap();
    for _ in 0..5 {
        assert_eq!(stream.poll_read(IoEvent::Ready), Ok(IoAction::Attempt));
        assert_eq!(stream.poll_read(IoEvent::WouldBlock), Ok(IoAction::AwaitReadiness { clear: true }));
    }
    assert_eq!(stream.poll_read(IoEvent::Ready), Ok(IoAction::Attempt));
    assert_eq!(stream.poll_read(IoEvent::Transferred(3)), Ok(IoAction::Complete(Ok(3))));
}

#[test]
fn end_of_stream_is_no_error() {
    let mut stream = PipeStream::from_fd(4);
    stream.poll_read(IoEvent::Polled).unwrap();
    stream.poll_read(IoEvent::Ready).unwrap();
    assert_eq!(stream.poll_read(IoEvent::Transferred(0)), Ok(IoAction::Complete(Ok(0))));
}

#[test]
fn a_failed_attempt_ends_the_read_with_its_error() {
    let mut stream = PipeStream::from_fd(4);
    stream.poll_read(IoEvent::Polled).unwrap();
    stream.poll_read(IoEvent::Ready).unwrap();
    assert_eq!(stream.poll_read(IoEvent::Failed(5)), Ok(IoAction::Complete(Err(5))));
    assert_eq!(stream.poll_read(IoEvent::Ready), Err(StreamError::UnexpectedEvent));
}

#[test]
fn a_failing_reactor_ends_the_read_with_its_error() {
    let mut stream = PipeStream::from_fd(4);
    stream.poll_read(IoEvent::Polled).unwrap();
    assert_eq!(stream.poll_read(IoEvent::Failed(9)), Ok(IoAction::Complete(Err(9))));
}

#[test]
fn events_out_of_turn_are_refused_and_change_nothing() {
    let mut stream = PipeStream::from_fd(4);
    assert_eq!(stream.poll_read(IoEvent::Ready), Err(StreamError::UnexpectedEvent));
    assert_eq!(stream.poll_read(IoEvent::Transferred(1)), Err(StreamError::UnexpectedEvent));
    assert_eq!(stream.poll_read(IoEvent::Polled), Ok(IoAction::AwaitReadiness { clear: false }));
    assert_eq!(stream.poll_read(IoEvent::WouldBlock), Err(StreamError::UnexpectedEvent));
    assert_eq!(stream.poll_read(IoEvent::Ready), Ok(IoAction::Attempt));
    assert_eq!(stream.poll_read(IoEvent::Polled), Err(StreamError::UnexpectedEvent));
    assert_eq!(stream.poll_read(IoEvent::NotReady), Err(StreamError::UnexpectedEvent));
    assert_eq!(stream.poll_read(IoEvent::Transferred(2)), Ok(IoAction::Complete(Ok(2))));
}

#[test]
fn reading_and_writing_do_not_disturb_each_other() {
    let mut stream = PipeStream::from_fd(4);
    assert_eq!(stream.poll_read(IoEvent::Polled), Ok(IoAction::AwaitReadiness { clear: false }));
    assert_eq!(stream.poll_write(IoEvent::Ready), Err(StreamError::UnexpectedEvent));
    assert_eq!(stream.poll_write(IoEvent::Polled), Ok(IoAction::AwaitReadiness { clear: false }));
    assert_eq!(stream.poll_write(IoEvent::Ready), Ok(IoAction::Attempt));
    assert_eq!(stream.poll_read(IoEvent::NotReady), Ok(IoAction::Yield));
    assert_eq!(stream.poll_write(IoEvent::WouldBlock), Ok(IoAction::AwaitReadiness { clear: true }));
    assert_eq!(stream.poll_write(IoEvent::Ready), Ok(IoAction::Attempt));
    assert_eq!(stream.poll_write(IoEvent::Transferred(16)), Ok(IoAction::Complete(Ok(16))));
    assert_eq!(stream.poll_read(IoEvent::Ready), Ok(IoAction::Attempt));
}

#[test]
fn a_write_that_fails_ends_with_its_error() {
    let mut stream = PipeStream::from_fd(4);
    stream.poll_write(IoEvent::Polled).unwrap();
    stream.poll_write(IoEvent::Ready).unwrap();
    assert_eq!(stream.poll_write(IoEvent::Failed(32)), Ok(IoAction::Complete(Err(32))));
}

#[test]
fn an_operation_advances_on_its_own() {
    let mut op = OpState::Idle;
    assert_eq!(op.advance(IoEvent::NotReady), None);
    assert_eq!(op, OpState::Idle);
    assert_eq!(op.advance(IoEvent::Polled), Some(IoAction::AwaitReadiness { clear: false }));
    assert_eq!(op, OpState::Suspended);
    assert_eq!(op.advance(IoEvent::Ready), Some(IoAction::Attempt));
    assert_eq!(op, OpState::Attempting);
    assert_eq!(op.advance(IoEvent::WouldBlock), Some(IoAction::AwaitReadiness { clear: true }));
    assert_eq!(op, OpState::Suspended);
    assert_eq!(op.advance(IoEvent::Ready), Some(IoAction::Attempt));
    assert_eq!(op.advance(IoEvent::Transferred(8)), Some(IoAction::Complete(Ok(8))));
    assert_eq!(op, OpState::Done);
    assert_eq!(op.advance(IoEvent::Transferred(8)), None);
    assert_eq!(op.advance(IoEvent::Polled), Some(IoAction::AwaitReadiness { clear: false }));
}

#[test]
fn bytes_written_to_a_pipe_are_read_back() {
    let (mut reader, mut writer) = std::io::pipe().unwrap();
    let mut sending = PipeStream::from_fd(4);
    let mut receiving = PipeStream::from_fd(3);
    let message: Vec<u8> = (0..200u8).collect();
    assert_eq!(write_through(&mut sending, &mut writer, &message), Ok(message.len()));
    let mut received = vec![0u8; message.len()];
    assert_eq!(read_through(&mut receiving, &mut reader, &mut received), Ok(message.len()));
    assert_eq!(received, message);
}

#[test]
fn a_pipe_whose_writer_is_closed_reads_as_ended() {
    let (mut reader, writer) = std::io::pipe().unwrap();
    drop(writer);
    let mut receiving = PipeStream::from_fd(3);
    let mut buf = [0u8; 8];
    assert_eq!(read_through(&mut receiving, &mut reader, &mut buf), Ok(0));
}

#[test]
fn the_counter_of_a_notification_is_read_whole() {
    let (mut reader, mut writer) = std::io::pipe().unwrap();
    writer.write_all(&1u64.to_ne_bytes()).unwrap();
    let mut receiving = PipeStream::from_fd(3);
    let mut buf = [0u8; 8];
    assert_eq!(read_through(&mut receiving, &mut reader, &mut buf), Ok(8));
    assert_eq!(u64::from_ne_bytes(buf), 1);
}
