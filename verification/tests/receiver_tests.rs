use dsnfs::packet::{Packet, PacketType};
use dsnfs::receiver::{
    receiver_step, run_session, validate_name, ReceiverAction, ReceiverError, ReceiverState,
};
use dsnfs::sender::session_frames;
use dsnfs::FileData;

#[test]
fn bare_names_are_accepted() {
    assert!(validate_name(b"a.txt"));
    assert!(validate_name(b"notes"));
}

#[test]
fn empty_and_separated_names_are_rejected() {
    assert!(!validate_name(b""));
    assert!(!validate_name(b"../evil"));
    assert!(!validate_name(b"a/b"));
    assert!(!validate_name(b"a\\b"));
}

#[test]
fn data_frame_before_any_name_is_fatal() {
    let p = Packet::new(PacketType::Data, b"xyz");
    let r = receiver_step(ReceiverState::AwaitName, &p);
    assert_eq!(r.unwrap_err(), ReceiverError::UnexpectedFrame);
}

#[test]
fn data_end_frame_before_any_name_is_fatal() {
    let p = Packet::new(PacketType::DataEnd, b"");
    let r = receiver_step(ReceiverState::AwaitName, &p);
    assert_eq!(r.unwrap_err(), ReceiverError::UnexpectedFrame);
}

#[test]
fn name_frame_mid_file_is_fatal() {
    let p = Packet::new(PacketType::Name, b"b.txt");
    let r = receiver_step(ReceiverState::ReceivingData, &p);
    assert_eq!(r.unwrap_err(), ReceiverError::UnexpectedFrame);
}

#[test]
fn terminate_frame_mid_file_is_fatal() {
    let p = Packet::new(PacketType::Terminate, &[0]);
    let r = receiver_step(ReceiverState::ReceivingData, &p);
    assert_eq!(r.unwrap_err(), ReceiverError::UnexpectedFrame);
}

#[test]
fn terminate_in_await_name_ends_the_session() {
    let p = Packet::new(PacketType::Terminate, &[0]);
    let (next, action) = receiver_step(ReceiverState::AwaitName, &p).unwrap();
    assert_eq!(next, ReceiverState::Terminated);
    assert!(matches!(action, ReceiverAction::EndSession));
}

#[test]
fn valid_name_opens_a_file() {
    let p = Packet::new(PacketType::Name, b"a.txt");
    let (next, action) = receiver_step(ReceiverState::AwaitName, &p).unwrap();
    assert_eq!(next, ReceiverState::ReceivingData);
    match action {
        ReceiverAction::StartFile { name } => assert_eq!(name, b"a.txt".to_vec()),
        other => panic!("expected StartFile, got {:?}", other),
    }
}

#[test]
fn traversal_name_is_rejected_before_any_file_is_created() {
    let p = Packet::new(PacketType::Name, b"../evil");
    let r = receiver_step(ReceiverState::AwaitName, &p);
    assert_eq!(r.unwrap_err(), ReceiverError::InvalidName);
}

#[test]
fn traversal_name_aborts_a_whole_session() {
    let frames = vec![
        Packet::new(PacketType::Name, b"../evil"),
        Packet::new(PacketType::DataEnd, b""),
        Packet::new(PacketType::Terminate, &[0]),
    ];
    assert_eq!(run_session(&frames).unwrap_err(), ReceiverError::InvalidName);
}

#[test]
fn session_of_sender_frames_reproduces_the_file() {
    let files = vec![FileData { name: b"a.txt".to_vec(), content: b"hi".to_vec() }];
    let frames = session_frames(&files, 256);
    let rebuilt = run_session(&frames).unwrap();
    assert_eq!(rebuilt.len(), 1);
    assert_eq!(rebuilt[0].name, b"a.txt".to_vec());
    assert_eq!(rebuilt[0].content, b"hi".to_vec());
}

#[test]
fn six_hundred_bytes_reassemble_identically() {
    let content: Vec<u8> = (0..600u32).map(|i| (i % 199) as u8).collect();
    let files = vec![FileData { name: b"big.bin".to_vec(), content: content.clone() }];
    let frames = session_frames(&files, 256);
    let rebuilt = run_session(&frames).unwrap();
    assert_eq!(rebuilt.len(), 1);
    assert_eq!(rebuilt[0].content, content);
}

#[test]
fn several_files_come_back_in_order() {
    let files = vec![
        FileData { name: b"one".to_vec(), content: vec![1u8; 300] },
        FileData { name: b"two".to_vec(), content: Vec::new() },
        FileData { name: b"three".to_vec(), content: vec![3u8; 256] },
    ];
    let frames = session_frames(&files, 128);
    let rebuilt = run_session(&frames).unwrap();
    assert_eq!(rebuilt.len(), 3);
    for (got, want) in rebuilt.iter().zip(files.iter()) {
        assert_eq!(got.name, want.name);
        assert_eq!(got.content, want.content);
    }
}

#[test]
fn terminate_alone_is_a_successful_empty_session() {
    let frames = vec![Packet::new(PacketType::Terminate, &[0])];
    let rebuilt = run_session(&frames).unwrap();
    assert!(rebuilt.is_empty());
}

#[test]
fn frames_after_terminate_are_not_read() {
    let frames = vec![
        Packet::new(PacketType::Terminate, &[0]),
        Packet::new(PacketType::Data, b"junk"),
    ];
    let rebuilt = run_session(&frames).unwrap();
    assert!(rebuilt.is_empty());
}

#[test]
fn session_without_terminate_is_truncated() {
    let frames = vec![
        Packet::new(PacketType::Name, b"a.txt"),
        Packet::new(PacketType::DataEnd, b"hi"),
    ];
    assert_eq!(run_session(&frames).unwrap_err(), ReceiverError::TruncatedSession);
}

#[test]
fn data_mid_stream_without_a_name_is_fatal_for_the_session() {
    let frames = vec![
        Packet::new(PacketType::Data, b"hi"),
        Packet::new(PacketType::Terminate, &[0]),
    ];
    assert_eq!(run_session(&frames).unwrap_err(), ReceiverError::UnexpectedFrame);
}
