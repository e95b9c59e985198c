//! Receiver-side logic: the state machine that checks the session grammar
//! `(Name Data* DataEnd)* Terminate` and reconstructs files from it.
//!
//! The machine starts in `AwaitName`. A `Name` frame with a valid bare file
//! name opens a file and moves to `ReceivingData`; there every `Data` frame
//! appends its payload and a `DataEnd` frame appends its (possibly empty)
//! payload, closes the file and returns to `AwaitName`. A `Terminate` frame
//! in `AwaitName` ends the session gracefully. Every other frame kind is a
//! protocol violation and fatal.

use vstd::prelude::*;
use vstd::slice::slice_to_vec;

use crate::packet::{frame_kind, frame_payload, wf_frame, Packet, PacketType};
use crate::FileData;

verus! {

/// Where the receiver stands in the session grammar.
#[derive(Debug, Clone, Copy, PartialEq, Eq, Structural)]
pub enum ReceiverState {
    /// Between files: the next frame must be `Name` or `Terminate`.
    AwaitName,
    /// Inside a file: the next frame must be `Data` or `DataEnd`.
    ReceivingData,
    /// A `Terminate` frame was seen; no further frames are read.
    Terminated,
}

/// Why the receiver aborted the session.
#[derive(Debug, Clone, Copy, PartialEq, Eq, Structural)]
pub enum ReceiverError {
    /// A frame kind that the grammar forbids in the current state.
    UnexpectedFrame,
    /// A `Name` payload that is empty or contains a path separator.
    InvalidName,
    /// The frame sequence ended before a `Terminate` frame.
    TruncatedSession,
}

/// What the surroundings must do after one frame is consumed.
#[derive(Debug)]
pub enum ReceiverAction {
    /// Create (truncating) a file of this name in the destination directory.
    StartFile { name: Vec<u8> },
    /// Append these bytes to the open file.
    AppendData { data: Vec<u8> },
    /// Append these bytes (possibly none), then flush and close the file.
    FinishFile { data: Vec<u8> },
    /// Report success; the session is over.
    EndSession,
}

/// A bare file name the receiver accepts: non-empty and free of path
/// separators, so the file stays inside the destination directory.
pub open spec fn valid_name(name: Seq<u8>) -> bool {
    &&& name.len() > 0
    &&& forall|i: int| 0 <= i < name.len() ==> name[i] != 47u8 && name[i] != 92u8
}

/// Whether `name` is a bare file name: non-empty, with neither a slash nor
/// a backslash among its bytes.
pub fn validate_name(name: &[u8]) -> (r: bool)
    ensures
        r == valid_name(name@),
{
    if name.len() == 0 {
        return false;
    }
    let mut i: usize = 0;
    while i < name.len()
        invariant
            i <= name@.len(),
            forall|j: int| 0 <= j < i ==> name@[j] != 47u8 && name@[j] != 92u8,
        decreases name@.len() - i,
    {
        let b: u8 = name[i];
        if b == 47 || b == 92 {
            return false;
        }
        i = i + 1;
    }
    true
}

/// Consumes one frame in the given state: the next state and the action the
/// surroundings must take, or the protocol violation that aborts the session.
pub fn receiver_step(state: ReceiverState, p: &Packet) -> (r: Result<
    (ReceiverState, ReceiverAction),
    ReceiverError,
>)
    requires
        wf_frame(p@),
        state != ReceiverState::Terminated,
    ensures
        state == ReceiverState::AwaitName && frame_kind(p@) == PacketType::Terminate ==> r is Ok
            && r->Ok_0.0 == ReceiverState::Terminated && r->Ok_0.1 matches
            ReceiverAction::EndSession,
        state == ReceiverState::AwaitName && frame_kind(p@) == PacketType::Name && valid_name(
            frame_payload(p@),
        ) ==> r is Ok && r->Ok_0.0 == ReceiverState::ReceivingData && (r->Ok_0.1 matches
            ReceiverAction::StartFile { name } && name@ == frame_payload(p@)),
        state == ReceiverState::AwaitName && frame_kind(p@) == PacketType::Name && !valid_name(
            frame_payload(p@),
        ) ==> r == Err::<(ReceiverState, ReceiverAction), _>(ReceiverError::InvalidName),
        state == ReceiverState::AwaitName && (frame_kind(p@) == PacketType::Data || frame_kind(p@)
            == PacketType::DataEnd) ==> r == Err::<(ReceiverState, ReceiverAction), _>(
            ReceiverError::UnexpectedFrame,
        ),
        state == ReceiverState::ReceivingData && frame_kind(p@) == PacketType::Data ==> r is Ok
            && r->Ok_0.0 == ReceiverState::ReceivingData && (r->Ok_0.1 matches
            ReceiverAction::AppendData { data } && data@ == frame_payload(p@)),
        state == ReceiverState::ReceivingData && frame_kind(p@) == PacketType::DataEnd ==> r is Ok
            && r->Ok_0.0 == ReceiverState::AwaitName && (r->Ok_0.1 matches
            ReceiverAction::FinishFile { data } && data@ == frame_payload(p@)),
        state == ReceiverState::ReceivingData && (frame_kind(p@) == PacketType::Name || frame_kind(
            p@,
        ) == PacketType::Terminate) ==> r == Err::<(ReceiverState, ReceiverAction), _>(
            ReceiverError::UnexpectedFrame,
        ),
{
    match state {
        ReceiverState::AwaitName => {
            match p.get_type() {
                PacketType::Terminate => Ok(
                    (ReceiverState::Terminated, ReceiverAction::EndSession),
                ),
                PacketType::Name => {
                    let name_bytes = p.get_data_slice();
                    if validate_name(name_bytes) {
                        Ok(
                            (
                                ReceiverState::ReceivingData,
                                ReceiverAction::StartFile { name: slice_to_vec(name_bytes) },
                            ),
                        )
                    } else {
                        Err(ReceiverError::InvalidName)
                    }
                },
                _ => Err(ReceiverError::UnexpectedFrame),
            }
        },
        _ => {
            match p.get_type() {
                PacketType::Data => Ok(
                    (
                        ReceiverState::ReceivingData,
                        ReceiverAction::AppendData { data: slice_to_vec(p.get_data_slice()) },
                    ),
                ),
                PacketType::DataEnd => Ok(
                    (
                        ReceiverState::AwaitName,
                        ReceiverAction::FinishFile { data: slice_to_vec(p.get_data_slice()) },
                    ),
                ),
                _ => Err(ReceiverError::UnexpectedFrame),
            }
        },
    }
}

/// What a whole session reconstructs, frame by frame: from `state` with the
/// current file's name and accumulated bytes and the files finished so far,
/// consuming `frames` either completes with the finished files or aborts
/// with the first violation. Frames after a `Terminate` are never read.
pub open spec fn spec_run(
    frames: Seq<Seq<u8>>,
    state: ReceiverState,
    cur_name: Seq<u8>,
    cur_data: Seq<u8>,
    done: Seq<(Seq<u8>, Seq<u8>)>,
) -> Result<Seq<(Seq<u8>, Seq<u8>)>, ReceiverError>
    decreases frames.len(),
{
    if state == ReceiverState::Terminated {
        Ok(done)
    } else if frames.len() == 0 {
        Err(ReceiverError::TruncatedSession)
    } else {
        let f = frames[0];
        let rest = frames.drop_first();
        if state == ReceiverState::AwaitName {
            if frame_kind(f) == PacketType::Terminate {
                Ok(done)
            } else if frame_kind(f) == PacketType::Name {
                if valid_name(frame_payload(f)) {
                    spec_run(rest, ReceiverState::ReceivingData, frame_payload(f), seq![], done)
                } else {
                    Err(ReceiverError::InvalidName)
                }
            } else {
                Err(ReceiverError::UnexpectedFrame)
            }
        } else {
            if frame_kind(f) == PacketType::Data {
                spec_run(
                    rest,
                    ReceiverState::ReceivingData,
                    cur_name,
                    cur_data + frame_payload(f),
                    done,
                )
            } else if frame_kind(f) == PacketType::DataEnd {
                spec_run(
                    rest,
                    ReceiverState::AwaitName,
                    seq![],
                    seq![],
                    done.push((cur_name, cur_data + frame_payload(f))),
                )
            } else {
                Err(ReceiverError::UnexpectedFrame)
            }
        }
    }
}

/// Session termination law: a `Terminate` frame arriving between files ends
/// the session successfully, whatever and however many files were completed
/// before it — none included.
pub proof fn lemma_terminate_ends_session(
    frames: Seq<Seq<u8>>,
    cur_name: Seq<u8>,
    cur_data: Seq<u8>,
    done: Seq<(Seq<u8>, Seq<u8>)>,
)
    requires
        frames.len() > 0,
        frame_kind(frames[0]) == PacketType::Terminate,
    ensures
        spec_run(frames, ReceiverState::AwaitName, cur_name, cur_data, done) == Ok::<
            Seq<(Seq<u8>, Seq<u8>)>,
            ReceiverError,
        >(done),
{
}

/// Grammar enforcement law: a `Data` or `DataEnd` frame arriving between
/// files is fatal, and so is a `Name` or `Terminate` frame arriving in the
/// middle of a file.
pub proof fn lemma_grammar_enforced(
    frames: Seq<Seq<u8>>,
    cur_name: Seq<u8>,
    cur_data: Seq<u8>,
    done: Seq<(Seq<u8>, Seq<u8>)>,
)
    requires
        frames.len() > 0,
    ensures
        frame_kind(frames[0]) == PacketType::Data || frame_kind(frames[0]) == PacketType::DataEnd
            ==> spec_run(frames, ReceiverState::AwaitName, cur_name, cur_data, done) == Err::<
            Seq<(Seq<u8>, Seq<u8>)>,
            ReceiverError,
        >(ReceiverError::UnexpectedFrame),
        frame_kind(frames[0]) == PacketType::Name || frame_kind(frames[0]) == PacketType::Terminate
            ==> spec_run(frames, ReceiverState::ReceivingData, cur_name, cur_data, done) == Err::<
            Seq<(Seq<u8>, Seq<u8>)>,
            ReceiverError,
        >(ReceiverError::UnexpectedFrame),
{
}

/// Traversal rejection law: a `Name` frame whose payload is empty or holds a
/// path separator aborts the session before any file is begun.
pub proof fn lemma_invalid_name_rejected(
    frames: Seq<Seq<u8>>,
    cur_name: Seq<u8>,
    cur_data: Seq<u8>,
    done: Seq<(Seq<u8>, Seq<u8>)>,
)
    requires
        frames.len() > 0,
        frame_kind(frames[0]) == PacketType::Name,
        !valid_name(frame_payload(frames[0])),
    ensures
        spec_run(frames, ReceiverState::AwaitName, cur_name, cur_data, done) == Err::<
            Seq<(Seq<u8>, Seq<u8>)>,
            ReceiverError,
        >(ReceiverError::InvalidName),
{
}

/// Runs the receiver state machine over a complete frame sequence,
/// reconstructing every file in memory. The session succeeds exactly when
/// the frames follow the grammar up to a `Terminate`; frames after the
/// `Terminate` are ignored, as a real receiver stops reading there.
pub fn run_session(frames: &Vec<Packet>) -> (r: Result<Vec<FileData>, ReceiverError>)
    requires
        forall|i: int| 0 <= i < frames@.len() ==> wf_frame((#[trigger] frames@[i])@),
    ensures
        ({
            let outcome = spec_run(
                frames@.map_values(|p: Packet| p@),
                ReceiverState::AwaitName,
                seq![],
                seq![],
                seq![],
            );
            &&& r is Ok <==> outcome is Ok
            &&& r is Ok ==> r->Ok_0@.map_values(|f: FileData| f@) == outcome->Ok_0
            &&& r is Err ==> r->Err_0 == outcome->Err_0
        }),
{
    let ghost views = frames@.map_values(|p: Packet| p@);
    let ghost outcome = spec_run(views, ReceiverState::AwaitName, seq![], seq![], seq![]);
    let mut state = ReceiverState::AwaitName;
    let mut cur_name: Vec<u8> = Vec::new();
    let mut cur_data: Vec<u8> = Vec::new();
    let mut done: Vec<FileData> = Vec::new();
    let mut i: usize = 0;
    proof {
        assert(views.skip(0) =~= views);
        assert(cur_name@ =~= Seq::<u8>::empty());
        assert(cur_data@ =~= Seq::<u8>::empty());
        assert(done@.map_values(|f: FileData| f@) =~= Seq::<(Seq<u8>, Seq<u8>)>::empty());
        assert(Seq::<u8>::empty() =~= seq![]);
        assert(Seq::<(Seq<u8>, Seq<u8>)>::empty() =~= seq![]);
    }
    while i < frames.len() && state != ReceiverState::Terminated
        invariant
            views == frames@.map_values(|p: Packet| p@),
            outcome == spec_run(views, ReceiverState::AwaitName, seq![], seq![], seq![]),
            forall|j: int| 0 <= j < frames@.len() ==> wf_frame((#[trigger] frames@[j])@),
            i <= frames@.len(),
            spec_run(
                views.skip(i as int),
                state,
                cur_name@,
                cur_data@,
                done@.map_values(|f: FileData| f@),
            ) == outcome,
        decreases frames@.len() - i,
    {
        let p = &frames[i];
        let ghost pre_name = cur_name@;
        let ghost pre_data = cur_data@;
        let ghost pre_done = done@.map_values(|f: FileData| f@);
        proof {
            assert(views.skip(i as int)[0] == p@);
            assert(views.skip(i as int).drop_first() =~= views.skip(i + 1 as int));
        }
        match receiver_step(state, p) {
            Err(e) => {
                proof {
                    assert(outcome == Err::<Seq<(Seq<u8>, Seq<u8>)>, ReceiverError>(e));
                }
                return Err(e);
            },
            Ok((next, action)) => {
                match action {
                    ReceiverAction::EndSession => {
                        state = next;
                    },
                    ReceiverAction::StartFile { name } => {
                        cur_name = name;
                        cur_data = Vec::new();
                        state = next;
                        proof {
                            assert(cur_data@ =~= Seq::<u8>::empty());
                        }
                    },
                    ReceiverAction::AppendData { data } => {
                        let mut d = data;
                        cur_data.append(&mut d);
                        state = next;
                        proof {
                            assert(cur_data@ == pre_data + frame_payload(p@));
                        }
                    },
                    ReceiverAction::FinishFile { data } => {
                        let mut d = data;
                        let mut content = cur_data;
                        cur_data = Vec::new();
                        content.append(&mut d);
                        let name = cur_name;
                        cur_name = Vec::new();
                        done.push(FileData { name, content });
                        state = next;
                        proof {
                            assert(content@ == pre_data + frame_payload(p@));
                            assert(done@.map_values(|f: FileData| f@) =~= pre_done.push(
                                (pre_name, pre_data + frame_payload(p@)),
                            ));
                            assert(cur_name@ =~= Seq::<u8>::empty());
                            assert(cur_data@ =~= Seq::<u8>::empty());
                        }
                    },
                }
            },
        }
        i = i + 1;
    }
    if state == ReceiverState::Terminated {
        proof {
            assert(outcome == Ok::<Seq<(Seq<u8>, Seq<u8>)>, ReceiverError>(
                done@.map_values(|f: FileData| f@),
            ));
        }
        Ok(done)
    } else {
        proof {
            assert(views.skip(i as int).len() == 0);
        }
        Err(ReceiverError::TruncatedSession)
    }
}

} // verus!
