//! dsnfs: a dead-simple network file sender.
//!
//! The library holds the verified core of the transfer protocol: the frame
//! codec, the sender-side chunking of file contents into frames, the
//! receiver-side state machine that reconstructs files from a frame
//! sequence, and the validation of configuration inputs. The surrounding
//! program supplies the sockets and the file system; the library works on
//! plain bytes and strings.

use vstd::prelude::*;

pub mod arguments;
pub mod packet;
pub mod receiver;
pub mod sender;

use crate::packet::{frame_bytes, frame_payload, lemma_frame_round_trip, PacketType, MAX_PAYLOAD};
use crate::receiver::{spec_run, valid_name, ReceiverError, ReceiverState};
use crate::sender::{
    chunk_remainder, data_chunks, files_frame_seq, lemma_chunk_boundary, lemma_chunking_complete,
    session_frame_seq, terminate_payload,
};

verus! {

/// One file as the protocol sees it: a bare name and the bytes of its
/// content, both as the sender reads them or the receiver writes them.
#[derive(Debug, Clone)]
pub struct FileData {
    pub name: Vec<u8>,
    pub content: Vec<u8>,
}

impl View for FileData {
    type V = (Seq<u8>, Seq<u8>);

    open spec fn view(&self) -> (Seq<u8>, Seq<u8>) {
        (self.name@, self.content@)
    }
}

/// Running the receiver over a file's `Data` frames and its `DataEnd` frame
/// appends exactly the flattened chunks and the remainder to the open file,
/// closes it, and goes on with what follows.
proof fn lemma_run_data(
    chunks: Seq<Seq<u8>>,
    remv: Seq<u8>,
    rest: Seq<Seq<u8>>,
    name: Seq<u8>,
    acc: Seq<u8>,
    done: Seq<(Seq<u8>, Seq<u8>)>,
)
    requires
        forall|i: int| 0 <= i < chunks.len() ==> (#[trigger] chunks[i]).len() <= MAX_PAYLOAD,
        remv.len() <= MAX_PAYLOAD,
    ensures
        spec_run(
            chunks.map_values(|ch: Seq<u8>| frame_bytes(PacketType::Data, ch)) + seq![
                frame_bytes(PacketType::DataEnd, remv),
            ] + rest,
            ReceiverState::ReceivingData,
            name,
            acc,
            done,
        ) == spec_run(
            rest,
            ReceiverState::AwaitName,
            seq![],
            seq![],
            done.push((name, acc + chunks.flatten() + remv)),
        ),
    decreases chunks.len(),
{
    let to_frame = |ch: Seq<u8>| frame_bytes(PacketType::Data, ch);
    let frames = chunks.map_values(to_frame) + seq![frame_bytes(PacketType::DataEnd, remv)] + rest;
    lemma_frame_round_trip(PacketType::DataEnd, remv);
    if chunks.len() == 0 {
        assert(frames[0] == frame_bytes(PacketType::DataEnd, remv));
        assert(frames.drop_first() =~= rest);
        assert(frame_payload(frame_bytes(PacketType::DataEnd, remv)) == remv);
        assert(chunks.flatten() =~= Seq::<u8>::empty());
        assert(acc + chunks.flatten() + remv =~= acc + remv);
        assert(acc + frame_payload(frame_bytes(PacketType::DataEnd, remv)) =~= acc + chunks.flatten()
            + remv);
    } else {
        let c0 = chunks[0];
        lemma_frame_round_trip(PacketType::Data, c0);
        assert(frames[0] == to_frame(c0));
        assert(frames.drop_first() =~= chunks.drop_first().map_values(to_frame) + seq![
            frame_bytes(PacketType::DataEnd, remv),
        ] + rest);
        lemma_run_data(chunks.drop_first(), remv, rest, name, acc + c0, done);
        assert(chunks.flatten() == c0 + chunks.drop_first().flatten());
        assert(acc + c0 + chunks.drop_first().flatten() + remv =~= acc + chunks.flatten() + remv);
        assert(acc + frame_payload(to_frame(c0)) =~= acc + c0);
    }
}

/// Running the receiver over the frames of a list of files (each with a
/// valid name) and the closing `Terminate` frame finishes every file, in
/// order, and ends the session gracefully.
proof fn lemma_run_files(files: Seq<(Seq<u8>, Seq<u8>)>, cs: nat, done: Seq<(Seq<u8>, Seq<u8>)>)
    requires
        1 <= cs <= MAX_PAYLOAD,
        forall|i: int| 0 <= i < files.len() ==> valid_name((#[trigger] files[i]).0) && files[i].0.len()
            <= MAX_PAYLOAD,
    ensures
        spec_run(
            files_frame_seq(files, cs) + seq![frame_bytes(PacketType::Terminate, terminate_payload())],
            ReceiverState::AwaitName,
            seq![],
            seq![],
            done,
        ) == Ok::<Seq<(Seq<u8>, Seq<u8>)>, ReceiverError>(done + files),
    decreases files.len(),
{
    let term = frame_bytes(PacketType::Terminate, terminate_payload());
    lemma_frame_round_trip(PacketType::Terminate, terminate_payload());
    let frames = files_frame_seq(files, cs) + seq![term];
    if files.len() == 0 {
        assert(files_frame_seq(files, cs) =~= Seq::<Seq<u8>>::empty());
        assert(frames[0] == term);
        assert(done + files =~= done);
    } else {
        let name = files[0].0;
        let content = files[0].1;
        lemma_frame_round_trip(PacketType::Name, name);
        assert(frames[0] == frame_bytes(PacketType::Name, name));
        assert(frame_payload(frame_bytes(PacketType::Name, name)) == name);
        let to_frame = |ch: Seq<u8>| frame_bytes(PacketType::Data, ch);
        let chunks = data_chunks(content, cs);
        let remv = chunk_remainder(content, cs);
        lemma_chunk_boundary(content, cs);
        assert forall|i: int| 0 <= i < chunks.len() implies (#[trigger] chunks[i]).len()
            <= MAX_PAYLOAD by {
            sender::lemma_chunk_len(content, cs, i);
        }
        assert(frames.drop_first() =~= chunks.map_values(to_frame) + seq![
            frame_bytes(PacketType::DataEnd, remv),
        ] + (files_frame_seq(files.drop_first(), cs) + seq![term]));
        lemma_run_data(
            chunks,
            remv,
            files_frame_seq(files.drop_first(), cs) + seq![term],
            name,
            seq![],
            done,
        );
        lemma_chunking_complete(content, cs);
        assert(seq![] + chunks.flatten() + remv =~= content);
        assert(done.push((name, content)) == done.push(files[0]));
        lemma_run_files(files.drop_first(), cs, done.push(files[0]));
        assert(done.push(files[0]) + files.drop_first() =~= done + files);
    }
}

/// Round trip of a whole session: feeding the frame sequence that the sender
/// lays out for any list of files (each with a valid bare name that fits a
/// frame) to the receiver state machine reconstructs exactly those files, in
/// order, and ends the session gracefully.
pub proof fn lemma_session_round_trip(files: Seq<(Seq<u8>, Seq<u8>)>, cs: nat)
    requires
        1 <= cs <= MAX_PAYLOAD,
        forall|i: int| 0 <= i < files.len() ==> valid_name((#[trigger] files[i]).0) && files[i].0.len()
            <= MAX_PAYLOAD,
    ensures
        spec_run(
            session_frame_seq(files, cs),
            ReceiverState::AwaitName,
            seq![],
            seq![],
            seq![],
        ) == Ok::<Seq<(Seq<u8>, Seq<u8>)>, ReceiverError>(files),
{
    lemma_run_files(files, cs, seq![]);
    assert(Seq::<(Seq<u8>, Seq<u8>)>::empty() + files =~= files);
    assert(seq![] + files =~= files);
}

} // verus!
