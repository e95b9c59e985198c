//! Sender-side logic: partitioning a file's content into chunks and laying
//! out the frame sequence of a whole session.
//!
//! A file is sent as one `Name` frame, one `Data` frame per full chunk of
//! `chunk_size` bytes, and one `DataEnd` frame carrying the remainder (which
//! is empty when the content length is an exact multiple of the chunk size).
//! After the last file one `Terminate` frame ends the session.

use vstd::arithmetic::div_mod::{
    lemma_fundamental_div_mod, lemma_fundamental_div_mod_converse,
    lemma_mod_division_less_than_divisor,
};
use vstd::arithmetic::mul::lemma_mul_inequality;
use vstd::prelude::*;
use vstd::slice::slice_subrange;

use crate::packet::{frame_bytes, Packet, PacketType, MAX_PAYLOAD};
use crate::FileData;

verus! {

/// The number of full chunks of size `cs` in a content of length `len`.
pub open spec fn full_chunk_count(len: nat, cs: nat) -> nat
    recommends
        cs > 0,
{
    len / cs
}

/// The `i`-th full chunk of `c`: the `cs` bytes starting at `i * cs`.
pub open spec fn chunk_at(c: Seq<u8>, cs: nat, i: int) -> Seq<u8>
    recommends
        cs > 0,
        0 <= i < full_chunk_count(c.len(), cs),
{
    c.subrange(i * cs, i * cs + cs)
}

/// All full chunks of `c`, in order.
pub open spec fn data_chunks(c: Seq<u8>, cs: nat) -> Seq<Seq<u8>>
    recommends
        cs > 0,
{
    Seq::new(full_chunk_count(c.len(), cs), |i: int| chunk_at(c, cs, i))
}

/// The bytes of `c` that follow its last full chunk.
pub open spec fn chunk_remainder(c: Seq<u8>, cs: nat) -> Seq<u8>
    recommends
        cs > 0,
{
    c.subrange((full_chunk_count(c.len(), cs) * cs) as int, c.len() as int)
}

/// Every full chunk is exactly `cs` bytes long.
pub proof fn lemma_chunk_len(c: Seq<u8>, cs: nat, i: int)
    requires
        cs > 0,
        0 <= i < full_chunk_count(c.len(), cs),
    ensures
        chunk_at(c, cs, i).len() == cs,
{
    let full = full_chunk_count(c.len(), cs) as int;
    lemma_fundamental_div_mod(c.len() as int, cs as int);
    lemma_mod_division_less_than_divisor(c.len() as int, cs as int);
    lemma_mul_inequality(i + 1, full, cs as int);
    assert(cs as int * full == full * cs) by (nonlinear_arith);
    assert((i + 1) * cs == i * cs + cs) by (nonlinear_arith);
    assert(i * cs >= 0) by (nonlinear_arith)
        requires
            i >= 0,
            cs >= 0,
    ;
}

/// The flattened chunks of a prefix of `c` give back that prefix.
proof fn lemma_chunks_prefix(c: Seq<u8>, cs: nat, k: nat)
    requires
        cs > 0,
        k * cs <= c.len(),
    ensures
        Seq::new(k, |i: int| chunk_at(c, cs, i)).flatten() == c.subrange(0, (k * cs) as int),
    decreases k,
{
    if k == 0 {
        assert(Seq::new(0nat, |i: int| chunk_at(c, cs, i)) =~= Seq::<Seq<u8>>::empty());
        assert(Seq::<Seq<u8>>::empty().flatten() =~= c.subrange(0, 0));
    } else {
        let km1 = (k - 1) as nat;
        assert((k - 1) * cs + cs == k * cs) by (nonlinear_arith);
        lemma_chunks_prefix(c, cs, km1);
        let prev = Seq::new(km1, |i: int| chunk_at(c, cs, i));
        let cur = Seq::new(k, |i: int| chunk_at(c, cs, i));
        assert(cur =~= prev.push(chunk_at(c, cs, km1 as int)));
        prev.lemma_flatten_push(chunk_at(c, cs, km1 as int));
        assert(cur.flatten() =~= c.subrange(0, (k * cs) as int));
    }
}

/// Chunking is complete: the full chunks, in emission order, followed by the
/// remainder reproduce the content exactly.
pub proof fn lemma_chunking_complete(c: Seq<u8>, cs: nat)
    requires
        cs > 0,
    ensures
        data_chunks(c, cs).flatten() + chunk_remainder(c, cs) == c,
{
    let full = full_chunk_count(c.len(), cs);
    lemma_fundamental_div_mod(c.len() as int, cs as int);
    lemma_mod_division_less_than_divisor(c.len() as int, cs as int);
    assert(cs as int * full == full * cs) by (nonlinear_arith);
    lemma_chunks_prefix(c, cs, full);
    assert(data_chunks(c, cs).flatten() + chunk_remainder(c, cs) =~= c);
}

/// Boundary behaviour of the chunking: the remainder is as long as the
/// content length modulo the chunk size; in particular it is empty exactly
/// when the length is a multiple of the chunk size, and a content shorter
/// than one chunk (an empty one included) yields no full chunks at all.
pub proof fn lemma_chunk_boundary(c: Seq<u8>, cs: nat)
    requires
        cs > 0,
    ensures
        chunk_remainder(c, cs).len() == c.len() % cs,
        c.len() % cs == 0 ==> chunk_remainder(c, cs) == Seq::<u8>::empty(),
        c.len() < cs ==> full_chunk_count(c.len(), cs) == 0 && chunk_remainder(c, cs) == c,
{
    let full = full_chunk_count(c.len(), cs);
    lemma_fundamental_div_mod(c.len() as int, cs as int);
    lemma_mod_division_less_than_divisor(c.len() as int, cs as int);
    assert(cs as int * full == full * cs) by (nonlinear_arith);
    if c.len() % cs == 0 {
        assert(chunk_remainder(c, cs) =~= Seq::<u8>::empty());
    }
    if c.len() < cs {
        assert(full == 0) by {
            lemma_fundamental_div_mod_converse(c.len() as int, cs as int, 0, c.len() as int);
        };
        assert(chunk_remainder(c, cs) =~= c);
    }
}

/// The frames that carry one file: its name, one `Data` frame per full
/// chunk, and the `DataEnd` frame with the remainder.
pub open spec fn file_frame_seq(name: Seq<u8>, c: Seq<u8>, cs: nat) -> Seq<Seq<u8>>
    recommends
        cs > 0,
{
    seq![frame_bytes(PacketType::Name, name)]
        + data_chunks(c, cs).map_values(|chunk: Seq<u8>| frame_bytes(PacketType::Data, chunk))
        + seq![frame_bytes(PacketType::DataEnd, chunk_remainder(c, cs))]
}

/// The frames that carry a list of files, in order.
pub open spec fn files_frame_seq(files: Seq<(Seq<u8>, Seq<u8>)>, cs: nat) -> Seq<Seq<u8>>
    recommends
        cs > 0,
    decreases files.len(),
{
    if files.len() == 0 {
        Seq::empty()
    } else {
        file_frame_seq(files[0].0, files[0].1, cs) + files_frame_seq(files.drop_first(), cs)
    }
}

/// The filler payload of a `Terminate` frame.
pub open spec fn terminate_payload() -> Seq<u8> {
    seq![0u8]
}

/// The full frame sequence of a session: every file's frames, then one
/// `Terminate` frame.
pub open spec fn session_frame_seq(files: Seq<(Seq<u8>, Seq<u8>)>, cs: nat) -> Seq<Seq<u8>>
    recommends
        cs > 0,
{
    files_frame_seq(files, cs) + seq![frame_bytes(PacketType::Terminate, terminate_payload())]
}

/// Peeling the last file off `files_frame_seq`.
proof fn lemma_files_frame_seq_snoc(files: Seq<(Seq<u8>, Seq<u8>)>, cs: nat)
    requires
        files.len() > 0,
    ensures
        files_frame_seq(files, cs) == files_frame_seq(files.drop_last(), cs) + file_frame_seq(
            files.last().0,
            files.last().1,
            cs,
        ),
    decreases files.len(),
{
    if files.len() == 1 {
        assert(files.drop_first() =~= Seq::<(Seq<u8>, Seq<u8>)>::empty());
        assert(files.drop_last() =~= Seq::<(Seq<u8>, Seq<u8>)>::empty());
        assert(files_frame_seq(files, cs) =~= files_frame_seq(files.drop_last(), cs)
            + file_frame_seq(files.last().0, files.last().1, cs));
    } else {
        let rest = files.drop_first();
        lemma_files_frame_seq_snoc(rest, cs);
        assert(rest.drop_last() =~= files.drop_last().drop_first());
        assert(rest.last() == files.last());
        assert(files.drop_last()[0] == files[0]);
        assert(files_frame_seq(files, cs) =~= files_frame_seq(files.drop_last(), cs)
            + file_frame_seq(files.last().0, files.last().1, cs));
    }
}

/// Emits the frames of one file: `Name`, one `Data` frame per full chunk of
/// `chunk_size` bytes in order, then `DataEnd` with the remainder.
pub fn file_frames(name: &[u8], content: &[u8], chunk_size: usize) -> (frames: Vec<Packet>)
    requires
        1 <= chunk_size <= MAX_PAYLOAD,
        name@.len() <= MAX_PAYLOAD,
    ensures
        frames@.map_values(|p: Packet| p@) == file_frame_seq(
            name@,
            content@,
            chunk_size as nat,
        ),
{
    let ghost gcs: nat = chunk_size as nat;
    let mut frames: Vec<Packet> = Vec::new();
    frames.push(Packet::new(PacketType::Name, name));
    let mut pos: usize = 0;
    let ghost mut k: nat = 0;
    while content.len() - pos >= chunk_size
        invariant
            1 <= chunk_size <= MAX_PAYLOAD,
            gcs == chunk_size as nat,
            name@.len() <= MAX_PAYLOAD,
            pos == k * gcs,
            pos <= content@.len(),
            frames@.len() == k + 1,
            frames@[0]@ == frame_bytes(PacketType::Name, name@),
            forall|i: int| 1 <= i <= k ==> (#[trigger] frames@[i])@ == frame_bytes(
                PacketType::Data,
                chunk_at(content@, gcs, i - 1),
            ),
        decreases content@.len() - pos,
    {
        let chunk: &[u8] = slice_subrange(content, pos, pos + chunk_size);
        frames.push(Packet::new(PacketType::Data, chunk));
        proof {
            assert(chunk@ =~= chunk_at(content@, gcs, k as int));
            assert(k * gcs + gcs == (k + 1) * gcs) by (nonlinear_arith);
            k = k + 1;
        }
        pos = pos + chunk_size;
    }
    let rem: &[u8] = slice_subrange(content, pos, content.len());
    frames.push(Packet::new(PacketType::DataEnd, rem));
    proof {
        lemma_fundamental_div_mod_converse(
            content@.len() as int,
            gcs as int,
            k as int,
            content@.len() - pos,
        );
        assert(k == full_chunk_count(content@.len(), gcs));
        assert(rem@ =~= chunk_remainder(content@, gcs));
        assert(frames@.map_values(|p: Packet| p@) =~= file_frame_seq(
            name@,
            content@,
            gcs,
        ));
    }
    frames
}

/// Emits the full frame sequence of a session over the given files: each
/// file's frames in the given order, then one `Terminate` frame.
pub fn session_frames(files: &Vec<FileData>, chunk_size: usize) -> (frames: Vec<Packet>)
    requires
        1 <= chunk_size <= MAX_PAYLOAD,
        forall|i: int| 0 <= i < files@.len() ==> (#[trigger] files@[i]).name@.len() <= MAX_PAYLOAD,
    ensures
        frames@.map_values(|p: Packet| p@) == session_frame_seq(
            files@.map_values(|f: FileData| f@),
            chunk_size as nat,
        ),
{
    let ghost gcs: nat = chunk_size as nat;
    let ghost views = files@.map_values(|f: FileData| f@);
    let mut frames: Vec<Packet> = Vec::new();
    let mut j: usize = 0;
    while j < files.len()
        invariant
            1 <= chunk_size <= MAX_PAYLOAD,
            gcs == chunk_size as nat,
            views == files@.map_values(|f: FileData| f@),
            forall|i: int| 0 <= i < files@.len() ==> (#[trigger] files@[i]).name@.len()
                <= MAX_PAYLOAD,
            j <= files@.len(),
            frames@.map_values(|p: Packet| p@) =~= files_frame_seq(views.take(j as int), gcs),
        decreases files@.len() - j,
    {
        let f = &files[j];
        let mut burst = file_frames(f.name.as_slice(), f.content.as_slice(), chunk_size);
        frames.append(&mut burst);
        proof {
            lemma_files_frame_seq_snoc(views.take(j + 1 as int), gcs);
            assert(views.take(j + 1 as int).drop_last() =~= views.take(j as int));
            assert(views.take(j + 1 as int).last() == views[j as int]);
            assert(frames@.map_values(|p: Packet| p@) =~= files_frame_seq(
                views.take(j + 1 as int),
                gcs,
            ));
        }
        j = j + 1;
    }
    let mut filler: Vec<u8> = Vec::new();
    filler.push(0u8);
    frames.push(Packet::new(PacketType::Terminate, filler.as_slice()));
    proof {
        assert(views.take(files@.len() as int) =~= views);
        assert(filler@ =~= terminate_payload());
        assert(frames@.map_values(|p: Packet| p@) =~= session_frame_seq(views, gcs));
    }
    frames
}

/// The sender's connect policy: how many attempts to make before giving up
/// (`None`: no bound) and how long to wait between attempts.
#[derive(Debug, Clone, Copy)]
pub struct RetryPolicy {
    pub max_attempts: Option<u64>,
    pub backoff_millis: u64,
}

impl RetryPolicy {
    /// Whether another connect attempt should be made after `attempts_made`
    /// failed ones.
    pub fn should_retry(&self, attempts_made: u64) -> (r: bool)
        ensures
            r == match self.max_attempts {
                Option::None => true,
                Option::Some(m) => attempts_made < m,
            },
    {
        match self.max_attempts {
            Option::None => true,
            Option::Some(m) => attempts_made < m,
        }
    }
}

} // verus!
