use vstd::prelude::*;
use vstd::slice::{slice_subrange, slice_to_vec};

verus! {

/// What stands at the head of a buffer of received bytes.
#[derive(Debug, Clone, Copy, PartialEq, Eq, Structural)]
pub enum Scan {
    /// Nothing, or nothing but whitespace.
    Empty,
    /// A complete JSON value; it ends just before this offset.
    Value(usize),
    /// The beginning of a JSON value that the buffer breaks off in; the value
    /// starts at this offset.
    Incomplete(usize),
    /// Bytes that begin no JSON value.
    Malformed,
}

/// What `serde_json` finds at the head of `bytes` when it reads one value from
/// them as from a stream of values.
pub uninterp spec fn json_scan(bytes: Seq<u8>) -> Scan;

/// Reads one value from the head of `bytes` with `serde_json`'s
/// `StreamDeserializer` (`Deserializer::from_slice(..).into_iter()`, with
/// `serde_json::Value` as what is read). The result is that deserializer's:
/// no next item is `Empty`; a value is `Value` with `byte_offset()` after it;
/// an error that `is_eof()` is `Incomplete` with `byte_offset()`, which then
/// is where the value starts; any other error is `Malformed`. Nothing is
/// claimed about the offsets beyond that they are the deserializer's.
#[verifier::external_body]
fn scan(bytes: &[u8]) -> (r: Scan)
    ensures
        r == json_scan(bytes@),
{
    let mut stream = serde_json::Deserializer::from_slice(bytes).into_iter::<serde_json::Value>();
    match stream.next() {
        None => Scan::Empty,
        Some(Ok(_)) => Scan::Value(stream.byte_offset()),
        Some(Err(e)) if e.is_eof() => Scan::Incomplete(stream.byte_offset()),
        Some(Err(_)) => Scan::Malformed,
    }
}

/// What is done with the head of a buffer once it has been scanned.
#[derive(Debug, Clone, Copy, PartialEq, Eq, Structural)]
pub enum Cut {
    /// The bytes before this offset are a frame; the rest is scanned again.
    Take(usize),
    /// No frame is complete; the bytes from this offset on are held back.
    Keep(usize),
    /// No frame is complete and nothing is worth holding back.
    Discard,
}

/// What is done with a buffer of `len` bytes whose head was found to hold
/// `found`. A complete value is taken as a frame, the beginning of a value is
/// held back from where it starts, and everything else is dropped: whitespace
/// as well as bytes that begin no value. An offset that lies outside the
/// buffer is not followed: such a value is dropped, such a beginning is held
/// back with all that stands before it.
pub open spec fn cut_of(len: nat, found: Scan) -> Cut {
    match found {
        Scan::Value(end) => if 0 < end <= len {
            Cut::Take(end)
        } else {
            Cut::Discard
        },
        Scan::Incomplete(start) => if start <= len {
            Cut::Keep(start)
        } else {
            Cut::Keep(0)
        },
        Scan::Empty | Scan::Malformed => Cut::Discard,
    }
}

/// Decides what is done with a buffer of `len` bytes whose head was found to
/// hold `found`.
pub fn cut(len: usize, found: Scan) -> (r: Cut)
    ensures
        r == cut_of(len as nat, found),
        r matches Cut::Take(end) ==> 0 < end <= len,
        r matches Cut::Keep(start) ==> start <= len,
{
    match found {
        Scan::Value(end) => {
            if 0 < end && end <= len {
                Cut::Take(end)
            } else {
                Cut::Discard
            }
        },
        Scan::Incomplete(start) => {
            if start <= len {
                Cut::Keep(start)
            } else {
                Cut::Keep(0)
            }
        },
        Scan::Empty => Cut::Discard,
        Scan::Malformed => Cut::Discard,
    }
}

/// The complete frames at the head of `bytes`, in order: one for each value
/// found, each with the whitespace in front of it, up to the first place
/// where no complete value stands.
pub open spec fn frames_in(bytes: Seq<u8>) -> Seq<Seq<u8>>
    decreases bytes.len(),
{
    match cut_of(bytes.len(), json_scan(bytes)) {
        Cut::Take(end) => seq![bytes.take(end as int)] + frames_in(bytes.skip(end as int)),
        _ => Seq::empty(),
    }
}

/// The bytes that are kept for later once the frames at the head of `bytes`
/// are taken: the beginning of a value that is not complete yet. Bytes that
/// begin no value are dropped with all that follows them, and so is
/// whitespace at the end.
pub open spec fn left_over(bytes: Seq<u8>) -> Seq<u8>
    decreases bytes.len(),
{
    match cut_of(bytes.len(), json_scan(bytes)) {
        Cut::Take(end) => left_over(bytes.skip(end as int)),
        Cut::Keep(start) => bytes.skip(start as int),
        Cut::Discard => Seq::empty(),
    }
}

/// The bytes of `frames`, one frame after the other.
pub open spec fn joined(frames: Seq<Seq<u8>>) -> Seq<u8>
    decreases frames.len(),
{
    if frames.len() == 0 {
        Seq::empty()
    } else {
        frames[0] + joined(frames.drop_first())
    }
}

/// Whether `part` is what remains of `whole` from some offset on, at or
/// after `from`.
pub open spec fn is_tail_from(part: Seq<u8>, whole: Seq<u8>, from: int) -> bool {
    exists|k: int| from <= k <= whole.len() && part == #[trigger] whole.skip(k)
}

/// Framing invents, repeats and reorders nothing: the frames, put end to end,
/// are the beginning of the input; what is held back is a tail of the input
/// that starts after the last frame; and no frame is empty.
pub proof fn law_frames_partition_the_input(bytes: Seq<u8>)
    ensures
        joined(frames_in(bytes)).len() <= bytes.len(),
        joined(frames_in(bytes)) == bytes.take(joined(frames_in(bytes)).len() as int),
        is_tail_from(left_over(bytes), bytes, joined(frames_in(bytes)).len() as int),
        forall|i: int| 0 <= i < frames_in(bytes).len() ==> (#[trigger] frames_in(bytes)[i]).len() > 0,
    decreases bytes.len(),
{
    match cut_of(bytes.len(), json_scan(bytes)) {
        Cut::Take(end) => {
            let rest = bytes.skip(end as int);
            law_frames_partition_the_input(rest);
            let later = frames_in(rest);
            let all = frames_in(bytes);
            assert(all[0] == bytes.take(end as int));
            assert(all.drop_first() =~= later);
            let n = joined(later).len() as int;
            assert(joined(all) =~= bytes.take(end + n)) by {
                assert(joined(later) == rest.take(n));
            }
            let k = choose|k: int| n <= k <= rest.len() && left_over(rest) == #[trigger] rest.skip(k);
            assert(rest.skip(k) =~= bytes.skip(end + k));
            assert(left_over(bytes) == bytes.skip(end + k));
            assert forall|i: int| 0 <= i < all.len() implies (#[trigger] all[i]).len() > 0 by {
                if i > 0 {
                    assert(all[i] == later[i - 1]);
                }
            }
        },
        Cut::Keep(start) => {
            assert(joined(frames_in(bytes)) =~= bytes.take(0));
            assert(left_over(bytes) == bytes.skip(start as int));
        },
        Cut::Discard => {
            assert(joined(frames_in(bytes)) =~= bytes.take(0));
            assert(left_over(bytes) =~= bytes.skip(bytes.len() as int));
        },
    }
}

/// The values of a sequence of frames, in order.
pub open spec fn frame_views(frames: Seq<Vec<u8>>) -> Seq<Seq<u8>> {
    frames.map_values(|f: Vec<u8>| f@)
}

/// Cuts a stream of bytes, received in chunks of any size, into frames of one
/// JSON value each. Its value is the bytes received so far that belong to no
/// frame yet.
#[derive(Debug)]
pub struct FrameDecoder {
    buffer: Vec<u8>,
}

impl View for FrameDecoder {
    type V = Seq<u8>;

    closed spec fn view(&self) -> Seq<u8> {
        self.buffer@
    }
}

impl Default for FrameDecoder {
    fn default() -> (r: Self)
        ensures
            r@ == Seq::<u8>::empty(),
    {
        FrameDecoder { buffer: Vec::new() }
    }
}

impl FrameDecoder {
    /// A decoder that has received nothing.
    pub fn new() -> (r: Self)
        ensures
            r@ == Seq::<u8>::empty(),
    {
        FrameDecoder { buffer: Vec::new() }
    }

    /// The bytes held back for the next chunk.
    pub fn pending(&self) -> (r: &Vec<u8>)
        ensures
            r@ == self@,
    {
        &self.buffer
    }

    /// Takes the next chunk and returns the frames that are now complete, in
    /// order. The chunk is read as the continuation of what was held back; what
    /// is incomplete at the end is held back in turn.
    pub fn feed(&mut self, chunk: &[u8]) -> (frames: Vec<Vec<u8>>)
        ensures
            frame_views(frames@) == frames_in(old(self)@ + chunk@),
            final(self)@ == left_over(old(self)@ + chunk@),
    {
        let chunk_len: usize = chunk.len();
        let mut c: usize = 0;
        while c < chunk_len
            invariant
                c <= chunk_len,
                chunk_len == chunk@.len(),
                self.buffer@ == old(self)@ + chunk@.take(c as int),
            decreases chunk_len - c,
        {
            self.buffer.push(chunk[c]);
            assert(chunk@.take(c + 1) =~= chunk@.take(c as int).push(chunk@[c as int]));
            c = c + 1;
        }
        assert(chunk@.take(chunk_len as int) =~= chunk@);
        let ghost all = self.buffer@;
        let len: usize = self.buffer.len();
        let mut frames: Vec<Vec<u8>> = Vec::new();
        let mut pos: usize = 0;
        let mut keep_from: usize = len;
        assert(all.skip(0) =~= all);
        assert(frame_views(frames@) =~= Seq::<Seq<u8>>::empty());
        loop
            invariant_except_break
                pos <= len,
                frame_views(frames@) + frames_in(all.skip(pos as int)) == frames_in(all),
                left_over(all.skip(pos as int)) == left_over(all),
            invariant
                len == all.len(),
                self.buffer@ == all,
            ensures
                keep_from <= len,
                frame_views(frames@) == frames_in(all),
                all.skip(keep_from as int) == left_over(all),
            decreases len - pos,
        {
            let rest = slice_subrange(self.buffer.as_slice(), pos, len);
            assert(rest@ =~= all.skip(pos as int));
            match cut(len - pos, scan(rest)) {
                Cut::Take(end) => {
                    let frame = slice_to_vec(slice_subrange(rest, 0, end));
                    let ghost before = frame_views(frames@);
                    frames.push(frame);
                    proof {
                        assert(frame@ =~= rest@.take(end as int));
                        assert(frame_views(frames@) =~= before + seq![rest@.take(end as int)]);
                        assert(rest@.skip(end as int) =~= all.skip(pos + end));
                        assert(before + frames_in(rest@) =~= before + seq![
                            rest@.take(end as int),
                        ] + frames_in(rest@.skip(end as int)));
                    }
                    pos = pos + end;
                },
                Cut::Keep(start) => {
                    keep_from = pos + start;
                    assert(rest@.skip(start as int) =~= all.skip(pos + start));
                    assert(frame_views(frames@) + Seq::<Seq<u8>>::empty() =~= frame_views(frames@));
                    break ;
                },
                Cut::Discard => {
                    keep_from = len;
                    assert(all.skip(len as int) =~= Seq::<u8>::empty());
                    assert(frame_views(frames@) + Seq::<Seq<u8>>::empty() =~= frame_views(frames@));
                    break ;
                },
            }
        }
        let kept = self.buffer.split_off(keep_from);
        assert(kept@ =~= all.skip(keep_from as int));
        self.buffer = kept;
        frames
    }
}

} // verus!
