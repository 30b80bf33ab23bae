//! Reassembly of zero-terminated frames from the bytes that the UART hands
//! over piecemeal.
use vstd::prelude::*;

verus! {

/// How many bytes the gateway buffers while waiting for a frame's end.
pub const PACKET_BUFFER_CAPACITY: usize = 8192;

/// The byte that ends a frame.
pub const FRAME_SEPARATOR: u8 = 0x00;

#[verifier::external_type_specification]
#[verifier::external_body]
pub struct ExCapacityError(heapless::CapacityError);

/// A `heapless::Vec` of `PACKET_BUFFER_CAPACITY` bytes.
#[verifier::external_body]
pub struct PacketVec {
    bytes: heapless::Vec<u8, PACKET_BUFFER_CAPACITY>,
}

/// The bytes that a [`PacketVec`] holds.
pub uninterp spec fn packet_bytes(v: PacketVec) -> Seq<u8>;

/// Calls `heapless::Vec::new`: no bytes.
#[verifier::external_body]
fn packet_vec_new() -> (v: PacketVec)
    ensures
        packet_bytes(v).len() == 0,
{
    PacketVec { bytes: heapless::Vec::new() }
}

/// Calls `heapless::Vec::len`; a vector never holds more than its capacity.
#[verifier::external_body]
fn packet_vec_len(v: &PacketVec) -> (n: usize)
    ensures
        n == packet_bytes(*v).len() && n <= PACKET_BUFFER_CAPACITY,
{
    v.bytes.len()
}

/// Calls `heapless::Vec::extend_from_slice`: the bytes are appended when they
/// fit, and nothing changes when they do not.
#[verifier::external_body]
fn packet_vec_extend(v: &mut PacketVec, data: &[u8]) -> (res: Result<(), heapless::CapacityError>)
    ensures
        res is Ok <==> packet_bytes(*old(v)).len() + data@.len() <= PACKET_BUFFER_CAPACITY,
        res is Ok ==> packet_bytes(*final(v)) == packet_bytes(*old(v)) + data@,
        res is Err ==> packet_bytes(*final(v)) == packet_bytes(*old(v)),
{
    v.bytes.extend_from_slice(data)
}

/// Calls `heapless::Vec::clear`.
#[verifier::external_body]
fn packet_vec_clear(v: &mut PacketVec)
    ensures
        packet_bytes(*final(v)).len() == 0,
{
    v.bytes.clear()
}

/// Calls `heapless::Vec::as_slice`.
#[verifier::external_body]
fn packet_vec_as_slice(v: &PacketVec) -> (s: &[u8])
    ensures
        s@ == packet_bytes(*v),
{
    v.bytes.as_slice()
}

/// Calls `heapless::Vec::from_slice`: a vector of the bytes when they fit.
#[verifier::external_body]
fn packet_vec_from_slice(data: &[u8]) -> (res: Result<PacketVec, heapless::CapacityError>)
    ensures
        res is Ok <==> data@.len() <= PACKET_BUFFER_CAPACITY,
        res matches Ok(v) ==> packet_bytes(v) == data@,
{
    heapless::Vec::from_slice(data).map(|bytes| PacketVec { bytes })
}

/// No byte of `s` ends a frame.
pub open spec fn separator_free(s: Seq<u8>) -> bool {
    forall|i: int| 0 <= i < s.len() ==> s[i] != FRAME_SEPARATOR
}

/// `i` is the position of the first separator in `s`.
pub open spec fn is_first_separator(s: Seq<u8>, i: int) -> bool {
    0 <= i < s.len() && s[i] == FRAME_SEPARATOR && separator_free(s.take(i))
}

/// A buffer holds at most one first separator.
pub proof fn lemma_first_separator_unique(s: Seq<u8>, i: int, j: int)
    requires
        is_first_separator(s, i),
        is_first_separator(s, j),
    ensures
        i == j,
{
    if i < j {
        assert(s.take(j)[i] == s[i]);
    } else if j < i {
        assert(s.take(i)[j] == s[j]);
    }
}

/// A frame without separators, sent with its separator and followed by
/// more bytes, is found again whole: the separator found is the one that
/// ends it, the bytes before it are the frame, and the bytes after it are
/// what followed.
pub proof fn lemma_frame_roundtrip(frame: Seq<u8>, rest: Seq<u8>)
    requires
        separator_free(frame),
    ensures
        is_first_separator(frame + seq![FRAME_SEPARATOR] + rest, frame.len() as int),
        (frame + seq![FRAME_SEPARATOR] + rest).take(frame.len() as int) == frame,
        (frame + seq![FRAME_SEPARATOR] + rest).skip(frame.len() as int + 1) == rest,
{
    let s = frame + seq![FRAME_SEPARATOR] + rest;
    assert(s.take(frame.len() as int) =~= frame);
    assert(s.skip(frame.len() as int + 1) =~= rest);
    assert(s[frame.len() as int] == FRAME_SEPARATOR);
}

/// The buffer after taking `data`: appended when it fits, else everything
/// dropped.
pub open spec fn spec_ingest(buf: Seq<u8>, data: Seq<u8>) -> Seq<u8> {
    if buf.len() + data.len() <= PACKET_BUFFER_CAPACITY {
        buf + data
    } else {
        Seq::empty()
    }
}

/// The buffer after taking the chunks one after another.
pub open spec fn spec_ingest_all(buf: Seq<u8>, chunks: Seq<Seq<u8>>) -> Seq<u8>
    decreases chunks.len(),
{
    if chunks.len() == 0 {
        buf
    } else {
        spec_ingest(spec_ingest_all(buf, chunks.drop_last()), chunks.last())
    }
}

/// The chunks' bytes, one chunk after another.
pub open spec fn concat(chunks: Seq<Seq<u8>>) -> Seq<u8>
    decreases chunks.len(),
{
    if chunks.len() == 0 {
        Seq::empty()
    } else {
        concat(chunks.drop_last()) + chunks.last()
    }
}

proof fn lemma_concat_prefix(chunks: Seq<Seq<u8>>, k: int)
    requires
        0 <= k <= chunks.len(),
    ensures
        concat(chunks.take(k)).len() <= concat(chunks).len(),
        forall|i: int| 0 <= i < concat(chunks.take(k)).len() ==> #[trigger] concat(chunks.take(k))[i] == concat(chunks)[i],
    decreases chunks.len(),
{
    if k == chunks.len() {
        assert(chunks.take(k) =~= chunks);
    } else {
        assert(chunks.drop_last().take(k) =~= chunks.take(k));
        lemma_concat_prefix(chunks.drop_last(), k);
    }
}

proof fn lemma_ingest_all_fits(chunks: Seq<Seq<u8>>)
    requires
        concat(chunks).len() <= PACKET_BUFFER_CAPACITY,
    ensures
        spec_ingest_all(Seq::empty(), chunks) == concat(chunks),
    decreases chunks.len(),
{
    if chunks.len() > 0 {
        lemma_ingest_all_fits(chunks.drop_last());
    }
}

/// A frame without separators, sent with its separator and possibly more
/// bytes, in chunks of any size that fit the buffer together, is received
/// whole: no chunk before the one that holds the separator shows a
/// separator, and once all are taken the first separator ends exactly that
/// frame.
pub proof fn lemma_chunks_reassemble(chunks: Seq<Seq<u8>>, frame: Seq<u8>, rest: Seq<u8>)
    requires
        concat(chunks) == frame + seq![FRAME_SEPARATOR] + rest,
        separator_free(frame),
        concat(chunks).len() <= PACKET_BUFFER_CAPACITY,
    ensures
        forall|k: int| 0 <= k <= chunks.len() && concat(chunks.take(k)).len() <= frame.len()
            ==> separator_free(#[trigger] spec_ingest_all(Seq::empty(), chunks.take(k))),
        spec_ingest_all(Seq::empty(), chunks) == concat(chunks),
        is_first_separator(spec_ingest_all(Seq::empty(), chunks), frame.len() as int),
        spec_ingest_all(Seq::empty(), chunks).take(frame.len() as int) == frame,
{
    lemma_ingest_all_fits(chunks);
    lemma_frame_roundtrip(frame, rest);
    let whole = concat(chunks);
    assert forall|k: int| 0 <= k <= chunks.len() && concat(chunks.take(k)).len() <= frame.len()
        implies separator_free(#[trigger] spec_ingest_all(Seq::empty(), chunks.take(k))) by {
        lemma_concat_prefix(chunks, k);
        lemma_ingest_all_fits(chunks.take(k));
        let p = concat(chunks.take(k));
        assert forall|i: int| 0 <= i < p.len() implies p[i] != FRAME_SEPARATOR by {
            assert(p[i] == whole[i]);
            assert(whole[i] == frame[i]);
        }
    }
}

/// The bytes received so far that do not yet end in a complete frame
/// that was accepted.
pub struct FrameAssembler {
    buffer: PacketVec,
}

impl View for FrameAssembler {
    type V = Seq<u8>;

    closed spec fn view(&self) -> Seq<u8> {
        packet_bytes(self.buffer)
    }
}

impl FrameAssembler {
    /// Nothing received yet.
    pub fn new() -> (a: FrameAssembler)
        ensures
            a@ == Seq::<u8>::empty(),
    {
        let a = FrameAssembler { buffer: packet_vec_new() };
        assert(a@ =~= Seq::<u8>::empty());
        a
    }

    /// Takes the bytes just read. When they do not fit beside what is
    /// buffered, everything buffered is dropped, the bytes are not taken
    /// (the caller reads them again), and `false` is returned.
    pub fn ingest(&mut self, data: &[u8]) -> (taken: bool)
        ensures
            taken == (old(self)@.len() + data@.len() <= PACKET_BUFFER_CAPACITY),
            final(self)@ == spec_ingest(old(self)@, data@),
    {
        match packet_vec_extend(&mut self.buffer, data) {
            Ok(()) => true,
            Err(_) => {
                packet_vec_clear(&mut self.buffer);
                assert(self@ =~= Seq::<u8>::empty());
                false
            },
        }
    }

    /// The position of the first separator buffered, if any.
    pub fn find_separator(&self) -> (sep: Option<usize>)
        ensures
            sep matches Some(i) ==> is_first_separator(self@, i as int),
            sep is None ==> separator_free(self@),
    {
        let bytes = packet_vec_as_slice(&self.buffer);
        let mut i: usize = 0;
        while i < bytes.len()
            invariant
                i <= bytes@.len(),
                bytes@ == self@,
                separator_free(bytes@.take(i as int)),
            decreases bytes.len() - i,
        {
            if bytes[i] == FRAME_SEPARATOR {
                return Some(i);
            }
            assert(bytes@.take(i + 1) =~= bytes@.take(i as int).push(bytes@[i as int]));
            i = i + 1;
        }
        assert(bytes@.take(i as int) =~= bytes@);
        None
    }

    /// The bytes before position `sep`: the frame that it ends.
    pub fn frame(&self, sep: usize) -> (frame: Vec<u8>)
        requires
            sep <= self@.len(),
        ensures
            frame@ == self@.take(sep as int),
    {
        let bytes = packet_vec_as_slice(&self.buffer);
        let mut frame: Vec<u8> = Vec::new();
        let mut i: usize = 0;
        while i < sep
            invariant
                i <= sep <= bytes@.len(),
                bytes@ == self@,
                frame@ == bytes@.take(i as int),
            decreases sep - i,
        {
            frame.push(bytes[i]);
            assert(frame@ =~= bytes@.take(i + 1));
            i = i + 1;
        }
        frame
    }

    /// Drops a frame and its separator at `sep`, keeping what follows.
    pub fn discard_through(&mut self, sep: usize)
        requires
            sep < old(self)@.len(),
        ensures
            final(self)@ == old(self)@.skip(sep + 1),
    {
        let _ = packet_vec_len(&self.buffer);
        let rest: Vec<u8> = {
            let bytes = packet_vec_as_slice(&self.buffer);
            let mut rest: Vec<u8> = Vec::new();
            let mut i: usize = sep + 1;
            while i < bytes.len()
                invariant
                    sep + 1 <= i <= bytes@.len(),
                    rest@ == bytes@.subrange(sep + 1, i as int),
                decreases bytes.len() - i,
            {
                rest.push(bytes[i]);
                assert(rest@ =~= bytes@.subrange(sep + 1, i + 1));
                i = i + 1;
            }
            assert(rest@ =~= bytes@.skip(sep + 1));
            rest
        };
        match packet_vec_from_slice(rest.as_slice()) {
            Ok(v) => {
                self.buffer = v;
            },
            Err(_) => {},
        }
    }
}

} // verus!
