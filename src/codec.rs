//! Wire framing.
//!
//! Every unit on the stream is `[type_code: u8][length: u32 BE][payload]`.
//! The decoder is incremental: it keeps either nothing (awaiting a header)
//! or one parsed header (awaiting its payload), and leaves every byte it has
//! not consumed in the caller's buffer.

use vstd::prelude::*;

use crate::payload::RawPayload;

verus! {

/// Number of bytes of a header: one for the type, four for the length.
pub const HEADER_LEN: usize = 5;

/// The four big-endian bytes of `n`.
pub open spec fn be32(n: u32) -> Seq<u8> {
    seq![
        ((n >> 24u32) & 0xffu32) as u8,
        ((n >> 16u32) & 0xffu32) as u8,
        ((n >> 8u32) & 0xffu32) as u8,
        (n & 0xffu32) as u8,
    ]
}

/// The number that four bytes denote in big-endian order.
pub open spec fn be32_value(b0: u8, b1: u8, b2: u8, b3: u8) -> u32 {
    ((b0 as u32) << 24u32) | ((b1 as u32) << 16u32) | ((b2 as u32) << 8u32) | (b3 as u32)
}

/// The header bytes of a frame of the given type and payload length.
pub open spec fn header_bytes(type_code: u8, len: u32) -> Seq<u8> {
    seq![type_code] + be32(len)
}

/// The bytes of a whole frame.
pub open spec fn frame_bytes(type_code: u8, content: Seq<u8>) -> Seq<u8>
    recommends
        content.len() <= u32::MAX,
{
    header_bytes(type_code, content.len() as u32) + content
}

/// The payload length declared by the header at the start of `input`.
pub open spec fn declared_len(input: Seq<u8>) -> nat
    recommends
        input.len() >= 5,
{
    be32_value(input[1], input[2], input[3], input[4]) as nat
}

/// The first frame of a byte stream, and the bytes after it; `None` while the
/// stream does not yet hold a whole frame.
pub open spec fn next_frame(input: Seq<u8>) -> Option<((u8, Seq<u8>), Seq<u8>)> {
    if input.len() >= 5 && input.len() >= 5 + declared_len(input) {
        let end = 5 + declared_len(input);
        Some(((input[0], input.subrange(5, end as int)), input.subrange(end as int, input.len() as int)))
    } else {
        None
    }
}

proof fn lemma_be32_value_of_bytes(n: u32)
    ensures
        be32_value(
            ((n >> 24u32) & 0xffu32) as u8,
            ((n >> 16u32) & 0xffu32) as u8,
            ((n >> 8u32) & 0xffu32) as u8,
            (n & 0xffu32) as u8,
        ) == n,
{
    assert(((((((n >> 24u32) & 0xffu32) as u8) as u32) << 24u32) | (((((n >> 16u32) & 0xffu32) as u8) as u32) << 16u32)
        | (((((n >> 8u32) & 0xffu32) as u8) as u32) << 8u32) | (((n & 0xffu32) as u8) as u32)) == n) by (bit_vector);
}

proof fn lemma_bytes_of_be32_value(b0: u8, b1: u8, b2: u8, b3: u8)
    ensures
        be32(be32_value(b0, b1, b2, b3)) == seq![b0, b1, b2, b3],
{
    let n = be32_value(b0, b1, b2, b3);
    assert(n == ((b0 as u32) << 24u32) | ((b1 as u32) << 16u32) | ((b2 as u32) << 8u32) | (b3 as u32));
    assert(((n >> 24u32) & 0xffu32) as u8 == b0 && ((n >> 16u32) & 0xffu32) as u8 == b1
        && ((n >> 8u32) & 0xffu32) as u8 == b2 && (n & 0xffu32) as u8 == b3) by (bit_vector)
        requires
            n == ((b0 as u32) << 24u32) | ((b1 as u32) << 16u32) | ((b2 as u32) << 8u32) | (b3 as u32),
    ;
    assert(be32(n) =~= seq![b0, b1, b2, b3]);
}

/// Round trip: the first frame of an encoded frame followed by any bytes is
/// that frame, and what follows it is left over.
pub proof fn lemma_round_trip(type_code: u8, content: Seq<u8>, rest: Seq<u8>)
    requires
        content.len() <= u32::MAX,
    ensures
        next_frame(frame_bytes(type_code, content) + rest) == Some(((type_code, content), rest)),
{
    let input = frame_bytes(type_code, content) + rest;
    let n = content.len() as u32;
    lemma_be32_value_of_bytes(n);
    assert(input[1] == ((n >> 24u32) & 0xffu32) as u8);
    assert(input[2] == ((n >> 16u32) & 0xffu32) as u8);
    assert(input[3] == ((n >> 8u32) & 0xffu32) as u8);
    assert(input[4] == (n & 0xffu32) as u8);
    assert(declared_len(input) == content.len());
    assert(input.subrange(5, 5 + content.len() as int) =~= content);
    assert(input.subrange(5 + content.len() as int, input.len() as int) =~= rest);
}

/// Split delivery: no proper prefix of an encoded frame holds a frame, so a
/// decoder that has seen only part of a frame yields nothing and keeps it;
/// once the rest has come, the frame decodes whole.
pub proof fn lemma_partial_frame(type_code: u8, content: Seq<u8>, k: int)
    requires
        content.len() <= u32::MAX,
        0 <= k < frame_bytes(type_code, content).len(),
    ensures
        next_frame(frame_bytes(type_code, content).take(k)) is None,
        next_frame(frame_bytes(type_code, content).take(k) + frame_bytes(type_code, content).skip(k))
            == Some(((type_code, content), Seq::<u8>::empty())),
{
    lemma_round_trip(type_code, content, Seq::empty());
    assert(frame_bytes(type_code, content).take(k) + frame_bytes(type_code, content).skip(k)
        =~= frame_bytes(type_code, content) + Seq::<u8>::empty());
    let whole = frame_bytes(type_code, content);
    let part = whole.take(k);
    if part.len() >= 5 {
        let n = content.len() as u32;
        lemma_be32_value_of_bytes(n);
        assert(part[1] == whole[1] && part[2] == whole[2] && part[3] == whole[3] && part[4] == whole[4]);
        assert(declared_len(part) == content.len());
    }
}

/// The bytes of a sequence of chunks, one after the other.
pub open spec fn concat_chunks(chunks: Seq<Seq<u8>>) -> Seq<u8>
    decreases chunks.len(),
{
    if chunks.len() == 0 {
        Seq::empty()
    } else {
        concat_chunks(chunks.drop_last()) + chunks.last()
    }
}

proof fn lemma_concat_split(chunks: Seq<Seq<u8>>, j: int)
    requires
        0 <= j <= chunks.len(),
    ensures
        concat_chunks(chunks) == concat_chunks(chunks.take(j)) + concat_chunks(chunks.skip(j)),
    decreases chunks.len(),
{
    if j == chunks.len() {
        assert(chunks.take(j) =~= chunks);
        assert(chunks.skip(j) =~= Seq::<Seq<u8>>::empty());
        assert(concat_chunks(chunks) + Seq::<u8>::empty() =~= concat_chunks(chunks));
    } else {
        let dl = chunks.drop_last();
        lemma_concat_split(dl, j);
        assert(dl.take(j) =~= chunks.take(j));
        assert(chunks.skip(j).drop_last() =~= dl.skip(j));
        assert(chunks.skip(j).last() == chunks.last());
        assert(concat_chunks(chunks.take(j)) + (concat_chunks(dl.skip(j)) + chunks.last())
            =~= (concat_chunks(chunks.take(j)) + concat_chunks(dl.skip(j))) + chunks.last());
    }
}

proof fn lemma_concat_nonempty(chunks: Seq<Seq<u8>>)
    requires
        chunks.len() >= 1,
        forall|i: int| 0 <= i < chunks.len() ==> (#[trigger] chunks[i]).len() > 0,
    ensures
        concat_chunks(chunks).len() > 0,
{
    assert(chunks.last() == chunks[chunks.len() - 1]);
}

/// Delivery in any number of chunks: when a frame's bytes arrive as
/// non-empty chunks split anywhere, the bytes received after each chunk but
/// the last hold no frame, so each decode before the last chunk yields
/// nothing and keeps everything; after the last chunk the frame decodes
/// whole and nothing is left over.
pub proof fn lemma_chunked_delivery(type_code: u8, content: Seq<u8>, chunks: Seq<Seq<u8>>)
    requires
        content.len() <= u32::MAX,
        chunks.len() >= 1,
        forall|i: int| 0 <= i < chunks.len() ==> (#[trigger] chunks[i]).len() > 0,
        concat_chunks(chunks) == frame_bytes(type_code, content),
    ensures
        forall|i: int|
            1 <= i < chunks.len() ==> next_frame(#[trigger] concat_chunks(chunks.take(i))) is None,
        next_frame(concat_chunks(chunks)) == Some(((type_code, content), Seq::<u8>::empty())),
{
    let whole = frame_bytes(type_code, content);
    assert forall|i: int| 1 <= i < chunks.len() implies next_frame(
        #[trigger] concat_chunks(chunks.take(i)),
    ) is None by {
        lemma_concat_split(chunks, i);
        let tail = chunks.skip(i);
        assert forall|t: int| 0 <= t < tail.len() implies (#[trigger] tail[t]).len() > 0 by {
            assert(tail[t] == chunks[i + t]);
        }
        lemma_concat_nonempty(tail);
        let k = concat_chunks(chunks.take(i)).len() as int;
        assert(whole.take(k) =~= concat_chunks(chunks.take(i)));
        lemma_partial_frame(type_code, content, k);
    }
    lemma_round_trip(type_code, content, Seq::empty());
    assert(whole + Seq::<u8>::empty() =~= whole);
}

/// A parsed frame header.
#[derive(Clone, Copy)]
struct Header {
    type_code: u8,
    payload_length: u32,
}

/// What the decoder waits for.
#[derive(Clone, Copy)]
enum State {
    Header,
    Payload(Header),
}

/// Incremental frame encoder and decoder.
pub struct Codec {
    state: State,
}

impl Codec {
    /// The bytes the codec has taken from the stream without yet handing out
    /// a frame for them: the header it holds, if any.
    pub closed spec fn held(&self) -> Seq<u8> {
        match self.state {
            State::Header => Seq::empty(),
            State::Payload(h) => header_bytes(h.type_code, h.payload_length),
        }
    }

    /// The undecoded stream: what the codec holds followed by the buffer.
    pub open spec fn pending(&self, buf: Seq<u8>) -> Seq<u8> {
        self.held() + buf
    }

    pub fn new() -> (r: Self)
        ensures
            r.held() == Seq::<u8>::empty(),
    {
        Codec { state: State::Header }
    }

    /// Decodes the next frame of the stream `pending(src)`, if it is whole.
    /// On success the frame's bytes are consumed, the codec awaits a header
    /// again, and `src` holds exactly the bytes after the frame; otherwise
    /// nothing is lost, and with no header held and less than a header in
    /// `src` nothing is even moved.
    pub fn decode(&mut self, src: &mut Vec<u8>) -> (r: Option<RawPayload>)
        ensures
            match next_frame(old(self).pending(old(src)@)) {
                Some((f, rest)) => {
                    &&& r matches Some(p) && p@ == f
                    &&& final(self).held() == Seq::<u8>::empty()
                    &&& final(src)@ == rest
                },
                None => {
                    &&& r is None
                    &&& final(self).pending(final(src)@) == old(self).pending(old(src)@)
                    &&& old(self).held().len() == 0 && old(src)@.len() < 5 ==> final(self).held()
                        == old(self).held() && final(src)@ == old(src)@
                },
            },
    {
        let ghost input = self.pending(src@);
        let header = match self.decode_header(src) {
            Some(h) => h,
            None => return None,
        };
        proof {
            assert(input == header_bytes(header.type_code, header.payload_length) + src@);
        }
        self.decode_payload(header, src)
    }

    /// Takes a header from the buffer unless one is already held; on success
    /// the codec holds it afterwards.
    fn decode_header(&mut self, src: &mut Vec<u8>) -> (r: Option<Header>)
        ensures
            final(self).pending(final(src)@) == old(self).pending(old(src)@),
            match r {
                Some(h) => final(self).state == State::Payload(h) && final(self).held() == header_bytes(h.type_code, h.payload_length),
                None => final(self).state == old(self).state && final(src)@ == old(src)@
                    && old(self).pending(old(src)@).len() < 5,
            },
    {
        if let State::Payload(header) = self.state {
            return Some(header);
        }
        if src.len() < HEADER_LEN {
            return None;
        }
        let ghost old_src = src@;
        let type_code = src[0];
        let payload_length = read_be32(src[1], src[2], src[3], src[4]);
        let rest = src.split_off(HEADER_LEN);
        *src = rest;
        let header = Header { type_code, payload_length };
        self.state = State::Payload(header);
        proof {
            lemma_bytes_of_be32_value(old_src[1], old_src[2], old_src[3], old_src[4]);
            assert(old_src =~= header_bytes(type_code, payload_length) + src@);
        }
        Some(header)
    }

    /// Takes the payload of a held header from the buffer, if it is all there.
    fn decode_payload(&mut self, header: Header, src: &mut Vec<u8>) -> (r: Option<RawPayload>)
        requires
            old(self).state == State::Payload(header),
        ensures
            match next_frame(header_bytes(header.type_code, header.payload_length) + old(src)@) {
                Some((f, rest)) => {
                    &&& r matches Some(p) && p@ == f
                    &&& final(self).state == State::Header
                    &&& final(src)@ == rest
                },
                None => r is None && *final(self) == *old(self) && final(src)@ == old(src)@,
            },
    {
        let ghost input = header_bytes(header.type_code, header.payload_length) + src@;
        proof {
            lemma_be32_value_of_bytes(header.payload_length);
            assert(declared_len(input) == header.payload_length);
        }
        let len = header.payload_length as usize;
        if src.len() < len {
            return None;
        }
        let mut content = src.split_off(len);
        std::mem::swap(src, &mut content);
        self.state = State::Header;
        proof {
            assert(content@ =~= input.subrange(5, 5 + len));
            assert(src@ =~= input.subrange(5 + len, input.len() as int));
        }
        Some(RawPayload::new(header.type_code, content))
    }

    /// Appends the frame of `item` to `dst`.
    pub fn encode(&mut self, item: &RawPayload, dst: &mut Vec<u8>)
        requires
            item@.1.len() <= u32::MAX,
        ensures
            final(dst)@ == old(dst)@ + frame_bytes(item@.0, item@.1),
            *final(self) == *old(self),
    {
        let len = item.content.len();
        proof {
            assert(len <= u32::MAX);
        }
        let n = len as u32;
        dst.push(item.type_code);
        dst.push(((n >> 24u32) & 0xffu32) as u8);
        dst.push(((n >> 16u32) & 0xffu32) as u8);
        dst.push(((n >> 8u32) & 0xffu32) as u8);
        dst.push((n & 0xffu32) as u8);
        let ghost start = dst@;
        let mut i: usize = 0;
        while i < len
            invariant
                i <= len,
                len == item.content@.len(),
                dst@ == start + item.content@.take(i as int),
            decreases len - i,
        {
            dst.push(item.content[i]);
            i += 1;
            proof {
                assert(item.content@.take(i as int) =~= item.content@.take(i - 1) + seq![item.content@[i - 1]]);
            }
        }
        proof {
            assert(item.content@.take(len as int) =~= item.content@);
            assert(start =~= old(dst)@ + header_bytes(item.type_code, n));
        }
    }
}

impl Default for Codec {
    fn default() -> (r: Self)
        ensures
            r.held() == Seq::<u8>::empty(),
    {
        Codec::new()
    }
}

/// The big-endian number of four bytes.
fn read_be32(b0: u8, b1: u8, b2: u8, b3: u8) -> (r: u32)
    ensures
        r == be32_value(b0, b1, b2, b3),
{
    ((b0 as u32) << 24u32) | ((b1 as u32) << 16u32) | ((b2 as u32) << 8u32) | (b3 as u32)
}

} // verus!
