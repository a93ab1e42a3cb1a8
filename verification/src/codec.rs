//! Delimiter-framed wire codec.
//!
//! Every application message travels as one frame: the UTF-8 bytes of its
//! text followed by a single delimiter byte.  The payload is all bytes up to
//! but not including the next delimiter, so a payload can never contain the
//! delimiter itself; encoding rejects texts whose encoding would.

use vstd::prelude::*;
use vstd::string::StrSliceExecFns;
use vstd::utf8::decode_utf8;
use vstd::utf8::encode_utf8;
use vstd::utf8::encode_utf8_decode_utf8;
use vstd::utf8::encode_utf8_valid_utf8;
use vstd::utf8::valid_utf8;

verus! {

/// Byte that terminates every frame on the wire (ASCII end-of-transmission).
pub const DELIMITER: u8 = 0x04;

/// The bytes of one well-formed transmission carrying `payload`.
pub open spec fn framed(payload: Seq<u8>) -> Seq<u8> {
    payload.push(DELIMITER)
}

/// Position of the first delimiter byte in `b`; `b.len()` when there is none.
pub open spec fn first_delimiter(b: Seq<u8>) -> int
    decreases b.len(),
{
    if b.len() == 0 {
        0
    } else if b[0] == DELIMITER {
        0
    } else {
        1 + first_delimiter(b.skip(1))
    }
}

/// The first complete frame of a byte stream, as payload and remainder, once
/// a delimiter has arrived.
pub open spec fn first_frame(b: Seq<u8>) -> Option<(Seq<u8>, Seq<u8>)> {
    if b.contains(DELIMITER) {
        Some((b.take(first_delimiter(b)), b.skip(first_delimiter(b) + 1)))
    } else {
        None
    }
}

/// `first_delimiter` names the least position holding the delimiter.
pub proof fn lemma_first_delimiter(b: Seq<u8>)
    ensures
        0 <= first_delimiter(b) <= b.len(),
        b.contains(DELIMITER) ==> first_delimiter(b) < b.len() && b[first_delimiter(b)]
            == DELIMITER,
        forall|j: int| 0 <= j < first_delimiter(b) ==> b[j] != DELIMITER,
        !b.contains(DELIMITER) ==> first_delimiter(b) == b.len(),
    decreases b.len(),
{
    if b.len() == 0 {
        assert(!b.contains(DELIMITER));
    } else if b[0] == DELIMITER {
        assert(b.contains(DELIMITER));
    } else {
        let t = b.skip(1);
        lemma_first_delimiter(t);
        assert(forall|j: int| 0 <= j < t.len() ==> t[j] == b[j + 1]);
        if t.contains(DELIMITER) {
            let j = choose|j: int| 0 <= j < t.len() && t[j] == DELIMITER;
            assert(b[j + 1] == DELIMITER);
            assert(b.contains(DELIMITER));
        }
        if b.contains(DELIMITER) {
            let i = choose|i: int| 0 <= i < b.len() && b[i] == DELIMITER;
            assert(i != 0);
            assert(t[i - 1] == DELIMITER);
            assert(t.contains(DELIMITER));
        }
        assert(forall|j: int|
            1 <= j < first_delimiter(b) ==> b[j] == t[j - 1] && t[j - 1] != DELIMITER);
    }
}

/// Any position holding the delimiter with none before it is
/// `first_delimiter`.
pub proof fn lemma_first_delimiter_unique(b: Seq<u8>, i: int)
    requires
        0 <= i < b.len(),
        b[i] == DELIMITER,
        forall|j: int| 0 <= j < i ==> b[j] != DELIMITER,
    ensures
        first_delimiter(b) == i,
{
    assert(b.contains(DELIMITER));
    lemma_first_delimiter(b);
    let f = first_delimiter(b);
    if f < i {
        assert(b[f] != DELIMITER);
    } else if f > i {
        assert(b[i] != DELIMITER);
    }
}

/// A framed payload at the head of a stream decodes back to that payload,
/// leaving the rest of the stream untouched.
pub proof fn lemma_first_frame_framed(payload: Seq<u8>, rest: Seq<u8>)
    requires
        !payload.contains(DELIMITER),
    ensures
        first_frame(framed(payload) + rest) == Some((payload, rest)),
{
    let b = framed(payload) + rest;
    assert(b[payload.len() as int] == DELIMITER);
    assert(forall|j: int| 0 <= j < payload.len() ==> b[j] == payload[j]);
    lemma_first_delimiter_unique(b, payload.len() as int);
    assert(b.contains(DELIMITER));
    assert(b.take(payload.len() as int) =~= payload);
    assert(b.skip(payload.len() as int + 1) =~= rest);
}

/// Framing round-trip for raw payloads: decoding the encoding of a payload
/// free of the delimiter byte yields the payload, with nothing left over.
pub proof fn lemma_frame_round_trip(payload: Seq<u8>)
    requires
        !payload.contains(DELIMITER),
    ensures
        first_frame(framed(payload)) == Some((payload, Seq::<u8>::empty())),
{
    lemma_first_frame_framed(payload, Seq::<u8>::empty());
    assert(framed(payload) + Seq::<u8>::empty() =~= framed(payload));
}

/// Framing round-trip for text: for every text whose encoding is free of the
/// delimiter byte, the payload decoded from its own transmission is valid
/// UTF-8 and reads back as the same text.
pub proof fn lemma_text_round_trip(t: Seq<char>)
    requires
        !encode_utf8(t).contains(DELIMITER),
    ensures
        first_frame(framed(encode_utf8(t))) matches Some((payload, rest)) && valid_utf8(payload)
            && decode_utf8(payload) == t && rest == Seq::<u8>::empty(),
{
    lemma_frame_round_trip(encode_utf8(t));
    encode_utf8_valid_utf8(t);
    encode_utf8_decode_utf8(t);
}

/// True when a delimiter byte occurs in `bytes`.
pub fn contains_delimiter(bytes: &[u8]) -> (r: bool)
    ensures
        r == bytes@.contains(DELIMITER),
{
    let mut i: usize = 0;
    while i < bytes.len()
        invariant
            0 <= i <= bytes@.len(),
            forall|j: int| 0 <= j < i ==> bytes@[j] != DELIMITER,
        decreases bytes@.len() - i,
    {
        if bytes[i] == DELIMITER {
            assert(bytes@.contains(DELIMITER));
            return true;
        }
        i += 1;
    }
    assert(!bytes@.contains(DELIMITER));
    false
}

/// Wire bytes for one raw payload: the payload followed by the delimiter.
/// The protocol cannot carry the delimiter byte inside a payload.
pub fn encode_frame(payload: &[u8]) -> (r: Vec<u8>)
    requires
        !payload@.contains(DELIMITER),
    ensures
        r@ == framed(payload@),
{
    let mut r: Vec<u8> = Vec::new();
    let mut i: usize = 0;
    while i < payload.len()
        invariant
            0 <= i <= payload@.len(),
            r@ == payload@.take(i as int),
        decreases payload@.len() - i,
    {
        r.push(payload[i]);
        i += 1;
        proof {
            assert(r@ =~= payload@.take(i as int));
        }
    }
    r.push(DELIMITER);
    proof {
        assert(payload@.take(payload@.len() as int) =~= payload@);
    }
    r
}

/// Frames a text message, refusing one whose encoding holds the delimiter
/// byte: such a text cannot travel on this protocol.
pub fn encode_text(text: &str) -> (r: Option<Vec<u8>>)
    ensures
        r is Some <==> !encode_utf8(text@).contains(DELIMITER),
        r matches Some(v) ==> v@ == framed(encode_utf8(text@)),
{
    let bytes = text.as_bytes();
    if contains_delimiter(bytes) {
        None
    } else {
        Some(encode_frame(bytes))
    }
}

/// Relies on `String::from_utf8`: it succeeds exactly on valid UTF-8 input,
/// and the returned string holds exactly the characters the bytes encode.
#[verifier::external_body]
pub(crate) fn bytes_to_text(bytes: Vec<u8>) -> (r: Option<String>)
    ensures
        r is Some <==> valid_utf8(bytes@),
        r matches Some(s) ==> s@ == decode_utf8(bytes@),
{
    String::from_utf8(bytes).ok()
}

/// UTF-8 bytes of a text, as an owned vector.
pub fn text_to_bytes(text: &str) -> (r: Vec<u8>)
    ensures
        r@ == encode_utf8(text@),
{
    text.as_bytes_vec()
}

/// Accumulates bytes as they arrive from a stream and yields one payload per
/// delimiter, tolerating frames that arrive in arbitrary pieces.
pub struct FrameDecoder {
    buf: Vec<u8>,
}

impl View for FrameDecoder {
    type V = Seq<u8>;

    closed spec fn view(&self) -> Seq<u8> {
        self.buf@
    }
}

impl FrameDecoder {
    /// A decoder with nothing buffered.
    pub fn new() -> (r: FrameDecoder)
        ensures
            r@ == Seq::<u8>::empty(),
    {
        let r = FrameDecoder { buf: Vec::new() };
        proof {
            assert(r@ =~= Seq::<u8>::empty());
        }
        r
    }

    /// Appends bytes read from the stream to the buffered remainder.
    pub fn feed(&mut self, chunk: &[u8])
        ensures
            final(self)@ == old(self)@ + chunk@,
    {
        let mut i: usize = 0;
        while i < chunk.len()
            invariant
                0 <= i <= chunk@.len(),
                self.buf@ == old(self).buf@ + chunk@.take(i as int),
            decreases chunk@.len() - i,
        {
            self.buf.push(chunk[i]);
            i += 1;
            proof {
                assert(self.buf@ =~= old(self).buf@ + chunk@.take(i as int));
            }
        }
        proof {
            assert(chunk@.take(chunk@.len() as int) =~= chunk@);
        }
    }

    /// How many bytes wait in the buffer.
    pub fn buffered(&self) -> (n: usize)
        ensures
            n == self@.len(),
    {
        self.buf.len()
    }

    /// Takes the next complete frame's payload off the buffer, if a whole
    /// frame has arrived.
    pub fn next_frame(&mut self) -> (r: Option<Vec<u8>>)
        ensures
            first_frame(old(self)@) matches Some(pr) ==> (r matches Some(p) && p@ == pr.0
                && final(self)@ == pr.1),
            first_frame(old(self)@) is None ==> (r is None && *final(self) == *old(self)),
    {
        let n = self.buf.len();
        let mut i: usize = 0;
        while i < n
            invariant
                0 <= i <= n,
                n == self.buf@.len(),
                self == old(self),
                forall|j: int| 0 <= j < i ==> self.buf@[j] != DELIMITER,
            decreases n - i,
        {
            if self.buf[i] == DELIMITER {
                proof {
                    assert(self.buf@.contains(DELIMITER));
                    lemma_first_delimiter_unique(self.buf@, i as int);
                }
                let mut payload: Vec<u8> = Vec::new();
                let mut j: usize = 0;
                while j < i
                    invariant
                        0 <= j <= i < self.buf@.len(),
                        self == old(self),
                        payload@ == self.buf@.take(j as int),
                    decreases i - j,
                {
                    payload.push(self.buf[j]);
                    j += 1;
                    proof {
                        assert(payload@ =~= self.buf@.take(j as int));
                    }
                }
                let mut rest: Vec<u8> = Vec::new();
                let mut k: usize = i + 1;
                while k < n
                    invariant
                        i < k <= n,
                        n == self.buf@.len(),
                        self == old(self),
                        rest@ == self.buf@.subrange(i + 1, k as int),
                    decreases n - k,
                {
                    rest.push(self.buf[k]);
                    k += 1;
                    proof {
                        assert(rest@ =~= self.buf@.subrange(i + 1, k as int));
                    }
                }
                proof {
                    assert(rest@ =~= old(self)@.skip(i + 1));
                }
                self.buf = rest;
                return Some(payload);
            }
            i += 1;
        }
        proof {
            assert(!self.buf@.contains(DELIMITER));
        }
        None
    }
}

} // verus!
