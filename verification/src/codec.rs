//! Pure wire-level codec for the Gemini protocol.
//!
//! A request is a single line: the absolute URL followed by `\r\n`. A
//! response begins with a one-line header, `<2-digit status><SP><meta>\r\n`,
//! followed immediately by the body bytes. The meta field is capped at 1024
//! bytes; the terminator is searched for starting at byte 3, and a header
//! whose terminator does not begin within the cap is a protocol error.

use vstd::prelude::*;
use vstd::slice::{slice_index_get, slice_subrange, slice_to_vec};
use crate::status::{spec_classify, InvalidStatus, Status};

verus! {

/// Longest permitted meta field, in bytes.
pub const META_CAP: usize = 1024;

/// A violation of the response-header grammar.
#[derive(Debug, Clone, Copy, PartialEq, Eq, Structural)]
pub enum ProtoError {
    /// The status bytes are not two ASCII digits in `10..=69`.
    InvalidStatus(InvalidStatus),
    /// No `\r\n` terminator begins within the first `3 + 1024` bytes.
    MetaNotFound,
}

/// Whether a `\r\n` pair sits at index `i` of `b`.
pub open spec fn is_crlf_at(b: Seq<u8>, i: int) -> bool {
    0 <= i && i + 2 <= b.len() && b[i] == 13 && b[i + 1] == 10
}

/// The index of the first `\r\n` pair at or after index `i`, if any.
pub open spec fn crlf_from(b: Seq<u8>, i: int) -> Option<int>
    decreases b.len() - i,
{
    if i < 0 || i + 2 > b.len() {
        None
    } else if b[i] == 13 && b[i + 1] == 10 {
        Some(i)
    } else {
        crlf_from(b, i + 1)
    }
}

/// Where the header terminator starts: the first `\r\n` at or after index 3,
/// accepted only if it begins within the meta cap.
pub open spec fn spec_header_end(b: Seq<u8>) -> Option<int> {
    match crlf_from(b, 3) {
        Some(p) => if p <= 3 + META_CAP { Some(p) } else { None },
        None => None,
    }
}

/// Whether `b` is an ASCII digit.
pub open spec fn is_digit(b: u8) -> bool {
    48 <= b <= 57
}

/// The number the two digit bytes spell.
pub open spec fn two_digits(b0: u8, b1: u8) -> int
    recommends
        is_digit(b0),
        is_digit(b1),
{
    (b0 - 48) * 10 + (b1 - 48)
}

/// The meaning of a response buffer: the status, the meta bytes and the body
/// bytes, or the protocol error. The terminator is searched for from byte 3,
/// so a header with no meta field at all (`\r\n` directly after the digits)
/// is `MetaNotFound`; a missing terminator takes precedence over a bad
/// status.
pub open spec fn spec_decode(b: Seq<u8>) -> Result<(Status, Seq<u8>, Seq<u8>), ProtoError> {
    match spec_header_end(b) {
        None => Err(ProtoError::MetaNotFound),
        Some(p) => if is_digit(b[0]) && is_digit(b[1]) && 10 <= two_digits(b[0], b[1]) < 70 {
            Ok(
                (
                    spec_classify(two_digits(b[0], b[1]) as u8),
                    b.subrange(3, p),
                    b.subrange(p + 2, b.len() as int),
                ),
            )
        } else {
            Err(ProtoError::InvalidStatus(InvalidStatus))
        },
    }
}

/// The bytes of a response header: two status digits, a space, the meta
/// bytes, and the terminator.
pub open spec fn spec_header_bytes(code: u8, meta: Seq<u8>) -> Seq<u8>
    recommends
        10 <= code < 70,
{
    seq![(48 + code / 10) as u8, (48 + code % 10) as u8, 32u8] + meta + seq![13u8, 10u8]
}

/// The bytes of a request line: the URL's UTF-8 encoding and the terminator.
pub open spec fn spec_request_bytes(url: Seq<char>) -> Seq<u8> {
    vstd::utf8::encode_utf8(url) + seq![13u8, 10u8]
}

/// Encode a request line for the given absolute URL.
pub fn encode_request(url: &str) -> (r: Vec<u8>)
    ensures
        r@ == spec_request_bytes(url@),
{
    let mut v = slice_to_vec(url.as_bytes());
    v.push(13);
    v.push(10);
    proof {
        assert(v@ =~= spec_request_bytes(url@));
    }
    v
}

/// Split a response buffer into status, meta bytes and body bytes, exactly
/// as `spec_decode` reads it.
pub fn decode_header(bytes: &[u8]) -> (r: Result<(Status, Vec<u8>, Vec<u8>), ProtoError>)
    ensures
        match spec_decode(bytes@) {
            Ok((st, meta, body)) => r matches Ok(t) && t.0 == st && t.1@ == meta && t.2@ == body,
            Err(e) => r matches Err(e2) && e2 == e,
        },
{
    let n = bytes.len();
    let mut i: usize = 3;
    loop
        invariant
            3 <= i,
            n == bytes@.len(),
            crlf_from(bytes@, 3) == crlf_from(bytes@, i as int),
        ensures
            (i + 2 <= n && crlf_from(bytes@, 3) == Some(i as int)) || (i + 2 > n && crlf_from(
                bytes@,
                3,
            ) is None),
        decreases n + 2 - i,
    {
        if n < 2 || i > n - 2 {
            proof {
                assert(crlf_from(bytes@, i as int) is None);
            }
            break;
        }
        if *slice_index_get(bytes, i) == 13 && *slice_index_get(bytes, i + 1) == 10 {
            proof {
                assert(crlf_from(bytes@, i as int) == Some(i as int));
            }
            break;
        }
        i = i + 1;
    }
    let found: Option<usize> = if n >= 2 && i <= n - 2 {
        Some(i)
    } else {
        None
    };
    match found {
        None => Err(ProtoError::MetaNotFound),
        Some(p) => {
            if p > 3 + META_CAP {
                return Err(ProtoError::MetaNotFound);
            }
            let b0 = *slice_index_get(bytes, 0);
            let b1 = *slice_index_get(bytes, 1);
            if 48 <= b0 && b0 <= 57 && 48 <= b1 && b1 <= 57 {
                let code = (b0 - 48) * 10 + (b1 - 48);
                if 10 <= code && code < 70 {
                    match Status::try_from(code) {
                        Ok(status) => {
                            let meta = slice_to_vec(slice_subrange(bytes, 3, p));
                            let body = slice_to_vec(slice_subrange(bytes, p + 2, n));
                            Ok((status, meta, body))
                        },
                        Err(_) => Err(ProtoError::InvalidStatus(InvalidStatus)),
                    }
                } else {
                    Err(ProtoError::InvalidStatus(InvalidStatus))
                }
            } else {
                Err(ProtoError::InvalidStatus(InvalidStatus))
            }
        },
    }
}

/// The first `\r\n` is where the first window shows one: if no window before
/// `p` is a `\r\n` and the window at `p` is one, the search from `i` lands on
/// `p`.
proof fn lemma_crlf_from_finds(b: Seq<u8>, i: int, p: int)
    requires
        0 <= i <= p,
        is_crlf_at(b, p),
        forall|j: int| i <= j < p ==> !is_crlf_at(b, j),
    ensures
        crlf_from(b, i) == Some(p),
    decreases p - i,
{
    if i < p {
        assert(!is_crlf_at(b, i));
        lemma_crlf_from_finds(b, i + 1, p);
        assert(crlf_from(b, i) == crlf_from(b, i + 1));
    } else {
        assert(crlf_from(b, p) == Some(p));
    }
}

/// When no window at or after `i` is a `\r\n`, the search fails.
proof fn lemma_crlf_from_misses(b: Seq<u8>, i: int)
    requires
        forall|j: int| i <= j ==> !is_crlf_at(b, j),
    ensures
        crlf_from(b, i) is None,
    decreases b.len() - i,
{
    if !(i < 0 || i + 2 > b.len()) {
        assert(!is_crlf_at(b, i));
        lemma_crlf_from_misses(b, i + 1);
        assert(crlf_from(b, i) == crlf_from(b, i + 1));
    }
}

/// A found terminator is a real `\r\n` pair at or after the search start.
proof fn lemma_crlf_from_some(b: Seq<u8>, i: int)
    ensures
        crlf_from(b, i) matches Some(p) ==> i <= p && is_crlf_at(b, p),
    decreases b.len() - i,
{
    if !(i < 0 || i + 2 > b.len()) {
        lemma_crlf_from_some(b, i + 1);
    }
}

/// Meta cap: a buffer in which no `\r\n` begins between byte 3 and the end
/// of the cap is rejected as `MetaNotFound` — never silently truncated.
pub proof fn lemma_meta_cap(b: Seq<u8>)
    requires
        forall|j: int| 3 <= j <= 3 + META_CAP ==> !is_crlf_at(b, j),
    ensures
        spec_decode(b) == Result::<(Status, Seq<u8>, Seq<u8>), ProtoError>::Err(
            ProtoError::MetaNotFound,
        ),
{
    lemma_crlf_from_some(b, 3);
}

/// Header round-trip at the byte level: a header built from a valid code and
/// a meta that fits the cap and holds no `\r\n`, followed by any body bytes,
/// decodes back to exactly that status, that meta and that body.
pub proof fn lemma_header_round_trip(code: u8, meta: Seq<u8>, body: Seq<u8>)
    requires
        10 <= code < 70,
        meta.len() <= META_CAP,
        forall|j: int| 0 <= j < meta.len() - 1 ==> !(#[trigger] meta[j] == 13 && meta[j + 1] == 10),
    ensures
        spec_decode(spec_header_bytes(code, meta) + body) == Result::<
            (Status, Seq<u8>, Seq<u8>),
            ProtoError,
        >::Ok((spec_classify(code), meta, body)),
{
    let b = spec_header_bytes(code, meta) + body;
    let p = 3 + meta.len() as int;
    assert(b[p] == 13 && b[p + 1] == 10);
    assert forall|j: int| 3 <= j < p implies !is_crlf_at(b, j) by {
        if j + 1 < p {
            assert(b[j] == meta[j - 3] && b[j + 1] == meta[j - 2]);
        } else {
            assert(b[j + 1] == 13);
        }
    }
    lemma_crlf_from_finds(b, 3, p);
    assert(is_digit(b[0]) && is_digit(b[1]));
    assert(two_digits(b[0], b[1]) == code);
    assert(b.subrange(3, p) =~= meta);
    assert(b.subrange(p + 2, b.len() as int) =~= body);
}

/// Header round-trip for any valid-UTF-8 meta: encoding a valid code with
/// meta bytes that fit the cap and hold no `\r\n`, followed by any body
/// bytes, decodes back to exactly that status, exactly those meta bytes —
/// whose decoded string in turn re-encodes to them — and exactly that body.
pub proof fn lemma_header_round_trip_utf8(code: u8, meta: Seq<u8>, body: Seq<u8>)
    requires
        10 <= code < 70,
        vstd::utf8::valid_utf8(meta),
        meta.len() <= META_CAP,
        forall|j: int| 0 <= j < meta.len() - 1 ==> !(#[trigger] meta[j] == 13 && meta[j + 1] == 10),
    ensures
        spec_decode(spec_header_bytes(code, meta) + body) == Result::<
            (Status, Seq<u8>, Seq<u8>),
            ProtoError,
        >::Ok((spec_classify(code), meta, body)),
        vstd::utf8::encode_utf8(vstd::utf8::decode_utf8(meta)) == meta,
{
    lemma_header_round_trip(code, meta, body);
    vstd::utf8::decode_utf8_encode_utf8(meta);
}

/// Header round-trip for an ASCII meta string: encoding a valid code with a
/// meta that fits the cap and holds no `\r\n`, followed by any body bytes,
/// decodes back to exactly that status, meta bytes whose decoding is
/// exactly the string itself, and exactly that body.
pub proof fn lemma_header_round_trip_ascii(code: u8, meta: Seq<char>, body: Seq<u8>)
    requires
        10 <= code < 70,
        vstd::utf8::is_ascii_chars(meta),
        meta.len() <= META_CAP,
        forall|j: int| 0 <= j < meta.len() - 1 ==> !(#[trigger] meta[j] == '\r' && meta[j + 1]
            == '\n'),
    ensures
        vstd::utf8::decode_utf8(vstd::utf8::encode_utf8(meta)) == meta,
        spec_decode(spec_header_bytes(code, vstd::utf8::encode_utf8(meta)) + body) == Result::<
            (Status, Seq<u8>, Seq<u8>),
            ProtoError,
        >::Ok((spec_classify(code), vstd::utf8::encode_utf8(meta), body)),
{
    let bytes = vstd::utf8::encode_utf8(meta);
    vstd::utf8::is_ascii_chars_encode_utf8(meta);
    vstd::utf8::encode_utf8_decode_utf8(meta);
    assert forall|j: int| 0 <= j < bytes.len() - 1 implies !(#[trigger] bytes[j] == 13 && bytes[j
        + 1] == 10) by {
        if bytes[j] == 13 && bytes[j + 1] == 10 {
            assert(meta[j] as u8 == 13 && '\0' <= meta[j] <= '\u{7f}');
            assert(meta[j + 1] as u8 == 10 && '\0' <= meta[j + 1] <= '\u{7f}');
            assert(meta[j] == '\r' && meta[j + 1] == '\n');
        }
    }
    lemma_header_round_trip(code, bytes, body);
}

} // verus!
