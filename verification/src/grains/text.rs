//! Text out of the fixed-size, null-padded byte buffers that kernel records
//! carry, and the joining of path components.

use vstd::prelude::*;
use vstd::slice::slice_subrange;
use vstd::string::*;
use vstd::utf8::*;

verus! {

/// The number of bytes of `buf` that come before its first zero byte: the
/// whole length where there is none.
pub open spec fn text_len(buf: Seq<u8>) -> nat
    decreases buf.len(),
{
    if buf.len() == 0 || buf[0] == 0 {
        0
    } else {
        1 + text_len(buf.drop_first())
    }
}

/// The bytes of `buf` up to, and without, its first zero byte.
pub open spec fn text_bytes(buf: Seq<u8>) -> Seq<u8> {
    buf.take(text_len(buf) as int)
}

/// What lossy UTF-8 decoding makes of a byte sequence: the text it encodes
/// where it is well-formed UTF-8, and a text in which each malformed part is
/// replaced by U+FFFD where it is not.
pub uninterp spec fn utf8_lossy(bytes: Seq<u8>) -> Seq<char>;

/// The text that a null-padded buffer holds.
pub open spec fn text_of(buf: Seq<u8>) -> Seq<char> {
    utf8_lossy(text_bytes(buf))
}

/// `parts` with `sep` between each two neighbours.
pub open spec fn joined(parts: Seq<Seq<char>>, sep: Seq<char>) -> Seq<char>
    decreases parts.len(),
{
    if parts.len() == 0 {
        Seq::empty()
    } else if parts.len() == 1 {
        parts[0]
    } else {
        joined(parts.drop_last(), sep) + sep + parts.last()
    }
}

/// The views of a vector of strings, in order.
pub open spec fn views(parts: Seq<String>) -> Seq<Seq<char>> {
    Seq::new(parts.len(), |i: int| parts[i]@)
}

/// `text_len` is the one position `n` such that no byte before `n` is zero
/// and `n` is either the end of the buffer or the place of a zero byte.
pub proof fn lemma_text_len_is(buf: Seq<u8>, n: int)
    requires
        0 <= n <= buf.len(),
        forall|j: int| 0 <= j < n ==> buf[j] != 0,
        n == buf.len() || buf[n] == 0,
    ensures
        text_len(buf) == n,
    decreases buf.len(),
{
    if n > 0 {
        let rest = buf.drop_first();
        assert forall|j: int| 0 <= j < n - 1 implies rest[j] != 0 by {
            assert(rest[j] == buf[j + 1]);
        }
        lemma_text_len_is(rest, n - 1);
    }
}

/// `text_len` never passes the end of the buffer, meets no zero byte on its
/// way, and stops on one unless the buffer has none.
pub proof fn lemma_text_len_bounds(buf: Seq<u8>)
    ensures
        text_len(buf) <= buf.len(),
        forall|j: int| 0 <= j < text_len(buf) ==> buf[j] != 0,
        text_len(buf) < buf.len() ==> buf[text_len(buf) as int] == 0,
    decreases buf.len(),
{
    if buf.len() != 0 && buf[0] != 0 {
        let rest = buf.drop_first();
        lemma_text_len_bounds(rest);
        assert forall|j: int| 0 <= j < text_len(buf) implies buf[j] != 0 by {
            if j > 0 {
                assert(rest[j - 1] == buf[j]);
            }
        }
        if text_len(buf) < buf.len() {
            assert(rest[text_len(rest) as int] == buf[text_len(buf) as int]);
        }
    }
}

/// Each byte as the character with the same number.
pub open spec fn ascii_chars(bytes: Seq<u8>) -> Seq<char> {
    Seq::new(bytes.len(), |i: int| bytes[i] as char)
}

/// Bytes below 128 are well-formed UTF-8 and encode, one for one, the
/// characters with the same numbers.
pub proof fn lemma_ascii_is_utf8(bytes: Seq<u8>)
    requires
        forall|i: int| 0 <= i < bytes.len() ==> bytes[i] < 128,
    ensures
        valid_utf8(bytes),
        decode_utf8(bytes) == ascii_chars(bytes),
{
    let chars = ascii_chars(bytes);
    assert(is_ascii_chars(chars));
    is_ascii_chars_encode_utf8(chars);
    assert(encode_utf8(chars) =~= bytes) by {
        assert forall|i: int| 0 <= i < bytes.len() implies encode_utf8(chars)[i] == bytes[i] by {
            assert(chars[i] as u8 == encode_utf8(chars)[i]);
        }
    }
    encode_utf8_valid_utf8(chars);
    encode_utf8_decode_utf8(chars);
}

/// The length of the text in a null-padded buffer.
pub fn terminated_len(buf: &[u8]) -> (n: usize)
    ensures
        n == text_len(buf@),
        n <= buf@.len(),
{
    let mut i: usize = 0;
    while i < buf.len() && buf[i] != 0
        invariant
            i <= buf.len(),
            forall|j: int| 0 <= j < i ==> buf@[j] != 0,
        decreases buf.len() - i,
    {
        i += 1;
    }
    proof {
        lemma_text_len_is(buf@, i as int);
    }
    i
}

/// Lossy UTF-8 decoding, by `String::from_utf8_lossy`. The result is the
/// named decoding of the bytes; for well-formed UTF-8 it is the text that the
/// bytes encode. Nothing is proved of either claim.
#[verifier::external_body]
fn from_utf8_lossy(bytes: &[u8]) -> (s: String)
    ensures
        s@ == utf8_lossy(bytes@),
        valid_utf8(bytes@) ==> s@ == decode_utf8(bytes@),
{
    String::from_utf8_lossy(bytes).into_owned()
}

/// The text of a null-padded buffer: the bytes before the first zero byte,
/// or all of them where there is none, decoded as UTF-8 with U+FFFD in place
/// of what is malformed. Never fails.
pub fn to_string(buf: &[u8]) -> (s: String)
    ensures
        s@ == text_of(buf@),
        valid_utf8(text_bytes(buf@)) ==> s@ == decode_utf8(text_bytes(buf@)),
        (forall|i: int| 0 <= i < text_len(buf@) ==> buf@[i] < 128) ==> s@ == ascii_chars(
            text_bytes(buf@),
        ),
{
    let n = terminated_len(buf);
    let head = slice_subrange(buf, 0, n);
    assert(head@ == text_bytes(buf@));
    proof {
        if forall|i: int| 0 <= i < text_len(buf@) ==> buf@[i] < 128 {
            lemma_ascii_is_utf8(head@);
        }
    }
    from_utf8_lossy(head)
}

/// Joins `parts` with `sep` between them.
pub fn join(parts: &Vec<String>, sep: &str) -> (s: String)
    ensures
        s@ == joined(views(parts@), sep@),
{
    let mut out = String::new();
    let mut i: usize = 0;
    while i < parts.len()
        invariant
            i <= parts.len(),
            out@ == joined(views(parts@).take(i as int), sep@),
        decreases parts.len() - i,
    {
        proof {
            let done = views(parts@).take(i as int);
            let next = views(parts@).take(i + 1);
            assert(next.drop_last() == done);
            assert(next.last() == parts@[i as int]@);
            if i == 0 {
                assert(out@ == Seq::<char>::empty());
                assert(Seq::<char>::empty() + parts@[0]@ == parts@[0]@);
            }
        }
        if i > 0 {
            out.append(sep);
        }
        out.append(parts[i].as_str());
        i += 1;
    }
    assert(views(parts@).take(parts.len() as int) == views(parts@));
    out
}

} // verus!
