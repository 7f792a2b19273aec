//! The two layouts of a record on the wire.
use vstd::prelude::*;
use vstd::string::StringExecFns;
use vstd::utf8::encode_utf8;
use crate::buffer::{buffer_into_vec, new_buffer, put_bytes, put_i64, put_u32, put_u8};
use crate::bytes::{be_bytes, be_value, from_twos64, lemma_be_round_trip, lemma_be_value_bound, lemma_twos64_round_trip, pow256, twos64};
use crate::level::Level;

verus! {

/// How records are laid out in datagrams.
#[derive(Clone, Copy, Debug, PartialEq, Eq, Structural)]
pub enum WireFmt {
    /// The whole datagram is one line of UTF-8 text.
    Uncompressed,
    /// One severity byte, an eight-byte timestamp in milliseconds, a four-byte
    /// length and that many bytes of UTF-8 text.
    ByteBuffer,
}

/// `[category] message` followed by the rendered attributes.
pub open spec fn body_text(category: Seq<char>, message: Seq<char>, kvs: Seq<char>) -> Seq<char> {
    seq!['['] + category + seq![']', ' '] + message + kvs
}

/// The text layout: the timestamp, a space, the padded level name, a space
/// and the body.
pub open spec fn text_line(stamp: Seq<char>, level: Level, category: Seq<char>, message: Seq<char>, kvs: Seq<char>) -> Seq<char> {
    stamp + seq![' '] + level.padded_name() + seq![' '] + body_text(category, message, kvs)
}

/// The binary layout: severity code, big-endian milliseconds, big-endian
/// length of the text, the text.
pub open spec fn binary_frame(code: u8, ms: i64, text: Seq<u8>) -> Seq<u8> {
    seq![code] + be_bytes(twos64(ms), 8) + be_bytes(text.len(), 4) + text
}

/// What a frame holds, if it is well formed: the severity code, the
/// milliseconds and the text.
pub open spec fn decode_spec(f: Seq<u8>) -> Option<(u8, int, Seq<u8>)> {
    if f.len() < 13 || f.len() != 13 + be_value(f.subrange(9, 13)) {
        None
    } else {
        Some((f[0], from_twos64(be_value(f.subrange(1, 9))), f.subrange(13, f.len() as int)))
    }
}

/// The body of a record: `[category] message` and the attributes.
pub fn body(category: &str, message: &str, kvs: &str) -> (r: String)
    ensures
        r@ == body_text(category@, message@, kvs@),
{
    let mut s = String::new();
    s.append("[");
    s.append(category);
    s.append("] ");
    s.append(message);
    s.append(kvs);
    proof {
        reveal_strlit("[");
        reveal_strlit("] ");
        assert(s@ =~= body_text(category@, message@, kvs@));
    }
    s
}

/// The text layout of a record.
pub fn encode_text(stamp: &str, level: Level, category: &str, message: &str, kvs: &str) -> (r: String)
    ensures
        r@ == text_line(stamp@, level, category@, message@, kvs@),
{
    let b = body(category, message, kvs);
    let mut s = String::new();
    s.append(stamp);
    s.append(" ");
    s.append(level.padded_str());
    s.append(" ");
    s.append(b.as_str());
    proof {
        reveal_strlit(" ");
        assert(s@ =~= text_line(stamp@, level, category@, message@, kvs@));
    }
    s
}

/// The binary layout of a record whose text is `text`.
pub fn frame(level: Level, ms: i64, text: &[u8]) -> (r: Vec<u8>)
    requires
        text@.len() <= u32::MAX,
    ensures
        r@ == binary_frame(level.rank() as u8, ms, text@),
{
    let mut b = new_buffer();
    put_u8(&mut b, level.code());
    put_i64(&mut b, ms);
    put_u32(&mut b, text.len() as u32);
    put_bytes(&mut b, text);
    let r = buffer_into_vec(b);
    assert(r@ =~= binary_frame(level.rank() as u8, ms, text@));
    r
}

/// The binary layout of a record, or `None` when its text does not fit the
/// four-byte length.
pub fn encode_binary(ms: i64, level: Level, category: &str, message: &str, kvs: &str) -> (r: Option<Vec<u8>>)
    ensures
        r is Some <==> encode_utf8(body_text(category@, message@, kvs@)).len() <= u32::MAX,
        r matches Some(f) ==> f@ == binary_frame(
            level.rank() as u8,
            ms,
            encode_utf8(body_text(category@, message@, kvs@)),
        ),
{
    let text = body(category, message, kvs);
    let bytes = text.as_str().as_bytes();
    if bytes.len() > 0xffff_ffff {
        None
    } else {
        Some(frame(level, ms, bytes))
    }
}

/// The big-endian number held in `f[start..end]`.
fn read_be(f: &[u8], start: usize, end: usize) -> (r: u64)
    requires
        start <= end <= f@.len(),
        end - start <= 8,
    ensures
        r as nat == be_value(f@.subrange(start as int, end as int)),
{
    let mut v: u64 = 0;
    let mut j: usize = start;
    while j < end
        invariant
            start <= j <= end <= f@.len(),
            end - start <= 8,
            v as nat == be_value(f@.subrange(start as int, j as int)),
        decreases end - j,
    {
        proof {
            lemma_be_value_bound(f@.subrange(start as int, j as int));
            reveal_with_fuel(pow256, 9);
            assert(pow256((j - start) as nat) <= pow256(7)) by {
                lemma_pow256_mono((j - start) as nat, 7);
            }
            assert(f@.subrange(start as int, j + 1).drop_last() =~= f@.subrange(start as int, j as int));
        }
        v = v * 256 + f[j] as u64;
        j += 1;
    }
    v
}

proof fn lemma_pow256_mono(a: nat, b: nat)
    requires
        a <= b,
    ensures
        pow256(a) <= pow256(b),
    decreases b,
{
    if a < b {
        lemma_pow256_mono(a, (b - 1) as nat);
    }
}

/// Reads a binary frame back: the severity code, the milliseconds and the
/// text, or `None` when the frame is malformed.
pub fn decode_frame(f: &[u8]) -> (r: Option<(u8, i64, Vec<u8>)>)
    ensures
        r is None <==> decode_spec(f@) is None,
        r matches Some(t) ==> decode_spec(f@) == Some((t.0, t.1 as int, t.2@)),
{
    if f.len() < 13 {
        return None;
    }
    let n = read_be(f, 9, 13);
    if n != (f.len() - 13) as u64 {
        return None;
    }
    let raw = read_be(f, 1, 9);
    let ms: i64 = if raw < 0x8000_0000_0000_0000 {
        raw as i64
    } else {
        ((raw - 0x8000_0000_0000_0000) as i64) + i64::MIN
    };
    let mut text: Vec<u8> = Vec::new();
    let mut j: usize = 13;
    while j < f.len()
        invariant
            13 <= j <= f@.len(),
            text@ == f@.subrange(13, j as int),
        decreases f@.len() - j,
    {
        text.push(f[j]);
        j += 1;
        assert(text@ =~= f@.subrange(13, j as int));
    }
    Some((f[0], ms, text))
}

/// Decoding a binary frame gives back the severity code, the milliseconds
/// and the text bytes that were encoded.
pub proof fn lemma_binary_round_trip(code: u8, ms: i64, text: Seq<u8>)
    requires
        text.len() <= u32::MAX,
    ensures
        decode_spec(binary_frame(code, ms, text)) == Some((code, ms as int, text)),
{
    let f = binary_frame(code, ms, text);
    lemma_twos64_round_trip(ms);
    lemma_be_round_trip(twos64(ms), 8);
    reveal_with_fuel(pow256, 5);
    lemma_be_round_trip(text.len(), 4);
    assert(f.subrange(1, 9) =~= be_bytes(twos64(ms), 8));
    assert(f.subrange(9, 13) =~= be_bytes(text.len(), 4));
    assert(f.subrange(13, f.len() as int) =~= text);
}

} // verus!
