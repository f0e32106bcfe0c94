//! Byte-level encodings shared by the library: ASCII reasoning helpers,
//! hexadecimal encoding of byte strings, and the deterministic
//! length-prefixed serialization of submitted field data.

use vstd::prelude::*;
use vstd::utf8::*;
use vstd::bytes::*;
use crate::bridge::string_from_utf8;

verus! {

/// The characters that a sequence of ASCII bytes spells.
pub open spec fn ascii_chars_of(bytes: Seq<u8>) -> Seq<char> {
    bytes.map(|_i: int, b: u8| b as char)
}

/// True when every byte is ASCII (below 0x80).
pub open spec fn all_ascii(bytes: Seq<u8>) -> bool {
    forall|i: int| 0 <= i < bytes.len() ==> bytes[i] < 0x80
}

/// ASCII bytes are valid UTF-8 and decode to themselves, byte for byte.
pub proof fn lemma_ascii_decode(bytes: Seq<u8>)
    requires
        all_ascii(bytes),
    ensures
        valid_utf8(bytes),
        decode_utf8(bytes) =~= ascii_chars_of(bytes),
    decreases bytes.len(),
{
    if bytes.len() != 0 {
        let b = bytes[0];
        assert(is_leading_byte_width_1(b));
        assert(valid_first_scalar(bytes));
        assert(pop_first_scalar(bytes) =~= bytes.drop_first());
        lemma_ascii_decode(bytes.drop_first());
        assert(b < 0x80 ==> (b & 0x7f) == b) by (bit_vector);
        assert(decode_first_scalar(bytes) == b as u32);
        assert((b as u32) as char == b as char);
    }
}

/// The characters of ASCII bytes encode back to the same bytes.
pub proof fn lemma_ascii_encode(bytes: Seq<u8>)
    requires
        all_ascii(bytes),
    ensures
        is_ascii_chars(ascii_chars_of(bytes)),
        encode_utf8(ascii_chars_of(bytes)) =~= bytes,
{
    let chars = ascii_chars_of(bytes);
    assert forall|i: int| 0 <= i < chars.len() implies '\0' <= #[trigger] chars[i] <= '\u{7f}' by {
        assert(bytes[i] < 0x80);
    }
    assert(is_ascii_chars(chars));
    is_ascii_chars_encode_utf8(chars);
}

/// An ASCII byte occurs in a string's UTF-8 encoding exactly where the
/// character it spells occurs in the string: multi-byte encodings consist
/// of bytes at 0x80 and above only.
pub proof fn lemma_ascii_byte_containment(chars: Seq<char>, b: u8)
    requires
        b < 0x80,
    ensures
        encode_utf8(chars).contains(b) <==> chars.contains(b as char),
    decreases chars.len(),
{
    if chars.len() == 0 {
        assert(!encode_utf8(chars).contains(b));
        assert(!chars.contains(b as char));
    } else {
        let c = chars[0] as u32;
        let head = encode_scalar(c);
        let tail = encode_utf8(chars.drop_first());
        assert(encode_utf8(chars) == head + tail);
        lemma_ascii_byte_containment(chars.drop_first(), b);
        assert(head.len() >= 1);
        if c < 0x80 {
            assert(c < 0x80 ==> (c & 0x7f) == c && ((c & 0x7f) as u8) as u32 == c) by (bit_vector);
            assert(head =~= seq![c as u8]);
            assert(head.len() == 1 && head[0] == c as u8);
            if head.contains(b) {
                let i = choose|i: int| 0 <= i < head.len() && head[i] == b;
                assert(i == 0);
            }
            assert(head.contains(b) <==> c as u8 == b);
            assert((c as u8) as u32 == c);
            assert((b as char) as u32 == b as u32);
            assert(chars[0] as u32 == c);
            char_u32_cast(chars[0], c);
            char_u32_cast(b as char, b as u32);
            assert(c as u8 == b <==> chars[0] == b as char);
        } else {
            assert forall|i: int| 0 <= i < head.len() implies head[i] >= 0x80 by {
                assert((0xC0u8 | (((c >> 6) & 0x1F) as u8)) >= 0x80) by (bit_vector);
                assert((0xE0u8 | (((c >> 12) & 0x0F) as u8)) >= 0x80) by (bit_vector);
                assert((0xF0u8 | (((c >> 18) & 0x7) as u8)) >= 0x80) by (bit_vector);
                assert((0x80u8 | ((c & 0x3F) as u8)) >= 0x80) by (bit_vector);
                assert((0x80u8 | (((c >> 6) & 0x3F) as u8)) >= 0x80) by (bit_vector);
                assert((0x80u8 | (((c >> 12) & 0x3F) as u8)) >= 0x80) by (bit_vector);
            }
            assert(!head.contains(b));
            assert(chars[0] != b as char);
        }
        assert forall|x: u8| true implies ((head + tail).contains(x) <==> head.contains(x)
            || tail.contains(x)) by {
            if head.contains(x) {
                let i = choose|i: int| 0 <= i < head.len() && head[i] == x;
                assert((head + tail)[i] == x);
            }
            if tail.contains(x) {
                let i = choose|i: int| 0 <= i < tail.len() && tail[i] == x;
                assert((head + tail)[head.len() + i] == x);
            }
            if (head + tail).contains(x) {
                let i = choose|i: int| 0 <= i < (head + tail).len() && (head + tail)[i] == x;
                if i < head.len() {
                    assert(head[i] == x);
                } else {
                    assert(tail[i - head.len()] == x);
                }
            }
        }
        assert(chars.contains(b as char) <==> (chars[0] == b as char || chars.drop_first().contains(
            b as char,
        ))) by {
            if chars.drop_first().contains(b as char) {
                let i = choose|i: int|
                    0 <= i < chars.drop_first().len() && chars.drop_first()[i] == b as char;
                assert(chars[i + 1] == b as char);
            }
            if chars.contains(b as char) {
                let i = choose|i: int| 0 <= i < chars.len() && chars[i] == b as char;
                if i > 0 {
                    assert(chars.drop_first()[i - 1] == b as char);
                }
            }
        }
    }
}

/// The ASCII code of the lower-case hexadecimal digit for a value below 16.
pub open spec fn spec_hex_digit(n: u8) -> u8
    recommends
        n < 16,
{
    if n < 10 {
        (0x30 + n) as u8
    } else {
        (0x57 + n) as u8
    }
}

/// The lower-case hexadecimal spelling of a byte string, two ASCII digits
/// per byte, high nibble first.
pub open spec fn spec_hex_of(bytes: Seq<u8>) -> Seq<u8> {
    Seq::new(
        bytes.len() * 2,
        |i: int|
            if i % 2 == 0 {
                spec_hex_digit((bytes[i / 2] >> 4) as u8)
            } else {
                spec_hex_digit((bytes[i / 2] & 0xf) as u8)
            },
    )
}

/// The value of one hexadecimal digit byte, lower or upper case, or `None`
/// for any other byte.
pub open spec fn spec_hex_val(b: u8) -> Option<u8> {
    if 0x30 <= b <= 0x39 {
        Some((b - 0x30) as u8)
    } else if 0x61 <= b <= 0x66 {
        Some((b - 0x57) as u8)
    } else if 0x41 <= b <= 0x46 {
        Some((b - 0x37) as u8)
    } else {
        None
    }
}

/// The byte string that a hexadecimal spelling denotes: `None` unless the
/// input has even length and every byte is a hexadecimal digit.
pub open spec fn spec_hex_decode(h: Seq<u8>) -> Option<Seq<u8>> {
    if h.len() % 2 == 0 && (forall|i: int| 0 <= i < h.len() ==> spec_hex_val(#[trigger] h[i]) is Some) {
        Some(
            Seq::new(
                h.len() / 2,
                |i: int| (spec_hex_val(h[2 * i])->Some_0 * 16 + spec_hex_val(h[2 * i + 1])->Some_0) as u8,
            ),
        )
    } else {
        None
    }
}

/// Hexadecimal digits are ASCII.
pub proof fn lemma_hex_all_ascii(bytes: Seq<u8>)
    ensures
        all_ascii(spec_hex_of(bytes)),
{
    assert forall|i: int| 0 <= i < spec_hex_of(bytes).len() implies spec_hex_of(bytes)[i] < 0x80 by {
        let b = bytes[i / 2];
        assert((b >> 4) < 16 && (b & 0xf) < 16) by (bit_vector);
    }
}

/// Decoding a hexadecimal spelling gives back the bytes it was made from.
pub proof fn lemma_hex_roundtrip(bytes: Seq<u8>)
    ensures
        spec_hex_decode(spec_hex_of(bytes)) == Some(bytes),
{
    let h = spec_hex_of(bytes);
    assert forall|i: int| 0 <= i < h.len() implies spec_hex_val(#[trigger] h[i]) is Some by {
        let b = bytes[i / 2];
        assert((b >> 4) < 16 && (b & 0xf) < 16) by (bit_vector);
    }
    let d = spec_hex_decode(h)->Some_0;
    assert forall|i: int| 0 <= i < d.len() implies d[i] == bytes[i] by {
        assert(h[2 * i] == spec_hex_digit((bytes[i] >> 4) as u8));
        assert(h[2 * i + 1] == spec_hex_digit((bytes[i] & 0xf) as u8));
        let b = bytes[i];
        assert((b >> 4) < 16 && (b & 0xf) < 16 && ((b >> 4) * 16 + (b & 0xf)) == b) by (bit_vector);
    }
    assert(d =~= bytes);
}

/// Writes the lower-case hexadecimal digit of a value below 16.
pub fn hex_digit(n: u8) -> (r: u8)
    requires
        n < 16,
    ensures
        r == spec_hex_digit(n),
{
    if n < 10 {
        0x30 + n
    } else {
        0x57 + n
    }
}

/// Spells a byte string in lower-case hexadecimal, two digits per byte.
pub fn hex_encode(bytes: &[u8]) -> (r: Vec<u8>)
    ensures
        r@ == spec_hex_of(bytes@),
{
    let mut out: Vec<u8> = Vec::new();
    let mut i: usize = 0;
    while i < bytes.len()
        invariant
            i <= bytes@.len(),
            out@ =~= spec_hex_of(bytes@.take(i as int)),
        decreases bytes@.len() - i,
    {
        let b = bytes[i];
        assert(b >> 4 < 16 && b & 0xf < 16) by (bit_vector);
        let hi = b >> 4;
        let lo = b & 0xf;
        out.push(hex_digit(hi));
        out.push(hex_digit(lo));
        i = i + 1;
        assert(out@ =~= spec_hex_of(bytes@.take(i as int)));
    }
    assert(bytes@.take(bytes@.len() as int) =~= bytes@);
    out
}

/// Reads one hexadecimal digit byte, in either case.
pub fn hex_val(b: u8) -> (r: Option<u8>)
    ensures
        r == spec_hex_val(b),
{
    if 0x30 <= b && b <= 0x39 {
        Some(b - 0x30)
    } else if 0x61 <= b && b <= 0x66 {
        Some(b - 0x57)
    } else if 0x41 <= b && b <= 0x46 {
        Some(b - 0x37)
    } else {
        None
    }
}

/// Reads a hexadecimal spelling back into bytes; `None` on odd length or on
/// any byte that is not a hexadecimal digit.
pub fn hex_decode(h: &[u8]) -> (r: Option<Vec<u8>>)
    ensures
        match r {
            Some(v) => spec_hex_decode(h@) == Some(v@),
            None => spec_hex_decode(h@) is None,
        },
{
    if h.len() % 2 != 0 {
        return None;
    }
    let mut out: Vec<u8> = Vec::new();
    let mut i: usize = 0;
    while i < h.len()
        invariant
            i <= h@.len(),
            i % 2 == 0,
            h@.len() % 2 == 0,
            forall|j: int| 0 <= j < i ==> spec_hex_val(#[trigger] h@[j]) is Some,
            out@.len() == i / 2,
            forall|j: int|
                0 <= j < out@.len() ==> #[trigger] out@[j] == (spec_hex_val(h@[2 * j])->Some_0 * 16
                    + spec_hex_val(h@[2 * j + 1])->Some_0) as u8,
        decreases h@.len() - i,
    {
        let hi = match hex_val(h[i]) {
            Some(v) => v,
            None => {
                return None;
            },
        };
        let lo = match hex_val(h[i + 1]) {
            Some(v) => v,
            None => {
                return None;
            },
        };
        out.push(hi * 16 + lo);
        i = i + 2;
    }
    assert(out@ =~= spec_hex_decode(h@)->Some_0);
    Some(out)
}

/// The ASCII digits of a natural number, most significant first.
pub open spec fn spec_dec_digits(n: nat) -> Seq<u8>
    decreases n,
{
    if n < 10 {
        seq![(0x30 + n) as u8]
    } else {
        spec_dec_digits(n / 10).push((0x30 + n % 10) as u8)
    }
}

/// The decimal spelling of a natural number, as characters.
pub open spec fn spec_u64_text(n: nat) -> Seq<char> {
    ascii_chars_of(spec_dec_digits(n))
}

/// Decimal digits are the ASCII digit bytes.
pub proof fn lemma_dec_digits_ascii(n: nat)
    ensures
        all_ascii(spec_dec_digits(n)),
        forall|i: int|
            0 <= i < spec_dec_digits(n).len() ==> 0x30 <= #[trigger] spec_dec_digits(n)[i] <= 0x39,
    decreases n,
{
    if n >= 10 {
        lemma_dec_digits_ascii(n / 10);
        let s = spec_dec_digits(n);
        let p = spec_dec_digits(n / 10);
        assert forall|i: int| 0 <= i < s.len() implies 0x30 <= #[trigger] s[i] <= 0x39 by {
            if i < p.len() {
                assert(s[i] == p[i]);
            }
        }
    }
}

/// Writes a number in decimal, most significant digit first.
pub fn dec_digits(n: u64) -> (r: Vec<u8>)
    ensures
        r@ == spec_dec_digits(n as nat),
    decreases n,
{
    if n < 10 {
        let mut v: Vec<u8> = Vec::new();
        v.push(0x30 + n as u8);
        proof {
            assert(v@ =~= spec_dec_digits(n as nat));
        }
        v
    } else {
        proof {
            assert(n / 10 < n);
        }
        let mut v = dec_digits(n / 10);
        v.push(0x30 + (n % 10) as u8);
        v
    }
}

/// Writes a number in decimal as a string.
pub fn format_u64(n: u64) -> (r: String)
    ensures
        r@ == spec_u64_text(n as nat),
{
    let digits = dec_digits(n);
    proof {
        lemma_dec_digits_ascii(n as nat);
        lemma_ascii_decode(digits@);
    }
    match string_from_utf8(digits) {
        Some(s) => s,
        None => {
            proof {
                assert(false);
            }
            String::new()
        },
    }
}

/// The views of a sequence of owned key/value pairs.
pub open spec fn entry_views(s: Seq<(String, String)>) -> Seq<(Seq<char>, Seq<char>)> {
    s.map(|_i: int, p: (String, String)| (p.0@, p.1@))
}

/// One field serialized: the key's UTF-8 bytes and the value's UTF-8
/// bytes, each preceded by its length as eight little-endian bytes.
pub open spec fn spec_encode_entry(k: Seq<char>, v: Seq<char>) -> Seq<u8> {
    spec_u64_to_le_bytes(encode_utf8(k).len() as u64) + encode_utf8(k) + spec_u64_to_le_bytes(
        encode_utf8(v).len() as u64,
    ) + encode_utf8(v)
}

/// The deterministic, self-describing serialization of a sequence of
/// fields: each key and value length-prefixed, in sequence order.
pub open spec fn spec_encode_entries(entries: Seq<(Seq<char>, Seq<char>)>) -> Seq<u8>
    decreases entries.len(),
{
    if entries.len() == 0 {
        Seq::empty()
    } else {
        spec_encode_entry(entries[0].0, entries[0].1) + spec_encode_entries(entries.drop_first())
    }
}

/// What the serialization denotes: the sequence of fields read back from
/// the bytes, or `None` when the bytes are not a well-formed serialization.
pub open spec fn spec_decode_entries(bytes: Seq<u8>) -> Option<Seq<(Seq<char>, Seq<char>)>>
    decreases bytes.len(),
{
    if bytes.len() == 0 {
        Some(Seq::empty())
    } else if bytes.len() < 8 {
        None
    } else {
        let klen = spec_u64_from_le_bytes(bytes.subrange(0, 8)) as int;
        if bytes.len() < 16 + klen {
            None
        } else {
            let kbytes = bytes.subrange(8, 8 + klen);
            let vlen = spec_u64_from_le_bytes(bytes.subrange(8 + klen, 16 + klen)) as int;
            if bytes.len() < 16 + klen + vlen {
                None
            } else {
                let vbytes = bytes.subrange(16 + klen, 16 + klen + vlen);
                let rest = bytes.subrange(16 + klen + vlen, bytes.len() as int);
                if valid_utf8(kbytes) && valid_utf8(vbytes) {
                    match spec_decode_entries(rest) {
                        Some(tail) => Some(
                            seq![(decode_utf8(kbytes), decode_utf8(vbytes))] + tail,
                        ),
                        None => None,
                    }
                } else {
                    None
                }
            }
        }
    }
}

/// Reading a serialization back yields exactly the fields it was made
/// from: the encoding is unambiguous.
pub proof fn lemma_entries_roundtrip(entries: Seq<(Seq<char>, Seq<char>)>)
    requires
        forall|i: int|
            0 <= i < entries.len() ==> encode_utf8(#[trigger] entries[i].0).len() <= u64::MAX
                && encode_utf8(entries[i].1).len() <= u64::MAX,
    ensures
        spec_decode_entries(spec_encode_entries(entries)) == Some(entries),
    decreases entries.len(),
{
    lemma_auto_spec_u64_to_from_le_bytes();
    broadcast use encode_utf8_valid_utf8, encode_utf8_decode_utf8;

    if entries.len() == 0 {
        assert(spec_decode_entries(spec_encode_entries(entries)) == Some(
            Seq::<(Seq<char>, Seq<char>)>::empty(),
        ));
        assert(entries =~= Seq::<(Seq<char>, Seq<char>)>::empty());
    } else {
        let k = entries[0].0;
        let v = entries[0].1;
        let kb = encode_utf8(k);
        let vb = encode_utf8(v);
        let klen = kb.len() as int;
        let vlen = vb.len() as int;
        let head = spec_encode_entry(k, v);
        let tail = spec_encode_entries(entries.drop_first());
        let whole = spec_encode_entries(entries);
        assert(whole == head + tail);
        assert(head.len() == 16 + klen + vlen);
        assert(whole.subrange(0, 8) =~= spec_u64_to_le_bytes(klen as u64));
        assert(spec_u64_from_le_bytes(whole.subrange(0, 8)) as int == klen);
        assert(whole.subrange(8, 8 + klen) =~= kb);
        assert(whole.subrange(8 + klen, 16 + klen) =~= spec_u64_to_le_bytes(vlen as u64));
        assert(spec_u64_from_le_bytes(whole.subrange(8 + klen, 16 + klen)) as int == vlen);
        assert(whole.subrange(16 + klen, 16 + klen + vlen) =~= vb);
        assert(whole.subrange(16 + klen + vlen, whole.len() as int) =~= tail);
        lemma_entries_roundtrip(entries.drop_first());
        assert(seq![(decode_utf8(kb), decode_utf8(vb))] + entries.drop_first() =~= entries);
    }
}

/// Serializes owned key/value pairs: each key and value as UTF-8 bytes
/// preceded by its length, in sequence order.
pub fn encode_entries(entries: &Vec<(String, String)>) -> (r: Vec<u8>)
    ensures
        r@ == spec_encode_entries(entry_views(entries@)),
{
    let mut out: Vec<u8> = Vec::new();
    let mut i: usize = 0;
    while i < entries.len()
        invariant
            i <= entries@.len(),
            out@ =~= spec_encode_entries(entry_views(entries@.take(i as int))),
        decreases entries@.len() - i,
    {
        let k: &String = &entries[i].0;
        let v: &String = &entries[i].1;
        let kb = k.as_str().as_bytes();
        let vb = v.as_str().as_bytes();
        let klen_bytes = u64_to_le_bytes(kb.len() as u64);
        out.extend_from_slice(klen_bytes.as_slice());
        out.extend_from_slice(kb);
        let vlen_bytes = u64_to_le_bytes(vb.len() as u64);
        out.extend_from_slice(vlen_bytes.as_slice());
        out.extend_from_slice(vb);
        i = i + 1;
        proof {
            let pre = entry_views(entries@.take(i - 1));
            let cur = entry_views(entries@.take(i as int));
            assert(cur.drop_last() =~= pre);
            assert(cur.last() == (entries@[i - 1].0@, entries@[i - 1].1@));
            assert(out@ =~= spec_encode_entries(pre) + spec_encode_entry(
                cur.last().0,
                cur.last().1,
            ));
            lemma_encode_entries_snoc(cur);
        }
    }
    proof {
        assert(entries@.take(entries@.len() as int) =~= entries@);
    }
    out
}

/// Serializing one more field appends that field's bytes.
proof fn lemma_encode_entries_snoc(entries: Seq<(Seq<char>, Seq<char>)>)
    requires
        entries.len() > 0,
    ensures
        spec_encode_entries(entries) == spec_encode_entries(entries.drop_last())
            + spec_encode_entry(entries.last().0, entries.last().1),
    decreases entries.len(),
{
    if entries.len() == 1 {
        assert(entries.drop_first() =~= Seq::empty());
        assert(entries.drop_last() =~= Seq::empty());
        assert(spec_encode_entries(entries.drop_last()) + spec_encode_entry(
            entries.last().0,
            entries.last().1,
        ) =~= spec_encode_entry(entries[0].0, entries[0].1) + Seq::empty());
        assert(spec_encode_entry(entries[0].0, entries[0].1) + Seq::<u8>::empty()
            =~= spec_encode_entry(entries[0].0, entries[0].1));
    } else {
        lemma_encode_entries_snoc(entries.drop_first());
        assert(entries.drop_first().drop_last() =~= entries.drop_last().drop_first());
        assert(entries.drop_first().last() == entries.last());
        assert(spec_encode_entries(entries) == spec_encode_entry(entries[0].0, entries[0].1) + (
        spec_encode_entries(entries.drop_last().drop_first()) + spec_encode_entry(
            entries.last().0,
            entries.last().1,
        )));
        assert(entries.drop_last()[0] == entries[0]);
        assert(spec_encode_entries(entries.drop_last()) == spec_encode_entry(
            entries[0].0,
            entries[0].1,
        ) + spec_encode_entries(entries.drop_last().drop_first()));
        assert(spec_encode_entry(entries[0].0, entries[0].1) + (spec_encode_entries(
            entries.drop_last().drop_first(),
        ) + spec_encode_entry(entries.last().0, entries.last().1)) =~= spec_encode_entries(
            entries.drop_last(),
        ) + spec_encode_entry(entries.last().0, entries.last().1));
    }
}

/// Copies a subrange of a byte slice.
fn sub_vec(bytes: &[u8], start: usize, end: usize) -> (r: Vec<u8>)
    requires
        start <= end <= bytes@.len(),
    ensures
        r@ == bytes@.subrange(start as int, end as int),
{
    let s = vstd::slice::slice_subrange(bytes, start, end);
    vstd::slice::slice_to_vec(s)
}

/// Reads a serialization back into owned key/value pairs; `None` exactly
/// when the bytes are not a well-formed serialization.
pub fn decode_entries(bytes: &[u8]) -> (r: Option<Vec<(String, String)>>)
    ensures
        match r {
            Some(v) => spec_decode_entries(bytes@) == Some(entry_views(v@)),
            None => spec_decode_entries(bytes@) is None,
        },
{
    let n = bytes.len();
    let mut out: Vec<(String, String)> = Vec::new();
    let mut pos: usize = 0;
    proof {
        assert(bytes@.subrange(0, n as int) =~= bytes@);
        assert(entry_views(out@) =~= Seq::<(Seq<char>, Seq<char>)>::empty());
        match spec_decode_entries(bytes@) {
            Some(t) => {
                assert(entry_views(out@) + t =~= t);
            },
            None => {},
        }
    }
    while pos < n
        invariant
            pos <= n,
            n == bytes@.len(),
            spec_decode_entries(bytes@) == match spec_decode_entries(
                bytes@.subrange(pos as int, n as int),
            ) {
                Some(t) => Some(entry_views(out@) + t),
                None => None::<Seq<(Seq<char>, Seq<char>)>>,
            },
        decreases n - pos,
    {
        let ghost rem = bytes@.subrange(pos as int, n as int);
        proof {
            lemma_auto_spec_u64_to_from_le_bytes();
        }
        if n - pos < 8 {
            return None;
        }
        let klen64 = u64_from_le_bytes(vstd::slice::slice_subrange(bytes, pos, pos + 8));
        proof {
            assert(bytes@.subrange(pos as int, pos + 8) =~= rem.subrange(0, 8));
        }
        if klen64 > (n - pos - 8) as u64 {
            proof {
                assert(spec_decode_entries(rem) is None);
            }
            return None;
        }
        let klen = klen64 as usize;
        let kbytes = sub_vec(bytes, pos + 8, pos + 8 + klen);
        proof {
            assert(bytes@.subrange(pos + 8, pos + 8 + klen as int) =~= rem.subrange(
                8,
                8 + klen as int,
            ));
        }
        if n - pos - 8 - klen < 8 {
            proof {
                assert(spec_decode_entries(rem) is None);
            }
            return None;
        }
        let vlen64 = u64_from_le_bytes(
            vstd::slice::slice_subrange(bytes, pos + 8 + klen, pos + 16 + klen),
        );
        proof {
            assert(bytes@.subrange(pos + 8 + klen as int, pos + 16 + klen as int) =~= rem.subrange(
                8 + klen as int,
                16 + klen as int,
            ));
        }
        if vlen64 > (n - pos - 16 - klen) as u64 {
            proof {
                assert(spec_decode_entries(rem) is None);
            }
            return None;
        }
        let vlen = vlen64 as usize;
        let vbytes = sub_vec(bytes, pos + 16 + klen, pos + 16 + klen + vlen);
        proof {
            assert(bytes@.subrange(pos + 16 + klen as int, pos + 16 + klen as int + vlen as int)
                =~= rem.subrange(16 + klen as int, 16 + klen as int + vlen as int));
        }
        let ghost gk = kbytes@;
        let ghost gv = vbytes@;
        let kstr = match string_from_utf8(kbytes) {
            Some(s) => s,
            None => {
                proof {
                    assert(spec_decode_entries(rem) is None);
                }
                return None;
            },
        };
        let vstr = match string_from_utf8(vbytes) {
            Some(s) => s,
            None => {
                proof {
                    assert(spec_decode_entries(rem) is None);
                }
                return None;
            },
        };
        out.push((kstr, vstr));
        let new_pos = pos + 16 + klen + vlen;
        proof {
            let next = bytes@.subrange(new_pos as int, n as int);
            assert(next =~= rem.subrange(16 + klen as int + vlen as int, rem.len() as int));
            assert(spec_decode_entries(rem) == match spec_decode_entries(next) {
                Some(t) => Some(seq![(decode_utf8(gk), decode_utf8(gv))] + t),
                None => None::<Seq<(Seq<char>, Seq<char>)>>,
            });
            assert forall|t: Seq<(Seq<char>, Seq<char>)>| true implies entry_views(
                out@.drop_last(),
            ) + (seq![(decode_utf8(gk), decode_utf8(gv))] + t) =~= entry_views(out@) + t by {
                assert(entry_views(out@).drop_last() =~= entry_views(out@.drop_last()));
                assert(entry_views(out@).last() == (decode_utf8(gk), decode_utf8(gv)));
            }
        }
        pos = new_pos;
    }
    proof {
        assert(bytes@.subrange(pos as int, n as int) =~= Seq::empty());
        assert(spec_decode_entries(bytes@) == Some(entry_views(out@) + Seq::empty()));
        assert(entry_views(out@) + Seq::empty() =~= entry_views(out@));
    }
    Some(out)
}

} // verus!

