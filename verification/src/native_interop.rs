use vstd::prelude::*;
use vstd::string::StringSliceAdditionalSpecFns;
use vstd::utf8::{char_u32_cast, is_continuation_byte};

verus! {

// ── String helpers ─────────────────────────────────────────────────────────

/// The UTF-16 code units of one character: itself below U+10000, a
/// surrogate pair above.
pub open spec fn utf16_units(c: char) -> Seq<u16> {
    let v = c as u32;
    if v < 0x10000 {
        seq![v as u16]
    } else {
        let w = v - 0x10000;
        seq![(0xD800 + w / 1024) as u16, (0xDC00 + w % 1024) as u16]
    }
}

/// The UTF-16 encoding of a character sequence.
pub open spec fn encode_utf16(s: Seq<char>) -> Seq<u16>
    decreases s.len(),
{
    if s.len() == 0 {
        seq![]
    } else {
        encode_utf16(s.drop_last()) + utf16_units(s.last())
    }
}

/// A UTF-16 high (leading) surrogate.
pub open spec fn is_high_surrogate(u: u16) -> bool {
    0xD800 <= u <= 0xDBFF
}

/// A UTF-16 low (trailing) surrogate.
pub open spec fn is_low_surrogate(u: u16) -> bool {
    0xDC00 <= u <= 0xDFFF
}

/// Reading UTF-16 code units back into characters: a high surrogate
/// followed by a low one makes one character above U+FFFF, any other unit is
/// the character with its value.
pub open spec fn decode_utf16(w: Seq<u16>) -> Seq<char>
    decreases w.len(),
{
    if w.len() == 0 {
        seq![]
    } else if w.len() >= 2 && is_low_surrogate(w.last()) && is_high_surrogate(w[w.len() - 2]) {
        decode_utf16(w.drop_last().drop_last()).push(
            ((0x10000 + (w[w.len() - 2] - 0xD800) * 1024 + (w.last() - 0xDC00)) as u32) as char,
        )
    } else {
        decode_utf16(w.drop_last()).push((w.last() as u32) as char)
    }
}

/// Decoding the UTF-16 encoding of a string gives the string back.
pub proof fn lemma_utf16_decodes_back(s: Seq<char>)
    ensures
        decode_utf16(encode_utf16(s)) == s,
    decreases s.len(),
{
    if s.len() > 0 {
        let c = s.last();
        let prefix = encode_utf16(s.drop_last());
        let e = encode_utf16(s);
        lemma_utf16_decodes_back(s.drop_last());
        let v = c as u32;
        char_u32_cast(c, v);
        if v < 0x10000 {
            assert(e == prefix.push(v as u16));
            assert(e.drop_last() =~= prefix);
            assert(!is_low_surrogate(v as u16));
        } else {
            let w = v - 0x10000;
            let hi = (0xD800 + w / 1024) as u16;
            let lo = (0xDC00 + w % 1024) as u16;
            assert(e =~= prefix.push(hi).push(lo));
            assert(e.drop_last().drop_last() =~= prefix);
            assert(e[e.len() - 2] == hi);
            assert(0x10000 + (hi - 0xD800) * 1024 + (lo - 0xDC00) == v);
        }
        assert(s.drop_last().push(c) =~= s);
    }
}

/// A string of characters below U+10000 encodes unit for unit: each
/// character becomes the single unit equal to its code point.
pub proof fn lemma_utf16_basic_plane(s: Seq<char>)
    requires
        forall|i: int| 0 <= i < s.len() ==> (#[trigger] s[i] as u32) < 0x10000,
    ensures
        encode_utf16(s).len() == s.len(),
        forall|i: int| 0 <= i < s.len() ==> #[trigger] encode_utf16(s)[i] as u32 == s[i] as u32,
    decreases s.len(),
{
    if s.len() > 0 {
        let d = s.drop_last();
        assert forall|i: int| 0 <= i < d.len() implies (#[trigger] d[i] as u32) < 0x10000 by {
            assert(d[i] == s[i]);
        }
        lemma_utf16_basic_plane(d);
        let c = s[s.len() - 1];
        assert((c as u32) < 0x10000);
        let x = c as u32;
        assert((x as u16) as u32 == x);
        assert(utf16_units(c) == seq![x as u16]);
        let e = encode_utf16(s);
        assert(e == encode_utf16(d) + utf16_units(c));
        assert forall|i: int| 0 <= i < s.len() implies #[trigger] e[i] as u32 == s[i] as u32 by {
            if i < d.len() {
                assert(e[i] == encode_utf16(d)[i]);
                assert(d[i] == s[i]);
            } else {
                assert(e[i] == x as u16);
            }
        }
    }
}

/// Encode a Rust &str as a null-terminated UTF-16 Vec for Win32 APIs.
pub fn wide_str(s: &str) -> (w: Vec<u16>)
    ensures
        w@ == encode_utf16(s@).push(0),
        // What the units are: they decode back to the string, and below
        // U+10000 each character is the one unit equal to its code point.
        w@.last() == 0,
        decode_utf16(w@.drop_last()) == s@,
        (forall|i: int| 0 <= i < s@.len() ==> (#[trigger] s@[i] as u32) < 0x10000) ==> (w@.len()
            == s@.len() + 1 && forall|i: int| 0 <= i < s@.len() ==> #[trigger] w@[i] as u32
            == s@[i] as u32),
{
    let mut out: Vec<u16> = Vec::new();
    let n = s.unicode_len();
    for i in 0..n
        invariant
            n == s@.len(),
            out@ == encode_utf16(s@.take(i as int)),
    {
        let c = s.get_char(i);
        let v = c as u32;
        if v < 0x10000 {
            out.push(v as u16);
        } else {
            let w = v - 0x10000;
            out.push((0xD800 + w / 1024) as u16);
            out.push((0xDC00 + w % 1024) as u16);
        }
        assert(s@.take(i + 1).drop_last() =~= s@.take(i as int));
    }
    assert(s@.take(n as int) =~= s@);
    out.push(0);
    proof {
        assert(out@.drop_last() =~= encode_utf16(s@));
        lemma_utf16_decodes_back(s@);
        if forall|i: int| 0 <= i < s@.len() ==> (#[trigger] s@[i] as u32) < 0x10000 {
            lemma_utf16_basic_plane(s@);
            assert forall|i: int| 0 <= i < s@.len() implies #[trigger] out@[i] as u32 == s@[i] as u32 by {
                assert(out@[i] == encode_utf16(s@)[i]);
            }
        }
    }
    out
}

// ── Color ──────────────────────────────────────────────────────────────────

/// RGB color that converts to a Win32 COLORREF (0x00BBGGRR).
#[derive(Clone, Copy, Debug, PartialEq, Eq, Structural)]
pub struct Color {
    pub r: u8,
    pub g: u8,
    pub b: u8,
}

impl Default for Color {
    /// Black.
    fn default() -> (c: Self)
        ensures
            c == (Color { r: 0, g: 0, b: 0 }),
    {
        Color { r: 0, g: 0, b: 0 }
    }
}

/// The bytes that are left once the leading `'#'` bytes are taken off.
pub open spec fn trim_leading_hashes(bytes: Seq<u8>) -> Seq<u8>
    decreases bytes.len(),
{
    if bytes.len() > 0 && bytes[0] == 0x23 {
        trim_leading_hashes(bytes.drop_first())
    } else {
        bytes
    }
}

/// An ASCII hexadecimal digit, of either case.
pub open spec fn is_hex_digit(c: u8) -> bool {
    (0x30 <= c <= 0x39) || (0x41 <= c <= 0x46) || (0x61 <= c <= 0x66)
}

/// The value of a hexadecimal digit.
pub open spec fn hex_digit_value(c: u8) -> int {
    if 0x30 <= c <= 0x39 {
        c - 0x30
    } else if 0x41 <= c <= 0x46 {
        c - 0x41 + 10
    } else {
        c - 0x61 + 10
    }
}

/// A two-byte string read as a base-16 `u8`, 0 where it is not one: two hex
/// digits, or a `'+'` and one hex digit.
pub open spec fn hex_pair_value(hi: u8, lo: u8) -> u8 {
    if is_hex_digit(hi) && is_hex_digit(lo) {
        (16 * hex_digit_value(hi) + hex_digit_value(lo)) as u8
    } else if hi == 0x2B && is_hex_digit(lo) {
        hex_digit_value(lo) as u8
    } else {
        0
    }
}

/// The color that a hex string whose UTF-8 bytes are `bytes` denotes: after
/// the leading `'#'`s, the first six bytes are read in pairs as red, green
/// and blue; with fewer than six bytes left the color is black.
pub open spec fn color_from_hex_bytes(bytes: Seq<u8>) -> Color {
    let h = trim_leading_hashes(bytes);
    if h.len() >= 6 {
        Color {
            r: hex_pair_value(h[0], h[1]),
            g: hex_pair_value(h[2], h[3]),
            b: hex_pair_value(h[4], h[5]),
        }
    } else {
        Color { r: 0, g: 0, b: 0 }
    }
}

/// The three two-byte pieces of a hex string each begin and end on a
/// character boundary: no byte at index 2, 4 or 6 after the leading `'#'`s
/// continues a multi-byte character.
pub open spec fn hex_pairs_on_char_boundaries(bytes: Seq<u8>) -> bool {
    let h = trim_leading_hashes(bytes);
    h.len() >= 6 ==> {
        &&& !is_continuation_byte(h[2])
        &&& !is_continuation_byte(h[4])
        &&& h.len() > 6 ==> !is_continuation_byte(h[6])
    }
}

/// The hexadecimal digit of a value below 16, in upper or lower case.
pub open spec fn hex_digit_char(v: int, upper: bool) -> u8 {
    if v < 10 {
        (0x30 + v) as u8
    } else if upper {
        (0x41 + v - 10) as u8
    } else {
        (0x61 + v - 10) as u8
    }
}

/// The bytes of `"#RRGGBB"` for a color, with upper- or lowercase digits.
pub open spec fn hex_code_bytes(c: Color, upper: bool) -> Seq<u8> {
    seq![
        0x23u8,
        hex_digit_char((c.r / 16) as int, upper),
        hex_digit_char((c.r % 16) as int, upper),
        hex_digit_char((c.g / 16) as int, upper),
        hex_digit_char((c.g % 16) as int, upper),
        hex_digit_char((c.b / 16) as int, upper),
        hex_digit_char((c.b % 16) as int, upper),
    ]
}

fn hex_digit(c: u8) -> (v: Option<u8>)
    ensures
        match v {
            Some(d) => is_hex_digit(c) && d == hex_digit_value(c),
            None => !is_hex_digit(c),
        },
{
    if 0x30 <= c && c <= 0x39 {
        Some(c - 0x30)
    } else if 0x41 <= c && c <= 0x46 {
        Some(c - 0x41 + 10)
    } else if 0x61 <= c && c <= 0x66 {
        Some(c - 0x61 + 10)
    } else {
        None
    }
}

fn parse_hex_pair(hi: u8, lo: u8) -> (v: u8)
    ensures
        v == hex_pair_value(hi, lo),
{
    match (hex_digit(hi), hex_digit(lo)) {
        (Some(h), Some(l)) => 16 * h + l,
        (None, Some(l)) => {
            if hi == 0x2B {
                l
            } else {
                0
            }
        },
        _ => 0,
    }
}

impl Color {
    pub fn new(r: u8, g: u8, b: u8) -> (c: Self)
        ensures
            c == (Color { r, g, b }),
    {
        Self { r, g, b }
    }

    /// Parse "#RRGGBB" (the leading '#' is optional).
    pub fn from_hex(hex: &str) -> (c: Self)
        requires
            hex_pairs_on_char_boundaries(hex.spec_bytes()),
        ensures
            c == color_from_hex_bytes(hex.spec_bytes()),
            // The same, read directly off the bytes for the usual forms.
            hex.spec_bytes().len() < 6 ==> c == (Color { r: 0, g: 0, b: 0 }),
            is_hex_code(hex.spec_bytes(), 1) ==> c == color_of_digits(hex.spec_bytes(), 1),
            is_hex_code(hex.spec_bytes(), 0) ==> c == color_of_digits(hex.spec_bytes(), 0),
    {
        let bytes = hex.as_bytes();
        let len = bytes.len();
        let mut i: usize = 0;
        assert(bytes@.skip(0) =~= bytes@);
        while i < len && bytes[i] == 0x23
            invariant
                i <= len,
                len == bytes@.len(),
                trim_leading_hashes(bytes@.skip(i as int)) == trim_leading_hashes(bytes@),
            decreases len - i,
        {
            assert(bytes@.skip(i as int).drop_first() =~= bytes@.skip(i + 1));
            i = i + 1;
        }
        assert(trim_leading_hashes(bytes@.skip(i as int)) == bytes@.skip(i as int));
        proof {
            lemma_trim_shortens(bytes@);
            lemma_hex_code_forms(bytes@);
        }
        if len - i >= 6 {
            Self {
                r: parse_hex_pair(bytes[i], bytes[i + 1]),
                g: parse_hex_pair(bytes[i + 2], bytes[i + 3]),
                b: parse_hex_pair(bytes[i + 4], bytes[i + 5]),
            }
        } else {
            Self::default()
        }
    }

    /// Win32 COLORREF value (0x00BBGGRR).
    pub fn to_colorref(self) -> (v: u32)
        ensures
            v == self.r + 256 * self.g + 65536 * self.b,
    {
        let (r, g, b) = (self.r, self.g, self.b);
        assert((r as u32) | (g as u32) << 8 | (b as u32) << 16 == r + 256 * g + 65536 * b)
            by (bit_vector);
        r as u32 | (g as u32) << 8 | (b as u32) << 16
    }

    /// Pack as 0xFFRRGGBB (for DIB pixel with full alpha).
    pub fn to_bgra_pixel(self) -> (v: u32)
        ensures
            v == 0xFF00_0000 + 65536 * self.r + 256 * self.g + self.b,
    {
        let (r, g, b) = (self.r, self.g, self.b);
        assert(0xFF00_0000u32 | (r as u32) << 16 | (g as u32) << 8 | b as u32 == 0xFF00_0000
            + 65536 * r + 256 * g + b) by (bit_vector);
        0xFF00_0000u32 | (r as u32) << 16 | (g as u32) << 8 | b as u32
    }
}

/// The bytes are exactly `"#RRGGBB"` (with `hash == 1`) or `"RRGGBB"` (with
/// `hash == 0`), in hex digits of either case.
pub open spec fn is_hex_code(b: Seq<u8>, hash: int) -> bool {
    &&& b.len() == 6 + hash
    &&& hash == 1 ==> b[0] == 0x23
    &&& forall|i: int| hash <= i < 6 + hash ==> is_hex_digit(#[trigger] b[i])
}

/// The color whose channels are the three digit pairs after `hash` bytes.
pub open spec fn color_of_digits(b: Seq<u8>, hash: int) -> Color {
    Color {
        r: (16 * hex_digit_value(b[hash]) + hex_digit_value(b[hash + 1])) as u8,
        g: (16 * hex_digit_value(b[hash + 2]) + hex_digit_value(b[hash + 3])) as u8,
        b: (16 * hex_digit_value(b[hash + 4]) + hex_digit_value(b[hash + 5])) as u8,
    }
}

/// Taking off leading `'#'`s never lengthens the bytes.
pub proof fn lemma_trim_shortens(b: Seq<u8>)
    ensures
        trim_leading_hashes(b).len() <= b.len(),
    decreases b.len(),
{
    if b.len() > 0 && b[0] == 0x23 {
        lemma_trim_shortens(b.drop_first());
    }
}

/// Fewer than six bytes read as black; `"#RRGGBB"` and `"RRGGBB"` read as the
/// color of their digit pairs.
pub proof fn lemma_hex_code_forms(b: Seq<u8>)
    ensures
        b.len() < 6 ==> color_from_hex_bytes(b) == (Color { r: 0, g: 0, b: 0 }),
        is_hex_code(b, 1) ==> color_from_hex_bytes(b) == color_of_digits(b, 1),
        is_hex_code(b, 0) ==> color_from_hex_bytes(b) == color_of_digits(b, 0),
{
    lemma_trim_shortens(b);
    if is_hex_code(b, 1) {
        assert(is_hex_digit(b[1]));
        reveal_with_fuel(trim_leading_hashes, 2);
        assert(trim_leading_hashes(b) == b.drop_first());
        assert forall|i: int| 0 <= i < 6 implies is_hex_digit(#[trigger] b.drop_first()[i]) by {
            assert(b.drop_first()[i] == b[i + 1]);
        }
    }
    if is_hex_code(b, 0) {
        assert(is_hex_digit(b[0]));
        assert(trim_leading_hashes(b) == b);
    }
}

/// A color written as `"#RRGGBB"`, with upper- or lowercase digits, and with
/// or without the `'#'`, reads back as itself.
pub proof fn lemma_from_hex_reads_hex_code(c: Color, upper: bool)
    ensures
        color_from_hex_bytes(hex_code_bytes(c, upper)) == c,
        hex_pairs_on_char_boundaries(hex_code_bytes(c, upper)),
        color_from_hex_bytes(hex_code_bytes(c, upper).drop_first()) == c,
        hex_pairs_on_char_boundaries(hex_code_bytes(c, upper).drop_first()),
{
    let h = hex_code_bytes(c, upper);
    let t = h.drop_first();
    reveal_with_fuel(trim_leading_hashes, 2);
    assert(t =~= seq![h[1], h[2], h[3], h[4], h[5], h[6]]);
    assert(trim_leading_hashes(h) == t);
    assert(trim_leading_hashes(t) == t);
}

/// The leading `'#'` is optional: with or without it a hex string denotes
/// the same color.
pub proof fn lemma_hash_prefix_optional(bytes: Seq<u8>)
    ensures
        color_from_hex_bytes(seq![0x23u8] + bytes) == color_from_hex_bytes(bytes),
        hex_pairs_on_char_boundaries(seq![0x23u8] + bytes) == hex_pairs_on_char_boundaries(bytes),
{
    assert((seq![0x23u8] + bytes).drop_first() =~= bytes);
}

// ── Window styles and DPI ──────────────────────────────────────────────────

/// The DPI of a window where the system reports none.
pub const DEFAULT_DPI: u32 = 96;

/// DPI for a window, given what the system reported for it (0 when the API
/// is unavailable): falls back to 96.
pub fn effective_dpi(reported: u32) -> (dpi: u32)
    ensures
        dpi == (if reported == 0 { DEFAULT_DPI } else { reported }),
{
    if reported == 0 {
        DEFAULT_DPI
    } else {
        reported
    }
}

/// A window style with the bits of `remove` cleared and those of `add` set:
/// every bit of `add` is set, every bit of `remove` that is not in `add` is
/// clear, and every other bit is as in `style`.
pub fn restyle(style: u32, remove: u32, add: u32) -> (s: u32)
    ensures
        s & add == add,
        s & (remove & !add) == 0,
        s & !(remove | add) == style & !(remove | add),
{
    let s = (style & !remove) | add;
    assert(s & add == add) by (bit_vector)
        requires
            s == (style & !remove) | add,
    ;
    assert(s & (remove & !add) == 0) by (bit_vector)
        requires
            s == (style & !remove) | add,
    ;
    assert(s & !(remove | add) == style & !(remove | add)) by (bit_vector)
        requires
            s == (style & !remove) | add,
    ;
    s
}

} // verus!
