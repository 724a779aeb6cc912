//! Colours written as hexadecimal `RGB` or `RRGGBB`, optionally after a `#`.

use vstd::prelude::*;
use vstd::utf8::is_continuation_byte;
use vstd::string::StringSliceAdditionalSpecFns;

verus! {

/// An opaque RGB colour.
#[derive(PartialEq, Eq, Structural, Clone, Copy, Debug)]
pub struct Color {
    pub red: u8,
    pub green: u8,
    pub blue: u8,
}

/// The value of an ASCII hexadecimal digit (`0-9`, `a-f`, `A-F`).
pub open spec fn hex_digit(b: u8) -> Option<int> {
    if 48 <= b <= 57 {
        Some(b - 48)
    } else if 97 <= b <= 102 {
        Some(b - 87)
    } else if 65 <= b <= 70 {
        Some(b - 55)
    } else {
        None
    }
}

/// Value of a string of hexadecimal digits, if every byte is one.
pub open spec fn hex_digits_value(s: Seq<u8>) -> Option<int>
    decreases s.len(),
{
    if s.len() == 0 {
        Some(0)
    } else {
        match (hex_digits_value(s.drop_last()), hex_digit(s.last())) {
            (Some(a), Some(d)) => Some(a * 16 + d),
            _ => None,
        }
    }
}

/// What `u8::from_str_radix(s, 16)` gives for the bytes `s`: an optional `+`
/// followed by at least one hexadecimal digit, the value fitting in a `u8`.
pub open spec fn parse_hex_u8(s: Seq<u8>) -> Option<u8> {
    if s.len() == 0 {
        None
    } else {
        let body = if s[0] == 43 { s.skip(1) } else { s };
        if body.len() == 0 {
            None
        } else {
            match hex_digits_value(body) {
                Some(v) => if v <= 255 { Some(v as u8) } else { None },
                None => None,
            }
        }
    }
}

/// The bytes of the colour text after an optional leading `#`.
pub open spec fn hex_body(b: Seq<u8>) -> Seq<u8> {
    if b.len() > 0 && b[0] == 35 { b.skip(1) } else { b }
}

/// Slicing the body into its colour components does not cut a character
/// in two (the only way slicing the text can fail).
pub open spec fn components_on_char_boundaries(b: Seq<u8>) -> bool {
    &&& b.len() == 6 ==> !is_continuation_byte(b[2]) && !is_continuation_byte(b[4])
    &&& b.len() == 3 ==> !is_continuation_byte(b[1]) && !is_continuation_byte(b[2])
}

pub open spec fn invalid_red() -> Seq<char> { "Invalid red value"@ }
pub open spec fn invalid_green() -> Seq<char> { "Invalid green value"@ }
pub open spec fn invalid_blue() -> Seq<char> { "Invalid blue value"@ }
pub open spec fn invalid_length() -> Seq<char> {
    "Invalid length for hex string, expected RGB or RRGGBB"@
}

/// The colour that `RRGGBB` or `RGB` text (bytes, `#` already removed)
/// denotes, or the message of the first component that fails.
pub open spec fn spec_parse_hex(b: Seq<u8>) -> Result<Color, Seq<char>> {
    if b.len() == 6 {
        match (parse_hex_u8(b.subrange(0, 2)), parse_hex_u8(b.subrange(2, 4)), parse_hex_u8(b.subrange(4, 6))) {
            (None, _, _) => Err(invalid_red()),
            (Some(_), None, _) => Err(invalid_green()),
            (Some(_), Some(_), None) => Err(invalid_blue()),
            (Some(r), Some(g), Some(bl)) => Ok(Color { red: r, green: g, blue: bl }),
        }
    } else if b.len() == 3 {
        match (parse_hex_u8(b.subrange(0, 1)), parse_hex_u8(b.subrange(1, 2)), parse_hex_u8(b.subrange(2, 3))) {
            (None, _, _) => Err(invalid_red()),
            (Some(_), None, _) => Err(invalid_green()),
            (Some(_), Some(_), None) => Err(invalid_blue()),
            (Some(r), Some(g), Some(bl)) => Ok(
                Color { red: (r * 17) as u8, green: (g * 17) as u8, blue: (bl * 17) as u8 },
            ),
        }
    } else {
        Err(invalid_length())
    }
}

/// The ASCII hexadecimal digit for `d` (`0 <= d < 16`), upper-case or
/// lower-case.
pub open spec fn hex_char_byte(d: int, upper: bool) -> u8 {
    if d < 10 {
        (d + 48) as u8
    } else if upper {
        (d + 55) as u8
    } else {
        (d + 87) as u8
    }
}

/// A byte as two hexadecimal digits (`{:02x}` or `{:02X}`).
pub open spec fn hex_pair(v: u8, upper: bool) -> Seq<u8> {
    seq![hex_char_byte((v / 16) as int, upper), hex_char_byte((v % 16) as int, upper)]
}

/// The text a colour is written as: an optional `#`, then its components.
pub open spec fn with_hash(hash: bool, digits: Seq<u8>) -> Seq<u8> {
    if hash { seq![35u8] + digits } else { digits }
}

proof fn lemma_hex_char_byte(d: int, upper: bool)
    requires
        0 <= d < 16,
    ensures
        hex_digit(hex_char_byte(d, upper)) == Some(d),
        hex_char_byte(d, upper) != 43,
{
}

proof fn lemma_hex_pair(v: u8, upper: bool)
    ensures
        parse_hex_u8(hex_pair(v, upper)) == Some(v),
{
    let p = hex_pair(v, upper);
    lemma_hex_char_byte((v / 16) as int, upper);
    lemma_hex_char_byte((v % 16) as int, upper);
    let hi = (v / 16) as int;
    let lo = (v % 16) as int;
    assert(p.drop_last() =~= seq![p[0]]);
    assert(seq![p[0]].drop_last() =~= Seq::<u8>::empty());
    assert(hex_digits_value(Seq::<u8>::empty()) == Some(0int));
    assert(seq![p[0]].last() == p[0]);
    assert(hex_digits_value(seq![p[0]]) == Some(hi));
    assert(p.last() == p[1]);
    assert(hex_digits_value(p) == Some(hi * 16 + lo));
    assert(hi * 16 + lo == v as int);
}

proof fn lemma_hex_single(d: u8, upper: bool)
    requires
        d < 16,
    ensures
        parse_hex_u8(seq![hex_char_byte(d as int, upper)]) == Some(d),
{
    let p = seq![hex_char_byte(d as int, upper)];
    lemma_hex_char_byte(d as int, upper);
    assert(p.drop_last() =~= Seq::<u8>::empty());
    assert(hex_digits_value(Seq::<u8>::empty()) == Some(0int));
    assert(p.last() == p[0]);
    assert(hex_digits_value(p) == Some(d as int));
}

/// A colour written as hexadecimal text reads back as that colour: `RRGGBB`
/// with two digits per component, or `RGB` with one (each widened by 17),
/// with or without a leading `#`, each component in either case.
pub proof fn lemma_hex_round_trip(
    hash: bool,
    red: u8,
    green: u8,
    blue: u8,
    x: u8,
    y: u8,
    z: u8,
    u1: bool,
    u2: bool,
    u3: bool,
)
    requires
        x < 16,
        y < 16,
        z < 16,
    ensures
        spec_parse_hex(hex_body(with_hash(hash, hex_pair(red, u1) + hex_pair(green, u2) + hex_pair(blue, u3))))
            == Ok::<Color, Seq<char>>(Color { red, green, blue }),
        spec_parse_hex(hex_body(with_hash(hash, seq![hex_char_byte(x as int, u1), hex_char_byte(y as int, u2), hex_char_byte(z as int, u3)])))
            == Ok::<Color, Seq<char>>(Color { red: (x * 17) as u8, green: (y * 17) as u8, blue: (z * 17) as u8 }),
{
    let long = hex_pair(red, u1) + hex_pair(green, u2) + hex_pair(blue, u3);
    lemma_hex_pair(red, u1);
    lemma_hex_pair(green, u2);
    lemma_hex_pair(blue, u3);
    lemma_hex_char_byte(red as int / 16, u1);
    assert(hex_body(with_hash(hash, long)) =~= long);
    assert(long.subrange(0, 2) =~= hex_pair(red, u1));
    assert(long.subrange(2, 4) =~= hex_pair(green, u2));
    assert(long.subrange(4, 6) =~= hex_pair(blue, u3));
    let short = seq![hex_char_byte(x as int, u1), hex_char_byte(y as int, u2), hex_char_byte(z as int, u3)];
    lemma_hex_single(x, u1);
    lemma_hex_single(y, u2);
    lemma_hex_single(z, u3);
    lemma_hex_char_byte(x as int, u1);
    assert(hex_body(with_hash(hash, short)) =~= short);
    assert(short.subrange(0, 1) =~= seq![hex_char_byte(x as int, u1)]);
    assert(short.subrange(1, 2) =~= seq![hex_char_byte(y as int, u2)]);
    assert(short.subrange(2, 3) =~= seq![hex_char_byte(z as int, u3)]);
}

fn hex_digit_of(b: u8) -> (r: Option<u8>)
    ensures
        match r {
            Some(v) => hex_digit(b) == Some(v as int) && v < 16,
            None => hex_digit(b) is None,
        },
{
    if 48 <= b && b <= 57 {
        Some(b - 48)
    } else if 97 <= b && b <= 102 {
        Some(b - 87)
    } else if 65 <= b && b <= 70 {
        Some(b - 55)
    } else {
        None
    }
}

/// `u8::from_str_radix` with radix 16 on `b[start..end]`, for slices of at most two bytes.
fn parse_hex_slice(b: &[u8], start: usize, end: usize) -> (r: Option<u8>)
    requires
        start <= end <= b@.len(),
        end - start <= 2,
    ensures
        r == parse_hex_u8(b@.subrange(start as int, end as int)),
{
    let ghost s = b@.subrange(start as int, end as int);
    if start == end {
        return None;
    }
    let first = if b[start] == 43u8 { start + 1 } else { start };
    let ghost body = if s[0] == 43 { s.skip(1) } else { s };
    assert(s[0] == b@[start as int]);
    assert(body =~= b@.subrange(first as int, end as int));
    if first == end {
        return None;
    }
    let mut acc: u32 = 0;
    let mut k = first;
    while k < end
        invariant
            first <= k <= end <= b@.len(),
            end - first <= 2,
            body == b@.subrange(first as int, end as int),
            s == b@.subrange(start as int, end as int),
            s.len() > 0,
            body == (if s[0] == 43 { s.skip(1) } else { s }),
            hex_digits_value(b@.subrange(first as int, k as int)) == Some(acc as int),
            acc < 16 * 16,
            k - first <= 1 ==> acc < 16,
            k == first ==> acc == 0,
        decreases end - k,
    {
        let ghost prev = b@.subrange(first as int, k as int);
        let ghost next = b@.subrange(first as int, k + 1);
        assert(next.drop_last() =~= prev);
        assert(next.last() == b@[k as int]);
        match hex_digit_of(b[k]) {
            Some(d) => {
                acc = acc * 16 + d as u32;
            },
            None => {
                proof {
                    assert(body.take((k + 1 - first) as int) =~= next);
                    assert(hex_digits_value(next) is None);
                    lemma_hex_prefix_fails(body, (k + 1 - first) as int);
                }
                return None;
            },
        }
        k = k + 1;
    }
    assert(b@.subrange(first as int, k as int) =~= body);
    Some(acc as u8)
}

proof fn lemma_hex_prefix_fails(s: Seq<u8>, k: int)
    requires
        0 <= k <= s.len(),
        hex_digits_value(s.take(k)) is None,
    ensures
        hex_digits_value(s) is None,
    decreases s.len(),
{
    if k < s.len() {
        assert(s.drop_last().take(k) =~= s.take(k));
        lemma_hex_prefix_fails(s.drop_last(), k);
    } else {
        assert(s.take(k) =~= s);
    }
}

impl Color {
    /// Reads `RRGGBB` or `RGB` hexadecimal text, optionally after a `#`;
    /// each short-form digit is repeated (`f` is `ff`). The length counts
    /// bytes, and the components are read in the order red, green, blue; the
    /// first one that is not a hexadecimal number names the error.
    pub fn parse_hex(value: &str) -> (r: Result<Color, String>)
        requires
            components_on_char_boundaries(hex_body(value.spec_bytes())),
        ensures
            match r {
                Ok(c) => spec_parse_hex(hex_body(value.spec_bytes())) == Ok::<Color, Seq<char>>(c),
                Err(e) => spec_parse_hex(hex_body(value.spec_bytes())) == Err::<Color, Seq<char>>(e@),
            },
    {
        let all = value.as_bytes();
        let start: usize = if all.len() > 0 && all[0] == 35u8 { 1 } else { 0 };
        let ghost b = hex_body(value.spec_bytes());
        assert(b =~= all@.subrange(start as int, all@.len() as int));
        let n = all.len() - start;
        if n == 6 {
            assert(b.subrange(0, 2) =~= all@.subrange(start as int, start + 2));
            assert(b.subrange(2, 4) =~= all@.subrange(start + 2, start + 4));
            assert(b.subrange(4, 6) =~= all@.subrange(start + 4, start + 6));
            let red = match parse_hex_slice(all, start, start + 2) {
                Some(v) => v,
                None => { return Err("Invalid red value".to_string()); },
            };
            let green = match parse_hex_slice(all, start + 2, start + 4) {
                Some(v) => v,
                None => { return Err("Invalid green value".to_string()); },
            };
            let blue = match parse_hex_slice(all, start + 4, start + 6) {
                Some(v) => v,
                None => { return Err("Invalid blue value".to_string()); },
            };
            Ok(Color { red, green, blue })
        } else if n == 3 {
            assert(b.subrange(0, 1) =~= all@.subrange(start as int, start + 1));
            assert(b.subrange(1, 2) =~= all@.subrange(start + 1, start + 2));
            assert(b.subrange(2, 3) =~= all@.subrange(start + 2, start + 3));
            let red = match parse_hex_slice(all, start, start + 1) {
                Some(v) => v,
                None => { return Err("Invalid red value".to_string()); },
            };
            let green = match parse_hex_slice(all, start + 1, start + 2) {
                Some(v) => v,
                None => { return Err("Invalid green value".to_string()); },
            };
            let blue = match parse_hex_slice(all, start + 2, start + 3) {
                Some(v) => v,
                None => { return Err("Invalid blue value".to_string()); },
            };
            proof {
                lemma_single_digit_small(b.subrange(0, 1));
                lemma_single_digit_small(b.subrange(1, 2));
                lemma_single_digit_small(b.subrange(2, 3));
            }
            Ok(Color { red: red * 17, green: green * 17, blue: blue * 17 })
        } else {
            Err("Invalid length for hex string, expected RGB or RRGGBB".to_string())
        }
    }

    /// Opaque white.
    pub fn white() -> (c: Color)
        ensures
            c == (Color { red: 255, green: 255, blue: 255 }),
    {
        Color { red: 255, green: 255, blue: 255 }
    }
}

proof fn lemma_single_digit_small(s: Seq<u8>)
    requires
        s.len() == 1,
    ensures
        parse_hex_u8(s) matches Some(v) ==> v < 16,
{
    if s[0] != 43 {
        assert(s.drop_last() =~= Seq::<u8>::empty());
        assert(hex_digits_value(Seq::<u8>::empty()) == Some(0int));
    }
}

/// The colour map sprites are dithered with: four bits per channel.
pub struct RGBA4444;

/// A channel cut to four bits and widened back to eight: the multiple of 17
/// at or just below it (the 16 levels `0, 17, ..., 255`).
pub open spec fn quantized(c: u8) -> u8 {
    ((c / 17) * 17) as u8
}

/// One channel cut (see `quantized`).
fn quantize(c: u8) -> (r: u8)
    ensures
        r == quantized(c),
{
    (c / 17) * 17
}

impl RGBA4444 {
    /// The palette index of a colour: this map keeps no palette, so always 0.
    pub fn index_of(&self, color: &[u8; 4]) -> (r: usize)
        ensures
            r == 0,
    {
        0
    }

    /// Cuts each channel of the colour, alpha included (see `quantized`).
    pub fn map_color(&self, color: &mut [u8; 4])
        ensures
            forall|i: int| 0 <= i < 4 ==> #[trigger] final(color)@[i] == quantized(old(color)@[i]),
    {
        let c = *color;
        *color = [quantize(c[0]), quantize(c[1]), quantize(c[2]), quantize(c[3])];
    }
}

} // verus!
