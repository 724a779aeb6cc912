//! Bitmap fonts: the characters a font's charset asks for, and the variants
//! a font is rendered in.

use vstd::prelude::*;
use crate::text::{chars_of, string_from_chars, push_all};
use crate::templates::opt_view;
use crate::paths::{path_file_name, file_name};
use crate::version::{find_char, field_end, parse_natural, parse_bounded};

verus! {

/// The pieces `str::split(sep)` yields: the text between separators, in
/// order (one empty piece for empty text).
#[verifier::opaque]
pub open spec fn split_pieces(s: Seq<char>, sep: char) -> Seq<Seq<char>>
    decreases s.len(),
{
    match find_char(s, sep) {
        Some(i) => if 0 <= i < s.len() {
            seq![s.take(i)] + split_pieces(s.skip(i + 1), sep)
        } else {
            seq![s]
        },
        None => seq![s],
    }
}

/// What `str::parse::<u32>` gives: an optional `+`, then one or more decimal
/// digits, with the value at most `u32::MAX`.
pub open spec fn parse_u32(s: Seq<char>) -> Option<u32> {
    match parse_natural(s) {
        Some(v) => if v <= u32::MAX { Some(v as u32) } else { None },
        None => None,
    }
}

/// The code is that of a `char`: below the surrogates, or above them up to
/// `0x10FFFF`.
pub open spec fn is_char_code(c: int) -> bool {
    (0 <= c < 0xD800) || (0xE000 <= c <= 0x10FFFF)
}

/// The characters with codes `lo` to `hi` inclusive (none when `lo > hi`);
/// refused when `hi + 1` does not fit a `u32` or a code is no character.
pub open spec fn code_range(lo: u32, hi: u32) -> Option<Seq<char>> {
    if hi == u32::MAX {
        None
    } else if lo > hi {
        Some(Seq::empty())
    } else if forall|c: int| lo <= c <= hi ==> is_char_code(c) {
        Some(Seq::new((hi - lo + 1) as nat, |i: int| (lo + i) as char))
    } else {
        None
    }
}

/// The characters one comma-separated charset entry asks for: `n` for one
/// code, `a-b` for the codes from `a` to `b`.
pub open spec fn entry_chars(entry: Seq<char>) -> Option<Seq<char>> {
    let parts = split_pieces(entry, '-');
    if parts.len() > 2 {
        None
    } else {
        match (parse_u32(parts[0]), parse_u32(parts.last())) {
            (Some(lo), Some(hi)) => if parts.len() == 2 && parse_u32(parts[1]) is None {
                None
            } else {
                code_range(lo, hi)
            },
            _ => None,
        }
    }
}

/// The characters of the entries, in order; refused when one entry is.
pub open spec fn entries_chars(entries: Seq<Seq<char>>) -> Option<Seq<char>>
    decreases entries.len(),
{
    if entries.len() == 0 {
        Some(Seq::empty())
    } else {
        match (entries_chars(entries.drop_last()), entry_chars(entries.last())) {
            (Some(a), Some(b)) => Some(a + b),
            _ => None,
        }
    }
}

/// The characters a charset asks for, in the order given; a font without a
/// charset gets printable ASCII (32 to 126) and the bullet (8226).
pub open spec fn charset_chars(charset: Option<Seq<char>>) -> Option<Seq<char>> {
    entries_chars(split_pieces(match charset { Some(c) => c, None => "32-126,8226"@ }, ','))
}

/// Unfolding `split_pieces` at a separator found at `i`.
proof fn lemma_split_at(s: Seq<char>, sep: char, i: int)
    requires
        find_char(s, sep) == Some(i),
        0 <= i < s.len(),
    ensures
        split_pieces(s, sep) == seq![s.take(i)] + split_pieces(s.skip(i + 1), sep),
{
    reveal(split_pieces);
}

/// Without a separator, `s` is the only piece.
proof fn lemma_split_whole(s: Seq<char>, sep: char)
    requires
        find_char(s, sep) is None,
    ensures
        split_pieces(s, sep) == seq![s],
{
    reveal(split_pieces);
}

/// One step of splitting: the piece up to the separator found at `end`
/// (or up to the end) joins the pieces found so far.
proof fn lemma_split_step(v: Seq<char>, sep: char, from: int, end: int, found: bool, acc: Seq<Seq<char>>)
    requires
        0 <= from <= end <= v.len(),
        found ==> end < v.len() && find_char(v.skip(from), sep) == Some(end - from),
        !found ==> end == v.len() && find_char(v.skip(from), sep) is None,
    ensures
        found ==> acc.push(v.subrange(from, end)) + split_pieces(v.skip(end + 1), sep)
            == acc + split_pieces(v.skip(from), sep),
        !found ==> acc.push(v.subrange(from, end)) == acc + split_pieces(v.skip(from), sep),
{
    let rest = v.skip(from);
    let cur = v.subrange(from, end);
    if found {
        let i = end - from;
        assert(rest.take(i) =~= cur);
        assert(rest.skip(i + 1) =~= v.skip(end + 1));
        lemma_split_at(rest, sep, i);
        assert(acc.push(cur) + split_pieces(v.skip(end + 1), sep) =~= acc + split_pieces(rest, sep));
    } else {
        assert(rest =~= cur);
        lemma_split_whole(rest, sep);
        assert(acc.push(cur) =~= acc + split_pieces(rest, sep));
    }
}

/// `s` split on `sep` (see `split_pieces`).
fn split_chars(v: &Vec<char>, sep: char) -> (r: Vec<Vec<char>>)
    ensures
        r@.len() == split_pieces(v@, sep).len(),
        forall|i: int| 0 <= i < r@.len() ==> #[trigger] r@[i]@ == split_pieces(v@, sep)[i],
{
    let mut out: Vec<Vec<char>> = Vec::new();
    let ghost mut acc: Seq<Seq<char>> = Seq::empty();
    let mut from: usize = 0;
    let mut done = false;
    proof {
        assert(v@.skip(0) =~= v@);
        assert(acc + split_pieces(v@, sep) =~= split_pieces(v@, sep));
    }
    while !done
        invariant
            from <= v.len(),
            out@.len() == acc.len(),
            forall|i: int| 0 <= i < out@.len() ==> #[trigger] out@[i]@ == acc[i],
            !done ==> acc + split_pieces(v@.skip(from as int), sep) == split_pieces(v@, sep),
            done ==> acc == split_pieces(v@, sep),
        decreases v.len() - from + (if done { 0int } else { 1int }),
    {
        let (end, found) = field_end(v, from, sep);
        let mut piece: Vec<char> = Vec::new();
        let mut k: usize = from;
        while k < end
            invariant
                from <= k <= end <= v.len(),
                piece@ == v@.subrange(from as int, k as int),
            decreases end - k,
        {
            piece.push(v[k]);
            k = k + 1;
            assert(piece@ =~= v@.subrange(from as int, k as int));
        }
        let ghost cur = v@.subrange(from as int, end as int);
        out.push(piece);
        proof {
            lemma_split_step(v@, sep, from as int, end as int, found, acc);
            acc = acc.push(cur);
        }
        if found {
            from = end + 1;
        } else {
            done = true;
        }
    }
    out
}

/// `str::parse::<u32>` on the characters (see `parse_u32`).
fn parse_u32_chars(s: &Vec<char>) -> (r: Option<u32>)
    ensures
        r == parse_u32(s@),
{
    match parse_bounded(s, 0xFFFF_FFFF) {
        Some(v) => {
            proof {
                let n = parse_natural(s@)->0;
                assert(n <= u32::MAX && v as int == n);
            }
            Some(v as u32)
        },
        None => None,
    }
}

/// The characters with codes `lo` to `hi` (see `code_range`).
fn code_range_chars(lo: u32, hi: u32) -> (r: Option<Vec<char>>)
    ensures
        match code_range(lo, hi) {
            Some(cs) => r is Some && r->0@ == cs,
            None => r is None,
        },
{
    if hi == 0xFFFF_FFFF {
        return None;
    }
    let mut out: Vec<char> = Vec::new();
    if lo > hi {
        return Some(out);
    }
    let mut c: u32 = lo;
    while c <= hi
        invariant
            lo <= c <= hi + 1,
            lo <= hi,
            hi < u32::MAX,
            out@.len() == c - lo,
            forall|i: int| 0 <= i < out@.len() ==> #[trigger] out@[i] == (lo + i) as char,
            forall|x: int| lo <= x < c ==> is_char_code(x),
        decreases hi + 1 - c,
    {
        let ch = match char_from_u32(c) {
            Some(ch) => ch,
            None => { return None; },
        };
        out.push(ch);
        c = c + 1;
    }
    proof {
        assert(out@ =~= Seq::new((hi - lo + 1) as nat, |i: int| (lo + i) as char));
    }
    Some(out)
}

/// The characters of one charset entry (see `entry_chars`).
fn entry_to_chars(entry: &Vec<char>) -> (r: Option<Vec<char>>)
    ensures
        match entry_chars(entry@) {
            Some(cs) => r is Some && r->0@ == cs,
            None => r is None,
        },
{
    let parts = split_chars(entry, '-');
    let ghost ps = split_pieces(entry@, '-');
    proof { lemma_pieces_nonempty(entry@, '-'); }
    if parts.len() > 2 {
        return None;
    }
    assert(parts@[0]@ == ps[0]);
    assert(parts@[parts@.len() - 1]@ == ps.last());
    let lo = match parse_u32_chars(&parts[0]) {
        Some(x) => x,
        None => { return None; },
    };
    let hi = match parse_u32_chars(&parts[parts.len() - 1]) {
        Some(x) => x,
        None => { return None; },
    };
    proof {
        if ps.len() == 2 {
            assert(ps[1] == ps.last());
        }
    }
    code_range_chars(lo, hi)
}

/// `char::from_u32`: the character with the code, when it is one.
#[verifier::external_body]
fn char_from_u32(c: u32) -> (r: Option<char>)
    ensures
        match r {
            Some(ch) => is_char_code(c as int) && ch == c as char,
            None => !is_char_code(c as int),
        },
{
    char::from_u32(c)
}

/// `str::split` yields at least one piece.
proof fn lemma_pieces_nonempty(s: Seq<char>, sep: char)
    ensures
        split_pieces(s, sep).len() >= 1,
{
    reveal(split_pieces);
}

/// A refused entry refuses every longer list of entries.
proof fn lemma_entries_refused(entries: Seq<Seq<char>>, k: int)
    requires
        0 <= k <= entries.len(),
        entries_chars(entries.take(k)) is None,
    ensures
        entries_chars(entries) is None,
    decreases entries.len() - k,
{
    if k < entries.len() {
        assert(entries.take(k + 1).drop_last() =~= entries.take(k));
        lemma_entries_refused(entries, k + 1);
    } else {
        assert(entries.take(k) =~= entries);
    }
}

/// The characters a font's charset asks for (see `charset_chars`); `None`
/// when an entry is not a code or a range of codes of characters, or has
/// more than two parts.
pub fn font_charset(charset: &Option<String>) -> (r: Option<Vec<char>>)
    ensures
        match charset_chars(opt_view(*charset)) {
            Some(cs) => r is Some && r->0@ == cs,
            None => r is None,
        },
{
    let text = match charset {
        Some(c) => chars_of(c.as_str()),
        None => chars_of("32-126,8226"),
    };
    proof { reveal_strlit("32-126,8226"); }
    assert(text@ == match opt_view(*charset) { Some(c) => c, None => "32-126,8226"@ });
    let entries = split_chars(&text, ',');
    let ghost es = split_pieces(text@, ',');
    let mut out: Vec<char> = Vec::new();
    let mut i: usize = 0;
    proof {
        assert(es.take(0) =~= Seq::<Seq<char>>::empty());
    }
    while i < entries.len()
        invariant
            i <= entries@.len(),
            entries@.len() == es.len(),
            forall|j: int| 0 <= j < entries@.len() ==> #[trigger] entries@[j]@ == es[j],
            entries_chars(es.take(i as int)) == Some(out@),
            charset_chars(opt_view(*charset)) == entries_chars(es),
        decreases entries@.len() - i,
    {
        proof {
            assert(es.take(i + 1).drop_last() =~= es.take(i as int));
            assert(es.take(i + 1).last() == entries@[i as int]@);
        }
        match entry_to_chars(&entries[i]) {
            Some(cs) => {
                push_all(&mut out, &cs);
            },
            None => {
                proof {
                    let t = es.take(i + 1);
                    assert(t.last() == es[i as int]);
                    assert(entry_chars(t.last()) is None);
                    assert(entries_chars(t) is None);
                    lemma_entries_refused(es, i + 1);
                }
                return None;
            },
        }
        i = i + 1;
    }
    proof {
        assert(es.take(entries@.len() as int) =~= es);
    }
    Some(out)
}

/// Why the charset of a font rendered with an outline could not be read.
#[derive(PartialEq, Eq, Structural, Clone, Copy, Debug)]
pub enum CharsetError {
    /// An entry has more than one `-`.
    TooManyDashes,
    /// A bound of an entry is not a `u32` number.
    NotANumber,
    /// A code in a range is not that of a character.
    NotACharacter,
}

/// The characters with codes from `lo` up to but not including `hi`.
pub open spec fn half_open_range(lo: u32, hi: u32) -> Result<Seq<char>, CharsetError> {
    if lo >= hi {
        Ok(Seq::empty())
    } else if forall|c: int| lo <= c < hi ==> is_char_code(c) {
        Ok(Seq::new((hi - lo) as nat, |i: int| (lo + i) as char))
    } else {
        Err(CharsetError::NotACharacter)
    }
}

/// The characters one charset entry asks for when a font is rendered with
/// an outline: `a-b` stands for the codes from `a` up to but not including
/// `b`, and a single number for no code at all.
pub open spec fn outlined_entry_chars(entry: Seq<char>) -> Result<Seq<char>, CharsetError> {
    let parts = split_pieces(entry, '-');
    if parts.len() > 2 {
        Err(CharsetError::TooManyDashes)
    } else {
        match (parse_u32(parts[0]), parse_u32(parts.last())) {
            (Some(lo), Some(hi)) => half_open_range(lo, hi),
            _ => Err(CharsetError::NotANumber),
        }
    }
}

/// The characters of the entries in order; the first entry refused decides
/// the error.
pub open spec fn outlined_entries_chars(entries: Seq<Seq<char>>) -> Result<Seq<char>, CharsetError>
    decreases entries.len(),
{
    if entries.len() == 0 {
        Ok(Seq::empty())
    } else {
        match outlined_entries_chars(entries.drop_last()) {
            Err(e) => Err(e),
            Ok(a) => match outlined_entry_chars(entries.last()) {
                Err(e) => Err(e),
                Ok(b) => Ok(a + b),
            },
        }
    }
}

/// The characters an outlined font's charset asks for; without a charset,
/// the entries `32-126` and `8226`.
pub open spec fn outlined_charset_chars(charset: Option<Seq<char>>) -> Result<Seq<char>, CharsetError> {
    outlined_entries_chars(split_pieces(match charset { Some(c) => c, None => "32-126,8226"@ }, ','))
}

/// The characters with codes from `lo` up to but not including `hi`.
fn half_open_chars(lo: u32, hi: u32) -> (r: Result<Vec<char>, CharsetError>)
    ensures
        match half_open_range(lo, hi) {
            Ok(cs) => r is Ok && r->Ok_0@ == cs,
            Err(e) => r == Err::<Vec<char>, CharsetError>(e),
        },
{
    let mut out: Vec<char> = Vec::new();
    if lo >= hi {
        return Ok(out);
    }
    let mut c: u32 = lo;
    while c < hi
        invariant
            lo <= c <= hi,
            lo < hi,
            out@.len() == c - lo,
            forall|i: int| 0 <= i < out@.len() ==> #[trigger] out@[i] == (lo + i) as char,
            forall|x: int| lo <= x < c ==> is_char_code(x),
        decreases hi - c,
    {
        let ch = match char_from_u32(c) {
            Some(ch) => ch,
            None => { return Err(CharsetError::NotACharacter); },
        };
        out.push(ch);
        c = c + 1;
    }
    proof {
        assert(out@ =~= Seq::new((hi - lo) as nat, |i: int| (lo + i) as char));
    }
    Ok(out)
}

/// The characters of one entry of an outlined font's charset (see
/// `outlined_entry_chars`).
fn outlined_entry(entry: &Vec<char>) -> (r: Result<Vec<char>, CharsetError>)
    ensures
        match outlined_entry_chars(entry@) {
            Ok(cs) => r is Ok && r->Ok_0@ == cs,
            Err(e) => r == Err::<Vec<char>, CharsetError>(e),
        },
{
    let parts = split_chars(entry, '-');
    let ghost ps = split_pieces(entry@, '-');
    proof { lemma_pieces_nonempty(entry@, '-'); }
    if parts.len() > 2 {
        return Err(CharsetError::TooManyDashes);
    }
    assert(parts@[0]@ == ps[0]);
    assert(parts@[parts@.len() - 1]@ == ps.last());
    let lo = match parse_u32_chars(&parts[0]) {
        Some(x) => x,
        None => { return Err(CharsetError::NotANumber); },
    };
    let hi = match parse_u32_chars(&parts[parts.len() - 1]) {
        Some(x) => x,
        None => { return Err(CharsetError::NotANumber); },
    };
    half_open_chars(lo, hi)
}

/// A refused entry decides the result of every longer list of entries.
proof fn lemma_outlined_refused(entries: Seq<Seq<char>>, k: int, e: CharsetError)
    requires
        0 <= k <= entries.len(),
        outlined_entries_chars(entries.take(k)) == Err::<Seq<char>, CharsetError>(e),
    ensures
        outlined_entries_chars(entries) == Err::<Seq<char>, CharsetError>(e),
    decreases entries.len() - k,
{
    if k < entries.len() {
        assert(entries.take(k + 1).drop_last() =~= entries.take(k));
        lemma_outlined_refused(entries, k + 1, e);
    } else {
        assert(entries.take(k) =~= entries);
    }
}

/// The characters a font rendered with an outline is drawn for (see
/// `outlined_charset_chars`), or why its charset is refused.
pub fn outlined_font_charset(charset: &Option<String>) -> (r: Result<Vec<char>, CharsetError>)
    ensures
        match outlined_charset_chars(opt_view(*charset)) {
            Ok(cs) => r is Ok && r->Ok_0@ == cs,
            Err(e) => r == Err::<Vec<char>, CharsetError>(e),
        },
{
    let text = match charset {
        Some(c) => chars_of(c.as_str()),
        None => chars_of("32-126,8226"),
    };
    proof { reveal_strlit("32-126,8226"); }
    assert(text@ == match opt_view(*charset) { Some(c) => c, None => "32-126,8226"@ });
    let entries = split_chars(&text, ',');
    let ghost es = split_pieces(text@, ',');
    let mut out: Vec<char> = Vec::new();
    let mut i: usize = 0;
    proof {
        assert(es.take(0) =~= Seq::<Seq<char>>::empty());
    }
    while i < entries.len()
        invariant
            i <= entries@.len(),
            entries@.len() == es.len(),
            forall|j: int| 0 <= j < entries@.len() ==> #[trigger] entries@[j]@ == es[j],
            outlined_entries_chars(es.take(i as int)) == Ok::<Seq<char>, CharsetError>(out@),
            outlined_charset_chars(opt_view(*charset)) == outlined_entries_chars(es),
        decreases entries@.len() - i,
    {
        proof {
            assert(es.take(i + 1).drop_last() =~= es.take(i as int));
            assert(es.take(i + 1).last() == entries@[i as int]@);
        }
        match outlined_entry(&entries[i]) {
            Ok(cs) => {
                push_all(&mut out, &cs);
            },
            Err(e) => {
                proof {
                    let t = es.take(i + 1);
                    assert(t.last() == es[i as int]);
                    assert(outlined_entries_chars(t) == Err::<Seq<char>, CharsetError>(e));
                    lemma_outlined_refused(es, i + 1, e);
                }
                return Err(e);
            },
        }
        i = i + 1;
    }
    proof {
        assert(es.take(entries@.len() as int) =~= es);
    }
    Ok(out)
}

/// One rendering of a font: the file name it is written under, the size
/// and the outline width.
pub struct FontVariant {
    pub name: String,
    pub size: u32,
    pub outline: u32,
}

/// The name a font is written under: the prefix, then the name given or
/// else the font file's name.
pub open spec fn font_base_name(file_name: Option<Seq<char>>, name: Option<Seq<char>>, prefix: Option<Seq<char>>) -> Seq<char> {
    let p = match prefix { Some(p) => p, None => Seq::empty() };
    p + match name { Some(n) => n, None => file_name.unwrap() }
}

/// The renderings of a font: with variants, `<name>-uhd` at full size,
/// `<name>-hd` at half and `<name>` at a quarter (outline scaled the same
/// way); without, only `<name>-uhd` at full size.
pub open spec fn font_variants(base: Seq<char>, size: u32, outline: u32, create_variants: bool) -> Seq<(Seq<char>, u32, u32)> {
    if create_variants {
        seq![
            (base + "-uhd"@, size, outline),
            (base + "-hd"@, (size / 2) as u32, (outline / 2) as u32),
            (base, (size / 4) as u32, (outline / 4) as u32),
        ]
    } else {
        seq![(base + "-uhd"@, size, outline)]
    }
}

/// The renderings to produce for a `.ttf` file (see `font_variants`); the
/// font's file must have a name when no name is given.
pub fn create_bitmap_font_from_ttf(
    ttf_path: &String,
    name: &Option<String>,
    fontsize: u32,
    prefix: &Option<String>,
    create_variants: bool,
    outline: u32,
) -> (r: Vec<FontVariant>)
    requires
        name is Some || path_file_name(ttf_path@) is Some,
    ensures
        ({
            let want = font_variants(
                font_base_name(path_file_name(ttf_path@), opt_view(*name), opt_view(*prefix)),
                fontsize,
                outline,
                create_variants,
            );
            &&& r@.len() == want.len()
            &&& forall|i: int| 0 <= i < r@.len() ==> (#[trigger] r@[i]).name@ == want[i].0
                && r@[i].size == want[i].1 && r@[i].outline == want[i].2
        }),
{
    let mut base: Vec<char> = match prefix {
        Some(p) => chars_of(p.as_str()),
        None => Vec::new(),
    };
    let n = match name {
        Some(n) => chars_of(n.as_str()),
        None => chars_of(file_name(ttf_path).unwrap().as_str()),
    };
    push_all(&mut base, &n);
    let ghost b = base@;
    proof {
        reveal_strlit("-uhd");
        reveal_strlit("-hd");
        assert(b == font_base_name(path_file_name(ttf_path@), opt_view(*name), opt_view(*prefix)));
    }
    let mut uhd = base.clone();
    push_all(&mut uhd, &chars_of("-uhd"));
    let mut out: Vec<FontVariant> = Vec::new();
    out.push(FontVariant { name: string_from_chars(&uhd), size: fontsize, outline });
    if create_variants {
        let mut hd = base.clone();
        push_all(&mut hd, &chars_of("-hd"));
        out.push(FontVariant { name: string_from_chars(&hd), size: fontsize / 2, outline: outline / 2 });
        out.push(FontVariant { name: string_from_chars(&base), size: fontsize / 4, outline: outline / 4 });
    }
    out
}

/// The renderings for a `.ttf` file, or `None` when no name is given and
/// the path has no file name to take one from.
pub fn plan_bitmap_font(
    ttf_path: &String,
    name: &Option<String>,
    fontsize: u32,
    prefix: &Option<String>,
    create_variants: bool,
    outline: u32,
) -> (r: Option<Vec<FontVariant>>)
    ensures
        r is None <==> name is None && path_file_name(ttf_path@) is None,
        r matches Some(v) ==> ({
            let want = font_variants(
                font_base_name(path_file_name(ttf_path@), opt_view(*name), opt_view(*prefix)),
                fontsize,
                outline,
                create_variants,
            );
            &&& v@.len() == want.len()
            &&& forall|i: int| 0 <= i < v@.len() ==> (#[trigger] v@[i]).name@ == want[i].0
                && v@[i].size == want[i].1 && v@[i].outline == want[i].2
        }),
{
    if name.is_none() && file_name(ttf_path).is_none() {
        return None;
    }
    Some(create_bitmap_font_from_ttf(ttf_path, name, fontsize, prefix, create_variants, outline))
}


/// The `-uhd` rendering of a font is always at the requested size and
/// outline, with or without variants. With variants there are two more:
/// `-hd` at half the size and outline and the plain name at a quarter
/// (rounded down); without, there is no other.
pub proof fn lemma_font_variants_sizes(base: Seq<char>, size: u32, outline: u32, create_variants: bool)
    ensures
        font_variants(base, size, outline, create_variants).len() == if create_variants { 3int } else { 1int },
        font_variants(base, size, outline, create_variants)[0] == (base + "-uhd"@, size, outline),
        create_variants ==> {
            let v = font_variants(base, size, outline, create_variants);
            &&& v[1].0 == base + "-hd"@
            &&& 2 * v[1].1 <= size < 2 * v[1].1 + 2
            &&& 2 * v[1].2 <= outline < 2 * v[1].2 + 2
            &&& v[2].0 == base
            &&& 4 * v[2].1 <= size < 4 * v[2].1 + 4
            &&& 4 * v[2].2 <= outline < 4 * v[2].2 + 4
        },
{
}
} // verus!
