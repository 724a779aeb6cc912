//! The text of a bitmap font's `.fnt` description, whose character and
//! kerning lines come sorted so that the same font always gives the same file.

use vstd::prelude::*;
use vstd::seq_lib::*;
use crate::order::{lex_leq, sort_strings, views, lemma_lex_total_ordering};
use crate::text::{chars_of, push_all, string_from_chars};
use crate::version::{int_to_dec, push_int_dec, push_nat_digits};

verus! {

/// A character placed on a font's sheet: its code, its frame on the sheet,
/// and what the rasteriser measured of it (left bearing, bitmap height,
/// lowest row and advance, the advance cut to a whole number).
pub struct Glyph {
    pub code: char,
    pub x: u32,
    pub y: u32,
    pub width: u32,
    pub height: u32,
    pub xmin: i32,
    pub bitmap_height: u32,
    pub ymin: i32,
    pub advance: i32,
}

/// A kerning pair: the two characters and the adjustment, cut to a whole
/// number.
pub struct Kerning {
    pub first: char,
    pub second: char,
    pub amount: i32,
}

/// The glyph's numbers fit the 32-bit signed arithmetic the line is written
/// with: the frame and the bitmap height are at most `i32::MAX`, and so is
/// the size, and the vertical offset `size - bitmap_height - ymin` lies in
/// the range of `i32`.
pub open spec fn glyph_fits(size: u32, g: Glyph) -> bool {
    &&& size <= i32::MAX
    &&& g.x <= i32::MAX
    &&& g.y <= i32::MAX
    &&& g.width <= i32::MAX
    &&& g.height <= i32::MAX
    &&& g.bitmap_height <= i32::MAX
    &&& i32::MIN <= size - g.bitmap_height - g.ymin <= i32::MAX
}

/// The line describing a glyph, its vertical offset being
/// `size - bitmap_height - ymin`.
pub open spec fn char_line(size: u32, g: Glyph) -> Seq<char> {
    "char id="@ + int_to_dec(g.code as int) + " x="@ + int_to_dec(g.x as int) + " y="@ + int_to_dec(g.y as int)
        + " width="@ + int_to_dec(g.width as int) + " height="@ + int_to_dec(g.height as int)
        + " xoffset="@ + int_to_dec(g.xmin as int) + " yoffset="@ + int_to_dec(size - g.bitmap_height - g.ymin)
        + " xadvance="@ + int_to_dec(g.advance as int) + " page=0 chnl=0"@
}

/// The line describing the space, which has no frame; its advance is
/// written as given.
pub open spec fn space_line(advance: Seq<char>) -> Seq<char> {
    "char id=32 x=0 y=0 width=0 height=0 xoffset=0 yoffset=0 xadvance="@ + advance + " page=0 chln=0"@
}

/// The line describing a kerning pair; the characters themselves are
/// written, not their codes.
pub open spec fn kerning_line(k: Kerning) -> Seq<char> {
    "kerning first="@ + seq![k.first] + " second="@ + seq![k.second] + " amount="@ + int_to_dec(k.amount as int)
}

/// The lines joined with line breaks between them.
pub open spec fn joined(lines: Seq<Seq<char>>) -> Seq<char>
    decreases lines.len(),
{
    if lines.len() == 0 {
        Seq::empty()
    } else if lines.len() == 1 {
        lines[0]
    } else {
        joined(lines.drop_last()) + seq!['\n'] + lines.last()
    }
}

/// The whole description: the font's file name and size, the line height
/// and baseline, the sheet's size, the sheet's picture (`<sprite>.png`),
/// then the character lines and the kerning lines, each group counted.
pub open spec fn fnt_document(
    face: Seq<char>,
    size: u32,
    line_height: Seq<char>,
    base: i32,
    scale_w: u32,
    scale_h: u32,
    sprite: Seq<char>,
    chars: Seq<Seq<char>>,
    kernings: Seq<Seq<char>>,
) -> Seq<char> {
    "info face=\""@ + face + "\" size="@ + int_to_dec(size as int)
        + " bold=0 italic=0 charset=\"\" unicode=1 stretchH=100 smooth=1 aa=1 padding=0,0,0,0 spacing=1,1\ncommon lineHeight="@
        + line_height + " base="@ + int_to_dec(base as int) + " scaleW="@ + int_to_dec(scale_w as int)
        + " scaleH="@ + int_to_dec(scale_h as int) + " pages=1 packed=0\npage id=0 file=\""@ + sprite
        + ".png\"\nchars count="@ + int_to_dec(chars.len() as int) + "\n"@ + joined(chars)
        + "\nkernings count="@ + int_to_dec(kernings.len() as int) + "\n"@ + joined(kernings) + "\n"@
}

/// The character lines of a font: the space's, then one per glyph.
pub open spec fn glyph_lines(size: u32, space_advance: Seq<char>, glyphs: Seq<Glyph>) -> Seq<Seq<char>> {
    seq![space_line(space_advance)] + glyphs.map_values(|g: Glyph| char_line(size, g))
}

/// Appends the characters of `s`.
fn push_text(out: &mut Vec<char>, s: &str)
    ensures
        final(out)@ == old(out)@ + s@,
{
    let v = chars_of(s);
    push_all(out, &v);
}

/// Appends the decimal rendering of `i`.
fn push_dec(out: &mut Vec<char>, i: i64)
    requires
        i > i64::MIN,
    ensures
        final(out)@ == old(out)@ + int_to_dec(i as int),
{
    push_int_dec(i, out);
}

/// Whether the glyph's numbers fit (see `glyph_fits`).
pub fn glyph_fits_size(size: u32, g: &Glyph) -> (r: bool)
    ensures
        r == glyph_fits(size, *g),
{
    let off: i64 = size as i64 - g.bitmap_height as i64 - g.ymin as i64;
    size <= 2147483647 && g.x <= 2147483647 && g.y <= 2147483647 && g.width <= 2147483647
        && g.height <= 2147483647 && g.bitmap_height <= 2147483647
        && -2147483648 <= off && off <= 2147483647
}

/// The line describing a glyph (see `char_line`).
pub fn glyph_line(size: u32, g: &Glyph) -> (r: Vec<char>)
    requires
        glyph_fits(size, *g),
    ensures
        r@ == char_line(size, *g),
{
    let mut out: Vec<char> = Vec::new();
    push_text(&mut out, "char id=");
    push_dec(&mut out, g.code as u32 as i64);
    push_text(&mut out, " x=");
    push_dec(&mut out, g.x as i64);
    push_text(&mut out, " y=");
    push_dec(&mut out, g.y as i64);
    push_text(&mut out, " width=");
    push_dec(&mut out, g.width as i64);
    push_text(&mut out, " height=");
    push_dec(&mut out, g.height as i64);
    push_text(&mut out, " xoffset=");
    push_dec(&mut out, g.xmin as i64);
    push_text(&mut out, " yoffset=");
    push_dec(&mut out, size as i64 - g.bitmap_height as i64 - g.ymin as i64);
    push_text(&mut out, " xadvance=");
    push_dec(&mut out, g.advance as i64);
    push_text(&mut out, " page=0 chnl=0");
    out
}

/// The line describing a kerning pair (see `kerning_line`).
pub fn kerning_text(k: &Kerning) -> (r: Vec<char>)
    ensures
        r@ == kerning_line(*k),
{
    let mut out: Vec<char> = Vec::new();
    push_text(&mut out, "kerning first=");
    out.push(k.first);
    push_text(&mut out, " second=");
    out.push(k.second);
    push_text(&mut out, " amount=");
    push_dec(&mut out, k.amount as i64);
    out
}

/// Appends the lines joined with line breaks (see `joined`).
fn push_joined(out: &mut Vec<char>, lines: &Vec<String>)
    ensures
        final(out)@ == old(out)@ + joined(views(lines@)),
{
    let mut i: usize = 0;
    while i < lines.len()
        invariant
            i <= lines@.len(),
            out@ == old(out)@ + joined(views(lines@).take(i as int)),
        decreases lines@.len() - i,
    {
        let ghost before = out@;
        if i > 0 {
            out.push('\n');
        }
        push_text(out, lines[i].as_str());
        proof {
            let t = views(lines@).take(i + 1);
            assert(t.drop_last() =~= views(lines@).take(i as int));
            assert(t.last() == lines@[i as int]@);
            if i == 0 {
                assert(views(lines@).take(0) =~= Seq::<Seq<char>>::empty());
                assert(out@ =~= old(out)@ + joined(t));
            } else {
                assert(out@ =~= before + seq!['\n'] + t.last());
                assert(out@ =~= old(out)@ + joined(t));
            }
        }
        i = i + 1;
    }
    proof {
        assert(views(lines@).take(lines@.len() as int) =~= views(lines@));
    }
}

/// The lines in the order `sort` leaves strings in.
fn in_order(lines: Vec<String>) -> (r: Vec<String>)
    ensures
        views(r@) == views(lines@).sort_by(lex_leq()),
{
    let ghost d = views(lines@);
    let sorted = sort_strings(lines);
    proof {
        lemma_lex_total_ordering();
        d.lemma_sort_by_ensures(lex_leq());
        lemma_sorted_unique(views(sorted@), d.sort_by(lex_leq()), lex_leq());
    }
    sorted
}

/// The `.fnt` description of a font (see `fnt_document`): the character
/// lines (the space's and the glyphs') and the kerning lines each in order.
pub fn fnt_text(
    face: &str,
    size: u32,
    line_height: &str,
    base: i32,
    scale_w: u32,
    scale_h: u32,
    sprite: &str,
    space_advance: &str,
    glyphs: &Vec<Glyph>,
    kernings: &Vec<Kerning>,
) -> (r: String)
    requires
        forall|i: int| 0 <= i < glyphs@.len() ==> glyph_fits(size, #[trigger] glyphs@[i]),
    ensures
        r@ == fnt_document(
            face@,
            size,
            line_height@,
            base,
            scale_w,
            scale_h,
            sprite@,
            glyph_lines(size, space_advance@, glyphs@).sort_by(lex_leq()),
            kernings@.map_values(|k: Kerning| kerning_line(k)).sort_by(lex_leq()),
        ),
{
    let mut char_lines: Vec<String> = Vec::new();
    let mut first = chars_of("char id=32 x=0 y=0 width=0 height=0 xoffset=0 yoffset=0 xadvance=");
    push_text(&mut first, space_advance);
    push_text(&mut first, " page=0 chln=0");
    char_lines.push(string_from_chars(&first));
    let mut i: usize = 0;
    while i < glyphs.len()
        invariant
            i <= glyphs@.len(),
            forall|j: int| 0 <= j < glyphs@.len() ==> glyph_fits(size, #[trigger] glyphs@[j]),
            views(char_lines@) == glyph_lines(size, space_advance@, glyphs@.take(i as int)),
        decreases glyphs@.len() - i,
    {
        let ghost before = char_lines@;
        let line = glyph_line(size, &glyphs[i]);
        char_lines.push(string_from_chars(&line));
        proof {
            let f = |g: Glyph| char_line(size, g);
            assert(glyphs@.take(i + 1) =~= glyphs@.take(i as int).push(glyphs@[i as int]));
            assert(glyphs@.take(i + 1).map_values(f) =~= glyphs@.take(i as int).map_values(f).push(f(glyphs@[i as int])));
            assert(views(char_lines@) =~= views(before).push(char_line(size, glyphs@[i as int])));
            assert(views(char_lines@) =~= glyph_lines(size, space_advance@, glyphs@.take(i + 1)));
        }
        i = i + 1;
    }
    proof {
        assert(glyphs@.take(glyphs@.len() as int) =~= glyphs@);
    }
    let mut kern_lines: Vec<String> = Vec::new();
    let mut k: usize = 0;
    while k < kernings.len()
        invariant
            k <= kernings@.len(),
            views(kern_lines@) == kernings@.take(k as int).map_values(|x: Kerning| kerning_line(x)),
        decreases kernings@.len() - k,
    {
        let ghost before = kern_lines@;
        let line = kerning_text(&kernings[k]);
        kern_lines.push(string_from_chars(&line));
        proof {
            let f = |x: Kerning| kerning_line(x);
            assert(kernings@.take(k + 1) =~= kernings@.take(k as int).push(kernings@[k as int]));
            assert(kernings@.take(k + 1).map_values(f) =~= kernings@.take(k as int).map_values(f).push(f(kernings@[k as int])));
            assert(views(kern_lines@) =~= views(before).push(kerning_line(kernings@[k as int])));
        }
        k = k + 1;
    }
    proof {
        assert(kernings@.take(kernings@.len() as int) =~= kernings@);
    }
    let chars = in_order(char_lines);
    let kerns = in_order(kern_lines);
    let mut out = chars_of("info face=\"");
    push_text(&mut out, face);
    push_text(&mut out, "\" size=");
    push_dec(&mut out, size as i64);
    push_text(&mut out, " bold=0 italic=0 charset=\"\" unicode=1 stretchH=100 smooth=1 aa=1 padding=0,0,0,0 spacing=1,1\ncommon lineHeight=");
    push_text(&mut out, line_height);
    push_text(&mut out, " base=");
    push_dec(&mut out, base as i64);
    push_text(&mut out, " scaleW=");
    push_dec(&mut out, scale_w as i64);
    push_text(&mut out, " scaleH=");
    push_dec(&mut out, scale_h as i64);
    push_text(&mut out, " pages=1 packed=0\npage id=0 file=\"");
    push_text(&mut out, sprite);
    push_text(&mut out, ".png\"\nchars count=");
    push_nat_digits(chars.len() as u64, &mut out);
    push_text(&mut out, "\n");
    push_joined(&mut out, &chars);
    push_text(&mut out, "\nkernings count=");
    push_nat_digits(kerns.len() as u64, &mut out);
    push_text(&mut out, "\n");
    push_joined(&mut out, &kerns);
    push_text(&mut out, "\n");
    string_from_chars(&out)
}

/// Mapping two rearrangements of one sequence gives rearrangements of one
/// sequence.
proof fn lemma_map_rearranged<A, B>(s1: Seq<A>, s2: Seq<A>, f: spec_fn(A) -> B)
    requires
        s1.to_multiset() == s2.to_multiset(),
    ensures
        s1.map_values(f).to_multiset() == s2.map_values(f).to_multiset(),
    decreases s1.len(),
{
    broadcast use vstd::multiset::group_multiset_axioms;
    to_multiset_len(s1);
    to_multiset_len(s2);
    if s1.len() == 0 {
        assert(s1.map_values(f) =~= s2.map_values(f));
    } else {
        let x = s1.last();
        let dl = s1.drop_last();
        to_multiset_contains(s1, x);
        assert(s1.contains(x)) by { assert(s1[s1.len() - 1] == x); }
        to_multiset_contains(s2, x);
        let k = choose|k: int| 0 <= k < s2.len() && s2[k] == x;
        let s2r = s2.remove(k);
        to_multiset_remove(s2, k);
        to_multiset_build(dl, x);
        assert(dl.push(x) =~= s1);
        assert(dl.to_multiset() =~= s1.to_multiset().remove(x));
        lemma_map_rearranged(dl, s2r, f);
        let m1 = s1.map_values(f);
        let m2 = s2.map_values(f);
        assert(m1 =~= dl.map_values(f).push(f(x)));
        to_multiset_build(dl.map_values(f), f(x));
        assert(s2r.map_values(f) =~= m2.remove(k));
        to_multiset_remove(m2, k);
        assert(m2[k] == f(x));
        to_multiset_contains(m2, f(x));
        assert(m2.contains(f(x)));
        assert(m2.to_multiset() =~= m2.to_multiset().remove(f(x)).insert(f(x)));
    }
}

/// Lines that are rearrangements of each other come out the same once in order.
proof fn lemma_sorted_order_independent(a: Seq<Seq<char>>, b: Seq<Seq<char>>)
    requires
        a.to_multiset() == b.to_multiset(),
    ensures
        a.sort_by(lex_leq()) == b.sort_by(lex_leq()),
{
    lemma_lex_total_ordering();
    a.lemma_sort_by_ensures(lex_leq());
    b.lemma_sort_by_ensures(lex_leq());
    lemma_sorted_unique(a.sort_by(lex_leq()), b.sort_by(lex_leq()), lex_leq());
}

/// The `.fnt` text does not depend on the order in which the glyphs and the
/// kerning pairs are given: rearranging either gives the same document.
pub proof fn lemma_fnt_order_independent(
    face: Seq<char>,
    size: u32,
    line_height: Seq<char>,
    base: i32,
    scale_w: u32,
    scale_h: u32,
    sprite: Seq<char>,
    space_advance: Seq<char>,
    glyphs_a: Seq<Glyph>,
    glyphs_b: Seq<Glyph>,
    kernings_a: Seq<Kerning>,
    kernings_b: Seq<Kerning>,
)
    requires
        glyphs_a.to_multiset() == glyphs_b.to_multiset(),
        kernings_a.to_multiset() == kernings_b.to_multiset(),
    ensures
        fnt_document(face, size, line_height, base, scale_w, scale_h, sprite,
            glyph_lines(size, space_advance, glyphs_a).sort_by(lex_leq()),
            kernings_a.map_values(|k: Kerning| kerning_line(k)).sort_by(lex_leq()))
        == fnt_document(face, size, line_height, base, scale_w, scale_h, sprite,
            glyph_lines(size, space_advance, glyphs_b).sort_by(lex_leq()),
            kernings_b.map_values(|k: Kerning| kerning_line(k)).sort_by(lex_leq())),
{
    broadcast use vstd::multiset::group_multiset_axioms;
    let f = |g: Glyph| char_line(size, g);
    lemma_map_rearranged(glyphs_a, glyphs_b, f);
    let head = seq![space_line(space_advance)];
    lemma_multiset_commutative(head, glyphs_a.map_values(f));
    lemma_multiset_commutative(head, glyphs_b.map_values(f));
    lemma_sorted_order_independent(glyph_lines(size, space_advance, glyphs_a), glyph_lines(size, space_advance, glyphs_b));
    let h = |k: Kerning| kerning_line(k);
    lemma_map_rearranged(kernings_a, kernings_b, h);
    lemma_sorted_order_independent(kernings_a.map_values(h), kernings_b.map_values(h));
}

/// The older renderer's space line (its channel written `chnl`).
pub open spec fn outlined_space_line(advance: Seq<char>) -> Seq<char> {
    "char id=32 x=0 y=0 width=0 height=0 xoffset=0 yoffset=0 xadvance="@ + advance + " page=0 chnl=0"@
}

/// The older renderer's kerning line, the characters written by their codes.
pub open spec fn code_kerning_line(k: Kerning) -> Seq<char> {
    "kerning first="@ + int_to_dec(k.first as int) + " second="@ + int_to_dec(k.second as int)
        + " amount="@ + int_to_dec(k.amount as int)
}

/// The lines, each followed by a line break.
pub open spec fn lines_each(lines: Seq<Seq<char>>) -> Seq<char>
    decreases lines.len(),
{
    if lines.len() == 0 {
        Seq::empty()
    } else {
        lines_each(lines.drop_last()) + lines.last() + seq!['\n']
    }
}

/// The `.fnt` description the older, outlining renderer writes: the line
/// height is given (the tallest glyph texture), the space line comes first,
/// then the glyphs and the kerning pairs in the order given, each line
/// ended by a line break.
pub open spec fn outlined_fnt_document(
    face: Seq<char>,
    size: u32,
    line_height: u32,
    base: i32,
    scale_w: u32,
    scale_h: u32,
    sprite: Seq<char>,
    space_advance: Seq<char>,
    glyphs: Seq<Glyph>,
    kernings: Seq<Kerning>,
) -> Seq<char> {
    "info face=\""@ + face + "\" size="@ + int_to_dec(size as int)
        + " bold=0 italic=0 charset=\"\" unicode=1 stretchH=100 smooth=1 aa=1 padding=0,0,0,0 spacing=1,1\ncommon lineHeight="@
        + int_to_dec(line_height as int) + " base="@ + int_to_dec(base as int) + " scaleW="@ + int_to_dec(scale_w as int)
        + " scaleH="@ + int_to_dec(scale_h as int) + " pages=1 packed=0\npage id=0 file=\""@ + sprite
        + ".png\"\nchars count="@ + int_to_dec(glyphs.len() + 1int) + "\n"@ + outlined_space_line(space_advance) + "\n"@
        + lines_each(glyphs.map_values(|g: Glyph| char_line(size, g)))
        + "kernings count="@ + int_to_dec(kernings.len() as int) + "\n"@
        + lines_each(kernings.map_values(|k: Kerning| code_kerning_line(k)))
}

/// The tallest of the heights, 0 when there are none (the older renderer's
/// line height).
pub fn tallest(heights: &Vec<u32>) -> (r: u32)
    ensures
        forall|i: int| 0 <= i < heights@.len() ==> heights@[i] <= r,
        heights@.len() == 0 ==> r == 0,
        heights@.len() > 0 ==> heights@.contains(r),
{
    let mut r: u32 = 0;
    let mut i: usize = 0;
    while i < heights.len()
        invariant
            i <= heights@.len(),
            forall|j: int| 0 <= j < i ==> heights@[j] <= r,
            i == 0 ==> r == 0,
            i > 0 ==> exists|j: int| 0 <= j < i && heights@[j] == r,
        decreases heights@.len() - i,
    {
        if i == 0 || heights[i] > r {
            r = heights[i];
        }
        i = i + 1;
    }
    r
}

/// The older renderer's `.fnt` description (see `outlined_fnt_document`).
pub fn outlined_fnt_text(
    face: &str,
    size: u32,
    line_height: u32,
    base: i32,
    scale_w: u32,
    scale_h: u32,
    sprite: &str,
    space_advance: &str,
    glyphs: &Vec<Glyph>,
    kernings: &Vec<Kerning>,
) -> (r: String)
    requires
        glyphs@.len() < u64::MAX,
        forall|i: int| 0 <= i < glyphs@.len() ==> glyph_fits(size, #[trigger] glyphs@[i]),
    ensures
        r@ == outlined_fnt_document(face@, size, line_height, base, scale_w, scale_h, sprite@, space_advance@, glyphs@, kernings@),
{
    let mut out = chars_of("info face=\"");
    push_text(&mut out, face);
    push_text(&mut out, "\" size=");
    push_dec(&mut out, size as i64);
    push_text(&mut out, " bold=0 italic=0 charset=\"\" unicode=1 stretchH=100 smooth=1 aa=1 padding=0,0,0,0 spacing=1,1\ncommon lineHeight=");
    push_dec(&mut out, line_height as i64);
    push_text(&mut out, " base=");
    push_dec(&mut out, base as i64);
    push_text(&mut out, " scaleW=");
    push_dec(&mut out, scale_w as i64);
    push_text(&mut out, " scaleH=");
    push_dec(&mut out, scale_h as i64);
    push_text(&mut out, " pages=1 packed=0\npage id=0 file=\"");
    push_text(&mut out, sprite);
    push_text(&mut out, ".png\"\nchars count=");
    push_nat_digits(glyphs.len() as u64 + 1, &mut out);
    push_text(&mut out, "\n");
    push_text(&mut out, "char id=32 x=0 y=0 width=0 height=0 xoffset=0 yoffset=0 xadvance=");
    push_text(&mut out, space_advance);
    push_text(&mut out, " page=0 chnl=0");
    push_text(&mut out, "\n");
    let ghost head = out@;
    let mut i: usize = 0;
    while i < glyphs.len()
        invariant
            i <= glyphs@.len(),
            forall|j: int| 0 <= j < glyphs@.len() ==> glyph_fits(size, #[trigger] glyphs@[j]),
            out@ == head + lines_each(glyphs@.take(i as int).map_values(|g: Glyph| char_line(size, g))),
        decreases glyphs@.len() - i,
    {
        let line = glyph_line(size, &glyphs[i]);
        push_all(&mut out, &line);
        out.push('\n');
        proof {
            let f = |g: Glyph| char_line(size, g);
            let m = glyphs@.take(i + 1).map_values(f);
            assert(m.drop_last() =~= glyphs@.take(i as int).map_values(f));
            assert(m.last() == char_line(size, glyphs@[i as int]));
        }
        i = i + 1;
    }
    proof {
        assert(glyphs@.take(glyphs@.len() as int) =~= glyphs@);
    }
    push_text(&mut out, "kernings count=");
    push_nat_digits(kernings.len() as u64, &mut out);
    push_text(&mut out, "\n");
    let ghost mid = out@;
    let mut k: usize = 0;
    while k < kernings.len()
        invariant
            k <= kernings@.len(),
            out@ == mid + lines_each(kernings@.take(k as int).map_values(|x: Kerning| code_kerning_line(x))),
        decreases kernings@.len() - k,
    {
        let kk = &kernings[k];
        push_text(&mut out, "kerning first=");
        push_nat_digits(kk.first as u32 as u64, &mut out);
        push_text(&mut out, " second=");
        push_nat_digits(kk.second as u32 as u64, &mut out);
        push_text(&mut out, " amount=");
        push_dec(&mut out, kk.amount as i64);
        out.push('\n');
        proof {
            let f = |x: Kerning| code_kerning_line(x);
            let m = kernings@.take(k + 1).map_values(f);
            assert(m.drop_last() =~= kernings@.take(k as int).map_values(f));
            assert(m.last() == code_kerning_line(kernings@[k as int]));
        }
        k = k + 1;
    }
    proof {
        assert(kernings@.take(kernings@.len() as int) =~= kernings@);
    }
    string_from_chars(&out)
}

} // verus!
