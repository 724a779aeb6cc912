use geode::fnt::{fnt_text, glyph_fits_size, glyph_line, kerning_text, outlined_fnt_text, tallest, Glyph, Kerning};

fn glyph(code: char, x: u32, y: u32) -> Glyph {
    Glyph { code, x, y, width: 5, height: 7, xmin: -1, bitmap_height: 7, ymin: -2, advance: 6 }
}

fn text(v: &[char]) -> String {
    v.iter().collect()
}

#[test]
fn glyph_and_kerning_lines() {
    let g = glyph('A', 3, 4);
    assert_eq!(
        text(&glyph_line(20, &g)),
        "char id=65 x=3 y=4 width=5 height=7 xoffset=-1 yoffset=15 xadvance=6 page=0 chnl=0"
    );
    let k = Kerning { first: 'A', second: 'V', amount: -2 };
    assert_eq!(text(&kerning_text(&k)), "kerning first=A second=V amount=-2");
}

#[test]
fn whole_description() {
    let glyphs = vec![glyph('d', 1, 2), glyph('A', 3, 4)];
    let kernings = vec![Kerning { first: 'd', second: 'A', amount: 1 }, Kerning { first: 'A', second: 'd', amount: -1 }];
    let out = fnt_text("Font.ttf", 20, "23.5", 18, 64, 32, "my-font", "5.5", &glyphs, &kernings);
    let expected = "info face=\"Font.ttf\" size=20 bold=0 italic=0 charset=\"\" unicode=1 stretchH=100 smooth=1 aa=1 padding=0,0,0,0 spacing=1,1\n\
common lineHeight=23.5 base=18 scaleW=64 scaleH=32 pages=1 packed=0\n\
page id=0 file=\"my-font.png\"\n\
chars count=3\n\
char id=100 x=1 y=2 width=5 height=7 xoffset=-1 yoffset=15 xadvance=6 page=0 chnl=0\n\
char id=32 x=0 y=0 width=0 height=0 xoffset=0 yoffset=0 xadvance=5.5 page=0 chln=0\n\
char id=65 x=3 y=4 width=5 height=7 xoffset=-1 yoffset=15 xadvance=6 page=0 chnl=0\n\
kernings count=2\n\
kerning first=A second=d amount=-1\n\
kerning first=d second=A amount=1\n";
    assert_eq!(out, expected);
}

#[test]
fn description_ignores_input_order() {
    let a = vec![glyph('x', 1, 1), glyph('y', 2, 2), glyph('z', 3, 3)];
    let b = vec![glyph('z', 3, 3), glyph('x', 1, 1), glyph('y', 2, 2)];
    let ka = vec![Kerning { first: 'x', second: 'y', amount: 2 }, Kerning { first: 'y', second: 'x', amount: 3 }];
    let kb = vec![Kerning { first: 'y', second: 'x', amount: 3 }, Kerning { first: 'x', second: 'y', amount: 2 }];
    assert_eq!(
        fnt_text("F.ttf", 12, "14", 10, 8, 8, "f", "3", &a, &ka),
        fnt_text("F.ttf", 12, "14", 10, 8, 8, "f", "3", &b, &kb)
    );
}

#[test]
fn glyph_ranges() {
    assert!(glyph_fits_size(20, &glyph('A', 0, 0)));
    let mut far = glyph('A', 0, 0);
    far.x = u32::MAX;
    assert!(!glyph_fits_size(20, &far));
    let mut low = glyph('A', 0, 0);
    low.ymin = i32::MIN;
    assert!(!glyph_fits_size(20, &low));
    assert!(!glyph_fits_size(u32::MAX, &glyph('A', 0, 0)));
}

#[test]
fn outlined_description_keeps_order() {
    let glyphs = vec![glyph('d', 1, 2), glyph('A', 3, 4)];
    let kernings = vec![Kerning { first: 'd', second: 'A', amount: 1 }];
    let out = outlined_fnt_text("F.ttf", 20, 30, 18, 64, 32, "f", "5.5", &glyphs, &kernings);
    let expected = "info face=\"F.ttf\" size=20 bold=0 italic=0 charset=\"\" unicode=1 stretchH=100 smooth=1 aa=1 padding=0,0,0,0 spacing=1,1\n\
common lineHeight=30 base=18 scaleW=64 scaleH=32 pages=1 packed=0\n\
page id=0 file=\"f.png\"\n\
chars count=3\n\
char id=32 x=0 y=0 width=0 height=0 xoffset=0 yoffset=0 xadvance=5.5 page=0 chnl=0\n\
char id=100 x=1 y=2 width=5 height=7 xoffset=-1 yoffset=15 xadvance=6 page=0 chnl=0\n\
char id=65 x=3 y=4 width=5 height=7 xoffset=-1 yoffset=15 xadvance=6 page=0 chnl=0\n\
kernings count=1\n\
kerning first=100 second=65 amount=1\n";
    assert_eq!(out, expected);
    assert_eq!(tallest(&vec![3, 9, 4]), 9);
    assert_eq!(tallest(&vec![]), 0);
}
