//! Sprite sheets: the frame entries of a packed sheet's property list, and
//! the stages that packing a folder of sprites, or making the resolution
//! variants of one sprite, goes through.

use vstd::prelude::*;
use crate::text::{chars_of, string_from_chars, push_all, ends_with_chars, has_suffix};
use crate::version::{int_to_dec, push_int_dec};
use crate::naming::{sheet_name, spec_sheet_name, update_suffix, spec_update_suffix};
use crate::text::str_equals;
use crate::paths::{path_join, join, path_file_stem, file_stem};
use crate::templates::opt_view;

verus! {

/// A rectangle in a packed texture, as the packer reports it.
#[derive(PartialEq, Eq, Structural, Clone, Copy, Debug)]
pub struct FrameRect {
    pub x: u32,
    pub y: u32,
    pub w: u32,
    pub h: u32,
}

/// One frame's entry in a sheet's property list.
pub struct SheetFrame {
    /// `mod.id/sprite.png`.
    pub key: String,
    /// `{x,y}`: how far the frame's centre lies from the sprite's centre (y up).
    pub sprite_offset: String,
    /// `{w,h}`: the frame's size, as it was before any rotation.
    pub sprite_size: String,
    /// `{w,h}`: the sprite's size before trimming.
    pub sprite_source_size: String,
    /// `{{x,y},{w,h}}`: where the frame is in the texture.
    pub texture_rect: String,
    pub texture_rotated: bool,
}

/// The key of a sprite in a sheet: the mod's id, `/`, the sprite's name
/// without a trailing `-uhd` or `-hd`, and `.png`.
pub open spec fn spec_sprite_key(mod_id: Seq<char>, name: Seq<char>) -> Seq<char> {
    let base = if has_suffix(name, "-uhd"@) {
        name.take(name.len() - 4)
    } else if has_suffix(name, "-hd"@) {
        name.take(name.len() - 3)
    } else {
        name
    };
    mod_id + "/"@ + base + ".png"@
}

/// `{a,b}` with both numbers in decimal.
pub open spec fn pair_text(a: int, b: int) -> Seq<char> {
    "{"@ + int_to_dec(a) + ","@ + int_to_dec(b) + "}"@
}

/// The frame's width and height as they were before packing rotated it.
pub open spec fn unrotated(rotated: bool, frame: FrameRect) -> (int, int) {
    if rotated { (frame.h as int, frame.w as int) } else { (frame.w as int, frame.h as int) }
}

/// The frame's centre less the sprite's centre, per axis (each half rounded down).
pub open spec fn centre_offset(rotated: bool, frame: FrameRect, source: FrameRect) -> (int, int) {
    let (w, h) = unrotated(rotated, frame);
    ((source.x + w / 2) - source.w / 2, (source.y + h / 2) - source.h / 2)
}

/// The sprite's key in the sheet (see `spec_sprite_key`).
pub fn sprite_key(mod_id: &str, name: &str) -> (r: String)
    ensures
        r@ == spec_sprite_key(mod_id@, name@),
{
    proof {
        reveal_strlit("-uhd");
        reveal_strlit("-hd");
    }
    let cs = chars_of(name);
    let keep: usize = if ends_with_chars(&cs, &chars_of("-uhd")) {
        cs.len() - 4
    } else if ends_with_chars(&cs, &chars_of("-hd")) {
        cs.len() - 3
    } else {
        cs.len()
    };
    let mut out = chars_of(mod_id);
    push_all(&mut out, &chars_of("/"));
    let ghost before = out@;
    let mut i: usize = 0;
    while i < keep
        invariant
            keep <= cs.len(),
            i <= keep,
            out@ == before + cs@.take(i as int),
        decreases keep - i,
    {
        out.push(cs[i]);
        i = i + 1;
        assert(out@ =~= before + cs@.take(i as int));
    }
    push_all(&mut out, &chars_of(".png"));
    proof {
        if keep == cs.len() {
            assert(cs@.take(keep as int) =~= cs@);
        }
    }
    string_from_chars(&out)
}

/// `{a,b}` (see `pair_text`).
fn pair(a: i64, b: i64) -> (r: Vec<char>)
    requires
        a > i64::MIN,
        b > i64::MIN,
    ensures
        r@ == pair_text(a as int, b as int),
{
    let mut out = chars_of("{");
    push_int_dec(a, &mut out);
    push_all(&mut out, &chars_of(","));
    push_int_dec(b, &mut out);
    push_all(&mut out, &chars_of("}"));
    out
}

/// Whether a packed frame's numbers suit `sheet_frame`: the sprite's
/// position plus half the frame stays within `i32` on both axes.
pub fn sheet_frame_fits(rotated: bool, frame: FrameRect, source: FrameRect) -> (r: bool)
    ensures
        r == (source.x + unrotated(rotated, frame).0 / 2 <= i32::MAX
            && source.y + unrotated(rotated, frame).1 / 2 <= i32::MAX),
{
    let w: u32 = if rotated { frame.h } else { frame.w };
    let h: u32 = if rotated { frame.w } else { frame.h };
    (source.x as u64) + ((w / 2) as u64) <= 2147483647 && (source.y as u64) + ((h / 2) as u64) <= 2147483647
}

/// A sheet's metadata: the name its texture is known by in the game
/// (`<mod id>/<picture file>`) and its size as `{width,height}`.
pub fn sheet_metadata(mod_id: &str, png_name: &str, width: u32, height: u32) -> (r: (String, String))
    ensures
        r.0@ == mod_id@ + "/"@ + png_name@,
        r.1@ == pair_text(width as int, height as int),
{
    let mut name = chars_of(mod_id);
    push_all(&mut name, &chars_of("/"));
    push_all(&mut name, &chars_of(png_name));
    let size = pair(width as i64, height as i64);
    (string_from_chars(&name), string_from_chars(&size))
}

/// The property-list entry of a packed frame. The sprite's position plus
/// half the frame must stay within `i32`, as positions in a texture do.
pub fn sheet_frame(mod_id: &str, name: &str, rotated: bool, frame: FrameRect, source: FrameRect) -> (r: SheetFrame)
    requires
        source.x + unrotated(rotated, frame).0 / 2 <= i32::MAX,
        source.y + unrotated(rotated, frame).1 / 2 <= i32::MAX,
    ensures
        r.key@ == spec_sprite_key(mod_id@, name@),
        r.sprite_offset@ == pair_text(centre_offset(rotated, frame, source).0, -centre_offset(rotated, frame, source).1),
        r.sprite_size@ == pair_text(unrotated(rotated, frame).0, unrotated(rotated, frame).1),
        r.sprite_source_size@ == pair_text(source.w as int, source.h as int),
        r.texture_rect@ == "{"@ + pair_text(frame.x as int, frame.y as int) + ","@
            + pair_text(unrotated(rotated, frame).0, unrotated(rotated, frame).1) + "}"@,
        r.texture_rotated == rotated,
{
    let w: u32 = if rotated { frame.h } else { frame.w };
    let h: u32 = if rotated { frame.w } else { frame.h };
    let ox: i64 = (source.x + w / 2) as i64 - (source.w / 2) as i64;
    let oy: i64 = (source.y + h / 2) as i64 - (source.h / 2) as i64;
    let offset = pair(ox, -oy);
    let size = pair(w as i64, h as i64);
    let source_size = pair(source.w as i64, source.h as i64);
    let mut rect = chars_of("{");
    push_all(&mut rect, &pair(frame.x as i64, frame.y as i64));
    push_all(&mut rect, &chars_of(","));
    push_all(&mut rect, &size);
    push_all(&mut rect, &chars_of("}"));
    SheetFrame {
        key: sprite_key(mod_id, name),
        sprite_offset: string_from_chars(&offset),
        sprite_size: string_from_chars(&size),
        sprite_source_size: string_from_chars(&source_size),
        texture_rect: string_from_chars(&rect),
        texture_rotated: rotated,
    }
}

/// One stage of packing a folder of sprites: the sprites are scaled down by
/// `downscale` into `work_dir`, their names getting `sprite_suffix`, and
/// then packed into the sheet `sheet_name`.
pub struct SpriteStage {
    pub work_dir: String,
    pub downscale: u32,
    pub sprite_suffix: String,
    pub sheet_name: String,
}

/// The stages of packing sprites into `out_dir`: with variants, full size
/// (`-uhd`), half (`-hd`) and a quarter (no suffix), each in a work folder
/// of its own and packed into a sheet with the same suffix; without, only
/// full size, packed into a sheet without a suffix.
pub open spec fn pack_stages(out_dir: Seq<char>, create_variants: bool, name: Option<Seq<char>>) -> Seq<(Seq<char>, u32, Seq<char>, Seq<char>)> {
    if create_variants {
        seq![
            (path_join(out_dir, "tmp_uhd"@), 1u32, "-uhd"@, spec_sheet_name(name, "-uhd"@)),
            (path_join(out_dir, "tmp_hd"@), 2u32, "-hd"@, spec_sheet_name(name, "-hd"@)),
            (path_join(out_dir, "tmp_low"@), 4u32, ""@, spec_sheet_name(name, ""@)),
        ]
    } else {
        seq![(path_join(out_dir, "tmp_uhd"@), 1u32, "-uhd"@, spec_sheet_name(name, ""@))]
    }
}

/// One stage (see `SpriteStage`).
fn stage(out_dir: &String, work: &str, downscale: u32, sprite_suffix: &str, name: &Option<String>, sheet_suffix: &str) -> (r: SpriteStage)
    ensures
        r.work_dir@ == path_join(out_dir@, work@),
        r.downscale == downscale,
        r.sprite_suffix@ == sprite_suffix@,
        r.sheet_name@ == spec_sheet_name(opt_view(*name), sheet_suffix@),
{
    let sheet = sheet_name(name, sheet_suffix);
    proof {
        assert(opt_view(*name) == match name { Some(n) => Some(n@), None => None::<Seq<char>> });
    }
    SpriteStage {
        work_dir: join(out_dir, work),
        downscale,
        sprite_suffix: sprite_suffix.to_string(),
        sheet_name: sheet,
    }
}

/// The stages `pack_sprites_in_dir` goes through (see `pack_stages`).
pub fn pack_sprites_in_dir(out_dir: &String, create_variants: bool, name: &Option<String>) -> (r: Vec<SpriteStage>)
    ensures
        ({
            let want = pack_stages(out_dir@, create_variants, opt_view(*name));
            &&& r@.len() == want.len()
            &&& forall|i: int| 0 <= i < r@.len() ==> {
                let s = #[trigger] r@[i];
                &&& s.work_dir@ == want[i].0
                &&& s.downscale == want[i].1
                &&& s.sprite_suffix@ == want[i].2
                &&& s.sheet_name@ == want[i].3
            }
        }),
{
    proof {
        reveal_strlit("tmp_uhd");
        reveal_strlit("tmp_hd");
        reveal_strlit("tmp_low");
        reveal_strlit("-uhd");
        reveal_strlit("-hd");
        reveal_strlit("");
    }
    let mut r: Vec<SpriteStage> = Vec::new();
    if create_variants {
        r.push(stage(out_dir, "tmp_uhd", 1, "-uhd", name, "-uhd"));
        r.push(stage(out_dir, "tmp_hd", 2, "-hd", name, "-hd"));
        r.push(stage(out_dir, "tmp_low", 4, "", name, ""));
    } else {
        r.push(stage(out_dir, "tmp_uhd", 1, "-uhd", name, ""));
    }
    r
}

/// A resolution variant of a sprite: scaled down by `downscale` and written
/// to `out_file` in the output folder, its name getting `suffix`.
pub struct ResizeJob {
    pub out_dir: String,
    pub downscale: u32,
    pub suffix: String,
    pub out_file: String,
}

/// The file a variant of the sprite with file stem `stem` is written to:
/// the stem with a trailing `-uhd` or `-hd` replaced by `suffix`, and
/// `.png`, in `out_dir`.
pub open spec fn variant_file(out_dir: Seq<char>, stem: Seq<char>, suffix: Seq<char>) -> Seq<char> {
    path_join(out_dir, spec_update_suffix(stem, suffix))
}

/// One variant (see `ResizeJob`).
fn variant(out_dir: &String, stem: &String, downscale: u32, suffix: &str) -> (r: ResizeJob)
    ensures
        r.out_dir@ == out_dir@,
        r.downscale == downscale,
        r.suffix@ == suffix@,
        r.out_file@ == variant_file(out_dir@, stem@, suffix@),
{
    let mut name = stem.clone();
    update_suffix(&mut name, suffix);
    ResizeJob { out_dir: out_dir.clone(), downscale, suffix: suffix.to_string(), out_file: join(out_dir, name.as_str()) }
}

/// The variants made of the sprite `file`: full size (`-uhd`), half (`-hd`)
/// and a quarter (no suffix), all into `out_dir`, each file named by
/// `variant_file` from the sprite's file stem.
pub fn create_variants_of_sprite(file: &String, out_dir: &String) -> (r: Vec<ResizeJob>)
    requires
        path_file_stem(file@) is Some,
    ensures
        r@.len() == 3,
        forall|i: int| 0 <= i < 3 ==> (#[trigger] r@[i]).out_dir@ == out_dir@
            && r@[i].out_file@ == variant_file(out_dir@, path_file_stem(file@)->0, r@[i].suffix@),
        r@[0].downscale == 1 && r@[0].suffix@ == "-uhd"@,
        r@[1].downscale == 2 && r@[1].suffix@ == "-hd"@,
        r@[2].downscale == 4 && r@[2].suffix@ == ""@,
{
    let stem = file_stem(file).unwrap();
    let mut r: Vec<ResizeJob> = Vec::new();
    r.push(variant(out_dir, &stem, 1, "-uhd"));
    r.push(variant(out_dir, &stem, 2, "-hd"));
    r.push(variant(out_dir, &stem, 4, ""));
    r
}

/// The variants of the sprite `file` (see `create_variants_of_sprite`), or
/// `None` when the file's path has no stem to name them by.
pub fn try_create_variants_of_sprite(file: &String, out_dir: &String) -> (r: Option<Vec<ResizeJob>>)
    ensures
        r is None <==> path_file_stem(file@) is None,
        r matches Some(jobs) ==> jobs@.len() == 3
            && (forall|i: int| 0 <= i < 3 ==> (#[trigger] jobs@[i]).out_dir@ == out_dir@
                && jobs@[i].out_file@ == variant_file(out_dir@, path_file_stem(file@)->0, jobs@[i].suffix@))
            && jobs@[0].downscale == 1 && jobs@[0].suffix@ == "-uhd"@
            && jobs@[1].downscale == 2 && jobs@[1].suffix@ == "-hd"@
            && jobs@[2].downscale == 4 && jobs@[2].suffix@ == ""@,
{
    match file_stem(file) {
        Some(_) => Some(create_variants_of_sprite(file, out_dir)),
        None => None,
    }
}

/// A sprite file offered to the sheet packer: its name without extension,
/// and whether it could be read as an image.
pub struct SpriteFile {
    pub stem: String,
    pub readable: bool,
}

/// The frames of a sheet built from `files` in order: each file's frame
/// name is its stem with a resolution suffix dropped and `.png` appended;
/// unreadable files are skipped; the result is the frame names with the
/// positions of their files, and how many names lost a suffix (counting
/// unreadable files too), or the first frame name that occurs twice.
pub open spec fn frames_of(files: Seq<SpriteFile>) -> Result<(Seq<Seq<char>>, Seq<int>, nat), Seq<char>>
    decreases files.len(),
{
    if files.len() == 0 {
        Ok((Seq::empty(), Seq::empty(), 0))
    } else {
        match frames_of(files.drop_last()) {
            Err(d) => Err(d),
            Ok((names, at, count)) => {
                let f = files.last();
                let n = spec_update_suffix(f.stem@, Seq::empty());
                let c = count + if has_suffix(f.stem@, "-uhd"@) || has_suffix(f.stem@, "-hd"@) { 1nat } else { 0nat };
                if !f.readable {
                    Ok((names, at, c))
                } else if names.contains(n) {
                    Err(n)
                } else {
                    Ok((names.push(n), at.push(files.len() - 1), c))
                }
            },
        }
    }
}

/// A refusal stays once the list goes on.
proof fn lemma_frames_refused(files: Seq<SpriteFile>, k: int, d: Seq<char>)
    requires
        0 <= k <= files.len(),
        frames_of(files.take(k)) == Err::<(Seq<Seq<char>>, Seq<int>, nat), Seq<char>>(d),
    ensures
        frames_of(files) == Err::<(Seq<Seq<char>>, Seq<int>, nat), Seq<char>>(d),
    decreases files.len() - k,
{
    if k < files.len() {
        assert(files.take(k + 1).drop_last() =~= files.take(k));
        lemma_frames_refused(files, k + 1, d);
    } else {
        assert(files.take(k) =~= files);
    }
}

/// The frame names of a sheet (see `frames_of`): the names, the positions
/// of their files, and the number of suffixes dropped; or the duplicate.
pub fn frame_names(files: &Vec<SpriteFile>) -> (r: Result<(Vec<String>, Vec<usize>, u32), String>)
    requires
        files@.len() <= u32::MAX,
    ensures
        match frames_of(files@) {
            Ok((names, at, count)) => match r {
                Ok((ns, is, c)) => ns@.map_values(|n: String| n@) == names
                    && is@.map_values(|i: usize| i as int) == at && c as nat == count,
                Err(_) => false,
            },
            Err(d) => r matches Err(x) && x@ == d,
        },
{
    let mut names: Vec<String> = Vec::new();
    let mut at: Vec<usize> = Vec::new();
    let mut count: u32 = 0;
    let mut i: usize = 0;
    proof {
        assert(files@.take(0) =~= Seq::<SpriteFile>::empty());
        assert(names@.map_values(|n: String| n@) =~= Seq::<Seq<char>>::empty());
        assert(at@.map_values(|j: usize| j as int) =~= Seq::<int>::empty());
    }
    while i < files.len()
        invariant
            i <= files@.len(),
            files@.len() <= u32::MAX,
            count <= i,
            frames_of(files@.take(i as int)) == Ok::<(Seq<Seq<char>>, Seq<int>, nat), Seq<char>>(
                (names@.map_values(|n: String| n@), at@.map_values(|j: usize| j as int), count as nat)),
        decreases files@.len() - i,
    {
        let ghost prev_names = names@.map_values(|n: String| n@);
        proof {
            assert(files@.take(i + 1).drop_last() =~= files@.take(i as int));
            assert(files@.take(i + 1).last() == files@[i as int]);
        }
        let ghost prev_count = count;
        let ghost prev_at = at@.map_values(|j: usize| j as int);
        let mut name = files[i].stem.clone();
        let removed = update_suffix(&mut name, "");
        proof { reveal_strlit(""); }
        if removed {
            count = count + 1;
        }
        assert(name@ == spec_update_suffix(files@[i as int].stem@, Seq::empty()));
        if files[i].readable {
            let mut j: usize = 0;
            while j < names.len()
                invariant
                    j <= names@.len(),
                    i < files@.len(),
                    files@[i as int].readable,
                    prev_names == names@.map_values(|n: String| n@),
                    forall|k: int| 0 <= k < j ==> prev_names[k] != name@,
                    name@ == spec_update_suffix(files@[i as int].stem@, Seq::empty()),
                    files@.take(i + 1).drop_last() == files@.take(i as int),
                    files@.take(i + 1).last() == files@[i as int],
                    frames_of(files@.take(i as int)) == Ok::<(Seq<Seq<char>>, Seq<int>, nat), Seq<char>>(
                        (prev_names, prev_at, prev_count as nat)),
                decreases names@.len() - j,
            {
                if str_equals(names[j].as_str(), name.as_str()) {
                    proof {
                        assert(prev_names[j as int] == name@);
                        assert(prev_names.contains(name@));
                        lemma_frames_refused(files@, i + 1, name@);
                    }
                    return Err(name);
                }
                j = j + 1;
            }
            proof {
                assert(!prev_names.contains(name@));
            }
            let ghost raw_at = at@;
            let ghost n = name@;
            names.push(name);
            at.push(i);
            proof {
                assert(names@.map_values(|n: String| n@) =~= prev_names.push(n));
                assert(at@.map_values(|j: usize| j as int) =~= raw_at.map_values(|j: usize| j as int).push(i as int));
                assert(frames_of(files@.take(i + 1)) == Ok::<(Seq<Seq<char>>, Seq<int>, nat), Seq<char>>(
                    (prev_names.push(n), prev_at.push(i as int), count as nat)));
            }
        } else {
            proof {
                assert(frames_of(files@.take(i + 1)) == Ok::<(Seq<Seq<char>>, Seq<int>, nat), Seq<char>>(
                    (prev_names, prev_at, count as nat)));
            }
        }
        i = i + 1;
    }
    proof {
        assert(files@.take(files@.len() as int) =~= files@);
    }
    Ok((names, at, count))
}

/// `{a, b}` with both numbers in decimal.
pub open spec fn spaced_pair_text(a: int, b: int) -> Seq<char> {
    "{"@ + int_to_dec(a) + ", "@ + int_to_dec(b) + "}"@
}

/// A frame's entry in the property list of a sheet packed from a folder of
/// sprites.
pub struct PackedFrame {
    pub texture_rotated: bool,
    /// `{w, h}`: the frame's size in the texture.
    pub sprite_size: String,
    /// `{w, h}`: the sprite's size before trimming.
    pub sprite_source_size: String,
    /// `{{x, y}, {w, h}}`: where the frame is in the texture.
    pub texture_rect: String,
    /// `{x, -y}`: where the trimmed sprite starts in the untrimmed one.
    pub sprite_offset: String,
}

/// `{a, b}` (see `spaced_pair_text`).
fn spaced_pair(a: i64, b: i64) -> (r: Vec<char>)
    requires
        a > i64::MIN,
        b > i64::MIN,
    ensures
        r@ == spaced_pair_text(a as int, b as int),
{
    let mut out = chars_of("{");
    push_int_dec(a, &mut out);
    push_all(&mut out, &chars_of(", "));
    push_int_dec(b, &mut out);
    push_all(&mut out, &chars_of("}"));
    out
}

/// The entry of a frame packed from a folder of sprites. The trimmed
/// sprite's vertical start is negated as an `i32`, so it must fit one.
pub fn packed_frame(frame: FrameRect, source: FrameRect, rotated: bool) -> (r: PackedFrame)
    requires
        source.y <= i32::MAX,
    ensures
        r.texture_rotated == rotated,
        r.sprite_size@ == spaced_pair_text(frame.w as int, frame.h as int),
        r.sprite_source_size@ == spaced_pair_text(source.w as int, source.h as int),
        r.texture_rect@ == "{"@ + spaced_pair_text(frame.x as int, frame.y as int) + ", "@
            + spaced_pair_text(frame.w as int, frame.h as int) + "}"@,
        r.sprite_offset@ == spaced_pair_text(source.x as int, -(source.y as int)),
{
    let size = spaced_pair(frame.w as i64, frame.h as i64);
    let source_size = spaced_pair(source.w as i64, source.h as i64);
    let mut rect = chars_of("{");
    push_all(&mut rect, &spaced_pair(frame.x as i64, frame.y as i64));
    push_all(&mut rect, &chars_of(", "));
    push_all(&mut rect, &size);
    push_all(&mut rect, &chars_of("}"));
    let offset = spaced_pair(source.x as i64, -(source.y as i64));
    PackedFrame {
        texture_rotated: rotated,
        sprite_size: string_from_chars(&size),
        sprite_source_size: string_from_chars(&source_size),
        texture_rect: string_from_chars(&rect),
        sprite_offset: string_from_chars(&offset),
    }
}


/// Packing keeps the sprites at full resolution in its first stage, with or
/// without variants: that stage scales by 1, works in the same folder and
/// names sprites `-uhd` either way. With variants each further stage halves
/// the resolution of the one before (1, 2, 4); without, there is no other.
pub proof fn lemma_pack_stages_scales(out_dir: Seq<char>, name: Option<Seq<char>>)
    ensures
        pack_stages(out_dir, false, name).len() == 1,
        pack_stages(out_dir, true, name).len() == 3,
        pack_stages(out_dir, false, name)[0].1 == 1,
        pack_stages(out_dir, true, name)[0].1 == 1,
        pack_stages(out_dir, false, name)[0].0 == pack_stages(out_dir, true, name)[0].0,
        pack_stages(out_dir, false, name)[0].2 == pack_stages(out_dir, true, name)[0].2,
        forall|i: int| 0 <= i < 2 ==> #[trigger] pack_stages(out_dir, true, name)[i + 1].1
            == 2 * pack_stages(out_dir, true, name)[i].1,
{
    assert forall|i: int| 0 <= i < 2 implies #[trigger] pack_stages(out_dir, true, name)[i + 1].1
        == 2 * pack_stages(out_dir, true, name)[i].1 by {}
}
} // verus!
