//! The resource cache: built sprite sheets and fonts are remembered under a
//! key derived from the digests of their inputs, so that an unchanged input
//! is not built again.

use vstd::prelude::*;
use crate::order::{lex_leq, sort_strings, views, lemma_lex_total_ordering};
use crate::text::{chars_of, string_from_chars, push_all};
use crate::version::{push_int_dec, int_to_dec};

verus! {

/// The lowercase hexadecimal SHA-256 digest that `sha256::digest` gives
/// for a text.
pub uninterp spec fn sha256_hex(text: Seq<char>) -> Seq<char>;

/// `sha256::digest` of a text.
#[verifier::external_body]
fn sha256_digest(text: &str) -> (r: String)
    ensures
        r@ == sha256_hex(text@),
{
    sha256::digest(text)
}

/// The texts joined in order.
pub open spec fn concat_all(v: Seq<Seq<char>>) -> Seq<char>
    decreases v.len(),
{
    if v.len() == 0 {
        Seq::empty()
    } else {
        concat_all(v.drop_last()) + v.last()
    }
}

/// The cache key of a sprite sheet: the digest of its file digests, sorted
/// and joined.
pub open spec fn sheet_key(digests: Seq<Seq<char>>) -> Seq<char> {
    sha256_hex(concat_all(digests.sort_by(lex_leq())))
}

/// The cache key of a sprite sheet whose image files have the given digests.
pub fn hash_sheet(file_digests: Vec<String>) -> (r: String)
    ensures
        r@ == sheet_key(views(file_digests@)),
{
    let ghost d = views(file_digests@);
    let sorted = sort_strings(file_digests);
    proof {
        lemma_lex_total_ordering();
        d.lemma_sort_by_ensures(lex_leq());
        vstd::seq_lib::lemma_sorted_unique(views(sorted@), d.sort_by(lex_leq()), lex_leq());
    }
    let mut joined: Vec<char> = Vec::new();
    let mut i: usize = 0;
    while i < sorted.len()
        invariant
            i <= sorted.len(),
            joined@ == concat_all(views(sorted@).take(i as int)),
        decreases sorted.len() - i,
    {
        let cs = chars_of(sorted[i].as_str());
        push_all(&mut joined, &cs);
        proof {
            assert(views(sorted@).take(i + 1).drop_last() =~= views(sorted@).take(i as int));
        }
        i = i + 1;
    }
    assert(views(sorted@).take(i as int) =~= views(sorted@));
    let text = string_from_chars(&joined);
    sha256_digest(text.as_str())
}

/// The cache key of a sprite sheet does not depend on the order of its files.
pub proof fn lemma_sheet_key_order_independent(a: Seq<Seq<char>>, b: Seq<Seq<char>>)
    requires
        a.to_multiset() == b.to_multiset(),
    ensures
        sheet_key(a) == sheet_key(b),
{
    lemma_lex_total_ordering();
    a.lemma_sort_by_ensures(lex_leq());
    b.lemma_sort_by_ensures(lex_leq());
    vstd::seq_lib::lemma_sorted_unique(a.sort_by(lex_leq()), b.sort_by(lex_leq()), lex_leq());
}

/// The text hashed for a font's cache key: size, outline, charset (empty
/// when none) and the digest of the font file, joined by `|`.
pub open spec fn font_key_text(size: u32, outline: u32, charset: Option<Seq<char>>, file_digest: Seq<char>) -> Seq<char> {
    int_to_dec(size as int) + "|"@ + int_to_dec(outline as int) + "|"@ + (match charset {
        Some(c) => c,
        None => Seq::empty(),
    }) + "|"@ + file_digest
}

/// A bitmap font to generate from a TrueType file.
pub struct BitmapFont {
    pub name: String,
    pub path: String,
    pub charset: Option<String>,
    pub size: u32,
    pub outline: u32,
    pub color: crate::color::Color,
}

/// A sprite sheet: a name and the image files packed into it.
pub struct SpriteSheet {
    pub name: String,
    pub files: Vec<String>,
}

/// The cache key of a font whose TrueType file has digest `file_digest`.
pub open spec fn font_key(font: BitmapFont, file_digest: Seq<char>) -> Seq<char> {
    sha256_hex(font_key_text(font.size, font.outline,
        match font.charset { Some(c) => Some(c@), None => None }, file_digest))
}

/// The charset as the font key writes it: empty when none is given.
pub open spec fn charset_text(charset: Option<String>) -> Seq<char> {
    match charset {
        Some(c) => c@,
        None => Seq::empty(),
    }
}

/// A font's cache key depends only on its size, outline, charset (none
/// counting as empty) and the digest of its file: fonts that differ only in
/// name, path or colour, or in a missing versus empty charset, share a key,
/// and so one cache entry.
pub proof fn lemma_font_key_ignores_name_path_colour(a: BitmapFont, b: BitmapFont, file_digest: Seq<char>)
    requires
        a.size == b.size,
        a.outline == b.outline,
        charset_text(a.charset) == charset_text(b.charset),
    ensures
        font_key(a, file_digest) == font_key(b, file_digest),
{
    let ta = font_key_text(a.size, a.outline, match a.charset { Some(c) => Some(c@), None => None }, file_digest);
    let tb = font_key_text(b.size, b.outline, match b.charset { Some(c) => Some(c@), None => None }, file_digest);
    assert(ta =~= tb);
}

/// The cache key of a font whose TrueType file has digest `file_digest`
/// (see `font_key`).
pub fn hash_font(font: &BitmapFont, file_digest: &String) -> (r: String)
    ensures
        r@ == font_key(*font, file_digest@),
{
    let mut text: Vec<char> = Vec::new();
    push_int_dec(font.size as i64, &mut text);
    text.push('|');
    push_int_dec(font.outline as i64, &mut text);
    text.push('|');
    match &font.charset {
        Some(c) => {
            let cs = chars_of(c.as_str());
            push_all(&mut text, &cs);
        },
        None => {},
    }
    text.push('|');
    let d = chars_of(file_digest.as_str());
    push_all(&mut text, &d);
    proof { reveal_strlit("|"); }
    assert(text@ =~= font_key_text(font.size, font.outline,
        match font.charset { Some(c) => Some(c@), None => None }, file_digest@));
    let s = string_from_chars(&text);
    sha256_digest(s.as_str())
}

/// A map from cache keys to the relative paths of built files; no key
/// occurs twice. The pairs are kept in a `Vec` with that invariant rather
/// than in std's `HashMap` as vstd specifies it: with a `String` key, calls
/// on that `HashMap` verify but let Verus prove next to nothing about its
/// contents (not even the length after one insert), while the `Vec` carries
/// the exact map view the contracts below speak of.
pub struct CacheMap {
    entries: Vec<(String, String)>,
}

/// The keys of the entries are distinct.
pub open spec fn distinct_keys(e: Seq<(String, String)>) -> bool {
    forall|i: int, j: int| 0 <= i < j < e.len() ==> e[i].0@ != e[j].0@
}

/// The key/path pairs as a map.
pub open spec fn entries_map(e: Seq<(String, String)>) -> Map<Seq<char>, Seq<char>> {
    Map::new(
        |k: Seq<char>| exists|i: int| 0 <= i < e.len() && e[i].0@ == k,
        |k: Seq<char>| e[choose|i: int| 0 <= i < e.len() && e[i].0@ == k].1@,
    )
}

impl CacheMap {
    #[verifier::type_invariant]
    spec fn well_formed(self) -> bool {
        distinct_keys(self.entries@)
    }

    /// The map this holds.
    pub closed spec fn view(&self) -> Map<Seq<char>, Seq<char>> {
        entries_map(self.entries@)
    }

    /// An empty map.
    pub fn new() -> (m: CacheMap)
        ensures
            m.view() == Map::<Seq<char>, Seq<char>>::empty(),
    {
        let m = CacheMap { entries: Vec::new() };
        assert(m.view() =~= Map::<Seq<char>, Seq<char>>::empty());
        m
    }

    fn index_of(&self, key: &String) -> (r: Option<usize>)
        ensures
            match r {
                Some(i) => i < self.entries.len() && self.entries@[i as int].0@ == key@,
                None => forall|j: int| 0 <= j < self.entries.len() ==> self.entries@[j].0@ != key@,
            },
    {
        let mut i: usize = 0;
        while i < self.entries.len()
            invariant
                i <= self.entries.len(),
                forall|j: int| 0 <= j < i ==> self.entries@[j].0@ != key@,
            decreases self.entries.len() - i,
        {
            if self.entries[i].0 == *key {
                return Some(i);
            }
            i = i + 1;
        }
        None
    }

    /// The path stored under `key`.
    pub fn get(&self, key: &String) -> (r: Option<&String>)
        ensures
            match r {
                Some(p) => self.view().contains_key(key@) && self.view()[key@] == p@,
                None => !self.view().contains_key(key@),
            },
    {
        proof { use_type_invariant(self); }
        match self.index_of(key) {
            Some(i) => {
                proof {
                    let e = self.entries@;
                    let c = choose|c: int| 0 <= c < e.len() && e[c].0@ == key@;
                    assert(c == i as int);
                }
                Some(&self.entries[i].1)
            },
            None => None,
        }
    }

    /// Stores `path` under `key`, replacing what was there.
    pub fn insert(&mut self, key: String, path: String)
        ensures
            final(self).view() == old(self).view().insert(key@, path@),
    {
        proof { use_type_invariant(&*self); }
        let ghost kv = key@;
        let ghost pv = path@;
        let ghost before = self.entries@;
        let mut entries: Vec<(String, String)> = Vec::new();
        std::mem::swap(&mut entries, &mut self.entries);
        let ghost mut pos: int = 0;
        match self.index_of_in(&entries, &key) {
            Some(i) => {
                entries.set(i, (key, path));
                proof { pos = i as int; }
            },
            None => {
                entries.push((key, path));
                proof { pos = before.len() as int; }
            },
        }
        proof {
            let e = entries@;
            assert(distinct_keys(e)) by {
                assert forall|a: int, b: int| 0 <= a < b < e.len() implies e[a].0@ != e[b].0@ by {
                    if a < before.len() && b < before.len() {
                        if e[a] != before[a] || e[b] != before[b] {
                        }
                    }
                }
            }
            assert(entries_map(e) =~= entries_map(before).insert(kv, pv)) by {
                assert forall|k: Seq<char>| #[trigger] entries_map(e).contains_key(k) == entries_map(before).insert(kv, pv).contains_key(k) by {
                    if k == kv {
                        assert(e[pos].0@ == k);
                    } else {
                        if exists|i: int| 0 <= i < before.len() && before[i].0@ == k {
                            let i = choose|i: int| 0 <= i < before.len() && before[i].0@ == k;
                            assert(e[i].0@ == k);
                        }
                        if exists|i: int| 0 <= i < e.len() && e[i].0@ == k {
                            let i = choose|i: int| 0 <= i < e.len() && e[i].0@ == k;
                            assert(before[i].0@ == k);
                        }
                    }
                }
                assert forall|k: Seq<char>| #[trigger] entries_map(e).contains_key(k) implies entries_map(e)[k] == entries_map(before).insert(kv, pv)[k] by {
                    let c = choose|i: int| 0 <= i < e.len() && e[i].0@ == k;
                    if k == kv {
                    } else {
                        let c0 = choose|i: int| 0 <= i < before.len() && before[i].0@ == k;
                        assert(e[c0].0@ == k);
                        assert(c == c0);
                    }
                }
            }
        }
        self.entries = entries;
    }

    fn index_of_in(&self, entries: &Vec<(String, String)>, key: &String) -> (r: Option<usize>)
        ensures
            match r {
                Some(i) => i < entries.len() && entries@[i as int].0@ == key@,
                None => forall|j: int| 0 <= j < entries.len() ==> entries@[j].0@ != key@,
            },
    {
        let mut i: usize = 0;
        while i < entries.len()
            invariant
                i <= entries.len(),
                forall|j: int| 0 <= j < i ==> entries@[j].0@ != key@,
            decreases entries.len() - i,
        {
            if entries[i].0 == *key {
                return Some(i);
            }
            i = i + 1;
        }
        None
    }
}

/// The cache of a package build: sheet keys and font keys to the relative
/// paths of what was built for them.
pub struct ResourceCache {
    pub spritesheets: CacheMap,
    pub fonts: CacheMap,
}

impl ResourceCache {
    /// An empty cache.
    pub fn new() -> (c: ResourceCache)
        ensures
            c.spritesheets.view() == Map::<Seq<char>, Seq<char>>::empty(),
            c.fonts.view() == Map::<Seq<char>, Seq<char>>::empty(),
    {
        ResourceCache { spritesheets: CacheMap::new(), fonts: CacheMap::new() }
    }

    /// Remembers that the sheet with key `sheet_key` was built at the
    /// relative `path`.
    pub fn add_sheet(&mut self, sheet_key: String, path: String)
        requires
            crate::paths::path_is_relative(path@),
        ensures
            final(self).spritesheets.view() == old(self).spritesheets.view().insert(sheet_key@, path@),
            final(self).fonts.view() == old(self).fonts.view(),
    {
        self.spritesheets.insert(sheet_key, path);
    }

    /// Remembers that the font with key `font_key` was built at the
    /// relative `path`.
    pub fn add_font(&mut self, font_key: String, path: String)
        requires
            crate::paths::path_is_relative(path@),
        ensures
            final(self).fonts.view() == old(self).fonts.view().insert(font_key@, path@),
            final(self).spritesheets.view() == old(self).spritesheets.view(),
    {
        self.fonts.insert(font_key, path);
    }

    /// Where the sheet with key `sheet_key` was built, if it was.
    pub fn fetch_spritesheet_bundles(&self, sheet_key: &String) -> (r: Option<&String>)
        ensures
            match r {
                Some(p) => self.spritesheets.view().contains_key(sheet_key@) && self.spritesheets.view()[sheet_key@] == p@,
                None => !self.spritesheets.view().contains_key(sheet_key@),
            },
    {
        self.spritesheets.get(sheet_key)
    }

    /// Where the font with key `font_key` was built, if it was.
    pub fn fetch_font_bundles(&self, font_key: &String) -> (r: Option<&String>)
        ensures
            match r {
                Some(p) => self.fonts.view().contains_key(font_key@) && self.fonts.view()[font_key@] == p@,
                None => !self.fonts.view().contains_key(font_key@),
            },
    {
        self.fonts.get(font_key)
    }
}

impl ResourceCache {
    /// `add_sheet` where `path` is relative; an absolute path is refused
    /// (`false`) and changes nothing.
    pub fn try_add_sheet(&mut self, sheet_key: String, path: String) -> (r: bool)
        ensures
            r == crate::paths::path_is_relative(path@),
            r ==> final(self).spritesheets.view() == old(self).spritesheets.view().insert(sheet_key@, path@),
            !r ==> final(self).spritesheets.view() == old(self).spritesheets.view(),
            final(self).fonts.view() == old(self).fonts.view(),
    {
        if !crate::paths::is_relative(&path) {
            return false;
        }
        self.add_sheet(sheet_key, path);
        true
    }

    /// `add_font` where `path` is relative; an absolute path is refused
    /// (`false`) and changes nothing.
    pub fn try_add_font(&mut self, font_key: String, path: String) -> (r: bool)
        ensures
            r == crate::paths::path_is_relative(path@),
            r ==> final(self).fonts.view() == old(self).fonts.view().insert(font_key@, path@),
            !r ==> final(self).fonts.view() == old(self).fonts.view(),
            final(self).spritesheets.view() == old(self).spritesheets.view(),
    {
        if !crate::paths::is_relative(&path) {
            return false;
        }
        self.add_font(font_key, path);
        true
    }
}

/// The map built by inserting the pairs in order (later ones win).
pub open spec fn pairs_map(pairs: Seq<(String, String)>) -> Map<Seq<char>, Seq<char>>
    decreases pairs.len(),
{
    if pairs.len() == 0 {
        Map::empty()
    } else {
        pairs_map(pairs.drop_last()).insert(pairs.last().0@, pairs.last().1@)
    }
}

impl CacheMap {
    /// The key/path pairs, each key once.
    pub fn entries(&self) -> (r: &Vec<(String, String)>)
        ensures
            entries_map(r@) == self.view(),
            distinct_keys(r@),
    {
        proof { use_type_invariant(self); }
        &self.entries
    }

    /// The map holding the pairs, a later pair winning over an earlier one
    /// with the same key.
    pub fn from_pairs(pairs: Vec<(String, String)>) -> (m: CacheMap)
        ensures
            m.view() == pairs_map(pairs@),
    {
        let ghost all = pairs@;
        let n = pairs.len();
        let mut m = CacheMap::new();
        let mut rest = pairs;
        let mut i: usize = 0;
        proof { assert(all.take(0) =~= Seq::<(String, String)>::empty()); }
        while rest.len() > 0
            invariant
                i + rest@.len() == all.len(),
                all.len() == n,
                rest@ == all.skip(i as int),
                m.view() == pairs_map(all.take(i as int)),
            decreases rest@.len(),
        {
            let (k, p) = rest.remove(0);
            proof {
                assert(all.take(i + 1).drop_last() =~= all.take(i as int));
                assert(all[i as int] == (k, p));
            }
            m.insert(k, p);
            i = i + 1;
            proof { assert(rest@ =~= all.skip(i as int)); }
        }
        proof { assert(all.take(i as int) =~= all); }
        m
    }
}

/// Writing a cache map out and reading it back gives the same map: the pairs
/// that `entries` hands out (each key once), inserted in order by
/// `from_pairs`, make the map they came from.
pub proof fn lemma_entries_roundtrip(e: Seq<(String, String)>)
    requires
        distinct_keys(e),
    ensures
        pairs_map(e) == entries_map(e),
    decreases e.len(),
{
    if e.len() == 0 {
        assert(entries_map(e) =~= Map::<Seq<char>, Seq<char>>::empty());
    } else {
        let d = e.drop_last();
        let last = e.last();
        assert(distinct_keys(d)) by {
            assert forall|i: int, j: int| 0 <= i < j < d.len() implies d[i].0@ != d[j].0@ by {
                assert(d[i] == e[i] && d[j] == e[j]);
            }
        }
        lemma_entries_roundtrip(d);
        let want = entries_map(d).insert(last.0@, last.1@);
        let got = entries_map(e);
        assert forall|k: Seq<char>| #[trigger] got.dom().contains(k) <==> want.dom().contains(k) by {
            if got.dom().contains(k) {
                let i = choose|i: int| 0 <= i < e.len() && e[i].0@ == k;
                if i < d.len() {
                    assert(d[i].0@ == k);
                }
            }
            if entries_map(d).dom().contains(k) {
                let j = choose|j: int| 0 <= j < d.len() && d[j].0@ == k;
                assert(e[j].0@ == k);
            }
            if k == last.0@ {
                assert(e[e.len() - 1].0@ == k);
            }
        }
        assert forall|k: Seq<char>| #[trigger] got.dom().contains(k) implies got[k] == want[k] by {
            let i = choose|i: int| 0 <= i < e.len() && e[i].0@ == k;
            if k == last.0@ {
                assert(i == e.len() - 1);
            } else {
                assert(i < d.len());
                assert(d[i].0@ == k);
                let j = choose|j: int| 0 <= j < d.len() && d[j].0@ == k;
                assert(i == j);
            }
        }
        assert(got =~= want);
    }
}

/// Two sprite sheets whose files have the same digests, in any order and
/// whatever the sheets are called, share one cache entry: once a sheet has
/// been added under its key, fetching the other's key gives its path.
pub proof fn lemma_same_files_share_sheet_entry(
    m: Map<Seq<char>, Seq<char>>,
    digests: Seq<Seq<char>>,
    other_digests: Seq<Seq<char>>,
    path: Seq<char>,
)
    requires
        digests.to_multiset() == other_digests.to_multiset(),
    ensures
        m.insert(sheet_key(digests), path).contains_key(sheet_key(other_digests)),
        m.insert(sheet_key(digests), path)[sheet_key(other_digests)] == path,
{
    lemma_sheet_key_order_independent(digests, other_digests);
}

/// Two fonts with the same size, outline, charset (a missing one counting as
/// empty) and file digest share one cache entry whatever their names, paths
/// and colours: once one has been added under its key, fetching the other's
/// key gives its path.
pub proof fn lemma_same_settings_share_font_entry(
    m: Map<Seq<char>, Seq<char>>,
    font: BitmapFont,
    other: BitmapFont,
    file_digest: Seq<char>,
    path: Seq<char>,
)
    requires
        font.size == other.size,
        font.outline == other.outline,
        charset_text(font.charset) == charset_text(other.charset),
    ensures
        m.insert(font_key(font, file_digest), path).contains_key(font_key(other, file_digest)),
        m.insert(font_key(font, file_digest), path)[font_key(other, file_digest)] == path,
{
    lemma_font_key_ignores_name_path_colour(font, other, file_digest);
}

/// After a sheet is added, fetching its key gives the path it was added
/// with, and other keys keep what they had.
pub proof fn lemma_fetch_after_add(m: Map<Seq<char>, Seq<char>>, key: Seq<char>, path: Seq<char>, other: Seq<char>)
    requires
        other != key,
    ensures
        m.insert(key, path).contains_key(key) && m.insert(key, path)[key] == path,
        m.insert(key, path).contains_key(other) == m.contains_key(other),
        m.contains_key(other) ==> m.insert(key, path)[other] == m[other],
{
}

} // verus!
