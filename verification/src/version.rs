//! Loader/API version triples (`major.minor.patch`) and their text forms.

use vstd::prelude::*;
use crate::text::{chars_of, string_from_chars};

verus! {

/// The ASCII digit character for `d` (`0 <= d < 10`).
pub open spec fn digit_char(d: int) -> char {
    ((d + 48) as u8) as char
}

/// Whether `c` is one of `'0'..='9'`.
pub open spec fn is_digit(c: char) -> bool {
    '0' <= c <= '9'
}

/// The numeric value of a digit character.
pub open spec fn digit_value(c: char) -> int {
    (c as int) - 48
}

/// Decimal digits of a natural number, most significant first, no leading zeros.
pub open spec fn nat_digits(n: nat) -> Seq<char>
    decreases n,
{
    if n < 10 {
        seq![digit_char(n as int)]
    } else {
        nat_digits(n / 10) + seq![digit_char((n % 10) as int)]
    }
}

/// Decimal rendering of an integer, with a leading `-` for negatives (as `Display` prints it).
pub open spec fn int_to_dec(i: int) -> Seq<char> {
    if i < 0 {
        seq!['-'] + nat_digits((-i) as nat)
    } else {
        nat_digits(i as nat)
    }
}

/// All characters of `s` are decimal digits.
pub open spec fn all_digits(s: Seq<char>) -> bool {
    forall|k: int| 0 <= k < s.len() ==> #[trigger] is_digit(s[k])
}

/// Value of a digit string (leading zeros allowed).
pub open spec fn digits_value(s: Seq<char>) -> int
    decreases s.len(),
{
    if s.len() == 0 {
        0
    } else {
        digits_value(s.drop_last()) * 10 + digit_value(s.last())
    }
}

/// What `str::parse::<i32>` gives for `s`: an optional `+` or `-`, then one or
/// more decimal digits, with the value inside `i32`'s range.
pub open spec fn parse_i32(s: Seq<char>) -> Option<i32> {
    if s.len() == 0 {
        None
    } else {
        let neg = s[0] == '-';
        let body = if s[0] == '-' || s[0] == '+' { s.skip(1) } else { s };
        if body.len() == 0 || !all_digits(body) {
            None
        } else {
            let v = if neg { -digits_value(body) } else { digits_value(body) };
            if i32::MIN <= v <= i32::MAX {
                Some(v as i32)
            } else {
                None
            }
        }
    }
}

/// The number an unsigned `str::parse` reads: an optional `+`, then one or
/// more decimal digits (leading zeros allowed), of any size.
pub open spec fn parse_natural(s: Seq<char>) -> Option<nat> {
    let body = if s.len() > 0 && s[0] == '+' { s.skip(1) } else { s };
    if body.len() == 0 || !all_digits(body) {
        None
    } else {
        Some(digits_value(body) as nat)
    }
}

/// Index of the first occurrence of `c` in `s`, if any.
pub open spec fn find_char(s: Seq<char>, c: char) -> Option<int> {
    if exists|i: int| 0 <= i < s.len() && s[i] == c {
        let i = choose|i: int| 0 <= i < s.len() && s[i] == c && (forall|j: int| 0 <= j < i ==> s[j] != c);
        Some(i)
    } else {
        None
    }
}

/// The `k`-th field of `s` split on `c` (as `str::split` yields them), if there are that many.
pub open spec fn split_field(s: Seq<char>, c: char, k: nat) -> Option<Seq<char>>
    decreases k,
{
    match find_char(s, c) {
        Some(i) => if k == 0 {
            Some(s.take(i))
        } else {
            split_field(s.skip(i + 1), c, (k - 1) as nat)
        },
        None => if k == 0 {
            Some(s)
        } else {
            None
        },
    }
}

/// A version triple as the loader reports it.
#[derive(PartialEq, Eq, Structural, Clone, Copy, Debug)]
pub struct VersionInfo {
    pub major: i32,
    pub minor: i32,
    pub patch: i32,
}

/// The versions of the loader and the API that an installation holds.
#[derive(PartialEq, Eq, Structural, Clone, Copy, Debug)]
pub struct InstallInfo {
    pub loader_version: VersionInfo,
    pub api_version: VersionInfo,
}

/// `major.minor.patch` in decimal.
pub open spec fn dotted(major: int, minor: int, patch: int) -> Seq<char> {
    int_to_dec(major) + seq!['.'] + int_to_dec(minor) + seq!['.'] + int_to_dec(patch)
}

/// Field `k` of `s` split on `.` parses as an `i32`.
pub open spec fn field_parses(s: Seq<char>, k: nat) -> bool {
    split_field(s, '.', k) is Some && parse_i32(split_field(s, '.', k).unwrap()) is Some
}

/// The `i32` that field `k` of `s` holds.
pub open spec fn field_value(s: Seq<char>, k: nat) -> i32 {
    parse_i32(split_field(s, '.', k).unwrap()).unwrap()
}

proof fn lemma_digit_char(d: int)
    requires
        0 <= d < 10,
    ensures
        digit_char(d) as int == d + 48,
        is_digit(digit_char(d)),
        digit_value(digit_char(d)) == d,
{
    assert(0 <= d + 48 < 256);
}

proof fn lemma_nat_digits_digits(n: nat)
    ensures
        all_digits(nat_digits(n)),
        nat_digits(n).len() >= 1,
        digits_value(nat_digits(n)) == n,
    decreases n,
{
    if n < 10 {
        lemma_digit_char(n as int);
        let s = nat_digits(n);
        assert(s.drop_last() =~= Seq::<char>::empty());
        assert(digits_value(Seq::<char>::empty()) == 0);
        assert(s.last() == digit_char(n as int));
    } else {
        lemma_digit_char((n % 10) as int);
        lemma_nat_digits_digits(n / 10);
        let s = nat_digits(n);
        assert(s.drop_last() =~= nat_digits(n / 10));
        assert(s.last() == digit_char((n % 10) as int));
        assert(digits_value(s) == digits_value(nat_digits(n / 10)) * 10 + digit_value(digit_char((n % 10) as int)));
        assert forall|k: int| 0 <= k < s.len() implies #[trigger] is_digit(s[k]) by {
            if k < s.len() - 1 {
                assert(s[k] == nat_digits(n / 10)[k]);
            }
        }
    }
}

proof fn lemma_int_to_dec_no_dot(i: int)
    ensures
        forall|k: int| 0 <= k < int_to_dec(i).len() ==> int_to_dec(i)[k] != '.',
        int_to_dec(i).len() >= 1,
{
    if i < 0 {
        lemma_nat_digits_digits((-i) as nat);
        let d = nat_digits((-i) as nat);
        assert forall|k: int| 0 <= k < int_to_dec(i).len() implies int_to_dec(i)[k] != '.' by {
            if k > 0 {
                assert(int_to_dec(i)[k] == d[k - 1]);
                assert(is_digit(d[k - 1]));
            }
        }
    } else {
        lemma_nat_digits_digits(i as nat);
        let d = nat_digits(i as nat);
        assert forall|k: int| 0 <= k < d.len() implies d[k] != '.' by {
            assert(is_digit(d[k]));
        }
    }
}

/// Printing an `i32` in decimal and parsing it back gives the same number.
pub proof fn lemma_parse_int_to_dec(i: i32)
    ensures
        parse_i32(int_to_dec(i as int)) == Some(i),
{
    let s = int_to_dec(i as int);
    if i < 0 {
        lemma_nat_digits_digits((-i) as nat);
        assert(s.skip(1) =~= nat_digits((-i) as nat));
    } else {
        lemma_nat_digits_digits(i as nat);
        assert(is_digit(s[0]));
    }
}

proof fn lemma_split_concat(a: Seq<char>, rest: Seq<char>)
    requires
        forall|k: int| 0 <= k < a.len() ==> a[k] != '.',
    ensures
        find_char(a + seq!['.'] + rest, '.') == Some(a.len() as int),
        (a + seq!['.'] + rest).take(a.len() as int) == a,
        (a + seq!['.'] + rest).skip(a.len() as int + 1) == rest,
{
    let s = a + seq!['.'] + rest;
    assert(s[a.len() as int] == '.');
    let i = choose|i: int| 0 <= i < s.len() && s[i] == '.' && (forall|j: int| 0 <= j < i ==> s[j] != '.');
    if i < a.len() {
        assert(s[i] == a[i]);
    }
    assert(s.take(a.len() as int) =~= a);
    assert(s.skip(a.len() as int + 1) =~= rest);
}

proof fn lemma_no_dot_field(a: Seq<char>)
    requires
        forall|k: int| 0 <= k < a.len() ==> a[k] != '.',
    ensures
        find_char(a, '.') is None,
{
}

/// The dotted decimal form of a triple splits on `.` into the three
/// numbers, each of which parses back.
pub proof fn lemma_dotted_fields(major: i32, minor: i32, patch: i32)
    ensures
        ({
            let s = dotted(major as int, minor as int, patch as int);
            &&& field_parses(s, 0) && field_value(s, 0) == major
            &&& field_parses(s, 1) && field_value(s, 1) == minor
            &&& field_parses(s, 2) && field_value(s, 2) == patch
        }),
{
    let a = int_to_dec(major as int);
    let b = int_to_dec(minor as int);
    let c = int_to_dec(patch as int);
    lemma_int_to_dec_no_dot(major as int);
    lemma_int_to_dec_no_dot(minor as int);
    lemma_int_to_dec_no_dot(patch as int);
    lemma_parse_int_to_dec(major);
    lemma_parse_int_to_dec(minor);
    lemma_parse_int_to_dec(patch);
    let s = dotted(major as int, minor as int, patch as int);
    let r1 = b + seq!['.'] + c;
    assert(s =~= a + seq!['.'] + r1);
    lemma_split_concat(a, r1);
    lemma_split_concat(b, c);
    lemma_no_dot_field(c);
    assert(split_field(s, '.', 0) == Some(a));
    assert(split_field(s, '.', 1) == split_field(r1, '.', 0));
    assert(split_field(s, '.', 2) == split_field(r1, '.', 1));
    assert(split_field(r1, '.', 1) == split_field(c, '.', 0));
}

/// Appends the decimal digits of `n` to `out`.
pub(crate) fn push_nat_digits(n: u64, out: &mut Vec<char>)
    ensures
        final(out)@ == old(out)@ + nat_digits(n as nat),
    decreases n,
{
    if n >= 10 {
        push_nat_digits(n / 10, out);
    }
    let d = (n % 10) as u8;
    let c = (d + 48) as char;
    out.push(c);
    assert(out@ =~= old(out)@ + nat_digits(n as nat));
}

/// Appends the decimal rendering of `i` to `out`.
pub fn push_int_dec(i: i64, out: &mut Vec<char>)
    requires
        i > i64::MIN,
    ensures
        final(out)@ == old(out)@ + int_to_dec(i as int),
{
    if i < 0 {
        out.push('-');
        let m = (-i) as u64;
        push_nat_digits(m, out);
        assert(out@ =~= old(out)@ + int_to_dec(i as int));
    } else {
        push_nat_digits(i as u64, out);
    }
}

/// Parses a decimal `i32` the way `str::parse::<i32>` does.
pub fn parse_i32_chars(s: &Vec<char>, start: usize, end: usize) -> (r: Option<i32>)
    requires
        start <= end <= s.len(),
    ensures
        r == parse_i32(s@.subrange(start as int, end as int)),
{
    let ghost t = s@.subrange(start as int, end as int);
    if start == end {
        return None;
    }
    assert(t[0] == s[start as int]);
    let neg = s[start] == '-';
    let first = if s[start] == '-' || s[start] == '+' { start + 1 } else { start };
    let ghost body = if t[0] == '-' || t[0] == '+' { t.skip(1) } else { t };
    assert(body =~= s@.subrange(first as int, end as int));
    if first == end {
        return None;
    }
    let mut acc: i64 = 0;
    let mut k: usize = first;
    while k < end
        invariant
            first <= k <= end <= s.len(),
            body == s@.subrange(first as int, end as int),
            t == s@.subrange(start as int, end as int),
            t.len() > 0,
            body == (if t[0] == '-' || t[0] == '+' { t.skip(1) } else { t }),
            neg == (t[0] == '-'),
            all_digits(s@.subrange(first as int, k as int)),
            acc as int == digits_value(s@.subrange(first as int, k as int)),
            0 <= acc <= 2147483648,
        decreases end - k,
    {
        let c = s[k];
        if !('0' <= c && c <= '9') {
            assert(body[k - first] == c);
            assert(!is_digit(body[k - first]));
            return None;
        }
        let d = (c as u32 - 48) as i64;
        let ghost prev = s@.subrange(first as int, k as int);
        let ghost next = s@.subrange(first as int, k + 1);
        assert(next.drop_last() =~= prev);
        assert forall|j: int| 0 <= j < next.len() implies #[trigger] is_digit(next[j]) by {
            if j < prev.len() {
                assert(next[j] == prev[j]);
            }
        }
        acc = acc * 10 + d;
        k = k + 1;
        if acc > 2147483648 {
            // the value can only grow with more digits
            proof {
                lemma_digits_value_grows(body, (k - first) as int);
                assert(body.take((k - first) as int) =~= s@.subrange(first as int, k as int));
            }
            return None;
        }
    }
    assert(s@.subrange(first as int, k as int) =~= body);
    let v: i64 = if neg { -acc } else { acc };
    if v < -2147483648 || v > 2147483647 {
        return None;
    }
    Some(v as i32)
}

pub(crate) proof fn lemma_digits_value_grows(s: Seq<char>, k: int)
    requires
        0 <= k <= s.len(),
    ensures
        all_digits(s) ==> digits_value(s.take(k)) <= digits_value(s),
    decreases s.len(),
{
    if k < s.len() {
        if all_digits(s) {
            let t = s.drop_last();
            assert(all_digits(t)) by {
                assert forall|j: int| 0 <= j < t.len() implies #[trigger] is_digit(t[j]) by {
                    assert(t[j] == s[j]);
                }
            }
            lemma_digits_value_grows(t, k);
            assert(t.take(k) =~= s.take(k));
            assert(is_digit(s[s.len() - 1]));
            lemma_digits_value_nonneg(t);
        }
    } else {
        assert(s.take(k) =~= s);
    }
}

pub(crate) proof fn lemma_digits_value_nonneg(s: Seq<char>)
    requires
        all_digits(s),
    ensures
        digits_value(s) >= 0,
    decreases s.len(),
{
    if s.len() > 0 {
        let t = s.drop_last();
        assert(all_digits(t)) by {
            assert forall|j: int| 0 <= j < t.len() implies #[trigger] is_digit(t[j]) by {
                assert(t[j] == s[j]);
            }
        }
        lemma_digits_value_nonneg(t);
        assert(is_digit(s[s.len() - 1]));
    }
}


/// End of the field that starts at `from`: the index of the next `sep` at or
/// after `from`, or the length when there is none.
pub(crate) fn field_end(v: &Vec<char>, from: usize, sep: char) -> (r: (usize, bool))
    requires
        from <= v.len(),
    ensures
        from <= r.0 <= v.len(),
        r.1 ==> r.0 < v.len() && find_char(v@.skip(from as int), sep) == Some((r.0 - from) as int),
        !r.1 ==> r.0 == v.len() && find_char(v@.skip(from as int), sep) is None,
{
    let ghost s = v@.skip(from as int);
    let mut i = from;
    while i < v.len()
        invariant
            from <= i <= v.len(),
            s == v@.skip(from as int),
            forall|j: int| from <= j < i ==> v@[j] != sep,
        decreases v.len() - i,
    {
        if v[i] == sep {
            proof {
                let w = (i - from) as int;
                assert(s[w] == sep);
                let c = choose|c: int| 0 <= c < s.len() && s[c] == sep && (forall|j: int| 0 <= j < c ==> s[j] != sep);
                assert(forall|j: int| 0 <= j < w ==> s[j] == v@[from + j]);
                if c < w {
                    assert(s[c] == v@[from + c]);
                }
                if w < c {
                    assert(s[w] != sep);
                }
            }
            return (i, true);
        }
        i = i + 1;
    }
    assert forall|j: int| 0 <= j < s.len() implies s[j] != sep by {
        assert(s[j] == v@[from + j]);
    }
    (i, false)
}

proof fn lemma_field_step(v: Seq<char>, from: int, end: int, found: bool, k: nat)
    requires
        0 <= from <= end <= v.len(),
        found ==> end < v.len() && find_char(v.skip(from), '.') == Some(end - from),
        !found ==> end == v.len() && find_char(v.skip(from), '.') is None,
    ensures
        k == 0 ==> split_field(v.skip(from), '.', k) == Some(v.subrange(from, end)),
        (k > 0 && found) ==> split_field(v.skip(from), '.', k) == split_field(v.skip(end + 1), '.', (k - 1) as nat),
        (k > 0 && !found) ==> split_field(v.skip(from), '.', k) is None,
{
    let s = v.skip(from);
    if found {
        assert(s.take(end - from) =~= v.subrange(from, end));
        assert(s.skip(end - from + 1) =~= v.skip(end + 1));
    } else {
        assert(s =~= v.subrange(from, end));
    }
}

/// The version triple as `v{major}.{minor}.{patch}`.
pub open spec fn version_text(major: int, minor: int, patch: int) -> Seq<char> {
    seq!['v'] + dotted(major, minor, patch)
}

/// The targeted loader version, `0.1.0`.
pub fn geode_target_version() -> (v: VersionInfo)
    ensures
        v.major == 0 && v.minor == 1 && v.patch == 0,
{
    VersionInfo { major: 0, minor: 1, patch: 0 }
}

impl VersionInfo {
    /// Renders the triple as `v{major}.{minor}.{patch}`.
    pub fn to_string(&self) -> (s: String)
        ensures
            s@ == version_text(self.major as int, self.minor as int, self.patch as int),
    {
        let mut out: Vec<char> = Vec::new();
        out.push('v');
        push_int_dec(self.major as i64, &mut out);
        out.push('.');
        push_int_dec(self.minor as i64, &mut out);
        out.push('.');
        push_int_dec(self.patch as i64, &mut out);
        assert(out@ =~= version_text(self.major as int, self.minor as int, self.patch as int));
        string_from_chars(&out)
    }

    /// Reads the first three `.`-separated fields of the text as `major`,
    /// `minor` and `patch`; any further fields are ignored. Each of the three
    /// must be present and parse as an `i32`.
    pub fn from_string(text: &String) -> (v: VersionInfo)
        requires
            field_parses(text@, 0),
            field_parses(text@, 1),
            field_parses(text@, 2),
        ensures
            v.major == field_value(text@, 0),
            v.minor == field_value(text@, 1),
            v.patch == field_value(text@, 2),
    {
        let chars = chars_of(text.as_str());
        let ghost s = chars@;
        assert(s.skip(0) =~= s);
        let (e0, f0) = field_end(&chars, 0, '.');
        proof {
            lemma_field_step(s, 0, e0 as int, f0, 0);
            lemma_field_step(s, 0, e0 as int, f0, 1);
            lemma_field_step(s, 0, e0 as int, f0, 2);
        }
        let major = parse_i32_chars(&chars, 0, e0).unwrap();
        let (e1, f1) = field_end(&chars, e0 + 1, '.');
        proof {
            lemma_field_step(s, e0 + 1, e1 as int, f1, 0);
            lemma_field_step(s, e0 + 1, e1 as int, f1, 1);
        }
        let minor = parse_i32_chars(&chars, e0 + 1, e1).unwrap();
        let (e2, f2) = field_end(&chars, e1 + 1, '.');
        proof {
            lemma_field_step(s, e1 + 1, e2 as int, f2, 0);
        }
        let patch = parse_i32_chars(&chars, e1 + 1, e2).unwrap();
        VersionInfo { major, minor, patch }
    }
}

/// Reading the dotted decimal form of a triple gives back the same triple:
/// `from_string` undoes `to_string` once its leading `v` is dropped.
pub proof fn lemma_version_text_roundtrip(major: i32, minor: i32, patch: i32)
    ensures
        ({
            let s = version_text(major as int, minor as int, patch as int).skip(1);
            &&& field_parses(s, 0) && field_value(s, 0) == major
            &&& field_parses(s, 1) && field_value(s, 1) == minor
            &&& field_parses(s, 2) && field_value(s, 2) == patch
        }),
{
    assert(version_text(major as int, minor as int, patch as int).skip(1) =~= dotted(major as int, minor as int, patch as int));
    lemma_dotted_fields(major, minor, patch);
}


/// The number the characters spell (see `parse_natural`), if it is at most `limit`.
pub fn parse_bounded(s: &Vec<char>, limit: u64) -> (r: Option<u64>)
    ensures
        r == (match parse_natural(s@) {
            Some(v) => if v <= limit { Some(v as u64) } else { None },
            None => None,
        }),
{
    let first: usize = if s.len() > 0 && s[0] == '+' { 1 } else { 0 };
    let ghost body = s@.skip(first as int);
    proof {
        assert(body == (if s@.len() > 0 && s@[0] == '+' { s@.skip(1) } else { s@ })) by {
            if first == 0 { assert(s@.skip(0) =~= s@); }
        }
    }
    if first == s.len() {
        return None;
    }
    let mut acc: u128 = 0;
    let mut k: usize = first;
    while k < s.len()
        invariant
            first <= k <= s.len(),
            first < s.len(),
            body == s@.skip(first as int),
            body == (if s@.len() > 0 && s@[0] == '+' { s@.skip(1) } else { s@ }),
            all_digits(s@.subrange(first as int, k as int)),
            acc as int == digits_value(s@.subrange(first as int, k as int)),
            acc <= limit,
        decreases s.len() - k,
    {
        let c = s[k];
        if !('0' <= c && c <= '9') {
            assert(body[k - first] == c);
            assert(!is_digit(body[k - first]));
            return None;
        }
        let d = (c as u32 - 48) as u128;
        let ghost prev = s@.subrange(first as int, k as int);
        let ghost next = s@.subrange(first as int, k + 1);
        assert(next.drop_last() =~= prev);
        assert forall|j: int| 0 <= j < next.len() implies #[trigger] is_digit(next[j]) by {
            if j < prev.len() {
                assert(next[j] == prev[j]);
            }
        }
        acc = acc * 10 + d;
        k = k + 1;
        if acc > limit as u128 {
            proof {
                lemma_digits_value_nonneg(body.take((k - first) as int));
                lemma_digits_value_grows(body, (k - first) as int);
                assert(body.take((k - first) as int) =~= s@.subrange(first as int, k as int));
            }
            return None;
        }
    }
    assert(s@.subrange(first as int, k as int) =~= body);
    proof { lemma_digits_value_nonneg(body); }
    Some(acc as u64)
}

} // verus!
