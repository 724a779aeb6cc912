//! What `geode new` writes into a project made from a template: the values
//! its files are rendered with, which files are rendered and what becomes of
//! them, and the `mod.json` written when the template brings none.

use vstd::prelude::*;
use crate::naming::{sanitize_project_name, spec_sanitize_project_name};
use crate::text::{chars_of, push_all, string_from_chars, trim, trimmed};

verus! {

/// The values a template's files are rendered with: named texts and named
/// flags.
pub struct ProjectContext {
    pub texts: Vec<(String, String)>,
    pub flags: Vec<(String, bool)>,
}

/// The names and values of the texts.
pub open spec fn text_pairs(v: Seq<(String, String)>) -> Seq<(Seq<char>, Seq<char>)> {
    v.map_values(|p: (String, String)| (p.0@, p.1@))
}

/// The names and values of the flags.
pub open spec fn flag_pairs(v: Seq<(String, bool)>) -> Seq<(Seq<char>, bool)> {
    v.map_values(|p: (String, bool)| (p.0@, p.1))
}

/// The values of a new project: its `id`, `name`, the name as an
/// identifier (`escaped_name`), the `geode` version it targets, its
/// `version`, `developer` and `description`, and the flag `comments`, set
/// unless the template's comments are to be stripped.
pub open spec fn spec_project_context(
    name: Seq<char>,
    id: Seq<char>,
    version: Seq<char>,
    developer: Seq<char>,
    description: Seq<char>,
    geode: Seq<char>,
    strip: bool,
) -> (Seq<(Seq<char>, Seq<char>)>, Seq<(Seq<char>, bool)>) {
    (
        seq![
            ("id"@, id),
            ("name"@, name),
            ("escaped_name"@, spec_sanitize_project_name(name)),
            ("geode"@, geode),
            ("version"@, version),
            ("developer"@, developer),
            ("description"@, description),
        ],
        seq![("comments"@, !strip)],
    )
}

/// The values a new project's files are rendered with (see
/// `spec_project_context`).
pub fn project_context(
    name: &String,
    id: &String,
    version: &String,
    developer: &String,
    description: &String,
    geode: &String,
    strip: bool,
) -> (c: ProjectContext)
    ensures
        (text_pairs(c.texts@), flag_pairs(c.flags@))
            == spec_project_context(name@, id@, version@, developer@, description@, geode@, strip),
{
    let mut texts: Vec<(String, String)> = Vec::new();
    texts.push(("id".to_string(), id.clone()));
    texts.push(("name".to_string(), name.clone()));
    texts.push(("escaped_name".to_string(), sanitize_project_name(name.as_str())));
    texts.push(("geode".to_string(), geode.clone()));
    texts.push(("version".to_string(), version.clone()));
    texts.push(("developer".to_string(), developer.clone()));
    texts.push(("description".to_string(), description.clone()));
    let mut flags: Vec<(String, bool)> = Vec::new();
    flags.push(("comments".to_string(), !strip));
    let c = ProjectContext { texts, flags };
    assert(text_pairs(c.texts@) =~= spec_project_context(name@, id@, version@, developer@, description@, geode@, strip).0);
    assert(flag_pairs(c.flags@) =~= spec_project_context(name@, id@, version@, developer@, description@, geode@, strip).1);
    c
}

/// The texts of a project's template files by name.
pub open spec fn source_pairs(v: Seq<(String, String)>) -> Seq<(Seq<char>, Seq<char>)> {
    v.map_values(|p: (String, String)| (p.0@, p.1@))
}

/// Whether `minijinja` renders the template `name` of an environment that
/// holds the templates `sources` (added in order), with the given named
/// texts and flags as its context: every source parses, `name` is among
/// them, and rendering it succeeds.
pub uninterp spec fn jinja_renders(
    sources: Seq<(Seq<char>, Seq<char>)>,
    name: Seq<char>,
    texts: Seq<(Seq<char>, Seq<char>)>,
    flags: Seq<(Seq<char>, bool)>,
) -> bool;

/// The text `minijinja` renders then.
pub uninterp spec fn jinja_render(
    sources: Seq<(Seq<char>, Seq<char>)>,
    name: Seq<char>,
    texts: Seq<(Seq<char>, Seq<char>)>,
    flags: Seq<(Seq<char>, bool)>,
) -> Seq<char>;

/// `minijinja::Environment::add_template` for each source, then
/// `get_template(name)` and `render` with the context's texts and flags as
/// variables; an error is handed out as text.
#[verifier::external_body]
fn render_named(sources: &Vec<(String, String)>, name: &str, ctx: &ProjectContext) -> (r: Result<String, String>)
    ensures
        r is Ok <==> jinja_renders(source_pairs(sources@), name@, text_pairs(ctx.texts@), flag_pairs(ctx.flags@)),
        r is Ok ==> r->Ok_0@ == jinja_render(source_pairs(sources@), name@, text_pairs(ctx.texts@), flag_pairs(ctx.flags@)),
{
    let mut env = minijinja::Environment::new();
    for (n, src) in sources.iter() {
        env.add_template(n.as_str(), src.as_str()).map_err(|e| e.to_string())?;
    }
    let mut vars: std::collections::BTreeMap<&str, minijinja::Value> =
        ctx.texts.iter().map(|(k, v)| (k.as_str(), minijinja::Value::from(v.clone()))).collect();
    vars.extend(ctx.flags.iter().map(|(k, v)| (k.as_str(), minijinja::Value::from(*v))));
    env.get_template(name).and_then(|t| t.render(vars)).map_err(|e| e.to_string())
}

/// The files of a new project that are rendered: those whose text is not
/// blank (white space only), in order.
pub open spec fn template_files(files: Seq<(String, String)>) -> Seq<(String, String)> {
    files.filter(|f: (String, String)| trimmed(f.1@).len() > 0)
}

/// The files that are rendered (see `template_files`).
pub fn project_templates(files: Vec<(String, String)>) -> (r: Vec<(String, String)>)
    ensures
        r@ == template_files(files@),
{
    let ghost orig = files@;
    let mut rest = files;
    let mut out: Vec<(String, String)> = Vec::new();
    let ghost mut c: int = 0;
    while rest.len() > 0
        invariant
            0 <= c <= orig.len(),
            rest@ == orig.skip(c),
            out@ == template_files(orig.take(c)),
        decreases rest.len(),
    {
        let f = rest.remove(0);
        proof {
            reveal(Seq::filter);
            assert(orig.take(c + 1).drop_last() =~= orig.take(c));
            assert(orig.take(c + 1).last() == f);
        }
        let t = trim(f.1.as_str());
        if t.as_str().unicode_len() > 0 {
            out.push(f);
        }
        proof {
            c = c + 1;
            assert(rest@ =~= orig.skip(c));
        }
    }
    proof {
        assert(orig.take(c) =~= orig);
    }
    out
}

/// Renders the project file `name` among the project's template files
/// `sources` (see `project_templates`): the rendered text, and whether it
/// came out blank, in which case the file is removed instead of written.
/// Rendering succeeds exactly when `jinja_renders` says so.
pub fn render_project_file(name: &String, sources: &Vec<(String, String)>, ctx: &ProjectContext) -> (r: Result<(String, bool), String>)
    ensures
        r is Ok <==> jinja_renders(source_pairs(sources@), name@, text_pairs(ctx.texts@), flag_pairs(ctx.flags@)),
        r matches Ok((text, blank)) ==> text@ == jinja_render(source_pairs(sources@), name@, text_pairs(ctx.texts@), flag_pairs(ctx.flags@))
            && blank == (trimmed(text@).len() == 0),
{
    match render_named(sources, name.as_str(), ctx) {
        Ok(text) => {
            let tt = trim(text.as_str());
            let blank = tt.as_str().unicode_len() == 0;
            Ok((text, blank))
        },
        Err(e) => Err(e),
    }
}

/// The lower-case hexadecimal digit for `d` (`0 <= d < 16`).
pub open spec fn hex_digit(d: int) -> char {
    if d < 10 { ((d + 48) as u8) as char } else { ((d + 87) as u8) as char }
}

/// A character as a JSON string holds it: `"` and `\` escaped with a
/// backslash, backspace, form feed, line feed, carriage return and tab as
/// `\b`, `\f`, `\n`, `\r`, `\t`, other control characters below 32 as
/// `\u00XX` in lower-case hexadecimal, anything else as it is.
pub open spec fn json_char(c: char) -> Seq<char> {
    let n = c as int;
    if n == 34 {
        seq!['\\', '"']
    } else if n == 92 {
        seq!['\\', '\\']
    } else if n == 8 {
        seq!['\\', 'b']
    } else if n == 12 {
        seq!['\\', 'f']
    } else if n == 10 {
        seq!['\\', 'n']
    } else if n == 13 {
        seq!['\\', 'r']
    } else if n == 9 {
        seq!['\\', 't']
    } else if n < 32 {
        seq!['\\', 'u', '0', '0', hex_digit(n / 16), hex_digit(n % 16)]
    } else {
        seq![c]
    }
}

/// A text as a JSON string literal, quotes included.
pub open spec fn json_string(s: Seq<char>) -> Seq<char> {
    seq!['"'] + escaped(s) + seq!['"']
}

/// The characters of `s`, each as a JSON string holds it.
pub open spec fn escaped(s: Seq<char>) -> Seq<char>
    decreases s.len(),
{
    if s.len() == 0 {
        Seq::empty()
    } else {
        escaped(s.drop_last()) + json_char(s.last())
    }
}

/// Appends `c` as a JSON string holds it (see `json_char`).
fn push_json_char(out: &mut Vec<char>, c: char)
    ensures
        final(out)@ == old(out)@ + json_char(c),
{
    let n = c as u32;
    if n == 34 {
        out.push('\\');
        out.push('"');
    } else if n == 92 {
        out.push('\\');
        out.push('\\');
    } else if n == 8 {
        out.push('\\');
        out.push('b');
    } else if n == 12 {
        out.push('\\');
        out.push('f');
    } else if n == 10 {
        out.push('\\');
        out.push('n');
    } else if n == 13 {
        out.push('\\');
        out.push('r');
    } else if n == 9 {
        out.push('\\');
        out.push('t');
    } else if n < 32 {
        let hi = (n / 16) as u8;
        let lo = (n % 16) as u8;
        out.push('\\');
        out.push('u');
        out.push('0');
        out.push('0');
        out.push(if hi < 10 { (hi + 48) as char } else { (hi + 87) as char });
        out.push(if lo < 10 { (lo + 48) as char } else { (lo + 87) as char });
    } else {
        out.push(c);
    }
    assert(out@ =~= old(out)@ + json_char(c));
}

/// Appends the text as a JSON string literal (see `json_string`).
fn push_json_string(out: &mut Vec<char>, s: &str)
    ensures
        final(out)@ == old(out)@ + json_string(s@),
{
    let cs = chars_of(s);
    out.push('"');
    let ghost start = out@;
    let mut i: usize = 0;
    while i < cs.len()
        invariant
            i <= cs@.len(),
            cs@ == s@,
            out@ == start + escaped(cs@.take(i as int)),
        decreases cs@.len() - i,
    {
        proof {
            assert(cs@.take(i + 1).drop_last() =~= cs@.take(i as int));
            assert(cs@.take(i + 1).last() == cs@[i as int]);
        }
        push_json_char(out, cs[i]);
        i = i + 1;
    }
    proof {
        assert(cs@.take(cs@.len() as int) =~= cs@);
    }
    out.push('"');
    assert(out@ =~= old(out)@ + json_string(s@));
}

/// One member line of the generated `mod.json`: a tab, the key, `: ` and
/// the value as JSON strings.
pub open spec fn member_line(key: Seq<char>, value: Seq<char>) -> Seq<char> {
    seq!['\t'] + json_string(key) + seq![':', ' '] + json_string(value)
}

/// The `mod.json` written for a new project whose template brings none:
/// an object with the members `description`, `developer`, `geode`, `id`,
/// `name` and `version` in that (sorted) order, one per line, indented by a
/// tab, as `serde_json`'s pretty printer with a tab indent writes it.
pub open spec fn spec_new_mod_json(
    geode: Seq<char>,
    version: Seq<char>,
    id: Seq<char>,
    name: Seq<char>,
    developer: Seq<char>,
    description: Seq<char>,
) -> Seq<char> {
    seq!['{', '\n'] + member_line("description"@, description) + seq![',', '\n']
        + member_line("developer"@, developer) + seq![',', '\n']
        + member_line("geode"@, geode) + seq![',', '\n']
        + member_line("id"@, id) + seq![',', '\n']
        + member_line("name"@, name) + seq![',', '\n']
        + member_line("version"@, version) + seq!['\n', '}']
}

/// Appends a member line (see `member_line`).
fn push_member(out: &mut Vec<char>, key: &str, value: &str)
    ensures
        final(out)@ == old(out)@ + member_line(key@, value@),
{
    out.push('\t');
    push_json_string(out, key);
    out.push(':');
    out.push(' ');
    push_json_string(out, value);
    assert(out@ =~= old(out)@ + member_line(key@, value@));
}

/// The generated `mod.json` text (see `spec_new_mod_json`).
pub fn new_mod_json_text(
    geode: &str,
    version: &str,
    id: &str,
    name: &str,
    developer: &str,
    description: &str,
) -> (r: String)
    ensures
        r@ == spec_new_mod_json(geode@, version@, id@, name@, developer@, description@),
{
    let mut out: Vec<char> = Vec::new();
    out.push('{');
    out.push('\n');
    push_member(&mut out, "description", description);
    out.push(',');
    out.push('\n');
    push_member(&mut out, "developer", developer);
    out.push(',');
    out.push('\n');
    push_member(&mut out, "geode", geode);
    out.push(',');
    out.push('\n');
    push_member(&mut out, "id", id);
    out.push(',');
    out.push('\n');
    push_member(&mut out, "name", name);
    out.push(',');
    out.push('\n');
    push_member(&mut out, "version", version);
    out.push('\n');
    out.push('}');
    assert(out@ =~= spec_new_mod_json(geode@, version@, id@, name@, developer@, description@));
    string_from_chars(&out)
}

} // verus!
