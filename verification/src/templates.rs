//! The registry of project templates: creating, modifying and deleting
//! entries by name.

use vstd::prelude::*;
use crate::paths::{
    path_join, path_starts_with, path_extension, path_is_relative, path_file_name, join, starts_with,
    extension, is_relative, file_name,
};
use crate::text::{is_white_space, chars_of, starts_with_chars, has_prefix, str_equals, to_lowercase, lowercased, string_from_chars, push_all};

verus! {

/// A project template: a git repository or local directory, optionally a
/// subfolder of it, with a name and a description.
pub struct Template {
    pub name: String,
    pub description: Option<String>,
    pub repository: String,
    pub subfolder: Option<String>,
}

/// Why a registry operation was refused.
#[derive(PartialEq, Eq, Structural, Clone, Copy, Debug)]
pub enum TemplateError {
    /// A template with the requested name already exists.
    AlreadyExists,
    /// No template has the requested name.
    NotFound,
}

/// A registry command.
#[allow(inconsistent_fields)]
pub enum Templates {
    Create { name: String, repository: String, description: Option<String>, subfolder: Option<String> },
    Modify { name: String, repository: Option<String>, description: Option<String>, subfolder: Option<String> },
    List,
    Delete { name: String },
}

/// Some template in `ts` is named `name`.
pub open spec fn has_name(ts: Seq<Template>, name: Seq<char>) -> bool {
    exists|i: int| 0 <= i < ts.len() && #[trigger] ts[i].name@ == name
}

/// Index of the first template named `name`.
pub open spec fn first_named(ts: Seq<Template>, name: Seq<char>) -> int
    recommends
        has_name(ts, name),
{
    choose|i: int| 0 <= i < ts.len() && ts[i].name@ == name && (forall|j: int| 0 <= j < i ==> ts[j].name@ != name)
}

/// An optional text given on the command line: an empty one clears the field.
pub open spec fn cleared_if_empty(v: Option<String>) -> Option<Seq<char>> {
    match v {
        Some(s) => if s@.len() == 0 { None } else { Some(s@) },
        None => None,
    }
}

/// The view of an optional string.
pub open spec fn opt_view(v: Option<String>) -> Option<Seq<char>> {
    match v {
        Some(s) => Some(s@),
        None => None,
    }
}

/// The templates other than those named `name`, in their order.
pub open spec fn without_name(ts: Seq<Template>, name: Seq<char>) -> Seq<Template> {
    ts.filter(|t: Template| t.name@ != name)
}

/// Index of the first template named `name`, if any.
fn find_template(templates: &Vec<Template>, name: &String) -> (r: Option<usize>)
    ensures
        match r {
            Some(i) => i < templates.len() && templates@[i as int].name@ == name@
                && (forall|j: int| 0 <= j < i ==> templates@[j].name@ != name@),
            None => !has_name(templates@, name@),
        },
{
    let mut i: usize = 0;
    while i < templates.len()
        invariant
            i <= templates.len(),
            forall|j: int| 0 <= j < i ==> templates@[j].name@ != name@,
        decreases templates.len() - i,
    {
        if templates[i].name == *name {
            return Some(i);
        }
        i = i + 1;
    }
    None
}

/// Adds a template; refused when one with the same name exists.
pub fn create_new_template(templates: &mut Vec<Template>, template: Template) -> (r: Result<(), TemplateError>)
    ensures
        r is Err <==> has_name(old(templates)@, template.name@),
        r is Err ==> r == Err::<(), TemplateError>(TemplateError::AlreadyExists) && final(templates)@ == old(templates)@,
        r is Ok ==> final(templates)@ == old(templates)@.push(template),
{
    match find_template(templates, &template.name) {
        Some(_) => Err(TemplateError::AlreadyExists),
        None => {
            templates.push(template);
            Ok(())
        },
    }
}

/// `after` is `before` with its first template named `name` changed: a
/// given description or subfolder replaces the old one (an empty one clears
/// it), a given repository replaces the old one, and every other template
/// stays as it was.
pub open spec fn modified(
    before: Seq<Template>,
    after: Seq<Template>,
    name: Seq<char>,
    description: Option<String>,
    repository: Option<String>,
    subfolder: Option<String>,
) -> bool {
    let i = first_named(before, name);
    let b = before[i];
    let a = after[i];
    &&& after.len() == before.len()
    &&& forall|j: int| 0 <= j < before.len() && j != i ==> after[j] == before[j]
    &&& a.name == b.name
    &&& opt_view(a.description) == (if description is Some { cleared_if_empty(description) } else { opt_view(b.description) })
    &&& a.repository@ == (match repository { Some(s) => s@, None => b.repository@ })
    &&& opt_view(a.subfolder) == (if subfolder is Some { cleared_if_empty(subfolder) } else { opt_view(b.subfolder) })
}

/// Changes the first template named `name`: a given description or subfolder
/// replaces the old one (an empty one clears it), a given repository
/// replaces the old one; refused when no template has the name.
pub fn modify_template(
    templates: &mut Vec<Template>,
    name: &String,
    description: Option<String>,
    repository: Option<String>,
    subfolder: Option<String>,
) -> (r: Result<(), TemplateError>)
    ensures
        r is Err <==> !has_name(old(templates)@, name@),
        r is Err ==> r == Err::<(), TemplateError>(TemplateError::NotFound) && final(templates)@ == old(templates)@,
        r is Ok ==> modified(old(templates)@, final(templates)@, name@, description, repository, subfolder),
{
    let idx = match find_template(templates, name) {
        Some(i) => i,
        None => { return Err(TemplateError::NotFound); },
    };
    proof {
        let i = first_named(old(templates)@, name@);
        assert(old(templates)@[idx as int].name@ == name@);
        if i < idx {
        } else if idx < i {
        }
        assert(i == idx);
    }
    let mut t = templates.remove(idx);
    if let Some(desc) = description {
        if desc.as_str().is_empty() {
            t.description = None;
        } else {
            t.description = Some(desc);
        }
    }
    if let Some(repo) = repository {
        t.repository = repo;
    }
    if let Some(sub) = subfolder {
        if sub.as_str().is_empty() {
            t.subfolder = None;
        } else {
            t.subfolder = Some(sub);
        }
    }
    templates.insert(idx, t);
    Ok(())
}

/// Removes every template named `name`; the others keep their order.
pub fn delete_template(templates: &mut Vec<Template>, name: &String)
    ensures
        final(templates)@ == without_name(old(templates)@, name@),
{
    let ghost orig = templates@;
    let ghost pred = |t: Template| t.name@ != name@;
    let mut kept: Vec<Template> = Vec::new();
    let ghost mut c: int = 0;
    while templates.len() > 0
        invariant
            0 <= c <= orig.len(),
            templates@ == orig.skip(c),
            kept@ == orig.take(c).filter(pred),
            pred == (|t: Template| t.name@ != name@),
        decreases templates.len(),
    {
        let t = templates.remove(0);
        proof {
            reveal(Seq::filter);
            assert(orig.take(c + 1).drop_last() =~= orig.take(c));
            assert(orig.take(c + 1).last() == t);
        }
        if t.name != *name {
            kept.push(t);
        }
        proof {
            c = c + 1;
            assert(templates@ =~= orig.skip(c));
        }
    }
    proof {
        assert(orig.take(c) =~= orig);
    }
    *templates = kept;
}

/// Applies a registry command; listing changes nothing.
pub fn subcommand(templates: &mut Vec<Template>, cmd: Templates) -> (r: Result<(), TemplateError>)
    ensures
        match cmd {
            Templates::Create { name, repository, description, subfolder } => {
                &&& (r is Err <==> has_name(old(templates)@, name@))
                &&& r is Err ==> final(templates)@ == old(templates)@
                &&& r is Ok ==> final(templates)@.len() == old(templates)@.len() + 1
                    && final(templates)@.take(old(templates)@.len() as int) == old(templates)@
                    && final(templates)@.last() == (Template { name, description, repository, subfolder })
            },
            Templates::Modify { name, repository, description, subfolder } => {
                &&& (r is Err <==> !has_name(old(templates)@, name@))
                &&& r is Err ==> final(templates)@ == old(templates)@
                &&& r is Ok ==> modified(old(templates)@, final(templates)@, name@, description, repository, subfolder)
            },
            Templates::List => r is Ok && final(templates)@ == old(templates)@,
            Templates::Delete { name } => r is Ok && final(templates)@ == without_name(old(templates)@, name@),
        },
{
    match cmd {
        Templates::Create { name, repository, description, subfolder } => {
            let t = Template { name, description, repository, subfolder };
            let r = create_new_template(templates, t);
            proof {
                if r is Ok {
                    assert(final(templates)@.take(old(templates)@.len() as int) =~= old(templates)@);
                }
            }
            r
        },
        Templates::Modify { name, repository, description, subfolder } => {
            modify_template(templates, &name, description, repository, subfolder)
        },
        Templates::List => Ok(()),
        Templates::Delete { name } => {
            delete_template(templates, &name);
            Ok(())
        },
    }
}

/// Deleting a name leaves no template with that name, and every other
/// template is kept.
pub proof fn lemma_delete_removes_only_name(ts: Seq<Template>, name: Seq<char>)
    ensures
        !has_name(without_name(ts, name), name),
        forall|t: Template| ts.contains(t) && t.name@ != name ==> without_name(ts, name).contains(t),
{
    let pred = |t: Template| t.name@ != name;
    let f = ts.filter(pred);
    assert forall|i: int| 0 <= i < f.len() implies #[trigger] f[i].name@ != name by {
        ts.lemma_filter_pred(pred, i);
    }
    assert forall|t: Template| ts.contains(t) && t.name@ != name implies f.contains(t) by {
        ts.lemma_filter_contains_rev(pred, t);
    }
}

/// Creating a template under a new name and then deleting that name gives
/// back the registry as it was.
pub proof fn lemma_create_then_delete(ts: Seq<Template>, t: Template)
    requires
        !has_name(ts, t.name@),
    ensures
        without_name(ts.push(t), t.name@) == ts,
{
    let pred = |x: Template| x.name@ != t.name@;
    reveal(Seq::filter);
    assert(ts.push(t).drop_last() =~= ts);
    lemma_filter_all(ts, pred);
}

proof fn lemma_filter_all(ts: Seq<Template>, pred: spec_fn(Template) -> bool)
    requires
        forall|i: int| 0 <= i < ts.len() ==> pred(#[trigger] ts[i]),
    ensures
        ts.filter(pred) == ts,
    decreases ts.len(),
{
    reveal(Seq::filter);
    if ts.len() > 0 {
        let d = ts.drop_last();
        assert forall|i: int| 0 <= i < d.len() implies pred(#[trigger] d[i]) by {
            assert(d[i] == ts[i]);
        }
        lemma_filter_all(d, pred);
        assert(pred(ts[ts.len() - 1]));
        assert(d.push(ts.last()) =~= ts);
    }
}

/// A template repository is cloned when it is remote: its address starts
/// with `http://`, `https://`, `git@` or `ssh://`; otherwise it is a local folder.
pub open spec fn is_remote(repo: Seq<char>) -> bool {
    has_prefix(repo, "http://"@) || has_prefix(repo, "https://"@) || has_prefix(repo, "git@"@) || has_prefix(repo, "ssh://"@)
}

/// Whether the template repository is remote (see `is_remote`).
pub fn is_remote_repository(repo: &str) -> (r: bool)
    ensures
        r == is_remote(repo@),
{
    let cs = chars_of(repo);
    starts_with_chars(&cs, &chars_of("http://")) || starts_with_chars(&cs, &chars_of("https://"))
        || starts_with_chars(&cs, &chars_of("git@")) || starts_with_chars(&cs, &chars_of("ssh://"))
}

/// The folder the template's files come from: the clone or local folder,
/// or its subfolder when the template names one.
pub fn template_source(root: &String, subfolder: &Option<String>) -> (r: String)
    ensures
        r@ == match subfolder {
            Some(s) => path_join(root@, s@),
            None => root@,
        },
{
    match subfolder {
        Some(s) => join(root, s.as_str()),
        None => root.clone(),
    }
}

/// Whether an entry of the template (by its path relative to the template)
/// is copied into the project: everything but the `.git` folder.
pub fn copies_entry(relative: &String) -> (r: bool)
    ensures
        r == !path_starts_with(relative@, ".git"@),
{
    !starts_with(relative, ".git")
}

/// The extensions of the text files that are rendered as templates.
pub open spec fn rendered_extensions() -> Seq<Seq<char>> {
    seq!["txt"@, "md"@, "json"@, "yaml"@, "yml"@, "toml"@, "c"@, "cpp"@, "m"@, "mm"@, "h"@, "hpp"@,
        "cc"@, "hh"@, "cxx"@, "hxx"@, "py"@]
}

/// Whether a project file (by its path relative to the project) is
/// rendered: it is outside `.git`, `build` and `.github`, and its
/// lower-cased extension is one of `rendered_extensions` (a file without an
/// extension is not rendered).
pub open spec fn is_rendered(relative: Seq<char>) -> bool {
    &&& !path_starts_with(relative, ".git"@)
    &&& !path_starts_with(relative, "build"@)
    &&& !path_starts_with(relative, ".github"@)
    &&& rendered_extensions().contains(match path_extension(relative) {
        Some(e) => lowercased(e),
        None => Seq::empty(),
    })
}

/// Whether a project file is rendered (see `is_rendered`).
pub fn renders_file(relative: &String) -> (r: bool)
    ensures
        r == is_rendered(relative@),
{
    if starts_with(relative, ".git") || starts_with(relative, "build") || starts_with(relative, ".github") {
        return false;
    }
    let ext = match extension(relative) {
        Some(e) => to_lowercase(e.as_str()),
        None => String::new(),
    };
    let allowed: Vec<&str> = vec!["txt", "md", "json", "yaml", "yml", "toml", "c", "cpp", "m", "mm", "h", "hpp", "cc",
        "hh", "cxx", "hxx", "py"];
    proof {
        reveal_strlit("txt"); reveal_strlit("md"); reveal_strlit("json"); reveal_strlit("yaml");
        reveal_strlit("yml"); reveal_strlit("toml"); reveal_strlit("c"); reveal_strlit("cpp");
        reveal_strlit("m"); reveal_strlit("mm"); reveal_strlit("h"); reveal_strlit("hpp");
        reveal_strlit("cc"); reveal_strlit("hh"); reveal_strlit("cxx"); reveal_strlit("hxx");
        reveal_strlit("py");
        assert forall|j: int| 0 <= j < 17 implies #[trigger] allowed@[j]@ == rendered_extensions()[j] by {}
    }
    let mut i: usize = 0;
    while i < allowed.len()
        invariant
            i <= 17,
            allowed@.len() == 17,
            forall|j: int| 0 <= j < 17 ==> #[trigger] allowed@[j]@ == rendered_extensions()[j],
            forall|j: int| 0 <= j < i ==> rendered_extensions()[j] != ext@,
            !path_starts_with(relative@, ".git"@),
            !path_starts_with(relative@, "build"@),
            !path_starts_with(relative@, ".github"@),
            ext@ == match path_extension(relative@) {
                Some(e) => lowercased(e),
                None => Seq::<char>::empty(),
            },
        decreases 17 - i,
    {
        if str_equals(allowed[i], ext.as_str()) {
            proof { assert(rendered_extensions()[i as int] == ext@); }
            return true;
        }
        i = i + 1;
    }
    proof {
        if rendered_extensions().contains(ext@) {
            let k = choose|k: int| 0 <= k < 17 && rendered_extensions()[k] == ext@;
            assert(rendered_extensions()[k] != ext@);
        }
    }
    false
}

/// The name `geode new` suggests for a project created at `location`: the
/// final component of the location (taken from `cwd` when relative).
pub fn possible_name(location: &Option<String>, cwd: &String) -> (r: Option<String>)
    ensures
        match location {
            None => r is None,
            Some(p) => {
                let full = if path_is_relative(p@) { path_join(cwd@, p@) } else { p@ };
                match path_file_name(full) {
                    Some(n) => r is Some && r->0@ == n,
                    None => r is None,
                }
            },
        },
{
    match location {
        None => None,
        Some(p) => {
            let full = if is_relative(p) { join(cwd, p.as_str()) } else { p.clone() };
            file_name(&full)
        },
    }
}

fn is_white_space_exec(c: char) -> (r: bool)
    ensures
        r == is_white_space(c),
{
    ('\u{9}' <= c && c <= '\u{d}') || c == ' ' || c == '\u{85}' || c == '\u{a0}' || c == '\u{1680}'
        || ('\u{2000}' <= c && c <= '\u{200a}') || c == '\u{2028}' || c == '\u{2029}' || c == '\u{202f}'
        || c == '\u{205f}' || c == '\u{3000}'
}

/// The name a project created from the example template goes by in its
/// files: the mod's name with all white space removed.
pub fn template_project_name(name: &str) -> (r: String)
    ensures
        r@ == name@.filter(|c: char| !is_white_space(c)),
{
    let cs = chars_of(name);
    let ghost pred = |c: char| !is_white_space(c);
    let mut out: Vec<char> = Vec::new();
    let mut i: usize = 0;
    while i < cs.len()
        invariant
            i <= cs@.len(),
            pred == (|c: char| !is_white_space(c)),
            out@ == cs@.take(i as int).filter(pred),
        decreases cs@.len() - i,
    {
        proof {
            reveal(Seq::filter);
            assert(cs@.take(i + 1).drop_last() =~= cs@.take(i as int));
        }
        if !is_white_space_exec(cs[i]) {
            out.push(cs[i]);
        }
        i = i + 1;
    }
    proof { assert(cs@.take(cs@.len() as int) =~= cs@); }
    string_from_chars(&out)
}

/// `s` with each occurrence of `pat` replaced by `rep`, scanning left to
/// right without overlaps (`str::replace`, for a pattern that is not empty).
pub open spec fn replaced(s: Seq<char>, pat: Seq<char>, rep: Seq<char>) -> Seq<char>
    decreases s.len(),
{
    if s.len() == 0 {
        Seq::empty()
    } else if 0 < pat.len() <= s.len() && s.take(pat.len() as int) == pat {
        rep + replaced(s.skip(pat.len() as int), pat, rep)
    } else {
        seq![s[0]] + replaced(s.skip(1), pat, rep)
    }
}

/// The contents of a file of the example template with each `$Template`
/// replaced by the project's name.
pub fn fill_template(contents: &str, project_name: &str) -> (r: String)
    ensures
        r@ == replaced(contents@, "$Template"@, project_name@),
{
    let s = chars_of(contents);
    let pat = chars_of("$Template");
    let rep = chars_of(project_name);
    proof { reveal_strlit("$Template"); }
    let m = pat.len();
    let n = s.len();
    let mut out: Vec<char> = Vec::new();
    let mut i: usize = 0;
    proof { assert(s@.skip(0) =~= s@); }
    while i < s.len()
        invariant
            i <= s@.len(),
            m == pat@.len(),
            m == 9,
            n == s@.len(),
            out@ + replaced(s@.skip(i as int), pat@, rep@) == replaced(s@, pat@, rep@),
        decreases s@.len() - i,
    {
        let ghost rest = s@.skip(i as int);
        let fits = m <= s.len() - i;
        let mut matches = fits;
        let mut k: usize = 0;
        while matches && k < m
            invariant
                k <= m,
                m == pat@.len(),
                i <= s@.len(),
                n == s@.len(),
                fits == (m <= s@.len() - i),
                matches ==> fits,
                matches ==> forall|j: int| 0 <= j < k ==> s@[i + j] == pat@[j],
                fits && !matches ==> exists|j: int| 0 <= j < m && s@[i + j] != pat@[j],
            decreases m - k,
        {
            if s[i + k] != pat[k] {
                matches = false;
            }
            k = k + 1;
        }
        if matches {
            proof {
                assert(rest.take(m as int) =~= pat@);
                assert(rest.skip(m as int) =~= s@.skip(i + m));
            }
            push_all(&mut out, &rep);
            i = i + m;
        } else {
            proof {
                if fits {
                    let j = choose|j: int| 0 <= j < m && s@[i + j] != pat@[j];
                    assert(rest.take(m as int)[j] != pat@[j]);
                }
                assert(rest.skip(1) =~= s@.skip(i + 1));
            }
            out.push(s[i]);
            i = i + 1;
        }
        proof {
            assert(out@ + replaced(s@.skip(i as int), pat@, rep@) =~= replaced(s@, pat@, rep@));
        }
    }
    proof {
        assert(s@.skip(s@.len() as int) =~= Seq::<char>::empty());
        assert(out@ + Seq::<char>::empty() =~= out@);
    }
    string_from_chars(&out)
}

} // verus!
