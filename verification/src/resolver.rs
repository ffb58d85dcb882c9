//! Resolving `<!-- @include path -->` directives into one document, and
//! parsing a document file through them.
use crate::filesystem::{comps_eq, Filesystem};
use crate::model::{error_views, ErrorView, System, SystemView, ValidationError};
use crate::parser::{parse_content, parse_spec};
use crate::path::{components, parts, parts_view, Comp, PathPart};
use crate::text::{
    chars_of, ends_with, join_lines, join_with_newline, lemma_lines_single, lemma_trim_single, lines,
    single_line, split_lines, starts_with,
    starts_with_str, string_of, trim, trim_chars, trim_start,
};
use vstd::prelude::*;
use vstd::set_lib::lemma_len_subset;

verus! {

/// What the pattern `^<!--\s*@include\s+(.*?)\s*-->$` captures in a line
/// (with `\s` the Unicode white space): the text between `@include` and the
/// closing `-->` without surrounding white space, when the line is such a
/// comment and white space follows `@include`.
pub open spec fn include_target(t: Seq<char>) -> Option<Seq<char>> {
    if t.len() >= 7 && starts_with(t, "<!--"@) && ends_with(t, "-->"@) {
        let inner = trim_start(t.subrange(4, t.len() - 3));
        if starts_with(inner, "@include"@) && inner.len() > 8 && crate::text::is_ws(inner[8]) {
            Some(trim(inner.subrange(8, inner.len() as int)))
        } else {
            None
        }
    } else {
        None
    }
}

/// Matches a line against the include directive pattern
/// `^<!--\s*@include\s+(.*?)\s*-->$` (`regex::Regex::captures`) and gives
/// the text of the first group. The contract states the match and the
/// group as `include_target` describes them, for a line without line
/// feeds (`.` in the pattern matches no line feed, while `\s` does).
#[verifier::external_body]
fn include_capture(line: &str) -> (r: Option<String>)
    requires
        single_line(line@),
    ensures
        match r {
            Some(p) => include_target(line@) == Some(p@),
            None => include_target(line@) is None,
        },
{
    let re = regex::Regex::new(r"^<!--\s*@include\s+(.*?)\s*-->$").unwrap();
    re.captures(line).map(|caps| caps.get(1).unwrap().as_str().to_string())
}

/// The component lists of the paths that resolving an include path gives
/// and that read without error: the files that an include can enter.
pub open spec fn includable_parts<F: Filesystem + ?Sized>(fs: &F) -> Set<Seq<PathPart>> {
    Set::new(
        |c: Seq<PathPart>|
            exists|base: Seq<char>, rel: Seq<char>, r: Seq<char>|
                #![trigger fs.resolve_result(base, rel), fs.read_result(r)]
                fs.resolve_result(base, rel) == Ok::<Seq<char>, Seq<char>>(r) && parts(r) == c && fs.read_result(r) is Ok,
    )
}

/// Where the resolution of one file's lines stands.
pub struct IncludeScan {
    /// The output lines.
    pub out: Seq<Seq<char>>,
    pub errors: Seq<ErrorView>,
    /// Whether the line is inside a fenced code block.
    pub in_fence: bool,
    /// The files entered so far, by path components.
    pub visited: Set<Seq<PathPart>>,
}

pub open spec fn include_error(message: Seq<char>, file: Seq<char>) -> ErrorView {
    ErrorView { message, file, line: None }
}

pub proof fn lemma_measure_drops<A>(r: Set<A>, v0: Set<A>, w: Set<A>, k: A)
    requires
        r.finite(),
        r.contains(k),
        !v0.contains(k),
        w.contains(k),
        v0.subset_of(w),
    ensures
        r.difference(w).len() < r.difference(v0).len(),
{
    let d0 = r.difference(v0);
    let d1 = r.difference(w);
    lemma_len_subset(d0, r);
    assert(d1.subset_of(d0.remove(k)));
    vstd::set::axiom_set_remove_finite(d0, k);
    lemma_len_subset(d1, d0.remove(k));
    vstd::set::axiom_set_remove_len(d0, k);
}

/// The lines of a file, up to line `n`, with include directives replaced
/// by the resolved text of the files they name. `current` is the path of
/// the file; `v0` the files entered before it.
pub open spec fn include_scan<F: Filesystem + ?Sized>(
    fs: &F,
    ls: Seq<Seq<char>>,
    n: int,
    current: Seq<char>,
    v0: Set<Seq<PathPart>>,
) -> IncludeScan
    decreases includable_parts(fs).difference(v0).len(), n, 0int
    when includable_parts(fs).finite()
{
    if n <= 0 || n > ls.len() {
        IncludeScan { out: Seq::empty(), errors: Seq::empty(), in_fence: false, visited: v0 }
    } else {
        let st = include_scan(fs, ls, n - 1, current, v0);
        let line = ls[n - 1];
        let t = trim(line);
        let cur = v0.union(st.visited);
        if starts_with(t, "```"@) {
            IncludeScan { out: st.out.push(line), in_fence: !st.in_fence, ..st }
        } else if st.in_fence {
            IncludeScan { out: st.out.push(line), ..st }
        } else {
            match include_target(t) {
                None => IncludeScan { out: st.out.push(line), ..st },
                Some(cap) => {
                    let p = trim(cap);
                    match fs.resolve_result(current, p) {
                        Err(e) => IncludeScan {
                            errors: st.errors.push(
                                include_error(
                                    "Failed to resolve include path '"@ + p + "': "@ + e,
                                    current,
                                ),
                            ),
                            ..st
                        },
                        Ok(r) => if cur.contains(parts(r)) {
                            IncludeScan {
                                errors: st.errors.push(
                                    include_error("Circular include detected: "@ + r, current),
                                ),
                                ..st
                            }
                        } else {
                            let w = cur.insert(parts(r));
                            match fs.read_result(r) {
                                Err(e) => IncludeScan {
                                    errors: st.errors.push(
                                        include_error(
                                            "Failed to read included file '"@ + p + "': "@ + e,
                                            current,
                                        ),
                                    ),
                                    visited: w,
                                    ..st
                                },
                                Ok(inc) => {
                                    proof {
                                        assert(includable_parts(fs).contains(parts(r)));
                                        lemma_measure_drops(
                                            includable_parts(fs),
                                            v0,
                                            w,
                                            parts(r),
                                        );
                                    }
                                    let (res, v2) = resolve_content(fs, inc, r, w);
                                    match res {
                                        Ok(text) => IncludeScan {
                                            out: st.out.push(text),
                                            visited: v2,
                                            ..st
                                        },
                                        Err(errs) => IncludeScan {
                                            errors: st.errors + errs,
                                            visited: v2,
                                            ..st
                                        },
                                    }
                                },
                            }
                        },
                    }
                },
            }
        }
    }
}

/// The text of a file with its include directives resolved, or the errors
/// met, and the files entered by the end (those given included).
pub open spec fn resolve_content<F: Filesystem + ?Sized>(
    fs: &F,
    content: Seq<char>,
    current: Seq<char>,
    visited: Set<Seq<PathPart>>,
) -> (Result<Seq<char>, Seq<ErrorView>>, Set<Seq<PathPart>>)
    decreases includable_parts(fs).difference(visited).len(), lines(content).len(), 1int
    when includable_parts(fs).finite()
{
    let ls = lines(content);
    let st = include_scan(fs, ls, ls.len() as int, current, visited);
    (
        if st.errors.len() == 0 {
            Ok(join_lines(st.out))
        } else {
            Err(st.errors)
        },
        visited.union(st.visited),
    )
}

/// The paths in a list, by components.
pub open spec fn visited_set(v: Seq<Vec<Comp>>) -> Set<Seq<PathPart>> {
    Set::new(|c: Seq<PathPart>| exists|i: int| 0 <= i < v.len() && #[trigger] parts_view(v[i]@) == c)
}

pub open spec fn errs_view(r: Result<String, Vec<ValidationError>>) -> Result<Seq<char>, Seq<ErrorView>> {
    match r {
        Ok(s) => Ok(s@),
        Err(es) => Err(error_views(es@)),
    }
}

pub open spec fn string_views(v: Seq<String>) -> Seq<Seq<char>> {
    v.map_values(|s: String| s@)
}

fn visited_contains(v: &Vec<Vec<Comp>>, key: &Vec<Comp>) -> (r: bool)
    ensures
        r == visited_set(v@).contains(parts_view(key@)),
{
    let mut i: usize = 0;
    while i < v.len()
        invariant
            i <= v@.len(),
            forall|k: int| 0 <= k < i ==> parts_view(v@[k]@) != parts_view(key@),
        decreases v@.len() - i,
    {
        if comps_eq(&v[i], key) {
            assert(parts_view(v@[i as int]@) == parts_view(key@));
            return true;
        }
        i = i + 1;
    }
    false
}

fn push_visited(v: &mut Vec<Vec<Comp>>, key: Vec<Comp>)
    ensures
        visited_set(final(v)@) == visited_set(old(v)@).insert(parts_view(key@)),
{
    let ghost before = v@;
    let ghost k = parts_view(key@);
    v.push(key);
    assert(visited_set(v@) =~= visited_set(before).insert(k)) by {
        assert forall|c: Seq<PathPart>| visited_set(v@).contains(c) implies visited_set(before).insert(k).contains(c) by {
            let i = choose|i: int| 0 <= i < v@.len() && #[trigger] parts_view(v@[i]@) == c;
            if i < before.len() {
                assert(parts_view(before[i]@) == c);
            }
        }
        assert forall|c: Seq<PathPart>| visited_set(before).insert(k).contains(c) implies visited_set(v@).contains(c) by {
            if c == k {
                assert(parts_view(v@[before.len() as int]@) == c);
            } else {
                let i = choose|i: int| 0 <= i < before.len() && #[trigger] parts_view(before[i]@) == c;
                assert(parts_view(v@[i]@) == c);
            }
        }
    }
}

fn message3(a: &str, b: &str, c: &str, d: &str) -> (r: String)
    ensures
        r@ == a@ + b@ + c@ + d@,
{
    let mut r = crate::text::owned(a);
    crate::text::push_str(&mut r, b);
    crate::text::push_str(&mut r, c);
    crate::text::push_str(&mut r, d);
    r
}

/// Resolves the include directives of one file's content. `visited`
/// holds the files entered so far and is given back with those entered
/// on the way.
fn resolve_includes<F: Filesystem + ?Sized>(
    fs: &F,
    content: &str,
    current: &str,
    entered: Vec<Vec<Comp>>,
) -> (r: (Result<String, Vec<ValidationError>>, Vec<Vec<Comp>>))
    requires
        includable_parts(fs).finite(),
    ensures
        (errs_view(r.0), visited_set(r.1@)) == resolve_content(
            fs,
            content@,
            current@,
            visited_set(entered@),
        ),
    decreases includable_parts(fs).difference(visited_set(entered@)).len(), lines(content@).len(), 1int
{
    let ghost v0 = visited_set(entered@);
    let ghost rp = includable_parts(fs);
    let cv = chars_of(content);
    let ls = split_lines(cv.as_slice());
    let ghost lsv = lines(content@);
    let mut visited = entered;
    let mut out: Vec<String> = Vec::new();
    let mut errors: Vec<ValidationError> = Vec::new();
    let mut in_fence = false;
    let mut i: usize = 0;
    proof {
        assert(string_views(out@) =~= Seq::<Seq<char>>::empty());
        assert(error_views(errors@) =~= Seq::<ErrorView>::empty());
        assert(v0.union(v0) =~= v0);
    }
    while i < ls.len()
        invariant
            i <= ls@.len(),
            lsv == lines(content@),
            ls@.len() == lsv.len(),
            forall|k: int| 0 <= k < ls@.len() ==> #[trigger] ls@[k]@ == lsv[k],
            rp == includable_parts(fs),
            rp.finite(),
            v0 == visited_set(entered@),
            ({
                let st = include_scan(fs, lsv, i as int, current@, v0);
                &&& string_views(out@) == st.out
                &&& error_views(errors@) == st.errors
                &&& in_fence == st.in_fence
                &&& visited_set(visited@) == v0.union(st.visited)
            }),
        decreases ls@.len() - i,
    {
        let ghost st = include_scan(fs, lsv, i as int, current@, v0);
        let line = &ls[i];
        assert(line@ == lsv[i as int]);
        let t = trim_chars(line.as_slice());
        let ghost out0 = out@;
        let ghost err0 = errors@;
        if starts_with_str(t.as_slice(), "```") {
            out.push(string_of(line.as_slice()));
            assert(string_views(out@) =~= string_views(out0).push(line@));
            in_fence = !in_fence;
        } else if in_fence {
            out.push(string_of(line.as_slice()));
            assert(string_views(out@) =~= string_views(out0).push(line@));
        } else {
            let ts = string_of(t.as_slice());
            proof {
                lemma_lines_single(content@, 0);
                assert(single_line(lsv[i as int]));
                lemma_trim_single(line@);
            }
            match include_capture(ts.as_str()) {
                None => {
                    out.push(string_of(line.as_slice()));
                    assert(string_views(out@) =~= string_views(out0).push(line@));
                },
                Some(cap) => {
                    let capv = chars_of(cap.as_str());
                    let p = string_of(trim_chars(capv.as_slice()).as_slice());
                    match fs.resolve_path(current, p.as_str()) {
                        Err(e) => {
                            let m = message3("Failed to resolve include path '", p.as_str(), "': ", e.message.as_str());
                            errors.push(ValidationError { message: m, file: crate::text::owned(current), line: None });
                            assert(error_views(errors@) =~= error_views(err0).push(include_error(m@, current@)));
                        },
                        Ok(r) => {
                            let key = components(chars_of(r.as_str()).as_slice());
                            if visited_contains(&visited, &key) {
                                let mut m = crate::text::owned("Circular include detected: ");
                                crate::text::push_str(&mut m, r.as_str());
                                errors.push(ValidationError { message: m, file: crate::text::owned(current), line: None });
                                assert(error_views(errors@) =~= error_views(err0).push(include_error(m@, current@)));
                            } else {
                                let ghost k = parts_view(key@);
                                push_visited(&mut visited, key);
                                let ghost w = v0.union(st.visited).insert(k);
                                match fs.read_to_string(r.as_str()) {
                                    Err(e) => {
                                        let m = message3("Failed to read included file '", p.as_str(), "': ", e.message.as_str());
                                        errors.push(ValidationError { message: m, file: crate::text::owned(current), line: None });
                                        assert(error_views(errors@) =~= error_views(err0).push(include_error(m@, current@)));
                                        assert(v0.union(w) =~= w);
                                    },
                                    Ok(inc) => {
                                        proof {
                                            assert(rp.contains(k));
                                            lemma_measure_drops(rp, v0, w, k);
                                        }
                                        let (res, v2) = resolve_includes(fs, inc.as_str(), r.as_str(), visited);
                                        visited = v2;
                                        let ghost spec_v2 = resolve_content(fs, inc@, r@, w).1;
                                        assert(v0.union(spec_v2) =~= spec_v2);
                                        match res {
                                            Ok(text) => {
                                                out.push(text);
                                                assert(string_views(out@) =~= string_views(out0).push(text@));
                                            },
                                            Err(errs) => {
                                                let mut errs = errs;
                                                let ghost ev = error_views(errs@);
                                                errors.append(&mut errs);
                                                assert(error_views(errors@) =~= error_views(err0) + ev);
                                            },
                                        }
                                    },
                                }
                            }
                        },
                    }
                },
            }
        }
        i = i + 1;
    }
    assert(v0.union(include_scan(fs, lsv, lsv.len() as int, current@, v0).visited) == visited_set(visited@));
    let res = if errors.len() == 0 {
        Ok(join_with_newline(&out))
    } else {
        Err(errors)
    };
    (res, visited)
}

/// What resolving the document at `path` gives: its text with every
/// include directive replaced by the resolved text of the file it names
/// (relative to the including file), or the errors met. An include of a
/// file already entered on the way is an error, so the resolution ends.
pub open spec fn resolve_spec<F: Filesystem + ?Sized>(fs: &F, path: Seq<char>) -> Result<Seq<char>, Seq<ErrorView>> {
    match fs.canonical_result(path) {
        Err(e) => Err(seq![include_error("Failed to resolve path '"@ + path + "': "@ + e, path)]),
        Ok(c) => match fs.read_result(c) {
            Err(e) => Err(seq![include_error("Failed to read file '"@ + path + "': "@ + e, path)]),
            Ok(content) => resolve_content(fs, content, c, set![parts(c)]).0,
        },
    }
}

/// Resolves all `<!-- @include -->` directives and returns the unified
/// markdown text. Directives inside fenced code blocks are left as they are.
pub fn resolve<F: Filesystem + ?Sized>(fs: &F, path: &str) -> (r: Result<String, Vec<ValidationError>>)
    requires
        includable_parts(fs).finite(),
    ensures
        errs_view(r) == resolve_spec(fs, path@),
{
    let canonical = match fs.canonicalize(path) {
        Ok(c) => c,
        Err(e) => {
            let m = message3("Failed to resolve path '", path, "': ", e.message.as_str());
            let err = ValidationError { message: m, file: crate::text::owned(path), line: None };
            let v = vec![err];
            assert(error_views(v@) =~= seq![include_error(m@, path@)]);
            return Err(v);
        },
    };
    let content = match fs.read_to_string(canonical.as_str()) {
        Ok(c) => c,
        Err(e) => {
            let m = message3("Failed to read file '", path, "': ", e.message.as_str());
            let err = ValidationError { message: m, file: crate::text::owned(path), line: None };
            let v = vec![err];
            assert(error_views(v@) =~= seq![include_error(m@, path@)]);
            return Err(v);
        },
    };
    let mut visited: Vec<Vec<Comp>> = Vec::new();
    let key = components(chars_of(canonical.as_str()).as_slice());
    let ghost k = parts_view(key@);
    push_visited(&mut visited, key);
    assert(visited_set(Seq::<Vec<Comp>>::empty()) =~= Set::<Seq<PathPart>>::empty());
    assert(visited_set(visited@) =~= set![parts(canonical@)]);
    let (res, _) = resolve_includes(fs, content.as_str(), canonical.as_str(), visited);
    res
}

/// What parsing the document at `path` gives: the system model of its
/// resolved text, or the errors of resolving or of parsing.
pub open spec fn parse_file_spec<F: Filesystem + ?Sized>(fs: &F, path: Seq<char>) -> Result<SystemView, Seq<ErrorView>> {
    match resolve_spec(fs, path) {
        Err(e) => Err(e),
        Ok(content) => parse_spec(content, path),
    }
}

/// Parses a CABIDL markdown file into a system model: includes are
/// resolved, then the unified content is parsed.
pub fn parse<F: Filesystem + ?Sized>(fs: &F, path: &str) -> (r: Result<System, Vec<ValidationError>>)
    requires
        includable_parts(fs).finite(),
    ensures
        match r {
            Ok(s) => parse_file_spec(fs, path@) == Ok::<SystemView, Seq<ErrorView>>(s@),
            Err(es) => parse_file_spec(fs, path@) == Err::<SystemView, Seq<ErrorView>>(error_views(es@)),
        },
{
    let content = resolve(fs, path)?;
    parse_content(content.as_str(), path)
}


/// No line of the text is an include directive.
pub open spec fn no_directives(ls: Seq<Seq<char>>) -> bool {
    forall|k: int| 0 <= k < ls.len() ==> #[trigger] include_target(trim(ls[k])) is None
}

proof fn lemma_scan_without_directives<F: Filesystem + ?Sized>(
    fs: &F,
    ls: Seq<Seq<char>>,
    n: int,
    current: Seq<char>,
    v0: Set<Seq<PathPart>>,
)
    requires
        includable_parts(fs).finite(),
        no_directives(ls),
        0 <= n <= ls.len(),
    ensures
        include_scan(fs, ls, n, current, v0).out == ls.take(n),
        include_scan(fs, ls, n, current, v0).errors.len() == 0,
    decreases n,
{
    if n > 0 {
        lemma_scan_without_directives(fs, ls, n - 1, current, v0);
        assert(include_target(trim(ls[n - 1])) is None);
        assert(ls.take(n) =~= ls.take(n - 1).push(ls[n - 1]));
    }
}

/// A text without include directives resolves to its own lines, joined
/// by line feeds.
pub proof fn lemma_plain_text_resolves_to_itself<F: Filesystem + ?Sized>(
    fs: &F,
    content: Seq<char>,
    current: Seq<char>,
    visited: Set<Seq<PathPart>>,
)
    requires
        includable_parts(fs).finite(),
        no_directives(lines(content)),
    ensures
        resolve_content(fs, content, current, visited).0 == Ok::<Seq<char>, Seq<ErrorView>>(
            join_lines(lines(content)),
        ),
{
    let ls = lines(content);
    lemma_scan_without_directives(fs, ls, ls.len() as int, current, visited);
    assert(ls.take(ls.len() as int) =~= ls);
}


/// An in-memory filesystem can be read from only at the finitely many
/// paths it holds, so includes can enter finitely many files, and can be
/// resolved over it.
pub proof fn lemma_in_memory_ready(fs: &crate::filesystem::InMemoryFilesystem)
    ensures
        includable_parts(fs).finite(),
{
    let keys = crate::filesystem::stored_keys(fs.files());
    vstd::seq_lib::seq_to_set_is_finite(fs.files().map_values(|e: (Seq<PathPart>, Seq<char>)| e.0));
    assert forall|c: Seq<PathPart>| #[trigger] includable_parts(fs).contains(c) implies keys.contains(c) by {
        let (b, rel, r) = choose|b: Seq<char>, rel: Seq<char>, r: Seq<char>|
            #![trigger fs.resolve_result(b, rel), fs.read_result(r)]
            fs.resolve_result(b, rel) == Ok::<Seq<char>, Seq<char>>(r) && parts(r) == c && fs.read_result(r) is Ok;
        crate::filesystem::lemma_readable_is_stored(*fs, r);
    }
    vstd::set_lib::lemma_set_subset_finite(keys, includable_parts(fs));
}


/// Parsing a file is parsing the text that resolving its includes gives,
/// under the file's own path; a file that does not resolve is answered with
/// the resolution's errors.
pub proof fn lemma_parse_is_resolve_then_parse<F: Filesystem + ?Sized>(fs: &F, path: Seq<char>)
    ensures
        resolve_spec(fs, path) matches Ok(content) ==> parse_file_spec(fs, path) == parse_spec(content, path),
        resolve_spec(fs, path) matches Err(errors) ==> parse_file_spec(fs, path) == Err::<SystemView, Seq<ErrorView>>(
            errors,
        ),
{
}


/// An included file is resolved where it stands, relative to itself: a
/// document whose one line is an include directive that names, relative
/// to the document, a file `r` not entered yet resolves to exactly what
/// `r` resolves to when its own directives are taken relative to `r`,
/// with `r` entered.
pub proof fn lemma_include_resolves_relative_to_itself<F: Filesystem + ?Sized>(
    fs: &F,
    content: Seq<char>,
    current: Seq<char>,
    visited: Set<Seq<PathPart>>,
    cap: Seq<char>,
    r: Seq<char>,
    inc: Seq<char>,
)
    requires
        includable_parts(fs).finite(),
        lines(content).len() == 1,
        !starts_with(trim(lines(content)[0]), "```"@),
        include_target(trim(lines(content)[0])) == Some(cap),
        fs.resolve_result(current, trim(cap)) == Ok::<Seq<char>, Seq<char>>(r),
        !visited.contains(parts(r)),
        fs.read_result(r) == Ok::<Seq<char>, Seq<char>>(inc),
    ensures
        resolve_content(fs, content, current, visited).0 == resolve_content(fs, inc, r, visited.insert(parts(r))).0,
{
    let ls = lines(content);
    assert(visited.union(visited) =~= visited);
    let st0 = include_scan(fs, ls, 0, current, visited);
    assert(st0.visited == visited);
    let inner = resolve_content(fs, inc, r, visited.insert(parts(r)));
    let st = include_scan(fs, ls, 1, current, visited);
    match inner.0 {
        Ok(text) => {
            assert(st.out =~= seq![text]);
            assert(st.errors.len() == 0);
        },
        Err(errs) => {
            let ils = lines(inc);
            let ist = include_scan(fs, ils, ils.len() as int, r, visited.insert(parts(r)));
            assert(ist.errors.len() > 0);
            assert(st.errors =~= errs);
        },
    }
}

/// An include cycle is refused: a document whose one line is an include
/// directive that names, relative to the document, a file already entered
/// on the way resolves to the one error `Circular include detected: <r>`,
/// reported against the document, whatever that file holds.
pub proof fn lemma_include_cycle_is_refused<F: Filesystem + ?Sized>(
    fs: &F,
    content: Seq<char>,
    current: Seq<char>,
    visited: Set<Seq<PathPart>>,
    cap: Seq<char>,
    r: Seq<char>,
)
    requires
        includable_parts(fs).finite(),
        lines(content).len() == 1,
        !starts_with(trim(lines(content)[0]), "```"@),
        include_target(trim(lines(content)[0])) == Some(cap),
        fs.resolve_result(current, trim(cap)) == Ok::<Seq<char>, Seq<char>>(r),
        visited.contains(parts(r)),
    ensures
        resolve_content(fs, content, current, visited).0 == Err::<Seq<char>, Seq<ErrorView>>(
            seq![ErrorView { message: "Circular include detected: "@ + r, file: current, line: None }],
        ),
{
    let ls = lines(content);
    assert(visited.union(visited) =~= visited);
    let st0 = include_scan(fs, ls, 0, current, visited);
    assert(st0.visited == visited);
    let st = include_scan(fs, ls, 1, current, visited);
    assert(st.errors =~= seq![ErrorView { message: "Circular include detected: "@ + r, file: current, line: None }]);
}

} // verus!
