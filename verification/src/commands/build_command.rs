//! Output names of builds, which targets can run here, and Perry's
//! intermediate object files.
use crate::build_artifacts::{is_simple_name, segment_char, simple_name};
use crate::error::{error_view, plain_error, CliError, ErrorKind};
use crate::json::{member, string_value, JsonValue};
use crate::paths::{file_stem, path_file_stem};
use crate::platform::{host_label, platform_label, runs_on, HostPlatform, ResolvedTarget};
use crate::string_set::{string_views, StringSet};
use crate::text::{
    ascii_alnum, ascii_lower, chars_of, copy_string, ends_with, has_suffix, opt_view, string_from, string_of,
    lemma_trim_class_inner, subvec, to_ascii_lower, trim_class, trim_class_exec, CharClass,
};
use vstd::prelude::*;

verus! {

/// One step of reducing a name to an output name: allowed characters are
/// kept in lower case, and each run of other characters after the first kept
/// one becomes one `-`.
pub open spec fn sanitize_step(state: (Seq<char>, bool), c: char) -> (Seq<char>, bool) {
    let (norm, previous_dash) = state;
    if segment_char(c) {
        (norm.push(ascii_lower(c)), false)
    } else if !previous_dash && norm.len() > 0 {
        (norm.push('-'), true)
    } else {
        state
    }
}

pub open spec fn sanitize_fold(s: Seq<char>) -> (Seq<char>, bool)
    decreases s.len(),
{
    if s.len() == 0 {
        (Seq::empty(), false)
    } else {
        sanitize_step(sanitize_fold(s.drop_last()), s.last())
    }
}

/// A name reduced to lower-case ASCII letters, digits, `-`, `_` and `.`,
/// without leading or trailing `-` and `.`.
pub open spec fn sanitized(s: Seq<char>) -> Seq<char> {
    trim_class(sanitize_fold(s).0, CharClass::DashOrDot)
}

proof fn lemma_fold_keeps_name_chars(s: Seq<char>)
    ensures
        forall|j: int|
            0 <= j < sanitize_fold(s).0.len() ==> segment_char(#[trigger] sanitize_fold(s).0[j]),
    decreases s.len(),
{
    if s.len() > 0 {
        let prev = sanitize_fold(s.drop_last());
        lemma_fold_keeps_name_chars(s.drop_last());
        let c = s.last();
        let next = sanitize_fold(s).0;
        assert(sanitize_fold(s) == sanitize_step(prev, c));
        if segment_char(c) {
            assert(segment_char(ascii_lower(c)));
            assert(next == prev.0.push(ascii_lower(c)));
        } else if !prev.1 && prev.0.len() > 0 {
            assert(next == prev.0.push('-'));
        } else {
            assert(next == prev.0);
        }
        assert forall|j: int| 0 <= j < next.len() implies segment_char(#[trigger] next[j]) by {
            if j < prev.0.len() {
                assert(next[j] == prev.0[j]);
            }
        }
    }
}

/// A name reduced for output is a simple file name whenever anything of it
/// is left: it holds only allowed characters and does not start with a dot.
pub proof fn lemma_sanitized_is_simple(s: Seq<char>)
    ensures
        sanitized(s).len() > 0 ==> simple_name(sanitized(s)),
{
    let f = sanitize_fold(s).0;
    lemma_fold_keeps_name_chars(s);
    lemma_trim_class_inner(f, CharClass::DashOrDot);
    let t = sanitized(s);
    assert forall|j: int| 0 <= j < t.len() implies segment_char(#[trigger] t[j]) by {
        assert(f.contains(t[j]));
        let i = choose|i: int| 0 <= i < f.len() && f[i] == t[j];
        assert(segment_char(f[i]));
    }
    if t.len() > 0 {
        reveal_strlit(".");
        reveal_strlit("..");
        assert(t[0] != '.');
        assert(t != "."@);
        assert(t != ".."@);
    }
}

pub fn sanitize_output_name(name: &str) -> (r: String)
    ensures
        r@ == sanitized(name@),
{
    let n = chars_of(name);
    let mut normalized: Vec<char> = Vec::new();
    let mut previous_dash = false;
    let mut i: usize = 0;
    while i < n.len()
        invariant
            i <= n.len(),
            n@ == name@,
            (normalized@, previous_dash) == sanitize_fold(n@.take(i as int)),
        decreases n.len() - i,
    {
        let c = n[i];
        if ascii_alnum(c) || c == '-' || c == '_' || c == '.' {
            normalized.push(to_ascii_lower(c));
            previous_dash = false;
        } else if !previous_dash && normalized.len() > 0 {
            normalized.push('-');
            previous_dash = true;
        }
        assert(n@.take(i + 1).drop_last() =~= n@.take(i as int));
        i = i + 1;
    }
    assert(n@.take(n.len() as int) =~= n@);
    let trimmed = trim_class_exec(normalized.as_slice(), CharClass::DashOrDot);
    string_of(trimmed.as_slice())
}

pub fn validate_output_name(name: &str) -> (r: Result<(), CliError>)
    ensures
        r is Ok <==> simple_name(name@),
        r matches Err(e) ==> e@ == plain_error(ErrorKind::InvalidOutputName),
{
    if !is_simple_name(name) {
        return Err(CliError::new(ErrorKind::InvalidOutputName));
    }
    Ok(())
}

/// The output name of a build: the explicit name, else the package's name,
/// else the entry file's stem, the latter two sanitized.
pub open spec fn output_name_choice(
    explicit: Option<Seq<char>>,
    package: crate::json::JsonView,
    entry: Seq<char>,
) -> Seq<char> {
    match explicit {
        Some(e) => e,
        None => match string_value(member(package, "name"@)) {
            Some(n) => sanitized(n),
            None => match file_stem(entry) {
                Some(s) => sanitized(s),
                None => Seq::empty(),
            },
        },
    }
}

pub fn derive_output_name(explicit: Option<&str>, package: &JsonValue, entry: &str) -> (r: Result<
    String,
    CliError,
>)
    ensures
        r matches Ok(s) ==> s@ == output_name_choice(
            crate::engine::opt_str_view(explicit),
            package@,
            entry@,
        ) && simple_name(s@),
        r matches Err(e) ==> !simple_name(
            output_name_choice(crate::engine::opt_str_view(explicit), package@, entry@),
        ) && e@ == plain_error(ErrorKind::InvalidOutputName),
{
    let name = match explicit {
        Some(e) => string_from(e),
        None => {
            let from_package = match package.get("name") {
                Some(v) => v.as_str(),
                None => None,
            };
            match from_package {
                Some(n) => sanitize_output_name(n.as_str()),
                None => match path_file_stem(entry) {
                    Some(stem) => sanitize_output_name(stem.as_str()),
                    None => String::new(),
                },
            }
        },
    };
    validate_output_name(name.as_str())?;
    Ok(name)
}

/// The label of a resolved target: Perry's target name, or the platform's.
pub open spec fn target_label_text(t: ResolvedTarget) -> Seq<char> {
    match t.perry_target {
        Some(p) => p@,
        None => platform_label(t.target),
    }
}

pub fn target_label(target: &ResolvedTarget) -> (r: String)
    ensures
        r@ == target_label_text(*target),
{
    match &target.perry_target {
        Some(p) => crate::text::copy_string(p),
        None => string_from(target.target.platform_name()),
    }
}

/// Checks that a build for `target` can run on `host`.
pub fn validate_run_target(target: &ResolvedTarget, host: HostPlatform) -> (r: Result<
    (),
    CliError,
>)
    ensures
        r is Ok <==> runs_on(target.target, host),
        r matches Err(e) ==> e@ == error_view(
            ErrorKind::CannotRunTarget,
            target_label_text(*target),
            host_label(host),
        ),
{
    if !target.can_run_on(host) {
        let label = target_label(target);
        return Err(CliError::with_detail(ErrorKind::CannotRunTarget, label.as_str(), host.name()));
    }
    Ok(())
}

/// An object file that Perry compiles from a TypeScript module: a name
/// ending in `.o` whose stem ends in `_ts`, `_tsx`, `_mts` or `_cts`.
pub open spec fn perry_object_name(n: Seq<char>) -> bool {
    has_suffix(n, ".o"@) && {
        let stem = n.take(n.len() - 2);
        has_suffix(stem, "_ts"@) || has_suffix(stem, "_tsx"@) || has_suffix(stem, "_mts"@)
            || has_suffix(stem, "_cts"@)
    }
}

pub fn is_perry_object_name(name: &str) -> (r: bool)
    ensures
        r == perry_object_name(name@),
{
    let n = chars_of(name);
    let dot_o = chars_of(".o");
    if !ends_with(n.as_slice(), dot_o.as_slice()) {
        return false;
    }
    proof {
        reveal_strlit(".o");
    }
    let stem = subvec(n.as_slice(), 0, n.len() - 2);
    assert(stem@ =~= n@.take(n@.len() - 2));
    ends_with(stem.as_slice(), chars_of("_ts").as_slice()) || ends_with(
        stem.as_slice(),
        chars_of("_tsx").as_slice(),
    ) || ends_with(stem.as_slice(), chars_of("_mts").as_slice()) || ends_with(
        stem.as_slice(),
        chars_of("_cts").as_slice(),
    )
}


/// Of the file names in the project root, those of Perry objects.
pub open spec fn object_names(names: Seq<Seq<char>>) -> Seq<Seq<char>> {
    names.filter(|n: Seq<char>| perry_object_name(n))
}

/// Of the file names in the project root, the Perry objects that were not
/// there before a watched build: those that belong to its build directory.
pub open spec fn fresh_object_names(names: Seq<Seq<char>>, before: Set<Seq<char>>) -> Seq<
    Seq<char>,
> {
    names.filter(|n: Seq<char>| perry_object_name(n) && !before.contains(n))
}

/// The Perry objects among the file names of the project root, as a set.
pub fn compiler_objects(names: &Vec<String>) -> (r: StringSet)
    ensures
        r.elems().to_set() == object_names(string_views(names@)).to_set(),
{
    let ghost all = string_views(names@);
    let mut found = StringSet::new();
    let mut i: usize = 0;
    while i < names.len()
        invariant
            i <= names.len(),
            all == string_views(names@),
            found.elems().to_set() == object_names(all.take(i as int)).to_set(),
        decreases names.len() - i,
    {
        proof {
            reveal(Seq::filter);
            assert(all.take(i + 1).drop_last() =~= all.take(i as int));
            assert(all.take(i + 1).last() == names@[i as int]@);
        }
        if is_perry_object_name(names[i].as_str()) {
            let ghost before = found.elems().to_set();
            found.insert(copy_string(&names[i]));
            proof {
                let prev = object_names(all.take(i as int));
                assert(object_names(all.take(i + 1)) == prev.push(names@[i as int]@));
                assert(prev.push(names@[i as int]@).to_set() =~= prev.to_set().insert(
                    names@[i as int]@,
                )) by {
                    prev.lemma_push_to_set_commute(names@[i as int]@);
                };
            }
        } else {
            assert(object_names(all.take(i + 1)) == object_names(all.take(i as int)));
        }
        i = i + 1;
    }
    assert(all.take(names.len() as int) =~= all);
    found
}

/// The Perry objects among the file names of the project root that were not
/// among `before`, in the order given.
pub fn new_compiler_objects(names: &Vec<String>, before: &StringSet) -> (r: Vec<String>)
    ensures
        string_views(r@) == fresh_object_names(string_views(names@), before.elems().to_set()),
{
    let ghost all = string_views(names@);
    let ghost pre = before.elems().to_set();
    let mut fresh: Vec<String> = Vec::new();
    let mut i: usize = 0;
    while i < names.len()
        invariant
            i <= names.len(),
            all == string_views(names@),
            pre == before.elems().to_set(),
            string_views(fresh@) == fresh_object_names(all.take(i as int), pre),
        decreases names.len() - i,
    {
        proof {
            reveal(Seq::filter);
            assert(all.take(i + 1).drop_last() =~= all.take(i as int));
            assert(all.take(i + 1).last() == names@[i as int]@);
        }
        let known = before.contains(names[i].as_str());
        assert(known == before.elems().contains(names@[i as int]@));
        if is_perry_object_name(names[i].as_str()) && !known {
            let c = copy_string(&names[i]);
            let ghost prev = fresh@;
            fresh.push(c);
            assert(string_views(fresh@) =~= string_views(prev).push(c@));
        }
        i = i + 1;
    }
    assert(all.take(names.len() as int) =~= all);
    fresh
}

} // verus!
