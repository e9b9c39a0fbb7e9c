//! Project names, the engine dependency a new project starts with, and the
//! files a new project holds.
use crate::engine::{
    declared_engine, engine_entry_from, is_section, lemma_engine_entry_from, section_name,
};
use crate::engine_package::{
    allow_pattern, bornengine_package, engine_package_name, engine_subpath, is_engine_package,
    legacy_engine_package, native_library_allow_pattern,
};
use crate::json::{
    entries_view, items_view, json_view, lemma_entries_view_index, lemma_entries_view_len,
    lemma_entries_view_push, lemma_items_view_index, lemma_items_view_len, lemma_items_view_push,
    member, push_member, string_value,
    JsonValue, JsonView,
};
use crate::error::{plain_error, subject_error, CliError, ErrorKind, ErrorView};
use crate::json::{json_text_parse, json_text_render, key_index_from, render_json_text};
use crate::text::{
    ascii_digit, ascii_lower, ascii_lower_letter, ascii_upper, chars_equal, chars_of, control,
    find_char, find_char_from, is_ascii_digit, is_ascii_lower, is_ascii_upper, is_control,
    lemma_find_char_from, lower_chars, lower_seq, push_char, string_of, subvec, to_ascii_lower,
    trim_class, trim_class_exec, trim_end_class, trim_end_class_exec, CharClass,
};
use crate::paths::{is_rooted, part_components, path_components, ComponentView};
use crate::text::{lemma_split_without_separator, split_char};
use crate::string_set::StringSet;
use vstd::prelude::*;

verus! {

#[derive(Clone, Debug, PartialEq, Eq)]
pub struct ProjectSpec {
    /// The engine's package name.
    pub engine_package: String,
    /// The dependency specification: a version or a local path.
    pub engine_spec: String,
}

// ---------------------------------------------------------------------------
// Project names
// ---------------------------------------------------------------------------

/// Characters that no file-system name may hold on any supported platform.
pub open spec fn forbidden_name_char(c: char) -> bool {
    is_control(c) || c == '<' || c == '>' || c == ':' || c == '"' || c == '|' || c == '?' || c
        == '*' || c == '/' || c == '\\'
}

/// The part of a name before its first `.`.
pub open spec fn name_stem(n: Seq<char>) -> Seq<char> {
    match find_char_from(n, '.', 0) {
        Some(k) => n.take(k),
        None => n,
    }
}

/// Device names that Windows reserves, whatever their case and extension.
pub open spec fn reserved_stem(stem: Seq<char>) -> bool {
    let l = lower_seq(stem);
    ||| l == "con"@
    ||| l == "prn"@
    ||| l == "aux"@
    ||| l == "nul"@
    ||| l.len() == 4 && (l.take(3) == "com"@ || l.take(3) == "lpt"@) && '1' <= l[3] && l[3] <= '9'
}

/// A name that is one directory name: not empty, not `.` or `..`, not ending
/// in a space or a dot, without separators, control or reserved characters,
/// and not a reserved device name.
pub open spec fn valid_project_name(n: Seq<char>) -> bool {
    &&& n.len() > 0
    &&& n != "."@
    &&& n != ".."@
    &&& n.last() != ' '
    &&& n.last() != '.'
    &&& forall|i: int| 0 <= i < n.len() ==> !forbidden_name_char(#[trigger] n[i])
    &&& !reserved_stem(name_stem(n))
}

fn forbidden_char(c: char) -> (r: bool)
    ensures
        r == forbidden_name_char(c),
{
    control(c) || c == '<' || c == '>' || c == ':' || c == '"' || c == '|' || c == '?' || c == '*'
        || c == '/' || c == '\\'
}

fn reserved(stem: &[char]) -> (r: bool)
    ensures
        r == reserved_stem(stem@),
{
    let l = lower_chars(stem);
    if chars_equal(l.as_slice(), chars_of("con").as_slice()) || chars_equal(
        l.as_slice(),
        chars_of("prn").as_slice(),
    ) || chars_equal(l.as_slice(), chars_of("aux").as_slice()) || chars_equal(
        l.as_slice(),
        chars_of("nul").as_slice(),
    ) {
        return true;
    }
    if l.len() != 4 {
        return false;
    }
    let head = subvec(l.as_slice(), 0, 3);
    assert(head@ =~= l@.take(3));
    (chars_equal(head.as_slice(), chars_of("com").as_slice()) || chars_equal(
        head.as_slice(),
        chars_of("lpt").as_slice(),
    )) && '1' <= l[3] && l[3] <= '9'
}

/// Checks that a project name is a single directory name that is valid on
/// every supported platform.
pub fn validate_project_name(name: &str) -> (r: Result<(), CliError>)
    ensures
        r is Ok <==> valid_project_name(name@),
        r matches Err(e) ==> e@ == plain_error(ErrorKind::InvalidProjectName),
{
    let n = chars_of(name);
    let len = n.len();
    let mut invalid_character = false;
    let mut i: usize = 0;
    while i < len
        invariant
            len == n@.len(),
            i <= len,
            invalid_character == exists|j: int| 0 <= j < i && forbidden_name_char(#[trigger] n@[j]),
        decreases len - i,
    {
        if forbidden_char(n[i]) {
            invalid_character = true;
        }
        i = i + 1;
    }
    let stem = match find_char(n.as_slice(), '.', 0) {
        Some(k) => {
            proof {
                lemma_find_char_from(n@, '.', 0);
            }
            let s = subvec(n.as_slice(), 0, k);
            assert(s@ =~= n@.take(k as int));
            s
        },
        None => n.clone(),
    };
    let is_reserved = reserved(stem.as_slice());
    if len == 0 || chars_equal(n.as_slice(), chars_of(".").as_slice()) || chars_equal(
        n.as_slice(),
        chars_of("..").as_slice(),
    ) || n[len - 1] == ' ' || n[len - 1] == '.' || invalid_character || is_reserved {
        return Err(CliError::new(ErrorKind::InvalidProjectName));
    }
    Ok(())
}

// ---------------------------------------------------------------------------
// npm package names
// ---------------------------------------------------------------------------

/// One step of turning a project name into an npm package name: the name so
/// far and whether its last source character was a letter or digit.
pub open spec fn npm_step(state: (Seq<char>, bool), c: char) -> (Seq<char>, bool) {
    let (norm, prev) = state;
    let open = norm.len() > 0 && norm.last() != '-';
    if is_ascii_upper(c) {
        let n1 = if prev && !(norm.len() > 0 && norm.last() == '-') {
            norm.push('-')
        } else {
            norm
        };
        (n1.push(ascii_lower(c)), true)
    } else if is_ascii_lower(c) || is_ascii_digit(c) {
        (norm.push(c), true)
    } else if c == '.' || c == '_' || c == '-' {
        (
            if open {
                norm.push(c)
            } else {
                norm
            },
            false,
        )
    } else if open {
        (norm.push('-'), false)
    } else {
        (norm, prev)
    }
}

pub open spec fn npm_fold(s: Seq<char>) -> (Seq<char>, bool)
    decreases s.len(),
{
    if s.len() == 0 {
        (Seq::empty(), false)
    } else {
        npm_step(npm_fold(s.drop_last()), s.last())
    }
}

/// The npm package name derived from a project name (`MyGame` gives
/// `my-game`), before it is checked.
pub open spec fn npm_name_candidate(name: Seq<char>) -> Seq<char> {
    trim_end_class(npm_fold(name).0, CharClass::DashOrDot)
}

pub open spec fn npm_name_ok(c: Seq<char>) -> bool {
    c.len() > 0 && c.len() <= 214 && c[0] != '.'
}

pub fn npm_project_name(name: &str) -> (r: Result<String, CliError>)
    ensures
        r matches Ok(s) ==> s@ == npm_name_candidate(name@) && npm_name_ok(s@),
        r matches Err(e) ==> !npm_name_ok(npm_name_candidate(name@)) && e@ == plain_error(
            ErrorKind::NpmNameUnavailable,
        ),
{
    let n = chars_of(name);
    let mut normalized: Vec<char> = Vec::new();
    let mut previous_was_lower_or_digit = false;
    let mut i: usize = 0;
    while i < n.len()
        invariant
            i <= n.len(),
            n@ == name@,
            (normalized@, previous_was_lower_or_digit) == npm_fold(n@.take(i as int)),
        decreases n.len() - i,
    {
        let c = n[i];
        let ends_dash = normalized.len() > 0 && normalized[normalized.len() - 1] == '-';
        let open = normalized.len() > 0 && !ends_dash;
        if ascii_upper(c) {
            if previous_was_lower_or_digit && !ends_dash {
                normalized.push('-');
            }
            normalized.push(to_ascii_lower(c));
            previous_was_lower_or_digit = true;
        } else if ascii_lower_letter(c) || ascii_digit(c) {
            normalized.push(c);
            previous_was_lower_or_digit = true;
        } else if c == '.' || c == '_' || c == '-' {
            if open {
                normalized.push(c);
            }
            previous_was_lower_or_digit = false;
        } else if open {
            normalized.push('-');
            previous_was_lower_or_digit = false;
        }
        assert(n@.take(i + 1).drop_last() =~= n@.take(i as int));
        i = i + 1;
    }
    assert(n@.take(n.len() as int) =~= n@);
    let trimmed = trim_end_class_exec(normalized.as_slice(), CharClass::DashOrDot);
    if trimmed.len() == 0 || trimmed.len() > 214 || trimmed[0] == '.' {
        return Err(CliError::new(ErrorKind::NpmNameUnavailable));
    }
    Ok(string_of(trimmed.as_slice()))
}

// ---------------------------------------------------------------------------
// The engine dependency of a new project
// ---------------------------------------------------------------------------

pub open spec fn spec_is_blank(s: Seq<char>) -> bool {
    trim_class(s, CharClass::Whitespace).len() == 0
}

/// Checks that a project's engine dependency names the engine and is not blank.
pub fn validate_spec(spec: &ProjectSpec) -> (r: Result<(), CliError>)
    ensures
        r is Ok <==> engine_package_name(spec.engine_package@) && !spec_is_blank(
            spec.engine_spec@,
        ),
        r matches Err(e) ==> (if !engine_package_name(spec.engine_package@) {
            e@ == subject_error(ErrorKind::UnsupportedEnginePackage, spec.engine_package@)
        } else {
            e@ == plain_error(ErrorKind::EmptyEngineSpec)
        }),
{
    if !is_engine_package(spec.engine_package.as_str()) {
        return Err(
            CliError::about(ErrorKind::UnsupportedEnginePackage, spec.engine_package.as_str()),
        );
    }
    let trimmed = trim_class_exec(chars_of(spec.engine_spec.as_str()).as_slice(), CharClass::Whitespace);
    if trimmed.len() == 0 {
        return Err(CliError::new(ErrorKind::EmptyEngineSpec));
    }
    Ok(())
}

// ---------------------------------------------------------------------------
// What package.json says about a project
// ---------------------------------------------------------------------------

pub open spec fn member_in(v: Option<JsonView>, key: Seq<char>) -> Option<JsonView> {
    match v {
        Some(x) => member(x, key),
        None => None,
    }
}

/// Object members one of which is named like the engine.
pub open spec fn lists_engine(es: Seq<(Seq<char>, JsonView)>) -> bool {
    exists|j: int| 0 <= j < es.len() && engine_package_name(#[trigger] es[j].0)
}

/// A dependency section that lists the engine.
pub open spec fn section_lists_engine(p: JsonView, k: int) -> bool {
    match member(p, section_name(k)) {
        Some(JsonView::Object(es)) => lists_engine(es),
        _ => false,
    }
}

/// `perry.nativeLibrary.module` names the engine.
pub open spec fn native_module_is_engine(p: JsonView) -> bool {
    match string_value(member_in(member_in(member(p, "perry"@), "nativeLibrary"@), "module"@)) {
        Some(s) => engine_package_name(s),
        None => false,
    }
}

pub open spec fn is_engine_pattern(s: Seq<char>) -> bool {
    s == allow_pattern(bornengine_package()) || s == allow_pattern(legacy_engine_package())
}

/// `perry.allow.nativeLibrary` admits the engine.
pub open spec fn allowlist_admits_engine(p: JsonView) -> bool {
    match member_in(member_in(member(p, "perry"@), "allow"@), "nativeLibrary"@) {
        Some(JsonView::Array(items)) => exists|i: int|
            0 <= i < items.len() && (#[trigger] items[i] matches JsonView::Str(s) && is_engine_pattern(s)),
        _ => false,
    }
}

/// A package.json of a BornEngine game: it depends on the engine, or its Perry
/// settings name the engine as a native library.
pub open spec fn is_engine_project(p: JsonView) -> bool {
    ||| section_lists_engine(p, 0)
    ||| section_lists_engine(p, 1)
    ||| section_lists_engine(p, 2)
    ||| native_module_is_engine(p)
    ||| allowlist_admits_engine(p)
}

fn path_member<'a>(v: &'a JsonValue, first: &str, second: &str, third: &str) -> (r: Option<
    &'a JsonValue,
>)
    ensures
        r matches Some(x) ==> member_in(member_in(member(v@, first@), second@), third@) == Some(
            x@,
        ),
        r is None ==> member_in(member_in(member(v@, first@), second@), third@) is None,
{
    match v.get(first) {
        None => None,
        Some(a) => match a.get(second) {
            None => None,
            Some(b) => b.get(third),
        },
    }
}

fn section_has_engine(package: &JsonValue, k: usize) -> (r: bool)
    requires
        k < 3,
    ensures
        r == section_lists_engine(package@, k as int),
{
    let name = if k == 0 {
        "dependencies"
    } else if k == 1 {
        "devDependencies"
    } else {
        "optionalDependencies"
    };
    match package.get(name) {
        Some(section) => match section.as_object() {
            Some(es) => {
                proof {
                    lemma_entries_view_len(es@);
                }
                let ghost ev = entries_view(es@);
                let mut i: usize = 0;
                while i < es.len()
                    invariant
                        i <= es.len(),
                        ev == entries_view(es@),
                        ev.len() == es@.len(),
                        member(package@, section_name(k as int)) == Some(JsonView::Object(ev)),
                        forall|j: int| 0 <= j < i ==> !engine_package_name(#[trigger] ev[j].0),
                    decreases es.len() - i,
                {
                    proof {
                        lemma_entries_view_index(es@, i as int);
                    }
                    if is_engine_package(es[i].0.as_str()) {
                        assert(engine_package_name(ev[i as int].0));
                        assert(lists_engine(ev));
                        return true;
                    }
                    i = i + 1;
                }
                false
            },
            None => false,
        },
        None => false,
    }
}

/// Whether a package.json belongs to a BornEngine game.
pub fn is_bornengine_project(package: &JsonValue) -> (r: bool)
    ensures
        r == is_engine_project(package@),
{
    let dependency_match = section_has_engine(package, 0) || section_has_engine(package, 1)
        || section_has_engine(package, 2);
    let native_module_match = match path_member(package, "perry", "nativeLibrary", "module") {
        Some(v) => match v.as_str() {
            Some(s) => is_engine_package(s.as_str()),
            None => false,
        },
        None => false,
    };
    let allowlist_match = match path_member(package, "perry", "allow", "nativeLibrary") {
        Some(v) => match v.as_array() {
            Some(items) => {
                proof {
                    lemma_items_view_len(items@);
                }
                let ghost iv = items_view(items@);
                let born = native_library_allow_pattern("@bornengine/engine");
                let legacy = native_library_allow_pattern("@bloomengine/engine");
                let mut found = false;
                let mut i: usize = 0;
                while i < items.len()
                    invariant
                        i <= items.len(),
                        iv == items_view(items@),
                        iv.len() == items@.len(),
                        born@ == allow_pattern(bornengine_package()),
                        legacy@ == allow_pattern(legacy_engine_package()),
                        found == exists|j: int|
                            0 <= j < i && (#[trigger] iv[j] matches JsonView::Str(s)
                                && is_engine_pattern(s)),
                    decreases items.len() - i,
                {
                    proof {
                        lemma_items_view_index(items@, i as int);
                    }
                    match items[i].as_str() {
                        Some(s) => {
                            if crate::text::str_equal(s.as_str(), born.as_str())
                                || crate::text::str_equal(s.as_str(), legacy.as_str()) {
                                found = true;
                            }
                        },
                        None => {},
                    }
                    i = i + 1;
                }
                found
            },
            None => false,
        },
        None => false,
    };
    dependency_match || native_module_match || allowlist_match
}

/// The `name` of a package.json when it is a string.
pub fn project_name(package: &JsonValue) -> (r: Option<String>)
    ensures
        r matches Some(n) ==> string_value(member(package@, "name"@)) == Some(n@),
        r is None ==> string_value(member(package@, "name"@)) is None,
{
    match package.get("name") {
        Some(v) => match v.as_str() {
            Some(s) => Some(crate::text::copy_string(s)),
            None => None,
        },
        None => None,
    }
}

// ---------------------------------------------------------------------------
// The files of a new project
// ---------------------------------------------------------------------------

/// The names of the files a new project holds, in the order they are written.
pub open spec fn generated_names() -> Seq<Seq<char>> {
    seq!["package.json"@, "main.ts"@, ".gitignore"@, "README.md"@]
}

/// The files a new project holds, in the order they are written.
pub fn generated_file_names() -> (r: Vec<&'static str>)
    ensures
        r@.len() == 4,
        forall|i: int| 0 <= i < 4 ==> #[trigger] r@[i]@ == generated_names()[i],
{
    let mut r: Vec<&'static str> = Vec::new();
    r.push("package.json");
    r.push("main.ts");
    r.push(".gitignore");
    r.push("README.md");
    r
}

/// The first of a new project's files that is among the names already in
/// the directory; `None` when writing the project overwrites nothing.
pub fn existing_generated_file(existing: &StringSet) -> (r: Option<&'static str>)
    ensures
        r matches Some(n) ==> exists|i: int|
            0 <= i < 4 && generated_names()[i] == n@ && existing.elems().contains(n@) && forall|
                j: int,
            |
                0 <= j < i ==> !existing.elems().contains(#[trigger] generated_names()[j]),
        r is None ==> forall|i: int|
            0 <= i < 4 ==> !existing.elems().contains(#[trigger] generated_names()[i]),
{
    let names = generated_file_names();
    let mut i: usize = 0;
    while i < names.len()
        invariant
            i <= names.len(),
            names@.len() == 4,
            forall|k: int| 0 <= k < 4 ==> #[trigger] names@[k]@ == generated_names()[k],
            forall|j: int| 0 <= j < i ==> !existing.elems().contains(#[trigger] generated_names()[j]),
        decreases names.len() - i,
    {
        if existing.contains(names[i]) {
            assert(generated_names()[i as int] == names@[i as int]@);
            return Some(names[i]);
        }
        i = i + 1;
    }
    None
}

/// The contents of a new project's files; package.json as a document.
#[derive(Debug)]
pub struct GeneratedProject {
    pub package: JsonValue,
    pub main_ts: String,
    pub gitignore: String,
    pub readme: String,
}

/// The package.json of a new project: its npm name, private, version 0.1.0,
/// the engine dependency, and Perry's allowlist admitting the engine.
pub open spec fn starter_package(name: Seq<char>, engine: Seq<char>, spec: Seq<char>) -> JsonView {
    JsonView::Object(
        seq![
            ("name"@, JsonView::Str(name)),
            ("private"@, JsonView::Bool(true)),
            ("version"@, JsonView::Str("0.1.0"@)),
            ("dependencies"@, JsonView::Object(seq![(engine, JsonView::Str(spec))])),
            (
                "perry"@,
                JsonView::Object(
                    seq![
                        (
                            "allow"@,
                            JsonView::Object(
                                seq![
                                    (
                                        "nativeLibrary"@,
                                        JsonView::Array(seq![JsonView::Str(allow_pattern(engine))]),
                                    ),
                                ],
                            ),
                        ),
                    ],
                ),
            ),
        ],
    )
}

pub open spec fn perry_view(engine: Seq<char>) -> JsonView {
    JsonView::Object(
        seq![
            (
                "allow"@,
                JsonView::Object(
                    seq![
                        ("nativeLibrary"@, JsonView::Array(seq![JsonView::Str(allow_pattern(engine))])),
                    ],
                ),
            ),
        ],
    )
}

pub open spec fn starter_main(engine: Seq<char>) -> Seq<char> {
    "import { initWindow, runGame, clearBackground, setTargetFPS, setDirect2DMode } from \""@
        + engine + "/"@ + "core"@
        + "\";\nimport { drawRect } from \""@ + engine + "/"@ + "shapes"@
        + "\";\n\ninitWindow(800, 450, \"BornEngine Game\");\nsetTargetFPS(60);\nsetDirect2DMode(true);\n\nrunGame(() => {\n  clearBackground({ r: 22, g: 26, b: 36, a: 255 });\n  drawRect(300, 160, 200, 130, { r: 72, g: 156, b: 220, a: 255 });\n});\n"@
}

pub open spec fn starter_gitignore() -> Seq<char> {
    "node_modules/\n.perry-cache/\n.perry-dev/\n.bornengine/\ntarget/\ndist/\n"@
}

pub open spec fn starter_readme(title: Seq<char>) -> Seq<char> {
    "# "@ + title
        + "\n\nA small game made with BornEngine and Perry.\n\n## Run\n\n```sh\nbornengine run main.ts\n```\n\n## Build\n\n```sh\nbornengine build main.ts --os linux\nbornengine build main.ts --os windows\n```\n"@
}

fn single_member(key: &str, value: JsonValue) -> (r: JsonValue)
    ensures
        r@ == JsonView::Object(seq![(key@, json_view(value))]),
{
    let mut es: Vec<(String, JsonValue)> = Vec::new();
    assert(entries_view(es@) =~= Seq::<(Seq<char>, JsonView)>::empty());
    push_member(&mut es, key, value);
    let r = JsonValue::Object(es);
    assert(entries_view(es@) =~= seq![(key@, json_view(value))]);
    r
}

/// The contents of a new project's files.
pub fn generated_files(project_title: &str, package_name: &str, spec: &ProjectSpec) -> (r:
    GeneratedProject)
    ensures
        r.package@ == starter_package(package_name@, spec.engine_package@, spec.engine_spec@),
        r.main_ts@ == starter_main(spec.engine_package@),
        r.gitignore@ == starter_gitignore(),
        r.readme@ == starter_readme(project_title@),
{
    let engine = spec.engine_package.as_str();
    let dependencies = single_member(
        engine,
        JsonValue::Str(crate::text::copy_string(&spec.engine_spec)),
    );
    let mut patterns: Vec<JsonValue> = Vec::new();
    let pattern = JsonValue::Str(native_library_allow_pattern(engine));
    let ghost pv = pattern@;
    patterns.push(pattern);
    proof {
        lemma_items_view_push(Seq::empty(), pattern);
        assert(Seq::<JsonValue>::empty().push(pattern) =~= patterns@);
        assert(items_view(Seq::<JsonValue>::empty()) =~= Seq::<JsonView>::empty());
        assert(items_view(patterns@) =~= seq![pv]);
    }
    let ghost ev = spec.engine_package@;
    assert(pv == JsonView::Str(allow_pattern(ev)));
    let array = JsonValue::Array(patterns);
    assert(array@ == JsonView::Array(seq![JsonView::Str(allow_pattern(ev))]));
    let allow = single_member("nativeLibrary", array);
    let perry = single_member("allow", allow);
    let mut members: Vec<(String, JsonValue)> = Vec::new();
    assert(entries_view(members@) =~= Seq::<(Seq<char>, JsonView)>::empty());
    push_member(&mut members, "name", JsonValue::Str(crate::text::string_from(package_name)));
    push_member(&mut members, "private", JsonValue::Bool(true));
    push_member(&mut members, "version", JsonValue::Str(crate::text::string_from("0.1.0")));
    push_member(&mut members, "dependencies", dependencies);
    push_member(&mut members, "perry", perry);
    let ghost mv = entries_view(members@);
    let package = JsonValue::Object(members);
    assert(mv =~= seq![
        ("name"@, JsonView::Str(package_name@)),
        ("private"@, JsonView::Bool(true)),
        ("version"@, JsonView::Str("0.1.0"@)),
        ("dependencies"@, JsonView::Object(seq![(ev, JsonView::Str(spec.engine_spec@))])),
        ("perry"@, perry_view(ev)),
    ]);
    assert(package@ == JsonView::Object(mv));
    let core = engine_subpath(engine, "core");
    let shapes = engine_subpath(engine, "shapes");
    let mut main_ts = crate::text::string_from(
        "import { initWindow, runGame, clearBackground, setTargetFPS, setDirect2DMode } from \"",
    );
    crate::text::append_str(&mut main_ts, core.as_str());
    crate::text::append_str(&mut main_ts, "\";\nimport { drawRect } from \"");
    crate::text::append_str(&mut main_ts, shapes.as_str());
    crate::text::append_str(
        &mut main_ts,
        "\";\n\ninitWindow(800, 450, \"BornEngine Game\");\nsetTargetFPS(60);\nsetDirect2DMode(true);\n\nrunGame(() => {\n  clearBackground({ r: 22, g: 26, b: 36, a: 255 });\n  drawRect(300, 160, 200, 130, { r: 72, g: 156, b: 220, a: 255 });\n});\n",
    );
    let gitignore = crate::text::string_from(
        "node_modules/\n.perry-cache/\n.perry-dev/\n.bornengine/\ntarget/\ndist/\n",
    );
    let mut readme = crate::text::string_from("# ");
    crate::text::append_str(&mut readme, project_title);
    crate::text::append_str(
        &mut readme,
        "\n\nA small game made with BornEngine and Perry.\n\n## Run\n\n```sh\nbornengine run main.ts\n```\n\n## Build\n\n```sh\nbornengine build main.ts --os linux\nbornengine build main.ts --os windows\n```\n",
    );
    GeneratedProject { package, main_ts, gitignore, readme }
}

/// The files of a new project named `project_name`, after checking the name
/// and the engine dependency.
pub fn project_files(project_name: &str, spec: &ProjectSpec) -> (r: Result<
    GeneratedProject,
    CliError,
>)
    ensures
        r matches Ok(g) ==> valid_project_name(project_name@) && engine_package_name(
            spec.engine_package@,
        ) && !spec_is_blank(spec.engine_spec@) && npm_name_ok(npm_name_candidate(project_name@))
            && g.package@ == starter_package(
            npm_name_candidate(project_name@),
            spec.engine_package@,
            spec.engine_spec@,
        ) && g.main_ts@ == starter_main(spec.engine_package@) && g.readme@ == starter_readme(
            project_name@,
        ) && g.gitignore@ == starter_gitignore(),
        r is Err ==> !valid_project_name(project_name@) || !engine_package_name(
            spec.engine_package@,
        ) || spec_is_blank(spec.engine_spec@) || !npm_name_ok(npm_name_candidate(project_name@)),
{
    validate_project_name(project_name)?;
    validate_spec(spec)?;
    let package_name = npm_project_name(project_name)?;
    Ok(generated_files(project_name, package_name.as_str(), spec))
}

/// A name accepted as a project name is one plain path component, so the
/// project directory it names lies directly inside its parent directory.
pub proof fn lemma_valid_name_is_one_component(n: Seq<char>)
    requires
        valid_project_name(n),
    ensures
        path_components(n) == seq![ComponentView::Normal(n)],
{
    assert(forall|j: int| 0 <= j < n.len() ==> n[j] != '/') by {
        assert forall|j: int| 0 <= j < n.len() implies n[j] != '/' by {
            assert(!forbidden_name_char(n[j]));
        }
    }
    lemma_split_without_separator(n, '/');
    let parts = split_char(n, '/');
    assert(!is_rooted(n));
    assert(parts[0] == n);
    assert(parts.drop_last() =~= Seq::<Seq<char>>::empty());
    assert(part_components(Seq::<Seq<char>>::empty()) =~= Seq::<ComponentView>::empty());
    assert(parts.last() == n);
    assert(part_components(parts) =~= seq![ComponentView::Normal(n)]);
}

/// The package.json of a new project is recognized as a BornEngine project,
/// and the engine dependency read from it is the one it was made with.
pub proof fn lemma_generated_package_declares_engine(
    name: Seq<char>,
    engine: Seq<char>,
    spec: Seq<char>,
)
    requires
        engine_package_name(engine),
    ensures
        is_engine_project(starter_package(name, engine, spec)),
        declared_engine(starter_package(name, engine, spec)) == Ok::<
            Option<(Seq<char>, Seq<char>)>,
            ErrorView,
        >(Some((engine, spec))),
{
    reveal_strlit("name");
    reveal_strlit("private");
    reveal_strlit("version");
    reveal_strlit("dependencies");
    let p = starter_package(name, engine, spec);
    let es = match p {
        JsonView::Object(es) => es,
        _ => Seq::empty(),
    };
    let key = section_name(0);
    assert(es[3].0 == key);
    assert(key_index_from(es, key, 3) == Some(3int));
    assert(es[2].0 != key) by {
        assert(es[2].0.len() != key.len());
    }
    assert(key_index_from(es, key, 2) == Some(3int));
    assert(es[1].0 != key) by {
        assert(es[1].0.len() != key.len());
    }
    assert(key_index_from(es, key, 1) == Some(3int));
    assert(es[0].0 != key) by {
        assert(es[0].0.len() != key.len());
    }
    assert(key_index_from(es, key, 0) == Some(3int));
    let deps = seq![(engine, JsonView::Str(spec))];
    assert(member(p, key) == Some(JsonView::Object(deps)));
    assert(engine_entry_from(deps, 0) == Some(0int));
    assert(lists_engine(deps)) by {
        assert(engine_package_name(deps[0].0));
    }
    assert(section_lists_engine(p, 0));
}

/// Reads the text of a package.json found at `location`.
pub fn read_package_json(location: &str, contents: &str) -> (r: Result<JsonValue, CliError>)
    ensures
        r matches Ok(v) ==> json_text_parse(contents@) == Some(v@),
        r matches Err(e) ==> json_text_parse(contents@) is None && e@ == subject_error(
            ErrorKind::InvalidJson,
            location@,
        ),
{
    crate::json::read_json_document(location, contents)
}

/// The text written for a package.json (to be stored at `location`): the
/// document as `serde_json` writes it pretty-printed, and a final line break.
pub fn package_json_text(location: &str, package: &JsonValue) -> (r: Result<String, CliError>)
    ensures
        r matches Ok(s) ==> json_text_render(package@) matches Some(t) && s@ == t + seq!['\n'],
        r matches Err(e) ==> json_text_render(package@) is None && e@ == subject_error(
            ErrorKind::UnwritableJson,
            location@,
        ),
{
    match render_json_text(package) {
        Some(mut text) => {
            push_char(&mut text, '\n');
            Ok(text)
        },
        None => Err(CliError::about(ErrorKind::UnwritableJson, location)),
    }
}

} // verus!
