//! Where builds go and which files the tool records as its own: the rules
//! behind `.bornengine/builds/`, `.perry-dev/` and the build manifest.
use crate::error::{plain_error, subject_error, CliError, ErrorKind, ErrorView};
use crate::paths::{
    components, components_view, is_rooted, part_components, path_components, Component,
    ComponentView,
};
use crate::string_set::{strictly_sorted, string_views, StringSet};
use crate::text::{
    append_str, ascii_alnum, chars_equal, chars_of, copy_string, ends_with, has_suffix,
    is_ascii_alnum, join, join_strings, lemma_join_front, lemma_split_join, lower_chars, lower_seq, skip_class,
    skip_class_exec, split_char, str_equal, string_from, CharClass,
};
use crate::versions::{decimal, decimal_text};
use vstd::prelude::*;

verus! {

/// A build's own directory and the file Perry writes into it.
#[derive(Clone, Debug, PartialEq, Eq)]
pub struct BuildArtifact {
    pub directory: String,
    pub output: String,
}

pub open spec fn manifest_format() -> Seq<char> {
    "bornengine-build-manifest-v1"@
}

/// The record of the files that builds created, relative to the project.
#[derive(Clone, Debug, PartialEq, Eq)]
pub struct BuildManifest {
    pub format: String,
    pub files: Vec<String>,
}

impl Default for BuildManifest {
    fn default() -> (m: BuildManifest)
        ensures
            m.format@ == manifest_format(),
            m.files@.len() == 0,
    {
        BuildManifest { format: string_from("bornengine-build-manifest-v1"), files: Vec::new() }
    }
}

// ---------------------------------------------------------------------------
// Names of build directories and files
// ---------------------------------------------------------------------------

pub open spec fn segment_char(c: char) -> bool {
    is_ascii_alnum(c) || c == '-' || c == '_' || c == '.'
}

/// A name usable as one directory or file name: not empty, not `.` or `..`,
/// of ASCII letters, digits, `-`, `_` and `.` only.
pub open spec fn simple_name(v: Seq<char>) -> bool {
    &&& v.len() > 0
    &&& v != "."@
    &&& v != ".."@
    &&& forall|i: int| 0 <= i < v.len() ==> segment_char(#[trigger] v[i])
}

pub fn is_simple_name(value: &str) -> (r: bool)
    ensures
        r == simple_name(value@),
{
    let v = chars_of(value);
    if v.len() == 0 || chars_equal(v.as_slice(), chars_of(".").as_slice()) || chars_equal(
        v.as_slice(),
        chars_of("..").as_slice(),
    ) {
        return false;
    }
    let mut i: usize = 0;
    while i < v.len()
        invariant
            i <= v.len(),
            v@ == value@,
            forall|j: int| 0 <= j < i ==> segment_char(#[trigger] v@[j]),
        decreases v.len() - i,
    {
        let c = v[i];
        if !(ascii_alnum(c) || c == '-' || c == '_' || c == '.') {
            assert(!segment_char(v@[i as int]));
            return false;
        }
        i = i + 1;
    }
    true
}

/// Checks that a target or output name is one simple file or directory name.
pub fn validate_segment(value: &str, label: &str) -> (r: Result<String, CliError>)
    ensures
        r matches Ok(s) ==> simple_name(value@) && s@ == value@,
        r matches Err(e) ==> !simple_name(value@) && e@ == subject_error(
            ErrorKind::InvalidSegment,
            label@,
        ),
{
    if !is_simple_name(value) {
        return Err(CliError::about(ErrorKind::InvalidSegment, label));
    }
    Ok(string_from(value))
}

/// The file name of a build's output: the name, with `.extension` appended
/// unless it already ends so (ignoring ASCII case; leading dots of the
/// extension are not part of it).
pub open spec fn output_file(name: Seq<char>, extension: Option<Seq<char>>) -> Seq<char> {
    match extension {
        None => name,
        Some(e) => {
            let ext = skip_class(e, CharClass::Dot);
            let suffix = "."@ + ext;
            if has_suffix(lower_seq(name), lower_seq(suffix)) {
                name
            } else {
                name + suffix
            }
        },
    }
}

pub fn output_file_name(name: &str, extension: Option<&str>) -> (r: String)
    ensures
        r@ == output_file(name@, crate::engine::opt_str_view(extension)),
{
    let mut out = string_from(name);
    match extension {
        None => {},
        Some(e) => {
            let ext = skip_class_exec(chars_of(e).as_slice(), CharClass::Dot);
            let mut suffix: Vec<char> = Vec::new();
            suffix.push('.');
            let mut i: usize = 0;
            while i < ext.len()
                invariant
                    i <= ext.len(),
                    suffix@ == seq!['.'] + ext@.take(i as int),
                decreases ext.len() - i,
            {
                suffix.push(ext[i]);
                i = i + 1;
                assert(suffix@ =~= seq!['.'] + ext@.take(i as int));
            }
            assert(ext@.take(ext.len() as int) =~= ext@);
            proof {
                reveal_strlit(".");
            }
            assert(suffix@ =~= "."@ + ext@);
            let lowered = lower_chars(chars_of(name).as_slice());
            let lowered_suffix = lower_chars(suffix.as_slice());
            if !ends_with(lowered.as_slice(), lowered_suffix.as_slice()) {
                crate::text::append_chars(&mut out, suffix.as_slice());
            }
        },
    }
    out
}

/// The name of a build's own directory: the time stamp, the process number
/// and the attempt, in decimal, separated by `-`.
pub open spec fn build_directory_text(timestamp: u128, pid: u32, attempt: u32) -> Seq<char> {
    decimal(timestamp as nat) + "-"@ + decimal(pid as nat) + "-"@ + decimal(attempt as nat)
}

pub fn build_directory_name(timestamp: u128, pid: u32, attempt: u32) -> (r: String)
    ensures
        r@ == build_directory_text(timestamp, pid, attempt),
{
    let mut s = decimal_text(timestamp);
    append_str(&mut s, "-");
    append_str(&mut s, decimal_text(pid as u128).as_str());
    append_str(&mut s, "-");
    append_str(&mut s, decimal_text(attempt as u128).as_str());
    s
}

/// The directories of a build (below the project, outermost first) and its
/// output file name.
#[derive(Clone, Debug, PartialEq, Eq)]
pub struct BuildPlan {
    pub directories: Vec<String>,
    pub file_name: String,
}

/// Plans a build under `.bornengine/builds/<target>/<name>/`.
pub fn plan_build(target: &str, name: &str, extension: Option<&str>) -> (r: Result<
    BuildPlan,
    CliError,
>)
    ensures
        r matches Ok(p) ==> simple_name(target@) && simple_name(name@) && string_views(
            p.directories@,
        ) == seq![".bornengine"@, "builds"@, target@, name@] && p.file_name@ == output_file(
            name@,
            crate::engine::opt_str_view(extension),
        ),
        r matches Err(e) ==> (if !simple_name(target@) {
            e@ == subject_error(ErrorKind::InvalidSegment, "target"@)
        } else {
            !simple_name(name@) && e@ == subject_error(ErrorKind::InvalidSegment, "output name"@)
        }),
{
    let target = validate_segment(target, "target")?;
    let name_checked = validate_segment(name, "output name")?;
    let mut directories: Vec<String> = Vec::new();
    directories.push(string_from(".bornengine"));
    directories.push(string_from("builds"));
    directories.push(target);
    directories.push(copy_string(&name_checked));
    assert(string_views(directories@) =~= seq![".bornengine"@, "builds"@, target@, name@]);
    Ok(BuildPlan { directories, file_name: output_file_name(name, extension) })
}

/// Plans a watch-mode build under `.perry-dev/<name>/`.
pub fn plan_dev_build(name: &str, extension: Option<&str>) -> (r: Result<BuildPlan, CliError>)
    ensures
        r matches Ok(p) ==> simple_name(name@) && string_views(p.directories@) == seq![
            ".perry-dev"@,
            name@,
        ] && p.file_name@ == output_file(name@, crate::engine::opt_str_view(extension)),
        r matches Err(e) ==> !simple_name(name@) && e@ == subject_error(
            ErrorKind::InvalidSegment,
            "output name"@,
        ),
{
    let name_checked = validate_segment(name, "output name")?;
    let mut directories: Vec<String> = Vec::new();
    directories.push(string_from(".perry-dev"));
    directories.push(name_checked);
    assert(string_views(directories@) =~= seq![".perry-dev"@, name@]);
    Ok(BuildPlan { directories, file_name: output_file_name(name, extension) })
}

// ---------------------------------------------------------------------------
// Paths recorded in the manifest
// ---------------------------------------------------------------------------

pub open spec fn all_normal(cs: Seq<ComponentView>) -> bool {
    forall|i: int| 0 <= i < cs.len() ==> #[trigger] cs[i] is Normal
}

/// A relative path of normal components only: no root, `.` or `..`.
pub open spec fn safe_relative_path(p: Seq<char>) -> bool {
    p.len() > 0 && !crate::paths::is_rooted(p) && all_normal(path_components(p))
}

pub fn validate_relative_path(path: &str) -> (r: Result<(), CliError>)
    ensures
        r is Ok <==> safe_relative_path(path@),
        r matches Err(e) ==> e@ == subject_error(ErrorKind::UnsafeManifestPath, path@),
{
    let p = chars_of(path);
    let cs = components(path);
    let mut all = true;
    let mut i: usize = 0;
    while i < cs.len()
        invariant
            i <= cs.len(),
            all == forall|j: int| 0 <= j < i ==> #[trigger] components_view(cs@)[j] is Normal,
        decreases cs.len() - i,
    {
        assert(components_view(cs@)[i as int] == cs@[i as int]@);
        match &cs[i] {
            Component::Normal(_) => {},
            _ => {
                all = false;
            },
        }
        i = i + 1;
    }
    if p.len() == 0 || p[0] == '/' || !all {
        return Err(CliError::about(ErrorKind::UnsafeManifestPath, path));
    }
    Ok(())
}

/// The names of a path's normal components.
pub open spec fn normal_names(cs: Seq<ComponentView>) -> Seq<Seq<char>>
    decreases cs.len(),
{
    if cs.len() == 0 {
        Seq::empty()
    } else {
        match cs.last() {
            ComponentView::Normal(n) => normal_names(cs.drop_last()).push(n),
            _ => normal_names(cs.drop_last()),
        }
    }
}

/// A path inside `.bornengine/builds/<target>/` or `.perry-dev/`.
pub open spec fn managed_path(p: Seq<char>) -> bool {
    let ns = normal_names(path_components(p));
    ||| ns.len() >= 3 && ns[0] == ".bornengine"@ && ns[1] == "builds"@
    ||| ns.len() >= 2 && ns[0] == ".perry-dev"@
}

fn normal_name_list(path: &str) -> (r: Vec<String>)
    ensures
        string_views(r@) == normal_names(path_components(path@)),
{
    let cs = components(path);
    let ghost cv = components_view(cs@);
    let mut out: Vec<String> = Vec::new();
    let mut i: usize = 0;
    while i < cs.len()
        invariant
            i <= cs.len(),
            cv == components_view(cs@),
            string_views(out@) == normal_names(cv.take(i as int)),
        decreases cs.len() - i,
    {
        assert(cv[i as int] == cs@[i as int]@);
        assert(cv.take(i + 1).drop_last() =~= cv.take(i as int));
        let ghost before = out@;
        match &cs[i] {
            Component::Normal(n) => {
                let c = copy_string(n);
                let ghost cv2 = c@;
                out.push(c);
                assert(string_views(out@) =~= string_views(before).push(cv2));
            },
            _ => {},
        }
        i = i + 1;
    }
    assert(cv.take(cs.len() as int) =~= cv);
    out
}

pub fn validate_managed_project_path(path: &str) -> (r: Result<(), CliError>)
    ensures
        r is Ok <==> managed_path(path@),
        r matches Err(e) ==> e@ == subject_error(ErrorKind::OutsideManagedArea, path@),
{
    let names = normal_name_list(path);
    let ghost ns = string_views(names@);
    let builds_area = names.len() >= 3 && str_equal(names[0].as_str(), ".bornengine") && str_equal(
        names[1].as_str(),
        "builds",
    );
    let dev_area = names.len() >= 2 && str_equal(names[0].as_str(), ".perry-dev");
    proof {
        if names.len() >= 2 {
            assert(ns[0] == names@[0]@ && ns[1] == names@[1]@);
        }
    }
    if !builds_area && !dev_area {
        return Err(CliError::about(ErrorKind::OutsideManagedArea, path));
    }
    Ok(())
}

/// The directory a recorded file belongs to, which cleaning never removes.
#[derive(Clone, Copy, Debug, PartialEq, Eq, Structural)]
pub enum ManagedArea {
    /// `.perry-dev`
    PerryDev,
    /// `.bornengine/builds`
    Builds,
}

pub open spec fn area_of(p: Seq<char>) -> Option<ManagedArea> {
    let cs = path_components(p);
    if cs.len() > 0 && cs[0] == ComponentView::Normal(".perry-dev"@) {
        Some(ManagedArea::PerryDev)
    } else if cs.len() > 0 && cs[0] == ComponentView::Normal(".bornengine"@) {
        Some(ManagedArea::Builds)
    } else {
        None
    }
}

pub fn managed_area_root(relative: &str) -> (r: Result<ManagedArea, CliError>)
    ensures
        r matches Ok(a) ==> area_of(relative@) == Some(a),
        r matches Err(e) ==> area_of(relative@) is None && e@ == plain_error(
            ErrorKind::OutsideManagedRoot,
        ),
{
    let cs = components(relative);
    if cs.len() > 0 {
        assert(components_view(cs@)[0] == cs@[0]@);
        match &cs[0] {
            Component::Normal(n) => {
                if str_equal(n.as_str(), ".perry-dev") {
                    return Ok(ManagedArea::PerryDev);
                }
                if str_equal(n.as_str(), ".bornengine") {
                    return Ok(ManagedArea::Builds);
                }
            },
            _ => {},
        }
    }
    Err(CliError::new(ErrorKind::OutsideManagedRoot))
}

// ---------------------------------------------------------------------------
// Cleaning recorded files
// ---------------------------------------------------------------------------

/// What the file system holds at a recorded path.
#[derive(Clone, Copy, Debug, PartialEq, Eq, Structural)]
pub enum EntryKind {
    File,
    Symlink,
    Directory,
    Other,
    Missing,
}

/// What cleaning does with a recorded path.
#[derive(Clone, Copy, Debug, PartialEq, Eq, Structural)]
pub enum CleanAction {
    /// Remove the file or link.
    Remove,
    /// Stop: a recorded path holds something that is not a file.
    Refuse,
    /// Nothing is there any more.
    Skip,
}

/// Files and links are removed, a missing entry is skipped, anything else is
/// refused.
pub open spec fn action_for(kind: EntryKind) -> CleanAction {
    match kind {
        EntryKind::File | EntryKind::Symlink => CleanAction::Remove,
        EntryKind::Missing => CleanAction::Skip,
        EntryKind::Directory | EntryKind::Other => CleanAction::Refuse,
    }
}

pub fn clean_action(kind: EntryKind) -> (a: CleanAction)
    ensures
        a == action_for(kind),
{
    match kind {
        EntryKind::File | EntryKind::Symlink => CleanAction::Remove,
        EntryKind::Missing => CleanAction::Skip,
        EntryKind::Directory | EntryKind::Other => CleanAction::Refuse,
    }
}

/// How many components down the project the root of a managed area lies:
/// `.perry-dev` one, `.bornengine/builds` two.
pub open spec fn area_depth(a: ManagedArea) -> int {
    match a {
        ManagedArea::PerryDev => 1,
        ManagedArea::Builds => 2,
    }
}

/// The directories that may be removed once the file at `relative` is gone:
/// its proper ancestors strictly below its managed area's root, nearest
/// first, each as its `/`-joined relative path; none outside the areas.
pub open spec fn prune_list(relative: Seq<char>) -> Option<Seq<Seq<char>>> {
    match area_of(relative) {
        None => None,
        Some(a) => {
            let ns = normal_names(path_components(relative));
            let n = ns.len() - 1 - area_depth(a);
            Some(
                Seq::new(
                    (if n > 0 {
                        n
                    } else {
                        0
                    }) as nat,
                    |i: int| join(ns.take(ns.len() - 1 - i), "/"@),
                ),
            )
        },
    }
}

fn prefix_strings(items: &Vec<String>, k: usize) -> (r: Vec<String>)
    requires
        k <= items.len(),
    ensures
        string_views(r@) == string_views(items@).take(k as int),
{
    let mut r: Vec<String> = Vec::new();
    let mut i: usize = 0;
    while i < k
        invariant
            i <= k <= items.len(),
            string_views(r@) == string_views(items@).take(i as int),
        decreases k - i,
    {
        let c = copy_string(&items[i]);
        let ghost before = r@;
        r.push(c);
        assert(string_views(r@) =~= string_views(before).push(c@));
        i = i + 1;
        assert(string_views(items@).take(i as int) =~= string_views(items@).take(i - 1).push(
            items@[i - 1]@,
        ));
    }
    r
}

/// The directories to try to remove after removing the file at `relative`,
/// nearest first; the area's root and what lies above it are never among
/// them.
pub fn directories_to_prune(relative: &str) -> (r: Result<Vec<String>, CliError>)
    ensures
        r matches Ok(ds) ==> prune_list(relative@) == Some(string_views(ds@)),
        r matches Err(e) ==> prune_list(relative@) is None && e@ == plain_error(
            ErrorKind::OutsideManagedRoot,
        ),
{
    let area = managed_area_root(relative)?;
    let depth: usize = match area {
        ManagedArea::PerryDev => 1,
        ManagedArea::Builds => 2,
    };
    let names = normal_name_list(relative);
    let ghost ns = string_views(names@);
    let ghost n = ns.len() - 1 - area_depth(area);
    let ghost count: int = if n > 0 {
        n
    } else {
        0
    };
    let mut out: Vec<String> = Vec::new();
    if names.len() > depth + 1 {
        let mut k: usize = names.len() - 1;
        while k > depth
            invariant
                depth < names.len(),
                depth as int == area_depth(area),
                k <= names.len() - 1,
                k >= depth,
                ns == string_views(names@),
                string_views(out@) == Seq::new(
                    (names.len() - 1 - k) as nat,
                    |i: int| join(ns.take(ns.len() - 1 - i), "/"@),
                ),
            decreases k,
        {
            let prefix = prefix_strings(&names, k);
            let joined = join_strings(&prefix, "/");
            let ghost before = out@;
            out.push(joined);
            assert(string_views(out@) =~= Seq::new(
                (names.len() - k) as nat,
                |i: int| join(ns.take(ns.len() - 1 - i), "/"@),
            )) by {
                assert(string_views(out@) =~= string_views(before).push(joined@));
                assert(joined@ == join(ns.take(k as int), "/"@));
            }
            k = k - 1;
        }
        assert(string_views(out@) =~= Seq::new(
            count as nat,
            |i: int| join(ns.take(ns.len() - 1 - i), "/"@),
        ));
    } else {
        assert(string_views(out@) =~= Seq::new(
            count as nat,
            |i: int| join(ns.take(ns.len() - 1 - i), "/"@),
        ));
    }
    Ok(out)
}

/// One step of cleaning: what to do with the recorded path `relative`, which
/// holds an entry of `kind`, how many files are removed once it is done, and
/// the directories to try to remove after it.
#[derive(Debug)]
pub struct CleanStep {
    pub action: CleanAction,
    pub removed: usize,
    pub prune: Vec<String>,
}

pub fn clean_step(removed: usize, relative: &str, kind: EntryKind) -> (r: Result<
    CleanStep,
    CliError,
>)
    requires
        removed < usize::MAX,
    ensures
        r is Err <==> action_for(kind) == CleanAction::Remove && prune_list(relative@) is None,
        r matches Err(e) ==> e@ == plain_error(ErrorKind::OutsideManagedRoot),
        r matches Ok(st) ==> {
            &&& st.action == action_for(kind)
            &&& st.removed == removed + (if st.action == CleanAction::Remove {
                1int
            } else {
                0int
            })
            &&& st.action == CleanAction::Remove ==> prune_list(relative@) == Some(
                string_views(st.prune@),
            )
            &&& st.action != CleanAction::Remove ==> st.prune@.len() == 0
        },
{
    let action = clean_action(kind);
    match action {
        CleanAction::Remove => {
            let prune = directories_to_prune(relative)?;
            Ok(CleanStep { action, removed: removed + 1, prune })
        },
        _ => Ok(CleanStep { action, removed, prune: Vec::new() }),
    }
}

/// The first problem with the recorded paths from index `i` on: an unsafe
/// path, or one outside the managed areas.
pub open spec fn entries_check(files: Seq<Seq<char>>, i: int) -> Result<(), ErrorView>
    decreases files.len() - i,
{
    if i < 0 || i >= files.len() {
        Ok(())
    } else if !safe_relative_path(files[i]) {
        Err(subject_error(ErrorKind::UnsafeManifestPath, files[i]))
    } else if !managed_path(files[i]) {
        Err(subject_error(ErrorKind::OutsideManagedArea, files[i]))
    } else {
        entries_check(files, i + 1)
    }
}

/// A manifest whose paths pass the check names only files inside the managed
/// build areas, by relative paths that cannot leave the project: cleaning it
/// touches nothing else.
pub proof fn lemma_checked_entries_are_managed(files: Seq<Seq<char>>, i: int)
    requires
        0 <= i,
        entries_check(files, i) == Ok::<(), ErrorView>(()),
    ensures
        forall|j: int|
            i <= j < files.len() ==> safe_relative_path(#[trigger] files[j]) && managed_path(
                files[j],
            ),
    decreases files.len() - i,
{
    if i < files.len() {
        lemma_checked_entries_are_managed(files, i + 1);
    }
}

/// One plain component of a relative path: not empty, not `.` or `..`, and
/// without `/`.
pub open spec fn plain_component(s: Seq<char>) -> bool {
    &&& s.len() > 0
    &&& s != "."@
    &&& s != ".."@
    &&& forall|j: int| 0 <= j < s.len() ==> s[j] != '/'
}

pub open spec fn as_normal(parts: Seq<Seq<char>>) -> Seq<ComponentView> {
    parts.map_values(|p: Seq<char>| ComponentView::Normal(p))
}

proof fn lemma_plain_part_components(parts: Seq<Seq<char>>)
    requires
        forall|i: int| 0 <= i < parts.len() ==> plain_component(#[trigger] parts[i]),
    ensures
        part_components(parts) == as_normal(parts),
    decreases parts.len(),
{
    if parts.len() > 0 {
        lemma_plain_part_components(parts.drop_last());
        assert(plain_component(parts[parts.len() - 1]));
        assert(as_normal(parts) =~= as_normal(parts.drop_last()).push(
            ComponentView::Normal(parts.last()),
        ));
    } else {
        assert(as_normal(parts) =~= Seq::<ComponentView>::empty());
    }
}

proof fn lemma_normal_names_of_plain(parts: Seq<Seq<char>>)
    ensures
        normal_names(as_normal(parts)) == parts,
    decreases parts.len(),
{
    if parts.len() > 0 {
        lemma_normal_names_of_plain(parts.drop_last());
        assert(as_normal(parts).drop_last() =~= as_normal(parts.drop_last()));
        assert(parts.drop_last().push(parts.last()) =~= parts);
    } else {
        assert(normal_names(as_normal(parts)) =~= parts);
    }
}

proof fn lemma_join_starts_with_first(parts: Seq<Seq<char>>, sep: Seq<char>)
    requires
        parts.len() >= 1,
        parts[0].len() > 0,
    ensures
        join(parts, sep).len() > 0,
        join(parts, sep)[0] == parts[0][0],
{
    if parts.len() >= 2 {
        lemma_join_front(parts, sep);
    }
}

/// Plain components joined by `/` are read back as those components.
proof fn lemma_joined_path_components(parts: Seq<Seq<char>>)
    requires
        parts.len() >= 1,
        forall|i: int| 0 <= i < parts.len() ==> plain_component(#[trigger] parts[i]),
    ensures
        path_components(join(parts, "/"@)) == as_normal(parts),
{
    reveal_strlit("/");
    assert("/"@ =~= seq!['/']);
    assert forall|i: int, j: int|
        0 <= i < parts.len() && 0 <= j < parts[i].len() implies #[trigger] parts[i][j] != '/' by {
        assert(plain_component(parts[i]));
    }
    lemma_split_join(parts, '/');
    assert(plain_component(parts[0]));
    lemma_join_starts_with_first(parts, "/"@);
    assert(!is_rooted(join(parts, "/"@)));
    lemma_plain_part_components(parts);
}

proof fn lemma_simple_is_plain(s: Seq<char>)
    requires
        simple_name(s),
    ensures
        plain_component(s),
{
    assert forall|j: int| 0 <= j < s.len() implies s[j] != '/' by {
        assert(segment_char(s[j]));
    }
}

/// Every file a build records, below its build directory
/// `.bornengine/builds/<target>/<name>/`, is one that cleaning accepts: a
/// safe relative path inside a managed area.
pub proof fn lemma_build_files_are_cleanable(
    target: Seq<char>,
    name: Seq<char>,
    below: Seq<Seq<char>>,
)
    requires
        simple_name(target),
        simple_name(name),
        forall|i: int| 0 <= i < below.len() ==> plain_component(#[trigger] below[i]),
    ensures
        safe_relative_path(join(seq![".bornengine"@, "builds"@, target, name] + below, "/"@)),
        managed_path(join(seq![".bornengine"@, "builds"@, target, name] + below, "/"@)),
{
    reveal_strlit(".bornengine");
    reveal_strlit("builds");
    reveal_strlit(".");
    reveal_strlit("..");
    assert(plain_component(".bornengine"@)) by {
        assert(".bornengine"@.len() != "."@.len() && ".bornengine"@.len() != ".."@.len());
    }
    assert(plain_component("builds"@)) by {
        assert("builds"@.len() != "."@.len() && "builds"@.len() != ".."@.len());
    }
    lemma_simple_is_plain(target);
    lemma_simple_is_plain(name);
    let parts = seq![".bornengine"@, "builds"@, target, name] + below;
    assert forall|i: int| 0 <= i < parts.len() implies plain_component(#[trigger] parts[i]) by {
        if i >= 4 {
            assert(parts[i] == below[i - 4]);
        }
    }
    lemma_joined_path_components(parts);
    lemma_normal_names_of_plain(parts);
    let p = join(parts, "/"@);
    lemma_join_starts_with_first(parts, "/"@);
    assert(all_normal(path_components(p)));
}

/// Every file a watched build records, below its directory
/// `.perry-dev/<name>/`, is one that cleaning accepts.
pub proof fn lemma_dev_files_are_cleanable(name: Seq<char>, below: Seq<Seq<char>>)
    requires
        simple_name(name),
        forall|i: int| 0 <= i < below.len() ==> plain_component(#[trigger] below[i]),
    ensures
        safe_relative_path(join(seq![".perry-dev"@, name] + below, "/"@)),
        managed_path(join(seq![".perry-dev"@, name] + below, "/"@)),
{
    reveal_strlit(".perry-dev");
    reveal_strlit(".");
    reveal_strlit("..");
    assert(plain_component(".perry-dev"@)) by {
        assert(".perry-dev"@.len() != "."@.len() && ".perry-dev"@.len() != ".."@.len());
    }
    lemma_simple_is_plain(name);
    let parts = seq![".perry-dev"@, name] + below;
    assert forall|i: int| 0 <= i < parts.len() implies plain_component(#[trigger] parts[i]) by {
        if i >= 2 {
            assert(parts[i] == below[i - 2]);
        }
    }
    lemma_joined_path_components(parts);
    lemma_normal_names_of_plain(parts);
    let p = join(parts, "/"@);
    lemma_join_starts_with_first(parts, "/"@);
    assert(all_normal(path_components(p)));
}

/// Checks that every recorded path is a safe relative path inside a managed
/// area.
pub fn validate_manifest_paths(files: &Vec<String>) -> (r: Result<(), CliError>)
    ensures
        r is Ok ==> entries_check(string_views(files@), 0) == Ok::<(), ErrorView>(()),
        r matches Err(e) ==> entries_check(string_views(files@), 0) == Err::<(), ErrorView>(e@),
{
    let ghost fs = string_views(files@);
    let mut i: usize = 0;
    while i < files.len()
        invariant
            i <= files.len(),
            fs == string_views(files@),
            entries_check(fs, 0) == entries_check(fs, i as int),
        decreases files.len() - i,
    {
        assert(fs[i as int] == files@[i as int]@);
        validate_relative_path(files[i].as_str())?;
        validate_managed_project_path(files[i].as_str())?;
        i = i + 1;
    }
    Ok(())
}

/// Checks the format tag of a manifest read from `location`.
pub fn check_manifest_format(manifest: &BuildManifest, location: &str) -> (r: Result<
    (),
    CliError,
>)
    ensures
        r is Ok <==> manifest.format@ == manifest_format(),
        r matches Err(e) ==> e@ == subject_error(ErrorKind::UnrecognizedManifestFormat, location@),
{
    if !str_equal(manifest.format.as_str(), "bornengine-build-manifest-v1") {
        return Err(CliError::about(ErrorKind::UnrecognizedManifestFormat, location));
    }
    Ok(())
}

/// The recorded files after recording `added`: every file recorded before or
/// added, once each, in increasing order.
pub fn merge_recorded_files(recorded: &Vec<String>, added: &Vec<String>) -> (r: Vec<String>)
    ensures
        strictly_sorted(string_views(r@)),
        string_views(r@).to_set() == string_views(recorded@).to_set().union(
            string_views(added@).to_set(),
        ),
{
    let mut set = StringSet::new();
    let ghost a = string_views(recorded@);
    let ghost b = string_views(added@);
    assert(set.elems().to_set() =~= a.take(0).to_set());
    let mut i: usize = 0;
    while i < recorded.len()
        invariant
            i <= recorded.len(),
            a == string_views(recorded@),
            set.elems().to_set() == a.take(i as int).to_set(),
        decreases recorded.len() - i,
    {
        let s = copy_string(&recorded[i]);
        assert(a[i as int] == s@);
        set.insert(s);
        assert(a.take(i + 1) =~= a.take(i as int).push(a[i as int]));
        proof {
            a.take(i as int).lemma_push_to_set_commute(a[i as int]);
        }
        i = i + 1;
    }
    assert(a.take(recorded.len() as int) =~= a);
    let mut j: usize = 0;
    assert(b.take(0).to_set() =~= Set::<Seq<char>>::empty());
    while j < added.len()
        invariant
            j <= added.len(),
            b == string_views(added@),
            set.elems().to_set() == a.to_set().union(b.take(j as int).to_set()),
        decreases added.len() - j,
    {
        let s = copy_string(&added[j]);
        assert(b[j as int] == s@);
        set.insert(s);
        assert(b.take(j + 1) =~= b.take(j as int).push(b[j as int]));
        proof {
            b.take(j as int).lemma_push_to_set_commute(b[j as int]);
        }
        assert(set.elems().to_set() =~= a.to_set().union(b.take(j + 1).to_set()));
        j = j + 1;
    }
    assert(b.take(added.len() as int) =~= b);
    set.to_vec()
}


} // verus!
