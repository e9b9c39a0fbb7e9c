//! Engine releases published to the npm registry, and the engine dependency
//! of a project.
use crate::engine_package::{
    bornengine_package, engine_package_name, is_engine_package, legacy_engine_package,
};
use crate::error::{plain_error, subject_error, CliError, ErrorKind, ErrorView};
use crate::json::{
    entries_view, find_key, json_view, key_index_from, lemma_entries_view_index,
    lemma_entries_view_len, lemma_entries_view_push, lemma_entries_view_update, lemma_key_index_from,
    member, string_value,
    JsonValue, JsonView,
};
use crate::text::{opt_view, str_equal, string_from};
use crate::versions::{
    compare_releases, is_stable, lemma_numbers_order_is_precedence, numbers, numbers_order,
    parse_version, release_before, release_text, release_version_text, semver_parse,
    VersionOrder,
};
use vstd::prelude::*;

verus! {

#[derive(Clone, Debug, PartialEq, Eq)]
pub struct EngineRelease {
    pub package_name: String,
    pub version: String,
}

#[derive(Clone, Debug, PartialEq, Eq)]
pub struct EngineDependency {
    pub package_name: String,
    /// The dependency specification: a version, or a `link:`/`file:` path.
    pub spec: String,
}

/// What the tool reads of a package's npm registry metadata.
#[derive(Clone, Debug, PartialEq, Eq)]
pub struct RegistryMetadata {
    /// The names of the members of `versions`, in document order; none when
    /// `versions` is missing or not an object.
    pub versions: Option<Vec<String>>,
    /// `dist-tags.latest` when it is a string.
    pub latest_tag: Option<String>,
}

pub type MetadataView = (Option<Seq<Seq<char>>>, Option<Seq<char>>);

impl View for RegistryMetadata {
    type V = MetadataView;

    open spec fn view(&self) -> MetadataView {
        (
            match self.versions {
                Some(v) => Some(v@.map_values(|s: String| s@)),
                None => None,
            },
            opt_view(self.latest_tag),
        )
    }
}

/// What the tool reads of a registry document: the member names of
/// `versions` when it is an object, and `dist-tags.latest` when it is a
/// string.
pub open spec fn metadata_of(document: JsonView) -> MetadataView {
    (
        match member(document, "versions"@) {
            Some(JsonView::Object(es)) => Some(es.map_values(|e: (Seq<char>, JsonView)| e.0)),
            _ => None,
        },
        string_value(
            match member(document, "dist-tags"@) {
                Some(tags) => member(tags, "latest"@),
                None => None,
            },
        ),
    )
}

/// Reads the registry metadata of a package from its registry document.
pub fn registry_metadata(document: &JsonValue) -> (r: RegistryMetadata)
    ensures
        r@ == metadata_of(document@),
{
    let versions = match document.get("versions") {
        Some(v) => match v.as_object() {
            Some(es) => {
                let ghost ev = entries_view(es@);
                proof {
                    lemma_entries_view_len(es@);
                }
                let mut keys: Vec<String> = Vec::new();
                let mut i: usize = 0;
                while i < es.len()
                    invariant
                        i <= es.len(),
                        ev == entries_view(es@),
                        ev.len() == es@.len(),
                        keys@.map_values(|s: String| s@) == ev.take(i as int).map_values(
                            |e: (Seq<char>, JsonView)| e.0,
                        ),
                    decreases es.len() - i,
                {
                    proof {
                        lemma_entries_view_index(es@, i as int);
                    }
                    let ghost before = keys@;
                    let k = crate::text::copy_string(&es[i].0);
                    assert(k@ == ev[i as int].0);
                    keys.push(k);
                    assert(keys@.map_values(|s: String| s@) =~= before.map_values(|s: String| s@).push(k@));
                    assert(ev.take(i + 1).map_values(|e: (Seq<char>, JsonView)| e.0) =~= ev.take(
                        i as int,
                    ).map_values(|e: (Seq<char>, JsonView)| e.0).push(ev[i as int].0));
                    i = i + 1;
                }
                assert(ev.take(es.len() as int) =~= ev);
                Some(keys)
            },
            None => None,
        },
        None => None,
    };
    let latest_tag = match document.get("dist-tags") {
        Some(tags) => match tags.get("latest") {
            Some(l) => match l.as_str() {
                Some(t) => Some(crate::text::copy_string(t)),
                None => None,
            },
            None => None,
        },
        None => None,
    };
    RegistryMetadata { versions, latest_tag }
}

pub type Release = (u64, u64, u64);

/// The releases among the listed versions, in listing order.
pub open spec fn stable_versions(keys: Seq<Seq<char>>) -> Seq<Release>
    decreases keys.len(),
{
    if keys.len() == 0 {
        Seq::empty()
    } else {
        let rest = stable_versions(keys.drop_last());
        match semver_parse(keys.last()) {
            Some(v) => if is_stable(v) {
                rest.push(numbers(v))
            } else {
                rest
            },
            None => rest,
        }
    }
}

/// The greatest release; of equal ones, the last (as `Iterator::max_by`).
pub open spec fn latest_of(vs: Seq<Release>) -> Option<Release>
    decreases vs.len(),
{
    if vs.len() == 0 {
        None
    } else {
        match latest_of(vs.drop_last()) {
            None => Some(vs.last()),
            Some(b) => if numbers_order(vs.last(), b) == VersionOrder::Less {
                Some(b)
            } else {
                Some(vs.last())
            },
        }
    }
}

/// The latest of some releases is one of them, and none of them is newer.
pub proof fn lemma_latest_of_is_greatest(vs: Seq<Release>)
    ensures
        vs.len() == 0 <==> latest_of(vs) is None,
        latest_of(vs) matches Some(b) ==> vs.contains(b) && forall|i: int|
            0 <= i < vs.len() ==> numbers_order(#[trigger] vs[i], b) != VersionOrder::Greater,
    decreases vs.len(),
{
    if vs.len() > 0 {
        let rest = vs.drop_last();
        lemma_latest_of_is_greatest(rest);
        let x = vs.last();
        match latest_of(rest) {
            None => {
                assert(vs[vs.len() - 1] == x);
            },
            Some(b) => {
                let k = choose|k: int| 0 <= k < rest.len() && rest[k] == b;
                assert(vs[k] == b);
                assert(vs[vs.len() - 1] == x);
                assert forall|i: int| 0 <= i < vs.len() implies numbers_order(
                    #[trigger] vs[i],
                    latest_of(vs).unwrap(),
                ) != VersionOrder::Greater by {
                    if i < vs.len() - 1 {
                        assert(vs[i] == rest[i]);
                    }
                }
            },
        }
    }
}

/// The release that `dist-tags.latest` names, when it is a listed release.
pub open spec fn tagged_release(keys: Seq<Seq<char>>, latest: Option<Seq<char>>) -> Option<
    Seq<char>,
> {
    match latest {
        Some(tag) => match semver_parse(tag) {
            Some(v) => if is_stable(v) && keys.contains(release_text(numbers(v))) {
                Some(release_text(numbers(v)))
            } else {
                None
            },
            None => None,
        },
        None => None,
    }
}

pub open spec fn is_latest_request(requested: Option<Seq<char>>) -> bool {
    requested is None || requested.unwrap() == "latest"@
}

/// The version of one package that a request selects: an exact release when
/// it is listed, else for `latest` (or no request) the tagged release or the
/// greatest listed release; none when there is no such release.
pub open spec fn selected_version(m: MetadataView, requested: Option<Seq<char>>) -> Result<
    Option<Seq<char>>,
    ErrorView,
> {
    match m.0 {
        None => Err(plain_error(ErrorKind::MissingVersionsObject)),
        Some(keys) => if !is_latest_request(requested) {
            let r = requested.unwrap();
            match semver_parse(r) {
                None => Err(subject_error(ErrorKind::RequestedVersionNotSemver, r)),
                Some(v) => if !is_stable(v) {
                    Err(plain_error(ErrorKind::RequestedVersionUnstable))
                } else if keys.contains(r) {
                    Ok(Some(r))
                } else {
                    Ok(None)
                },
            }
        } else {
            match tagged_release(keys, m.1) {
                Some(t) => Ok(Some(t)),
                None => match latest_of(stable_versions(keys)) {
                    Some(b) => Ok(Some(release_text(b))),
                    None => Ok(None),
                },
            }
        },
    }
}

fn contains_string(items: &Vec<String>, x: &[char]) -> (r: bool)
    ensures
        r == items@.map_values(|s: String| s@).contains(x@),
{
    let ghost ks = items@.map_values(|s: String| s@);
    let mut i: usize = 0;
    while i < items.len()
        invariant
            i <= items.len(),
            ks == items@.map_values(|s: String| s@),
            forall|j: int| 0 <= j < i ==> ks[j] != x@,
        decreases items.len() - i,
    {
        assert(ks[i as int] == items@[i as int]@);
        if crate::text::chars_equal(crate::text::chars_of(items[i].as_str()).as_slice(), x) {
            return true;
        }
        i = i + 1;
    }
    false
}

/// The releases among the listed versions.
fn collect_stable(keys: &Vec<String>) -> (r: Vec<Release>)
    ensures
        r@ == stable_versions(keys@.map_values(|s: String| s@)),
{
    let ghost ks = keys@.map_values(|s: String| s@);
    let mut r: Vec<Release> = Vec::new();
    let mut i: usize = 0;
    while i < keys.len()
        invariant
            i <= keys.len(),
            ks == keys@.map_values(|s: String| s@),
            r@ == stable_versions(ks.take(i as int)),
        decreases keys.len() - i,
    {
        assert(ks[i as int] == keys@[i as int]@);
        assert(ks.take(i + 1).drop_last() =~= ks.take(i as int));
        match parse_version(keys[i].as_str()) {
            Some(v) => {
                let stable = crate::text::chars_of(v.pre.as_str()).len() == 0
                    && crate::text::chars_of(v.build.as_str()).len() == 0;
                if stable {
                    r.push((v.major, v.minor, v.patch));
                }
            },
            None => {},
        }
        i = i + 1;
    }
    assert(ks.take(keys.len() as int) =~= ks);
    r
}

/// The version of one package that a request selects.
pub fn select_version(metadata: &RegistryMetadata, requested: Option<&str>) -> (r: Result<
    Option<String>,
    CliError,
>)
    ensures
        r matches Ok(v) ==> selected_version(metadata@, opt_str_view(requested)) == Ok::<
            Option<Seq<char>>,
            ErrorView,
        >(opt_view(v)),
        r matches Err(e) ==> selected_version(metadata@, opt_str_view(requested)) == Err::<
            Option<Seq<char>>,
            ErrorView,
        >(e@),
        requested matches Some(q) ==> (q@ != "latest"@ ==> (r matches Ok(Some(v)) ==> v@
            == q@)),
        requested matches Some(q) ==> (q@ != "latest"@ && metadata@.0 is Some && (semver_parse(
            q@,
        ) matches Some(v) && is_stable(v)) ==> (r matches Ok(x) && (x is Some
            <==> lists_version(Some(metadata@), q@)))),
{
    let keys = match &metadata.versions {
        Some(k) => k,
        None => {
            return Err(CliError::new(ErrorKind::MissingVersionsObject));
        },
    };
    let ghost ks = keys@.map_values(|s: String| s@);
    match requested {
        Some(req) => {
            if !str_equal(req, "latest") {
                match parse_version(req) {
                    None => {
                        return Err(CliError::about(ErrorKind::RequestedVersionNotSemver, req));
                    },
                    Some(v) => {
                        if crate::text::chars_of(v.pre.as_str()).len() != 0
                            || crate::text::chars_of(v.build.as_str()).len() != 0 {
                            return Err(CliError::new(ErrorKind::RequestedVersionUnstable));
                        }
                        if contains_string(keys, crate::text::chars_of(req).as_slice()) {
                            return Ok(Some(string_from(req)));
                        }
                        return Ok(None);
                    },
                }
            }
        },
        None => {},
    }
    match &metadata.latest_tag {
        Some(tag) => {
            match parse_version(tag.as_str()) {
                Some(v) => {
                    let stable = crate::text::chars_of(v.pre.as_str()).len() == 0
                        && crate::text::chars_of(v.build.as_str()).len() == 0;
                    if stable {
                        let text = release_version_text((v.major, v.minor, v.patch));
                        if contains_string(keys, crate::text::chars_of(text.as_str()).as_slice()) {
                            return Ok(Some(text));
                        }
                    }
                },
                None => {},
            }
        },
        None => {},
    }
    assert(tagged_release(ks, metadata@.1) is None);
    let stable = collect_stable(keys);
    let mut best: Option<Release> = None;
    let mut i: usize = 0;
    while i < stable.len()
        invariant
            i <= stable.len(),
            best == latest_of(stable@.take(i as int)),
        decreases stable.len() - i,
    {
        assert(stable@.take(i + 1).drop_last() =~= stable@.take(i as int));
        best = match best {
            None => Some(stable[i]),
            Some(b) => {
                if compare_releases(stable[i], b) == VersionOrder::Less {
                    Some(b)
                } else {
                    Some(stable[i])
                }
            },
        };
        i = i + 1;
    }
    assert(stable@.take(stable.len() as int) =~= stable@);
    match best {
        Some(b) => Ok(Some(release_version_text(b))),
        None => Ok(None),
    }
}

pub open spec fn opt_str_view(o: Option<&str>) -> Option<Seq<char>> {
    match o {
        Some(s) => Some(s@),
        None => None,
    }
}

/// The release a request selects from the engine's two packages, the current
/// one first: `(package name, version)`, or the error.
pub open spec fn release_choice(
    bornengine: Option<MetadataView>,
    legacy: Option<MetadataView>,
    requested: Option<Seq<char>>,
) -> Result<(Seq<char>, Seq<char>), ErrorView> {
    let not_found = match requested {
        Some(r) => Err(subject_error(ErrorKind::ReleaseNotFound, r)),
        None => Err(plain_error(ErrorKind::NoStableRelease)),
    };
    let from_legacy = match legacy {
        None => not_found,
        Some(m) => match selected_version(m, requested) {
            Err(e) => Err(e),
            Ok(Some(v)) => Ok((legacy_engine_package(), v)),
            Ok(None) => not_found,
        },
    };
    match bornengine {
        None => from_legacy,
        Some(m) => match selected_version(m, requested) {
            Err(e) => Err(e),
            Ok(Some(v)) => Ok((bornengine_package(), v)),
            Ok(None) => from_legacy,
        },
    }
}

pub open spec fn opt_meta_view(o: Option<&RegistryMetadata>) -> Option<MetadataView> {
    match o {
        Some(m) => Some(m@),
        None => None,
    }
}

/// Selects an engine release from the registry metadata of the engine's
/// current package and of its legacy package.
pub fn select_engine_release(
    bornengine_metadata: Option<&RegistryMetadata>,
    legacy_metadata: Option<&RegistryMetadata>,
    requested: Option<&str>,
) -> (r: Result<EngineRelease, CliError>)
    ensures
        r matches Ok(rel) ==> release_choice(
            opt_meta_view(bornengine_metadata),
            opt_meta_view(legacy_metadata),
            opt_str_view(requested),
        ) == Ok::<(Seq<char>, Seq<char>), ErrorView>((rel.package_name@, rel.version@)),
        r matches Err(e) ==> release_choice(
            opt_meta_view(bornengine_metadata),
            opt_meta_view(legacy_metadata),
            opt_str_view(requested),
        ) == Err::<(Seq<char>, Seq<char>), ErrorView>(e@),
        requested matches Some(q) ==> (q@ != "latest"@ ==> (r matches Ok(rel) ==> rel.version@
            == q@)),
{
    match bornengine_metadata {
        Some(m) => {
            match select_version(m, requested)? {
                Some(version) => {
                    return Ok(
                        EngineRelease {
                            package_name: string_from("@bornengine/engine"),
                            version,
                        },
                    );
                },
                None => {},
            }
        },
        None => {},
    }
    match legacy_metadata {
        Some(m) => {
            match select_version(m, requested)? {
                Some(version) => {
                    return Ok(
                        EngineRelease {
                            package_name: string_from("@bloomengine/engine"),
                            version,
                        },
                    );
                },
                None => {},
            }
        },
        None => {},
    }
    match requested {
        Some(version) => Err(CliError::about(ErrorKind::ReleaseNotFound, version)),
        None => Err(CliError::new(ErrorKind::NoStableRelease)),
    }
}

/// The package's metadata lists version `r`.
pub open spec fn lists_version(m: Option<MetadataView>, r: Seq<char>) -> bool {
    m matches Some(x) && x.0 matches Some(keys) && keys.contains(r)
}

/// An exact release request (not `latest`) selects that very release when the
/// package lists it and nothing when it does not: no other release stands in
/// for it.
pub proof fn lemma_exact_request_selects_itself(m: MetadataView, r: Seq<char>)
    requires
        r != "latest"@,
        m.0 is Some,
        semver_parse(r) matches Some(v) && is_stable(v),
    ensures
        selected_version(m, Some(r)) matches Ok(Some(v)) ==> v == r,
        lists_version(Some(m), r) ==> selected_version(m, Some(r)) == Ok::<
            Option<Seq<char>>,
            ErrorView,
        >(Some(r)),
        !lists_version(Some(m), r) ==> selected_version(m, Some(r)) == Ok::<
            Option<Seq<char>>,
            ErrorView,
        >(None),
{
}

/// An exact release request (not `latest`) gives that release from the
/// current package when it lists it, else from the legacy package when that
/// lists it, else the error that the release was not found, naming it.
pub proof fn lemma_exact_request_found_or_not_found(
    bornengine: Option<MetadataView>,
    legacy: Option<MetadataView>,
    r: Seq<char>,
)
    requires
        r != "latest"@,
        semver_parse(r) matches Some(v) && is_stable(v),
        bornengine matches Some(m) ==> m.0 is Some,
        legacy matches Some(m) ==> m.0 is Some,
    ensures
        release_choice(bornengine, legacy, Some(r)) matches Ok(c) ==> c.1 == r,
        lists_version(bornengine, r) ==> release_choice(bornengine, legacy, Some(r)) == Ok::<
            (Seq<char>, Seq<char>),
            ErrorView,
        >((bornengine_package(), r)),
        !lists_version(bornengine, r) && lists_version(legacy, r) ==> release_choice(
            bornengine,
            legacy,
            Some(r),
        ) == Ok::<(Seq<char>, Seq<char>), ErrorView>((legacy_engine_package(), r)),
        !lists_version(bornengine, r) && !lists_version(legacy, r) ==> release_choice(
            bornengine,
            legacy,
            Some(r),
        ) == Err::<(Seq<char>, Seq<char>), ErrorView>(
            subject_error(ErrorKind::ReleaseNotFound, r),
        ),
{
    if bornengine is Some {
        lemma_exact_request_selects_itself(bornengine.unwrap(), r);
    }
    if legacy is Some {
        lemma_exact_request_selects_itself(legacy.unwrap(), r);
    }
}

// ---------------------------------------------------------------------------
// Listing releases, newest first
// ---------------------------------------------------------------------------

/// The index of the first release at or after `i` that is older than `x`.
pub open spec fn first_older_from(s: Seq<Release>, x: Release, i: int) -> int
    decreases s.len() - i,
{
    if i < 0 || i >= s.len() {
        s.len() as int
    } else if numbers_order(s[i], x) == VersionOrder::Less {
        i
    } else {
        first_older_from(s, x, i + 1)
    }
}

/// `x` placed after the releases at least as new as it.
pub open spec fn insert_newest_first(s: Seq<Release>, x: Release) -> Seq<Release> {
    s.insert(first_older_from(s, x, 0), x)
}

/// The releases newest first; equal ones keep their order (as a stable sort
/// in descending order).
pub open spec fn newest_first(vs: Seq<Release>) -> Seq<Release>
    decreases vs.len(),
{
    if vs.len() == 0 {
        Seq::empty()
    } else {
        insert_newest_first(newest_first(vs.drop_last()), vs.last())
    }
}

pub proof fn lemma_first_older_from(s: Seq<Release>, x: Release, i: int)
    requires
        0 <= i <= s.len(),
    ensures
        i <= first_older_from(s, x, i) <= s.len(),
    decreases s.len() - i,
{
    if i < s.len() && numbers_order(s[i], x) != VersionOrder::Less {
        lemma_first_older_from(s, x, i + 1);
    }
}

pub proof fn lemma_newest_first_len(vs: Seq<Release>)
    ensures
        newest_first(vs).len() == vs.len(),
    decreases vs.len(),
{
    if vs.len() > 0 {
        lemma_newest_first_len(vs.drop_last());
        lemma_first_older_from(newest_first(vs.drop_last()), vs.last(), 0);
    }
}

/// Releases ordered from newest to oldest.
pub open spec fn newest_to_oldest(s: Seq<Release>) -> bool {
    forall|i: int, j: int|
        0 <= i < j < s.len() ==> numbers_order(#[trigger] s[i], #[trigger] s[j])
            != VersionOrder::Less
}

proof fn lemma_first_older_bounds(s: Seq<Release>, x: Release, i: int)
    requires
        0 <= i <= s.len(),
    ensures
        i <= first_older_from(s, x, i) <= s.len(),
        forall|j: int|
            i <= j < first_older_from(s, x, i) ==> numbers_order(#[trigger] s[j], x)
                != VersionOrder::Less,
        first_older_from(s, x, i) < s.len() ==> numbers_order(
            s[first_older_from(s, x, i)],
            x,
        ) == VersionOrder::Less,
    decreases s.len() - i,
{
    if i < s.len() && numbers_order(s[i], x) != VersionOrder::Less {
        lemma_first_older_bounds(s, x, i + 1);
    }
}

/// Releases listed newest first are ordered from newest to oldest, and hold
/// exactly the listed releases.
pub proof fn lemma_newest_first_ordered(vs: Seq<Release>)
    ensures
        newest_to_oldest(newest_first(vs)),
        newest_first(vs).len() == vs.len(),
        forall|x: Release| newest_first(vs).contains(x) <==> vs.contains(x),
    decreases vs.len(),
{
    if vs.len() > 0 {
        let rest = vs.drop_last();
        let x = vs.last();
        lemma_newest_first_ordered(rest);
        let s = newest_first(rest);
        let k = first_older_from(s, x, 0);
        lemma_first_older_bounds(s, x, 0);
        let r = s.insert(k, x);
        assert(r == newest_first(vs));
        assert forall|i: int, j: int| 0 <= i < j < r.len() implies numbers_order(
            #[trigger] r[i],
            #[trigger] r[j],
        ) != VersionOrder::Less by {
            if j < k {
                assert(r[i] == s[i] && r[j] == s[j]);
            } else if j == k {
                assert(r[i] == s[i]);
            } else if i < k {
                assert(r[i] == s[i] && r[j] == s[j - 1]);
                assert(numbers_order(s[i], x) != VersionOrder::Less);
                assert(numbers_order(s[k], x) == VersionOrder::Less);
                if j - 1 > k {
                    assert(numbers_order(s[k], s[j - 1]) != VersionOrder::Less);
                }
            } else if i == k {
                assert(r[j] == s[j - 1]);
                assert(numbers_order(s[k], x) == VersionOrder::Less);
                if j - 1 > k {
                    assert(numbers_order(s[k], s[j - 1]) != VersionOrder::Less);
                }
            } else {
                assert(r[i] == s[i - 1] && r[j] == s[j - 1]);
            }
        }
        assert forall|y: Release| r.contains(y) <==> vs.contains(y) by {
            if r.contains(y) {
                let i = choose|i: int| 0 <= i < r.len() && r[i] == y;
                if i < k {
                    assert(s[i] == y);
                    assert(rest.contains(y));
                    let m = choose|m: int| 0 <= m < rest.len() && rest[m] == y;
                    assert(vs[m] == y);
                } else if i > k {
                    assert(s[i - 1] == y);
                    assert(rest.contains(y));
                    let m = choose|m: int| 0 <= m < rest.len() && rest[m] == y;
                    assert(vs[m] == y);
                } else {
                    assert(vs[vs.len() - 1] == y);
                }
            }
            if vs.contains(y) {
                let m = choose|m: int| 0 <= m < vs.len() && vs[m] == y;
                if m == vs.len() - 1 {
                    assert(r[k] == y);
                } else {
                    assert(rest[m] == y);
                    assert(rest.contains(y));
                    assert(s.contains(y));
                    let i = choose|i: int| 0 <= i < s.len() && s[i] == y;
                    if i < k {
                        assert(r[i] == y);
                    } else {
                        assert(r[i + 1] == y);
                    }
                }
            }
        }
    }
}

/// By precedence: listed newest first, no release precedes one listed after
/// it; and no release follows the latest one, which is among them.
pub proof fn lemma_releases_by_precedence(vs: Seq<Release>)
    ensures
        newest_first(vs).len() == vs.len(),
        forall|i: int, j: int|
            0 <= i < j < vs.len() ==> !release_before(
                #[trigger] newest_first(vs)[i],
                #[trigger] newest_first(vs)[j],
            ),
        latest_of(vs) matches Some(b) ==> vs.contains(b) && forall|i: int|
            0 <= i < vs.len() ==> !release_before(b, #[trigger] vs[i]),
{
    lemma_newest_first_ordered(vs);
    lemma_latest_of_is_greatest(vs);
    let s = newest_first(vs);
    assert forall|i: int, j: int| 0 <= i < j < vs.len() implies !release_before(
        #[trigger] s[i],
        #[trigger] s[j],
    ) by {
        lemma_numbers_order_is_precedence(s[i], s[j]);
    }
    if latest_of(vs) is Some {
        let b = latest_of(vs).unwrap();
        assert forall|i: int| 0 <= i < vs.len() implies !release_before(b, #[trigger] vs[i]) by {
            lemma_numbers_order_is_precedence(vs[i], b);
        }
    }
}

/// The releases of one package, newest first.
pub open spec fn release_list(m: MetadataView, package: Seq<char>) -> Result<
    Seq<(Seq<char>, Seq<char>)>,
    ErrorView,
> {
    match m.0 {
        None => Err(plain_error(ErrorKind::MissingVersionsObject)),
        Some(keys) => Ok(
            newest_first(stable_versions(keys)).map_values(
                |v: Release| (package, release_text(v)),
            ),
        ),
    }
}

pub open spec fn releases_view(v: Seq<EngineRelease>) -> Seq<(Seq<char>, Seq<char>)> {
    v.map_values(|r: EngineRelease| (r.package_name@, r.version@))
}

/// The releases of one package, newest first.
pub fn stable_releases(metadata: &RegistryMetadata, package_name: &str) -> (r: Result<
    Vec<EngineRelease>,
    CliError,
>)
    ensures
        r matches Ok(v) ==> release_list(metadata@, package_name@) == Ok::<
            Seq<(Seq<char>, Seq<char>)>,
            ErrorView,
        >(releases_view(v@)),
        r matches Err(e) ==> release_list(metadata@, package_name@) == Err::<
            Seq<(Seq<char>, Seq<char>)>,
            ErrorView,
        >(e@),
{
    let keys = match &metadata.versions {
        Some(k) => k,
        None => {
            return Err(CliError::new(ErrorKind::MissingVersionsObject));
        },
    };
    let stable = collect_stable(keys);
    let mut sorted: Vec<Release> = Vec::new();
    let mut i: usize = 0;
    while i < stable.len()
        invariant
            i <= stable.len(),
            sorted@ == newest_first(stable@.take(i as int)),
        decreases stable.len() - i,
    {
        let x = stable[i];
        proof {
            lemma_newest_first_len(stable@.take(i as int));
        }
        let mut k: usize = 0;
        while k < sorted.len() && compare_releases(sorted[k], x) != VersionOrder::Less
            invariant
                k <= sorted.len(),
                first_older_from(sorted@, x, 0) == first_older_from(sorted@, x, k as int),
            decreases sorted.len() - k,
        {
            k = k + 1;
        }
        sorted.insert(k, x);
        assert(stable@.take(i + 1).drop_last() =~= stable@.take(i as int));
        i = i + 1;
    }
    assert(stable@.take(stable.len() as int) =~= stable@);
    let mut out: Vec<EngineRelease> = Vec::new();
    let mut j: usize = 0;
    while j < sorted.len()
        invariant
            j <= sorted.len(),
            releases_view(out@) == sorted@.take(j as int).map_values(
                |v: Release| (package_name@, release_text(v)),
            ),
        decreases sorted.len() - j,
    {
        let rel = EngineRelease {
            package_name: string_from(package_name),
            version: release_version_text(sorted[j]),
        };
        let ghost prev = out@;
        out.push(rel);
        assert(releases_view(out@) =~= releases_view(prev).push(
            (package_name@, release_text(sorted@[j as int])),
        ));
        j = j + 1;
        assert(sorted@.take(j as int).map_values(|v: Release| (package_name@, release_text(v)))
            =~= sorted@.take(j - 1).map_values(|v: Release| (package_name@, release_text(v))).push(
            (package_name@, release_text(sorted@[j - 1])),
        ));
    }
    assert(sorted@.take(sorted.len() as int) =~= sorted@);
    Ok(out)
}

/// The releases of the current package, when it is published with at least
/// one release; otherwise none, and the legacy package is to be consulted.
pub fn primary_releases(bornengine_metadata: Option<&RegistryMetadata>) -> (r: Result<
    Option<Vec<EngineRelease>>,
    CliError,
>)
    ensures
        bornengine_metadata is None ==> r matches Ok(None),
        bornengine_metadata matches Some(m) ==> match release_list(m@, bornengine_package()) {
            Err(e) => (r matches Err(x) && x@ == e),
            Ok(l) => if l.len() > 0 {
                (r matches Ok(Some(v)) && releases_view(v@) == l)
            } else {
                r matches Ok(None)
            },
        },
{
    match bornengine_metadata {
        None => Ok(None),
        Some(m) => {
            let releases = stable_releases(m, "@bornengine/engine")?;
            if releases.len() > 0 {
                Ok(Some(releases))
            } else {
                Ok(None)
            }
        },
    }
}

/// The releases of the legacy package.
pub fn fallback_releases(legacy_metadata: Option<&RegistryMetadata>) -> (r: Result<
    Vec<EngineRelease>,
    CliError,
>)
    ensures
        legacy_metadata is None ==> (r matches Err(e) && e@ == plain_error(
            ErrorKind::NoPackageVersions,
        )),
        legacy_metadata matches Some(m) ==> match release_list(m@, legacy_engine_package()) {
            Err(e) => (r matches Err(x) && x@ == e),
            Ok(l) => (r matches Ok(v) && releases_view(v@) == l),
        },
{
    match legacy_metadata {
        None => Err(CliError::new(ErrorKind::NoPackageVersions)),
        Some(m) => stable_releases(m, "@bloomengine/engine"),
    }
}

// ---------------------------------------------------------------------------
// The engine dependency in package.json
// ---------------------------------------------------------------------------

/// The dependency sections of package.json, in the order they are consulted.
pub open spec fn section_name(k: int) -> Seq<char> {
    if k == 0 {
        "dependencies"@
    } else if k == 1 {
        "devDependencies"@
    } else {
        "optionalDependencies"@
    }
}

pub open spec fn is_section(name: Seq<char>) -> bool {
    name == section_name(0) || name == section_name(1) || name == section_name(2)
}

fn section_name_exec(k: usize) -> (r: &'static str)
    requires
        k < 3,
    ensures
        r@ == section_name(k as int),
{
    if k == 0 {
        "dependencies"
    } else if k == 1 {
        "devDependencies"
    } else {
        "optionalDependencies"
    }
}

fn is_section_exec(name: &str) -> (r: bool)
    ensures
        r == is_section(name@),
{
    str_equal(name, "dependencies") || str_equal(name, "devDependencies") || str_equal(
        name,
        "optionalDependencies",
    )
}

/// The index of the first member at or after `i` named like the engine.
pub open spec fn engine_entry_from(es: Seq<(Seq<char>, JsonView)>, i: int) -> Option<int>
    decreases es.len() - i,
{
    if i < 0 || i >= es.len() {
        None
    } else if engine_package_name(es[i].0) {
        Some(i)
    } else {
        engine_entry_from(es, i + 1)
    }
}

pub proof fn lemma_engine_entry_from(es: Seq<(Seq<char>, JsonView)>, i: int)
    requires
        0 <= i,
    ensures
        engine_entry_from(es, i) matches Some(k) ==> i <= k < es.len() && engine_package_name(
            es[k].0,
        ),
        engine_entry_from(es, i) is None ==> forall|j: int|
            i <= j < es.len() ==> !engine_package_name(#[trigger] es[j].0),
    decreases es.len() - i,
{
    if i < es.len() && !engine_package_name(es[i].0) {
        lemma_engine_entry_from(es, i + 1);
    }
}

/// The engine dependency that package.json declares, from section `k` on:
/// the first member named like the engine in the first section that has one,
/// as `(package name, specification)`.
pub open spec fn declared_from(p: JsonView, k: int) -> Result<
    Option<(Seq<char>, Seq<char>)>,
    ErrorView,
>
    decreases 3 - k,
{
    if k < 0 || k >= 3 {
        Ok(None)
    } else {
        match member(p, section_name(k)) {
            Some(JsonView::Object(es)) => match engine_entry_from(es, 0) {
                Some(i) => match es[i].1 {
                    JsonView::Str(s) => Ok(Some((es[i].0, s))),
                    _ => Err(subject_error(ErrorKind::NonStringEngineDependency, es[i].0)),
                },
                None => declared_from(p, k + 1),
            },
            _ => declared_from(p, k + 1),
        }
    }
}

pub open spec fn declared_engine(p: JsonView) -> Result<Option<(Seq<char>, Seq<char>)>, ErrorView> {
    declared_from(p, 0)
}

pub open spec fn dependency_view(d: Option<EngineDependency>) -> Option<(Seq<char>, Seq<char>)> {
    match d {
        Some(x) => Some((x.package_name@, x.spec@)),
        None => None,
    }
}

fn engine_entry(es: &Vec<(String, JsonValue)>) -> (r: Option<usize>)
    ensures
        r matches Some(k) ==> engine_entry_from(entries_view(es@), 0) == Some(k as int),
        r is None ==> engine_entry_from(entries_view(es@), 0) is None,
{
    let ghost ev = entries_view(es@);
    proof {
        lemma_entries_view_len(es@);
    }
    let mut i: usize = 0;
    while i < es.len()
        invariant
            i <= es.len(),
            ev == entries_view(es@),
            ev.len() == es@.len(),
            engine_entry_from(ev, 0) == engine_entry_from(ev, i as int),
        decreases es.len() - i,
    {
        proof {
            lemma_entries_view_index(es@, i as int);
        }
        if is_engine_package(es[i].0.as_str()) {
            return Some(i);
        }
        i = i + 1;
    }
    None
}

/// The engine dependency that a package.json declares.
pub fn engine_dependency(package: &JsonValue) -> (r: Result<Option<EngineDependency>, CliError>)
    ensures
        r matches Ok(d) ==> declared_engine(package@) == Ok::<
            Option<(Seq<char>, Seq<char>)>,
            ErrorView,
        >(dependency_view(d)),
        r matches Err(e) ==> declared_engine(package@) == Err::<
            Option<(Seq<char>, Seq<char>)>,
            ErrorView,
        >(e@),
{
    let mut k: usize = 0;
    while k < 3
        invariant
            k <= 3,
            declared_engine(package@) == declared_from(package@, k as int),
        decreases 3 - k,
    {
        let name = section_name_exec(k);
        match package.get(name) {
            Some(section) => {
                match section.as_object() {
                    Some(es) => {
                        match engine_entry(es) {
                            Some(i) => {
                                proof {
                                    lemma_entries_view_len(es@);
                                    lemma_engine_entry_from(entries_view(es@), 0);
                                    lemma_entries_view_index(es@, i as int);
                                }
                                let entry_name = &es[i].0;
                                match es[i].1.as_str() {
                                    Some(spec) => {
                                        return Ok(
                                            Some(
                                                EngineDependency {
                                                    package_name: crate::text::copy_string(
                                                        entry_name,
                                                    ),
                                                    spec: crate::text::copy_string(spec),
                                                },
                                            ),
                                        );
                                    },
                                    None => {
                                        return Err(
                                            CliError::about(
                                                ErrorKind::NonStringEngineDependency,
                                                entry_name.as_str(),
                                            ),
                                        );
                                    },
                                }
                            },
                            None => {},
                        }
                    },
                    None => {},
                }
            },
            None => {},
        }
        k = k + 1;
    }
    Ok(None)
}

/// Object members without those named like the engine.
pub open spec fn without_engine(es: Seq<(Seq<char>, JsonView)>) -> Seq<(Seq<char>, JsonView)>
    decreases es.len(),
{
    if es.len() == 0 {
        Seq::empty()
    } else if engine_package_name(es.last().0) {
        without_engine(es.drop_last())
    } else {
        without_engine(es.drop_last()).push(es.last())
    }
}

/// A top-level member with the engine removed from it where it is a
/// dependency section holding an object.
pub open spec fn strip_member(e: (Seq<char>, JsonView)) -> (Seq<char>, JsonView) {
    if is_section(e.0) {
        match e.1 {
            JsonView::Object(d) => (e.0, JsonView::Object(without_engine(d))),
            _ => e,
        }
    } else {
        e
    }
}

pub open spec fn strip_sections(es: Seq<(Seq<char>, JsonView)>) -> Seq<(Seq<char>, JsonView)> {
    es.map_values(|e: (Seq<char>, JsonView)| strip_member(e))
}

/// Removes the members named like the engine from object members.
fn remove_engine_members(es: Vec<(String, JsonValue)>) -> (r: Vec<(String, JsonValue)>)
    ensures
        entries_view(r@) == without_engine(entries_view(es@)),
{
    let ghost orig = es@;
    let mut rest = es;
    let mut out: Vec<(String, JsonValue)> = Vec::new();
    let mut i: usize = 0;
    let n = rest.len();
    assert(orig.skip(0) =~= orig);
    while i < n
        invariant
            n == orig.len(),
            i <= n,
            rest@ == orig.skip(i as int),
            entries_view(out@) == without_engine(entries_view(orig.take(i as int))),
        decreases n - i,
    {
        let e = rest.remove(0);
        assert(e == orig[i as int]);
        assert(rest@ =~= orig.skip(i + 1));
        let ghost before = out@;
        assert(orig.take(i + 1) =~= orig.take(i as int).push(e));
        proof {
            lemma_entries_view_push(orig.take(i as int), e);
            let pv = entries_view(orig.take(i as int));
            let x = (e.0@, json_view(e.1));
            assert(pv.push(x).drop_last() =~= pv);
            assert(pv.push(x).last() == x);
        }
        if !is_engine_package(e.0.as_str()) {
            out.push(e);
            proof {
                lemma_entries_view_push(before, e);
            }
        }
        i = i + 1;
    }
    assert(orig.take(n as int) =~= orig);
    out
}

/// Removes the engine from every dependency section of top-level members.
fn strip_section_members(es: Vec<(String, JsonValue)>) -> (r: Vec<(String, JsonValue)>)
    ensures
        entries_view(r@) == strip_sections(entries_view(es@)),
{
    let ghost orig = es@;
    let mut rest = es;
    let mut out: Vec<(String, JsonValue)> = Vec::new();
    let mut i: usize = 0;
    let n = rest.len();
    assert(orig.skip(0) =~= orig);
    proof {
        lemma_entries_view_len(orig);
    }
    while i < n
        invariant
            n == orig.len(),
            i <= n,
            rest@ == orig.skip(i as int),
            entries_view(out@) == strip_sections(entries_view(orig.take(i as int))),
        decreases n - i,
    {
        let e = rest.remove(0);
        assert(e == orig[i as int]);
        assert(rest@ =~= orig.skip(i + 1));
        let ghost before = out@;
        assert(orig.take(i + 1) =~= orig.take(i as int).push(e));
        proof {
            lemma_entries_view_push(orig.take(i as int), e);
        }
        let (key, value) = e;
        let stripped = if is_section_exec(key.as_str()) {
            match value {
                JsonValue::Object(d) => JsonValue::Object(remove_engine_members(d)),
                other => other,
            }
        } else {
            value
        };
        let ghost ne = (key, stripped);
        assert((ne.0@, json_view(ne.1)) == strip_member((e.0@, json_view(e.1))));
        out.push((key, stripped));
        proof {
            lemma_entries_view_push(before, ne);
        }
        assert(strip_sections(entries_view(orig.take(i + 1))) =~= strip_sections(
            entries_view(orig.take(i as int)),
        ).push(strip_member((e.0@, json_view(e.1)))));
        i = i + 1;
    }
    assert(orig.take(n as int) =~= orig);
    out
}

/// package.json after setting the engine dependency, and whether that
/// succeeded. On `DependenciesNotObject` the sections have already lost the
/// engine.
pub open spec fn with_engine(p: JsonView, name: Seq<char>, spec: Seq<char>) -> (
    JsonView,
    Result<(), ErrorView>,
) {
    if !engine_package_name(name) {
        (p, Err(subject_error(ErrorKind::UnsupportedEnginePackage, name)))
    } else {
        match p {
            JsonView::Object(es) => {
                let s = strip_sections(es);
                let entry = (name, JsonView::Str(spec));
                match key_index_from(s, section_name(0), 0) {
                    None => (
                        JsonView::Object(
                            s.push((section_name(0), JsonView::Object(seq![entry]))),
                        ),
                        Ok(()),
                    ),
                    Some(i) => match s[i].1 {
                        JsonView::Object(d) => (
                            JsonView::Object(s.update(i, (s[i].0, JsonView::Object(d.push(entry))))),
                            Ok(()),
                        ),
                        _ => (JsonView::Object(s), Err(plain_error(ErrorKind::DependenciesNotObject))),
                    },
                }
            },
            _ => (p, Err(plain_error(ErrorKind::PackageNotObject))),
        }
    }
}

pub open spec fn result_view(r: Result<(), CliError>) -> Result<(), ErrorView> {
    match r {
        Ok(()) => Ok(()),
        Err(e) => Err(e@),
    }
}

/// Makes `dependency` the engine dependency of a package.json: the engine is
/// removed from every dependency section and the dependency added to
/// `dependencies`; the other members stay as they were.
pub fn set_engine_dependency(package: &mut JsonValue, dependency: &EngineDependency) -> (r: Result<
    (),
    CliError,
>)
    ensures
        (final(package)@, result_view(r)) == with_engine(
            old(package)@,
            dependency.package_name@,
            dependency.spec@,
        ),
{
    if !is_engine_package(dependency.package_name.as_str()) {
        return Err(
            CliError::about(ErrorKind::UnsupportedEnginePackage, dependency.package_name.as_str()),
        );
    }
    let mut taken = JsonValue::Null;
    std::mem::swap(&mut taken, package);
    match taken {
        JsonValue::Object(entries) => {
            let mut stripped = strip_section_members(entries);
            let ghost s = entries_view(stripped@);
            proof {
                lemma_entries_view_len(stripped@);
            }
            let new_entry = (
                crate::text::copy_string(&dependency.package_name),
                JsonValue::Str(crate::text::copy_string(&dependency.spec)),
            );
            let ghost ne = (dependency.package_name@, JsonView::Str(dependency.spec@));
            match find_key(&stripped, "dependencies") {
                None => {
                    let mut members: Vec<(String, JsonValue)> = Vec::new();
                    members.push(new_entry);
                    proof {
                        lemma_entries_view_push(Seq::empty(), new_entry);
                    }
                    assert(entries_view(members@) =~= seq![ne]) by {
                        assert(members@ =~= Seq::<(String, JsonValue)>::empty().push(new_entry));
                    }
                    let section = (string_from("dependencies"), JsonValue::Object(members));
                    let ghost before = stripped@;
                    stripped.push(section);
                    proof {
                        lemma_entries_view_push(before, section);
                    }
                    *package = JsonValue::Object(stripped);
                    Ok(())
                },
                Some(i) => {
                    proof {
                        lemma_key_index_from(s, section_name(0), 0);
                        lemma_entries_view_index(stripped@, i as int);
                    }
                    let ghost before = stripped@;
                    let (key, value) = stripped.remove(i);
                    match value {
                        JsonValue::Object(mut members) => {
                            let ghost dm = members@;
                            members.push(new_entry);
                            proof {
                                lemma_entries_view_push(dm, new_entry);
                            }
                            let ghost updated = (key, JsonValue::Object(members));
                            stripped.insert(i, (key, JsonValue::Object(members)));
                            assert(stripped@ =~= before.update(i as int, updated));
                            proof {
                                lemma_entries_view_update(before, i as int, updated);
                            }
                            *package = JsonValue::Object(stripped);
                            Ok(())
                        },
                        other => {
                            stripped.insert(i, (key, other));
                            assert(stripped@ =~= before);
                            *package = JsonValue::Object(stripped);
                            Err(CliError::new(ErrorKind::DependenciesNotObject))
                        },
                    }
                },
            }
        },
        other => {
            *package = other;
            Err(CliError::new(ErrorKind::PackageNotObject))
        },
    }
}

/// package.json after removing the engine dependency, and the declared
/// dependency before it (or the error, with package.json unchanged).
pub open spec fn without_engine_dependency(p: JsonView) -> (
    JsonView,
    Result<Option<(Seq<char>, Seq<char>)>, ErrorView>,
) {
    match declared_engine(p) {
        Err(e) => (p, Err(e)),
        Ok(previous) => match p {
            JsonView::Object(es) => (JsonView::Object(strip_sections(es)), Ok(previous)),
            _ => (p, Err(plain_error(ErrorKind::PackageNotObject))),
        },
    }
}

pub open spec fn removal_view(r: Result<Option<EngineDependency>, CliError>) -> Result<
    Option<(Seq<char>, Seq<char>)>,
    ErrorView,
> {
    match r {
        Ok(d) => Ok(dependency_view(d)),
        Err(e) => Err(e@),
    }
}

/// Removes the engine from every dependency section of a package.json and
/// returns the dependency it declared.
pub fn remove_engine_dependency(package: &mut JsonValue) -> (r: Result<
    Option<EngineDependency>,
    CliError,
>)
    ensures
        (final(package)@, removal_view(r)) == without_engine_dependency(old(package)@),
{
    let previous = engine_dependency(package)?;
    let mut taken = JsonValue::Null;
    std::mem::swap(&mut taken, package);
    match taken {
        JsonValue::Object(entries) => {
            let stripped = strip_section_members(entries);
            *package = JsonValue::Object(stripped);
            Ok(previous)
        },
        other => {
            *package = other;
            Err(CliError::new(ErrorKind::PackageNotObject))
        },
    }
}

/// The engine package a local checkout's package.json names.
pub fn engine_package_from_manifest(package: &JsonValue) -> (r: Result<String, CliError>)
    ensures
        r matches Ok(n) ==> string_value(member(package@, "name"@)) == Some(n@)
            && engine_package_name(n@),
        r matches Err(e) ==> match string_value(member(package@, "name"@)) {
            None => e@ == plain_error(ErrorKind::MissingPackageName),
            Some(n) => !engine_package_name(n) && e@ == subject_error(
                ErrorKind::NotEnginePackage,
                n,
            ),
        },
{
    let name = match package.get("name") {
        Some(v) => match v.as_str() {
            Some(s) => s,
            None => {
                return Err(CliError::new(ErrorKind::MissingPackageName));
            },
        },
        None => {
            return Err(CliError::new(ErrorKind::MissingPackageName));
        },
    };
    if !is_engine_package(name.as_str()) {
        return Err(CliError::about(ErrorKind::NotEnginePackage, name.as_str()));
    }
    Ok(crate::text::copy_string(name))
}

// ---------------------------------------------------------------------------
// Laws of the engine dependency
// ---------------------------------------------------------------------------

pub proof fn lemma_without_engine(d: Seq<(Seq<char>, JsonView)>)
    ensures
        forall|x: (Seq<char>, JsonView)|
            #[trigger] without_engine(d).contains(x) <==> (d.contains(x) && !engine_package_name(
                x.0,
            )),
        forall|j: int|
            0 <= j < without_engine(d).len() ==> !engine_package_name(#[trigger] without_engine(d)[j].0),
    decreases d.len(),
{
    if d.len() > 0 {
        let rest = d.drop_last();
        lemma_without_engine(rest);
        assert(d =~= rest.push(d.last()));
        assert forall|x: (Seq<char>, JsonView)| #[trigger] d.contains(x) <==> (rest.contains(x) || x
            == d.last()) by {
            if d.contains(x) {
                let j = choose|j: int| 0 <= j < d.len() && d[j] == x;
                if j < d.len() - 1 {
                    assert(rest[j] == x);
                }
            }
            if rest.contains(x) {
                let j = choose|j: int| 0 <= j < rest.len() && rest[j] == x;
                assert(d[j] == x);
            }
        }
        if !engine_package_name(d.last().0) {
            let w = without_engine(rest);
            assert forall|x: (Seq<char>, JsonView)| #[trigger] w.push(d.last()).contains(x) <==> (
            w.contains(x) || x == d.last()) by {
                if w.push(d.last()).contains(x) {
                    let j = choose|j: int| 0 <= j < w.len() + 1 && w.push(d.last())[j] == x;
                    if j < w.len() {
                        assert(w[j] == x);
                    }
                }
                if w.contains(x) {
                    let j = choose|j: int| 0 <= j < w.len() && w[j] == x;
                    assert(w.push(d.last())[j] == x);
                }
                if x == d.last() {
                    assert(w.push(d.last())[w.len() as int] == x);
                }
            }
        }
    }
}

/// Two member sequences with the same names have their named members at the
/// same places.
pub proof fn lemma_same_keys(
    a: Seq<(Seq<char>, JsonView)>,
    b: Seq<(Seq<char>, JsonView)>,
    key: Seq<char>,
    i: int,
)
    requires
        a.len() == b.len(),
        forall|j: int| 0 <= j < a.len() ==> #[trigger] a[j].0 == b[j].0,
    ensures
        key_index_from(a, key, i) == key_index_from(b, key, i),
    decreases a.len() - i,
{
    if 0 <= i < a.len() {
        lemma_same_keys(a, b, key, i + 1);
    }
}

pub proof fn lemma_key_after_push(
    s: Seq<(Seq<char>, JsonView)>,
    x: (Seq<char>, JsonView),
    i: int,
)
    requires
        0 <= i <= s.len(),
        key_index_from(s, x.0, i) is None,
    ensures
        key_index_from(s.push(x), x.0, i) == Some(s.len() as int),
    decreases s.len() - i,
{
    if i < s.len() {
        lemma_key_after_push(s, x, i + 1);
    }
}

pub proof fn lemma_engine_entry_push(d: Seq<(Seq<char>, JsonView)>, x: (Seq<char>, JsonView), i: int)
    requires
        0 <= i <= d.len(),
        forall|j: int| 0 <= j < d.len() ==> !engine_package_name(#[trigger] d[j].0),
        engine_package_name(x.0),
    ensures
        engine_entry_from(d.push(x), i) == Some(d.len() as int),
    decreases d.len() - i,
{
    if i < d.len() {
        assert(d.push(x)[i] == d[i]);
        lemma_engine_entry_push(d, x, i + 1);
    }
}

pub proof fn lemma_no_engine_entry(d: Seq<(Seq<char>, JsonView)>)
    requires
        forall|j: int| 0 <= j < d.len() ==> !engine_package_name(#[trigger] d[j].0),
    ensures
        engine_entry_from(d, 0) is None,
{
    lemma_engine_entry_from(d, 0);
}

/// In stripped members, every dependency section that holds an object holds
/// no member named like the engine.
pub proof fn lemma_stripped_section(es: Seq<(Seq<char>, JsonView)>, k: int)
    requires
        0 <= k < 3,
    ensures
        member(JsonView::Object(strip_sections(es)), section_name(k)) matches Some(
            JsonView::Object(d),
        ) ==> engine_entry_from(d, 0) is None,
{
    let s = strip_sections(es);
    assert forall|j: int| 0 <= j < es.len() implies #[trigger] s[j].0 == es[j].0 by {}
    lemma_same_keys(s, es, section_name(k), 0);
    lemma_key_index_from(es, section_name(k), 0);
    match key_index_from(es, section_name(k), 0) {
        Some(j) => {
            assert(s[j] == strip_member(es[j]));
            assert(is_section(es[j].0));
            match es[j].1 {
                JsonView::Object(d0) => {
                    lemma_without_engine(d0);
                    lemma_no_engine_entry(without_engine(d0));
                },
                _ => {},
            }
        },
        None => {},
    }
}

pub proof fn lemma_stripped_declares_nothing(es: Seq<(Seq<char>, JsonView)>, k: int)
    requires
        0 <= k <= 3,
    ensures
        declared_from(JsonView::Object(strip_sections(es)), k) == Ok::<
            Option<(Seq<char>, Seq<char>)>,
            ErrorView,
        >(None),
    decreases 3 - k,
{
    if k < 3 {
        lemma_stripped_section(es, k);
        lemma_stripped_declares_nothing(es, k + 1);
    }
}

/// After the engine dependency is removed, package.json declares none.
pub proof fn lemma_removed_dependency_is_gone(p: JsonView)
    requires
        without_engine_dependency(p).1 is Ok,
    ensures
        declared_engine(without_engine_dependency(p).0) == Ok::<
            Option<(Seq<char>, Seq<char>)>,
            ErrorView,
        >(None),
{
    match p {
        JsonView::Object(es) => {
            lemma_stripped_declares_nothing(es, 0);
        },
        _ => {},
    }
}

/// After the engine dependency is set, package.json declares exactly it.
pub proof fn lemma_set_dependency_is_read_back(p: JsonView, name: Seq<char>, spec: Seq<char>)
    requires
        with_engine(p, name, spec).1 is Ok,
    ensures
        declared_engine(with_engine(p, name, spec).0) == Ok::<
            Option<(Seq<char>, Seq<char>)>,
            ErrorView,
        >(Some((name, spec))),
{
    match p {
        JsonView::Object(es) => {
            let s = strip_sections(es);
            let entry = (name, JsonView::Str(spec));
            assert forall|j: int| 0 <= j < es.len() implies #[trigger] s[j].0 == es[j].0 by {}
            lemma_same_keys(s, es, section_name(0), 0);
            lemma_key_index_from(s, section_name(0), 0);
            match key_index_from(s, section_name(0), 0) {
                None => {
                    let x = (section_name(0), JsonView::Object(seq![entry]));
                    lemma_key_after_push(s, x, 0);
                    assert(s.push(x)[s.len() as int] == x);
                    lemma_engine_entry_push(Seq::empty(), entry, 0);
                    assert(Seq::<(Seq<char>, JsonView)>::empty().push(entry) =~= seq![entry]);
                },
                Some(i) => {
                    assert(s[i] == strip_member(es[i]));
                    assert(is_section(es[i].0));
                    match es[i].1 {
                        JsonView::Object(d0) => {
                            let d = without_engine(d0);
                            lemma_without_engine(d0);
                            let u = s.update(i, (s[i].0, JsonView::Object(d.push(entry))));
                            assert forall|j: int| 0 <= j < s.len() implies #[trigger] u[j].0
                                == s[j].0 by {}
                            lemma_same_keys(u, s, section_name(0), 0);
                            lemma_engine_entry_push(d, entry, 0);
                            assert(d.push(entry)[d.len() as int] == entry);
                        },
                        _ => {},
                    }
                },
            }
        },
        _ => {},
    }
}

proof fn lemma_key_index_push(
    s: Seq<(Seq<char>, JsonView)>,
    x: (Seq<char>, JsonView),
    key: Seq<char>,
    i: int,
)
    requires
        0 <= i <= s.len(),
        key_index_from(s, key, i) is Some || x.0 != key,
    ensures
        key_index_from(s.push(x), key, i) == key_index_from(s, key, i),
    decreases s.len() - i,
{
    if i < s.len() {
        assert(s.push(x)[i] == s[i]);
        if s[i].0 != key {
            lemma_key_index_push(s, x, key, i + 1);
        }
    }
}

proof fn lemma_section_names_differ(k: int)
    requires
        0 < k < 3,
    ensures
        section_name(k) != section_name(0),
{
    reveal_strlit("dependencies");
    reveal_strlit("devDependencies");
    reveal_strlit("optionalDependencies");
    assert(section_name(0)[0] == 'd');
    if k == 1 {
        assert(section_name(1).len() != section_name(0).len());
    } else {
        assert(section_name(2)[0] == 'o');
    }
}

/// After the engine dependency is set, the only member named like the engine
/// in any dependency section is the new one, `name` with `spec`, in
/// `dependencies`: every earlier engine entry, in whichever section, is gone.
pub proof fn lemma_set_dependency_is_the_only_engine(
    p: JsonView,
    name: Seq<char>,
    spec: Seq<char>,
    k: int,
)
    requires
        with_engine(p, name, spec).1 is Ok,
        0 <= k < 3,
    ensures
        member(with_engine(p, name, spec).0, section_name(k)) matches Some(JsonView::Object(d))
            ==> forall|j: int|
            0 <= j < d.len() && engine_package_name(#[trigger] d[j].0) ==> k == 0 && d[j] == (
                name,
                JsonView::Str(spec),
            ),
        k == 0 ==> (member(with_engine(p, name, spec).0, section_name(0)) matches Some(
            JsonView::Object(d),
        ) && d.contains((name, JsonView::Str(spec)))),
{
    let es = p->Object_0;
    let s = strip_sections(es);
    let entry = (name, JsonView::Str(spec));
    let key = section_name(k);
    let s0 = section_name(0);
    assert forall|j: int| 0 <= j < es.len() implies #[trigger] s[j].0 == es[j].0 by {}
    lemma_stripped_section(es, k);
    lemma_key_index_from(s, s0, 0);
    lemma_key_index_from(s, key, 0);
    if k != 0 {
        lemma_section_names_differ(k);
    }
    match key_index_from(s, s0, 0) {
        None => {
            let x = (s0, JsonView::Object(seq![entry]));
            let r = s.push(x);
            if k == 0 {
                lemma_key_after_push(s, x, 0);
                assert(r[s.len() as int] == x);
                assert(seq![entry][0] == entry);
            } else {
                lemma_key_index_push(s, x, key, 0);
                match key_index_from(s, key, 0) {
                    Some(j) => {
                        assert(r[j] == s[j]);
                        match s[j].1 {
                            JsonView::Object(d) => {
                                lemma_engine_entry_from(d, 0);
                            },
                            _ => {},
                        }
                    },
                    None => {},
                }
            }
        },
        Some(i) => {
            assert(s[i] == strip_member(es[i]));
            assert(is_section(es[i].0));
            let d0 = es[i].1->Object_0;
            let d = without_engine(d0);
            lemma_without_engine(d0);
            let r = s.update(i, (s[i].0, JsonView::Object(d.push(entry))));
            assert forall|j: int| 0 <= j < r.len() implies #[trigger] r[j].0 == s[j].0 by {}
            lemma_same_keys(r, s, key, 0);
            if k == 0 {
                assert(r[i].1 == JsonView::Object(d.push(entry)));
                assert(d.push(entry)[d.len() as int] == entry);
                assert forall|j: int|
                    0 <= j < d.push(entry).len() && engine_package_name(
                        #[trigger] d.push(entry)[j].0,
                    ) implies d.push(entry)[j] == entry by {
                    if j < d.len() {
                        assert(d.push(entry)[j] == d[j]);
                    }
                }
            } else {
                match key_index_from(s, key, 0) {
                    Some(j) => {
                        assert(j != i);
                        assert(r[j] == s[j]);
                        match s[j].1 {
                            JsonView::Object(dj) => {
                                lemma_engine_entry_from(dj, 0);
                            },
                            _ => {},
                        }
                    },
                    None => {},
                }
            }
        },
    }
}

/// Setting and removing the engine dependency keeps every other member of a
/// dependency section: a member stays exactly when it is not named like the
/// engine.
pub proof fn lemma_other_members_kept(d: Seq<(Seq<char>, JsonView)>, x: (Seq<char>, JsonView))
    ensures
        without_engine(d).contains(x) <==> (d.contains(x) && !engine_package_name(x.0)),
{
    lemma_without_engine(d);
}

// ---------------------------------------------------------------------------
// A local checkout of the engine
// ---------------------------------------------------------------------------

/// A path with every backslash turned into a slash.
pub open spec fn slashed(s: Seq<char>) -> Seq<char> {
    s.map_values(|c: char| if c == '\\' { '/' } else { c })
}

/// The dependency on a local checkout: its package name, and its path
/// relative to the project after `link:` (pnpm) or `file:` (npm, yarn).
pub open spec fn local_dependency_view(
    package: JsonView,
    project_root: Seq<char>,
    engine_root: Seq<char>,
    manager: crate::package_manager::PackageManager,
) -> Result<(Seq<char>, Seq<char>), ErrorView> {
    match string_value(member(package, "name"@)) {
        None => Err(plain_error(ErrorKind::MissingPackageName)),
        Some(n) => if !engine_package_name(n) {
            Err(subject_error(ErrorKind::NotEnginePackage, n))
        } else {
            match crate::paths::relative_text(project_root, engine_root) {
                Err(e) => Err(e),
                Ok(rel) => {
                    let prefix = if manager == crate::package_manager::PackageManager::Pnpm {
                        "link:"@
                    } else {
                        "file:"@
                    };
                    Ok((n, prefix + slashed(rel)))
                },
            }
        },
    }
}

/// The dependency on a local checkout of the engine, from the checkout's
/// package.json and the canonical directories of the project and checkout.
pub fn local_engine_dependency(
    package: &JsonValue,
    engine_root: &str,
    project_root: &str,
    manager: crate::package_manager::PackageManager,
) -> (r: Result<EngineDependency, CliError>)
    ensures
        r matches Ok(d) ==> local_dependency_view(package@, project_root@, engine_root@, manager)
            == Ok::<(Seq<char>, Seq<char>), ErrorView>((d.package_name@, d.spec@)),
        r matches Err(e) ==> local_dependency_view(
            package@,
            project_root@,
            engine_root@,
            manager,
        ) == Err::<(Seq<char>, Seq<char>), ErrorView>(e@),
{
    let package_name = engine_package_from_manifest(package)?;
    let relative = crate::paths::relative_path(project_root, engine_root)?;
    let rel = crate::text::chars_of(relative.as_str());
    let mut spec = if manager == crate::package_manager::PackageManager::Pnpm {
        string_from("link:")
    } else {
        string_from("file:")
    };
    let ghost prefix = spec@;
    let mut i: usize = 0;
    while i < rel.len()
        invariant
            i <= rel.len(),
            spec@ == prefix + slashed(rel@.take(i as int)),
        decreases rel.len() - i,
    {
        let c = if rel[i] == '\\' {
            '/'
        } else {
            rel[i]
        };
        crate::text::push_char(&mut spec, c);
        i = i + 1;
        assert(slashed(rel@.take(i as int)) =~= slashed(rel@.take(i - 1)).push(c));
    }
    assert(rel@.take(rel.len() as int) =~= rel@);
    Ok(EngineDependency { package_name, spec })
}

} // verus!
