//! Host platforms, Perry's build targets, the targets an installed Perry
//! advertises, and the choice of a target for a build request.
use crate::error::{error_view, plain_error, subject_error, CliError, ErrorKind, ErrorView};
use crate::string_set::{strictly_sorted, string_views, StringSet};
use crate::text::{
    chars_equal, chars_of, find_char, find_char_from, find_seq, find_seq_from, join, join_strings,
    lemma_find_char_from, lemma_find_seq_from, lines_of, lower_chars, lower_seq, skip_class,
    skip_class_exec, split_char, split_on, string_of, subvec, take_outside_class,
    take_outside_class_exec, text_lines, trim_class, trim_class_exec, views, CharClass, opt_view,
    string_from,
};
use vstd::prelude::*;

verus! {

#[derive(Clone, Copy, Debug, PartialEq, Eq, Structural)]
pub enum HostPlatform {
    Linux,
    Windows,
    MacOS,
    Other,
}

/// The host platform that an operating-system name denotes.
pub open spec fn host_named(v: Seq<char>) -> HostPlatform {
    if v == "linux"@ {
        HostPlatform::Linux
    } else if v == "windows"@ {
        HostPlatform::Windows
    } else if v == "macos"@ || v == "darwin"@ {
        HostPlatform::MacOS
    } else {
        HostPlatform::Other
    }
}

pub open spec fn host_label(h: HostPlatform) -> Seq<char> {
    match h {
        HostPlatform::Linux => "linux"@,
        HostPlatform::Windows => "windows"@,
        HostPlatform::MacOS => "macos"@,
        HostPlatform::Other => "unknown"@,
    }
}

impl HostPlatform {
    pub fn parse(value: &str) -> (r: HostPlatform)
        ensures
            r == host_named(value@),
    {
        if crate::text::str_equal(value, "linux") {
            HostPlatform::Linux
        } else if crate::text::str_equal(value, "windows") {
            HostPlatform::Windows
        } else if crate::text::str_equal(value, "macos") || crate::text::str_equal(
            value,
            "darwin",
        ) {
            HostPlatform::MacOS
        } else {
            HostPlatform::Other
        }
    }

    /// The name under which the platform is shown to users.
    pub fn name(self) -> (r: &'static str)
        ensures
            r@ == host_label(self),
    {
        match self {
            HostPlatform::Linux => "linux",
            HostPlatform::Windows => "windows",
            HostPlatform::MacOS => "macos",
            HostPlatform::Other => "unknown",
        }
    }
}

#[derive(Clone, Copy, Debug, PartialEq, Eq, Structural)]
pub enum BuildTarget {
    Linux,
    Windows,
    MacOS,
    Android,
    IOS,
    IosSimulator,
    TvOS,
    TvOSSimulator,
    WatchOS,
    WatchOSSimulator,
    VisionOS,
    VisionOSSimulator,
    WearOS,
    Web,
    Wasm,
    /// A target that Perry names but this tool has no variant for.
    Other,
}

/// The target that an exact Perry target name denotes.
pub open spec fn target_named(v: Seq<char>) -> Option<BuildTarget> {
    if v == "linux"@ {
        Some(BuildTarget::Linux)
    } else if v == "windows"@ {
        Some(BuildTarget::Windows)
    } else if v == "macos"@ {
        Some(BuildTarget::MacOS)
    } else if v == "android"@ {
        Some(BuildTarget::Android)
    } else if v == "ios"@ {
        Some(BuildTarget::IOS)
    } else if v == "ios-simulator"@ {
        Some(BuildTarget::IosSimulator)
    } else if v == "tvos"@ {
        Some(BuildTarget::TvOS)
    } else if v == "tvos-simulator"@ {
        Some(BuildTarget::TvOSSimulator)
    } else if v == "watchos"@ {
        Some(BuildTarget::WatchOS)
    } else if v == "watchos-simulator"@ {
        Some(BuildTarget::WatchOSSimulator)
    } else if v == "visionos"@ {
        Some(BuildTarget::VisionOS)
    } else if v == "visionos-simulator"@ {
        Some(BuildTarget::VisionOSSimulator)
    } else if v == "wearos"@ {
        Some(BuildTarget::WearOS)
    } else if v == "web"@ {
        Some(BuildTarget::Web)
    } else if v == "wasm"@ {
        Some(BuildTarget::Wasm)
    } else {
        None
    }
}

/// The target of any Perry target name: an exact name denotes its target; a
/// name `family-rest` whose part before the first `-` is an exact name
/// denotes that family's target (`android-arm64` is an Android target); any
/// other non-empty name is `Other`; the empty name denotes none.
pub open spec fn perry_target_kind(v: Seq<char>) -> Option<BuildTarget> {
    match target_named(v) {
        Some(t) => Some(t),
        None => {
            if v.len() == 0 {
                None
            } else {
                match find_char_from(v, '-', 0) {
                    Some(k) => match target_named(v.take(k)) {
                        Some(t) => Some(t),
                        None => Some(BuildTarget::Other),
                    },
                    None => Some(BuildTarget::Other),
                }
            }
        },
    }
}

/// The name Perry uses for a target; the macOS target is Perry's native
/// default and has none, and neither has `Other`.
pub open spec fn perry_name(t: BuildTarget) -> Option<Seq<char>> {
    match t {
        BuildTarget::Linux => Some("linux"@),
        BuildTarget::Windows => Some("windows"@),
        BuildTarget::MacOS => None,
        BuildTarget::Android => Some("android"@),
        BuildTarget::IOS => Some("ios"@),
        BuildTarget::IosSimulator => Some("ios-simulator"@),
        BuildTarget::TvOS => Some("tvos"@),
        BuildTarget::TvOSSimulator => Some("tvos-simulator"@),
        BuildTarget::WatchOS => Some("watchos"@),
        BuildTarget::WatchOSSimulator => Some("watchos-simulator"@),
        BuildTarget::VisionOS => Some("visionos"@),
        BuildTarget::VisionOSSimulator => Some("visionos-simulator"@),
        BuildTarget::WearOS => Some("wearos"@),
        BuildTarget::Web => Some("web"@),
        BuildTarget::Wasm => Some("wasm"@),
        BuildTarget::Other => None,
    }
}

/// The name of a target's platform as shown to users and used for build
/// directories.
pub open spec fn platform_label(t: BuildTarget) -> Seq<char> {
    match t {
        BuildTarget::MacOS => "macos"@,
        BuildTarget::Other => "custom"@,
        _ => perry_name(t).unwrap(),
    }
}

pub open spec fn extension_of(t: BuildTarget) -> Option<Seq<char>> {
    match t {
        BuildTarget::Windows => Some("exe"@),
        BuildTarget::Web | BuildTarget::Wasm => Some("html"@),
        _ => None,
    }
}

pub open spec fn runs_on(t: BuildTarget, host: HostPlatform) -> bool {
    ||| t == BuildTarget::Linux && host == HostPlatform::Linux
    ||| t == BuildTarget::Windows && host == HostPlatform::Windows
    ||| t == BuildTarget::MacOS && host == HostPlatform::MacOS
}

fn named_target(v: &[char]) -> (r: Option<BuildTarget>)
    ensures
        r == target_named(v@),
{
    if chars_equal(v, chars_of("linux").as_slice()) {
        Some(BuildTarget::Linux)
    } else if chars_equal(v, chars_of("windows").as_slice()) {
        Some(BuildTarget::Windows)
    } else if chars_equal(v, chars_of("macos").as_slice()) {
        Some(BuildTarget::MacOS)
    } else if chars_equal(v, chars_of("android").as_slice()) {
        Some(BuildTarget::Android)
    } else if chars_equal(v, chars_of("ios").as_slice()) {
        Some(BuildTarget::IOS)
    } else if chars_equal(v, chars_of("ios-simulator").as_slice()) {
        Some(BuildTarget::IosSimulator)
    } else if chars_equal(v, chars_of("tvos").as_slice()) {
        Some(BuildTarget::TvOS)
    } else if chars_equal(v, chars_of("tvos-simulator").as_slice()) {
        Some(BuildTarget::TvOSSimulator)
    } else if chars_equal(v, chars_of("watchos").as_slice()) {
        Some(BuildTarget::WatchOS)
    } else if chars_equal(v, chars_of("watchos-simulator").as_slice()) {
        Some(BuildTarget::WatchOSSimulator)
    } else if chars_equal(v, chars_of("visionos").as_slice()) {
        Some(BuildTarget::VisionOS)
    } else if chars_equal(v, chars_of("visionos-simulator").as_slice()) {
        Some(BuildTarget::VisionOSSimulator)
    } else if chars_equal(v, chars_of("wearos").as_slice()) {
        Some(BuildTarget::WearOS)
    } else if chars_equal(v, chars_of("web").as_slice()) {
        Some(BuildTarget::Web)
    } else if chars_equal(v, chars_of("wasm").as_slice()) {
        Some(BuildTarget::Wasm)
    } else {
        None
    }
}

impl BuildTarget {
    pub fn from_perry_target(value: &str) -> (r: Result<BuildTarget, CliError>)
        ensures
            r matches Ok(t) ==> perry_target_kind(value@) == Some(t),
            r matches Err(e) ==> perry_target_kind(value@) is None && e@ == subject_error(
                ErrorKind::UnsupportedPerryTarget,
                value@,
            ),
    {
        let v = chars_of(value);
        match named_target(v.as_slice()) {
            Some(t) => Ok(t),
            None => {
                if v.len() == 0 {
                    return Err(CliError::about(ErrorKind::UnsupportedPerryTarget, value));
                }
                match find_char(v.as_slice(), '-', 0) {
                    Some(k) => {
                        proof {
                            lemma_find_char_from(v@, '-', 0);
                        }
                        let family = subvec(v.as_slice(), 0, k);
                        assert(family@ =~= v@.take(k as int));
                        match named_target(family.as_slice()) {
                            Some(t) => Ok(t),
                            None => Ok(BuildTarget::Other),
                        }
                    },
                    None => Ok(BuildTarget::Other),
                }
            },
        }
    }

    pub fn perry_target(self) -> (r: Option<&'static str>)
        ensures
            r matches Some(s) ==> perry_name(self) == Some(s@),
            r is None ==> perry_name(self) is None,
    {
        match self {
            BuildTarget::Linux => Some("linux"),
            BuildTarget::Windows => Some("windows"),
            BuildTarget::MacOS => None,
            BuildTarget::Android => Some("android"),
            BuildTarget::IOS => Some("ios"),
            BuildTarget::IosSimulator => Some("ios-simulator"),
            BuildTarget::TvOS => Some("tvos"),
            BuildTarget::TvOSSimulator => Some("tvos-simulator"),
            BuildTarget::WatchOS => Some("watchos"),
            BuildTarget::WatchOSSimulator => Some("watchos-simulator"),
            BuildTarget::VisionOS => Some("visionos"),
            BuildTarget::VisionOSSimulator => Some("visionos-simulator"),
            BuildTarget::WearOS => Some("wearos"),
            BuildTarget::Web => Some("web"),
            BuildTarget::Wasm => Some("wasm"),
            BuildTarget::Other => None,
        }
    }

    pub fn platform_name(self) -> (r: &'static str)
        ensures
            r@ == platform_label(self),
    {
        match self {
            BuildTarget::Linux => "linux",
            BuildTarget::Windows => "windows",
            BuildTarget::MacOS => "macos",
            BuildTarget::Android => "android",
            BuildTarget::IOS => "ios",
            BuildTarget::IosSimulator => "ios-simulator",
            BuildTarget::TvOS => "tvos",
            BuildTarget::TvOSSimulator => "tvos-simulator",
            BuildTarget::WatchOS => "watchos",
            BuildTarget::WatchOSSimulator => "watchos-simulator",
            BuildTarget::VisionOS => "visionos",
            BuildTarget::VisionOSSimulator => "visionos-simulator",
            BuildTarget::WearOS => "wearos",
            BuildTarget::Web => "web",
            BuildTarget::Wasm => "wasm",
            BuildTarget::Other => "custom",
        }
    }

    pub fn output_extension(self) -> (r: Option<&'static str>)
        ensures
            r matches Some(s) ==> extension_of(self) == Some(s@),
            r is None ==> extension_of(self) is None,
    {
        match self {
            BuildTarget::Windows => Some("exe"),
            BuildTarget::Web | BuildTarget::Wasm => Some("html"),
            _ => None,
        }
    }

    pub fn can_run_on(self, host: HostPlatform) -> (r: bool)
        ensures
            r == runs_on(self, host),
    {
        match (self, host) {
            (BuildTarget::Linux, HostPlatform::Linux) => true,
            (BuildTarget::Windows, HostPlatform::Windows) => true,
            (BuildTarget::MacOS, HostPlatform::MacOS) => true,
            _ => false,
        }
    }
}

// ---------------------------------------------------------------------------
// What an installed Perry advertises
// ---------------------------------------------------------------------------

pub open spec fn target_marker() -> Seq<char> {
    "Target platform:"@
}

pub open spec fn default_marker() -> Seq<char> {
    "(default:"@
}

/// A comma-separated entry of Perry's target list reduced to the target
/// name: trimmed, its first word, without surrounding characters other than
/// ASCII letters, digits and `-`.
pub open spec fn clean_target(piece: Seq<char>) -> Seq<char> {
    trim_class(
        take_outside_class(
            skip_class(trim_class(piece, CharClass::Whitespace), CharClass::AsciiWhitespace),
            CharClass::AsciiWhitespace,
        ),
        CharClass::NotNameChar,
    )
}

/// The comma-separated entries after the first `Target platform:` of a line
/// and before the following `(default:`.
pub open spec fn target_entries(line: Seq<char>) -> Option<Seq<Seq<char>>> {
    match find_seq_from(line, target_marker(), 0) {
        None => None,
        Some(i) => {
            let rest = line.skip(i + target_marker().len());
            let listed = match find_seq_from(rest, default_marker(), 0) {
                Some(j) => rest.take(j),
                None => rest,
            };
            Some(split_char(listed, ','))
        },
    }
}

/// The target names a line of `perry compile --help` advertises.
pub open spec fn line_targets(line: Seq<char>) -> Set<Seq<char>> {
    match target_entries(line) {
        None => Set::empty(),
        Some(entries) => Set::new(
            |t: Seq<char>|
                t.len() > 0 && exists|j: int|
                    0 <= j < entries.len() && #[trigger] clean_target(entries[j]) == t,
        ),
    }
}

/// The target names the whole help text advertises.
pub open spec fn help_targets(help: Seq<char>) -> Set<Seq<char>> {
    Set::new(
        |t: Seq<char>|
            exists|i: int|
                0 <= i < text_lines(help).len() && #[trigger] line_targets(text_lines(help)[i]).contains(
                    t,
                ),
    )
}

fn clean_target_exec(piece: &[char]) -> (r: Vec<char>)
    ensures
        r@ == clean_target(piece@),
{
    let a = trim_class_exec(piece, CharClass::Whitespace);
    let b = skip_class_exec(a.as_slice(), CharClass::AsciiWhitespace);
    let c = take_outside_class_exec(b.as_slice(), CharClass::AsciiWhitespace);
    trim_class_exec(c.as_slice(), CharClass::NotNameChar)
}

fn target_entries_exec(line: &[char]) -> (r: Option<Vec<Vec<char>>>)
    ensures
        r matches Some(v) ==> target_entries(line@) == Some(views(v@)),
        r is None ==> target_entries(line@) is None,
{
    let marker = chars_of("Target platform:");
    let dflt = chars_of("(default:");
    match find_seq(line, marker.as_slice()) {
        None => None,
        Some(i) => {
            proof {
                lemma_find_seq_from(line@, marker@, 0);
                assert(i + marker@.len() <= line@.len());
            }
            let mlen = marker.len();
            assert(mlen == marker@.len());
            assert(i + mlen <= line@.len());
            assert(line@.len() == line.len());
            let rest = subvec(line, i + mlen, line.len());
            assert(rest@ =~= line@.skip(i + marker@.len()));
            let listed = match find_seq(rest.as_slice(), dflt.as_slice()) {
                Some(j) => {
                    proof {
                        lemma_find_seq_from(rest@, dflt@, 0);
                    }
                    let l = subvec(rest.as_slice(), 0, j);
                    assert(l@ =~= rest@.take(j as int));
                    l
                },
                None => rest,
            };
            Some(split_on(listed.as_slice(), ','))
        },
    }
}

#[derive(Debug, PartialEq, Eq)]
pub struct PerryCapabilities {
    supported_targets: StringSet,
}

impl Default for PerryCapabilities {
    fn default() -> (c: PerryCapabilities)
        ensures
            c.advertised() == Seq::<Seq<char>>::empty(),
    {
        PerryCapabilities { supported_targets: StringSet::new() }
    }
}

impl PerryCapabilities {
    /// The advertised targets, in increasing order and without repetitions.
    pub closed spec fn advertised(&self) -> Seq<Seq<char>> {
        self.supported_targets.elems()
    }

    /// No advertised target name is empty.
    #[verifier::type_invariant]
    spec fn names_nonempty(&self) -> bool {
        forall|i: int|
            0 <= i < self.supported_targets.elems().len() ==> #[trigger] self.supported_targets.elems()[i].len() > 0
    }

    /// Reads the targets that `perry compile --help` advertises.
    pub fn from_compile_help(help: &str) -> (c: PerryCapabilities)
        ensures
            c.advertised().to_set() == help_targets(help@),
            forall|i: int| 0 <= i < c.advertised().len() ==> #[trigger] c.advertised()[i].len() > 0,
    {
        let h = chars_of(help);
        let lines = lines_of(h.as_slice());
        let ghost ls = text_lines(help@);
        let mut set = StringSet::new();
        let mut li: usize = 0;
        while li < lines.len()
            invariant
                li <= lines.len(),
                views(lines@) == ls,
                h@ == help@,
                set.elems().to_set() == Set::new(
                    |t: Seq<char>|
                        exists|i: int| 0 <= i < li && #[trigger] line_targets(ls[i]).contains(t),
                ),
            decreases lines.len() - li,
        {
            let ghost before = set.elems().to_set();
            assert(lines@[li as int]@ == ls[li as int]);
            match target_entries_exec(lines[li].as_slice()) {
                None => {
                    assert(line_targets(ls[li as int]) =~= Set::<Seq<char>>::empty());
                },
                Some(entries) => {
                    let ghost es = views(entries@);
                    let mut ei: usize = 0;
                    while ei < entries.len()
                        invariant
                            ei <= entries.len(),
                            es == views(entries@),
                            set.elems().to_set() == before.union(
                                Set::new(
                                    |t: Seq<char>|
                                        t.len() > 0 && exists|j: int|
                                            0 <= j < ei && #[trigger] clean_target(es[j]) == t,
                                ),
                            ),
                        decreases entries.len() - ei,
                    {
                        let ghost prev = set.elems().to_set();
                        assert(entries@[ei as int]@ == es[ei as int]);
                        let token = clean_target_exec(entries[ei].as_slice());
                        if token.len() > 0 {
                            set.insert(string_of(token.as_slice()));
                        }
                        ei = ei + 1;
                        assert(set.elems().to_set() =~= before.union(
                            Set::new(
                                |t: Seq<char>|
                                    t.len() > 0 && exists|j: int|
                                        0 <= j < ei && #[trigger] clean_target(es[j]) == t,
                            ),
                        )) by {
                            assert forall|t: Seq<char>|
                                t.len() > 0 && (exists|j: int|
                                    0 <= j < ei && #[trigger] clean_target(es[j]) == t) implies set.elems().to_set().contains(t) by {
                                let j = choose|j: int| 0 <= j < ei && #[trigger] clean_target(es[j]) == t;
                                if j < ei - 1 {
                                    assert(prev.contains(t));
                                }
                            }
                        }
                    }
                    assert(line_targets(ls[li as int]) =~= Set::new(
                        |t: Seq<char>|
                            t.len() > 0 && exists|j: int|
                                0 <= j < entries.len() && #[trigger] clean_target(es[j]) == t,
                    ));
                },
            }
            li = li + 1;
            assert(set.elems().to_set() =~= Set::new(
                |t: Seq<char>|
                    exists|i: int| 0 <= i < li && #[trigger] line_targets(ls[i]).contains(t),
            )) by {
                assert forall|t: Seq<char>|
                    (exists|i: int| 0 <= i < li && #[trigger] line_targets(ls[i]).contains(
                        t,
                    )) implies set.elems().to_set().contains(t) by {
                    let i = choose|i: int| 0 <= i < li && #[trigger] line_targets(ls[i]).contains(t);
                    if i < li - 1 {
                        assert(before.contains(t));
                    }
                }
            }
        }
        assert(set.elems().to_set() =~= help_targets(help@));
        assert forall|i: int| 0 <= i < set.elems().len() implies #[trigger] set.elems()[i].len() > 0 by {
            assert(set.elems().to_set().contains(set.elems()[i]));
        }
        PerryCapabilities { supported_targets: set }
    }

    pub fn supports(&self, target: &str) -> (r: bool)
        ensures
            r == self.advertised().contains(target@),
    {
        self.supported_targets.contains(target)
    }

    /// The advertised targets in increasing order.
    pub fn supported_targets(&self) -> (v: Vec<String>)
        ensures
            string_views(v@) == self.advertised(),
            strictly_sorted(self.advertised()),
            forall|i: int| 0 <= i < self.advertised().len() ==> #[trigger] self.advertised()[i].len() > 0,
    {
        proof {
            use_type_invariant(self);
        }
        self.supported_targets.to_vec()
    }
}

// ---------------------------------------------------------------------------
// Choosing the target of a build
// ---------------------------------------------------------------------------

#[derive(Clone, Debug, PartialEq, Eq)]
pub struct TargetRequest {
    /// A friendly operating-system name (`--os`).
    pub os: Option<String>,
    /// An exact Perry target (`--target`).
    pub target: Option<String>,
}

impl Default for TargetRequest {
    fn default() -> (r: TargetRequest)
        ensures
            r.os is None,
            r.target is None,
    {
        TargetRequest { os: None, target: None }
    }
}

#[derive(Clone, Debug, PartialEq, Eq)]
pub struct ResolvedTarget {
    pub target: BuildTarget,
    /// The name passed to Perry's `--target`; none for Perry's native default.
    pub perry_target: Option<String>,
}

impl ResolvedTarget {
    pub fn can_run_on(&self, host: HostPlatform) -> (r: bool)
        ensures
            r == runs_on(self.target, host),
    {
        self.target.can_run_on(host)
    }
}

/// The target of a friendly operating-system name other than macOS.
pub open spec fn friendly_target(os: Seq<char>) -> Option<BuildTarget> {
    if os == "linux"@ {
        Some(BuildTarget::Linux)
    } else if os == "windows"@ {
        Some(BuildTarget::Windows)
    } else if os == "android"@ {
        Some(BuildTarget::Android)
    } else if os == "ios"@ {
        Some(BuildTarget::IOS)
    } else if os == "tvos"@ {
        Some(BuildTarget::TvOS)
    } else if os == "watchos"@ {
        Some(BuildTarget::WatchOS)
    } else if os == "visionos"@ {
        Some(BuildTarget::VisionOS)
    } else if os == "web"@ {
        Some(BuildTarget::Web)
    } else {
        None
    }
}

/// The outcome of a target request against the advertised targets on a host:
/// the target and the name passed to Perry, or the error.
pub open spec fn resolution(
    os: Option<Seq<char>>,
    exact: Option<Seq<char>>,
    advertised: Seq<Seq<char>>,
    host: HostPlatform,
) -> Result<(BuildTarget, Option<Seq<char>>), ErrorView> {
    let listing = join(advertised, ", "@);
    if os is Some && exact is Some {
        Err(plain_error(ErrorKind::ConflictingTargetOptions))
    } else if exact is Some {
        let v = exact.unwrap();
        match perry_target_kind(v) {
            None => Err(subject_error(ErrorKind::UnsupportedPerryTarget, v)),
            Some(t) => if advertised.contains(v) {
                Ok((t, Some(v)))
            } else {
                Err(error_view(ErrorKind::TargetNotAdvertised, v, listing))
            },
        }
    } else if os is Some {
        let l = lower_seq(os.unwrap());
        if l == "macos"@ || l == "darwin"@ {
            if host == HostPlatform::MacOS {
                Ok((BuildTarget::MacOS, None))
            } else {
                Err(plain_error(ErrorKind::MacosHostRequired))
            }
        } else {
            match friendly_target(l) {
                None => Err(subject_error(ErrorKind::UnsupportedOperatingSystem, l)),
                Some(t) => {
                    let n = perry_name(t).unwrap();
                    if advertised.contains(n) {
                        Ok((t, Some(n)))
                    } else {
                        Err(error_view(ErrorKind::TargetNotAdvertised, n, listing))
                    }
                },
            }
        }
    } else {
        match host {
            HostPlatform::Linux => Ok((BuildTarget::Linux, None)),
            HostPlatform::Windows => Ok((BuildTarget::Windows, None)),
            HostPlatform::MacOS => Ok((BuildTarget::MacOS, None)),
            HostPlatform::Other => Err(plain_error(ErrorKind::UnsupportedHost)),
        }
    }
}

/// Whether an outcome agrees with `resolution`.
pub open spec fn resolves_as(
    r: Result<ResolvedTarget, CliError>,
    expected: Result<(BuildTarget, Option<Seq<char>>), ErrorView>,
) -> bool {
    match r {
        Ok(t) => expected == Ok::<(BuildTarget, Option<Seq<char>>), ErrorView>(
            (t.target, opt_view(t.perry_target)),
        ),
        Err(e) => expected == Err::<(BuildTarget, Option<Seq<char>>), ErrorView>(e@),
    }
}

fn friendly_target_exec(os: &[char]) -> (r: Option<BuildTarget>)
    ensures
        r == friendly_target(os@),
{
    if chars_equal(os, chars_of("linux").as_slice()) {
        Some(BuildTarget::Linux)
    } else if chars_equal(os, chars_of("windows").as_slice()) {
        Some(BuildTarget::Windows)
    } else if chars_equal(os, chars_of("android").as_slice()) {
        Some(BuildTarget::Android)
    } else if chars_equal(os, chars_of("ios").as_slice()) {
        Some(BuildTarget::IOS)
    } else if chars_equal(os, chars_of("tvos").as_slice()) {
        Some(BuildTarget::TvOS)
    } else if chars_equal(os, chars_of("watchos").as_slice()) {
        Some(BuildTarget::WatchOS)
    } else if chars_equal(os, chars_of("visionos").as_slice()) {
        Some(BuildTarget::VisionOS)
    } else if chars_equal(os, chars_of("web").as_slice()) {
        Some(BuildTarget::Web)
    } else {
        None
    }
}

/// Fails unless the installed Perry advertises `value`.
pub fn ensure_target_supported(value: &str, capabilities: &PerryCapabilities) -> (r: Result<
    (),
    CliError,
>)
    ensures
        r is Ok <==> capabilities.advertised().contains(value@),
        r matches Err(e) ==> e@ == error_view(
            ErrorKind::TargetNotAdvertised,
            value@,
            join(capabilities.advertised(), ", "@),
        ),
{
    if !capabilities.supports(value) {
        let available = join_strings(&capabilities.supported_targets(), ", ");
        return Err(CliError::with_detail(ErrorKind::TargetNotAdvertised, value, available.as_str()));
    }
    Ok(())
}

fn resolve_perry_target(value: &str, capabilities: &PerryCapabilities) -> (r: Result<
    ResolvedTarget,
    CliError,
>)
    ensures
        resolves_as(r, resolution(None, Some(value@), capabilities.advertised(), HostPlatform::Other)),
{
    let target = BuildTarget::from_perry_target(value)?;
    ensure_target_supported(value, capabilities)?;
    Ok(ResolvedTarget { target, perry_target: Some(string_from(value)) })
}

/// Chooses the target of a build: an exact `--target`, a friendly `--os`, or
/// Perry's native target for the host.
pub fn resolve_target(
    request: &TargetRequest,
    capabilities: &PerryCapabilities,
    host: HostPlatform,
) -> (r: Result<ResolvedTarget, CliError>)
    ensures
        resolves_as(
            r,
            resolution(
                opt_view(request.os),
                opt_view(request.target),
                capabilities.advertised(),
                host,
            ),
        ),
        request.target matches Some(t) ==> (request.os is None ==> ((r is Ok
            <==> capabilities.advertised().contains(t@)) && (r matches Ok(x) ==> (x.perry_target
            matches Some(p) && p@ == t@)))),
        r matches Ok(x) ==> (x.perry_target matches Some(p) ==> capabilities.advertised().contains(
            p@,
        )),
        request.os matches Some(o) ==> (request.target is None ==> (r matches Ok(x) ==> (
        x.perry_target matches Some(p) ==> p@ == lower_seq(o@) && perry_name(x.target) == Some(
            p@,
        )))),
{
    proof {
        use_type_invariant(capabilities);
        if request.os is Some {
            lemma_os_request_uses_its_own_name(
                request.os.unwrap()@,
                capabilities.advertised(),
                host,
            );
        }
        lemma_resolved_names_are_advertised(
            opt_view(request.os),
            opt_view(request.target),
            capabilities.advertised(),
            host,
        );
        if request.os is None && request.target is Some {
            lemma_exact_target_accepted_iff_advertised(
                request.target.unwrap()@,
                capabilities.advertised(),
                host,
            );
        }
    }
    if request.os.is_some() && request.target.is_some() {
        return Err(CliError::new(ErrorKind::ConflictingTargetOptions));
    }
    match &request.target {
        Some(exact) => {
            return resolve_perry_target(exact.as_str(), capabilities);
        },
        None => {},
    }
    match &request.os {
        Some(os) => {
            let lowered = lower_chars(chars_of(os.as_str()).as_slice());
            if chars_equal(lowered.as_slice(), chars_of("macos").as_slice()) || chars_equal(
                lowered.as_slice(),
                chars_of("darwin").as_slice(),
            ) {
                if host != HostPlatform::MacOS {
                    return Err(CliError::new(ErrorKind::MacosHostRequired));
                }
                return Ok(ResolvedTarget { target: BuildTarget::MacOS, perry_target: None });
            }
            match friendly_target_exec(lowered.as_slice()) {
                None => {
                    let l = string_of(lowered.as_slice());
                    Err(CliError::about(ErrorKind::UnsupportedOperatingSystem, l.as_str()))
                },
                Some(platform) => {
                    let name = platform.perry_target().unwrap();
                    ensure_target_supported(name, capabilities)?;
                    Ok(ResolvedTarget { target: platform, perry_target: Some(string_from(name)) })
                },
            }
        },
        None => match host {
            HostPlatform::Linux => Ok(ResolvedTarget { target: BuildTarget::Linux, perry_target: None }),
            HostPlatform::Windows => Ok(
                ResolvedTarget { target: BuildTarget::Windows, perry_target: None },
            ),
            HostPlatform::MacOS => Ok(ResolvedTarget { target: BuildTarget::MacOS, perry_target: None }),
            HostPlatform::Other => Err(CliError::new(ErrorKind::UnsupportedHost)),
        },
    }
}

/// A target is handed to Perry by name only when the installed Perry
/// advertises that name.
pub proof fn lemma_resolved_names_are_advertised(
    os: Option<Seq<char>>,
    exact: Option<Seq<char>>,
    advertised: Seq<Seq<char>>,
    host: HostPlatform,
)
    ensures
        resolution(os, exact, advertised, host) matches Ok((_, Some(n))) ==> advertised.contains(
            n,
        ),
{
}

/// An operating-system request resolves to that system's target, under
/// Perry's name for it, or fails: no other platform is put in its place.
pub proof fn lemma_os_request_is_not_substituted(
    os: Seq<char>,
    advertised: Seq<Seq<char>>,
    host: HostPlatform,
)
    ensures
        resolution(Some(os), None, advertised, host) matches Ok((t, n)) ==> {
            ||| friendly_target(lower_seq(os)) == Some(t) && n == perry_name(t)
            ||| t == BuildTarget::MacOS && n is None && host == HostPlatform::MacOS
        },
{
}

/// A friendly operating-system name denotes the target whose Perry name is
/// that very name, and which Perry's exact name denotes too.
pub proof fn lemma_friendly_name_is_perry_name(os: Seq<char>)
    ensures
        friendly_target(os) matches Some(t) ==> perry_name(t) == Some(os) && target_named(os)
            == Some(t),
{
    lemma_friendly_names_are_exact(os);
}

proof fn lemma_friendly_names_are_exact(os: Seq<char>)
    ensures
        friendly_target(os) is Some ==> target_named(os) == friendly_target(os),
{
    reveal_strlit("linux");
    reveal_strlit("windows");
    reveal_strlit("macos");
    reveal_strlit("android");
    reveal_strlit("ios");
    reveal_strlit("tvos");
    reveal_strlit("watchos");
    reveal_strlit("visionos");
    reveal_strlit("web");
    reveal_strlit("ios-simulator");
    reveal_strlit("tvos-simulator");
    reveal_strlit("watchos-simulator");
    reveal_strlit("visionos-simulator");
    reveal_strlit("wearos");
    assert("wearos"@.len() != "web"@.len() && "visionos-simulator"@[0] == 'v');
    assert("ios-simulator"@[0] == 'i' && "tvos-simulator"@[0] == 't' && "watchos-simulator"@[0]
        == 'w' && "ios-simulator"@.len() != "ios"@.len() && "tvos-simulator"@.len() != "tvos"@.len());
    assert("linux"@[0] == 'l' && "macos"@[0] == 'm' && "windows"@[0] == 'w' && "android"@[0]
        == 'a' && "ios"@[0] == 'i' && "tvos"@[0] == 't' && "watchos"@[1] == 'a' && "visionos"@[0]
        == 'v' && "web"@[0] == 'w' && "windows"@[1] == 'i' && "web"@[1] == 'e');
    if os == "linux"@ {
        assert(target_named(os) == Some(BuildTarget::Linux));
    } else if os == "windows"@ {
        assert(target_named(os) == Some(BuildTarget::Windows));
    } else if os == "android"@ {
        assert(target_named(os) == Some(BuildTarget::Android));
    } else if os == "ios"@ {
        assert(target_named(os) == Some(BuildTarget::IOS));
    } else if os == "tvos"@ {
        assert(target_named(os) == Some(BuildTarget::TvOS));
    } else if os == "watchos"@ {
        assert(target_named(os) == Some(BuildTarget::WatchOS));
    } else if os == "visionos"@ {
        assert(target_named(os) == Some(BuildTarget::VisionOS));
    } else if os == "web"@ {
        assert(target_named(os) == Some(BuildTarget::Web));
    }
}

/// An operating-system request that resolves to a target handed to Perry by
/// name hands it the requested system's name (in lower case), which is that
/// target's Perry name; resolved without a name, it is the macOS build on a
/// macOS host. A friendly name that Perry advertises is always accepted.
pub proof fn lemma_os_request_uses_its_own_name(
    os: Seq<char>,
    advertised: Seq<Seq<char>>,
    host: HostPlatform,
)
    ensures
        resolution(Some(os), None, advertised, host) matches Ok((t, Some(n))) ==> n == lower_seq(
            os,
        ) && perry_name(t) == Some(n) && target_named(n) == Some(t),
        resolution(Some(os), None, advertised, host) matches Ok((t, None)) ==> t
            == BuildTarget::MacOS && host == HostPlatform::MacOS,
        friendly_target(lower_seq(os)) is Some && advertised.contains(lower_seq(os)) ==> resolution(
            Some(os),
            None,
            advertised,
            host,
        ) == Ok::<(BuildTarget, Option<Seq<char>>), ErrorView>(
            (friendly_target(lower_seq(os)).unwrap(), Some(lower_seq(os))),
        ),
{
    lemma_friendly_name_is_perry_name(lower_seq(os));
    reveal_strlit("macos");
    reveal_strlit("darwin");
    reveal_strlit("linux");
    reveal_strlit("windows");
    reveal_strlit("android");
    reveal_strlit("ios");
    reveal_strlit("tvos");
    reveal_strlit("watchos");
    reveal_strlit("visionos");
    reveal_strlit("web");
    let l = lower_seq(os);
    if friendly_target(l) is Some {
        assert(l.len() > 0);
        assert("macos"@[0] == 'm' && "darwin"@[0] == 'd' && "linux"@[0] == 'l' && "windows"@[0]
            == 'w' && "android"@[0] == 'a' && "ios"@[0] == 'i' && "tvos"@[0] == 't'
            && "watchos"@[0] == 'w' && "visionos"@[0] == 'v' && "web"@[0] == 'w');
        assert(l[0] != 'm' && l[0] != 'd');
    }
}

/// With neither an operating system nor a target asked for, the build is for
/// the host, under Perry's native default.
pub proof fn lemma_default_is_host(advertised: Seq<Seq<char>>, host: HostPlatform)
    ensures
        resolution(None, None, advertised, host) matches Ok((t, n)) ==> n is None && runs_on(
            t,
            host,
        ),
        host != HostPlatform::Other ==> resolution(None, None, advertised, host) is Ok,
{
}

/// Perry's name of a target is read back as that target.
pub proof fn lemma_perry_name_round_trip(t: BuildTarget)
    requires
        perry_name(t) is Some,
    ensures
        perry_target_kind(perry_name(t).unwrap()) == Some(t),
{
    reveal_strlit("linux");
    reveal_strlit("windows");
    reveal_strlit("macos");
    reveal_strlit("android");
    reveal_strlit("ios");
    reveal_strlit("ios-simulator");
    reveal_strlit("tvos");
    reveal_strlit("tvos-simulator");
    reveal_strlit("watchos");
    reveal_strlit("watchos-simulator");
    reveal_strlit("visionos");
    reveal_strlit("visionos-simulator");
    reveal_strlit("wearos");
    reveal_strlit("web");
    reveal_strlit("wasm");
    let v = perry_name(t).unwrap();
    assert(v[0] == v[0] && v[1] == v[1]);
    assert("linux"@[0] == 'l' && "macos"@[0] == 'm' && "windows"@[0] == 'w' && "android"@[0]
        == 'a' && "watchos"@[1] == 'a' && "windows"@[1] == 'i' && "ios"@[0] == 'i' && "web"@[0]
        == 'w' && "tvos"@[0] == 't' && "wasm"@[0] == 'w');
    match t {
        BuildTarget::Linux => assert(target_named(v) == Some(t)),
        BuildTarget::Windows => assert(target_named(v) == Some(t)),
        BuildTarget::Android => assert(target_named(v) == Some(t)),
        BuildTarget::IOS => assert(target_named(v) == Some(t)),
        BuildTarget::IosSimulator => assert(target_named(v) == Some(t)),
        BuildTarget::TvOS => assert(target_named(v) == Some(t)),
        BuildTarget::TvOSSimulator => assert(target_named(v) == Some(t)),
        BuildTarget::WatchOS => assert(target_named(v) == Some(t)),
        BuildTarget::WatchOSSimulator => assert(target_named(v) == Some(t)),
        BuildTarget::VisionOS => assert(target_named(v) == Some(t)),
        BuildTarget::VisionOSSimulator => assert(target_named(v) == Some(t)),
        BuildTarget::WearOS => assert(target_named(v) == Some(t)),
        BuildTarget::Web => assert(target_named(v) == Some(t)),
        BuildTarget::Wasm => assert(target_named(v) == Some(t)),
        _ => {},
    }
}

/// An exact target is accepted exactly when the installed Perry advertises
/// it (advertised names being non-empty), and it is handed to Perry as given.
pub proof fn lemma_exact_target_accepted_iff_advertised(
    t: Seq<char>,
    advertised: Seq<Seq<char>>,
    host: HostPlatform,
)
    requires
        forall|i: int| 0 <= i < advertised.len() ==> #[trigger] advertised[i].len() > 0,
    ensures
        resolution(None, Some(t), advertised, host) is Ok <==> advertised.contains(t),
        resolution(None, Some(t), advertised, host) matches Ok((_, n)) ==> n == Some(t),
{
    if advertised.contains(t) {
        let i = choose|i: int| 0 <= i < advertised.len() && advertised[i] == t;
        assert(advertised[i].len() > 0);
        assert(perry_target_kind(t) is Some);
    }
}

} // verus!
