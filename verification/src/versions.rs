//! Semantic versions, read and compared by the `semver` crate.
use crate::error::{subject_error, CliError, ErrorKind};
use vstd::prelude::*;

verus! {

/// The parts of a semantic version.
#[derive(Clone, Debug, PartialEq, Eq)]
pub struct SemVer {
    pub major: u64,
    pub minor: u64,
    pub patch: u64,
    /// The pre-release identifiers, empty for none.
    pub pre: String,
    /// The build metadata, empty for none.
    pub build: String,
}

pub type SemVerView = (u64, u64, u64, Seq<char>, Seq<char>);

impl View for SemVer {
    type V = SemVerView;

    open spec fn view(&self) -> SemVerView {
        (self.major, self.minor, self.patch, self.pre@, self.build@)
    }
}

/// What `semver::Version::parse` reads from a text: the major, minor and
/// patch numbers, the pre-release and the build metadata; none where the
/// text is not a semantic version.
pub uninterp spec fn semver_parse(text: Seq<char>) -> Option<(u64, u64, u64, Seq<char>, Seq<char>)>;

/// The precedence of two texts' versions as `semver::Version`'s order gives
/// it: negative, zero or positive.
pub uninterp spec fn semver_order(left: Seq<char>, right: Seq<char>) -> int;

/// A release: a version without pre-release or build metadata.
pub open spec fn is_stable(v: SemVerView) -> bool {
    v.3.len() == 0 && v.4.len() == 0
}

pub open spec fn numbers(v: SemVerView) -> (u64, u64, u64) {
    (v.0, v.1, v.2)
}

/// The decimal digits of a number (as `u64`'s `Display`).
pub open spec fn decimal(n: nat) -> Seq<char>
    decreases n,
{
    if n < 10 {
        seq![digit_char(n)]
    } else {
        decimal(n / 10).push(digit_char(n % 10))
    }
}

pub open spec fn digit_char(d: nat) -> char {
    if d == 0 {
        '0'
    } else if d == 1 {
        '1'
    } else if d == 2 {
        '2'
    } else if d == 3 {
        '3'
    } else if d == 4 {
        '4'
    } else if d == 5 {
        '5'
    } else if d == 6 {
        '6'
    } else if d == 7 {
        '7'
    } else if d == 8 {
        '8'
    } else {
        '9'
    }
}

/// The text of a release version: `major.minor.patch`.
pub open spec fn release_text(v: (u64, u64, u64)) -> Seq<char> {
    decimal(v.0 as nat) + "."@ + decimal(v.1 as nat) + "."@ + decimal(v.2 as nat)
}

/// The text of any version, as `semver::Version`'s `Display` writes it.
pub open spec fn version_text(v: SemVerView) -> Seq<char> {
    release_text(numbers(v)) + (if v.3.len() > 0 {
        "-"@ + v.3
    } else {
        Seq::empty()
    }) + (if v.4.len() > 0 {
        "+"@ + v.4
    } else {
        Seq::empty()
    })
}

/// The result of comparing two versions.
#[derive(Clone, Copy, Debug, PartialEq, Eq, Structural)]
pub enum VersionOrder {
    Less,
    Equal,
    Greater,
}

pub open spec fn order_sign(o: VersionOrder) -> int {
    match o {
        VersionOrder::Less => -1,
        VersionOrder::Equal => 0,
        VersionOrder::Greater => 1,
    }
}

/// Lexicographic comparison of (major, minor, patch).
pub open spec fn numbers_order(a: (u64, u64, u64), b: (u64, u64, u64)) -> VersionOrder {
    if a.0 < b.0 {
        VersionOrder::Less
    } else if a.0 > b.0 {
        VersionOrder::Greater
    } else if a.1 < b.1 {
        VersionOrder::Less
    } else if a.1 > b.1 {
        VersionOrder::Greater
    } else if a.2 < b.2 {
        VersionOrder::Less
    } else if a.2 > b.2 {
        VersionOrder::Greater
    } else {
        VersionOrder::Equal
    }
}

/// Release `a` precedes release `b`: a smaller major number, or the same
/// major and a smaller minor number, or the same major and minor and a
/// smaller patch number.
pub open spec fn release_before(a: (u64, u64, u64), b: (u64, u64, u64)) -> bool {
    a.0 < b.0 || (a.0 == b.0 && a.1 < b.1) || (a.0 == b.0 && a.1 == b.1 && a.2 < b.2)
}

/// Releases compare by precedence: the major number decides first, then the
/// minor number, then the patch number; two releases are equal only when all
/// three numbers are.
pub proof fn lemma_numbers_order_is_precedence(a: (u64, u64, u64), b: (u64, u64, u64))
    ensures
        (numbers_order(a, b) == VersionOrder::Less) <==> release_before(a, b),
        (numbers_order(a, b) == VersionOrder::Equal) <==> a == b,
        (numbers_order(a, b) == VersionOrder::Greater) <==> release_before(b, a),
        a.0 < b.0 ==> numbers_order(a, b) == VersionOrder::Less,
{
}

/// Reads a semantic version with `semver::Version::parse`.
#[verifier::external_body]
pub(crate) fn parse_version(text: &str) -> (r: Option<SemVer>)
    ensures
        r matches Some(v) ==> semver_parse(text@) == Some(v@),
        r is None ==> semver_parse(text@) is None,
{
    match semver::Version::parse(text) {
        Ok(v) => Some(
            SemVer {
                major: v.major,
                minor: v.minor,
                patch: v.patch,
                pre: v.pre.as_str().to_string(),
                build: v.build.as_str().to_string(),
            },
        ),
        Err(_) => None,
    }
}

fn digit_text(d: u128) -> (c: char)
    requires
        d < 10,
    ensures
        c == digit_char(d as nat),
{
    if d == 0 {
        '0'
    } else if d == 1 {
        '1'
    } else if d == 2 {
        '2'
    } else if d == 3 {
        '3'
    } else if d == 4 {
        '4'
    } else if d == 5 {
        '5'
    } else if d == 6 {
        '6'
    } else if d == 7 {
        '7'
    } else if d == 8 {
        '8'
    } else {
        '9'
    }
}

/// The decimal digits of a number.
pub fn decimal_text(n: u128) -> (r: String)
    ensures
        r@ == decimal(n as nat),
    decreases n,
{
    if n < 10 {
        let mut s = String::new();
        crate::text::push_char(&mut s, digit_text(n));
        assert(s@ =~= seq![digit_char(n as nat)]);
        s
    } else {
        let mut s = decimal_text(n / 10);
        crate::text::push_char(&mut s, digit_text(n % 10));
        s
    }
}

/// Compares two releases by major, then minor, then patch number (the order
/// of `semver::Version`s without pre-release or build metadata).
pub(crate) fn compare_releases(a: (u64, u64, u64), b: (u64, u64, u64)) -> (r: VersionOrder)
    ensures
        r == numbers_order(a, b),
        (r == VersionOrder::Less) <==> release_before(a, b),
        (r == VersionOrder::Equal) <==> a == b,
        (r == VersionOrder::Greater) <==> release_before(b, a),
{
    proof {
        lemma_numbers_order_is_precedence(a, b);
    }
    if a.0 < b.0 {
        VersionOrder::Less
    } else if a.0 > b.0 {
        VersionOrder::Greater
    } else if a.1 < b.1 {
        VersionOrder::Less
    } else if a.1 > b.1 {
        VersionOrder::Greater
    } else if a.2 < b.2 {
        VersionOrder::Less
    } else if a.2 > b.2 {
        VersionOrder::Greater
    } else {
        VersionOrder::Equal
    }
}

/// A release's text `major.minor.patch` in decimal (as `semver::Version`'s
/// `Display` writes a version without pre-release or build metadata).
pub(crate) fn release_version_text(v: (u64, u64, u64)) -> (r: String)
    ensures
        r@ == release_text(v),
{
    let mut s = decimal_text(v.0 as u128);
    crate::text::append_str(&mut s, ".");
    crate::text::append_str(&mut s, decimal_text(v.1 as u128).as_str());
    crate::text::append_str(&mut s, ".");
    crate::text::append_str(&mut s, decimal_text(v.2 as u128).as_str());
    s
}

/// Parses two texts with `semver::Version::parse` and compares the versions
/// with `Version`'s order. There is a result exactly when both parse; it has
/// the sign of `semver_order`, and for two releases (versions without
/// pre-release or build metadata) it is the order of major, minor and patch.
#[verifier::external_body]
pub(crate) fn order_versions(left: &str, right: &str) -> (r: Option<VersionOrder>)
    ensures
        r is Some <==> (semver_parse(left@) is Some && semver_parse(right@) is Some),
        r matches Some(o) ==> order_sign(o) == semver_order(left@, right@),
        r matches Some(o) ==> (is_stable(semver_parse(left@).unwrap()) && is_stable(
            semver_parse(right@).unwrap(),
        ) ==> o == numbers_order(
            numbers(semver_parse(left@).unwrap()),
            numbers(semver_parse(right@).unwrap()),
        )),
{
    match (semver::Version::parse(left), semver::Version::parse(right)) {
        (Ok(l), Ok(r)) => Some(
            match l.cmp(&r) {
                std::cmp::Ordering::Less => VersionOrder::Less,
                std::cmp::Ordering::Equal => VersionOrder::Equal,
                std::cmp::Ordering::Greater => VersionOrder::Greater,
            },
        ),
        _ => None,
    }
}

/// Parses a text with `semver::Version::parse` and writes the version back
/// with `Version`'s `Display`: `major.minor.patch`, then `-` and the
/// pre-release and `+` and the build metadata where they are not empty.
#[verifier::external_body]
pub(crate) fn display_version(text: &str) -> (r: Option<String>)
    ensures
        r is Some <==> semver_parse(text@) is Some,
        r matches Some(s) ==> s@ == version_text(semver_parse(text@).unwrap()),
{
    match semver::Version::parse(text) {
        Ok(v) => Some(v.to_string()),
        Err(_) => None,
    }
}

/// The sign of an ordering: negative, zero or positive.
pub open spec fn ordering_sign(o: std::cmp::Ordering) -> int {
    match o {
        std::cmp::Ordering::Less => -1,
        std::cmp::Ordering::Equal => 0,
        std::cmp::Ordering::Greater => 1,
    }
}

/// Compares the versions two texts denote.
pub fn compare_versions(left: &str, right: &str) -> (r: Result<std::cmp::Ordering, CliError>)
    ensures
        r matches Ok(o) ==> semver_parse(left@) is Some && semver_parse(right@) is Some
            && ordering_sign(o) == semver_order(left@, right@),
        r matches Err(e) ==> (if semver_parse(left@) is None {
            e@ == subject_error(ErrorKind::InvalidVersion, left@)
        } else {
            semver_parse(right@) is None && e@ == subject_error(ErrorKind::InvalidVersion, right@)
        }),
{
    match order_versions(left, right) {
        Some(VersionOrder::Less) => Ok(std::cmp::Ordering::Less),
        Some(VersionOrder::Equal) => Ok(std::cmp::Ordering::Equal),
        Some(VersionOrder::Greater) => Ok(std::cmp::Ordering::Greater),
        None => {
            if parse_version(left).is_none() {
                Err(CliError::about(ErrorKind::InvalidVersion, left))
            } else {
                Err(CliError::about(ErrorKind::InvalidVersion, right))
            }
        },
    }
}

/// Checks an engine version setting: `latest` or a release version.
pub fn validate_engine_version(value: &str) -> (r: Result<(), CliError>)
    ensures
        r is Ok <==> (value@ == "latest"@ || (semver_parse(value@) is Some && is_stable(
            semver_parse(value@).unwrap(),
        ))),
        r matches Err(e) ==> (if semver_parse(value@) is None {
            e@ == subject_error(ErrorKind::InvalidEngineVersion, value@)
        } else {
            e@ == crate::error::plain_error(ErrorKind::UnstableEngineVersion)
        }),
{
    if crate::text::str_equal(value, "latest") {
        return Ok(());
    }
    match parse_version(value) {
        None => Err(CliError::about(ErrorKind::InvalidEngineVersion, value)),
        Some(v) => {
            if crate::text::chars_of(v.pre.as_str()).len() != 0 || crate::text::chars_of(v.build.as_str()).len() != 0 {
                return Err(CliError::new(ErrorKind::UnstableEngineVersion));
            }
            proof {
                assert(v.pre@.len() == 0 && v.build@.len() == 0);
            }
            Ok(())
        },
    }
}

} // verus!
