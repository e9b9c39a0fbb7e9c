//! What `update` tells about a newer release of the tool.
use crate::error::{subject_error, CliError, ErrorKind};
use crate::json::{member, string_value, JsonValue};
use crate::text::{chars_of, copy_string, opt_view, string_of, subvec};
use crate::versions::{
    display_version, order_versions, order_sign, semver_order, semver_parse, version_text,
    VersionOrder,
};
use vstd::prelude::*;

verus! {

#[derive(Clone, Debug, PartialEq, Eq)]
pub enum UpdateAdvice {
    /// A newer release exists; its version as written by `semver`.
    Available(String),
    /// The running release is the newest.
    UpToDate,
    /// The newest release's tag is not a version.
    InvalidTag,
    /// The newest release could not be read.
    NoTag,
}

/// A tag without its leading `v`s.
pub open spec fn untagged(t: Seq<char>) -> Seq<char>
    decreases t.len(),
{
    if t.len() > 0 && t[0] == 'v' {
        untagged(t.drop_first())
    } else {
        t
    }
}

/// The advice for the newest release's tag, if one was read, and the running
/// version.
pub fn update_advice(tag: Option<&str>, current: &str) -> (r: Result<UpdateAdvice, CliError>)
    ensures
        tag is None ==> r matches Ok(UpdateAdvice::NoTag),
        tag matches Some(t) ==> {
            let v = untagged(t@);
            if semver_parse(v) is None {
                r matches Ok(UpdateAdvice::InvalidTag)
            } else if semver_parse(current@) is None {
                (r matches Err(e) && e@ == subject_error(ErrorKind::InvalidVersion, current@))
            } else if semver_order(v, current@) > 0 {
                (r matches Ok(UpdateAdvice::Available(s)) && s@ == version_text(
                    semver_parse(v).unwrap(),
                ))
            } else {
                r matches Ok(UpdateAdvice::UpToDate)
            }
        },
{
    let t = match tag {
        None => {
            return Ok(UpdateAdvice::NoTag);
        },
        Some(t) => t,
    };
    let c = chars_of(t);
    let mut i: usize = 0;
    assert(c@.skip(0) =~= c@);
    while i < c.len() && c[i] == 'v'
        invariant
            i <= c.len(),
            c@ == t@,
            untagged(t@) == untagged(c@.skip(i as int)),
        decreases c.len() - i,
    {
        assert(c@.skip(i as int).drop_first() =~= c@.skip(i + 1));
        i = i + 1;
    }
    let rest = subvec(c.as_slice(), i, c.len());
    assert(rest@ =~= c@.skip(i as int));
    let version = string_of(rest.as_slice());
    let shown = match display_version(version.as_str()) {
        None => {
            return Ok(UpdateAdvice::InvalidTag);
        },
        Some(s) => s,
    };
    match order_versions(version.as_str(), current) {
        None => Err(CliError::about(ErrorKind::InvalidVersion, current)),
        Some(o) => {
            if o == VersionOrder::Greater {
                Ok(UpdateAdvice::Available(shown))
            } else {
                Ok(UpdateAdvice::UpToDate)
            }
        },
    }
}

/// The `tag_name` of a release document, when it is a string.
pub fn release_tag(release: &JsonValue) -> (r: Option<String>)
    ensures
        opt_view(r) == string_value(member(release@, "tag_name"@)),
{
    match release.get("tag_name") {
        Some(v) => match v.as_str() {
            Some(t) => Some(copy_string(t)),
            None => None,
        },
        None => None,
    }
}

} // verus!
