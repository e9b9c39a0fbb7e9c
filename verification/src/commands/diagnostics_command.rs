//! Checks that `doctor` makes on a project's metadata and on tool output.
use crate::json::{items_view, lemma_items_view_index, lemma_items_view_len, JsonValue, JsonView};
use crate::project::member_in;
use crate::text::{chars_of, str_equal, string_of, trim_class, trim_class_exec, CharClass};
use vstd::prelude::*;

verus! {

/// `perry.allow.nativeLibrary` lists `pattern`.
pub open spec fn allowlist_lists(p: JsonView, pattern: Seq<char>) -> bool {
    match member_in(member_in(crate::json::member(p, "perry"@), "allow"@), "nativeLibrary"@) {
        Some(JsonView::Array(items)) => exists|i: int|
            0 <= i < items.len() && #[trigger] items[i] == JsonView::Str(pattern),
        _ => false,
    }
}

pub fn allowlist_contains(package: &JsonValue, pattern: &str) -> (r: bool)
    ensures
        r == allowlist_lists(package@, pattern@),
{
    let list = match package.get("perry") {
        Some(a) => match a.get("allow") {
            Some(b) => b.get("nativeLibrary"),
            None => None,
        },
        None => None,
    };
    let ghost listed = member_in(
        member_in(crate::json::member(package@, "perry"@), "allow"@),
        "nativeLibrary"@,
    );
    assert(list matches Some(v) ==> listed == Some(v@));
    assert(list is None ==> listed is None);
    match list {
        Some(v) => match v.as_array() {
            Some(items) => {
                proof {
                    lemma_items_view_len(items@);
                }
                let ghost iv = items_view(items@);
                let mut i: usize = 0;
                while i < items.len()
                    invariant
                        i <= items.len(),
                        iv == items_view(items@),
                        listed == Some(JsonView::Array(iv)),
                        listed == member_in(
                            member_in(crate::json::member(package@, "perry"@), "allow"@),
                            "nativeLibrary"@,
                        ),
                        iv.len() == items@.len(),
                        forall|j: int| 0 <= j < i ==> #[trigger] iv[j] != JsonView::Str(pattern@),
                    decreases items.len() - i,
                {
                    proof {
                        lemma_items_view_index(items@, i as int);
                    }
                    match items[i].as_str() {
                        Some(s) => {
                            if str_equal(s.as_str(), pattern) {
                                assert(iv[i as int] == JsonView::Str(pattern@));
                                assert(exists|k: int|
                                    0 <= k < iv.len() && #[trigger] iv[k] == JsonView::Str(
                                        pattern@,
                                    ));
                                return true;
                            }
                        },
                        None => {},
                    }
                    i = i + 1;
                }
                false
            },
            None => false,
        },
        None => false,
    }
}

/// What a tool's version command reported: its trimmed output, when it
/// succeeded and printed something.
pub fn tool_version(succeeded: bool, stdout: &str) -> (r: Option<String>)
    ensures
        r matches Some(s) ==> succeeded && s@ == trim_class(stdout@, CharClass::Whitespace) && s@.len()
            > 0,
        r is None ==> !succeeded || trim_class(stdout@, CharClass::Whitespace).len() == 0,
{
    if !succeeded {
        return None;
    }
    let t = trim_class_exec(chars_of(stdout).as_slice(), CharClass::Whitespace);
    if t.len() == 0 {
        return None;
    }
    Some(string_of(t.as_slice()))
}

/// The exit code of `doctor`: 0 when every check passed, else 1.
pub fn doctor_verdict(checks: &Vec<bool>) -> (r: i32)
    ensures
        r == 0 <==> forall|i: int| 0 <= i < checks@.len() ==> #[trigger] checks@[i],
        r == 0 || r == 1,
{
    let mut i: usize = 0;
    while i < checks.len()
        invariant
            i <= checks.len(),
            forall|j: int| 0 <= j < i ==> #[trigger] checks@[j],
        decreases checks.len() - i,
    {
        if !checks[i] {
            return 1;
        }
        i = i + 1;
    }
    0
}

} // verus!
