//! The npm package names of the engine.
use crate::text::{append_str, str_equal, string_from};
use vstd::prelude::*;

verus! {

pub const BORNENGINE_PACKAGE: &'static str = "@bornengine/engine";

pub const LEGACY_ENGINE_PACKAGE: &'static str = "@bloomengine/engine";

pub const LEGACY_JOLT_PACKAGE: &'static str = "@bloomengine/jolt-prebuilt";

pub open spec fn bornengine_package() -> Seq<char> {
    "@bornengine/engine"@
}

pub open spec fn legacy_engine_package() -> Seq<char> {
    "@bloomengine/engine"@
}

/// Whether a package name is the engine, under its current or its legacy name.
pub open spec fn engine_package_name(name: Seq<char>) -> bool {
    name == bornengine_package() || name == legacy_engine_package()
}

pub fn is_engine_package(name: &str) -> (r: bool)
    ensures
        r == engine_package_name(name@),
{
    str_equal(name, "@bornengine/engine") || str_equal(name, "@bloomengine/engine")
}

/// The import path of a module of the engine package.
pub fn engine_subpath(name: &str, subpath: &str) -> (r: String)
    ensures
        r@ == name@ + "/"@ + subpath@,
{
    let mut r = string_from(name);
    append_str(&mut r, "/");
    append_str(&mut r, subpath);
    r
}

/// The entry of Perry's native-library allowlist that admits a package.
pub open spec fn allow_pattern(name: Seq<char>) -> Seq<char> {
    name + "/*"@
}

pub fn native_library_allow_pattern(name: &str) -> (r: String)
    ensures
        r@ == allow_pattern(name@),
{
    let mut r = string_from(name);
    append_str(&mut r, "/*");
    r
}

} // verus!
