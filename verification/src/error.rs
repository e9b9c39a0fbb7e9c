//! The library's error type: a kind, the value the error is about, and a
//! second detail where the message needs one.
use crate::text::append_str;
use vstd::prelude::*;

verus! {

#[derive(Clone, Copy, Debug, PartialEq, Eq, Structural)]
pub enum ErrorKind {
    UnsupportedPackageManager,
    UnsupportedPerryTarget,
    ConflictingTargetOptions,
    MacosHostRequired,
    UnsupportedOperatingSystem,
    UnsupportedHost,
    TargetNotAdvertised,
    UnsupportedConfigKey,
    InvalidEngineVersion,
    UnstableEngineVersion,
    ReleaseNotFound,
    NoStableRelease,
    MissingVersionsObject,
    RequestedVersionNotSemver,
    RequestedVersionUnstable,
    NoPackageVersions,
    MissingPackageName,
    NotEnginePackage,
    DifferentFilesystemRoot,
    NonStringEngineDependency,
    UnsupportedEnginePackage,
    PackageNotObject,
    DependenciesNotObject,
    InvalidProjectName,
    EmptyEngineSpec,
    NpmNameUnavailable,
    InvalidSegment,
    OutsideManagedArea,
    OutsideManagedRoot,
    UnsafeManifestPath,
    UnrecognizedManifestFormat,
    InvalidOutputName,
    CannotRunTarget,
    CommandFailed,
    CommandExitStatus,
    PackageManagerMissing,
    NotInteractive,
    NoReleasesAvailable,
    ManagerSelectionOutOfRange,
    VersionSelectionOutOfRange,
    RemoveVersionMismatch,
    NoEngineDependency,
    NoBuildFiles,
    InvalidVersion,
    UnexpectedAnswer,
    InvalidJson,
    UnwritableJson,
}

/// An error of the library. `subject` is the value the error is about (empty
/// where there is none) and `detail` a second value that some messages show.
#[derive(Clone, Debug)]
pub struct CliError {
    pub kind: ErrorKind,
    pub subject: String,
    pub detail: String,
}

/// The mathematical content of an error.
pub type ErrorView = (ErrorKind, Seq<char>, Seq<char>);

impl View for CliError {
    type V = ErrorView;

    open spec fn view(&self) -> ErrorView {
        (self.kind, self.subject@, self.detail@)
    }
}

pub open spec fn error_view(kind: ErrorKind, subject: Seq<char>, detail: Seq<char>) -> ErrorView {
    (kind, subject, detail)
}

pub open spec fn plain_error(kind: ErrorKind) -> ErrorView {
    (kind, Seq::empty(), Seq::empty())
}

pub open spec fn subject_error(kind: ErrorKind, subject: Seq<char>) -> ErrorView {
    (kind, subject, Seq::empty())
}

/// The message text of an error.
pub open spec fn message_text(kind: ErrorKind, s: Seq<char>, d: Seq<char>) -> Seq<char> {
    match kind {
        ErrorKind::UnsupportedPackageManager => "unsupported package manager `"@ + s + "`"@,
        ErrorKind::UnsupportedPerryTarget => "unsupported Perry target `"@ + s + "`"@,
        ErrorKind::ConflictingTargetOptions => "choose either `--os` or `--target`, not both"@,
        ErrorKind::MacosHostRequired =>
            "macOS builds require a macOS host because Perry uses the native host target"@,
        ErrorKind::UnsupportedOperatingSystem => "unsupported operating system `"@ + s + "`"@,
        ErrorKind::UnsupportedHost => "the current host platform is not supported"@,
        ErrorKind::TargetNotAdvertised => "installed Perry does not advertise target `"@ + s
            + "`; supported targets: "@ + d,
        ErrorKind::UnsupportedConfigKey => "unsupported configuration key `"@ + s + "`"@,
        ErrorKind::InvalidEngineVersion =>
            "engine version must be `latest` or an exact semantic version, got `"@ + s + "`"@,
        ErrorKind::UnstableEngineVersion =>
            "engine version must be a stable release without prerelease or build metadata"@,
        ErrorKind::ReleaseNotFound => "BornEngine release `"@ + s
            + "` was not found in the npm registry"@,
        ErrorKind::NoStableRelease =>
            "no stable BornEngine release was found in the npm registry"@,
        ErrorKind::MissingVersionsObject =>
            "npm registry metadata does not contain a versions object"@,
        ErrorKind::RequestedVersionNotSemver =>
            "engine version must be an exact semantic version, got `"@ + s + "`"@,
        ErrorKind::RequestedVersionUnstable =>
            "BornEngine version must be a stable release without prerelease or build metadata"@,
        ErrorKind::NoPackageVersions =>
            "no BornEngine package versions were found in the npm registry"@,
        ErrorKind::MissingPackageName => "engine package.json is missing a string `name`"@,
        ErrorKind::NotEnginePackage => "local package `"@ + s
            + "` is not named `@bornengine/engine` or `@bloomengine/engine`"@,
        ErrorKind::DifferentFilesystemRoot =>
            "local engine path and project must be on the same filesystem root"@,
        ErrorKind::NonStringEngineDependency => "engine dependency `"@ + s
            + "` must have a string value"@,
        ErrorKind::UnsupportedEnginePackage => "unsupported BornEngine package name `"@ + s
            + "`"@,
        ErrorKind::PackageNotObject => "project package.json must contain a JSON object"@,
        ErrorKind::DependenciesNotObject => "project `dependencies` must be an object"@,
        ErrorKind::InvalidProjectName =>
            "project name must be a single directory name without traversal or platform-reserved characters"@,
        ErrorKind::EmptyEngineSpec => "engine dependency specification cannot be empty"@,
        ErrorKind::NpmNameUnavailable =>
            "project name cannot be converted to a valid npm package name"@,
        ErrorKind::InvalidSegment => s + " must be a simple file or directory name"@,
        ErrorKind::OutsideManagedArea =>
            "build manifest path is outside CLI-managed build areas: "@ + s,
        ErrorKind::OutsideManagedRoot => "build manifest path is outside CLI-managed build areas"@,
        ErrorKind::UnsafeManifestPath => "build manifest contains an unsafe path: "@ + s,
        ErrorKind::UnrecognizedManifestFormat => "unrecognized build manifest format in "@ + s,
        ErrorKind::InvalidOutputName =>
            "output name must be a simple file name without path separators"@,
        ErrorKind::CannotRunTarget => "target `"@ + s + "` cannot be run on the current `"@ + d
            + "` host"@,
        ErrorKind::CommandFailed => "`"@ + s + "` failed: "@ + d,
        ErrorKind::CommandExitStatus => "`"@ + s + "` exited with status "@ + d,
        ErrorKind::PackageManagerMissing => "package manager `"@ + s
            + "` was not found in PATH; "@ + d,
        ErrorKind::NotInteractive =>
            "`bornengine create` requires an interactive terminal; use `bornengine new <name> --package-manager <pnpm|npm|yarn> --engine-version <version>` for non-interactive use"@,
        ErrorKind::NoReleasesAvailable =>
            "no stable BornEngine releases are available from npm"@,
        ErrorKind::ManagerSelectionOutOfRange =>
            "package-manager selection is outside the available options"@,
        ErrorKind::VersionSelectionOutOfRange =>
            "BornEngine version selection is outside the available options"@,
        ErrorKind::RemoveVersionMismatch => "the current BornEngine dependency is `"@ + s
            + "`; refusing to remove `"@ + d + "`"@,
        ErrorKind::NoEngineDependency =>
            "this project does not declare a BornEngine dependency"@,
        ErrorKind::NoBuildFiles =>
            "Perry completed successfully without creating any build files"@,
        ErrorKind::InvalidVersion => "invalid semantic version `"@ + s + "`"@,
        ErrorKind::UnexpectedAnswer => "the answer does not fit the current question"@,
        ErrorKind::InvalidJson => "invalid JSON in "@ + s,
        ErrorKind::UnwritableJson => "a number in "@ + s + " is not a valid JSON number"@,
    }
}

impl CliError {
    pub fn new(kind: ErrorKind) -> (e: CliError)
        ensures
            e@ == plain_error(kind),
    {
        CliError { kind, subject: String::new(), detail: String::new() }
    }

    pub fn about(kind: ErrorKind, subject: &str) -> (e: CliError)
        ensures
            e@ == subject_error(kind, subject@),
    {
        CliError { kind, subject: crate::text::string_from(subject), detail: String::new() }
    }

    pub fn with_detail(kind: ErrorKind, subject: &str, detail: &str) -> (e: CliError)
        ensures
            e@ == error_view(kind, subject@, detail@),
    {
        CliError {
            kind,
            subject: crate::text::string_from(subject),
            detail: crate::text::string_from(detail),
        }
    }

    /// The text that describes the error to a user.
    pub fn message(&self) -> (m: String)
        ensures
            m@ == message_text(self.kind, self.subject@, self.detail@),
    {
        let s = self.subject.as_str();
        let d = self.detail.as_str();
        let mut m = String::new();
        match self.kind {
            ErrorKind::UnsupportedPackageManager => {
                append_str(&mut m, "unsupported package manager `");
                append_str(&mut m, s);
                append_str(&mut m, "`");
            },
            ErrorKind::UnsupportedPerryTarget => {
                append_str(&mut m, "unsupported Perry target `");
                append_str(&mut m, s);
                append_str(&mut m, "`");
            },
            ErrorKind::ConflictingTargetOptions => {
                append_str(&mut m, "choose either `--os` or `--target`, not both");
            },
            ErrorKind::MacosHostRequired => {
                append_str(
                    &mut m,
                    "macOS builds require a macOS host because Perry uses the native host target",
                );
            },
            ErrorKind::UnsupportedOperatingSystem => {
                append_str(&mut m, "unsupported operating system `");
                append_str(&mut m, s);
                append_str(&mut m, "`");
            },
            ErrorKind::UnsupportedHost => {
                append_str(&mut m, "the current host platform is not supported");
            },
            ErrorKind::TargetNotAdvertised => {
                append_str(&mut m, "installed Perry does not advertise target `");
                append_str(&mut m, s);
                append_str(&mut m, "`; supported targets: ");
                append_str(&mut m, d);
            },
            ErrorKind::UnsupportedConfigKey => {
                append_str(&mut m, "unsupported configuration key `");
                append_str(&mut m, s);
                append_str(&mut m, "`");
            },
            ErrorKind::InvalidEngineVersion => {
                append_str(
                    &mut m,
                    "engine version must be `latest` or an exact semantic version, got `",
                );
                append_str(&mut m, s);
                append_str(&mut m, "`");
            },
            ErrorKind::UnstableEngineVersion => {
                append_str(
                    &mut m,
                    "engine version must be a stable release without prerelease or build metadata",
                );
            },
            ErrorKind::ReleaseNotFound => {
                append_str(&mut m, "BornEngine release `");
                append_str(&mut m, s);
                append_str(&mut m, "` was not found in the npm registry");
            },
            ErrorKind::NoStableRelease => {
                append_str(&mut m, "no stable BornEngine release was found in the npm registry");
            },
            ErrorKind::MissingVersionsObject => {
                append_str(&mut m, "npm registry metadata does not contain a versions object");
            },
            ErrorKind::RequestedVersionNotSemver => {
                append_str(&mut m, "engine version must be an exact semantic version, got `");
                append_str(&mut m, s);
                append_str(&mut m, "`");
            },
            ErrorKind::RequestedVersionUnstable => {
                append_str(
                    &mut m,
                    "BornEngine version must be a stable release without prerelease or build metadata",
                );
            },
            ErrorKind::NoPackageVersions => {
                append_str(&mut m, "no BornEngine package versions were found in the npm registry");
            },
            ErrorKind::MissingPackageName => {
                append_str(&mut m, "engine package.json is missing a string `name`");
            },
            ErrorKind::NotEnginePackage => {
                append_str(&mut m, "local package `");
                append_str(&mut m, s);
                append_str(&mut m, "` is not named `@bornengine/engine` or `@bloomengine/engine`");
            },
            ErrorKind::DifferentFilesystemRoot => {
                append_str(&mut m, "local engine path and project must be on the same filesystem root");
            },
            ErrorKind::NonStringEngineDependency => {
                append_str(&mut m, "engine dependency `");
                append_str(&mut m, s);
                append_str(&mut m, "` must have a string value");
            },
            ErrorKind::UnsupportedEnginePackage => {
                append_str(&mut m, "unsupported BornEngine package name `");
                append_str(&mut m, s);
                append_str(&mut m, "`");
            },
            ErrorKind::PackageNotObject => {
                append_str(&mut m, "project package.json must contain a JSON object");
            },
            ErrorKind::DependenciesNotObject => {
                append_str(&mut m, "project `dependencies` must be an object");
            },
            ErrorKind::InvalidProjectName => {
                append_str(
                    &mut m,
                    "project name must be a single directory name without traversal or platform-reserved characters",
                );
            },
            ErrorKind::EmptyEngineSpec => {
                append_str(&mut m, "engine dependency specification cannot be empty");
            },
            ErrorKind::NpmNameUnavailable => {
                append_str(&mut m, "project name cannot be converted to a valid npm package name");
            },
            ErrorKind::InvalidSegment => {
                append_str(&mut m, s);
                append_str(&mut m, " must be a simple file or directory name");
            },
            ErrorKind::OutsideManagedArea => {
                append_str(&mut m, "build manifest path is outside CLI-managed build areas: ");
                append_str(&mut m, s);
            },
            ErrorKind::OutsideManagedRoot => {
                append_str(&mut m, "build manifest path is outside CLI-managed build areas");
            },
            ErrorKind::UnsafeManifestPath => {
                append_str(&mut m, "build manifest contains an unsafe path: ");
                append_str(&mut m, s);
            },
            ErrorKind::UnrecognizedManifestFormat => {
                append_str(&mut m, "unrecognized build manifest format in ");
                append_str(&mut m, s);
            },
            ErrorKind::InvalidOutputName => {
                append_str(&mut m, "output name must be a simple file name without path separators");
            },
            ErrorKind::CannotRunTarget => {
                append_str(&mut m, "target `");
                append_str(&mut m, s);
                append_str(&mut m, "` cannot be run on the current `");
                append_str(&mut m, d);
                append_str(&mut m, "` host");
            },
            ErrorKind::CommandFailed => {
                append_str(&mut m, "`");
                append_str(&mut m, s);
                append_str(&mut m, "` failed: ");
                append_str(&mut m, d);
            },
            ErrorKind::CommandExitStatus => {
                append_str(&mut m, "`");
                append_str(&mut m, s);
                append_str(&mut m, "` exited with status ");
                append_str(&mut m, d);
            },
            ErrorKind::PackageManagerMissing => {
                append_str(&mut m, "package manager `");
                append_str(&mut m, s);
                append_str(&mut m, "` was not found in PATH; ");
                append_str(&mut m, d);
            },
            ErrorKind::NotInteractive => {
                append_str(
                    &mut m,
                    "`bornengine create` requires an interactive terminal; use `bornengine new <name> --package-manager <pnpm|npm|yarn> --engine-version <version>` for non-interactive use",
                );
            },
            ErrorKind::NoReleasesAvailable => {
                append_str(&mut m, "no stable BornEngine releases are available from npm");
            },
            ErrorKind::ManagerSelectionOutOfRange => {
                append_str(&mut m, "package-manager selection is outside the available options");
            },
            ErrorKind::VersionSelectionOutOfRange => {
                append_str(&mut m, "BornEngine version selection is outside the available options");
            },
            ErrorKind::RemoveVersionMismatch => {
                append_str(&mut m, "the current BornEngine dependency is `");
                append_str(&mut m, s);
                append_str(&mut m, "`; refusing to remove `");
                append_str(&mut m, d);
                append_str(&mut m, "`");
            },
            ErrorKind::NoEngineDependency => {
                append_str(&mut m, "this project does not declare a BornEngine dependency");
            },
            ErrorKind::NoBuildFiles => {
                append_str(&mut m, "Perry completed successfully without creating any build files");
            },
            ErrorKind::InvalidVersion => {
                append_str(&mut m, "invalid semantic version `");
                append_str(&mut m, s);
                append_str(&mut m, "`");
            },
            ErrorKind::UnexpectedAnswer => {
                append_str(&mut m, "the answer does not fit the current question");
            },
            ErrorKind::InvalidJson => {
                append_str(&mut m, "invalid JSON in ");
                append_str(&mut m, s);
            },
            ErrorKind::UnwritableJson => {
                append_str(&mut m, "a number in ");
                append_str(&mut m, s);
                append_str(&mut m, " is not a valid JSON number");
            },
        }
        m
    }
}

} // verus!
