//! The error taxonomy of the build pipeline.
//!
//! Every error is terminal for the run that raised it: the caller sees the
//! first failure with enough context (field, path, digests) to act on it.

use vstd::prelude::*;

verus! {

/// A required field of the build description, reported when it is empty: the
/// identity and provenance scalars plus at least one checksum list, and the
/// AppImage-specific fields that emitter's own validation demands. The other
/// lists (architectures, per-format relations, sources) may legitimately be
/// empty; the stages that do need one of them guard it locally.
#[derive(Clone, Copy, Debug, PartialEq, Eq, Structural)]
pub enum RequiredField {
    Name,
    Version,
    Release,
    Maintainer,
    Description,
    Url,
    License,
    Checksums,
    AppimageExec,
    AppimageDesktop,
    AppimageIcon,
}

/// How a description or directive line failed to parse.
#[derive(Clone, Copy, Debug, PartialEq, Eq, Structural)]
pub enum ParseErrorKind {
    /// A non-blank, non-comment line outside a block that holds no `key: value` pair.
    MalformedLine,
    /// A `key: {` block that the description never closes with `}`.
    UnterminatedBlock,
    /// An `install` directive whose mode token is not a valid octal number.
    MalformedDirective,
}

/// A terminal failure of one build run.
#[derive(Debug)]
pub enum BuildError {
    /// The description text itself is malformed.
    ParseError(ParseErrorKind),
    /// A required field of the description is empty; names the field.
    ValidationError(RequiredField),
    /// An install directive references a source file that does not exist.
    SourceNotFound(String),
    /// An install directive references a directory where a file is required.
    SourceIsDirectory(String),
    /// The artifact's digest matches no declared entry of the selected list.
    ChecksumMismatch { expected: Vec<String>, actual: String },
    /// The extractor recognises no codec for the file's extension.
    UnsupportedArchiveFormat(String),
    /// A container stream or filesystem operation failed.
    IoError(String),
}

impl RequiredField {
    /// The field's name as it appears in the build description.
    pub fn key_name(&self) -> (r: &'static str)
        ensures
            r@ == self.spec_key_name(),
    {
        match self {
            RequiredField::Name => "name",
            RequiredField::Version => "version",
            RequiredField::Release => "release",
            RequiredField::Maintainer => "maintainer",
            RequiredField::Description => "description",
            RequiredField::Url => "url",
            RequiredField::License => "license",
            RequiredField::Checksums => "checksums",
            RequiredField::AppimageExec => "appimage_exec",
            RequiredField::AppimageDesktop => "appimage_desktop",
            RequiredField::AppimageIcon => "appimage_icon",
        }
    }

    pub open spec fn spec_key_name(self) -> Seq<char> {
        match self {
            RequiredField::Name => "name"@,
            RequiredField::Version => "version"@,
            RequiredField::Release => "release"@,
            RequiredField::Maintainer => "maintainer"@,
            RequiredField::Description => "description"@,
            RequiredField::Url => "url"@,
            RequiredField::License => "license"@,
            RequiredField::Checksums => "checksums"@,
            RequiredField::AppimageExec => "appimage_exec"@,
            RequiredField::AppimageDesktop => "appimage_desktop"@,
            RequiredField::AppimageIcon => "appimage_icon"@,
        }
    }
}

} // verus!
