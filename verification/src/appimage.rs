//! The AppImage emitter's validation, launcher script and naming.
//!
//! The SquashFS image and the runtime prefix are external collaborators; the
//! library validates the AppImage-specific description fields, generates the
//! `AppRun` launcher text, and names the output artifact.

use vstd::prelude::*;

use crate::errors::{BuildError, RequiredField};
use crate::metadata::{Metadata, MetaView};

verus! {

/// The first missing AppImage-specific field, in the order the emitter checks
/// them: the executable path, the desktop rules, the icon rules.
pub open spec fn spec_appimage_missing(m: MetaView) -> Option<RequiredField> {
    if m.appimage_exec.len() == 0 {
        Some(RequiredField::AppimageExec)
    } else if m.appimage_desktop_instructions.len() == 0 {
        Some(RequiredField::AppimageDesktop)
    } else if m.appimage_icon_instructions.len() == 0 {
        Some(RequiredField::AppimageIcon)
    } else {
        None
    }
}

/// Checks the AppImage-specific fields of a description.
///
/// Fails with a validation error naming the first missing field: the
/// executable path, then the desktop rules, then the icon rules; succeeds
/// exactly when all three are populated.
pub fn validate_appimage(m: &Metadata) -> (r: Result<(), BuildError>)
    ensures
        match spec_appimage_missing(m@) {
            Some(f) => r matches Err(e) && e == BuildError::ValidationError(f),
            None => r is Ok,
        },
{
    if m.appimage_exec.as_str().is_empty() {
        return Err(BuildError::ValidationError(RequiredField::AppimageExec));
    }
    if m.appimage_desktop_instructions.len() == 0 {
        return Err(BuildError::ValidationError(RequiredField::AppimageDesktop));
    }
    if m.appimage_icon_instructions.len() == 0 {
        return Err(BuildError::ValidationError(RequiredField::AppimageIcon));
    }
    Ok(())
}

/// The `AppRun` launcher: resolves its own directory and executes the
/// description's executable path beneath it.
pub open spec fn spec_apprun_text(exec: Seq<char>) -> Seq<char> {
    ("#!/bin/bash\nHERE=\"$(dirname \"$(readlink -f \"$0\")\")\"\nexec \"$HERE")@ + exec
        + ("\" \"$@\"\n")@
}

/// The `AppRun` launcher text for an executable path.
pub fn apprun_text(exec: &str) -> (r: String)
    ensures
        r@ == spec_apprun_text(exec@),
{
    let mut s = String::new();
    s.append("#!/bin/bash\nHERE=\"$(dirname \"$(readlink -f \"$0\")\")\"\nexec \"$HERE");
    s.append(exec);
    s.append("\" \"$@\"\n");
    proof {
        assert(s@ =~= spec_apprun_text(exec@));
    }
    s
}

/// The artifact base name, `<name>-<version>-<release>-<arch>`, over the
/// description's first architecture entry.
pub open spec fn spec_appimage_base_name(m: MetaView) -> Seq<char> {
    m.name + "-"@ + m.version + "-"@ + m.release + "-"@ + m.arch[0]
}

/// The artifact base name of a validated description.
pub fn appimage_base_name(m: &Metadata) -> (r: String)
    requires
        m@.arch.len() > 0,
    ensures
        r@ == spec_appimage_base_name(m@),
{
    let mut s = String::new();
    s.append(m.name.as_str());
    s.append("-");
    s.append(m.version.as_str());
    s.append("-");
    s.append(m.release.as_str());
    s.append("-");
    proof {
        assert(m.arch.deep_view()[0] == m.arch@[0]@);
    }
    s.append(m.arch[0].as_str());
    proof {
        assert(s@ =~= spec_appimage_base_name(m@));
    }
    s
}

/// The emitted artifact's conventional file name,
/// `<name>-<version>-<release>-<arch>.AppImage`.
pub open spec fn spec_appimage_file_name(m: MetaView) -> Seq<char> {
    spec_appimage_base_name(m) + ".AppImage"@
}

/// The emitted artifact's conventional file name.
pub fn appimage_file_name(m: &Metadata) -> (r: String)
    requires
        m@.arch.len() > 0,
    ensures
        r@ == spec_appimage_file_name(m@),
{
    let mut s = appimage_base_name(m);
    s.append(".AppImage");
    s
}

} // verus!
