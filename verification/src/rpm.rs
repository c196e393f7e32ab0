//! Naming decisions for the RPM emitter.
//!
//! The RPM container internals are an external collaborator; the library
//! decides the architecture tag and the output file name.

use vstd::prelude::*;

use crate::metadata::{Metadata, MetaView};
use crate::text::{contains_string, spec_list_contains};

verus! {

/// The RPM architecture tag: `x86_64` when the description lists it, else
/// `noarch`.
pub open spec fn spec_rpm_architecture(arch: Seq<Seq<char>>) -> Seq<char> {
    if spec_list_contains(arch, "x86_64"@) {
        "x86_64"@
    } else {
        "noarch"@
    }
}

/// The RPM architecture tag of a description.
pub fn rpm_architecture(arch: &Vec<String>) -> (r: String)
    ensures
        r@ == spec_rpm_architecture(arch.deep_view()),
{
    if contains_string(arch, "x86_64") {
        "x86_64".to_owned()
    } else {
        "noarch".to_owned()
    }
}

/// The emitted container's conventional file name,
/// `<name>-<version>-<release>.<arch>.rpm`.
pub open spec fn spec_rpm_file_name(m: MetaView) -> Seq<char> {
    m.name + "-"@ + m.version + "-"@ + m.release + "."@ + spec_rpm_architecture(m.arch) + ".rpm"@
}

/// The emitted container's conventional file name.
pub fn rpm_file_name(m: &Metadata) -> (r: String)
    ensures
        r@ == spec_rpm_file_name(m@),
{
    let mut s = String::new();
    s.append(m.name.as_str());
    s.append("-");
    s.append(m.version.as_str());
    s.append("-");
    s.append(m.release.as_str());
    s.append(".");
    let arch = rpm_architecture(&m.arch);
    s.append(arch.as_str());
    s.append(".rpm");
    proof {
        assert(s@ =~= spec_rpm_file_name(m@));
    }
    s
}

} // verus!
