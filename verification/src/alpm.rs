//! The Arch-style metadata records handed to the container library.
//!
//! The container format itself is an external collaborator; what the library
//! owes it is two correctly ordered text records, generated here as exact
//! functions of the description, the build date and the installed size.

use vstd::prelude::*;

use crate::metadata::{Metadata, MetaView};
use crate::numbers::{spec_dec, u64_to_string};
use crate::text::{join_list, spec_join};

verus! {

/// The architecture a description builds for: its first architecture entry,
/// or `any` when the list is empty.
pub open spec fn spec_primary_arch(m: MetaView) -> Seq<char> {
    if m.arch.len() > 0 {
        m.arch[0]
    } else {
        "any"@
    }
}

/// The description's primary architecture.
pub fn primary_arch(m: &Metadata) -> (r: String)
    ensures
        r@ == spec_primary_arch(m@),
{
    if m.arch.len() > 0 {
        proof {
            assert(m.arch.deep_view()[0] == m.arch@[0]@);
        }
        m.arch[0].clone()
    } else {
        "any".to_owned()
    }
}

/// One `buildenv = <option>` line per build-environment option, in order.
pub open spec fn spec_buildenv_lines(l: Seq<Seq<char>>) -> Seq<char>
    decreases l.len(),
{
    if l.len() == 0 {
        Seq::empty()
    } else {
        spec_buildenv_lines(l.drop_last()) + "buildenv = "@ + l.last() + "\n"@
    }
}

/// The BUILDINFO record: fixed fields in their required order, the
/// description's identity and provenance, one `buildenv` line per option.
pub open spec fn spec_build_info_text(m: MetaView, build_date: u64) -> Seq<char> {
    "format = 2\n"@ + "pkgname = "@ + m.name + "\n"@ + "pkgbase = "@ + m.name + "\n"@
        + "pkgver = "@ + m.version + "-"@ + m.release + "\n"@ + "pkgarch = "@ + spec_primary_arch(
        m,
    ) + "\n"@ + "pkgbuild_sha256sum = "@ + m.pkgbuild_sha256sum + "\n"@ + "packager = "@
        + m.maintainer + " <"@ + m.email + ">\n"@ + "builddate = "@ + spec_dec(build_date as nat)
        + "\n"@ + "builddir = /build\n"@ + "startdir = /startdir/\n"@ + "buildtool = devtools\n"@
        + "buildtoolver = 1:1.2.1-1-any\n"@ + spec_buildenv_lines(m.alpm_build_env)
        + "installed = bar-1.2.3-1-any\n"@
}

/// The BUILDINFO record for a description at a given build date.
pub fn build_info_text(m: &Metadata, build_date: u64) -> (r: String)
    ensures
        r@ == spec_build_info_text(m@, build_date),
{
    let mut s = String::new();
    s.append("format = 2\n");
    s.append("pkgname = ");
    s.append(m.name.as_str());
    s.append("\n");
    s.append("pkgbase = ");
    s.append(m.name.as_str());
    s.append("\n");
    s.append("pkgver = ");
    s.append(m.version.as_str());
    s.append("-");
    s.append(m.release.as_str());
    s.append("\n");
    s.append("pkgarch = ");
    let arch = primary_arch(m);
    s.append(arch.as_str());
    s.append("\n");
    s.append("pkgbuild_sha256sum = ");
    s.append(m.pkgbuild_sha256sum.as_str());
    s.append("\n");
    s.append("packager = ");
    s.append(m.maintainer.as_str());
    s.append(" <");
    s.append(m.email.as_str());
    s.append(">\n");
    s.append("builddate = ");
    let date = u64_to_string(build_date);
    s.append(date.as_str());
    s.append("\n");
    s.append("builddir = /build\n");
    s.append("startdir = /startdir/\n");
    s.append("buildtool = devtools\n");
    s.append("buildtoolver = 1:1.2.1-1-any\n");
    let mut i: usize = 0;
    proof {
        assert(m.alpm_build_env.deep_view().subrange(0, 0) =~= Seq::<Seq<char>>::empty());
        assert(s@ =~= s@ + spec_buildenv_lines(m.alpm_build_env.deep_view().subrange(0, 0)));
    }
    let ghost base = s@;
    while i < m.alpm_build_env.len()
        invariant
            0 <= i <= m.alpm_build_env.len(),
            s@ == base + spec_buildenv_lines(m.alpm_build_env.deep_view().subrange(0, i as int)),
        decreases m.alpm_build_env.len() - i,
    {
        s.append("buildenv = ");
        s.append(m.alpm_build_env[i].as_str());
        s.append("\n");
        i = i + 1;
        proof {
            let pre = m.alpm_build_env.deep_view().subrange(0, i - 1);
            let cur = m.alpm_build_env.deep_view().subrange(0, i as int);
            assert(cur.drop_last() =~= pre);
            assert(cur.last() == m.alpm_build_env@[i - 1]@);
            assert(s@ =~= base + spec_buildenv_lines(cur));
        }
    }
    proof {
        assert(m.alpm_build_env.deep_view().subrange(0, m.alpm_build_env.len() as int)
            =~= m.alpm_build_env.deep_view());
    }
    s.append("installed = bar-1.2.3-1-any\n");
    proof {
        assert(s@ =~= spec_build_info_text(m@, build_date));
    }
    s
}

/// The PKGINFO record: identity, provenance, size and the relation fields, in
/// their required order, one `depend` line per dependency.
pub open spec fn spec_package_info_text(m: MetaView, build_date: u64, size: u64) -> Seq<char> {
    "pkgname = "@ + m.name + "\n"@ + "pkgbase = "@ + m.name + "\n"@ + "xdata = pkgtype=pkg\n"@
        + "pkgver = "@ + m.version + "-"@ + m.release + "\n"@ + "pkgdesc = "@ + m.description
        + "\n"@ + "url = "@ + m.url + "\n"@ + "builddate = "@ + spec_dec(build_date as nat) + "\n"@
        + "packager = "@ + m.maintainer + " <"@ + m.email + ">\n"@ + "size = "@ + spec_dec(
        size as nat,
    ) + "\n"@ + "arch = "@ + spec_primary_arch(m) + "\n"@ + "license = "@ + m.license + "\n"@
        + "conflict = "@ + m.conflicts[0] + "\n"@ + "provides = "@ + m.provides[0] + "\n"@
        + "depend = "@ + spec_join(m.alpm_depends, "\ndepend = "@) + "\n"@
}

/// The PKGINFO record for a description, its build date and its installed
/// size.
///
/// The description must already have passed validation: the conflict and
/// provides lists are non-empty.
pub fn package_info_text(m: &Metadata, build_date: u64, size: u64) -> (r: String)
    requires
        m@.conflicts.len() > 0,
        m@.provides.len() > 0,
    ensures
        r@ == spec_package_info_text(m@, build_date, size),
{
    let mut s = String::new();
    s.append("pkgname = ");
    s.append(m.name.as_str());
    s.append("\n");
    s.append("pkgbase = ");
    s.append(m.name.as_str());
    s.append("\n");
    s.append("xdata = pkgtype=pkg\n");
    s.append("pkgver = ");
    s.append(m.version.as_str());
    s.append("-");
    s.append(m.release.as_str());
    s.append("\n");
    s.append("pkgdesc = ");
    s.append(m.description.as_str());
    s.append("\n");
    s.append("url = ");
    s.append(m.url.as_str());
    s.append("\n");
    s.append("builddate = ");
    let date = u64_to_string(build_date);
    s.append(date.as_str());
    s.append("\n");
    s.append("packager = ");
    s.append(m.maintainer.as_str());
    s.append(" <");
    s.append(m.email.as_str());
    s.append(">\n");
    s.append("size = ");
    let sz = u64_to_string(size);
    s.append(sz.as_str());
    s.append("\n");
    s.append("arch = ");
    let arch = primary_arch(m);
    s.append(arch.as_str());
    s.append("\n");
    s.append("license = ");
    s.append(m.license.as_str());
    s.append("\n");
    s.append("conflict = ");
    proof {
        assert(m.conflicts.deep_view()[0] == m.conflicts@[0]@);
        assert(m.provides.deep_view()[0] == m.provides@[0]@);
    }
    s.append(m.conflicts[0].as_str());
    s.append("\n");
    s.append("provides = ");
    s.append(m.provides[0].as_str());
    s.append("\n");
    s.append("depend = ");
    let deps = join_list(&m.alpm_depends, "\ndepend = ");
    s.append(deps.as_str());
    s.append("\n");
    proof {
        assert(s@ =~= spec_package_info_text(m@, build_date, size));
    }
    s
}

} // verus!
