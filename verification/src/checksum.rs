//! Artifact integrity verification against the declared checksum lists.
//!
//! The strongest non-empty list decides: SHA-512, then SHA-256, then SHA-1,
//! then MD5; lists are never merged. The artifact passes when its digest
//! equals any entry of the selected list up to ASCII case, or when any entry
//! is the sentinel `SKIP` in any casing. With no populated list verification
//! is a no-op success.

use vstd::prelude::*;

use crate::errors::BuildError;
use crate::hashes::{
    hex_of, md5_hash, md5_of, sha1_hash, sha1_of, sha256_hash, sha256_of, sha512_hash, sha512_of,
};
use crate::metadata::{Metadata, MetaView};
use crate::text::{eq_ignore_case, spec_eq_ignore_case};

verus! {

/// The digest algorithms a description can declare for its sources.
#[derive(Clone, Copy, Debug, PartialEq, Eq, Structural)]
pub enum ChecksumAlgorithm {
    Md5,
    Sha1,
    Sha256,
    Sha512,
}

/// The strongest algorithm whose list is populated, if any.
pub open spec fn selected_algorithm(m: MetaView) -> Option<ChecksumAlgorithm> {
    if m.sha512sums.len() > 0 {
        Some(ChecksumAlgorithm::Sha512)
    } else if m.sha256sums.len() > 0 {
        Some(ChecksumAlgorithm::Sha256)
    } else if m.sha1sums.len() > 0 {
        Some(ChecksumAlgorithm::Sha1)
    } else if m.md5sums.len() > 0 {
        Some(ChecksumAlgorithm::Md5)
    } else {
        None
    }
}

/// The declared list of expected digests for one algorithm.
pub open spec fn expected_list(m: MetaView, a: ChecksumAlgorithm) -> Seq<Seq<char>> {
    match a {
        ChecksumAlgorithm::Md5 => m.md5sums,
        ChecksumAlgorithm::Sha1 => m.sha1sums,
        ChecksumAlgorithm::Sha256 => m.sha256sums,
        ChecksumAlgorithm::Sha512 => m.sha512sums,
    }
}

/// The artifact's hex digest under one algorithm.
pub open spec fn digest_of(a: ChecksumAlgorithm, data: Seq<u8>) -> Seq<char> {
    match a {
        ChecksumAlgorithm::Md5 => hex_of(md5_of(data)),
        ChecksumAlgorithm::Sha1 => hex_of(sha1_of(data)),
        ChecksumAlgorithm::Sha256 => hex_of(sha256_of(data)),
        ChecksumAlgorithm::Sha512 => hex_of(sha512_of(data)),
    }
}

/// True when some entry of the list is the sentinel `SKIP`, in any casing.
pub open spec fn list_contains_skip(l: Seq<Seq<char>>) -> bool {
    exists|i: int| 0 <= i < l.len() && spec_eq_ignore_case(l[i], "SKIP"@)
}

/// True when some entry of the list equals the digest up to ASCII case.
pub open spec fn list_matches(l: Seq<Seq<char>>, digest: Seq<char>) -> bool {
    exists|i: int| 0 <= i < l.len() && spec_eq_ignore_case(digest, l[i])
}

/// Whether the artifact passes verification against the description.
pub open spec fn spec_verify_ok(m: MetaView, data: Seq<u8>) -> bool {
    match selected_algorithm(m) {
        None => true,
        Some(a) => list_contains_skip(expected_list(m, a)) || list_matches(
            expected_list(m, a),
            digest_of(a, data),
        ),
    }
}

/// Acceptance is decided by the strongest non-empty list alone: a digest that
/// matches it (case-insensitively) passes, a `SKIP` entry in any casing passes
/// unconditionally, and nothing else passes — in particular a rejection stands
/// even when a weaker, unselected algorithm's list would have matched.
pub proof fn lemma_checksum_strongest_list_decides(m: MetaView, data: Seq<u8>)
    ensures
        match selected_algorithm(m) {
            Some(a) => spec_verify_ok(m, data) == (list_contains_skip(expected_list(m, a))
                || list_matches(expected_list(m, a), digest_of(a, data))),
            None => spec_verify_ok(m, data),
        },
{
}

/// The weaker, unselected lists never decide: two descriptions that select the
/// same algorithm and declare the same list for it verify alike, whatever
/// their other lists hold — a rejection therefore stands even when an unused
/// weaker list would have matched.
pub proof fn lemma_weaker_lists_do_not_decide(m1: MetaView, m2: MetaView, data: Seq<u8>)
    requires
        selected_algorithm(m1) is Some,
        selected_algorithm(m1) == selected_algorithm(m2),
        expected_list(m1, selected_algorithm(m1)->Some_0) == expected_list(
            m2,
            selected_algorithm(m2)->Some_0,
        ),
    ensures
        spec_verify_ok(m1, data) == spec_verify_ok(m2, data),
{
}

fn clone_string_vec(v: &Vec<String>) -> (r: Vec<String>)
    ensures
        r.deep_view() == v.deep_view(),
{
    let mut out: Vec<String> = Vec::new();
    let mut i: usize = 0;
    while i < v.len()
        invariant
            0 <= i <= v.len(),
            out@.len() == i,
            out.deep_view() =~= v.deep_view().subrange(0, i as int),
        decreases v.len() - i,
    {
        let ghost old_dv = out.deep_view();
        out.push(v[i].clone());
        i = i + 1;
        proof {
            assert(out@.len() == i);
            assert(out@[i - 1]@ == v@[i - 1]@);
            assert(forall|k: int| 0 <= k < i - 1 ==> out.deep_view()[k] == old_dv[k]);
            assert(forall|k: int| 0 <= k < i ==> v.deep_view()[k] == v@[k]@);
            assert(out.deep_view()[i - 1] == out@[i - 1]@);
            assert(out.deep_view() =~= v.deep_view().subrange(0, i as int));
        }
    }
    proof {
        assert(v.deep_view().subrange(0, v.len() as int) =~= v.deep_view());
    }
    out
}

/// Checks one digest against one expected list.
fn check_list(expected: &Vec<String>, actual: String) -> (r: Result<(), BuildError>)
    ensures
        r is Ok <==> (list_contains_skip(expected.deep_view()) || list_matches(
            expected.deep_view(),
            actual@,
        )),
        r matches Err(e) ==> e matches BuildError::ChecksumMismatch { expected: ex, actual: ac }
            && ex.deep_view() == expected.deep_view() && ac@ == actual@,
{
    let n = expected.len();
    let mut i: usize = 0;
    while i < n
        invariant
            n == expected.len(),
            0 <= i <= n,
            forall|k: int|
                0 <= k < i ==> !spec_eq_ignore_case(expected.deep_view()[k], "SKIP"@),
        decreases n - i,
    {
        if eq_ignore_case(expected[i].as_str(), "SKIP") {
            proof {
                assert(expected.deep_view()[i as int] == expected@[i as int]@);
                assert(spec_eq_ignore_case(expected.deep_view()[i as int], "SKIP"@));
            }
            return Ok(());
        }
        proof {
            assert(expected.deep_view()[i as int] == expected@[i as int]@);
        }
        i = i + 1;
    }
    let mut j: usize = 0;
    while j < n
        invariant
            n == expected.len(),
            0 <= j <= n,
            forall|k: int| 0 <= k < j ==> !spec_eq_ignore_case(actual@, expected.deep_view()[k]),
            forall|k: int|
                0 <= k < n ==> !spec_eq_ignore_case(expected.deep_view()[k], "SKIP"@),
        decreases n - j,
    {
        if eq_ignore_case(actual.as_str(), expected[j].as_str()) {
            proof {
                assert(expected.deep_view()[j as int] == expected@[j as int]@);
                assert(spec_eq_ignore_case(actual@, expected.deep_view()[j as int]));
            }
            return Ok(());
        }
        proof {
            assert(expected.deep_view()[j as int] == expected@[j as int]@);
        }
        j = j + 1;
    }
    Err(BuildError::ChecksumMismatch { expected: clone_string_vec(expected), actual })
}

/// Verifies an in-memory artifact against the description's checksum lists.
///
/// Succeeds exactly when the strongest non-empty list holds the artifact's
/// digest up to ASCII case or holds the sentinel `SKIP`, or when no list is
/// populated at all; a failure carries the expected entries and the computed
/// digest.
pub fn verify_checksum(metadata: &Metadata, data: &[u8]) -> (r: Result<(), BuildError>)
    ensures
        r is Ok <==> spec_verify_ok(metadata@, data@),
        r matches Err(e) ==> selected_algorithm(metadata@) matches Some(a) && e matches
            BuildError::ChecksumMismatch { expected: ex, actual: ac } && ex.deep_view()
            == expected_list(metadata@, a) && ac@ == digest_of(a, data@),
{
    if metadata.sha512sums.len() > 0 {
        check_list(&metadata.sha512sums, sha512_hash(data))
    } else if metadata.sha256sums.len() > 0 {
        check_list(&metadata.sha256sums, sha256_hash(data))
    } else if metadata.sha1sums.len() > 0 {
        check_list(&metadata.sha1sums, sha1_hash(data))
    } else if metadata.md5sums.len() > 0 {
        check_list(&metadata.md5sums, md5_hash(data))
    } else {
        Ok(())
    }
}

} // verus!
