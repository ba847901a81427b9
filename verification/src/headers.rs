//! Locating the foreign runtime's native headers.
//!
//! The runtime's installation root holds a common include directory and one
//! platform-specific subdirectory. Which subdirectory applies is a pure
//! string match on the build target triple; the required header is then
//! searched for in the candidate directories in order, and a build in which
//! no candidate holds it must fail before anything is generated.

use vstd::prelude::*;
use crate::text::matches_at;

verus! {

/// `needle` occurs contiguously inside `hay`.
pub open spec fn contains_sub(hay: Seq<char>, needle: Seq<char>) -> bool {
    exists|i: int|
        0 <= i && i + needle.len() <= hay.len() && #[trigger] hay.subrange(
            i,
            i + needle.len(),
        ) == needle
}

/// Substring search over the characters of `hay`.
pub fn contains_substring(hay: &str, needle: &str) -> (r: bool)
    ensures
        r == contains_sub(hay@, needle@),
{
    let n = hay.unicode_len();
    let m = needle.unicode_len();
    if m > n {
        return false;
    }
    if m == 0 {
        assert(hay@.subrange(0, 0 + needle@.len() as int) =~= needle@);
        return true;
    }
    let mut i: usize = 0;
    while i <= n - m
        invariant
            n == hay@.len(),
            m == needle@.len(),
            0 < m <= n,
            i <= n - m + 1,
            forall|k: int|
                0 <= k < i ==> #[trigger] hay@.subrange(k, k + needle@.len()) != needle@,
        decreases n - m + 1 - i,
    {
        if matches_at(hay, needle, i) {
            return true;
        }
        i = i + 1;
    }
    assert forall|k: int| 0 <= k && k + needle@.len() <= hay@.len() implies #[trigger] hay@
        .subrange(k, k + needle@.len()) != needle@ by {
        assert(k < i);
    }
    false
}

/// The platform-specific include subdirectory for a build target triple:
/// `win32` for a Windows target, `darwin` for a Darwin one, `linux`
/// otherwise. The choice is a pure string match; nothing is probed at run
/// time.
pub fn platform_include_subdir(target: &str) -> (r: &'static str)
    ensures
        contains_sub(target@, "windows"@) ==> r@ == "win32"@,
        !contains_sub(target@, "windows"@) && contains_sub(target@, "darwin"@) ==> r@
            == "darwin"@,
        !contains_sub(target@, "windows"@) && !contains_sub(target@, "darwin"@) ==> r@
            == "linux"@,
{
    if contains_substring(target, "windows") {
        "win32"
    } else if contains_substring(target, "darwin") {
        "darwin"
    } else {
        "linux"
    }
}

/// Pick the first candidate directory that holds the required header.
/// `present[i]` says whether candidate `i` holds it. `None` comes back
/// exactly when no candidate does, and the build must then fail with
/// nothing written.
pub fn first_candidate_with_header(present: &Vec<bool>) -> (r: Option<usize>)
    ensures
        r is Some ==> r->0 < present@.len() && present@[r->0 as int] && forall|j: int|
            0 <= j < r->0 ==> !present@[j],
        r is None <==> forall|j: int| 0 <= j < present@.len() ==> !present@[j],
{
    let mut i: usize = 0;
    while i < present.len()
        invariant
            i <= present@.len(),
            forall|j: int| 0 <= j < i ==> !present@[j],
        decreases present@.len() - i,
    {
        if present[i] {
            return Some(i);
        }
        i = i + 1;
    }
    None
}

} // verus!
