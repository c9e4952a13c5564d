//! The rules an export destination must pass before a codec's output is
//! written: a filename with the right extension, and a directory outside the
//! system tree. Resolving the path on disk (canonicalizing, probing
//! writability) is I/O and stays with the caller; the decisions live here.

use crate::filename::last_dot;
use crate::image_loading::str_has_prefix;
use vstd::prelude::*;
use vstd::string::StrSliceExecFns;

verus! {

/// Code point of a character folded to ASCII lowercase; other characters
/// keep their own code point.
pub open spec fn ascii_lower_val(c: char) -> u32 {
    if 'A' <= c && c <= 'Z' {
        (c as u32 + 32) as u32
    } else {
        c as u32
    }
}

/// The two sequences are equal up to ASCII case.
pub open spec fn ascii_eq_ignore_case(a: Seq<char>, b: Seq<char>) -> bool {
    a.len() == b.len() && forall|i: int|
        0 <= i < a.len() ==> ascii_lower_val(#[trigger] a[i]) == ascii_lower_val(b[i])
}

/// The extension of a file name: what follows the last dot, provided that
/// dot neither leads the name nor ends it, and no separator follows it.
pub open spec fn extension_of(name: Seq<char>) -> Option<Seq<char>> {
    let p = last_dot(name);
    if 1 <= p && p < name.len() - 1 {
        Some(name.subrange(p + 1, name.len() as int))
    } else {
        None
    }
}

/// Whether the file name carries `extension` (compared ignoring ASCII case).
#[verifier::loop_isolation(false)]
pub fn has_extension(file_name: &str, extension: &str) -> (r: bool)
    ensures
        r == (extension_of(file_name@) matches Some(e) && ascii_eq_ignore_case(e, extension@)),

{
    let n = file_name.unicode_len();
    let mut p: usize = n;
    while p > 0 && file_name.get_char(p - 1) != '.'
        invariant
            0 <= p <= n,
            n == file_name@.len(),
            forall|k: int| p <= k < n ==> (#[trigger] file_name@[k]) != '.',
        decreases p,
    {
        p -= 1;
    }
    if p < 2 || p >= n {
        proof {
            if p == 0 {
                crate::filename::lemma_last_dot_none(file_name@);
            } else {
                crate::filename::lemma_last_dot_at(file_name@, p - 1);
            }
        }
        return false;
    }
    proof {
        crate::filename::lemma_last_dot_at(file_name@, p - 1);
    }
    let m = extension.unicode_len();
    if n - p != m {
        return false;
    }
    let mut i: usize = 0;
    while i < m
        invariant
            0 <= i <= m,
            m == extension@.len(),
            n == file_name@.len(),
            2 <= p < n,
            n - p == m,
            forall|k: int|
                0 <= k < i ==> ascii_lower_val(#[trigger] file_name@[p + k]) == ascii_lower_val(
                    extension@[k],
                ),
        decreases m - i,
    {
        let a = lower_char(file_name.get_char(p + i));
        let b = lower_char(extension.get_char(i));
        if a != b {
            proof {
                let e = extension_of(file_name@)->0;
                assert(e[i as int] == file_name@[p + i]);
            }
            return false;
        }
        i += 1;
    }
    proof {
        let e = extension_of(file_name@)->0;
        assert forall|k: int|
            0 <= k < e.len() implies ascii_lower_val(#[trigger] e[k]) == ascii_lower_val(
            extension@[k],
        ) by {
            assert(e[k] == file_name@[p + k]);
        }
    }
    true
}

/// Folds one character's code point to ASCII lowercase.
fn lower_char(c: char) -> (r: u32)
    ensures
        r == ascii_lower_val(c),
{
    if 'A' <= c && c <= 'Z' {
        c as u32 + 32
    } else {
        c as u32
    }
}

/// The canonical export directory falls under the system tree: it starts
/// with one of the blocked roots.
pub open spec fn export_dir_blocked_spec(s: Seq<char>) -> bool {
    ||| str_has_prefix(s, "/etc"@)
    ||| str_has_prefix(s, "/usr"@)
    ||| str_has_prefix(s, "/bin"@)
    ||| str_has_prefix(s, "/sbin"@)
    ||| str_has_prefix(s, "/boot"@)
    ||| str_has_prefix(s, "/lib"@)
    ||| str_has_prefix(s, "/proc"@)
    ||| str_has_prefix(s, "/sys"@)
}

/// Whether an export may target the canonical directory.
pub fn export_dir_blocked(canonical_dir: &str) -> (r: bool)
    ensures
        r == export_dir_blocked_spec(canonical_dir@),
{
    crate::image_loading::starts_with_str(canonical_dir, "/etc")
        || crate::image_loading::starts_with_str(canonical_dir, "/usr")
        || crate::image_loading::starts_with_str(canonical_dir, "/bin")
        || crate::image_loading::starts_with_str(canonical_dir, "/sbin")
        || crate::image_loading::starts_with_str(canonical_dir, "/boot")
        || crate::image_loading::starts_with_str(canonical_dir, "/lib")
        || crate::image_loading::starts_with_str(canonical_dir, "/proc")
        || crate::image_loading::starts_with_str(canonical_dir, "/sys")
}

} // verus!
