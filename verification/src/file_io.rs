//! Sanitization of temp-file name components: only safe ASCII characters
//! survive, and a component that could climb out of the temp directory is
//! rejected.

use crate::chars::{char_is_temp, is_temp_char, trim_str};
use vstd::prelude::*;
use vstd::string::{StrSliceExecFns, StringExecFns};

verus! {

/// `s` with every character outside the temp-name class removed.
pub open spec fn temp_filtered(s: Seq<char>) -> Seq<char>
    decreases s.len(),
{
    if s.len() == 0 {
        Seq::empty()
    } else if is_temp_char(s.last()) {
        temp_filtered(s.drop_last()) + seq![s.last()]
    } else {
        temp_filtered(s.drop_last())
    }
}

/// Two consecutive dots occur somewhere in `s`.
pub open spec fn has_dotdot(s: Seq<char>) -> bool {
    exists|k: int| 0 <= k && k + 1 < s.len() && (#[trigger] s[k]) == '.' && s[k + 1] == '.'
}

/// The outcome [`sanitize_temp_component`] must produce: trim, keep only
/// ASCII alphanumerics, hyphen, underscore and dot, and reject what ends up
/// empty or still contains `..`.
pub open spec fn sanitize_temp_spec(s: Seq<char>) -> Option<Seq<char>> {
    let t = crate::chars::trim_spec(s);
    if t.len() == 0 {
        None
    } else {
        let kept = temp_filtered(t);
        if kept.len() == 0 || has_dotdot(kept) {
            None
        } else {
            Some(kept)
        }
    }
}

/// Sanitizes a string for use as a temp filename component (prefix or
/// suffix): [`sanitize_temp_spec`].
#[verifier::loop_isolation(false)]
pub fn sanitize_temp_component(s: &str) -> (r: Option<String>)
    ensures
        r is Some <==> sanitize_temp_spec(s@) is Some,
        r matches Some(out) ==> sanitize_temp_spec(s@) == Some(out@),
{
    let t = trim_str(s);
    let n = t.unicode_len();
    if n == 0 {
        return None;
    }
    let mut out = String::new();
    let mut i: usize = 0;
    while i < n
        invariant
            0 <= i <= n,
            n == t@.len(),
            out@ == temp_filtered(t@.subrange(0, i as int)),
        decreases n - i,
    {
        let c = t.get_char(i);
        if char_is_temp(c) {
            out.append(t.substring_char(i, i + 1));
        }
        proof {
            assert(t@.subrange(0, i as int + 1).drop_last() =~= t@.subrange(0, i as int));
            assert(out@ =~= temp_filtered(t@.subrange(0, i as int + 1)));
        }
        i += 1;
    }
    proof {
        assert(t@.subrange(0, n as int) =~= t@);
    }
    let m = out.as_str().unicode_len();
    if m == 0 {
        return None;
    }
    let mut k: usize = 0;
    while k + 1 < m
        invariant
            0 <= k,
            m == out@.len(),
            k + 1 <= m,
            forall|j: int| 0 <= j && j + 1 < k + 1 ==> !((#[trigger] out@[j]) == '.' && out@[j + 1] == '.'),
        decreases m - k,
    {
        if out.as_str().get_char(k) == '.' && out.as_str().get_char(k + 1) == '.' {
            proof {
                assert(has_dotdot(out@));
            }
            return None;
        }
        k += 1;
    }
    proof {
        assert(!has_dotdot(out@));
    }
    Some(out)
}

} // verus!
