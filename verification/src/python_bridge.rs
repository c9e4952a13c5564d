//! Decisions around the external depth estimator: which source paths may
//! start a run, and how its stderr progress protocol is read. The estimator
//! itself is a separate process the caller spawns; lines of the protocol are
//! `PROGRESS <0-100>` and `STAGE <name>`.

use crate::chars::{trim_spec, trim_str};
use crate::image_loading::str_has_prefix;
use crate::numfmt::spec_decimal;
use vstd::prelude::*;
use vstd::string::{StrSliceExecFns, StringExecFns};

verus! {

/// The views of a sequence of strings.
pub open spec fn str_views(ls: Seq<String>) -> Seq<Seq<char>> {
    ls.map_values(|l: String| l@)
}

/// Every character is a decimal digit (false of the empty sequence's
/// digits only vacuously; emptiness is checked separately).
pub open spec fn all_digits(s: Seq<char>) -> bool {
    forall|i: int| 0 <= i < s.len() ==> '0' <= (#[trigger] s[i]) && s[i] <= '9'
}

/// The numeric value of a digit sequence, most significant first.
pub open spec fn digits_val(s: Seq<char>) -> int
    decreases s.len(),
{
    if s.len() == 0 {
        0
    } else {
        digits_val(s.drop_last()) * 10 + (s.last() as u32 - 48)
    }
}

/// How `str::parse::<u8>` reads a trimmed string: an optional leading plus
/// sign, then one or more digits whose value fits in eight bits.
pub open spec fn parse_u8_spec(s: Seq<char>) -> Option<u8> {
    let t = if s.len() > 0 && s[0] == '+' {
        s.drop_first()
    } else {
        s
    };
    if t.len() == 0 || !all_digits(t) || digits_val(t) > 255 {
        None
    } else {
        Some(digits_val(t) as u8)
    }
}

/// Parses an unsigned eight-bit decimal as `str::parse::<u8>` would.
#[verifier::loop_isolation(false)]
pub fn parse_u8(s: &str) -> (r: Option<u8>)
    ensures
        r == parse_u8_spec(s@),
{
    let n = s.unicode_len();
    let start: usize = if n > 0 && s.get_char(0) == '+' {
        1
    } else {
        0
    };
    let ghost t = if s@.len() > 0 && s@[0] == '+' {
        s@.drop_first()
    } else {
        s@
    };
    proof {
        assert(t =~= s@.subrange(start as int, n as int));
    }
    if start == n {
        return None;
    }
    let mut acc: u32 = 0;
    let mut i: usize = start;
    while i < n
        invariant
            start <= i <= n,
            n == s@.len(),
            t == s@.subrange(start as int, n as int),
            all_digits(s@.subrange(start as int, i as int)),
            acc == if digits_val(s@.subrange(start as int, i as int)) > 255 {
                256int
            } else {
                digits_val(s@.subrange(start as int, i as int))
            },
        decreases n - i,
    {
        let c = s.get_char(i);
        if !('0' <= c && c <= '9') {
            proof {
                assert(t[i - start] == s@[i as int]);
                assert(!all_digits(t));
            }
            return None;
        }
        let d: u32 = c as u32 - 48;
        let raw: u32 = acc * 10 + d;
        let ghost prev = s@.subrange(start as int, i as int);
        let ghost cur = s@.subrange(start as int, i as int + 1);
        acc = if raw > 255 {
            256
        } else {
            raw
        };
        proof {
            assert(cur.drop_last() =~= prev);
            assert(digits_val(cur) == digits_val(prev) * 10 + d);
            if digits_val(prev) > 255 {
                assert(digits_val(prev) * 10 + d > 255) by (nonlinear_arith)
                    requires
                        digits_val(prev) > 255,
                        d >= 0,
                ;
            }
        }
        i += 1;
    }
    proof {
        assert(s@.subrange(start as int, n as int) =~= t);
    }
    if acc > 255 {
        None
    } else {
        Some(acc as u8)
    }
}

/// The stage name a stderr line announces: for a trimmed line of the form
/// `STAGE <name>`, the trimmed name, when nonempty.
pub open spec fn stage_of(line: Seq<char>) -> Option<Seq<char>> {
    let t = trim_spec(line);
    if str_has_prefix(t, "STAGE "@) {
        let st = trim_spec(t.subrange(6, t.len() as int));
        if st.len() > 0 {
            Some(st)
        } else {
            None
        }
    } else {
        None
    }
}

/// The stage names of the first `n` stderr lines, in order.
pub open spec fn stages_spec(ls: Seq<Seq<char>>, n: int) -> Seq<Seq<char>>
    decreases n,
{
    if n <= 0 {
        Seq::empty()
    } else {
        stages_spec(ls, n - 1) + match stage_of(ls[n - 1]) {
            Some(st) => seq![st],
            None => Seq::empty(),
        }
    }
}

/// The progress message a stderr line would log: the percentage of a
/// well-formed `PROGRESS <n>` line, or the (possibly empty) trimmed name of
/// a `STAGE <name>` line.
pub open spec fn progress_log_of(line: Seq<char>) -> Option<Seq<char>> {
    let t = trim_spec(line);
    if str_has_prefix(t, "PROGRESS "@) {
        match parse_u8_spec(trim_spec(t.subrange(9, t.len() as int))) {
            Some(pct) => Some(
                "depth estimation progress: "@ + spec_decimal(pct as nat) + "%"@,
            ),
            None => None,
        }
    } else if str_has_prefix(t, "STAGE "@) {
        Some("depth estimation stage: "@ + trim_spec(t.subrange(6, t.len() as int)))
    } else {
        None
    }
}

/// The progress messages of the first `n` stderr lines, in order.
pub open spec fn progress_logs_spec(ls: Seq<Seq<char>>, n: int) -> Seq<Seq<char>>
    decreases n,
{
    if n <= 0 {
        Seq::empty()
    } else {
        progress_logs_spec(ls, n - 1) + match progress_log_of(ls[n - 1]) {
            Some(msg) => seq![msg],
            None => Seq::empty(),
        }
    }
}

/// Extracts stage names from stderr lines: each `STAGE <name>` line
/// contributes its trimmed, nonempty name.
#[verifier::loop_isolation(false)]
pub fn stages_from_stderr(lines: &Vec<String>) -> (r: Vec<String>)
    ensures
        str_views(r@) == stages_spec(str_views(lines@), lines@.len() as int),
{
    let mut out: Vec<String> = Vec::new();
    let mut i: usize = 0;
    while i < lines.len()
        invariant
            0 <= i <= lines@.len(),
            str_views(out@) == stages_spec(str_views(lines@), i as int),
        decreases lines@.len() - i,
    {
        let t = trim_str(lines[i].as_str());
        let n = t.unicode_len();
        proof {
            reveal_strlit("STAGE ");
        }
        if crate::image_loading::starts_with_str(t, "STAGE ") {
            let rest = t.substring_char(6, n);
            let st = trim_str(rest);
            if st.unicode_len() > 0 {
                out.push(st.to_owned());
            }
        }
        proof {
            assert(str_views(out@) =~= stages_spec(str_views(lines@), i as int + 1));
        }
        i += 1;
    }
    out
}

/// Reads the stderr progress protocol and returns the messages it asks to be
/// logged, in order: a percentage line for each well-formed `PROGRESS <n>`,
/// a stage line for each `STAGE <name>`.
#[verifier::loop_isolation(false)]
pub fn log_progress_from_stderr(lines: &Vec<String>) -> (r: Vec<String>)
    ensures
        str_views(r@) == progress_logs_spec(str_views(lines@), lines@.len() as int),
{
    let mut out: Vec<String> = Vec::new();
    let mut i: usize = 0;
    while i < lines.len()
        invariant
            0 <= i <= lines@.len(),
            str_views(out@) == progress_logs_spec(str_views(lines@), i as int),
        decreases lines@.len() - i,
    {
        let t = trim_str(lines[i].as_str());
        let n = t.unicode_len();
        proof {
            reveal_strlit("PROGRESS ");
            reveal_strlit("STAGE ");
        }
        if crate::image_loading::starts_with_str(t, "PROGRESS ") {
            let rest = t.substring_char(9, n);
            let arg = trim_str(rest);
            match parse_u8(arg) {
                Some(pct) => {
                    let mut msg = String::from_str("depth estimation progress: ");
                    let num = crate::numfmt::u64_to_string(pct as u64);
                    msg.append(num.as_str());
                    proof {
                        reveal_strlit("%");
                    }
                    msg.append("%");
                    proof {
                        assert(msg@ =~= progress_log_of(lines@[i as int]@)->0);
                    }
                    out.push(msg);
                },
                None => {},
            }
        } else if crate::image_loading::starts_with_str(t, "STAGE ") {
            let rest = t.substring_char(6, n);
            let st = trim_str(rest);
            let mut msg = String::from_str("depth estimation stage: ");
            msg.append(st);
            proof {
                assert(msg@ =~= progress_log_of(lines@[i as int]@)->0);
            }
            out.push(msg);
        }
        proof {
            assert(str_views(out@) =~= progress_logs_spec(str_views(lines@), i as int + 1));
        }
        i += 1;
    }
    out
}

/// Decides whether a depth-estimation run may start: a blank source path is
/// rejected with the error shown to the user, any other path is handed back
/// trimmed for the caller to load and feed to the estimator.
pub fn generate_depth_map_impl(path: &str) -> (r: Result<String, String>)
    ensures
        r is Ok <==> !crate::chars::all_blank(path@),
        r matches Ok(p) ==> p@ == trim_spec(path@),
        r matches Err(e) ==> e@ == "image path must be non-empty"@,
{
    let t = trim_str(path);
    proof {
        crate::chars::lemma_blank_iff_trim_empty(path@);
    }
    if t.unicode_len() == 0 {
        Err(String::from_str("image path must be non-empty"))
    } else {
        Ok(t.to_owned())
    }
}

} // verus!
