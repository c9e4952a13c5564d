//! Default export filenames: `<stem>_<YYYYMMDD_HHMMSS>.<ext>`, where the
//! stem comes from the source image path (sanitized) and the timestamp from
//! the current time through a Gregorian day-number conversion.

use crate::chars::{all_blank, char_is_word, is_sep, is_word_char, trim_str};
use crate::numfmt::{spec_decimal, u64_to_string};
use vstd::arithmetic::div_mod::{
    lemma_div_is_ordered_by_denominator, lemma_div_pos_is_pos, lemma_fundamental_div_mod,
    lemma_mod_bound,
};
use vstd::prelude::*;
use vstd::string::{StrSliceExecFns, StringExecFns};

verus! {

/// Index where the file name begins: just after the last path separator
/// (either slash), or 0 when there is none.
pub open spec fn name_start(s: Seq<char>) -> int
    decreases s.len(),
{
    if s.len() == 0 {
        0
    } else if is_sep(s.last()) {
        s.len() as int
    } else {
        name_start(s.drop_last())
    }
}

/// Position of the last dot in `name`, or -1 when there is none.
pub open spec fn last_dot(name: Seq<char>) -> int
    decreases name.len(),
{
    if name.len() == 0 {
        -1
    } else if name.last() == '.' {
        name.len() - 1
    } else {
        last_dot(name.drop_last())
    }
}

/// The file stem of `name`: everything before the last dot, unless that dot
/// leads the name (a hidden file keeps its whole name), and unless the name
/// is a current- or parent-directory marker (those have no stem).
pub open spec fn stem_of_name(name: Seq<char>) -> Seq<char> {
    if name =~= "."@ || name =~= ".."@ {
        Seq::empty()
    } else if last_dot(name) >= 1 {
        name.subrange(0, last_dot(name))
    } else {
        name
    }
}

/// Every word character kept, every other character replaced by an
/// underscore.
pub open spec fn sanitize_word(s: Seq<char>) -> Seq<char> {
    Seq::new(s.len(), |i: int| if is_word_char(s[i]) { s[i] } else { '_' })
}

/// The stem used for an export filename derived from `path`: `mesh` for a
/// blank path or one without a stem, otherwise the sanitized file stem.
pub open spec fn export_stem(path: Seq<char>) -> Seq<char> {
    if all_blank(path) {
        sanitize_word("mesh"@)
    } else {
        let name = path.subrange(name_start(path), path.len() as int);
        let stem = stem_of_name(name);
        if stem.len() == 0 {
            sanitize_word("mesh"@)
        } else {
            sanitize_word(stem)
        }
    }
}

/// `name_start` is the index after the last separator.
proof fn lemma_name_start(s: Seq<char>, i: int)
    requires
        0 <= i <= s.len(),
        forall|k: int| i <= k < s.len() ==> !is_sep(#[trigger] s[k]),
        i == 0 || is_sep(s[i - 1]),
    ensures
        name_start(s) == i,
    decreases s.len() - i,
{
    if i == s.len() {
        if s.len() > 0 {
            assert(is_sep(s.last()));
        }
    } else {
        lemma_name_start(s.drop_last(), i);
        assert(s.drop_last() =~= s.subrange(0, s.len() - 1));
    }
}

/// `last_dot` is the position of the last dot.
pub proof fn lemma_last_dot_at(name: Seq<char>, p: int)
    requires
        0 <= p < name.len(),
        name[p] == '.',
        forall|k: int| p < k < name.len() ==> (#[trigger] name[k]) != '.',
    ensures
        last_dot(name) == p,
    decreases name.len(),
{
    if p == name.len() - 1 {
    } else {
        lemma_last_dot_at(name.drop_last(), p);
    }
}

/// Without any dot, `last_dot` is -1.
pub proof fn lemma_last_dot_none(name: Seq<char>)
    requires
        forall|k: int| 0 <= k < name.len() ==> (#[trigger] name[k]) != '.',
    ensures
        last_dot(name) == -1,
    decreases name.len(),
{
    if name.len() > 0 {
        lemma_last_dot_none(name.drop_last());
    }
}

/// Replaces every character outside the word class by an underscore. A kept
/// character is copied out of the source string itself.
#[verifier::loop_isolation(false)]
pub fn sanitize_stem(s: &str) -> (r: String)
    ensures
        r@ == sanitize_word(s@),
{
    let n = s.unicode_len();
    let mut out = String::new();
    let mut i: usize = 0;
    while i < n
        invariant
            0 <= i <= n,
            n == s@.len(),
            out@ == sanitize_word(s@.subrange(0, i as int)),
        decreases n - i,
    {
        let c = s.get_char(i);
        if char_is_word(c) {
            out.append(s.substring_char(i, i + 1));
        } else {
            proof {
                reveal_strlit("_");
            }
            out.append("_");
        }
        proof {
            assert(out@ =~= sanitize_word(s@.subrange(0, i as int + 1)));
        }
        i += 1;
    }
    proof {
        assert(s@.subrange(0, n as int) =~= s@);
    }
    out
}

/// The Gregorian civil date `(year, month, day)` for a count of days since
/// 1970-01-01, by the standard era decomposition of the proleptic Gregorian
/// calendar: eras of 146097 days are 400 years; within an era, the year is
/// found from the day with leap corrections, then the day of year is split
/// into a month (counted from March) and a day.
pub open spec fn civil_from_days_spec(z: nat) -> (nat, nat, nat) {
    let days = z + 719468;
    let era = days as int / 146097;
    let doe = days as int % 146097;
    let yoe = (doe - doe / 1460 + doe / 36524 - doe / 146096) / 365;
    let y = yoe + era * 400;
    let doy = doe - (365 * yoe + yoe / 4 - yoe / 100);
    let mp = (5 * doy + 2) / 153;
    let d = doy - (153 * mp + 2) / 5 + 1;
    let m = if mp < 10 {
        mp + 3
    } else {
        mp - 9
    };
    let yy = if m <= 2 {
        y + 1
    } else {
        y
    };
    (yy as nat, m as nat, d as nat)
}

/// Within an era, the year-of-era computed from a day-of-era starts on or
/// before that day: the day of year is never negative. With the leap-day
/// corrections expanded through their division remainders this is linear
/// integer arithmetic.
proof fn lemma_year_start_le_doe(doe: int)
    requires
        0 <= doe < 146097,
    ensures
        ({
            let yoe = (doe - doe / 1460 + doe / 36524 - doe / 146096) / 365;
            365 * yoe + yoe / 4 - yoe / 100 <= doe
        }),
{
    let n = doe - doe / 1460 + doe / 36524 - doe / 146096;
    let yoe = n / 365;
    lemma_fundamental_div_mod(doe, 1460);
    lemma_mod_bound(doe, 1460);
    lemma_fundamental_div_mod(doe, 36524);
    lemma_mod_bound(doe, 36524);
    lemma_fundamental_div_mod(doe, 146096);
    lemma_mod_bound(doe, 146096);
    lemma_div_pos_is_pos(doe, 1460);
    lemma_div_pos_is_pos(doe, 36524);
    lemma_div_pos_is_pos(doe, 146096);
    lemma_div_is_ordered_by_denominator(doe, 36524, 146096);
    lemma_div_is_ordered_by_denominator(doe, 1460, 36524);
    assert(n >= 0);
    lemma_fundamental_div_mod(n, 365);
    lemma_mod_bound(n, 365);
    lemma_div_pos_is_pos(n, 365);
    lemma_fundamental_div_mod(yoe, 4);
    lemma_mod_bound(yoe, 4);
    lemma_fundamental_div_mod(yoe, 100);
    lemma_mod_bound(yoe, 100);
}

/// Within an era, the day falls before the next year's start: the day of
/// year stays below 366.
proof fn lemma_doe_lt_next_year_start(doe: int)
    requires
        0 <= doe < 146097,
    ensures
        ({
            let yoe = (doe - doe / 1460 + doe / 36524 - doe / 146096) / 365;
            doe - (365 * yoe + yoe / 4 - yoe / 100) <= 365
        }),
{
    let n = doe - doe / 1460 + doe / 36524 - doe / 146096;
    let yoe = n / 365;
    lemma_fundamental_div_mod(doe, 1460);
    lemma_mod_bound(doe, 1460);
    lemma_fundamental_div_mod(doe, 36524);
    lemma_mod_bound(doe, 36524);
    lemma_fundamental_div_mod(doe, 146096);
    lemma_mod_bound(doe, 146096);
    lemma_div_pos_is_pos(doe, 1460);
    lemma_div_pos_is_pos(doe, 36524);
    lemma_div_pos_is_pos(doe, 146096);
    lemma_div_is_ordered_by_denominator(doe, 36524, 146096);
    lemma_div_is_ordered_by_denominator(doe, 1460, 36524);
    assert(n >= 0);
    lemma_fundamental_div_mod(n, 365);
    lemma_mod_bound(n, 365);
    lemma_div_pos_is_pos(n, 365);
    lemma_fundamental_div_mod(yoe, 4);
    lemma_mod_bound(yoe, 4);
    lemma_fundamental_div_mod(yoe, 100);
    lemma_mod_bound(yoe, 100);
}

/// The month offset computed back from the month never passes the day of
/// year, and trails it by at most thirty: the day of month lands in 1 to 31.
proof fn lemma_month_start_le_doy(doy: int)
    requires
        0 <= doy,
    ensures
        (153 * ((5 * doy + 2) / 153) + 2) / 5 <= doy,
        (153 * ((5 * doy + 2) / 153) + 2) / 5 >= doy - 30,
{
    let mp = (5 * doy + 2) / 153;
    lemma_fundamental_div_mod(5 * doy + 2, 153);
    lemma_mod_bound(5 * doy + 2, 153);
    lemma_div_pos_is_pos(5 * doy + 2, 153);
    lemma_fundamental_div_mod(153 * mp + 2, 5);
    lemma_mod_bound(153 * mp + 2, 5);
    lemma_div_pos_is_pos(153 * mp + 2, 5);
}

/// Computes the civil date for a day count since 1970-01-01: the month is
/// one of the twelve, the day one of at most thirty-one.
pub fn civil_from_days(z: u64) -> (r: (u64, u64, u64))
    requires
        z <= 0xFFFF_FFFF_FFFFu64,
    ensures
        r.0 == civil_from_days_spec(z as nat).0,
        r.1 == civil_from_days_spec(z as nat).1,
        r.2 == civil_from_days_spec(z as nat).2,
        1 <= r.1 <= 12,
        1 <= r.2 <= 31,
{
    let days: u64 = z + 719468;
    let era: u64 = days / 146097;
    let doe: u64 = days % 146097;
    proof {
        assert(doe < 146097);
        lemma_div_is_ordered_by_denominator(doe as int, 36524, 146096);
    }
    let q1460: u64 = doe / 1460;
    let q36524: u64 = doe / 36524;
    let q146096: u64 = doe / 146096;
    let yoe: u64 = (doe - q1460 + q36524 - q146096) / 365;
    proof {
        assert(yoe <= doe + q36524) by (nonlinear_arith)
            requires
                yoe == (doe - q1460 + q36524 - q146096) as int / 365,
                q1460 <= doe,
                q146096 <= q36524,
                0 <= doe,
                0 <= q36524,
        ;
    }
    let y: u64 = yoe + era * 400;
    proof {
        lemma_year_start_le_doe(doe as int);
        assert(yoe / 4 >= yoe / 100) by {
            lemma_div_is_ordered_by_denominator(yoe as int, 4, 100);
        }
    }
    let start: u64 = 365 * yoe + yoe / 4 - yoe / 100;
    let doy: u64 = doe - start;
    let mp: u64 = (5 * doy + 2) / 153;
    proof {
        lemma_doe_lt_next_year_start(doe as int);
        lemma_month_start_le_doy(doy as int);
        assert(mp <= 5 * doy + 2) by (nonlinear_arith)
            requires
                mp == (5 * doy + 2) as int / 153,
                0 <= doy,
        ;
        assert(mp <= 11) by {
            assert(5 * (doy as int) + 2 <= 1827);
            vstd::arithmetic::div_mod::lemma_div_is_ordered(
                5 * (doy as int) + 2,
                1827,
                153,
            );
        }
    }
    let moff: u64 = (153 * mp + 2) / 5;
    let d: u64 = doy - moff + 1;
    let m: u64 = if mp < 10 {
        mp + 3
    } else {
        mp - 9
    };
    let yy: u64 = if m <= 2 {
        y + 1
    } else {
        y
    };
    (yy, m, d)
}

/// `n` in decimal, zero-padded to two digits (wider values keep all digits).
pub open spec fn spec_pad2(n: nat) -> Seq<char> {
    if n < 10 {
        seq!['0'] + spec_decimal(n)
    } else {
        spec_decimal(n)
    }
}

/// `n` in decimal, zero-padded to four digits (wider values keep all digits).
pub open spec fn spec_pad4(n: nat) -> Seq<char> {
    if n < 10 {
        seq!['0', '0', '0'] + spec_decimal(n)
    } else if n < 100 {
        seq!['0', '0'] + spec_decimal(n)
    } else if n < 1000 {
        seq!['0'] + spec_decimal(n)
    } else {
        spec_decimal(n)
    }
}

/// Renders `n` zero-padded to two digits.
fn pad2(n: u64) -> (s: String)
    ensures
        s@ == spec_pad2(n as nat),
{
    proof {
        reveal_strlit("0");
    }
    if n < 10 {
        let mut s = String::from_str("0");
        let d = u64_to_string(n);
        s.append(d.as_str());
        proof {
            assert(s@ =~= spec_pad2(n as nat));
        }
        s
    } else {
        u64_to_string(n)
    }
}

/// Renders `n` zero-padded to four digits.
fn pad4(n: u64) -> (s: String)
    ensures
        s@ == spec_pad4(n as nat),
{
    proof {
        reveal_strlit("0");
        reveal_strlit("00");
        reveal_strlit("000");
    }
    let d = u64_to_string(n);
    let mut s = if n < 10 {
        String::from_str("000")
    } else if n < 100 {
        String::from_str("00")
    } else if n < 1000 {
        String::from_str("0")
    } else {
        String::new()
    };
    s.append(d.as_str());
    proof {
        assert(s@ =~= spec_pad4(n as nat));
    }
    s
}

/// The `YYYYMMDD_HHMMSS` timestamp for a count of seconds since the Unix
/// epoch: the civil date of the day, then the time of day.
pub open spec fn spec_timestamp(secs: nat) -> Seq<char> {
    let civil = civil_from_days_spec(secs / 86400);
    let day_secs = secs % 86400;
    spec_pad4(civil.0) + spec_pad2(civil.1) + spec_pad2(civil.2) + seq!['_'] + spec_pad2(
        (day_secs / 3600) as nat,
    ) + spec_pad2(((day_secs % 3600) / 60) as nat) + spec_pad2((day_secs % 60) as nat)
}

/// Renders the timestamp for a count of seconds since the Unix epoch.
pub fn timestamp_from_unix(secs: u64) -> (s: String)
    ensures
        s@ == spec_timestamp(secs as nat),
{
    let days: u64 = secs / 86400;
    let day_secs: u64 = secs % 86400;
    let hours: u64 = day_secs / 3600;
    let minutes: u64 = (day_secs % 3600) / 60;
    let seconds: u64 = day_secs % 60;
    let (y, m, d) = civil_from_days(days);
    let mut s = pad4(y);
    let t = pad2(m);
    s.append(t.as_str());
    let t = pad2(d);
    s.append(t.as_str());
    proof {
        reveal_strlit("_");
    }
    s.append("_");
    let t = pad2(hours);
    s.append(t.as_str());
    let t = pad2(minutes);
    s.append(t.as_str());
    let t = pad2(seconds);
    s.append(t.as_str());
    proof {
        assert(s@ =~= spec_timestamp(secs as nat));
    }
    s
}

/// Relies on `std::time::SystemTime::now`: seconds elapsed since the Unix
/// epoch, zero when the clock reads earlier than the epoch. The value
/// depends on the clock, so nothing is promised of it.
#[verifier::external_body]
fn now_unix_seconds() -> u64 {
    match std::time::SystemTime::now().duration_since(std::time::SystemTime::UNIX_EPOCH) {
        Ok(d) => d.as_secs(),
        Err(_) => 0,
    }
}

/// The default export filename for a source path, extension and time:
/// `<stem>_<YYYYMMDD_HHMMSS>.<ext>`.
pub open spec fn export_filename_spec(path: Seq<char>, ext: Seq<char>, secs: nat) -> Seq<char> {
    export_stem(path) + seq!['_'] + spec_timestamp(secs) + seq!['.'] + ext
}

/// Builds the export filename for the given moment (seconds since the Unix
/// epoch): the source path's sanitized stem (`mesh` when the path is blank
/// or has no stem), an underscore, the timestamp, a dot, the extension.
#[verifier::loop_isolation(false)]
pub fn export_filename_at(source_image_path: &str, ext: &str, unix_secs: u64) -> (r: String)
    ensures
        r@ == export_filename_spec(source_image_path@, ext@, unix_secs as nat),
{
    let trimmed = trim_str(source_image_path);
    let mut stem: String;
    if trimmed.unicode_len() == 0 {
        proof {
            crate::chars::lemma_blank_iff_trim_empty(source_image_path@);
        }
        stem = sanitize_stem("mesh");
    } else {
        proof {
            crate::chars::lemma_blank_iff_trim_empty(source_image_path@);
        }
        let n = source_image_path.unicode_len();
        let mut i: usize = n;
        while i > 0 && !is_sep_char(source_image_path.get_char(i - 1))
            invariant
                0 <= i <= n,
                n == source_image_path@.len(),
                forall|k: int| i <= k < n ==> !is_sep(#[trigger] source_image_path@[k]),
            decreases i,
        {
            i -= 1;
        }
        proof {
            lemma_name_start(source_image_path@, i as int);
        }
        let name = source_image_path.substring_char(i, n);
        let stem_str = file_stem_of_name(name);
        if stem_str.unicode_len() == 0 {
            stem = sanitize_stem("mesh");
        } else {
            stem = sanitize_stem(stem_str);
        }
    }
    proof {
        reveal_strlit("_");
        reveal_strlit(".");
    }
    let ts = timestamp_from_unix(unix_secs);
    stem.append("_");
    stem.append(ts.as_str());
    stem.append(".");
    stem.append(ext);
    proof {
        assert(stem@ =~= export_filename_spec(source_image_path@, ext@, unix_secs as nat));
    }
    stem
}

/// Whether `c` is a path separator (either slash).
fn is_sep_char(c: char) -> (r: bool)
    ensures
        r == is_sep(c),
{
    c == '/' || c == '\\'
}

/// The stem of a file name: [`stem_of_name`].
#[verifier::loop_isolation(false)]
fn file_stem_of_name<'a>(name: &'a str) -> (r: &'a str)
    ensures
        r@ == stem_of_name(name@),
{
    proof {
        reveal_strlit(".");
        reveal_strlit("..");
    }
    let n = name.unicode_len();
    if n == 1 && name.get_char(0) == '.' {
        proof {
            assert(name@ =~= "."@);
        }
        return name.substring_char(0, 0);
    }
    if n == 2 && name.get_char(0) == '.' && name.get_char(1) == '.' {
        proof {
            assert(name@ =~= ".."@);
        }
        return name.substring_char(0, 0);
    }
    proof {
        assert(!(name@ =~= "."@));
        assert(!(name@ =~= ".."@));
    }
    let mut p: usize = n;
    while p > 0 && name.get_char(p - 1) != '.'
        invariant
            0 <= p <= n,
            n == name@.len(),
            forall|k: int| p <= k < n ==> (#[trigger] name@[k]) != '.',
        decreases p,
    {
        p -= 1;
    }
    if p >= 2 {
        proof {
            lemma_last_dot_at(name@, p - 1);
        }
        name.substring_char(0, p - 1)
    } else if p == 1 {
        proof {
            lemma_last_dot_at(name@, 0);
            assert(name@.subrange(0, name@.len() as int) =~= name@);
        }
        name
    } else {
        proof {
            lemma_last_dot_none(name@);
            assert(name@.subrange(0, name@.len() as int) =~= name@);
        }
        name
    }
}

/// The name of the MTL file written beside an OBJ file: the OBJ file's stem
/// with the `.mtl` extension, or nothing when the path has no stem.
pub open spec fn mtl_companion_spec(obj_path: Seq<char>) -> Option<Seq<char>> {
    let name = obj_path.subrange(name_start(obj_path), obj_path.len() as int);
    let stem = stem_of_name(name);
    if stem.len() == 0 {
        None
    } else {
        Some(stem + ".mtl"@)
    }
}

/// Derives the companion MTL filename from an OBJ path.
#[verifier::loop_isolation(false)]
pub fn mtl_companion_name(obj_path: &str) -> (r: Option<String>)
    ensures
        r is Some <==> mtl_companion_spec(obj_path@) is Some,
        r matches Some(s) ==> mtl_companion_spec(obj_path@) == Some(s@),
{
    let n = obj_path.unicode_len();
    let mut i: usize = n;
    while i > 0 && !is_sep_char(obj_path.get_char(i - 1))
        invariant
            0 <= i <= n,
            n == obj_path@.len(),
            forall|k: int| i <= k < n ==> !is_sep(#[trigger] obj_path@[k]),
        decreases i,
    {
        i -= 1;
    }
    proof {
        lemma_name_start(obj_path@, i as int);
    }
    let name = obj_path.substring_char(i, n);
    let stem = file_stem_of_name(name);
    if stem.unicode_len() == 0 {
        return None;
    }
    let mut out = stem.to_owned();
    proof {
        reveal_strlit(".mtl");
    }
    out.append(".mtl");
    Some(out)
}

/// Builds the default export filename for the current moment with the given
/// extension.
pub fn generate_export_filename_with_ext(source_image_path: &str, ext: &str) -> (r: String)
    ensures
        exists|t: u64|
            r@ == export_filename_spec(source_image_path@, ext@, (#[trigger] spec_identity(t))
                as nat),
{
    let secs = now_unix_seconds();
    let r = export_filename_at(source_image_path, ext, secs);
    proof {
        assert(spec_identity(secs) == secs);
    }
    r
}

/// Identity on a moment in time; gives the existential in the filename
/// contracts a stable trigger.
pub open spec fn spec_identity(t: u64) -> u64 {
    t
}

/// Builds the default STL export filename for the current moment.
pub fn generate_export_filename(source_image_path: &str) -> (r: String)
    ensures
        exists|t: u64|
            r@ == export_filename_spec(source_image_path@, "stl"@, (#[trigger] spec_identity(t))
                as nat),
{
    generate_export_filename_with_ext(source_image_path, "stl")
}

/// Renders the timestamp for the current moment: `YYYYMMDD_HHMMSS`.
pub fn chrono_like_timestamp() -> (s: String)
    ensures
        exists|t: u64| s@ == spec_timestamp((#[trigger] spec_identity(t)) as nat),
{
    let secs = now_unix_seconds();
    let s = timestamp_from_unix(secs);
    proof {
        assert(spec_identity(secs) == secs);
    }
    s
}

} // verus!
