//! Character-level helpers: trimming, and the character classes the
//! sanitizers keep. The two Unicode classes involved (whitespace and
//! alphanumerics) come from std under names this module declares.

use vstd::prelude::*;

verus! {

/// What `char::is_whitespace` returns: whether the character has the
/// Unicode `White_Space` property. The set is a Unicode table, so it gets a
/// name rather than a transcription.
pub uninterp spec fn is_whitespace_char(c: char) -> bool;

/// Relies on `char::is_whitespace`: the Unicode `White_Space` property,
/// a function of the character alone.
pub assume_specification[ char::is_whitespace ](c: char) -> (r: bool)
    ensures
        r == is_whitespace_char(c),
;

/// What `char::is_alphanumeric` returns: whether the character is in one of
/// the Unicode `Alphabetic`, `Nd`, `Nl` or `No` classes. The set is a
/// Unicode table, so it gets a name rather than a transcription.
pub uninterp spec fn is_alphanumeric_char(c: char) -> bool;

/// Relies on `char::is_alphanumeric`: the Unicode alphanumeric classes,
/// a function of the character alone.
pub assume_specification[ char::is_alphanumeric ](c: char) -> (r: bool)
    ensures
        r == is_alphanumeric_char(c),
;

/// A whitespace character, as trimming sees it.
pub open spec fn is_space(c: char) -> bool {
    is_whitespace_char(c)
}

/// Every character of `s` is whitespace (true of the empty sequence).
pub open spec fn all_blank(s: Seq<char>) -> bool {
    forall|i: int| 0 <= i < s.len() ==> is_space(#[trigger] s[i])
}

/// `s` without leading whitespace.
pub open spec fn trim_front(s: Seq<char>) -> Seq<char>
    decreases s.len(),
{
    if s.len() > 0 && is_space(s[0]) {
        trim_front(s.drop_first())
    } else {
        s
    }
}

/// `s` without trailing whitespace.
pub open spec fn trim_back(s: Seq<char>) -> Seq<char>
    decreases s.len(),
{
    if s.len() > 0 && is_space(s.last()) {
        trim_back(s.drop_last())
    } else {
        s
    }
}

/// `s` without leading and trailing whitespace.
pub open spec fn trim_spec(s: Seq<char>) -> Seq<char> {
    trim_back(trim_front(s))
}

/// Trimming the front keeps the suffix that starts at the first
/// non-whitespace character.
proof fn lemma_trim_front_subrange(s: Seq<char>, i: int)
    requires
        0 <= i <= s.len(),
        forall|k: int| 0 <= k < i ==> is_space(#[trigger] s[k]),
        i == s.len() || !is_space(s[i]),
    ensures
        trim_front(s) == s.subrange(i, s.len() as int),
    decreases i,
{
    if i == 0 {
        assert(s.subrange(0, s.len() as int) =~= s);
    } else {
        lemma_trim_front_subrange(s.drop_first(), i - 1);
        assert(s.drop_first() =~= s.subrange(1, s.len() as int));
        assert(s.drop_first().subrange(i - 1, s.drop_first().len() as int) =~= s.subrange(
            i,
            s.len() as int,
        ));
    }
}

/// Trimming the back keeps the prefix that ends after the last
/// non-whitespace character.
proof fn lemma_trim_back_subrange(s: Seq<char>, j: int)
    requires
        0 <= j <= s.len(),
        forall|k: int| j <= k < s.len() ==> is_space(#[trigger] s[k]),
        j == 0 || !is_space(s[j - 1]),
    ensures
        trim_back(s) == s.subrange(0, j),
    decreases s.len() - j,
{
    if j == s.len() {
        assert(s.subrange(0, j) =~= s);
    } else {
        lemma_trim_back_subrange(s.drop_last(), j);
        assert(s.drop_last() =~= s.subrange(0, s.len() - 1));
        assert(s.drop_last().subrange(0, j) =~= s.subrange(0, j));
    }
}

/// Whether `c` is whitespace.
pub fn char_is_space(c: char) -> (r: bool)
    ensures
        r == is_space(c),
{
    c.is_whitespace()
}

/// The slice of `s` without leading and trailing whitespace.
#[verifier::loop_isolation(false)]
pub fn trim_str<'a>(s: &'a str) -> (r: &'a str)
    ensures
        r@ == trim_spec(s@),
{
    let n = s.unicode_len();
    let mut i: usize = 0;
    while i < n && char_is_space(s.get_char(i))
        invariant
            0 <= i <= n,
            forall|k: int| 0 <= k < i ==> is_space(#[trigger] s@[k]),
        decreases n - i,
    {
        i += 1;
    }
    let mut j: usize = n;
    while j > i && char_is_space(s.get_char(j - 1))
        invariant
            i <= j <= n,
            forall|k: int| j <= k < n ==> is_space(#[trigger] s@[k]),
        decreases j,
    {
        j -= 1;
    }
    let r = s.substring_char(i, j);
    proof {
        lemma_trim_front_subrange(s@, i as int);
        let t = s@.subrange(i as int, s@.len() as int);
        lemma_trim_back_subrange(t, j - i as int);
        assert(t.subrange(0, j - i as int) =~= s@.subrange(i as int, j as int));
    }
    r
}

/// A path separator: either slash. Source paths from both families of
/// operating systems are accepted, so both count.
pub open spec fn is_sep(c: char) -> bool {
    c == '/' || c == '\\'
}

/// Trimming a fully blank sequence leaves nothing.
proof fn lemma_trim_front_of_blank(s: Seq<char>)
    requires
        all_blank(s),
    ensures
        trim_front(s).len() == 0,
    decreases s.len(),
{
    if s.len() > 0 {
        lemma_trim_front_of_blank(s.drop_first());
    }
}

/// What trimming the front leaves empty was all whitespace.
proof fn lemma_trim_front_empty_blank(s: Seq<char>)
    requires
        trim_front(s).len() == 0,
    ensures
        all_blank(s),
    decreases s.len(),
{
    if s.len() > 0 && is_space(s[0]) {
        lemma_trim_front_empty_blank(s.drop_first());
        assert forall|k: int| 0 <= k < s.len() implies is_space(#[trigger] s[k]) by {
            if k > 0 {
                assert(is_space(s.drop_first()[k - 1]));
            }
        }
    }
}

/// What trimming the back leaves empty was all whitespace.
proof fn lemma_trim_back_empty_blank(s: Seq<char>)
    requires
        trim_back(s).len() == 0,
    ensures
        all_blank(s),
    decreases s.len(),
{
    if s.len() > 0 && is_space(s.last()) {
        lemma_trim_back_empty_blank(s.drop_last());
        assert forall|k: int| 0 <= k < s.len() implies is_space(#[trigger] s[k]) by {
            if k < s.len() - 1 {
                assert(is_space(s.drop_last()[k]));
            }
        }
    }
}

/// Trimming the front never leaves leading whitespace.
proof fn lemma_trim_front_head(s: Seq<char>)
    ensures
        trim_front(s).len() == 0 || !is_space(trim_front(s)[0]),
    decreases s.len(),
{
    if s.len() > 0 && is_space(s[0]) {
        lemma_trim_front_head(s.drop_first());
    }
}

/// A sequence trims to nothing exactly when it is all whitespace.
pub proof fn lemma_blank_iff_trim_empty(s: Seq<char>)
    ensures
        all_blank(s) <==> trim_spec(s).len() == 0,
{
    if all_blank(s) {
        lemma_trim_front_of_blank(s);
    }
    if trim_spec(s).len() == 0 {
        lemma_trim_back_empty_blank(trim_front(s));
        lemma_trim_front_head(s);
        assert(trim_front(s).len() == 0);
        lemma_trim_front_empty_blank(s);
    }
}

/// A character the export-filename sanitizer keeps: any Unicode
/// alphanumeric, underscore or hyphen.
pub open spec fn is_word_char(c: char) -> bool {
    is_alphanumeric_char(c) || c == '_' || c == '-'
}

/// A character the temp-filename sanitizer keeps: ASCII alphanumeric,
/// hyphen, underscore or dot (temp names stay plain ASCII).
pub open spec fn is_temp_char(c: char) -> bool {
    ('0' <= c && c <= '9') || ('A' <= c && c <= 'Z') || ('a' <= c && c <= 'z') || c == '_' || c
        == '-' || c == '.'
}

/// Whether `c` is kept by the export-filename sanitizer.
pub fn char_is_word(c: char) -> (r: bool)
    ensures
        r == is_word_char(c),
{
    c.is_alphanumeric() || c == '_' || c == '-'
}

/// Whether `c` is kept by the temp-filename sanitizer.
pub fn char_is_temp(c: char) -> (r: bool)
    ensures
        r == is_temp_char(c),
{
    ('0' <= c && c <= '9') || ('A' <= c && c <= 'Z') || ('a' <= c && c <= 'z') || c == '_' || c
        == '-' || c == '.'
}

} // verus!
