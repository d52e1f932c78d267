//! Character and string helpers shared by the library.
//!
//! All flight identifiers, callsigns and provider status strings are
//! ASCII in the protocols this engine speaks, so case folding is defined
//! over the ASCII letters and leaves every other character unchanged.

use vstd::prelude::*;
use vstd::seq_lib::*;
use vstd::string::*;

verus! {

/// ASCII upper-casing of one character; other characters are unchanged.
pub open spec fn spec_upper_char(c: char) -> char {
    if 97 <= c as u32 && c as u32 <= 122 {
        ((c as u32 - 32) as u8) as char
    } else {
        c
    }
}

/// ASCII lower-casing of one character; other characters are unchanged.
pub open spec fn spec_lower_char(c: char) -> char {
    if 65 <= c as u32 && c as u32 <= 90 {
        ((c as u32 + 32) as u8) as char
    } else {
        c
    }
}

pub open spec fn spec_to_upper(s: Seq<char>) -> Seq<char> {
    s.map_values(|c: char| spec_upper_char(c))
}

pub open spec fn spec_to_lower(s: Seq<char>) -> Seq<char> {
    s.map_values(|c: char| spec_lower_char(c))
}

/// Whitespace as the protocols use it: blank, tab, line and carriage returns.
pub open spec fn spec_is_ws(c: char) -> bool {
    c == ' ' || c == '\t' || c == '\n' || c == '\r'
}

pub open spec fn spec_is_digit(c: char) -> bool {
    48 <= c as u32 && c as u32 <= 57
}

/// Two strings agree up to letter case: same length, and each pair of
/// characters upper-cases to the same character.
pub open spec fn spec_same_case(s: Seq<char>, t: Seq<char>) -> bool {
    s.len() == t.len() && forall|i: int|
        0 <= i < s.len() ==> spec_upper_char(s[i]) == spec_upper_char(t[i])
}

/// Characters that upper-case alike are whitespace alike: no letter
/// upper-cases to a whitespace character.
pub proof fn lemma_upper_preserves_ws(c1: char, c2: char)
    requires
        spec_upper_char(c1) == spec_upper_char(c2),
    ensures
        spec_is_ws(c1) <==> spec_is_ws(c2),
{
    assert(' ' as u32 == 32 && '\t' as u32 == 9 && '\n' as u32 == 10 && '\r' as u32 == 13);
    assert(forall|c: char| spec_is_ws(c) ==> (c as u32 == 32 || c as u32 == 9 || c as u32 == 10
        || c as u32 == 13));
    assert(forall|c: char| 97 <= c as u32 <= 122 ==> (#[trigger] spec_upper_char(c)) as u32 == c
        as u32 - 32);
}

/// `p` is a prefix of `s`.
pub open spec fn spec_starts_with(s: Seq<char>, p: Seq<char>) -> bool {
    p.len() <= s.len() && s.take(p.len() as int) == p
}

/// `s` without its leading whitespace.
pub open spec fn spec_trim_front(s: Seq<char>) -> Seq<char>
    decreases s.len(),
{
    if s.len() > 0 && spec_is_ws(s.first()) {
        spec_trim_front(s.drop_first())
    } else {
        s
    }
}

/// `s` without its trailing whitespace.
pub open spec fn spec_trim_back(s: Seq<char>) -> Seq<char>
    decreases s.len(),
{
    if s.len() > 0 && spec_is_ws(s.last()) {
        spec_trim_back(s.drop_last())
    } else {
        s
    }
}

/// `s` without leading and trailing whitespace.
pub open spec fn spec_trim(s: Seq<char>) -> Seq<char> {
    spec_trim_back(spec_trim_front(s))
}

proof fn lemma_trim_front_range(s: Seq<char>, k: int)
    requires
        0 <= k <= s.len(),
        forall|j: int| 0 <= j < k ==> spec_is_ws(s[j]),
        k == s.len() || !spec_is_ws(s[k]),
    ensures
        spec_trim_front(s) == s.skip(k),
    decreases k,
{
    if k == 0 {
        assert(s.skip(0) =~= s);
    } else {
        assert(spec_is_ws(s.first()));
        lemma_trim_front_range(s.drop_first(), k - 1);
        assert(s.drop_first().skip(k - 1) =~= s.skip(k));
    }
}

proof fn lemma_trim_back_range(s: Seq<char>, e: int)
    requires
        0 <= e <= s.len(),
        forall|j: int| e <= j < s.len() ==> spec_is_ws(s[j]),
        e == 0 || !spec_is_ws(s[e - 1]),
    ensures
        spec_trim_back(s) == s.take(e),
    decreases s.len(),
{
    if e == s.len() {
        if s.len() == 0 {
            assert(s.take(0) =~= s);
        } else {
            assert(!spec_is_ws(s.last()));
            assert(s.take(e) =~= s);
        }
    } else {
        assert(spec_is_ws(s.last()));
        lemma_trim_back_range(s.drop_last(), e);
        assert(s.drop_last().take(e) =~= s.take(e));
    }
}

/// Keeps the characters that are not a blank.
pub open spec fn keep_non_space() -> spec_fn(char) -> bool {
    |c: char| c != ' '
}

/// `s` with every blank removed.
pub open spec fn spec_remove_spaces(s: Seq<char>) -> Seq<char> {
    s.filter(keep_non_space())
}

/// The schedule provider's lookup key for a flight number: trimmed,
/// upper-cased, and with any interior blanks removed.
pub open spec fn spec_schedule_key(s: Seq<char>) -> Seq<char> {
    spec_remove_spaces(spec_to_upper(spec_trim(s)))
}

pub fn upper_char(c: char) -> (r: char)
    ensures
        r == spec_upper_char(c),
{
    let u = c as u32;
    if 97 <= u && u <= 122 {
        ((u - 32) as u8) as char
    } else {
        c
    }
}

pub fn lower_char(c: char) -> (r: char)
    ensures
        r == spec_lower_char(c),
{
    let u = c as u32;
    if 65 <= u && u <= 90 {
        ((u + 32) as u8) as char
    } else {
        c
    }
}

pub fn is_ws_char(c: char) -> (r: bool)
    ensures
        r == spec_is_ws(c),
{
    c == ' ' || c == '\t' || c == '\n' || c == '\r'
}

pub fn is_digit_char(c: char) -> (r: bool)
    ensures
        r == spec_is_digit(c),
{
    let u = c as u32;
    48 <= u && u <= 57
}

/// Appends one character to a string.
///
/// Relies on `String::push`: "Appends the given char to the end of this
/// String."
#[verifier::external_body]
pub fn push_char(s: &mut String, c: char)
    ensures
        final(s)@ == old(s)@.push(c),
{
    s.push(c)
}

/// Character-wise equality of two string slices.
pub fn str_eq(a: &str, b: &str) -> (r: bool)
    ensures
        r == (a@ == b@),
{
    let alen = a.unicode_len();
    let blen = b.unicode_len();
    if alen != blen {
        assert(a@ != b@) by {
            assert(a@.len() != b@.len());
        }
        return false;
    }
    let mut i: usize = 0;
    while i < alen
        invariant
            i <= alen,
            alen == a@.len(),
            alen == b@.len(),
            forall|j: int| 0 <= j < i ==> a@[j] == b@[j],
        decreases alen - i,
    {
        if a.get_char(i) != b.get_char(i) {
            return false;
        }
        i = i + 1;
    }
    proof {
        assert(a@ =~= b@);
    }
    true
}

/// ASCII upper-casing of a whole string.
pub fn to_upper(s: &str) -> (r: String)
    ensures
        r@ == spec_to_upper(s@),
{
    let n = s.unicode_len();
    let mut out = String::new();
    let mut i: usize = 0;
    while i < n
        invariant
            i <= n,
            n == s@.len(),
            out@ == spec_to_upper(s@.take(i as int)),
        decreases n - i,
    {
        let c = upper_char(s.get_char(i));
        push_char(&mut out, c);
        proof {
            assert(s@.take(i + 1).drop_last() =~= s@.take(i as int));
            assert(spec_to_upper(s@.take(i + 1)) =~= spec_to_upper(s@.take(i as int)).push(
                spec_upper_char(s@[i as int]),
            ));
        }
        i = i + 1;
    }
    proof {
        assert(s@.take(n as int) =~= s@);
    }
    out
}

/// ASCII lower-casing of a whole string.
pub fn to_lower(s: &str) -> (r: String)
    ensures
        r@ == spec_to_lower(s@),
{
    let n = s.unicode_len();
    let mut out = String::new();
    let mut i: usize = 0;
    while i < n
        invariant
            i <= n,
            n == s@.len(),
            out@ == spec_to_lower(s@.take(i as int)),
        decreases n - i,
    {
        let c = lower_char(s.get_char(i));
        push_char(&mut out, c);
        proof {
            assert(s@.take(i + 1).drop_last() =~= s@.take(i as int));
            assert(spec_to_lower(s@.take(i + 1)) =~= spec_to_lower(s@.take(i as int)).push(
                spec_lower_char(s@[i as int]),
            ));
        }
        i = i + 1;
    }
    proof {
        assert(s@.take(n as int) =~= s@);
    }
    out
}

/// Character-wise prefix test.
pub fn starts_with_str(s: &str, p: &str) -> (r: bool)
    ensures
        r == spec_starts_with(s@, p@),
{
    let slen = s.unicode_len();
    let plen = p.unicode_len();
    if plen > slen {
        return false;
    }
    let mut i: usize = 0;
    while i < plen
        invariant
            i <= plen,
            plen <= slen,
            slen == s@.len(),
            plen == p@.len(),
            forall|j: int| 0 <= j < i ==> s@[j] == p@[j],
        decreases plen - i,
    {
        if s.get_char(i) != p.get_char(i) {
            assert(s@.take(plen as int)[i as int] != p@[i as int]);
            return false;
        }
        i = i + 1;
    }
    proof {
        assert(s@.take(plen as int) =~= p@);
    }
    true
}

/// The slice of `s` without its leading and trailing whitespace.
pub fn trim_chars(s: &str) -> (r: &str)
    ensures
        r@ == spec_trim(s@),
{
    let n = s.unicode_len();
    let mut start: usize = 0;
    while start < n && is_ws_char(s.get_char(start))
        invariant
            start <= n,
            n == s@.len(),
            forall|j: int| 0 <= j < start ==> spec_is_ws(s@[j]),
        decreases n - start,
    {
        start = start + 1;
    }
    let mut end: usize = n;
    while end > start && is_ws_char(s.get_char(end - 1))
        invariant
            start <= end <= n,
            n == s@.len(),
            forall|j: int| 0 <= j < start ==> spec_is_ws(s@[j]),
            forall|j: int| end <= j < n ==> spec_is_ws(s@[j]),
        decreases end,
    {
        end = end - 1;
    }
    proof {
        lemma_trim_front_range(s@, start as int);
        let tf = s@.skip(start as int);
        lemma_trim_back_range(tf, end - start);
        assert(tf.take(end - start) =~= s@.subrange(start as int, end as int));
    }
    s.substring_char(start, end)
}

/// The schedule provider's lookup key for a flight number: surrounding
/// whitespace dropped, letters upper-cased, interior blanks removed.
pub fn schedule_lookup_key(flight_number: &str) -> (r: String)
    ensures
        r@ == spec_schedule_key(flight_number@),
{
    let t = trim_chars(flight_number);
    let n = t.unicode_len();
    let mut out = String::new();
    let mut i: usize = 0;
    while i < n
        invariant
            i <= n,
            n == t@.len(),
            out@ == spec_to_upper(t@.take(i as int)).filter(keep_non_space()),
        decreases n - i,
    {
        proof {
            assert(t@.take(i + 1).drop_last() =~= t@.take(i as int));
            assert(spec_to_upper(t@.take(i + 1)) =~= spec_to_upper(t@.take(i as int)).push(
                spec_upper_char(t@[i as int]),
            ));
            spec_to_upper(t@.take(i as int)).lemma_filter_push(
                spec_upper_char(t@[i as int]),
                keep_non_space(),
            );
        }
        let c = upper_char(t.get_char(i));
        if c != ' ' {
            push_char(&mut out, c);
        }
        i = i + 1;
    }
    proof {
        assert(t@.take(n as int) =~= t@);
    }
    out
}

/// Index of the first occurrence of `c` in `s` at or after position `i`,
/// or -1 when there is none.
pub open spec fn spec_find_char_from(s: Seq<char>, c: char, i: int) -> int
    decreases s.len() - i,
{
    if i < 0 || i >= s.len() {
        -1
    } else if s[i] == c {
        i
    } else {
        spec_find_char_from(s, c, i + 1)
    }
}

/// A provider timestamp such as `2024-01-15T14:30:00+00:00` is shortened
/// to the five characters after the first `T` (`14:30`); anything that
/// does not carry at least five characters there is returned unchanged.
pub open spec fn spec_format_time(s: Seq<char>) -> Seq<char> {
    let t = spec_find_char_from(s, 'T', 0);
    if t >= 0 && s.len() >= t + 6 {
        s.subrange(t + 1, t + 6)
    } else {
        s
    }
}

/// Shortens a provider timestamp for display.
pub fn format_time(time_str: &str) -> (r: String)
    ensures
        r@ == spec_format_time(time_str@),
{
    let n = time_str.unicode_len();
    let mut i: usize = 0;
    while i < n
        invariant
            i <= n,
            n == time_str@.len(),
            spec_find_char_from(time_str@, 'T', 0) == spec_find_char_from(time_str@, 'T', i as int),
        decreases n - i,
    {
        if time_str.get_char(i) == 'T' {
            if n - i >= 6 {
                let part = time_str.substring_char(i + 1, i + 6);
                return part.to_owned();
            } else {
                return time_str.to_owned();
            }
        }
        i = i + 1;
    }
    time_str.to_owned()
}

} // verus!
