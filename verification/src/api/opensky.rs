//! Pure parts of the live-position client: translating a public flight
//! number into the live-tracking callsign prefix, and picking the
//! matching state vector out of a provider response.

use vstd::prelude::*;
use vstd::string::*;

use crate::api::types::StateVector;
use crate::text::{
    is_digit_char, lemma_upper_preserves_ws, spec_is_digit, spec_is_ws, spec_same_case,
    spec_starts_with, spec_to_upper, spec_trim, spec_trim_back, spec_trim_front, spec_upper_char,
    starts_with_str, str_eq, to_upper, trim_chars,
};

verus! {

/// Index of the first decimal digit at or after `i`, or -1 if none.
pub open spec fn spec_first_digit_from(s: Seq<char>, i: int) -> int
    decreases s.len() - i,
{
    if i < 0 || i >= s.len() {
        -1
    } else if spec_is_digit(s[i]) {
        i
    } else {
        spec_first_digit_from(s, i + 1)
    }
}

/// Where the airline designator ends: at the first digit, or after two
/// characters when no digit is present (or at the end of a shorter
/// string).
pub open spec fn spec_split_pos(s: Seq<char>) -> int {
    let d = spec_first_digit_from(s, 0);
    if d >= 0 {
        d
    } else if s.len() < 2 {
        s.len() as int
    } else {
        2
    }
}

/// The static two-letter-to-three-letter carrier table; a designator
/// that is not in the table passes through unchanged.
pub open spec fn spec_carrier_icao(a: Seq<char>) -> Seq<char> {
    if a == "UA"@ {
        "UAL"@
    } else if a == "AA"@ {
        "AAL"@
    } else if a == "DL"@ {
        "DAL"@
    } else if a == "BA"@ {
        "BAW"@
    } else if a == "AF"@ {
        "AFR"@
    } else if a == "LH"@ {
        "DLH"@
    } else if a == "EK"@ {
        "UAE"@
    } else if a == "QF"@ {
        "QFA"@
    } else if a == "SQ"@ {
        "SIA"@
    } else if a == "CX"@ {
        "CPA"@
    } else if a == "JL"@ {
        "JAL"@
    } else if a == "NH"@ {
        "ANA"@
    } else if a == "KL"@ {
        "KLM"@
    } else if a == "IB"@ {
        "IBE"@
    } else if a == "WN"@ {
        "SWA"@
    } else if a == "B6"@ {
        "JBU"@
    } else if a == "AS"@ {
        "ASA"@
    } else if a == "F9"@ {
        "FFT"@
    } else if a == "NK"@ {
        "NKS"@
    } else if a == "AC"@ {
        "ACA"@
    } else if a == "VS"@ {
        "VIR"@
    } else if a == "TK"@ {
        "THY"@
    } else if a == "EY"@ {
        "ETD"@
    } else if a == "QR"@ {
        "QTR"@
    } else if a == "EI"@ {
        "EIN"@
    } else if a == "AY"@ {
        "FIN"@
    } else if a == "SK"@ {
        "SAS"@
    } else if a == "TP"@ {
        "TAP"@
    } else if a == "LX"@ {
        "SWR"@
    } else if a == "OS"@ {
        "AUA"@
    } else {
        a
    }
}

/// The whole normalization: trim, upper-case, split the airline
/// designator off at the first digit, translate it through the carrier
/// table, and keep the rest.  A string that starts with a digit — or is
/// empty — passes through with only trim and upper-casing.
pub open spec fn spec_normalize_callsign(s: Seq<char>) -> Seq<char> {
    let u = spec_to_upper(spec_trim(s));
    let p = spec_split_pos(u);
    if p == 0 {
        u
    } else {
        spec_carrier_icao(u.take(p)) + u.skip(p)
    }
}

/// Translates a two-character airline designator into the three-letter
/// carrier code used by live-tracking callsigns; unknown designators
/// pass through unchanged.
fn carrier_icao<'a>(airline: &'a str) -> (r: &'a str)
    ensures
        r@ == spec_carrier_icao(airline@),
{
    if str_eq(airline, "UA") {
        "UAL"
    } else if str_eq(airline, "AA") {
        "AAL"
    } else if str_eq(airline, "DL") {
        "DAL"
    } else if str_eq(airline, "BA") {
        "BAW"
    } else if str_eq(airline, "AF") {
        "AFR"
    } else if str_eq(airline, "LH") {
        "DLH"
    } else if str_eq(airline, "EK") {
        "UAE"
    } else if str_eq(airline, "QF") {
        "QFA"
    } else if str_eq(airline, "SQ") {
        "SIA"
    } else if str_eq(airline, "CX") {
        "CPA"
    } else if str_eq(airline, "JL") {
        "JAL"
    } else if str_eq(airline, "NH") {
        "ANA"
    } else if str_eq(airline, "KL") {
        "KLM"
    } else if str_eq(airline, "IB") {
        "IBE"
    } else if str_eq(airline, "WN") {
        "SWA"
    } else if str_eq(airline, "B6") {
        "JBU"
    } else if str_eq(airline, "AS") {
        "ASA"
    } else if str_eq(airline, "F9") {
        "FFT"
    } else if str_eq(airline, "NK") {
        "NKS"
    } else if str_eq(airline, "AC") {
        "ACA"
    } else if str_eq(airline, "VS") {
        "VIR"
    } else if str_eq(airline, "TK") {
        "THY"
    } else if str_eq(airline, "EY") {
        "ETD"
    } else if str_eq(airline, "QR") {
        "QTR"
    } else if str_eq(airline, "EI") {
        "EIN"
    } else if str_eq(airline, "AY") {
        "FIN"
    } else if str_eq(airline, "SK") {
        "SAS"
    } else if str_eq(airline, "TP") {
        "TAP"
    } else if str_eq(airline, "LX") {
        "SWR"
    } else if str_eq(airline, "OS") {
        "AUA"
    } else {
        airline
    }
}

fn first_digit_pos(s: &str) -> (r: Option<usize>)
    ensures
        match r {
            Some(i) => i < s@.len() && spec_first_digit_from(s@, 0) == i,
            None => spec_first_digit_from(s@, 0) == -1,
        },
{
    let n = s.unicode_len();
    let mut i: usize = 0;
    while i < n
        invariant
            i <= n,
            n == s@.len(),
            spec_first_digit_from(s@, 0) == spec_first_digit_from(s@, i as int),
        decreases n - i,
    {
        if is_digit_char(s.get_char(i)) {
            return Some(i);
        }
        i = i + 1;
    }
    None
}

/// Translates the public flight-number format (two-character airline
/// designator plus a number) into the live-tracking callsign format,
/// tolerating surrounding whitespace and any letter case.  A designator
/// the carrier table does not know passes through unchanged.
pub fn normalize_callsign(flight_number: &str) -> (r: String)
    ensures
        r@ == spec_normalize_callsign(flight_number@),
{
    let trimmed = trim_chars(flight_number);
    let u = to_upper(trimmed);
    let ulen = u.as_str().unicode_len();

    let p: usize = match first_digit_pos(u.as_str()) {
        Some(i) => i,
        None => if ulen < 2 {
            ulen
        } else {
            2
        },
    };
    proof {
        assert(p as int == spec_split_pos(u@));
    }
    if p == 0 {
        return u;
    }
    let airline = u.as_str().substring_char(0, p);
    let rest = u.as_str().substring_char(p, ulen);
    proof {
        assert(airline@ =~= u@.take(p as int));
        assert(rest@ =~= u@.skip(p as int));
    }
    let code = carrier_icao(airline);
    let mut out = code.to_owned();
    out.append(rest);
    out
}

/// The first state vector whose callsign starts (case-insensitively)
/// with the requested callsign prefix.
pub open spec fn spec_state_matches(sv: StateVector, cs: Seq<char>) -> bool {
    match sv.callsign {
        Some(c) => spec_starts_with(spec_to_upper(c@), spec_to_upper(cs)),
        None => false,
    }
}

/// First matching state, scanning the response in order.
pub open spec fn spec_select_state(states: Seq<StateVector>, cs: Seq<char>) -> Option<StateVector>
    decreases states.len(),
{
    if states.len() == 0 {
        None
    } else if spec_state_matches(states.first(), cs) {
        Some(states.first())
    } else {
        spec_select_state(states.drop_first(), cs)
    }
}

proof fn lemma_select_at(states: Seq<StateVector>, cs: Seq<char>, i: int)
    requires
        0 <= i < states.len(),
        spec_state_matches(states[i], cs),
        forall|j: int| 0 <= j < i ==> !spec_state_matches(states[j], cs),
    ensures
        spec_select_state(states, cs) == Some(states[i]),
    decreases i,
{
    if i > 0 {
        lemma_select_at(states.drop_first(), cs, i - 1);
    }
}

proof fn lemma_select_none(states: Seq<StateVector>, cs: Seq<char>)
    requires
        forall|j: int| 0 <= j < states.len() ==> !spec_state_matches(states[j], cs),
    ensures
        spec_select_state(states, cs) is None,
    decreases states.len(),
{
    if states.len() > 0 {
        lemma_select_none(states.drop_first(), cs);
    }
}

/// Picks the first state in a provider response whose callsign starts,
/// case-insensitively, with `callsign`.  This is how a normalized
/// flight number finds its aircraft in the full state list.
pub fn select_matching_state(states: Vec<StateVector>, callsign: &str) -> (r: Option<
    StateVector,
>)
    ensures
        r == spec_select_state(states@, callsign@),
{
    let mut sts = states;
    let upper_cs = to_upper(callsign);
    let n = sts.len();
    let mut i: usize = 0;
    while i < n
        invariant
            i <= n,
            n == sts@.len(),
            sts@ == states@,
            upper_cs@ == spec_to_upper(callsign@),
            forall|j: int| 0 <= j < i ==> !spec_state_matches(states@[j], callsign@),
        decreases n - i,
    {
        let matches_here: bool = match &sts[i].callsign {
            Some(c) => {
                let upper_c = to_upper(c.as_str());
                starts_with_str(upper_c.as_str(), upper_cs.as_str())
            },
            None => false,
        };
        if matches_here {
            proof {
                assert(spec_state_matches(states@[i as int], callsign@));
                lemma_select_at(states@, callsign@, i as int);
            }
            let picked = sts.remove(i);
            return Some(picked);
        }
        i = i + 1;
    }
    proof {
        lemma_select_none(states@, callsign@);
    }
    None
}

proof fn lemma_trim_front_all_ws(w: Seq<char>)
    requires
        forall|i: int| 0 <= i < w.len() ==> spec_is_ws(w[i]),
    ensures
        spec_trim_front(w) == Seq::<char>::empty(),
    decreases w.len(),
{
    if w.len() > 0 {
        lemma_trim_front_all_ws(w.drop_first());
    } else {
        assert(w =~= Seq::<char>::empty());
    }
}

proof fn lemma_trim_front_ws_prefix(w: Seq<char>, x: Seq<char>)
    requires
        forall|i: int| 0 <= i < w.len() ==> spec_is_ws(w[i]),
    ensures
        spec_trim_front(w + x) == spec_trim_front(x),
    decreases w.len(),
{
    if w.len() == 0 {
        assert(w + x =~= x);
    } else {
        assert(spec_is_ws((w + x).first()));
        if (w + x).len() > 0 {
            assert((w + x).drop_first() =~= w.drop_first() + x);
            lemma_trim_front_ws_prefix(w.drop_first(), x);
        }
    }
}

proof fn lemma_trim_back_ws_suffix(x: Seq<char>, w: Seq<char>)
    requires
        forall|i: int| 0 <= i < w.len() ==> spec_is_ws(w[i]),
    ensures
        spec_trim_back(x + w) == spec_trim_back(x),
    decreases w.len(),
{
    if w.len() == 0 {
        assert(x + w =~= x);
    } else {
        assert((x + w).last() == w.last());
        assert(spec_is_ws((x + w).last()));
        assert((x + w).drop_last() =~= x + w.drop_last());
        assert(forall|i: int| 0 <= i < w.drop_last().len() ==> spec_is_ws(#[trigger] w.drop_last()[i]));
        lemma_trim_back_ws_suffix(x, w.drop_last());
    }
}

proof fn lemma_trim_of_ws_suffix(x: Seq<char>, w: Seq<char>)
    requires
        forall|i: int| 0 <= i < w.len() ==> spec_is_ws(w[i]),
    ensures
        spec_trim_back(spec_trim_front(x + w)) == spec_trim_back(spec_trim_front(x)),
    decreases x.len(),
{
    if x.len() == 0 {
        assert(x + w =~= w);
        lemma_trim_front_all_ws(w);
        assert(spec_trim_front(x) =~= Seq::<char>::empty());
    } else if spec_is_ws(x.first()) {
        assert((x + w).first() == x.first());
        assert((x + w).drop_first() =~= x.drop_first() + w);
        lemma_trim_of_ws_suffix(x.drop_first(), w);
    } else {
        assert((x + w).first() == x.first());
        assert(spec_trim_front(x + w) == x + w);
        assert(spec_trim_front(x) == x);
        lemma_trim_back_ws_suffix(x, w);
    }
}

/// Law: normalization tolerates leading and trailing whitespace — any
/// whitespace padding around the flight number leaves the result
/// unchanged.
pub proof fn lemma_normalize_whitespace_tolerant(w1: Seq<char>, s: Seq<char>, w2: Seq<char>)
    requires
        forall|i: int| 0 <= i < w1.len() ==> spec_is_ws(w1[i]),
        forall|i: int| 0 <= i < w2.len() ==> spec_is_ws(w2[i]),
    ensures
        spec_normalize_callsign(w1 + s + w2) == spec_normalize_callsign(s),
{
    assert(w1 + s + w2 =~= w1 + (s + w2));
    lemma_trim_front_ws_prefix(w1, s + w2);
    lemma_trim_of_ws_suffix(s, w2);
    assert(spec_trim(w1 + s + w2) == spec_trim(s));
}

proof fn lemma_trim_front_same_case(s: Seq<char>, t: Seq<char>)
    requires
        spec_same_case(s, t),
    ensures
        spec_same_case(spec_trim_front(s), spec_trim_front(t)),
    decreases s.len(),
{
    if s.len() > 0 {
        lemma_upper_preserves_ws(s.first(), t.first());
        if spec_is_ws(s.first()) {
            assert(spec_same_case(s.drop_first(), t.drop_first())) by {
                assert(forall|i: int|
                    0 <= i < s.drop_first().len() ==> #[trigger] s.drop_first()[i] == s[i + 1]
                        && t.drop_first()[i] == t[i + 1]);
            }
            lemma_trim_front_same_case(s.drop_first(), t.drop_first());
        }
    }
}

proof fn lemma_trim_back_same_case(s: Seq<char>, t: Seq<char>)
    requires
        spec_same_case(s, t),
    ensures
        spec_same_case(spec_trim_back(s), spec_trim_back(t)),
    decreases s.len(),
{
    if s.len() > 0 {
        assert(spec_upper_char(s.last()) == spec_upper_char(t.last()));
        lemma_upper_preserves_ws(s.last(), t.last());
        if spec_is_ws(s.last()) {
            assert(spec_same_case(s.drop_last(), t.drop_last())) by {
                assert(forall|i: int|
                    0 <= i < s.drop_last().len() ==> #[trigger] s.drop_last()[i] == s[i]
                        && t.drop_last()[i] == t[i]);
            }
            lemma_trim_back_same_case(s.drop_last(), t.drop_last());
        }
    }
}

/// Law: normalization is case-insensitive — two flight numbers that
/// agree up to letter case normalize to the same callsign.
pub proof fn lemma_normalize_case_insensitive(s: Seq<char>, t: Seq<char>)
    requires
        spec_same_case(s, t),
    ensures
        spec_normalize_callsign(s) == spec_normalize_callsign(t),
{
    lemma_trim_front_same_case(s, t);
    lemma_trim_back_same_case(spec_trim_front(s), spec_trim_front(t));
    let ts = spec_trim(s);
    let tt = spec_trim(t);
    assert(spec_to_upper(ts) =~= spec_to_upper(tt));
}

} // verus!
