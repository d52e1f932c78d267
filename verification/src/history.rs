//! Bounded most-recently-used list of previously tracked flights.
//!
//! `add` moves an already-known identifier to the front instead of
//! duplicating it, and the list never grows past `MAX_HISTORY_SIZE`;
//! when the bound would be exceeded the back — the least recently added
//! entry — is evicted.  Persistence is a whole-snapshot affair handled
//! by the caller: `entries` exposes the list for writing, and
//! `from_entries` rebuilds a well-formed history from whatever a
//! snapshot held.

use std::collections::VecDeque;

use vstd::prelude::*;
use vstd::seq_lib::*;

use crate::seqs::{distinct_by, lemma_filter_all, lemma_filter_distinct_by, lemma_remove_only_match};
use crate::text::{spec_starts_with, spec_to_upper, starts_with_str, str_eq, to_upper};

verus! {

/// Upper bound on the number of remembered flights.
pub const MAX_HISTORY_SIZE: usize = 20;

/// One remembered flight: its identifier and, when known at the time it
/// was tracked, a display route such as `SFO→LHR`.
#[derive(Debug, Clone)]
pub struct HistoryEntry {
    pub flight_number: String,
    pub route: Option<String>,
}

/// What a stored entry means: the identifier and the optional route.
pub open spec fn entry_view(e: HistoryEntry) -> (Seq<char>, Option<Seq<char>>) {
    (e.flight_number@, match e.route {
        Some(r) => Some(r@),
        None => None,
    })
}

/// Keeps the entries whose identifier differs from `fnum`.
pub open spec fn keep_other_flight(fnum: Seq<char>) -> spec_fn(
    (Seq<char>, Option<Seq<char>>),
) -> bool {
    |e: (Seq<char>, Option<Seq<char>>)| e.0 != fnum
}

/// What `add` does: any entry with the same identifier goes, the new one
/// comes in at the front, and the back is trimmed to the bound.
pub open spec fn spec_add(
    s: Seq<(Seq<char>, Option<Seq<char>>)>,
    fnum: Seq<char>,
    route: Option<Seq<char>>,
) -> Seq<(Seq<char>, Option<Seq<char>>)> {
    let combined = seq![(fnum, route)] + s.filter(keep_other_flight(fnum));
    if combined.len() <= MAX_HISTORY_SIZE {
        combined
    } else {
        combined.take(MAX_HISTORY_SIZE as int)
    }
}

/// Recency-ordered list of remembered flights, most recent first.
#[derive(Debug, Clone)]
pub struct History {
    entries: VecDeque<HistoryEntry>,
}

impl View for History {
    type V = Seq<(Seq<char>, Option<Seq<char>>)>;

    closed spec fn view(&self) -> Seq<(Seq<char>, Option<Seq<char>>)> {
        self.entries@.map_values(|e: HistoryEntry| entry_view(e))
    }
}

impl Default for History {
    fn default() -> (r: Self)
        ensures
            r@ == Seq::<(Seq<char>, Option<Seq<char>>)>::empty(),
            r.wf(),
    {
        let r = History { entries: VecDeque::new() };
        proof {
            assert(r@ =~= Seq::<(Seq<char>, Option<Seq<char>>)>::empty());
        }
        r
    }
}

impl History {
    /// Identifiers occur at most once.
    pub open spec fn wf(&self) -> bool {
        distinct_by(self@, |e: (Seq<char>, Option<Seq<char>>)| e.0)
    }

    fn find_index(&self, flight_number: &str) -> (r: Option<usize>)
        ensures
            match r {
                Some(i) => i < self@.len() && self@[i as int].0 == flight_number@ && (forall|
                    j: int,
                |
                    0 <= j < i ==> self@[j].0 != flight_number@),
                None => forall|j: int| 0 <= j < self@.len() ==> self@[j].0 != flight_number@,
            },
    {
        let n = self.entries.len();
        let mut i: usize = 0;
        while i < n
            invariant
                i <= n,
                n == self@.len(),
                n == self.entries@.len(),
                forall|j: int| 0 <= j < i ==> self@[j].0 != flight_number@,
            decreases n - i,
        {
            if str_eq(self.entries[i].flight_number.as_str(), flight_number) {
                return Some(i);
            }
            i = i + 1;
        }
        None
    }

    /// Adds a flight at the front; re-adding an identifier moves it to
    /// the front with the new route, and the list is trimmed from the
    /// back to `MAX_HISTORY_SIZE`.
    pub fn add(&mut self, flight_number: String, route: Option<String>)
        requires
            old(self).wf(),
        ensures
            final(self)@ == spec_add(old(self)@, flight_number@, route.deep_view()),
            final(self).wf(),
    {
        let ghost oldv = self@;
        let ghost keep = keep_other_flight(flight_number@);
        let ghost proj = |e: (Seq<char>, Option<Seq<char>>)| e.0;
        let found = self.find_index(flight_number.as_str());
        match found {
            Some(i) => {
                proof {
                    assert forall|j: int| 0 <= j < oldv.len() && j != i implies keep(oldv[j]) by {
                        if j > i {
                            assert(oldv[i as int].0 == flight_number@);
                        }
                    }
                }
                self.entries.remove(i);
                proof {
                    assert(self@ =~= oldv.remove(i as int));
                    lemma_remove_only_match(oldv, i as int, keep);
                }
            },
            None => {
                proof {
                    lemma_filter_all(oldv, keep);
                }
            },
        }
        proof {
            assert(self@ =~= oldv.filter(keep));
        }
        let ghost filtered = self@;
        let ghost route_v = route.deep_view();
        self.entries.push_front(HistoryEntry { flight_number, route });
        let ghost combined = seq![(flight_number@, route_v)] + filtered;
        proof {
            assert(self@ =~= combined);
            lemma_filter_distinct_by(oldv, keep, proj);
            assert forall|i: int, j: int| 0 <= i < j < combined.len() implies combined[i].0
                != combined[j].0 by {
                if i == 0 {
                    oldv.lemma_filter_pred(keep, j - 1);
                }
            }
        }
        while self.entries.len() > MAX_HISTORY_SIZE
            invariant
                self@.len() == self.entries@.len(),
                self@.len() <= combined.len(),
                self@ == combined.take(self@.len() as int),
                combined.len() > MAX_HISTORY_SIZE ==> self@.len() >= MAX_HISTORY_SIZE,
                combined.len() <= MAX_HISTORY_SIZE ==> self@.len() == combined.len(),
            decreases self@.len(),
        {
            let ghost prevlen = self@.len() as int;
            self.entries.pop_back();
            proof {
                assert(combined.take(prevlen).subrange(0, prevlen - 1) =~= combined.take(
                    prevlen - 1,
                ));
            }
        }
        proof {
            if combined.len() <= MAX_HISTORY_SIZE {
                assert(combined.take(self@.len() as int) =~= combined);
            }
            assert(self@ == spec_add(oldv, flight_number@, route_v));
            assert forall|i: int, j: int| 0 <= i < j < self@.len() implies self@[i].0
                != self@[j].0 by {
                assert(self@[i] == combined[i] && self@[j] == combined[j]);
            }
        }
    }

    /// The remembered flights, most recent first.
    pub fn entries(&self) -> (r: &VecDeque<HistoryEntry>)
        ensures
            r@.len() == self@.len(),
            forall|i: int| 0 <= i < r@.len() ==> entry_view(#[trigger] r@[i]) == self@[i],
    {
        &self.entries
    }

    /// The entries whose identifier starts with `prefix`, compared
    /// fully case-insensitively — both the stored identifier and the
    /// prefix are case-folded — in stored order.
    pub fn matching(&self, prefix: &str) -> (r: Vec<&HistoryEntry>)
        ensures
            r@.map_values(|e: &HistoryEntry| entry_view(*e)) == self@.filter(
                |e: (Seq<char>, Option<Seq<char>>)| spec_starts_with(
                    spec_to_upper(e.0),
                    spec_to_upper(prefix@),
                ),
            ),
    {
        let prefix_upper = to_upper(prefix);
        let ghost keep = |e: (Seq<char>, Option<Seq<char>>)|
            spec_starts_with(spec_to_upper(e.0), spec_to_upper(prefix@));
        let n = self.entries.len();
        let mut out: Vec<&HistoryEntry> = Vec::new();
        let mut i: usize = 0;
        while i < n
            invariant
                i <= n,
                n == self@.len(),
                n == self.entries@.len(),
                prefix_upper@ == spec_to_upper(prefix@),
                out@.map_values(|e: &HistoryEntry| entry_view(*e)) == self@.take(i as int).filter(
                    keep,
                ),
                keep == (|e: (Seq<char>, Option<Seq<char>>)|
                    spec_starts_with(spec_to_upper(e.0), spec_to_upper(prefix@))),
            decreases n - i,
        {
            proof {
                assert(self@.take(i + 1).drop_last() =~= self@.take(i as int));
                assert(self@.take(i + 1) =~= self@.take(i as int).push(self@[i as int]));
                self@.take(i as int).lemma_filter_push(self@[i as int], keep);
            }
            let e = &self.entries[i];
            let ghost prev = out@;
            let id_upper = to_upper(e.flight_number.as_str());
            if starts_with_str(id_upper.as_str(), prefix_upper.as_str()) {
                out.push(e);
                proof {
                    assert(keep(self@[i as int]));
                    assert(out@.map_values(|x: &HistoryEntry| entry_view(*x)) =~= prev.map_values(
                        |x: &HistoryEntry| entry_view(*x),
                    ).push(entry_view(*e)));
                }
            } else {
                proof {
                    assert(!keep(self@[i as int]));
                }
            }
            i = i + 1;
        }
        proof {
            assert(self@.take(n as int) =~= self@);
        }
        out
    }

    /// No flights are remembered.
    pub fn is_empty(&self) -> (r: bool)
        ensures
            r == (self@.len() == 0),
    {
        self.entries.len() == 0
    }

    /// Number of remembered flights.
    pub fn len(&self) -> (r: usize)
        ensures
            r == self@.len(),
    {
        self.entries.len()
    }

    /// Rebuilds a history from a loaded snapshot.  Entries are re-added
    /// from the oldest to the most recent, so duplicates collapse and the
    /// bound holds whatever the snapshot contained.
    pub fn from_entries(mut entries: Vec<HistoryEntry>) -> (r: Self)
        ensures
            r@ == spec_restore(entries@),
            r.wf(),
    {
        let ghost orig = entries@;
        let mut h = History::default();
        proof {
            assert(orig.skip(orig.len() as int) =~= Seq::<HistoryEntry>::empty());
            assert(orig.take(orig.len() as int) =~= orig);
        }
        while entries.len() > 0
            invariant
                h.wf(),
                entries@.len() <= orig.len(),
                entries@ == orig.take(entries@.len() as int),
                h@ == spec_restore(orig.skip(entries@.len() as int)),
            decreases entries@.len(),
        {
            let ghost m = entries@.len() as int;
            let next = entries.pop();
            match next {
                Some(e) => {
                    proof {
                        assert(1 <= m <= orig.len());
                        assert(e == orig.take(m)[m - 1]);
                        assert(e == orig[m - 1]);
                        assert(entries@ =~= orig.take(m - 1));
                        assert(orig.skip(m - 1).drop_first() =~= orig.skip(m));
                        assert(orig.skip(m - 1).first() == orig[m - 1]);
                        assert(entry_view(orig.skip(m - 1).first()) == (e.flight_number@, e.route.deep_view()));
                    }
                    h.add(e.flight_number, e.route);
                },
                None => {},
            }
        }
        proof {
            assert(orig.skip(0) =~= orig);
        }
        h
    }
}

/// The history a snapshot rebuilds to: its entries re-added back to
/// front, so the front-most entry of an identifier wins and the bound
/// holds.
pub open spec fn spec_restore(s: Seq<HistoryEntry>) -> Seq<(Seq<char>, Option<Seq<char>>)>
    decreases s.len(),
{
    if s.len() == 0 {
        Seq::empty()
    } else {
        spec_add(spec_restore(s.drop_first()), entry_view(s.first()).0, entry_view(s.first()).1)
    }
}

/// Law: adding the same identifier again — with the same route — changes
/// nothing: one entry remains, at the front, with that route.
pub proof fn lemma_add_idempotent(
    s: Seq<(Seq<char>, Option<Seq<char>>)>,
    fnum: Seq<char>,
    route: Option<Seq<char>>,
)
    ensures
        spec_add(spec_add(s, fnum, route), fnum, route) == spec_add(s, fnum, route),
{
    let keep = keep_other_flight(fnum);
    let f = s.filter(keep);
    let combined = seq![(fnum, route)] + f;
    let a1 = spec_add(s, fnum, route);
    let m = a1.len() as int;
    assert(a1 =~= combined.take(m)) by {
        if combined.len() <= MAX_HISTORY_SIZE {
            assert(combined.take(m) =~= combined);
        }
    }
    assert(a1 =~= seq![(fnum, route)] + f.take(m - 1));
    f.take(m - 1).lemma_filter_prepend((fnum, route), keep);
    assert forall|j: int| 0 <= j < f.take(m - 1).len() implies keep(#[trigger] f.take(m - 1)[j]) by {
        s.lemma_filter_pred(keep, j);
    }
    lemma_filter_all(f.take(m - 1), keep);
    assert(a1.filter(keep) == f.take(m - 1));
    let combined2 = seq![(fnum, route)] + f.take(m - 1);
    assert(combined2 =~= a1);
    assert(spec_add(a1, fnum, route) =~= a1) by {
        if combined2.len() > MAX_HISTORY_SIZE {
            assert(a1.take(MAX_HISTORY_SIZE as int) =~= a1);
        }
    }
}

/// Law: after an add, the identifier has exactly one entry — at the
/// front, carrying the route value of this latest add.
pub proof fn lemma_add_front_unique(
    s: Seq<(Seq<char>, Option<Seq<char>>)>,
    fnum: Seq<char>,
    route: Option<Seq<char>>,
)
    ensures
        spec_add(s, fnum, route).len() > 0,
        spec_add(s, fnum, route)[0] == (fnum, route),
        forall|i: int|
            1 <= i < spec_add(s, fnum, route).len() ==> (#[trigger] spec_add(s, fnum, route)[i]).0
                != fnum,
{
    let keep = keep_other_flight(fnum);
    let a = spec_add(s, fnum, route);
    assert forall|i: int| 1 <= i < a.len() implies (#[trigger] a[i]).0 != fnum by {
        assert(a[i] == s.filter(keep)[i - 1]);
        s.lemma_filter_pred(keep, i - 1);
    }
}

/// Law: the history never grows past its configured maximum.
pub proof fn lemma_add_bounded(
    s: Seq<(Seq<char>, Option<Seq<char>>)>,
    fnum: Seq<char>,
    route: Option<Seq<char>>,
)
    requires
        s.len() <= MAX_HISTORY_SIZE,
    ensures
        spec_add(s, fnum, route).len() <= MAX_HISTORY_SIZE,
{
}

/// Law: when the bound is exceeded, the evicted entry is exactly the
/// least recently added one — the back of the list after the move-to-front.
pub proof fn lemma_add_evicts_oldest(
    s: Seq<(Seq<char>, Option<Seq<char>>)>,
    fnum: Seq<char>,
    route: Option<Seq<char>>,
)
    requires
        s.len() <= MAX_HISTORY_SIZE,
        s.filter(keep_other_flight(fnum)).len() + 1 > MAX_HISTORY_SIZE,
    ensures
        spec_add(s, fnum, route) == (seq![(fnum, route)] + s.filter(keep_other_flight(fnum))).drop_last(),
{
    let keep = keep_other_flight(fnum);
    let f = s.filter(keep);
    s.lemma_filter_len(keep);
    let combined = seq![(fnum, route)] + f;
    assert(combined.len() == MAX_HISTORY_SIZE + 1);
    assert(combined.take(MAX_HISTORY_SIZE as int) =~= combined.drop_last());
}

} // verus!
