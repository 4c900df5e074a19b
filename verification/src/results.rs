//! Timings collected under benchmark names that are only known at run time.
//!
//! To a reader the collection is a map from a name to the timings recorded
//! under it, in the order of recording, together with the order in which the
//! names were first used.

use crate::stats::Statistics;
use crate::text::{
    lemma_precedes_is_total, lemma_precedes_is_transitive, precedes, same_text, text_precedes,
};
use std::time::Duration;
use vstd::prelude::*;

verus! {

/// The whole milliseconds of a duration, as `Duration::as_millis` returns
/// them.
pub uninterp spec fn millis_of(duration: Duration) -> u128;

/// `Duration::as_millis` returns the number of whole milliseconds that the
/// duration holds; the contract only names that number.
pub assume_specification[ Duration::as_millis ](duration: &Duration) -> (millis: u128)
    ensures
        millis == millis_of(*duration),
;

/// The timings recorded under one name.
#[derive(Debug)]
struct Series {
    name: String,
    timings: Vec<u128>,
}

/// Place of the series with that name, if there is one.
spec fn position_of(series: Seq<Series>, name: Seq<char>) -> Option<int> {
    if exists|i: int| 0 <= i < series.len() && series[i].name@ == name {
        Some(choose|i: int| 0 <= i < series.len() && series[i].name@ == name)
    } else {
        None
    }
}

/// The place `k` occurs in the order.
spec fn lists(order: Seq<usize>, k: int) -> bool {
    exists|p: int| 0 <= p < order.len() && order[p] == k
}

/// No two series share a name.
spec fn names_differ(series: Seq<Series>) -> bool {
    forall|i: int, j: int| 0 <= i < j < series.len() ==> series[i].name@ != series[j].name@
}

/// In a collection without repeated names a series is found at its place.
proof fn lemma_position_found(series: Seq<Series>, at: int)
    requires
        names_differ(series),
        0 <= at < series.len(),
    ensures
        position_of(series, series[at].name@) == Some(at),
{
    let name = series[at].name@;
    let found = choose|i: int| 0 <= i < series.len() && series[i].name@ == name;
    if found < at {
        assert(series[found].name@ != series[at].name@);
    } else if at < found {
        assert(series[at].name@ != series[found].name@);
    }
}

/// The line of a summary for one benchmark.
#[derive(Debug, Clone, PartialEq, Eq)]
pub struct SummaryRow {
    /// Name of the benchmark.
    pub name: String,
    /// Number of timings recorded under the name.
    pub samples: usize,
    /// Statistics of those timings.
    pub stats: Statistics,
}

/// Timings by benchmark name, with the number of iterations that was planned.
#[derive(Debug)]
pub struct BenchmarkResults {
    iteration: usize,
    series: Vec<Series>,
}

impl View for BenchmarkResults {
    type V = Map<Seq<char>, Seq<u128>>;

    /// The timings recorded under each name.
    closed spec fn view(&self) -> Map<Seq<char>, Seq<u128>> {
        Map::new(
            |name: Seq<char>| position_of(self.series@, name) is Some,
            |name: Seq<char>| self.series@[position_of(self.series@, name).unwrap()].timings@,
        )
    }
}

impl BenchmarkResults {
    #[verifier::type_invariant]
    spec fn well_formed(self) -> bool {
        names_differ(self.series@)
    }

    /// The names in the order of their first use.
    pub closed spec fn names(&self) -> Seq<Seq<char>> {
        Seq::new(self.series@.len(), |i: int| self.series@[i].name@)
    }

    /// The number of iterations that was planned.
    pub closed spec fn planned(&self) -> usize {
        self.iteration
    }

    /// The timings recorded under `name`; none where it was never used.
    pub open spec fn recorded(&self, name: Seq<char>) -> Seq<u128> {
        if self@.contains_key(name) {
            self@[name]
        } else {
            Seq::empty()
        }
    }

    /// An empty collection for a run of `iteration` iterations.
    pub fn new(iteration: usize) -> (results: Self)
        ensures
            results@ == Map::<Seq<char>, Seq<u128>>::empty(),
            results.names() == Seq::<Seq<char>>::empty(),
            results.planned() == iteration,
    {
        let results = BenchmarkResults { iteration, series: Vec::new() };
        assert(results@ =~= Map::<Seq<char>, Seq<u128>>::empty());
        assert(results.names() =~= Seq::<Seq<char>>::empty());
        results
    }

    /// The number of iterations that was planned.
    pub fn iteration(&self) -> (iteration: usize)
        ensures
            iteration == self.planned(),
    {
        self.iteration
    }

    /// Place of the series with that name.
    fn find(&self, name: &str) -> (at: Option<usize>)
        ensures
            match at {
                Some(i) => i < self.series@.len() && position_of(self.series@, name@) == Some(
                    i as int,
                ),
                None => position_of(self.series@, name@) is None,
            },
    {
        proof {
            use_type_invariant(self);
        }
        let mut i: usize = 0;
        while i < self.series.len()
            invariant
                i <= self.series@.len(),
                names_differ(self.series@),
                forall|k: int| 0 <= k < i ==> self.series@[k].name@ != name@,
            decreases self.series@.len() - i,
        {
            if same_text(self.series[i].name.as_str(), name) {
                proof {
                    lemma_position_found(self.series@, i as int);
                }
                return Some(i);
            }
            i = i + 1;
        }
        None
    }

    /// Appends the whole milliseconds of `duration` to the timings of `name`,
    /// which begin with it if the name was not used before. Nothing else
    /// changes.
    pub fn add_timing(&mut self, name: &str, duration: Duration)
        ensures
            final(self)@ == old(self)@.insert(
                name@,
                old(self).recorded(name@).push(millis_of(duration)),
            ),
            final(self).names() == if old(self)@.contains_key(name@) {
                old(self).names()
            } else {
                old(self).names().push(name@)
            },
            final(self).planned() == old(self).planned(),
    {
        proof {
            use_type_invariant(&*self);
        }
        let millis = duration.as_millis();
        let found = self.find(name);
        let ghost before = self.series@;
        let mut series: Vec<Series> = Vec::new();
        std::mem::swap(&mut series, &mut self.series);
        match found {
            Some(i) => {
                let mut entry = series.remove(i);
                entry.timings.push(millis);
                series.insert(i, entry);
                proof {
                    assert(series@.len() == before.len());
                    assert forall|k: int| 0 <= k < before.len() implies series@[k].name@
                        == before[k].name@ by {}
                    assert(series@[i as int].timings@ == before[i as int].timings@.push(millis));
                    assert forall|k: int| 0 <= k < before.len() && k != i implies series@[k]
                        == before[k] by {}
                }
            },
            None => {
                series.push(Series { name: name.to_owned(), timings: vec![millis] });
                proof {
                    assert(series@[before.len() as int].timings@ =~= Seq::<u128>::empty().push(
                        millis,
                    ));
                }
            },
        }
        proof {
            assert(names_differ(series@));
        }
        self.series = series;
        proof {
            let after = self.series@;
            assert forall|other: Seq<char>| other != name@ implies position_of(after, other)
                == position_of(before, other) by {
                if position_of(before, other) is Some {
                    let k = position_of(before, other).unwrap();
                    assert(after[k].name@ == other);
                    lemma_position_found(after, k);
                } else if position_of(after, other) is Some {
                    let k = position_of(after, other).unwrap();
                    assert(k < before.len());
                    assert(before[k].name@ == other);
                }
            }
            let place: int = match found {
                Some(i) => i as int,
                None => before.len() as int,
            };
            assert(after[place].name@ == name@);
            lemma_position_found(after, place);
            assert(final(self)@ =~= old(self)@.insert(
                name@,
                old(self).recorded(name@).push(millis),
            ));
            assert(final(self).names() =~= if old(self)@.contains_key(name@) {
                old(self).names()
            } else {
                old(self).names().push(name@)
            });
        }
    }

    /// The timings recorded under `name`, in the order of recording.
    pub fn get_timings(&self, name: &str) -> (timings: Option<&[u128]>)
        ensures
            match timings {
                Some(found) => self@.contains_key(name@) && found@ == self@[name@],
                None => !self@.contains_key(name@),
            },
    {
        match self.find(name) {
            Some(i) => Some(self.series[i].timings.as_slice()),
            None => None,
        }
    }

    /// The statistics of the timings recorded under `name`.
    pub fn statistics(&self, name: &str) -> (stats: Option<Statistics>)
        ensures
            match stats {
                Some(found) => self@.contains_key(name@) && found.summarizes(self@[name@]),
                None => !self@.contains_key(name@),
            },
    {
        match self.get_timings(name) {
            Some(timings) => Some(Statistics::from_timings(timings)),
            None => None,
        }
    }

    /// All names under which timings are recorded, each once, in the order
    /// of their first use.
    pub fn benchmark_names(&self) -> (names: Vec<&str>)
        ensures
            names@.len() == self.names().len(),
            forall|i: int| 0 <= i < names@.len() ==> names@[i]@ == self.names()[i],
            self.names().no_duplicates(),
            forall|name: Seq<char>| self.names().contains(name) <==> self@.contains_key(name),
    {
        proof {
            use_type_invariant(self);
            let listed = self.names();
            assert forall|name: Seq<char>| listed.contains(name) <==> self@.contains_key(
                name,
            ) by {
                if listed.contains(name) {
                    let i = choose|i: int| 0 <= i < listed.len() && listed[i] == name;
                    assert(self.series@[i].name@ == name);
                }
                if self@.contains_key(name) {
                    let i = position_of(self.series@, name).unwrap();
                    assert(listed[i] == name);
                }
            }
        }
        let mut names: Vec<&str> = Vec::new();
        let mut i: usize = 0;
        while i < self.series.len()
            invariant
                i <= self.series@.len(),
                names@.len() == i,
                forall|k: int| 0 <= k < i ==> names@[k]@ == self.series@[k].name@,
            decreases self.series@.len() - i,
        {
            names.push(self.series[i].name.as_str());
            i = i + 1;
        }
        names
    }

    /// The places of all series, ordered by name.
    fn places_by_name(&self) -> (order: Vec<usize>)
        ensures
            order@.len() == self.series@.len(),
            forall|p: int| 0 <= p < order@.len() ==> order@[p] < self.series@.len(),
            forall|p: int, q: int| 0 <= p < q < order@.len() ==> order@[p] != order@[q],
            forall|k: int| 0 <= k < self.series@.len() ==> #[trigger] lists(order@, k),
            forall|p: int, q: int|
                0 <= p < q < order@.len() ==> precedes(
                    self.series@[order@[p] as int].name@,
                    self.series@[order@[q] as int].name@,
                ),
    {
        let mut order: Vec<usize> = Vec::new();
        let mut i: usize = 0;
        while i < self.series.len()
            invariant
                i <= self.series@.len(),
                order@.len() == i,
                forall|p: int| 0 <= p < order@.len() ==> order@[p] < i,
                forall|p: int, q: int| 0 <= p < q < order@.len() ==> order@[p] != order@[q],
                forall|k: int| 0 <= k < i ==> #[trigger] lists(order@, k),
                forall|p: int, q: int|
                    0 <= p < q < order@.len() ==> precedes(
                        self.series@[order@[p] as int].name@,
                        self.series@[order@[q] as int].name@,
                    ),
            decreases self.series@.len() - i,
        {
            let name = self.series[i].name.as_str();
            let mut at: usize = 0;
            while at < order.len() && text_precedes(self.series[order[at]].name.as_str(), name)
                invariant
                    at <= order@.len(),
                    i < self.series@.len(),
                    name@ == self.series@[i as int].name@,
                    forall|p: int| 0 <= p < order@.len() ==> order@[p] < i,
                    forall|p: int|
                        0 <= p < at ==> precedes(self.series@[order@[p] as int].name@, name@),
                decreases order@.len() - at,
            {
                at = at + 1;
            }
            let ghost before = order@;
            order.insert(at, i);
            proof {
                let series = self.series@;
                assert forall|k: int| 0 <= k < i + 1 implies #[trigger] lists(order@, k) by {
                    if k < i {
                        assert(lists(before, k));
                        let p = choose|p: int| 0 <= p < before.len() && before[p] == k;
                        if p < at {
                            assert(order@[p] == k);
                        } else {
                            assert(order@[p + 1] == k);
                        }
                    } else {
                        assert(order@[at as int] == k);
                    }
                }
                assert forall|p: int, q: int| 0 <= p < q < order@.len() implies precedes(
                    series[order@[p] as int].name@,
                    series[order@[q] as int].name@,
                ) by {
                    if q < at {
                        assert(order@[p] == before[p] && order@[q] == before[q]);
                    } else if q == at {
                        assert(order@[p] == before[p]);
                    } else {
                        assert(order@[q] == before[q - 1]);
                        if p < at {
                            assert(order@[p] == before[p]);
                        } else if p > at {
                            assert(order@[p] == before[p - 1]);
                        } else {
                            let next = series[before[at as int] as int].name@;
                            lemma_precedes_is_total(next, name@);
                            if at < q - 1 {
                                lemma_precedes_is_transitive(
                                    name@,
                                    next,
                                    series[before[q - 1] as int].name@,
                                );
                            }
                        }
                    }
                }
            }
            i = i + 1;
        }
        order
    }

    /// One line for each name, the lines ordered by name as in a dictionary
    /// that orders characters by their code points.
    pub fn summary(&self) -> (rows: Vec<SummaryRow>)
        ensures
            rows@.len() == self.names().len(),
            forall|p: int|
                0 <= p < rows@.len() ==> {
                    &&& self@.contains_key(#[trigger] rows@[p].name@)
                    &&& rows@[p].samples == self@[rows@[p].name@].len()
                    &&& rows@[p].stats.summarizes(self@[rows@[p].name@])
                },
            forall|name: Seq<char>|
                self@.contains_key(name) ==> exists|p: int|
                    0 <= p < rows@.len() && rows@[p].name@ == name,
            forall|p: int, q: int|
                0 <= p < q < rows@.len() ==> precedes(rows@[p].name@, rows@[q].name@)
                    && rows@[p].name@ != rows@[q].name@,
    {
        proof {
            use_type_invariant(self);
        }
        let order = self.places_by_name();
        let mut rows: Vec<SummaryRow> = Vec::new();
        let mut p: usize = 0;
        while p < order.len()
            invariant
                p <= order@.len(),
                rows@.len() == p,
                names_differ(self.series@),
                order@.len() == self.series@.len(),
                forall|k: int| 0 <= k < order@.len() ==> order@[k] < self.series@.len(),
                forall|k: int|
                    0 <= k < p ==> {
                        &&& (#[trigger] rows@[k]).name@ == self.series@[order@[k] as int].name@
                        &&& rows@[k].samples == self.series@[order@[k] as int].timings@.len()
                        &&& rows@[k].stats.summarizes(self.series@[order@[k] as int].timings@)
                    },
            decreases order@.len() - p,
        {
            let entry = &self.series[order[p]];
            rows.push(
                SummaryRow {
                    name: entry.name.clone(),
                    samples: entry.timings.len(),
                    stats: Statistics::from_timings(entry.timings.as_slice()),
                },
            );
            p = p + 1;
        }
        proof {
            let series = self.series@;
            assert forall|k: int| 0 <= k < rows@.len() implies {
                &&& self@.contains_key(#[trigger] rows@[k].name@)
                &&& rows@[k].samples == self@[rows@[k].name@].len()
                &&& rows@[k].stats.summarizes(self@[rows@[k].name@])
            } by {
                lemma_position_found(series, order@[k] as int);
            }
            assert forall|name: Seq<char>| self@.contains_key(name) implies exists|k: int|
                0 <= k < rows@.len() && rows@[k].name@ == name by {
                let at = position_of(series, name).unwrap();
                assert(lists(order@, at));
                let k = choose|k: int| 0 <= k < order@.len() && order@[k] == at;
                assert(rows@[k].name@ == name);
            }
            assert forall|k: int, l: int| 0 <= k < l < rows@.len() implies precedes(
                rows@[k].name@,
                rows@[l].name@,
            ) && rows@[k].name@ != rows@[l].name@ by {
                let a = order@[k] as int;
                let b = order@[l] as int;
                assert(a != b);
                if a < b {
                    assert(series[a].name@ != series[b].name@);
                } else {
                    assert(series[b].name@ != series[a].name@);
                }
            }
        }
        rows
    }
}

} // verus!
