//! Trigram frequency data: records keyed by a triple of raw key positions,
//! merging of data sets, and remapping onto the canonical analysis grid.

use vstd::prelude::*;

use crate::mapping::pos_is_valid;
use crate::mapping::remap;
use crate::mapping::remap_spec;
use crate::mapping::valid_pos;
use crate::mapping::Pos;

verus! {

/// An ordered triple of raw key positions: the three keystrokes of a trigram.
#[derive(Copy, Clone, Debug, PartialEq, Eq, Structural)]
pub struct PosTriple {
    pub p1: Pos,
    pub p2: Pos,
    pub p3: Pos,
}

/// One record of frequency data: a trigram and its timing samples.
pub struct TrigramEntry {
    pub trigram: PosTriple,
    pub samples: Vec<u16>,
}

/// A set of trigram frequency records with pairwise distinct trigrams,
/// abstractly a map from trigram to its sample sequence.
pub struct TrigramData {
    pub entries: Vec<TrigramEntry>,
}

/// The records carry pairwise distinct trigrams.
pub open spec fn wf_entries(s: Seq<TrigramEntry>) -> bool {
    forall|i: int, j: int| 0 <= i < j < s.len() ==> s[i].trigram != s[j].trigram
}

/// Some record of `s` carries the trigram `k`.
pub open spec fn has_key(s: Seq<TrigramEntry>, k: PosTriple) -> bool {
    exists|i: int| 0 <= i < s.len() && s[i].trigram == k
}

/// The map that a record sequence denotes; a repeated trigram appends its
/// samples to those already recorded.
pub open spec fn entries_map(s: Seq<TrigramEntry>) -> Map<PosTriple, Seq<u16>>
    decreases s.len(),
{
    if s.len() == 0 {
        Map::empty()
    } else {
        let m = entries_map(s.drop_last());
        let e = s.last();
        if m.dom().contains(e.trigram) {
            m.insert(e.trigram, m[e.trigram] + e.samples@)
        } else {
            m.insert(e.trigram, e.samples@)
        }
    }
}

impl View for TrigramData {
    type V = Map<PosTriple, Seq<u16>>;

    open spec fn view(&self) -> Map<PosTriple, Seq<u16>> {
        entries_map(self.entries@)
    }
}

pub open spec fn trigram_data_wf(d: TrigramData) -> bool {
    wf_entries(d.entries@)
}

/// A trigram is in the denoted map exactly when some record carries it.
pub proof fn lemma_entries_map_dom(s: Seq<TrigramEntry>)
    ensures
        forall|k: PosTriple| entries_map(s).dom().contains(k) <==> has_key(s, k),
    decreases s.len(),
{
    if s.len() > 0 {
        let s0 = s.drop_last();
        lemma_entries_map_dom(s0);
        assert forall|k: PosTriple| entries_map(s).dom().contains(k) implies has_key(s, k) by {
            if k == s.last().trigram {
                assert(s[s.len() - 1].trigram == k);
            } else {
                assert(entries_map(s0).dom().contains(k));
                assert(has_key(s0, k));
                let i = choose|i: int| 0 <= i < s0.len() && s0[i].trigram == k;
                assert(s0[i] == s[i]);
                assert(s[i].trigram == k);
            }
        }
        assert forall|k: PosTriple| has_key(s, k) implies entries_map(s).dom().contains(k) by {
            let i = choose|i: int| 0 <= i < s.len() && s[i].trigram == k;
            if i < s.len() - 1 {
                assert(s0[i] == s[i]);
                assert(has_key(s0, k));
                assert(entries_map(s0).dom().contains(k));
            } else {
                assert(k == s.last().trigram);
            }
        }
    }
}

/// Splitting a well-formed record sequence at position `i`: the trigram
/// there occurs nowhere else, and the denoted map is the remainder's map
/// with that record's samples inserted.
pub proof fn lemma_entries_map_split(s: Seq<TrigramEntry>, i: int)
    requires
        wf_entries(s),
        0 <= i < s.len(),
    ensures
        wf_entries(s.remove(i)),
        !has_key(s.remove(i), s[i].trigram),
        entries_map(s) =~= entries_map(s.remove(i)).insert(s[i].trigram, s[i].samples@),
    decreases s.len(),
{
    let k = s[i].trigram;
    let v = s[i].samples@;
    s.remove_ensures(i);
    lemma_entries_map_dom(s.remove(i));
    assert forall|p: int, q: int| 0 <= p < q < s.remove(i).len() implies s.remove(i)[p].trigram
        != s.remove(i)[q].trigram by {
        let p1 = if p < i { p } else { p + 1 };
        let q1 = if q < i { q } else { q + 1 };
        assert(s.remove(i)[p] == s[p1]);
        assert(s.remove(i)[q] == s[q1]);
    }
    assert forall|j: int| 0 <= j < s.remove(i).len() implies s.remove(i)[j].trigram != k by {
        let j1 = if j < i { j } else { j + 1 };
        assert(s.remove(i)[j] == s[j1]);
    }
    assert(!has_key(s.remove(i), k));
    if i == s.len() - 1 {
        assert(s.remove(i) =~= s.drop_last());
        lemma_entries_map_dom(s.drop_last());
        assert(!entries_map(s.drop_last()).dom().contains(k));
        assert(entries_map(s) == entries_map(s.drop_last()).insert(k, v));
    } else {
        let s0 = s.drop_last();
        let e = s.last();
        s0.remove_ensures(i);
        assert(wf_entries(s0));
        lemma_entries_map_split(s0, i);
        lemma_entries_map_dom(s0.remove(i));
        let m00 = entries_map(s0.remove(i));
        assert(s.remove(i).drop_last() =~= s0.remove(i));
        assert(s.remove(i).last() == e);
        assert(k != e.trigram);
        assert(entries_map(s0) == m00.insert(k, v));
        let lhs = entries_map(s);
        let rhs = entries_map(s.remove(i)).insert(k, v);
        if m00.dom().contains(e.trigram) {
            assert(m00.insert(k, v)[e.trigram] == m00[e.trigram]);
            assert(lhs =~= rhs);
        } else {
            assert(lhs =~= rhs);
        }
    }
}

/// One remapped record: a triple of canonical matrix indexes and the
/// record's timing samples.
pub struct MatrixEntry {
    pub indexes: [usize; 3],
    pub samples: Vec<u16>,
}

/// Trigram frequency data remapped onto the 3x10 analysis grid.
pub struct MatrixData {
    pub entries: Vec<MatrixEntry>,
}

/// All three positions of the trigram lie in the analysis-grid region.
pub open spec fn triple_valid(t: PosTriple) -> bool {
    valid_pos(t.p1) && valid_pos(t.p2) && valid_pos(t.p3)
}

/// The abstract value of one remapped record.
pub open spec fn matrix_entry_view(e: MatrixEntry) -> ((int, int, int), Seq<u16>) {
    ((e.indexes[0] as int, e.indexes[1] as int, e.indexes[2] as int), e.samples@)
}

/// The abstract value of a remapped record sequence.
pub open spec fn matrix_view(s: Seq<MatrixEntry>) -> Seq<((int, int, int), Seq<u16>)> {
    Seq::new(s.len(), |i: int| matrix_entry_view(s[i]))
}

impl View for MatrixData {
    type V = Seq<((int, int, int), Seq<u16>)>;

    open spec fn view(&self) -> Seq<((int, int, int), Seq<u16>)> {
        matrix_view(self.entries@)
    }
}

/// What remapping a record sequence yields: records whose trigram leaves the
/// grid region are dropped entirely; the rest keep their samples and order,
/// with each position folded to its canonical matrix index.
pub open spec fn remapped(s: Seq<TrigramEntry>) -> Seq<((int, int, int), Seq<u16>)>
    decreases s.len(),
{
    if s.len() == 0 {
        Seq::empty()
    } else {
        remapped(s.drop_last()) + (if triple_valid(s.last().trigram) {
            seq![
                (
                    (
                        remap_spec(s.last().trigram.p1),
                        remap_spec(s.last().trigram.p2),
                        remap_spec(s.last().trigram.p3),
                    ),
                    s.last().samples@,
                ),
            ]
        } else {
            Seq::empty()
        })
    }
}

/// The merge of two trigram data maps: every trigram of either side, the
/// samples of the left side followed by those of the right side where both
/// record the trigram. Samples are concatenated, never averaged or
/// deduplicated.
pub open spec fn merge_maps(
    m1: Map<PosTriple, Seq<u16>>,
    m2: Map<PosTriple, Seq<u16>>,
) -> Map<PosTriple, Seq<u16>> {
    Map::new(
        |k: PosTriple| m1.dom().contains(k) || m2.dom().contains(k),
        |k: PosTriple|
            if m1.dom().contains(k) && m2.dom().contains(k) {
                m1[k] + m2[k]
            } else if m2.dom().contains(k) {
                m2[k]
            } else {
                m1[k]
            },
    )
}

/// The left-to-right merge of a sequence of trigram data sets.
pub open spec fn merge_seq(s: Seq<TrigramData>) -> Map<PosTriple, Seq<u16>>
    decreases s.len(),
{
    if s.len() == 0 {
        Map::empty()
    } else {
        merge_maps(merge_seq(s.drop_last()), s.last()@)
    }
}

/// Appends a copy of every sample of `src` to `dst`, in order.
pub fn extend_from(dst: &mut Vec<u16>, src: &Vec<u16>)
    ensures
        final(dst)@ == old(dst)@ + src@,
{
    let mut i: usize = 0;
    while i < src.len()
        invariant
            i <= src.len(),
            dst@ == old(dst)@ + src@.take(i as int),
        decreases src.len() - i,
    {
        dst.push(src[i]);
        proof {
            assert(src@.take(i + 1) =~= src@.take(i as int).push(src@[i as int]));
        }
        i += 1;
    }
    proof {
        assert(src@.take(src@.len() as int) =~= src@);
    }
}

impl TrigramData {
    /// An empty data set.
    pub fn new() -> (r: Self)
        ensures
            trigram_data_wf(r),
            r@ == Map::<PosTriple, Seq<u16>>::empty(),
    {
        TrigramData { entries: Vec::new() }
    }

    /// Records `samples` for `trigram`, appending them to any samples the
    /// set already holds for that trigram.
    pub fn insert(&mut self, trigram: PosTriple, samples: Vec<u16>)
        requires
            trigram_data_wf(*old(self)),
        ensures
            trigram_data_wf(*final(self)),
            final(self)@ == (if old(self)@.dom().contains(trigram) {
                old(self)@.insert(trigram, old(self)@[trigram] + samples@)
            } else {
                old(self)@.insert(trigram, samples@)
            }),
    {
        proof {
            lemma_entries_map_dom(self.entries@);
        }
        let ghost s = self.entries@;
        let n = self.entries.len();
        let mut i: usize = 0;
        while i < n
            invariant
                i <= n,
                n == self.entries@.len(),
                self.entries@ == s,
                s == old(self).entries@,
                trigram_data_wf(*old(self)),
                forall|j: int| 0 <= j < i ==> s[j].trigram != trigram,
            decreases n - i,
        {
            if self.entries[i].trigram == trigram {
                proof {
                    lemma_entries_map_dom(s);
                    lemma_entries_map_split(s, i as int);
                    lemma_entries_map_dom(s.remove(i as int));
                }
                let mut entry = self.entries.remove(i);
                extend_from(&mut entry.samples, &samples);
                self.entries.push(entry);
                proof {
                    let s2 = self.entries@;
                    assert(s2.drop_last() =~= s.remove(i as int));
                    assert(s2.last().trigram == trigram);
                    assert(s2.last().samples@ == s[i as int].samples@ + samples@);
                    assert(!entries_map(s.remove(i as int)).dom().contains(trigram));
                    assert(entries_map(s2) == entries_map(s.remove(i as int)).insert(
                        trigram,
                        s[i as int].samples@ + samples@,
                    ));
                    assert(old(self)@[trigram] == s[i as int].samples@);
                    assert(entries_map(s2) =~= old(self)@.insert(
                        trigram,
                        old(self)@[trigram] + samples@,
                    ));
                    assert forall|p: int, q: int| 0 <= p < q < s2.len() implies s2[p].trigram
                        != s2[q].trigram by {
                        if q < s2.len() - 1 {
                            assert(s2[p] == s.remove(i as int)[p]);
                            assert(s2[q] == s.remove(i as int)[q]);
                        } else {
                            assert(s2[p] == s.remove(i as int)[p]);
                            assert(!has_key(s.remove(i as int), trigram));
                        }
                    }
                }
                return;
            }
            i += 1;
        }
        assert(!has_key(s, trigram));
        self.entries.push(TrigramEntry { trigram, samples });
        proof {
            let s2 = self.entries@;
            assert(s2.drop_last() =~= s);
            assert(!entries_map(s).dom().contains(trigram));
            assert(entries_map(s2) == entries_map(s).insert(trigram, samples@));
            assert forall|p: int, q: int| 0 <= p < q < s2.len() implies s2[p].trigram
                != s2[q].trigram by {
                if q < s2.len() - 1 {
                    assert(s2[p] == s[p]);
                    assert(s2[q] == s[q]);
                } else {
                    assert(s2[p] == s[p]);
                }
            }
        }
    }

    /// Merges two data sets: samples recorded for the same trigram in both
    /// are concatenated, this set's first.
    pub fn combine(self, other: Self) -> (r: Self)
        requires
            trigram_data_wf(self),
            trigram_data_wf(other),
        ensures
            trigram_data_wf(r),
            r@ == merge_maps(self@, other@),
    {
        let ghost target = merge_maps(self@, other@);
        let mut res = self;
        let mut rest = other;
        while rest.entries.len() > 0
            invariant
                trigram_data_wf(res),
                wf_entries(rest.entries@),
                merge_maps(res@, entries_map(rest.entries@)) =~= target,
            decreases rest.entries.len(),
        {
            let ghost s = rest.entries@;
            let ghost res_old = res@;
            proof {
                lemma_entries_map_split(s, s.len() - 1);
                lemma_entries_map_dom(s.drop_last());
                assert(s.remove(s.len() - 1) =~= s.drop_last());
            }
            let e = rest.entries.pop().unwrap();
            let trigram = e.trigram;
            proof {
                assert(rest.entries@ =~= s.drop_last());
                assert(entries_map(s) == entries_map(s.drop_last()).insert(trigram, e.samples@));
                lemma_entries_map_dom(res.entries@);
            }
            res.insert(trigram, e.samples);
            proof {
                let m2 = entries_map(rest.entries@);
                assert(!m2.dom().contains(trigram));
                assert(merge_maps(res@, m2) =~= merge_maps(res_old, m2.insert(trigram, s.last().samples@)));
            }
        }
        proof {
            assert(entries_map(rest.entries@) =~= Map::<PosTriple, Seq<u16>>::empty());
            assert(merge_maps(res@, Map::<PosTriple, Seq<u16>>::empty()) =~= res@);
        }
        res
    }

    /// Folds a list of data sets into one, merging left to right; an empty
    /// list gives the empty data set.
    pub fn combine_all(items: Vec<TrigramData>) -> (r: Self)
        requires
            forall|i: int| 0 <= i < items@.len() ==> trigram_data_wf(#[trigger] items@[i]),
        ensures
            trigram_data_wf(r),
            r@ == merge_seq(items@),
    {
        let ghost orig = items@;
        let mut items = items;
        let total = items.len();
        proof {
            assert(orig.len() == total);
        }
        let mut res = TrigramData::new();
        let mut done: usize = 0;
        while items.len() > 0
            invariant
                0 <= done <= orig.len(),
                orig.len() == total,
                items@ =~= orig.skip(done as int),
                res@ == merge_seq(orig.take(done as int)),
                trigram_data_wf(res),
                forall|j: int| 0 <= j < orig.len() ==> trigram_data_wf(#[trigger] orig[j]),
            decreases items@.len(),
        {
            let d = items.remove(0);
            proof {
                orig.skip(done as int).remove_ensures(0);
                assert(d == orig[done as int]);
                assert(items@ =~= orig.skip(done as int + 1));
            }
            res = res.combine(d);
            proof {
                assert(orig.take(done as int + 1).drop_last() =~= orig.take(done as int));
                assert(orig.take(done as int + 1).last() == orig[done as int]);
            }
            done += 1;
        }
        proof {
            assert(orig.take(done as int) =~= orig);
        }
        res
    }

    /// Remaps the data onto the 3x10 analysis grid, dropping every record
    /// whose trigram leaves the grid region.
    pub fn matrix_3x10(self) -> (r: MatrixData)
        ensures
            r@ == remapped(self.entries@),
    {
        let ghost orig = self.entries@;
        let mut src = self.entries;
        let total = src.len();
        proof {
            assert(orig.len() == total);
        }
        let mut out: Vec<MatrixEntry> = Vec::new();
        let mut done: usize = 0;
        while src.len() > 0
            invariant
                0 <= done <= orig.len(),
                orig.len() == total,
                src@ =~= orig.skip(done as int),
                matrix_view(out@) == remapped(orig.take(done as int)),
            decreases src@.len(),
        {
            let e = src.remove(0);
            proof {
                orig.skip(done as int).remove_ensures(0);
                assert(e == orig[done as int]);
                assert(src@ =~= orig.skip(done as int + 1));
                assert(orig.take(done as int + 1).drop_last() =~= orig.take(done as int));
                assert(orig.take(done as int + 1).last() == orig[done as int]);
            }
            let ghost sv = e.samples@;
            let trigram = e.trigram;
            if pos_is_valid(trigram.p1) && pos_is_valid(trigram.p2) && pos_is_valid(trigram.p3) {
                let i1 = remap(trigram.p1);
                let i2 = remap(trigram.p2);
                let i3 = remap(trigram.p3);
                out.push(MatrixEntry { indexes: [i1, i2, i3], samples: e.samples });
                proof {
                    let x = (
                        (remap_spec(trigram.p1), remap_spec(trigram.p2), remap_spec(trigram.p3)),
                        sv,
                    );
                    assert(remapped(orig.take(done as int + 1)) == remapped(orig.take(done as int))
                        + seq![x]);
                    assert(matrix_entry_view(out@.last()) == x);
                    assert(matrix_view(out@) =~= remapped(orig.take(done as int + 1)));
                }
            } else {
                proof {
                    assert(remapped(orig.take(done as int + 1)) == remapped(orig.take(done as int))
                        + Seq::<((int, int, int), Seq<u16>)>::empty());
                    assert(matrix_view(out@) =~= remapped(orig.take(done as int + 1)));
                }
            }
            done += 1;
        }
        proof {
            assert(orig.take(done as int) =~= orig);
        }
        MatrixData { entries: out }
    }
}

} // verus!
