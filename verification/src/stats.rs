//! Derivation of finger identities from matrix indexes, and the aggregation
//! of timing samples into per-category buckets and statistics.

use vstd::prelude::*;

use crate::avg::avg_matches;
use crate::avg::Avg;
use crate::data::extend_from;
use crate::data::MatrixData;
use crate::trigram_patterns::classify_spec;
use crate::trigram_patterns::finger_from_rank;
use crate::trigram_patterns::get_trigram_combinations;
use crate::trigram_patterns::lemma_pack_unpack;
use crate::trigram_patterns::table_entry_spec;
use crate::trigram_patterns::TrigramPattern;

verus! {

/// One remapped record as the statistics pass sees it: the canonical index
/// triple and the record's samples.
pub type MatrixRecord = ((int, int, int), Seq<u16>);

/// Finger identity (a rank in [0, 8)) of a canonical matrix index: a pure
/// function of the column. Columns 0 to 3 map one-to-one; the two centre
/// column pairs 4-5 and 6-7 fold onto the index fingers 3 and 4; columns 8
/// and 9 map to 6 and 7.
pub open spec fn finger_col(index: int) -> int {
    let c = index % 10;
    if c <= 3 {
        c
    } else if c <= 5 {
        c - 1
    } else {
        c - 2
    }
}

/// Executable counterpart of `finger_col`.
pub fn finger(index: usize) -> (r: usize)
    ensures
        r == finger_col(index as int),
        r < 8,
{
    match index % 10 {
        n @ (0 | 1 | 2 | 3) => n,
        n @ (4 | 5) => n - 1,
        n => n - 2,
    }
}

/// The finger identities of a triple of matrix indexes.
pub fn fingers(indexes: &[usize; 3]) -> (r: [usize; 3])
    ensures
        r[0] == finger_col(indexes[0] as int),
        r[1] == finger_col(indexes[1] as int),
        r[2] == finger_col(indexes[2] as int),
        r[0] < 8 && r[1] < 8 && r[2] < 8,
{
    [finger(indexes[0]), finger(indexes[1]), finger(indexes[2])]
}

/// A same-finger skipgram: outer fingers equal, middle finger different.
pub fn fingers_are_sfs(f: &[usize; 3]) -> (r: bool)
    ensures
        r == (f[0] == f[2] && f[0] != f[1]),
{
    f[0] == f[2] && f[0] != f[1]
}

/// A same-key repeat: the same matrix index struck twice in succession.
pub fn indexes_are_sfr(indexes: &[usize; 3]) -> (r: bool)
    ensures
        r == (indexes[0] == indexes[1] || indexes[1] == indexes[2]),
{
    indexes[0] == indexes[1] || indexes[1] == indexes[2]
}

/// A record whose index triple strikes the same key twice in succession;
/// such a record is counted as a same-key repeat and never classified.
pub open spec fn key_is_sfr(k: (int, int, int)) -> bool {
    k.0 == k.1 || k.1 == k.2
}

/// A record whose outer strokes use one finger and whose middle stroke uses
/// another.
pub open spec fn key_is_sfs(k: (int, int, int)) -> bool {
    finger_col(k.0) == finger_col(k.2) && finger_col(k.0) != finger_col(k.1)
}

/// The category of a record's finger triple.
pub open spec fn key_pattern(k: (int, int, int)) -> TrigramPattern {
    classify_spec(
        finger_from_rank(finger_col(k.0)),
        finger_from_rank(finger_col(k.1)),
        finger_from_rank(finger_col(k.2)),
    )
}

/// Every sample of every record, in record order.
pub open spec fn overall_bucket(s: Seq<MatrixRecord>) -> Seq<u16>
    decreases s.len(),
{
    if s.len() == 0 {
        Seq::empty()
    } else {
        overall_bucket(s.drop_last()) + s.last().1
    }
}

/// The samples of the same-key-repeat records.
pub open spec fn sfr_bucket(s: Seq<MatrixRecord>) -> Seq<u16>
    decreases s.len(),
{
    if s.len() == 0 {
        Seq::empty()
    } else if key_is_sfr(s.last().0) {
        sfr_bucket(s.drop_last()) + s.last().1
    } else {
        sfr_bucket(s.drop_last())
    }
}

/// The samples of the same-finger-skipgram records (same-key repeats
/// excluded); a record lands here in addition to its category's bucket.
pub open spec fn sfs_bucket(s: Seq<MatrixRecord>) -> Seq<u16>
    decreases s.len(),
{
    if s.len() == 0 {
        Seq::empty()
    } else if !key_is_sfr(s.last().0) && key_is_sfs(s.last().0) {
        sfs_bucket(s.drop_last()) + s.last().1
    } else {
        sfs_bucket(s.drop_last())
    }
}

/// The samples of the records classified into category `p` (same-key
/// repeats excluded).
pub open spec fn pattern_bucket(s: Seq<MatrixRecord>, p: TrigramPattern) -> Seq<u16>
    decreases s.len(),
{
    if s.len() == 0 {
        Seq::empty()
    } else if !key_is_sfr(s.last().0) && key_pattern(s.last().0) == p {
        pattern_bucket(s.drop_last(), p) + s.last().1
    } else {
        pattern_bucket(s.drop_last(), p)
    }
}

/// Per-category collections of raw timing samples, before reduction to
/// summary statistics.
pub struct TrigramStatsInter {
    pub overall: Vec<u16>,
    pub sfb: Vec<u16>,
    pub bad_sfb: Vec<u16>,
    pub sfs: Vec<u16>,
    pub sft: Vec<u16>,
    pub sfr: Vec<u16>,
    pub alternate: Vec<u16>,
    pub alternate_sfs: Vec<u16>,
    pub inroll: Vec<u16>,
    pub outroll: Vec<u16>,
    pub onehand: Vec<u16>,
    pub redirect: Vec<u16>,
    pub redirect_sfs: Vec<u16>,
    pub bad_redirect: Vec<u16>,
    pub bad_redirect_sfs: Vec<u16>,
    pub other: Vec<u16>,
    pub invalid: Vec<u16>,
}

impl TrigramStatsInter {
    /// All buckets empty.
    pub fn new() -> (r: Self)
        ensures
            r.overall@ == Seq::<u16>::empty(),
            r.sfb@ == Seq::<u16>::empty(),
            r.bad_sfb@ == Seq::<u16>::empty(),
            r.sfs@ == Seq::<u16>::empty(),
            r.sft@ == Seq::<u16>::empty(),
            r.sfr@ == Seq::<u16>::empty(),
            r.alternate@ == Seq::<u16>::empty(),
            r.alternate_sfs@ == Seq::<u16>::empty(),
            r.inroll@ == Seq::<u16>::empty(),
            r.outroll@ == Seq::<u16>::empty(),
            r.onehand@ == Seq::<u16>::empty(),
            r.redirect@ == Seq::<u16>::empty(),
            r.redirect_sfs@ == Seq::<u16>::empty(),
            r.bad_redirect@ == Seq::<u16>::empty(),
            r.bad_redirect_sfs@ == Seq::<u16>::empty(),
            r.other@ == Seq::<u16>::empty(),
            r.invalid@ == Seq::<u16>::empty(),
    {
        TrigramStatsInter {
            overall: Vec::new(),
            sfb: Vec::new(),
            bad_sfb: Vec::new(),
            sfs: Vec::new(),
            sft: Vec::new(),
            sfr: Vec::new(),
            alternate: Vec::new(),
            alternate_sfs: Vec::new(),
            inroll: Vec::new(),
            outroll: Vec::new(),
            onehand: Vec::new(),
            redirect: Vec::new(),
            redirect_sfs: Vec::new(),
            bad_redirect: Vec::new(),
            bad_redirect_sfs: Vec::new(),
            other: Vec::new(),
            invalid: Vec::new(),
        }
    }
}

/// Per-category summary statistics of one aggregation run.
pub struct TrigramStats {
    pub overall: Avg,
    pub sfb: Avg,
    pub sfr: Avg,
    pub sfs: Avg,
    pub bad_sfb: Avg,
    pub sft: Avg,
    pub alternate: Avg,
    pub alternate_sfs: Avg,
    pub inroll: Avg,
    pub outroll: Avg,
    pub onehand: Avg,
    pub redirect: Avg,
    pub redirect_sfs: Avg,
    pub bad_redirect: Avg,
    pub bad_redirect_sfs: Avg,
    pub _other: Avg,
    pub _invalid: Avg,
}

impl TrigramStats {
    /// Reduces every bucket to its summary statistics.
    pub fn from_inter(stats: TrigramStatsInter) -> (r: Self)
        ensures
            avg_matches(r.overall, stats.overall@),
            avg_matches(r.sfb, stats.sfb@),
            avg_matches(r.sfr, stats.sfr@),
            avg_matches(r.sfs, stats.sfs@),
            avg_matches(r.bad_sfb, stats.bad_sfb@),
            avg_matches(r.sft, stats.sft@),
            avg_matches(r.alternate, stats.alternate@),
            avg_matches(r.alternate_sfs, stats.alternate_sfs@),
            avg_matches(r.inroll, stats.inroll@),
            avg_matches(r.outroll, stats.outroll@),
            avg_matches(r.onehand, stats.onehand@),
            avg_matches(r.redirect, stats.redirect@),
            avg_matches(r.redirect_sfs, stats.redirect_sfs@),
            avg_matches(r.bad_redirect, stats.bad_redirect@),
            avg_matches(r.bad_redirect_sfs, stats.bad_redirect_sfs@),
            avg_matches(r._other, stats.other@),
            avg_matches(r._invalid, stats.invalid@),
    {
        TrigramStats {
            sfr: Avg::new(stats.sfr),
            overall: Avg::new(stats.overall),
            alternate: Avg::new(stats.alternate),
            sfs: Avg::new(stats.sfs),
            alternate_sfs: Avg::new(stats.alternate_sfs),
            inroll: Avg::new(stats.inroll),
            outroll: Avg::new(stats.outroll),
            onehand: Avg::new(stats.onehand),
            redirect: Avg::new(stats.redirect),
            redirect_sfs: Avg::new(stats.redirect_sfs),
            bad_redirect: Avg::new(stats.bad_redirect),
            bad_redirect_sfs: Avg::new(stats.bad_redirect_sfs),
            sfb: Avg::new(stats.sfb),
            bad_sfb: Avg::new(stats.bad_sfb),
            sft: Avg::new(stats.sft),
            _other: Avg::new(stats.other),
            _invalid: Avg::new(stats.invalid),
        }
    }
}

impl MatrixData {
    /// Buckets every record's samples by category — same-key repeats first,
    /// then the classification table — and reduces each bucket, the overall
    /// bucket and the same-finger-skipgram bucket to summary statistics.
    pub fn stats(&self) -> (r: TrigramStats)
        ensures
            avg_matches(r.overall, overall_bucket(self@)),
            avg_matches(r.sfr, sfr_bucket(self@)),
            avg_matches(r.sfs, sfs_bucket(self@)),
            avg_matches(r.alternate, pattern_bucket(self@, TrigramPattern::Alternate)),
            avg_matches(r.alternate_sfs, pattern_bucket(self@, TrigramPattern::AlternateSfs)),
            avg_matches(r.inroll, pattern_bucket(self@, TrigramPattern::Inroll)),
            avg_matches(r.outroll, pattern_bucket(self@, TrigramPattern::Outroll)),
            avg_matches(r.onehand, pattern_bucket(self@, TrigramPattern::Onehand)),
            avg_matches(r.redirect, pattern_bucket(self@, TrigramPattern::Redirect)),
            avg_matches(r.redirect_sfs, pattern_bucket(self@, TrigramPattern::RedirectSfs)),
            avg_matches(r.bad_redirect, pattern_bucket(self@, TrigramPattern::BadRedirect)),
            avg_matches(
                r.bad_redirect_sfs,
                pattern_bucket(self@, TrigramPattern::BadRedirectSfs),
            ),
            avg_matches(r.sfb, pattern_bucket(self@, TrigramPattern::Sfb)),
            avg_matches(r.bad_sfb, pattern_bucket(self@, TrigramPattern::BadSfb)),
            avg_matches(r.sft, pattern_bucket(self@, TrigramPattern::Sft)),
            avg_matches(r._other, pattern_bucket(self@, TrigramPattern::Other)),
            avg_matches(r._invalid, Seq::<u16>::empty()),
    {
        let table = get_trigram_combinations();
        let mut inter = TrigramStatsInter::new();
        let ghost v = self@;
        let n = self.entries.len();
        proof {
            assert(v.len() == n);
        }
        let mut i: usize = 0;
        while i < n
            invariant
                i <= n,
                n == self.entries@.len(),
                v == self@,
                v.len() == n,
                table@.len() == 512,
                forall|t: int| 0 <= t < 512 ==> table@[t] == table_entry_spec(t),
                inter.overall@ == overall_bucket(v.take(i as int)),
                inter.sfr@ == sfr_bucket(v.take(i as int)),
                inter.sfs@ == sfs_bucket(v.take(i as int)),
                inter.alternate@ == pattern_bucket(v.take(i as int), TrigramPattern::Alternate),
                inter.alternate_sfs@ == pattern_bucket(
                    v.take(i as int),
                    TrigramPattern::AlternateSfs,
                ),
                inter.inroll@ == pattern_bucket(v.take(i as int), TrigramPattern::Inroll),
                inter.outroll@ == pattern_bucket(v.take(i as int), TrigramPattern::Outroll),
                inter.onehand@ == pattern_bucket(v.take(i as int), TrigramPattern::Onehand),
                inter.redirect@ == pattern_bucket(v.take(i as int), TrigramPattern::Redirect),
                inter.redirect_sfs@ == pattern_bucket(
                    v.take(i as int),
                    TrigramPattern::RedirectSfs,
                ),
                inter.bad_redirect@ == pattern_bucket(
                    v.take(i as int),
                    TrigramPattern::BadRedirect,
                ),
                inter.bad_redirect_sfs@ == pattern_bucket(
                    v.take(i as int),
                    TrigramPattern::BadRedirectSfs,
                ),
                inter.sfb@ == pattern_bucket(v.take(i as int), TrigramPattern::Sfb),
                inter.bad_sfb@ == pattern_bucket(v.take(i as int), TrigramPattern::BadSfb),
                inter.sft@ == pattern_bucket(v.take(i as int), TrigramPattern::Sft),
                inter.other@ == pattern_bucket(v.take(i as int), TrigramPattern::Other),
                inter.invalid@ == Seq::<u16>::empty(),
            decreases n - i,
        {
            let entry = &self.entries[i];
            let ghost k = v[i as int].0;
            proof {
                assert(v.take(i + 1).drop_last() =~= v.take(i as int));
                assert(v.take(i + 1).last() == v[i as int]);
                assert(v[i as int].1 == entry.samples@);
            }
            if indexes_are_sfr(&entry.indexes) {
                extend_from(&mut inter.sfr, &entry.samples);
                extend_from(&mut inter.overall, &entry.samples);
                proof {
                    assert(key_is_sfr(k));
                }
            } else {
                let f = fingers(&entry.indexes);
                if fingers_are_sfs(&f) {
                    extend_from(&mut inter.sfs, &entry.samples);
                }
                extend_from(&mut inter.overall, &entry.samples);
                let combination = f[0] * 64 + f[1] * 8 + f[2];
                proof {
                    assert(!key_is_sfr(k));
                    lemma_pack_unpack(f[0] as int, f[1] as int, f[2] as int);
                    assert(table_entry_spec(combination as int) == key_pattern(k));
                }
                let pattern = table[combination];
                match pattern {
                    TrigramPattern::Alternate => extend_from(
                        &mut inter.alternate,
                        &entry.samples,
                    ),
                    TrigramPattern::AlternateSfs => extend_from(
                        &mut inter.alternate_sfs,
                        &entry.samples,
                    ),
                    TrigramPattern::Inroll => extend_from(&mut inter.inroll, &entry.samples),
                    TrigramPattern::Outroll => extend_from(&mut inter.outroll, &entry.samples),
                    TrigramPattern::Onehand => extend_from(&mut inter.onehand, &entry.samples),
                    TrigramPattern::Redirect => extend_from(&mut inter.redirect, &entry.samples),
                    TrigramPattern::RedirectSfs => extend_from(
                        &mut inter.redirect_sfs,
                        &entry.samples,
                    ),
                    TrigramPattern::BadRedirect => extend_from(
                        &mut inter.bad_redirect,
                        &entry.samples,
                    ),
                    TrigramPattern::BadRedirectSfs => extend_from(
                        &mut inter.bad_redirect_sfs,
                        &entry.samples,
                    ),
                    TrigramPattern::Sfb => extend_from(&mut inter.sfb, &entry.samples),
                    TrigramPattern::BadSfb => extend_from(&mut inter.bad_sfb, &entry.samples),
                    TrigramPattern::Sft => extend_from(&mut inter.sft, &entry.samples),
                    TrigramPattern::Other => extend_from(&mut inter.other, &entry.samples),
                }
                proof {
                    assert(key_pattern(k) == pattern);
                }
            }
            i += 1;
        }
        proof {
            assert(v.take(n as int) =~= v);
        }
        TrigramStats::from_inter(inter)
    }
}

} // verus!
