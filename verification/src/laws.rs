//! General laws of the classifier, stated over the classification spec and
//! proved once for every finger triple.

use vstd::prelude::*;

use crate::data::merge_maps;
use crate::data::PosTriple;
use crate::stats::overall_bucket;
use crate::stats::pattern_bucket;
use crate::stats::sfr_bucket;
use crate::stats::MatrixRecord;
use crate::trigram_patterns::classify_spec;
use crate::trigram_patterns::finger_hand;
use crate::trigram_patterns::Finger;
use crate::trigram_patterns::TrigramPattern;

verus! {

/// A triple that strikes the same finger three times is always a
/// same-finger trigram, whatever the finger.
pub proof fn lemma_same_finger_trigram(f1: Finger, f2: Finger, f3: Finger)
    requires
        f1 == f2,
        f2 == f3,
    ensures
        classify_spec(f1, f2, f3) == TrigramPattern::Sft,
{
}

/// A same-hand triple with exactly one adjacent equal pair (so not all three
/// fingers equal) is always a bad same-finger bigram.
pub proof fn lemma_single_repeat_is_bad_sfb(f1: Finger, f2: Finger, f3: Finger)
    requires
        finger_hand(f1) == finger_hand(f2),
        finger_hand(f2) == finger_hand(f3),
        f1 == f2 || f2 == f3,
        !(f1 == f2 && f2 == f3),
    ensures
        classify_spec(f1, f2, f3) == TrigramPattern::BadSfb,
{
}

/// A triple that alternates hands is an alternation: with the same outer
/// finger it is the same-finger-skipgram kind, otherwise the plain kind.
pub proof fn lemma_alternating(f1: Finger, f2: Finger, f3: Finger)
    requires
        finger_hand(f1) != finger_hand(f2),
        finger_hand(f2) != finger_hand(f3),
    ensures
        f1 == f3 ==> classify_spec(f1, f2, f3) == TrigramPattern::AlternateSfs,
        f1 != f3 ==> classify_spec(f1, f2, f3) == TrigramPattern::Alternate,
{
}

/// The same-key-repeat check comes before classification and is disjoint
/// from it, and the thirteen categories are mutually exclusive and
/// exhaustive: every sample of every record lands in the overall bucket and
/// in exactly one of the same-key-repeat bucket and the thirteen category
/// buckets, so their sizes add up.
pub proof fn lemma_buckets_partition(v: Seq<MatrixRecord>)
    ensures
        overall_bucket(v).len() == sfr_bucket(v).len() + pattern_bucket(
            v,
            TrigramPattern::Alternate,
        ).len() + pattern_bucket(v, TrigramPattern::AlternateSfs).len() + pattern_bucket(
            v,
            TrigramPattern::Inroll,
        ).len() + pattern_bucket(v, TrigramPattern::Outroll).len() + pattern_bucket(
            v,
            TrigramPattern::Onehand,
        ).len() + pattern_bucket(v, TrigramPattern::Redirect).len() + pattern_bucket(
            v,
            TrigramPattern::RedirectSfs,
        ).len() + pattern_bucket(v, TrigramPattern::BadRedirect).len() + pattern_bucket(
            v,
            TrigramPattern::BadRedirectSfs,
        ).len() + pattern_bucket(v, TrigramPattern::Sfb).len() + pattern_bucket(
            v,
            TrigramPattern::BadSfb,
        ).len() + pattern_bucket(v, TrigramPattern::Sft).len() + pattern_bucket(
            v,
            TrigramPattern::Other,
        ).len(),
    decreases v.len(),
{
    if v.len() > 0 {
        lemma_buckets_partition(v.drop_last());
    }
}

/// Merging two data sets concatenates samples, never averaging or
/// deduplicating: for a trigram recorded on both sides, the merged samples
/// are the left side's followed by the right side's, so the merged
/// population size is the sum of the two sides' sample counts.
pub proof fn lemma_merge_concatenates(
    m1: Map<PosTriple, Seq<u16>>,
    m2: Map<PosTriple, Seq<u16>>,
    k: PosTriple,
)
    requires
        m1.dom().contains(k),
        m2.dom().contains(k),
    ensures
        merge_maps(m1, m2)[k] == m1[k] + m2[k],
        merge_maps(m1, m2)[k].len() == m1[k].len() + m2[k].len(),
{
}

} // verus!
