//! The trigram pattern classifier: a total, deterministic map from an ordered
//! triple of finger identities to one of thirteen ergonomic categories,
//! together with the precomputed 512-entry lookup table over packed triples.

use vstd::prelude::*;

verus! {

/// The thirteen ergonomic categories a classified trigram can fall into.
#[derive(Copy, Clone, Debug, PartialEq, Eq, Structural)]
pub enum TrigramPattern {
    Alternate,
    AlternateSfs,
    Inroll,
    Outroll,
    Onehand,
    Redirect,
    RedirectSfs,
    BadRedirect,
    BadRedirectSfs,
    Sfb,
    BadSfb,
    Sft,
    Other,
}

#[derive(Copy, Clone, Debug, PartialEq, Eq, Structural)]
pub enum Hand {
    Left,
    Right,
}

/// The eight analysis fingers, ordered left to right, plus the two thumbs
/// (which the classifier's finger model never produces).
#[derive(Copy, Clone, Debug)]
pub enum Finger {
    LP,
    LR,
    LM,
    LI,
    RI,
    RM,
    RR,
    RP,
    LT,
    RT,
}

/// Numeric rank of a finger: left to right over the eight non-thumb fingers,
/// with the thumbs last.
pub open spec fn finger_rank(f: Finger) -> int {
    match f {
        Finger::LP => 0,
        Finger::LR => 1,
        Finger::LM => 2,
        Finger::LI => 3,
        Finger::RI => 4,
        Finger::RM => 5,
        Finger::RR => 6,
        Finger::RP => 7,
        Finger::LT => 8,
        Finger::RT => 9,
    }
}

/// The finger whose rank is `i`; defined for `0 <= i < 10`.
pub open spec fn finger_from_rank(i: int) -> Finger {
    if i == 0 {
        Finger::LP
    } else if i == 1 {
        Finger::LR
    } else if i == 2 {
        Finger::LM
    } else if i == 3 {
        Finger::LI
    } else if i == 4 {
        Finger::RI
    } else if i == 5 {
        Finger::RM
    } else if i == 6 {
        Finger::RR
    } else if i == 7 {
        Finger::RP
    } else if i == 8 {
        Finger::LT
    } else {
        Finger::RT
    }
}

pub open spec fn finger_hand(f: Finger) -> Hand {
    match f {
        Finger::LP | Finger::LR | Finger::LM | Finger::LI | Finger::LT => Hand::Left,
        _ => Hand::Right,
    }
}

/// A "weak" finger for redirect purposes: pinky, ring or middle on either hand.
pub open spec fn finger_is_bad(f: Finger) -> bool {
    match f {
        Finger::LP | Finger::LR | Finger::LM | Finger::RM | Finger::RR | Finger::RP => true,
        _ => false,
    }
}

impl Finger {
    /// Executable counterpart of `finger_rank`.
    pub fn rank(self) -> (r: u8)
        ensures
            r == finger_rank(self),
    {
        match self {
            Finger::LP => 0,
            Finger::LR => 1,
            Finger::LM => 2,
            Finger::LI => 3,
            Finger::RI => 4,
            Finger::RM => 5,
            Finger::RR => 6,
            Finger::RP => 7,
            Finger::LT => 8,
            Finger::RT => 9,
        }
    }

    pub fn eq(self, other: Self) -> (r: bool)
        ensures
            r <==> self == other,
    {
        self.rank() == other.rank()
    }

    pub fn gt(self, other: Self) -> (r: bool)
        ensures
            r <==> finger_rank(self) > finger_rank(other),
    {
        self.rank() > other.rank()
    }

    pub fn lt(self, other: Self) -> (r: bool)
        ensures
            r <==> finger_rank(self) < finger_rank(other),
    {
        self.rank() < other.rank()
    }

    pub fn hand(&self) -> (r: Hand)
        ensures
            r == finger_hand(*self),
    {
        match self {
            Finger::LP | Finger::LR | Finger::LM | Finger::LI | Finger::LT => Hand::Left,
            _ => Hand::Right,
        }
    }

    pub fn is_bad(&self) -> (r: bool)
        ensures
            r == finger_is_bad(*self),
    {
        match self {
            Finger::LP | Finger::LR | Finger::LM | Finger::RM | Finger::RR | Finger::RP => true,
            _ => false,
        }
    }

    pub fn from_usize(value: usize) -> (r: Self)
        requires
            value < 10,
        ensures
            r == finger_from_rank(value as int),
            finger_rank(r) == value,
    {
        match value {
            0 => Finger::LP,
            1 => Finger::LR,
            2 => Finger::LM,
            3 => Finger::LI,
            4 => Finger::RI,
            5 => Finger::RM,
            6 => Finger::RR,
            7 => Finger::RP,
            8 => Finger::LT,
            _ => Finger::RT,
        }
    }
}

/// An ordered triple of fingers together with the hand each finger is on.
pub struct Trigram {
    pub f1: Finger,
    pub f2: Finger,
    pub f3: Finger,
    pub h1: Hand,
    pub h2: Hand,
    pub h3: Hand,
}

/// The hand fields agree with the finger fields.
pub open spec fn trigram_wf(t: Trigram) -> bool {
    &&& t.h1 == finger_hand(t.f1)
    &&& t.h2 == finger_hand(t.f2)
    &&& t.h3 == finger_hand(t.f3)
}

/// The hand sequence alternates: left-right-left or right-left-right.
pub open spec fn alt_spec(f1: Finger, f2: Finger, f3: Finger) -> bool {
    finger_hand(f1) != finger_hand(f2) && finger_hand(f2) != finger_hand(f3)
}

/// The first and third keystroke use the same finger.
pub open spec fn sfs_spec(f1: Finger, f2: Finger, f3: Finger) -> bool {
    f1 == f3
}

/// All three keystrokes are on one hand.
pub open spec fn one_hand_spec(f1: Finger, f2: Finger, f3: Finger) -> bool {
    finger_hand(f1) == finger_hand(f2) && finger_hand(f2) == finger_hand(f3)
}

/// Exactly one hand switch: left-left-right, right-left-left, right-right-left
/// or left-right-right.
pub open spec fn roll_spec(f1: Finger, f2: Finger, f3: Finger) -> bool {
    let h1 = finger_hand(f1);
    let h2 = finger_hand(f2);
    let h3 = finger_hand(f3);
    ||| (h1 == Hand::Left && h2 == Hand::Left && h3 == Hand::Right)
    ||| (h1 == Hand::Right && h2 == Hand::Left && h3 == Hand::Left)
    ||| (h1 == Hand::Right && h2 == Hand::Right && h3 == Hand::Left)
    ||| (h1 == Hand::Left && h2 == Hand::Right && h3 == Hand::Right)
}

/// For a roll, whether the same-hand pair moves inward (towards the centre of
/// the keyboard). Meaningful only when `roll_spec` holds.
pub open spec fn inroll_spec(f1: Finger, f2: Finger, f3: Finger) -> bool {
    let h1 = finger_hand(f1);
    let h2 = finger_hand(f2);
    let h3 = finger_hand(f3);
    if h1 == Hand::Left && h2 == Hand::Left && h3 == Hand::Right {
        finger_rank(f1) < finger_rank(f2)
    } else if h1 == Hand::Right && h2 == Hand::Left && h3 == Hand::Left {
        finger_rank(f2) < finger_rank(f3)
    } else if h1 == Hand::Right && h2 == Hand::Right && h3 == Hand::Left {
        finger_rank(f1) > finger_rank(f2)
    } else {
        finger_rank(f2) > finger_rank(f3)
    }
}

/// A same-hand sequence that changes direction.
pub open spec fn redir_spec(f1: Finger, f2: Finger, f3: Finger) -> bool {
    ((finger_rank(f1) < finger_rank(f2)) == (finger_rank(f2) > finger_rank(f3)))
        && one_hand_spec(f1, f2, f3)
}

/// A redirect drawn entirely from the weak fingers.
pub open spec fn bad_redir_spec(f1: Finger, f2: Finger, f3: Finger) -> bool {
    redir_spec(f1, f2, f3) && finger_is_bad(f1) && finger_is_bad(f2) && finger_is_bad(f3)
}

/// Two adjacent keystrokes use the same finger.
pub open spec fn sfb_spec(f1: Finger, f2: Finger, f3: Finger) -> bool {
    f1 == f2 || f2 == f3
}

/// All three keystrokes use the same finger.
pub open spec fn sft_spec(f1: Finger, f2: Finger, f3: Finger) -> bool {
    f1 == f2 && f2 == f3
}

/// Category of a same-hand trigram: same-finger repeats first, then
/// direction changes, then the smooth one-hand run.
pub open spec fn one_hand_pattern_spec(f1: Finger, f2: Finger, f3: Finger) -> TrigramPattern {
    if sft_spec(f1, f2, f3) {
        TrigramPattern::Sft
    } else if sfb_spec(f1, f2, f3) {
        TrigramPattern::BadSfb
    } else if redir_spec(f1, f2, f3) {
        if !sfs_spec(f1, f2, f3) && !bad_redir_spec(f1, f2, f3) {
            TrigramPattern::Redirect
        } else if !sfs_spec(f1, f2, f3) && bad_redir_spec(f1, f2, f3) {
            TrigramPattern::BadRedirect
        } else if sfs_spec(f1, f2, f3) && !bad_redir_spec(f1, f2, f3) {
            TrigramPattern::RedirectSfs
        } else {
            TrigramPattern::BadRedirectSfs
        }
    } else {
        TrigramPattern::Onehand
    }
}

/// The priority-ordered decision procedure that assigns every ordered finger
/// triple its category: alternation first, then one-hand patterns, then
/// cross-hand same-finger bigrams, then rolls, and `Other` for the rest.
pub open spec fn classify_spec(f1: Finger, f2: Finger, f3: Finger) -> TrigramPattern {
    if alt_spec(f1, f2, f3) {
        if sfs_spec(f1, f2, f3) {
            TrigramPattern::AlternateSfs
        } else {
            TrigramPattern::Alternate
        }
    } else if one_hand_spec(f1, f2, f3) {
        one_hand_pattern_spec(f1, f2, f3)
    } else if sfb_spec(f1, f2, f3) {
        TrigramPattern::Sfb
    } else if roll_spec(f1, f2, f3) {
        if inroll_spec(f1, f2, f3) {
            TrigramPattern::Inroll
        } else {
            TrigramPattern::Outroll
        }
    } else {
        TrigramPattern::Other
    }
}

impl Trigram {
    pub fn new(f1: Finger, f2: Finger, f3: Finger) -> (r: Self)
        ensures
            r.f1 == f1,
            r.f2 == f2,
            r.f3 == f3,
            trigram_wf(r),
    {
        Trigram { f1, f2, f3, h1: f1.hand(), h2: f2.hand(), h3: f3.hand() }
    }

    pub fn is_alt(&self) -> (r: bool)
        requires
            trigram_wf(*self),
        ensures
            r == alt_spec(self.f1, self.f2, self.f3),
    {
        match (self.h1, self.h2, self.h3) {
            (Hand::Left, Hand::Right, Hand::Left) => true,
            (Hand::Right, Hand::Left, Hand::Right) => true,
            _ => false,
        }
    }

    pub fn is_sfs(&self) -> (r: bool)
        ensures
            r == sfs_spec(self.f1, self.f2, self.f3),
    {
        self.f1.eq(self.f3)
    }

    pub fn get_alternate(&self) -> (r: TrigramPattern)
        ensures
            r == (if sfs_spec(self.f1, self.f2, self.f3) {
                TrigramPattern::AlternateSfs
            } else {
                TrigramPattern::Alternate
            }),
    {
        match self.is_sfs() {
            true => TrigramPattern::AlternateSfs,
            false => TrigramPattern::Alternate,
        }
    }

    pub fn is_roll(&self) -> (r: bool)
        requires
            trigram_wf(*self),
        ensures
            r == roll_spec(self.f1, self.f2, self.f3),
    {
        match (self.h1, self.h2, self.h3) {
            (Hand::Left, Hand::Left, Hand::Right) => true,
            (Hand::Right, Hand::Left, Hand::Left) => true,
            (Hand::Right, Hand::Right, Hand::Left) => true,
            (Hand::Left, Hand::Right, Hand::Right) => true,
            _ => false,
        }
    }

    pub fn is_inroll(&self) -> (r: bool)
        requires
            trigram_wf(*self),
            roll_spec(self.f1, self.f2, self.f3),
        ensures
            r == inroll_spec(self.f1, self.f2, self.f3),
    {
        match (self.h1, self.h2, self.h3) {
            (Hand::Left, Hand::Left, Hand::Right) => self.f1.lt(self.f2),
            (Hand::Right, Hand::Left, Hand::Left) => self.f2.lt(self.f3),
            (Hand::Right, Hand::Right, Hand::Left) => self.f1.gt(self.f2),
            _ => self.f2.gt(self.f3),
        }
    }

    pub fn get_roll(&self) -> (r: TrigramPattern)
        requires
            trigram_wf(*self),
            roll_spec(self.f1, self.f2, self.f3),
        ensures
            r == (if inroll_spec(self.f1, self.f2, self.f3) {
                TrigramPattern::Inroll
            } else {
                TrigramPattern::Outroll
            }),
    {
        match self.is_inroll() {
            true => TrigramPattern::Inroll,
            false => TrigramPattern::Outroll,
        }
    }

    pub fn on_one_hand(&self) -> (r: bool)
        requires
            trigram_wf(*self),
        ensures
            r == one_hand_spec(self.f1, self.f2, self.f3),
    {
        match (self.h1, self.h2, self.h3) {
            (Hand::Left, Hand::Left, Hand::Left) => true,
            (Hand::Right, Hand::Right, Hand::Right) => true,
            _ => false,
        }
    }

    pub fn is_redir(&self) -> (r: bool)
        requires
            trigram_wf(*self),
        ensures
            r == redir_spec(self.f1, self.f2, self.f3),
    {
        (self.f1.lt(self.f2) == self.f2.gt(self.f3)) && self.on_one_hand()
    }

    pub fn is_bad_redir(&self) -> (r: bool)
        requires
            trigram_wf(*self),
        ensures
            r == bad_redir_spec(self.f1, self.f2, self.f3),
    {
        self.is_redir() && self.f1.is_bad() && self.f2.is_bad() && self.f3.is_bad()
    }

    pub fn has_sfb(&self) -> (r: bool)
        ensures
            r == sfb_spec(self.f1, self.f2, self.f3),
    {
        self.f1.eq(self.f2) || self.f2.eq(self.f3)
    }

    pub fn is_sft(&self) -> (r: bool)
        ensures
            r == sft_spec(self.f1, self.f2, self.f3),
    {
        self.f1.eq(self.f2) && self.f2.eq(self.f3)
    }

    pub fn get_one_hand(&self) -> (r: TrigramPattern)
        requires
            trigram_wf(*self),
        ensures
            r == one_hand_pattern_spec(self.f1, self.f2, self.f3),
    {
        if self.is_sft() {
            TrigramPattern::Sft
        } else if self.has_sfb() {
            TrigramPattern::BadSfb
        } else if self.is_redir() {
            match (self.is_sfs(), self.is_bad_redir()) {
                (false, false) => TrigramPattern::Redirect,
                (false, true) => TrigramPattern::BadRedirect,
                (true, false) => TrigramPattern::RedirectSfs,
                (true, true) => TrigramPattern::BadRedirectSfs,
            }
        } else {
            TrigramPattern::Onehand
        }
    }

    pub fn get_trigram_pattern(&self) -> (r: TrigramPattern)
        requires
            trigram_wf(*self),
        ensures
            r == classify_spec(self.f1, self.f2, self.f3),
    {
        if self.is_alt() {
            self.get_alternate()
        } else if self.on_one_hand() {
            self.get_one_hand()
        } else if self.has_sfb() {
            TrigramPattern::Sfb
        } else if self.is_roll() {
            self.get_roll()
        } else {
            TrigramPattern::Other
        }
    }
}

/// Packing three finger ranks below 8 into one index and unpacking by
/// division and remainder are inverse to each other.
pub proof fn lemma_pack_unpack(a: int, b: int, c: int)
    requires
        0 <= a < 8,
        0 <= b < 8,
        0 <= c < 8,
    ensures
        (a * 64 + b * 8 + c) / 64 == a,
        ((a * 64 + b * 8 + c) / 8) % 8 == b,
        (a * 64 + b * 8 + c) % 8 == c,
{
    let i = a * 64 + b * 8 + c;
    assert(i / 64 == a && i % 64 == b * 8 + c) by (nonlinear_arith)
        requires
            i == a * 64 + b * 8 + c,
            0 <= b < 8,
            0 <= c < 8,
    ;
    assert(i / 8 == a * 8 + b && i % 8 == c) by (nonlinear_arith)
        requires
            i == a * 64 + b * 8 + c,
            0 <= c < 8,
    ;
    assert((a * 8 + b) % 8 == b) by (nonlinear_arith)
        requires
            0 <= b < 8,
    ;
}

/// Entry `i` of the classification table: the category of the finger triple
/// packed as `rank(f1)*64 + rank(f2)*8 + rank(f3)`.
pub open spec fn table_entry_spec(i: int) -> TrigramPattern {
    classify_spec(
        finger_from_rank(i / 64),
        finger_from_rank((i / 8) % 8),
        finger_from_rank(i % 8),
    )
}

/// Builds the full classification table: one entry for each of the 512
/// packed triples of the eight non-thumb fingers.
pub fn get_trigram_combinations() -> (r: Vec<TrigramPattern>)
    ensures
        r@.len() == 512,
        forall|i: int| 0 <= i < 512 ==> r@[i] == table_entry_spec(i),
{
    let mut combinations: Vec<TrigramPattern> = Vec::new();
    let mut c3: usize = 0;
    while c3 < 8
        invariant
            c3 <= 8,
            combinations@.len() == c3 * 64,
            forall|i: int| 0 <= i < combinations@.len() ==> combinations@[i] == table_entry_spec(i),
        decreases 8 - c3,
    {
        let mut c2: usize = 0;
        while c2 < 8
            invariant
                c3 < 8,
                c2 <= 8,
                combinations@.len() == c3 * 64 + c2 * 8,
                forall|i: int| 0 <= i < combinations@.len() ==> combinations@[i] == table_entry_spec(
                    i,
                ),
            decreases 8 - c2,
        {
            let mut c1: usize = 0;
            while c1 < 8
                invariant
                    c3 < 8,
                    c2 < 8,
                    c1 <= 8,
                    combinations@.len() == c3 * 64 + c2 * 8 + c1,
                    forall|i: int| 0 <= i < combinations@.len() ==> combinations@[i]
                        == table_entry_spec(i),
                decreases 8 - c1,
            {
                let trigram = Trigram::new(
                    Finger::from_usize(c3),
                    Finger::from_usize(c2),
                    Finger::from_usize(c1),
                );
                let pattern = trigram.get_trigram_pattern();
                proof {
                    lemma_pack_unpack(c3 as int, c2 as int, c1 as int);
                }
                combinations.push(pattern);
                c1 += 1;
            }
            c2 += 1;
        }
        c3 += 1;
    }
    combinations
}

} // verus!
