//! The search ranker: each hit scores `text_relevance + recency_bonus +
//! tag_bonus`, with `recency_bonus = 1 / (1 + age_hours)` and `tag_bonus =
//! 0.5 x matching_tags`, and hits are ordered by descending score, ties
//! broken by descending update time.
//!
//! Scores are exact rationals. Text relevance is carried in millionths of a
//! point; the recency bonus `1 / (1 + age_seconds / 3600)` is the rational
//! `3600 / (3600 + age_seconds)`; the tag bonus adds one half per matching
//! tag. Comparisons cross-multiply the exact numerators and denominators,
//! so no rounding ever reorders two hits.

use vstd::prelude::*;

verus! {

/// Score units per point: text relevance is measured in millionths.
pub const MICROS: i64 = 1_000_000;

/// Machine bound on text relevance, in millionths of a point (a million
/// points in either direction).
pub const TEXT_CAP: i64 = 1_000_000_000_000;

/// Machine bound on a document's age in seconds (about 31.7 years).
pub const AGE_CAP: i64 = 1_000_000_000;

/// Machine bound on the number of counted tag matches.
pub const TAG_CAP: u64 = 1_000_000;

/// The ranking key of one search hit. Within the machine bounds enforced by
/// [`HitKey::new`], comparisons are exact.
#[derive(Clone, Copy, Debug, PartialEq, Eq, Structural)]
pub struct HitKey {
    /// Text relevance in millionths of a point; may be negative.
    pub text_micros: i64,
    /// Seconds elapsed since the document was last updated, clamped to
    /// `[0, AGE_CAP]`; a future update time counts as age zero.
    pub age_secs: i64,
    /// Number of query terms that match one of the document's tags,
    /// clamped to `TAG_CAP`.
    pub tag_matches: u64,
    /// The document's update time, the tie breaker.
    pub updated_at: i64,
}

impl HitKey {
    /// The machine bounds under which comparison arithmetic is exact.
    pub open spec fn wf(self) -> bool {
        &&& -TEXT_CAP <= self.text_micros <= TEXT_CAP
        &&& 0 <= self.age_secs <= AGE_CAP
        &&& self.tag_matches <= TAG_CAP
    }

    /// Builds a ranking key, clamping each component into its machine
    /// bound: the text score into `[-TEXT_CAP, TEXT_CAP]`, the age into
    /// `[0, AGE_CAP]` (a future `updated_at` counts as age zero, as the
    /// ranking rule requires), and the tag count into `[0, TAG_CAP]`.
    pub fn new(text_micros: i64, updated_at: i64, now: i64, tag_matches: u64) -> (r: HitKey)
        ensures
            r.wf(),
            r.text_micros == clamp_text(text_micros as int),
            r.age_secs == clamp_age(now as int, updated_at as int),
            r.tag_matches == clamp_tags(tag_matches as int),
            r.updated_at == updated_at,
    {
        let text: i64 = if text_micros < -TEXT_CAP {
            -TEXT_CAP
        } else if text_micros > TEXT_CAP {
            TEXT_CAP
        } else {
            text_micros
        };
        let age_wide: i128 = (now as i128) - (updated_at as i128);
        let age: i64 = if age_wide < 0 {
            0
        } else if age_wide > AGE_CAP as i128 {
            AGE_CAP
        } else {
            age_wide as i64
        };
        let tags: u64 = if tag_matches > TAG_CAP {
            TAG_CAP
        } else {
            tag_matches
        };
        HitKey { text_micros: text, age_secs: age, tag_matches: tags, updated_at }
    }
}

/// `v` clamped into `[-TEXT_CAP, TEXT_CAP]`.
pub open spec fn clamp_text(v: int) -> int {
    if v < -TEXT_CAP {
        -TEXT_CAP as int
    } else if v > TEXT_CAP {
        TEXT_CAP as int
    } else {
        v
    }
}

/// The age `now - updated_at` clamped into `[0, AGE_CAP]`.
pub open spec fn clamp_age(now: int, updated_at: int) -> int {
    if now - updated_at < 0 {
        0
    } else if now - updated_at > AGE_CAP {
        AGE_CAP as int
    } else {
        now - updated_at
    }
}

/// `v` clamped into `[0, TAG_CAP]`.
pub open spec fn clamp_tags(v: int) -> int {
    if v > TAG_CAP {
        TAG_CAP as int
    } else {
        v
    }
}

/// One plus the age in hours, scaled to seconds: the recency bonus is the
/// rational `3600 / den_hours(k)`.
pub open spec fn den_hours(k: HitKey) -> int {
    3600 + k.age_secs
}

/// The numerator of the combined score of `k` over the denominator
/// [`score_den`]: the score is `text/10^6 + 3600/(3600+age) + tags/2`.
pub open spec fn score_num(k: HitKey) -> int {
    2 * den_hours(k) * k.text_micros + 2 * (MICROS as int) * 3600 + (MICROS as int) * den_hours(k)
        * k.tag_matches
}

/// The (positive) denominator of the combined score of `k`.
pub open spec fn score_den(k: HitKey) -> int {
    2 * (MICROS as int) * den_hours(k)
}

/// Exact comparison of combined scores: `a`'s score is strictly below
/// `b`'s.
pub open spec fn score_lt(a: HitKey, b: HitKey) -> bool {
    score_num(a) * score_den(b) < score_num(b) * score_den(a)
}

/// Exact equality of combined scores.
pub open spec fn score_eq(a: HitKey, b: HitKey) -> bool {
    score_num(a) * score_den(b) == score_num(b) * score_den(a)
}

/// The result order: `a` is ranked at or before `b` when `a`'s score is
/// strictly higher, or the scores are equal and `a` was updated no earlier.
pub open spec fn ranks_le(a: HitKey, b: HitKey) -> bool {
    score_lt(b, a) || (score_eq(a, b) && a.updated_at >= b.updated_at)
}

/// The exact score numerator of a key, within machine bounds.
fn score_num_exec(k: &HitKey) -> (r: i128)
    requires
        k.wf(),
    ensures
        r == score_num(*k),
        -3_100_000_000_000_000_000_000 <= r <= 3_100_000_000_000_000_000_000,
{
    let dh: i128 = 3600 + (k.age_secs as i128);
    let t: i128 = k.text_micros as i128;
    let g: i128 = k.tag_matches as i128;
    proof {
        assert(3600 <= dh <= 1_000_003_600);
        assert(-2_000_007_200_000_000_000_000 <= 2 * dh * t <= 2_000_007_200_000_000_000_000)
            by (nonlinear_arith)
            requires
                3600 <= dh <= 1_000_003_600,
                -1_000_000_000_000 <= t <= 1_000_000_000_000,
        {}
        assert(0 <= 1_000_000 * dh * g <= 1_000_003_600_000_000_000_000) by (nonlinear_arith)
            requires
                3600 <= dh <= 1_000_003_600,
                0 <= g <= 1_000_000,
        {}
    }
    2 * dh * t + 7_200_000_000 + 1_000_000 * dh * g
}

/// The exact (positive) score denominator of a key, within machine bounds.
fn score_den_exec(k: &HitKey) -> (r: i128)
    requires
        k.wf(),
    ensures
        r == score_den(*k),
        0 < r <= 3_000_000_000_000_000,
{
    2_000_000 * (3600 + (k.age_secs as i128))
}

/// Decides the result order between two keys by exact cross-multiplied
/// comparison of their scores.
pub fn rank_le(a: &HitKey, b: &HitKey) -> (r: bool)
    requires
        a.wf(),
        b.wf(),
    ensures
        r == ranks_le(*a, *b),
{
    let na = score_num_exec(a);
    let nb = score_num_exec(b);
    let pa = score_den_exec(a);
    let pb = score_den_exec(b);
    proof {
        assert(-10_000_000_000_000_000_000_000_000_000_000_000_000 <= na * pb
            <= 10_000_000_000_000_000_000_000_000_000_000_000_000) by (nonlinear_arith)
            requires
                -3_100_000_000_000_000_000_000 <= na <= 3_100_000_000_000_000_000_000,
                0 < pb <= 3_000_000_000_000_000,
        {}
        assert(-10_000_000_000_000_000_000_000_000_000_000_000_000 <= nb * pa
            <= 10_000_000_000_000_000_000_000_000_000_000_000_000) by (nonlinear_arith)
            requires
                -3_100_000_000_000_000_000_000 <= nb <= 3_100_000_000_000_000_000_000,
                0 < pa <= 3_000_000_000_000_000,
        {}
    }
    let x: i128 = na * pb;
    let y: i128 = nb * pa;
    if y < x {
        true
    } else if x == y {
        a.updated_at >= b.updated_at
    } else {
        false
    }
}


/// Text relevance from a raw text-ranking value, in millionths: a lower
/// raw rank means a stronger lexical match, so the sign is inverted before
/// the scores are combined, and the result is clamped into the machine
/// bound.
pub fn text_relevance_of(raw_micros: i64) -> (r: i64)
    ensures
        r == clamp_text(-(raw_micros as int)),
{
    if raw_micros <= -TEXT_CAP {
        TEXT_CAP
    } else if raw_micros >= TEXT_CAP {
        -TEXT_CAP
    } else {
        -raw_micros
    }
}

/// The result order is total: any two keys can be ordered.
pub proof fn lemma_ranks_le_total(a: HitKey, b: HitKey)
    requires
        a.wf(),
        b.wf(),
    ensures
        ranks_le(a, b) || ranks_le(b, a),
{
}

/// The result order is transitive.
pub proof fn lemma_ranks_le_trans(a: HitKey, b: HitKey, c: HitKey)
    requires
        a.wf(),
        b.wf(),
        c.wf(),
        ranks_le(a, b),
        ranks_le(b, c),
    ensures
        ranks_le(a, c),
{
    let na = score_num(a);
    let nb = score_num(b);
    let nc = score_num(c);
    let pa = score_den(a);
    let pb = score_den(b);
    let pc = score_den(c);
    assert(pa > 0 && pb > 0 && pc > 0);
    if score_lt(b, a) && score_lt(c, b) {
        assert(nc * pa < na * pc) by (nonlinear_arith)
            requires
                nb * pa < na * pb,
                nc * pb < nb * pc,
                pa > 0,
                pb > 0,
                pc > 0,
        {}
    } else if score_lt(b, a) && score_eq(b, c) {
        assert(nc * pa < na * pc) by (nonlinear_arith)
            requires
                nb * pa < na * pb,
                nb * pc == nc * pb,
                pa > 0,
                pb > 0,
                pc > 0,
        {}
    } else if score_eq(a, b) && score_lt(c, b) {
        assert(nc * pa < na * pc) by (nonlinear_arith)
            requires
                na * pb == nb * pa,
                nc * pb < nb * pc,
                pa > 0,
                pb > 0,
                pc > 0,
        {}
    } else {
        assert(score_eq(a, b) && score_eq(b, c));
        assert(na * pc == nc * pa) by (nonlinear_arith)
            requires
                na * pb == nb * pa,
                nb * pc == nc * pb,
                pa > 0,
                pb > 0,
                pc > 0,
        {}
        assert(score_eq(a, c));
    }
}

/// The numerator of the base score of `k` — text relevance plus recency
/// bonus, without the tag bonus — over the denominator [`score_den`].
pub open spec fn base_num(k: HitKey) -> int {
    2 * den_hours(k) * k.text_micros + 2 * (MICROS as int) * 3600
}

/// Search ranking: one extra matching tag outweighs any base-score deficit
/// smaller than the half-point tag bonus. When `a`'s combined text and
/// recency score trails `b`'s by less than one half, and `a` matches at
/// least one more tag, `a` ranks strictly above `b`.
pub proof fn lemma_tag_bonus_dominates(a: HitKey, b: HitKey)
    requires
        a.wf(),
        b.wf(),
        b.tag_matches + 1 <= a.tag_matches,
        2 * (base_num(b) * score_den(a) - base_num(a) * score_den(b)) < score_den(a) * score_den(
            b,
        ),
    ensures
        score_lt(b, a),
        ranks_le(a, b),
        !ranks_le(b, a),
{
    let da = den_hours(a);
    let db = den_hours(b);
    let ga = a.tag_matches as int;
    let gb = b.tag_matches as int;
    let ba = base_num(a);
    let bb = base_num(b);
    assert(score_num(a) == ba + 1_000_000 * da * ga);
    assert(score_num(b) == bb + 1_000_000 * db * gb);
    assert(score_den(a) == 2_000_000 * da);
    assert(score_den(b) == 2_000_000 * db);
    assert((bb + 1_000_000 * db * gb) * (2_000_000 * da) < (ba + 1_000_000 * da * ga) * (2_000_000
        * db)) by (nonlinear_arith)
        requires
            2 * (bb * (2_000_000 * da) - ba * (2_000_000 * db)) < (2_000_000 * da) * (2_000_000
                * db),
            gb + 1 <= ga,
            3600 <= da,
            3600 <= db,
            0 <= gb,
    {}
    assert(score_num(b) * score_den(a) < score_num(a) * score_den(b));
}

} // verus!
