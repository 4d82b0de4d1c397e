use context_store::rank::{rank_le, text_relevance_of, HitKey, AGE_CAP, TAG_CAP, TEXT_CAP};

const NOW: i64 = 1704067200;

#[test]
fn tag_bonus_outranks_small_recency_lead() {
    // Document A: tag matched, updated an hour ago. Document B: no tag
    // match, updated ten minutes ago. Same lexical rank. B's recency lead
    // (3600/4200 vs 3600/7200, a gain of about 0.357) is smaller than the
    // half-point tag bonus, so A ranks above B.
    let a = HitKey::new(0, NOW - 3600, NOW, 1);
    let b = HitKey::new(0, NOW - 600, NOW, 0);
    assert!(rank_le(&a, &b), "A must rank above B");
    assert!(!rank_le(&b, &a), "B must not rank above A");
}

#[test]
fn recency_orders_equal_text_and_tags() {
    let fresh = HitKey::new(0, NOW - 60, NOW, 0);
    let stale = HitKey::new(0, NOW - 7200, NOW, 0);
    assert!(rank_le(&fresh, &stale));
    assert!(!rank_le(&stale, &fresh));
}

#[test]
fn text_relevance_dominates_when_large() {
    // Two whole points of text relevance outweigh any recency difference,
    // whose bonus never exceeds one point.
    let relevant = HitKey::new(2_000_000, NOW - 7200, NOW, 0);
    let fresh = HitKey::new(0, NOW, NOW, 0);
    assert!(rank_le(&relevant, &fresh));
    assert!(!rank_le(&fresh, &relevant));
}

#[test]
fn ties_break_by_update_time() {
    let newer = HitKey::new(0, NOW - 100, NOW - 100 + 50, 0);
    let older = HitKey::new(0, NOW - 200, NOW - 200 + 50, 0);
    // Identical age (50 seconds), text and tags: the score is identical,
    // and the later update time wins.
    assert!(rank_le(&newer, &older));
    assert!(!rank_le(&older, &newer));

    let same = HitKey::new(0, NOW - 100, NOW - 50, 0);
    let twin = HitKey::new(0, NOW - 100, NOW - 50, 0);
    assert!(rank_le(&same, &twin));
    assert!(rank_le(&twin, &same));
}

#[test]
fn constructor_clamps_into_machine_bounds() {
    let k = HitKey::new(i64::MAX, i64::MIN, NOW, u64::MAX);
    assert_eq!(k.text_micros, TEXT_CAP);
    assert_eq!(k.age_secs, AGE_CAP);
    assert_eq!(k.tag_matches, TAG_CAP);

    let k = HitKey::new(i64::MIN, NOW + 1000, NOW, 0);
    assert_eq!(k.text_micros, -TEXT_CAP);
    // A future update time counts as age zero.
    assert_eq!(k.age_secs, 0);
    assert_eq!(k.tag_matches, 0);

    let k = HitKey::new(123, NOW - 42, NOW, 3);
    assert_eq!(k.text_micros, 123);
    assert_eq!(k.age_secs, 42);
    assert_eq!(k.tag_matches, 3);
    assert_eq!(k.updated_at, NOW - 42);
}

#[test]
fn half_point_exact_boundary() {
    // With identical update times and ages, one tag match adds exactly
    // half a point: it beats a 0.499999-point text lead and loses to a
    // 0.500001-point one.
    let tagged = HitKey::new(0, NOW - 60, NOW, 1);
    let slightly_relevant = HitKey::new(499_999, NOW - 60, NOW, 0);
    assert!(rank_le(&tagged, &slightly_relevant));
    assert!(!rank_le(&slightly_relevant, &tagged));

    let more_relevant = HitKey::new(500_001, NOW - 60, NOW, 0);
    assert!(rank_le(&more_relevant, &tagged));
    assert!(!rank_le(&tagged, &more_relevant));

    // At exactly half a point the scores tie, and the equal update time
    // makes the order mutual.
    let exactly = HitKey::new(500_000, NOW - 60, NOW, 0);
    assert!(rank_le(&exactly, &tagged));
    assert!(rank_le(&tagged, &exactly));
}

#[test]
fn raw_rank_sign_is_inverted() {
    // A lower raw rank is a stronger match: -2.5 raw beats +1.0 raw.
    assert_eq!(text_relevance_of(-2_500_000), 2_500_000);
    assert_eq!(text_relevance_of(1_000_000), -1_000_000);
    assert_eq!(text_relevance_of(0), 0);
    assert_eq!(text_relevance_of(i64::MIN), TEXT_CAP);
    assert_eq!(text_relevance_of(i64::MAX), -TEXT_CAP);
}
