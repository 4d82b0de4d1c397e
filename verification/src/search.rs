//! Search requests, hits, and the ranked-result machinery: which documents
//! a query matches, what ranking key each hit carries, and the sorted order
//! results come back in.
//!
//! The combined score has a text-relevance term for a raw lexical rank
//! supplied by a full-text engine. The in-memory table set has no such
//! engine — matching here is the boolean whole-word test — so every hit's
//! text term is zero and the order is decided by recency, tag bonus, and
//! update time alone.

use vstd::prelude::*;

use crate::doc::{Document, DocumentV};
use crate::rank::{clamp_age, clamp_tags, ranks_le, HitKey};
use crate::text::{chars_of, find_word, lower_char_exec, lower_seq, word_in};

verus! {

broadcast use vstd::seq_lib::group_to_multiset_ensures;

/// A search request: free text, an optional project restriction, and an
/// optional cap on the number of hits returned.
#[derive(Debug)]
pub struct SearchQuery {
    pub project: Option<String>,
    pub text: String,
    pub limit: Option<usize>,
}

/// One ranked search hit: the document and its ranking key.
#[derive(Debug)]
pub struct SearchHit {
    pub document: Document,
    pub rank: HitKey,
}

/// The tag lists of a document joined into one newline-separated text, part
/// of the indexed haystack.
pub open spec fn join_tags(tags: Seq<Seq<char>>) -> Seq<char>
    decreases tags.len(),
{
    if tags.len() == 0 {
        Seq::empty()
    } else {
        join_tags(tags.drop_last()) + seq!['\n'] + tags.last()
    }
}

/// The indexed text of a document: body, title and tags, separated by
/// newlines.
pub open spec fn hay_of(d: DocumentV) -> Seq<char> {
    d.body_markdown + (match d.title {
        Some(t) => seq!['\n'] + t,
        None => Seq::empty(),
    }) + join_tags(d.tags)
}

/// Whether the (lowercased) term equals one of the document's tags,
/// ignoring ASCII case.
pub open spec fn tag_matched(tags: Seq<Seq<char>>, term: Seq<char>) -> bool {
    exists|j: int| 0 <= j < tags.len() && lower_seq(#[trigger] tags[j]) == term
}

/// How many query terms case-insensitively equal one of the document's
/// tags.
pub open spec fn tag_match_count(terms: Seq<Seq<char>>, tags: Seq<Seq<char>>) -> int {
    terms.filter(|t: Seq<char>| tag_matched(tags, t)).len() as int
}

/// Whether a document answers the query: it is visible, belongs to the
/// requested project (when one is given), and every query term occurs as a
/// whole word in its indexed text. An empty query matches nothing.
pub open spec fn doc_matches(
    d: DocumentV,
    terms: Seq<Seq<char>>,
    project: Option<Seq<char>>,
    now: int,
) -> bool {
    &&& d.visible(now)
    &&& match project {
        Some(p) => d.project == p,
        None => true,
    }
    &&& terms.len() > 0
    &&& forall|k: int| 0 <= k < terms.len() ==> word_in(hay_of(d), #[trigger] terms[k])
}

/// The documents of `docs` that answer the query, in table order.
pub open spec fn matching_docs(
    docs: Seq<DocumentV>,
    terms: Seq<Seq<char>>,
    project: Option<Seq<char>>,
    now: int,
) -> Seq<DocumentV> {
    docs.filter(|d: DocumentV| doc_matches(d, terms, project, now))
}

/// The ranking key a matching document earns: no text-relevance component
/// (every full-text match counts the same here), the recency of its last
/// update, and its tag bonus.
pub open spec fn key_for(d: DocumentV, terms: Seq<Seq<char>>, now: int) -> HitKey {
    HitKey {
        text_micros: 0,
        age_secs: clamp_age(now, d.updated_at) as i64,
        tag_matches: clamp_tags(tag_match_count(terms, d.tags)) as u64,
        updated_at: d.updated_at as i64,
    }
}

/// Hits in result order: descending score, ties by descending update time.
pub open spec fn sorted_hits(s: Seq<SearchHit>) -> bool {
    forall|i: int, j: int|
        #![trigger s[i].rank, s[j].rank]
        0 <= i <= j < s.len() ==> ranks_le(s[i].rank, s[j].rank)
}

/// The documents carried by a sequence of hits.
pub open spec fn hit_docs(s: Seq<SearchHit>) -> Seq<DocumentV> {
    s.map_values(|h: SearchHit| h.document@)
}

/// What a full (untruncated) search result must be: sorted, every hit
/// carrying the ranking key its document earns, and carrying exactly the
/// matching documents, each exactly as often as it occurs in the table.
pub open spec fn search_results_ok(
    docs: Seq<DocumentV>,
    terms: Seq<Seq<char>>,
    project: Option<Seq<char>>,
    now: int,
    full: Seq<SearchHit>,
) -> bool {
    &&& sorted_hits(full)
    &&& forall|i: int|
        0 <= i < full.len() ==> (#[trigger] full[i]).rank == key_for(full[i].document@, terms, now)
            && doc_matches(full[i].document@, terms, project, now)
    &&& hit_docs(full).to_multiset() == matching_docs(docs, terms, project, now).to_multiset()
}

/// How many hits a result keeps: all of them, or the caller's limit.
pub open spec fn take_len(limit: Option<usize>, n: int) -> int {
    match limit {
        Some(l) => if l < n {
            l as int
        } else {
            n
        },
        None => n,
    }
}

/// Appends the characters of `s`.
fn push_chars(dst: &mut Vec<char>, s: &str)
    ensures
        final(dst)@ == old(dst)@ + s@,
{
    let chars = chars_of(s);
    let ghost base = dst@;
    let mut i: usize = 0;
    while i < chars.len()
        invariant
            0 <= i <= chars@.len(),
            chars@ == s@,
            dst@ == base + s@.subrange(0, i as int),
        decreases chars@.len() - i,
    {
        dst.push(chars[i]);
        assert(dst@ =~= base + s@.subrange(0, i + 1));
        i += 1;
    }
    assert(dst@ =~= base + s@);
}

/// Builds the indexed haystack of a document.
#[verifier::loop_isolation(false)]
pub fn build_hay_for(d: &Document) -> (r: Vec<char>)
    ensures
        r@ == hay_of(d@),
{
    let mut r = chars_of(d.body_markdown.as_str());
    match &d.title {
        Some(t) => {
            r.push('\n');
            push_chars(&mut r, t.as_str());
            assert(r@ =~= d.body_markdown@ + (seq!['\n'] + t@));
        },
        None => {
            assert(r@ =~= d.body_markdown@ + Seq::<char>::empty());
        },
    }
    let ghost head = r@;
    let ghost tagsv = d@.tags;
    let mut i: usize = 0;
    while i < d.tags.len()
        invariant
            0 <= i <= d.tags.len(),
            r@ == head + join_tags(tagsv.take(i as int)),
        decreases d.tags.len() - i,
    {
        r.push('\n');
        push_chars(&mut r, d.tags[i].as_str());
        proof {
            assert(tagsv.take(i + 1).drop_last() =~= tagsv.take(i as int));
            assert(tagsv.take(i + 1).last() == tagsv[i as int]);
            assert(join_tags(tagsv.take(i + 1)) == join_tags(tagsv.take(i as int)) + seq!['\n']
                + tagsv[i as int]);
            assert(tagsv[i as int] == d.tags@[i as int]@);
            assert(r@ =~= head + join_tags(tagsv.take(i + 1)));
        }
        i += 1;
    }
    proof {
        assert(tagsv.take(d.tags@.len() as int) =~= tagsv);
        assert(r@ =~= hay_of(d@));
    }
    r
}

/// Whether the tag equals the (lowercased) term, ignoring ASCII case.
#[verifier::loop_isolation(false)]
fn tag_equals(tag: &str, term: &Vec<char>) -> (r: bool)
    ensures
        r == (lower_seq(tag@) == term@),
{
    let tc = chars_of(tag);
    if tc.len() != term.len() {
        proof {
            assert(lower_seq(tag@).len() == tag@.len());
        }
        return false;
    }
    let mut i: usize = 0;
    while i < tc.len()
        invariant
            0 <= i <= tc@.len(),
            tc@ == tag@,
            tc@.len() == term@.len(),
            forall|m: int| 0 <= m < i ==> crate::text::lower_char(tag@[m]) == term@[m],
        decreases tc@.len() - i,
    {
        if lower_char_exec(tc[i]) != term[i] {
            proof {
                assert(lower_seq(tag@)[i as int] == crate::text::lower_char(tag@[i as int]));
            }
            return false;
        }
        i += 1;
    }
    proof {
        assert(lower_seq(tag@) =~= term@);
    }
    true
}

/// Counts the query terms that case-insensitively equal one of the tags.
#[verifier::loop_isolation(false)]
pub fn count_tag_matches_in(terms: &Vec<Vec<char>>, tags: &Vec<String>) -> (r: u64)
    ensures
        r as int == tag_match_count(
            terms@.map_values(|t: Vec<char>| t@),
            crate::doc::tags_view(tags@),
        ),
        r <= terms@.len(),
{
    broadcast use vstd::seq::Seq::lemma_filter_len_push;

    let ghost termsv = terms@.map_values(|t: Vec<char>| t@);
    let ghost tagsv = crate::doc::tags_view(tags@);
    let ghost pred = |t: Seq<char>| tag_matched(tagsv, t);
    let mut count: u64 = 0;
    let mut k: usize = 0;
    while k < terms.len()
        invariant
            0 <= k <= terms@.len(),
            termsv == terms@.map_values(|t: Vec<char>| t@),
            tagsv == crate::doc::tags_view(tags@),
            count as int == termsv.take(k as int).filter(pred).len(),
            count <= k,
            pred == (|t: Seq<char>| tag_matched(tagsv, t)),
        decreases terms@.len() - k,
    {
        let term = &terms[k];
        let mut matched = false;
        let mut j: usize = 0;
        while j < tags.len()
            invariant
                0 <= j <= tags@.len(),
                tagsv == crate::doc::tags_view(tags@),
                matched ==> tag_matched(tagsv, term@),
                !matched ==> forall|m: int| 0 <= m < j ==> lower_seq(tagsv[m]) != term@,
            decreases tags@.len() - j,
        {
            if tag_equals(tags[j].as_str(), term) {
                matched = true;
                proof {
                    assert(lower_seq(tagsv[j as int]) == term@);
                }
            }
            j += 1;
        }
        proof {
            assert(termsv[k as int] == term@);
            if matched {
                assert(pred(termsv[k as int]));
            } else {
                assert(!tag_matched(tagsv, term@));
                assert(!pred(termsv[k as int]));
            }
            assert(termsv.take(k + 1) =~= termsv.take(k as int).push(termsv[k as int]));
        }
        if matched {
            count += 1;
        }
        k += 1;
    }
    proof {
        assert(termsv.take(terms@.len() as int) =~= termsv);
    }
    count
}

/// Whether every query term occurs as a whole word in the haystack.
#[verifier::loop_isolation(false)]
pub fn all_terms_match_in(hay: &Vec<char>, terms: &Vec<Vec<char>>) -> (r: bool)
    ensures
        r == forall|k: int| 0 <= k < terms@.len() ==> word_in(hay@, (#[trigger] terms@[k])@),
{
    let ghost termsv = terms@.map_values(|t: Vec<char>| t@);
    let mut k: usize = 0;
    while k < terms.len()
        invariant
            0 <= k <= terms@.len(),
            termsv == terms@.map_values(|t: Vec<char>| t@),
            forall|m: int| 0 <= m < k ==> word_in(hay@, (#[trigger] terms@[m])@),
        decreases terms@.len() - k,
    {
        if !find_word(hay, &terms[k]) {
            assert(!word_in(hay@, terms@[k as int]@));
            return false;
        }
        k += 1;
    }
    true
}

/// Inserting an element anywhere in a sequence adds exactly it to the
/// sequence's multiset.
pub proof fn lemma_insert_to_multiset<A>(s: Seq<A>, p: int, x: A)
    requires
        0 <= p <= s.len(),
    ensures
        s.insert(p, x).to_multiset() == s.to_multiset().insert(x),
{
    broadcast use vstd::multiset::group_multiset_axioms;

    let t = s.insert(p, x);
    assert(t.remove(p) =~= s);
    assert(t[p] == x);
    assert(t.remove(p).to_multiset() == t.to_multiset().remove(x));
    assert(t.to_multiset().count(x) > 0);
    assert(t.to_multiset() =~= s.to_multiset().insert(x));
}

/// Two hit sequences with the same multiset carry the same documents, each
/// equally often.
pub proof fn lemma_hit_docs_permutation(s: Seq<SearchHit>, t: Seq<SearchHit>)
    requires
        s.to_multiset() == t.to_multiset(),
    ensures
        hit_docs(s).to_multiset() == hit_docs(t).to_multiset(),
    decreases s.len(),
{
    broadcast use vstd::multiset::group_multiset_axioms;

    if s.len() == 0 {
        assert(s.to_multiset().len() == 0);
        assert(t.len() == 0);
        assert(hit_docs(s) =~= Seq::<DocumentV>::empty());
        assert(hit_docs(t) =~= Seq::<DocumentV>::empty());
    } else {
        let x = s.last();
        assert(s =~= s.drop_last().push(x));
        assert(s.to_multiset() == s.drop_last().to_multiset().insert(x));
        assert(t.to_multiset().count(x) > 0);
        assert(t.contains(x));
        let j = choose|j: int| 0 <= j < t.len() && t[j] == x;
        assert(t.remove(j).to_multiset() == t.to_multiset().remove(x));
        assert(s.drop_last().to_multiset() =~= t.remove(j).to_multiset());
        lemma_hit_docs_permutation(s.drop_last(), t.remove(j));
    assert(hit_docs(s) =~= hit_docs(s.drop_last()).push(x.document@));
        assert(hit_docs(s).to_multiset() == hit_docs(s.drop_last()).to_multiset().insert(
            x.document@,
        ));
        assert(hit_docs(t).remove(j) =~= hit_docs(t.remove(j)));
        assert(hit_docs(t).remove(j).to_multiset() == hit_docs(t).to_multiset().remove(
            x.document@,
        )) by {
            assert(hit_docs(t)[j] == x.document@);
        }
        assert(hit_docs(t).to_multiset().count(x.document@) > 0) by {
            assert(hit_docs(t)[j] == x.document@);
            assert(hit_docs(t).contains(x.document@));
        }
        assert(hit_docs(s).to_multiset() =~= hit_docs(t).to_multiset());
    }
}

/// One more document appended to the table extends the match set with that
/// document exactly when it answers the query.
pub proof fn lemma_matching_push(
    docs: Seq<DocumentV>,
    d: DocumentV,
    terms: Seq<Seq<char>>,
    project: Option<Seq<char>>,
    now: int,
)
    ensures
        matching_docs(docs.push(d), terms, project, now) == if doc_matches(d, terms, project, now) {
            matching_docs(docs, terms, project, now).push(d)
        } else {
            matching_docs(docs, terms, project, now)
        },
{
    broadcast use vstd::seq::Seq::lemma_filter_push;

}

/// An empty query matches no document at all.
pub proof fn lemma_empty_query_matches_nothing(
    docs: Seq<DocumentV>,
    terms: Seq<Seq<char>>,
    project: Option<Seq<char>>,
    now: int,
)
    requires
        terms.len() == 0,
    ensures
        matching_docs(docs, terms, project, now).len() == 0,
{
    broadcast use vstd::seq::Seq::lemma_filter_pred;

    let m = matching_docs(docs, terms, project, now);
    if m.len() > 0 {
        assert(doc_matches(m[0], terms, project, now));
        assert(false);
    }
}


/// Soft delete and expiry, seen from search: a full result never carries a
/// soft-deleted or expired document, however the rest of the row looks.
pub proof fn lemma_search_excludes_invisible(
    docs: Seq<DocumentV>,
    terms: Seq<Seq<char>>,
    project: Option<Seq<char>>,
    now: int,
    full: Seq<SearchHit>,
)
    requires
        search_results_ok(docs, terms, project, now, full),
    ensures
        forall|i: int|
            0 <= i < full.len() ==> (#[trigger] full[i]).document@.visible(now)
                && full[i].document@.deleted_at is None && !full[i].document@.expired(now),
{
}

/// Sorts hits into result order: descending score, ties broken by
/// descending update time. The result holds exactly the same hits.
#[verifier::loop_isolation(false)]
pub fn sort_hits(hits: Vec<SearchHit>) -> (r: Vec<SearchHit>)
    requires
        forall|i: int| 0 <= i < hits@.len() ==> (#[trigger] hits@[i]).rank.wf(),
    ensures
        sorted_hits(r@),
        r@.to_multiset() == hits@.to_multiset(),
        forall|i: int| 0 <= i < r@.len() ==> hits@.contains(#[trigger] r@[i]),
{
    let ghost orig = hits@;
    let mut rest = hits;
    let mut out: Vec<SearchHit> = Vec::new();
    while rest.len() > 0
        invariant
            sorted_hits(out@),
            out@.to_multiset().add(rest@.to_multiset()) =~= orig.to_multiset(),
            forall|i: int| 0 <= i < out@.len() ==> (#[trigger] out@[i]).rank.wf(),
            forall|i: int| 0 <= i < rest@.len() ==> (#[trigger] rest@[i]).rank.wf(),
            forall|i: int| 0 <= i < out@.len() ==> orig.to_multiset().count(#[trigger] out@[i]) > 0,
            forall|i: int|
                0 <= i < rest@.len() ==> orig.to_multiset().count(#[trigger] rest@[i]) > 0,
        decreases rest@.len(),
    {
        let ghost rest0 = rest@;
        let h = rest.remove(rest.len() - 1);
        proof {
            broadcast use vstd::multiset::group_multiset_axioms;

            assert(rest0[rest0.len() - 1] == h);
            assert(rest0.contains(h));
            assert(rest0.to_multiset().count(h) > 0);
            assert(rest@.to_multiset() == rest0.to_multiset().remove(h));
            assert(rest0.to_multiset() =~= rest@.to_multiset().insert(h));
        }
        // Find the first position whose hit must come after `h`.
        let mut p: usize = 0;
        while p < out.len() && crate::rank::rank_le(&out[p].rank, &h.rank)
            invariant
                0 <= p <= out@.len(),
                h.rank.wf(),
                forall|m: int| 0 <= m < p ==> ranks_le((#[trigger] out@[m]).rank, h.rank),
            decreases out@.len() - p,
        {
            p += 1;
        }
        let ghost out0 = out@;
        proof {
            if p < out0.len() {
                assert(!ranks_le(out0[p as int].rank, h.rank));
                crate::rank::lemma_ranks_le_total(out0[p as int].rank, h.rank);
                assert(ranks_le(h.rank, out0[p as int].rank));
            }
        }
        out.insert(p, h);
        proof {
            assert(out@ == out0.insert(p as int, h));
            lemma_insert_to_multiset(out0, p as int, h);
            assert forall|i: int, j: int|
                #![trigger out@[i].rank, out@[j].rank]
                0 <= i <= j < out@.len() implies ranks_le(out@[i].rank, out@[j].rank) by {
                let n = out0.len() as int;
                if i < p && j < p {
                    assert(out@[i] == out0[i] && out@[j] == out0[j]);
                } else if i < p && j == p {
                    assert(out@[i] == out0[i] && out@[j] == h);
                } else if i < p && j > p {
                    assert(out@[i] == out0[i] && out@[j] == out0[j - 1]);
                } else if i == p && j == p {
                    assert(out@[i] == h && out@[j] == h);
                    crate::rank::lemma_ranks_le_total(h.rank, h.rank);
                } else if i == p && j > p {
                    assert(out@[i] == h && out@[j] == out0[j - 1]);
                    assert(ranks_le(h.rank, out0[p as int].rank));
                    assert(ranks_le(out0[p as int].rank, out0[j - 1].rank));
                    crate::rank::lemma_ranks_le_trans(h.rank, out0[p as int].rank, out0[j - 1].rank);
                } else {
                    assert(out@[i] == out0[i - 1] && out@[j] == out0[j - 1]);
                }
            }
        }
    }
    proof {
        assert(rest@.to_multiset().len() == 0);
        assert(out@.to_multiset() =~= orig.to_multiset());
        assert forall|i: int| 0 <= i < out@.len() implies orig.contains(#[trigger] out@[i]) by {
            assert(orig.to_multiset().count(out@[i]) > 0);
        }
    }
    out
}

} // verus!
