//! The versioned document store: transactional put, keyed lookup, and the
//! invariants that hold the table set together.
//!
//! The store keeps three relations: the live documents (at most one row per
//! id), the append-only version history (one row per put), and the known
//! projects. Every mutation either applies completely or leaves the store
//! unchanged.

use vstd::prelude::*;

use crate::doc::{
    clone_tags, opt_int, opt_view, str_eq, opt_str_eq, tags_view, Document, DocumentV, SourceType,
};
use crate::error::StoreError;
use crate::rank::HitKey;
use crate::search::{
    all_terms_match_in, build_hay_for, count_tag_matches_in, doc_matches, hit_docs, key_for,
    lemma_empty_query_matches_nothing, lemma_hit_docs_permutation, lemma_matching_push,
    matching_docs, search_results_ok, sort_hits, take_len, SearchHit, SearchQuery,
};
use crate::text::terms_of;

verus! {

broadcast use vstd::seq_lib::group_to_multiset_ensures;

/// One immutable row of the version history, carrying the field values the
/// live row had at the moment of the put that created it.
#[derive(Debug)]
pub struct VersionRow {
    pub document_id: String,
    pub version: u64,
    pub title: Option<String>,
    pub tags: Vec<String>,
    pub body_markdown: String,
    pub namespace: Option<String>,
    pub key: Option<String>,
    pub source: SourceType,
    pub ttl_seconds: Option<i64>,
    pub deleted_at: Option<i64>,
}

/// The mathematical value of a version row.
#[verifier::ext_equal]
pub ghost struct VersionRowV {
    pub document_id: Seq<char>,
    pub version: int,
    pub title: Option<Seq<char>>,
    pub tags: Seq<Seq<char>>,
    pub body_markdown: Seq<char>,
    pub namespace: Option<Seq<char>>,
    pub key: Option<Seq<char>>,
    pub source: SourceType,
    pub ttl_seconds: Option<int>,
    pub deleted_at: Option<int>,
}

impl View for VersionRow {
    type V = VersionRowV;

    open spec fn view(&self) -> VersionRowV {
        VersionRowV {
            document_id: self.document_id@,
            version: self.version as int,
            title: opt_view(self.title),
            tags: tags_view(self.tags@),
            body_markdown: self.body_markdown@,
            namespace: opt_view(self.namespace),
            key: opt_view(self.key),
            source: self.source,
            ttl_seconds: opt_int(self.ttl_seconds),
            deleted_at: opt_int(self.deleted_at),
        }
    }
}

/// The version-history row recorded by a put of document `d`.
pub open spec fn version_row_of(d: DocumentV) -> VersionRowV {
    VersionRowV {
        document_id: d.id,
        version: d.version,
        title: d.title,
        tags: d.tags,
        body_markdown: d.body_markdown,
        namespace: d.namespace,
        key: d.key,
        source: d.source,
        ttl_seconds: d.ttl_seconds,
        deleted_at: d.deleted_at,
    }
}

/// The mathematical state of the store: live rows, version history, and
/// known projects.
#[verifier::ext_equal]
pub ghost struct StoreV {
    pub docs: Seq<DocumentV>,
    pub versions: Seq<VersionRowV>,
    pub projects: Seq<Seq<char>>,
}

impl StoreV {
    /// Well-formedness: live rows have distinct ids, the project table has
    /// no duplicates, and every live row's project is known.
    pub open spec fn wf(self) -> bool {
        &&& forall|i: int, j: int|
            #![trigger self.docs[i].id, self.docs[j].id]
            0 <= i < j < self.docs.len() ==> self.docs[i].id != self.docs[j].id
        &&& forall|i: int, j: int|
            #![trigger self.projects[i], self.projects[j]]
            0 <= i < j < self.projects.len() ==> self.projects[i] != self.projects[j]
        &&& forall|i: int|
            0 <= i < self.docs.len() ==> self.projects.contains(#[trigger] self.docs[i].project)
    }

    /// Whether some live row already carries this id.
    pub open spec fn has_live(self, id: Seq<char>) -> bool {
        exists|i: int| 0 <= i < self.docs.len() && self.docs[i].id == id
    }

    /// The index of the live row with this id, when one exists.
    pub open spec fn live_index(self, id: Seq<char>) -> int {
        choose|i: int| 0 <= i < self.docs.len() && self.docs[i].id == id
    }

    /// A put of `d` at `now` is rejected when another live document (a
    /// different id) holds the same `(project, key)` and is visible: the
    /// uniqueness invariant over visible documents would break.
    pub open spec fn key_conflict(self, d: DocumentV, now: int) -> bool {
        d.key is Some && exists|i: int|
            0 <= i < self.docs.len() && (#[trigger] self.docs[i]).id != d.id
                && self.docs[i].project == d.project && self.docs[i].key == d.key
                && self.docs[i].visible(now)
    }

    /// The live table after upserting `d`: the row with `d`'s id is
    /// replaced, or a new row is appended.
    pub open spec fn upsert_docs(self, d: DocumentV) -> Seq<DocumentV> {
        if self.has_live(d.id) {
            self.docs.update(self.live_index(d.id), d)
        } else {
            self.docs.push(d)
        }
    }

    /// The store after a successful put of `d`: project ensured, live row
    /// upserted, one row appended to the version history.
    pub open spec fn put_state(self, d: DocumentV) -> StoreV {
        StoreV {
            docs: self.upsert_docs(d),
            versions: self.versions.push(version_row_of(d)),
            projects: if self.projects.contains(d.project) {
                self.projects
            } else {
                self.projects.push(d.project)
            },
        }
    }

    /// Whether the live row at index `i` answers a lookup of `(project,
    /// key)` at time `now`.
    pub open spec fn answers(self, i: int, project: Seq<char>, key: Seq<char>, now: int) -> bool {
        &&& 0 <= i < self.docs.len()
        &&& self.docs[i].project == project
        &&& self.docs[i].key == Some(key)
        &&& self.docs[i].visible(now)
    }

    /// What a lookup of `(project, key)` at `now` returns: the single
    /// visible match, `None` when there is none, and a fatal constraint
    /// violation when more than one visible row matches.
    pub open spec fn get_spec(self, project: Seq<char>, key: Seq<char>, now: int) -> Result<
        Option<DocumentV>,
        StoreError,
    > {
        if exists|i: int, j: int|
            i != j && self.answers(i, project, key, now) && self.answers(j, project, key, now) {
            Err(StoreError::ConstraintViolation)
        } else if exists|i: int| self.answers(i, project, key, now) {
            Ok(Some(self.docs[choose|i: int| self.answers(i, project, key, now)]))
        } else {
            Ok(None)
        }
    }

    /// The number of version-history rows recorded for `id`.
    pub open spec fn version_count(self, id: Seq<char>) -> nat {
        self.versions.filter(|v: VersionRowV| v.document_id == id).len()
    }
}

/// The versioned document store over an in-memory table set.
#[derive(Debug)]
pub struct Store {
    docs: Vec<Document>,
    versions: Vec<VersionRow>,
    projects: Vec<String>,
}

impl View for Store {
    type V = StoreV;

    closed spec fn view(&self) -> StoreV {
        StoreV {
            docs: Seq::new(self.docs@.len(), |i: int| self.docs@[i]@),
            versions: Seq::new(self.versions@.len(), |i: int| self.versions@[i]@),
            projects: Seq::new(self.projects@.len(), |i: int| self.projects@[i]@),
        }
    }
}

/// Whether `d` is visible at `now`: not soft-deleted and not expired.
pub fn visible_at(d: &Document, now: i64) -> (r: bool)
    ensures
        r == d@.visible(now as int),
{
    if d.deleted_at.is_some() {
        return false;
    }
    match d.ttl_seconds {
        Some(ttl) => (now as i128) < (d.created_at as i128) + (ttl as i128),
        None => true,
    }
}

fn version_row_for(d: &Document) -> (r: VersionRow)
    ensures
        r@ == version_row_of(d@),
{
    let r = VersionRow {
        document_id: d.id.0.clone(),
        version: d.version,
        title: match &d.title {
            Some(t) => Some(t.clone()),
            None => None,
        },
        tags: clone_tags(&d.tags),
        body_markdown: d.body_markdown.clone(),
        namespace: match &d.namespace {
            Some(n) => Some(n.clone()),
            None => None,
        },
        key: match &d.key {
            Some(k) => Some(k.clone()),
            None => None,
        },
        source: d.source,
        ttl_seconds: d.ttl_seconds,
        deleted_at: d.deleted_at,
    };
    proof {
        assert(r@ == version_row_of(d@));
    }
    r
}

impl Store {
    /// Opens an empty store: no documents, no history, no projects. The
    /// schema setup the persistent backend would run at construction has no
    /// in-memory counterpart.
    pub fn new() -> (r: Store)
        ensures
            r@.docs.len() == 0,
            r@.versions.len() == 0,
            r@.projects.len() == 0,
            r@.wf(),
    {
        Store { docs: Vec::new(), versions: Vec::new(), projects: Vec::new() }
    }

    /// Stores or updates a document, as one atomic transition.
    ///
    /// When another visible live document already holds the same `(project,
    /// key)`, the put fails with a constraint violation and the store is
    /// unchanged. Otherwise the project row is ensured, the live row is
    /// upserted (replaced when the id exists, appended when it does not),
    /// one row is appended to the version history with the same field
    /// values, and the stored document is handed back. The store persists
    /// exactly what it is passed: version numbers are the caller's.
    #[verifier::loop_isolation(false)]
    pub fn put(&mut self, doc: Document, now: i64) -> (r: Result<Document, StoreError>)
        requires
            old(self)@.wf(),
        ensures
            final(self)@.wf(),
            old(self)@.key_conflict(doc@, now as int) ==> r == Err::<Document, StoreError>(
                StoreError::ConstraintViolation,
            ) && final(self)@ == old(self)@,
            !old(self)@.key_conflict(doc@, now as int) ==> final(self)@ == old(self)@.put_state(
                doc@,
            ) && (r matches Ok(d) && d@ == doc@),
    {
        let ghost pre = self@;
        // Reject a put that would leave two visible documents sharing one
        // (project, key): the uniqueness invariant is enforced here, at the
        // storage layer.
        if doc.key.is_some() {
            let mut i: usize = 0;
            while i < self.docs.len()
                invariant
                    0 <= i <= self.docs.len(),
                    self@ == pre,
                    forall|j: int|
                        0 <= j < i ==> !((#[trigger] pre.docs[j]).id != doc@.id
                            && pre.docs[j].project == doc@.project && pre.docs[j].key == doc@.key
                            && pre.docs[j].visible(now as int)),
                decreases self.docs.len() - i,
            {
                let d = &self.docs[i];
                if !str_eq(d.id.0.as_str(), doc.id.0.as_str()) && str_eq(
                    d.project.as_str(),
                    doc.project.as_str(),
                ) && opt_str_eq(&d.key, &doc.key) && visible_at(d, now) {
                    proof {
                        assert(pre.docs[i as int].id != doc@.id && pre.docs[i as int].project
                            == doc@.project && pre.docs[i as int].key == doc@.key
                            && pre.docs[i as int].visible(now as int));
                        assert(pre.key_conflict(doc@, now as int));
                    }
                    return Err(StoreError::ConstraintViolation);
                }
                i += 1;
            }
        }
        assert(!pre.key_conflict(doc@, now as int));

        // Ensure the project row exists (idempotent insert-if-absent).
        let mut have_project = false;
        let mut i: usize = 0;
        while i < self.projects.len()
            invariant
                0 <= i <= self.projects.len(),
                self@ == pre,
                have_project ==> pre.projects.contains(doc@.project),
                !have_project ==> forall|j: int| 0 <= j < i ==> pre.projects[j] != doc@.project,
            decreases self.projects.len() - i,
        {
            if str_eq(self.projects[i].as_str(), doc.project.as_str()) {
                have_project = true;
                proof {
                    assert(pre.projects[i as int] == doc@.project);
                    assert(pre.projects.contains(doc@.project));
                }
            }
            i += 1;
        }
        if !have_project {
            assert(!pre.projects.contains(doc@.project));
            self.projects.push(doc.project.clone());
        }
        assert(self@.projects =~= pre.put_state(doc@).projects);

        // Append the version-history row carrying the same field values.
        self.versions.push(version_row_for(&doc));
        assert(self@.versions =~= pre.put_state(doc@).versions);

        // Upsert the live row: replace by id, or append.
        let stored = doc.clone();
        let ghost docv = doc@;
        let mut i: usize = 0;
        while i < self.docs.len()
            invariant
                0 <= i <= self.docs.len(),
                self@.docs == pre.docs,
                self@.versions == pre.put_state(docv).versions,
                self@.projects == pre.put_state(docv).projects,
                stored@ == docv,
                forall|j: int| 0 <= j < i ==> (#[trigger] pre.docs[j]).id != docv.id,
            decreases self.docs.len() - i,
        {
            if str_eq(self.docs[i].id.0.as_str(), doc.id.0.as_str()) {
                proof {
                    assert(pre.docs[i as int].id == docv.id);
                    assert(pre.has_live(docv.id));
                    let li = pre.live_index(docv.id);
                    assert(0 <= li < pre.docs.len() && pre.docs[li].id == docv.id);
                    if li < i as int {
                        assert(pre.docs[li].id != pre.docs[i as int].id);
                        assert(false);
                    } else if li > i as int {
                        assert(pre.docs[i as int].id != pre.docs[li].id);
                        assert(false);
                    }
                    assert(pre.live_index(docv.id) == i as int);
                }
                self.docs.set(i, stored);
                assert(self@.docs =~= pre.upsert_docs(docv));
                proof {
                    lemma_put_wf(pre, docv, now as int);
                    assert(self@.docs =~= pre.put_state(docv).docs);
                    assert(self@.versions =~= pre.put_state(docv).versions);
                    assert(self@.projects =~= pre.put_state(docv).projects);
                    assert(self@ =~= pre.put_state(docv));
                }
                return Ok(doc);
            }
            i += 1;
        }
        assert(!pre.has_live(docv.id));
        self.docs.push(stored);
        assert(self@.docs =~= pre.upsert_docs(docv));
        proof {
            lemma_put_wf(pre, docv, now as int);
            assert(self@.docs =~= pre.put_state(docv).docs);
            assert(self@.versions =~= pre.put_state(docv).versions);
            assert(self@.projects =~= pre.put_state(docv).projects);
            assert(self@ =~= pre.put_state(docv));
        }
        Ok(doc)
    }


    /// Full-text search, ranked.
    ///
    /// The query text is split into lowercased terms; a document answers
    /// the query when it is visible at `now`, belongs to the requested
    /// project (when one is given), and every term occurs as a whole word
    /// in its body, title or tags. Hits carry their exact ranking key and
    /// come back ordered by descending combined score, ties broken by
    /// descending update time; `limit` keeps only the top of that order.
    /// An empty query matches nothing, and no limit means all matches.
    #[verifier::loop_isolation(false)]
    pub fn search(&self, query: &SearchQuery, now: i64) -> (r: Vec<SearchHit>)
        ensures
            exists|full: Seq<SearchHit>|
                {
                    &&& #[trigger] search_results_ok(
                        self@.docs,
                        terms_of(query.text@),
                        opt_view(query.project),
                        now as int,
                        full,
                    )
                    &&& r@ == full.take(take_len(query.limit, full.len() as int))
                },
    {
        let ghost sv = self@;
        let ghost termsv = terms_of(query.text@);
        let ghost proj = opt_view(query.project);
        let terms = crate::text::tokenize(query.text.as_str());
        proof {
            assert(terms@.map_values(|t: Vec<char>| t@) == termsv);
            assert(terms@.len() == termsv.len());
        }
        if terms.len() == 0 {
            let r: Vec<SearchHit> = Vec::new();
            proof {
                broadcast use vstd::multiset::lemma_multiset_empty_len;

                lemma_empty_query_matches_nothing(sv.docs, termsv, proj, now as int);
                let full = Seq::<SearchHit>::empty();
                assert(hit_docs(full) =~= Seq::<DocumentV>::empty());
                assert(hit_docs(full).to_multiset().len() == 0);
                assert(matching_docs(sv.docs, termsv, proj, now as int).to_multiset().len() == 0);
                assert(hit_docs(full).to_multiset() == matching_docs(
                    sv.docs,
                    termsv,
                    proj,
                    now as int,
                ).to_multiset());
                assert(search_results_ok(sv.docs, termsv, proj, now as int, full));
                assert(r@ =~= full.take(take_len(query.limit, 0)));
            }
            return r;
        }
        let mut hits: Vec<SearchHit> = Vec::new();
        let mut i: usize = 0;
        while i < self.docs.len()
            invariant
                0 <= i <= self.docs.len(),
                self@ == sv,
                terms@.map_values(|t: Vec<char>| t@) == termsv,
                hit_docs(hits@) == matching_docs(sv.docs.take(i as int), termsv, proj, now as int),
                forall|j: int|
                    0 <= j < hits@.len() ==> (#[trigger] hits@[j]).rank == key_for(
                        hits@[j].document@,
                        termsv,
                        now as int,
                    ) && doc_matches(hits@[j].document@, termsv, proj, now as int)
                        && hits@[j].rank.wf(),
            decreases self.docs.len() - i,
        {
            let d = &self.docs[i];
            let ghost dv = sv.docs[i as int];
            let project_ok = match &query.project {
                Some(p) => str_eq(d.project.as_str(), p.as_str()),
                None => true,
            };
            let ghost hits0 = hits@;
            if project_ok && visible_at(d, now) {
                let hay = build_hay_for(d);
                if all_terms_match_in(&hay, &terms) {
                    proof {
                        assert forall|k: int| 0 <= k < termsv.len() implies crate::text::word_in(
                            crate::search::hay_of(dv),
                            #[trigger] termsv[k],
                        ) by {
                            assert(termsv[k] == terms@[k]@);
                        }
                        assert(doc_matches(dv, termsv, proj, now as int));
                    }
                    let g = count_tag_matches_in(&terms, &d.tags);
                    let key = HitKey::new(0, d.updated_at, now, g);
                    let hit = SearchHit { document: d.clone(), rank: key };
                    proof {
                        assert(key == key_for(dv, termsv, now as int));
                    }
                    hits.push(hit);
                    proof {
                        assert(hit_docs(hits@) =~= hit_docs(hits0).push(dv));
                    }
                } else {
                    proof {
                        let k = choose|k: int|
                            0 <= k < terms@.len() && !crate::text::word_in(
                                hay@,
                                (#[trigger] terms@[k])@,
                            );
                        assert(termsv[k] == terms@[k]@);
                        assert(!doc_matches(dv, termsv, proj, now as int));
                    }
                }
            } else {
                proof {
                    assert(!doc_matches(dv, termsv, proj, now as int));
                }
            }
            proof {
                assert(sv.docs.take(i + 1) =~= sv.docs.take(i as int).push(dv));
                lemma_matching_push(sv.docs.take(i as int), dv, termsv, proj, now as int);
                assert(hit_docs(hits@) == matching_docs(sv.docs.take(i + 1), termsv, proj,
                now as int));
            }
            i += 1;
        }
        proof {
            assert(sv.docs.take(sv.docs.len() as int) =~= sv.docs);
        }
        let ghost hits_g = hits@;
        let sorted = sort_hits(hits);
        let ghost full = sorted@;
        proof {
            lemma_hit_docs_permutation(full, hits_g);
            assert forall|j: int|
                0 <= j < full.len() implies (#[trigger] full[j]).rank == key_for(
                full[j].document@,
                termsv,
                now as int,
            ) && doc_matches(full[j].document@, termsv, proj, now as int) by {
                assert(hits_g.contains(full[j]));
                let w = choose|w: int| 0 <= w < hits_g.len() && hits_g[w] == full[j];
                assert(hits_g[w].rank == key_for(hits_g[w].document@, termsv, now as int));
            }
            assert(search_results_ok(sv.docs, termsv, proj, now as int, full));
        }
        match query.limit {
            Some(l) => {
                let mut out = sorted;
                if l < out.len() {
                    out.truncate(l);
                    proof {
                        assert(out@ == full.take(take_len(query.limit, full.len() as int)));
                    }
                } else {
                    proof {
                        assert(full.take(full.len() as int) =~= full);
                    }
                }
                out
            },
            None => {
                proof {
                    assert(full.take(full.len() as int) =~= full);
                }
                sorted
            },
        }
    }


    /// How many version-history rows this document id has accumulated.
    #[verifier::loop_isolation(false)]
    pub fn version_count(&self, id: &str) -> (r: usize)
        ensures
            r == self@.version_count(id@),
    {
        broadcast use vstd::seq::Seq::lemma_filter_len_push;

        let ghost sv = self@;
        let ghost pred = |v: VersionRowV| v.document_id == id@;
        let mut count: usize = 0;
        let mut i: usize = 0;
        while i < self.versions.len()
            invariant
                0 <= i <= self.versions@.len(),
                self@ == sv,
                count as int == sv.versions.take(i as int).filter(pred).len(),
                count <= i,
                pred == (|v: VersionRowV| v.document_id == id@),
            decreases self.versions@.len() - i,
        {
            let matches = str_eq(self.versions[i].document_id.as_str(), id);
            proof {
                assert(sv.versions.take(i + 1) =~= sv.versions.take(i as int).push(
                    sv.versions[i as int],
                ));
                if matches {
                    assert(pred(sv.versions[i as int]));
                } else {
                    assert(!pred(sv.versions[i as int]));
                }
            }
            if matches {
                count += 1;
            }
            i += 1;
        }
        proof {
            assert(sv.versions.take(sv.versions.len() as int) =~= sv.versions);
            assert(sv.versions.filter(pred) == sv.versions.filter(
                |v: VersionRowV| v.document_id == id@,
            ));
        }
        count
    }

    /// Looks up the single visible document with this `(project, key)`.
    ///
    /// Returns `None` when no visible row matches, the document when
    /// exactly one does, and a constraint violation — a fatal sign of a
    /// broken store invariant — when more than one visible row matches.
    #[verifier::loop_isolation(false)]
    pub fn get_by_key(&self, project: &str, key: &str, now: i64) -> (r: Result<
        Option<Document>,
        StoreError,
    >)
        ensures
            match r {
                Ok(None) => self@.get_spec(project@, key@, now as int) == Ok::<
                    Option<DocumentV>,
                    StoreError,
                >(None),
                Ok(Some(d)) => self@.get_spec(project@, key@, now as int) == Ok::<
                    Option<DocumentV>,
                    StoreError,
                >(Some(d@)),
                Err(e) => self@.get_spec(project@, key@, now as int) == Err::<
                    Option<DocumentV>,
                    StoreError,
                >(e),
            },
    {
        let ghost sv = self@;
        let mut found: Option<Document> = None;
        let ghost found_at: int = 0;
        let mut i: usize = 0;
        while i < self.docs.len()
            invariant
                0 <= i <= self.docs.len(),
                self@ == sv,
                match found {
                    None => forall|j: int| 0 <= j < i ==> !sv.answers(j, project@, key@, now as int),
                    Some(d) => {
                        &&& 0 <= found_at < i
                        &&& sv.answers(found_at, project@, key@, now as int)
                        &&& d@ == sv.docs[found_at]
                        &&& forall|j: int|
                            0 <= j < i && j != found_at ==> !sv.answers(
                                j,
                                project@,
                                key@,
                                now as int,
                            )
                    },
                },
            decreases self.docs.len() - i,
        {
            let d = &self.docs[i];
            let key_matches = match &d.key {
                Some(k) => str_eq(k.as_str(), key),
                None => false,
            };
            if str_eq(d.project.as_str(), project) && key_matches && visible_at(d, now) {
                assert(sv.answers(i as int, project@, key@, now as int));
                if found.is_some() {
                    assert(sv.get_spec(project@, key@, now as int) == Err::<
                        Option<DocumentV>,
                        StoreError,
                    >(StoreError::ConstraintViolation));
                    return Err(StoreError::ConstraintViolation);
                }
                found = Some(d.clone());
                proof {
                    found_at = i as int;
                }
            }
            i += 1;
        }
        match found {
            None => {
                assert(sv.get_spec(project@, key@, now as int) == Ok::<
                    Option<DocumentV>,
                    StoreError,
                >(None));
                Ok(None)
            },
            Some(d) => {
                proof {
                    let c = choose|i: int| sv.answers(i, project@, key@, now as int);
                    assert(sv.answers(c, project@, key@, now as int));
                    assert(c == found_at);
                }
                Ok(Some(d))
            },
        }
    }
}



/// The storage capability set over documents: durable put, keyed lookup,
/// and ranked search. The in-memory table set implements it; an
/// alternative backend can stand in wherever only these operations and
/// their contracts are relied on.
pub trait Storage {
    /// The mathematical state of the backend.
    spec fn state(&self) -> StoreV;

    /// Stores or updates a document, as one atomic transition; see
    /// [`Store::put`].
    fn put(&mut self, doc: Document, now: i64) -> (r: Result<Document, StoreError>)
        requires
            old(self).state().wf(),
        ensures
            final(self).state().wf(),
            old(self).state().key_conflict(doc@, now as int) ==> r == Err::<Document, StoreError>(
                StoreError::ConstraintViolation,
            ) && final(self).state() == old(self).state(),
            !old(self).state().key_conflict(doc@, now as int) ==> final(self).state() == old(
                self,
            ).state().put_state(doc@) && (r matches Ok(d) && d@ == doc@),
    ;

    /// Looks up the single visible document with this `(project, key)`;
    /// see [`Store::get_by_key`].
    fn get_by_key(&self, project: &str, key: &str, now: i64) -> (r: Result<
        Option<Document>,
        StoreError,
    >)
        ensures
            match r {
                Ok(None) => self.state().get_spec(project@, key@, now as int) == Ok::<
                    Option<DocumentV>,
                    StoreError,
                >(None),
                Ok(Some(d)) => self.state().get_spec(project@, key@, now as int) == Ok::<
                    Option<DocumentV>,
                    StoreError,
                >(Some(d@)),
                Err(e) => self.state().get_spec(project@, key@, now as int) == Err::<
                    Option<DocumentV>,
                    StoreError,
                >(e),
            },
    ;

    /// Full-text search, ranked and truncated; see [`Store::search`].
    fn search(&self, query: &SearchQuery, now: i64) -> (r: Vec<SearchHit>)
        ensures
            exists|full: Seq<SearchHit>|
                {
                    &&& #[trigger] search_results_ok(
                        self.state().docs,
                        terms_of(query.text@),
                        opt_view(query.project),
                        now as int,
                        full,
                    )
                    &&& r@ == full.take(take_len(query.limit, full.len() as int))
                },
    ;
}

impl Storage for Store {
    open spec fn state(&self) -> StoreV {
        self@
    }

    fn put(&mut self, doc: Document, now: i64) -> (r: Result<Document, StoreError>) {
        Store::put(self, doc, now)
    }

    fn get_by_key(&self, project: &str, key: &str, now: i64) -> (r: Result<
        Option<Document>,
        StoreError,
    >) {
        Store::get_by_key(self, project, key, now)
    }

    fn search(&self, query: &SearchQuery, now: i64) -> (r: Vec<SearchHit>) {
        let r = Store::search(self, query, now);
        proof {
            let full = choose|full: Seq<SearchHit>|
                {
                    &&& #[trigger] search_results_ok(
                        self@.docs,
                        terms_of(query.text@),
                        opt_view(query.project),
                        now as int,
                        full,
                    )
                    &&& r@ == full.take(take_len(query.limit, full.len() as int))
                };
            assert(search_results_ok(
                self.state().docs,
                terms_of(query.text@),
                opt_view(query.project),
                now as int,
                full,
            ));
        }
        r
    }
}

/// At most one visible live document holds `(project, key)` at `now`.
pub open spec fn key_unique(s: StoreV, project: Seq<char>, key: Seq<char>, now: int) -> bool {
    forall|i: int, j: int|
        s.answers(i, project, key, now) && s.answers(j, project, key, now) ==> i == j
}

/// The index at which a put of `d` leaves its live row.
pub open spec fn put_index(s: StoreV, d: DocumentV) -> int {
    if s.has_live(d.id) {
        s.live_index(d.id)
    } else {
        s.docs.len() as int
    }
}

/// After a put of `d`, the live row with `d`'s id is exactly `d`, and every
/// other live row is unchanged.
pub proof fn lemma_put_live(s: StoreV, d: DocumentV)
    requires
        s.wf(),
    ensures
        0 <= put_index(s, d) < s.put_state(d).docs.len(),
        s.put_state(d).docs[put_index(s, d)] == d,
        forall|j: int|
            0 <= j < s.put_state(d).docs.len() && j != put_index(s, d)
                ==> #[trigger] s.put_state(d).docs[j] == s.docs[j],
        s.put_state(d).has_live(d.id),
        s.put_state(d).live_index(d.id) == put_index(s, d),
{
    let post = s.put_state(d);
    let idx = put_index(s, d);
    if s.has_live(d.id) {
        let li = s.live_index(d.id);
        assert(0 <= li < s.docs.len() && s.docs[li].id == d.id);
        assert(post.docs == s.docs.update(li, d));
    } else {
        assert(post.docs == s.docs.push(d));
    }
    assert(post.docs[idx] == d);
    assert(post.has_live(d.id));
    let li2 = post.live_index(d.id);
    assert(0 <= li2 < post.docs.len() && post.docs[li2].id == d.id);
    if li2 != idx {
        assert(post.docs[li2] == s.docs[li2]);
        if s.has_live(d.id) {
            let li = s.live_index(d.id);
            if li2 < li {
                assert(s.docs[li2].id != s.docs[li].id);
            } else {
                assert(s.docs[li].id != s.docs[li2].id);
            }
            assert(false);
        } else {
            assert(s.docs[li2].id == d.id);
            assert(false);
        }
    }
}

/// Round trip: after a successful put of a visible document `d` with key
/// `k`, looking up `(d.project, k)` at the same time returns exactly `d`.
/// The in-memory store assigns nothing itself, so every field comes back
/// unchanged.
pub proof fn lemma_put_get_round_trip(s: StoreV, d: DocumentV, k: Seq<char>, now: int)
    requires
        s.wf(),
        !s.key_conflict(d, now),
        d.key == Some(k),
        d.visible(now),
    ensures
        s.put_state(d).get_spec(d.project, k, now) == Ok::<Option<DocumentV>, StoreError>(Some(d)),
{
    let post = s.put_state(d);
    let idx = put_index(s, d);
    lemma_put_live(s, d);
    assert(post.answers(idx, d.project, k, now));
    assert forall|j: int|
        post.answers(j, d.project, k, now) implies j == idx by {
        if j != idx {
            assert(post.docs[j] == s.docs[j]);
            assert(s.docs[j].id != d.id) by {
                if s.has_live(d.id) {
                    let li = s.live_index(d.id);
                    assert(li == idx);
                    if j < li {
                        assert(s.docs[j].id != s.docs[li].id);
                    } else {
                        assert(s.docs[li].id != s.docs[j].id);
                    }
                } else {
                    assert(!(0 <= j < s.docs.len() && s.docs[j].id == d.id));
                }
            }
            assert(s.key_conflict(d, now));
        }
    }
    let c = choose|i: int| post.answers(i, d.project, k, now);
    assert(post.answers(c, d.project, k, now));
    assert(c == idx);
}

/// Uniqueness: a put never creates a second visible document with the same
/// `(project, key)`. A conflicting put is rejected, and a successful one
/// either supersedes (same id) or is no conflict at all.
pub proof fn lemma_put_preserves_key_uniqueness(
    s: StoreV,
    d: DocumentV,
    project: Seq<char>,
    key: Seq<char>,
    now: int,
)
    requires
        s.wf(),
        !s.key_conflict(d, now),
        key_unique(s, project, key, now),
    ensures
        key_unique(s.put_state(d), project, key, now),
{
    let post = s.put_state(d);
    let idx = put_index(s, d);
    lemma_put_live(s, d);
    assert forall|i: int, j: int|
        post.answers(i, project, key, now) && post.answers(j, project, key, now) implies i
        == j by {
        if i != j {
            if i != idx && j != idx {
                assert(post.docs[i] == s.docs[i] && post.docs[j] == s.docs[j]);
                assert(s.answers(i, project, key, now) && s.answers(j, project, key, now));
            } else {
                let other = if i == idx { j } else { i };
                assert(post.docs[idx] == d);
                assert(post.docs[other] == s.docs[other]);
                assert(d.project == project && d.key == Some(key) && d.visible(now));
                assert(s.docs[other].project == project && s.docs[other].key == Some(key)
                    && s.docs[other].visible(now));
                assert(s.docs[other].id != d.id) by {
                    if s.has_live(d.id) {
                        let li = s.live_index(d.id);
                        assert(li == idx);
                        if other < li {
                            assert(s.docs[other].id != s.docs[li].id);
                        } else {
                            assert(s.docs[li].id != s.docs[other].id);
                        }
                    } else {
                        assert(!(0 <= other < s.docs.len() && s.docs[other].id == d.id));
                    }
                }
                assert(s.key_conflict(d, now));
            }
        }
    }
}

/// Versioning, one step: every put appends exactly one row to the version
/// history of its document id and leaves every other history untouched.
pub proof fn lemma_put_appends_one_version(s: StoreV, d: DocumentV)
    ensures
        s.put_state(d).version_count(d.id) == s.version_count(d.id) + 1,
        forall|id: Seq<char>|
            id != d.id ==> #[trigger] s.put_state(d).version_count(id) == s.version_count(id),
        s.put_state(d).versions.last() == version_row_of(d),
{
    broadcast use vstd::seq::Seq::lemma_filter_len_push;

    assert(s.put_state(d).versions == s.versions.push(version_row_of(d)));
    let p = |v: VersionRowV| v.document_id == d.id;
    assert(s.versions.push(version_row_of(d)).filter(p).len() == s.versions.filter(p).len() + 1);
    assert forall|id: Seq<char>| id != d.id implies #[trigger] s.put_state(d).version_count(id)
        == s.version_count(id) by {
        let q = |v: VersionRowV| v.document_id == id;
        assert(!q(version_row_of(d)));
        assert(s.versions.push(version_row_of(d)).filter(q).len() == s.versions.filter(q).len());
    }
}

/// The store reached by putting each document of `docs` in order.
pub open spec fn put_seq(s: StoreV, docs: Seq<DocumentV>) -> StoreV
    decreases docs.len(),
{
    if docs.len() == 0 {
        s
    } else {
        put_seq(s, docs.drop_last()).put_state(docs.last())
    }
}

/// Versioning: after `n` puts addressed at one id, the version history
/// holds exactly `n` more rows for that id, and the live row is the `n`-th
/// document put.
pub proof fn lemma_versioning(s: StoreV, docs: Seq<DocumentV>, id: Seq<char>)
    requires
        s.wf(),
        docs.len() > 0,
        forall|i: int| 0 <= i < docs.len() ==> (#[trigger] docs[i]).id == id,
    ensures
        put_seq(s, docs).wf(),
        put_seq(s, docs).version_count(id) == s.version_count(id) + docs.len(),
        put_seq(s, docs).has_live(id),
        put_seq(s, docs).docs[put_seq(s, docs).live_index(id)] == docs.last(),
    decreases docs.len(),
{
    let prev = put_seq(s, docs.drop_last());
    let d = docs.last();
    assert(d.id == id);
    if docs.len() == 1 {
        assert(prev == s);
    } else {
        lemma_versioning(s, docs.drop_last(), id);
        assert(prev.version_count(id) == s.version_count(id) + docs.len() - 1);
    }
    lemma_put_wf(prev, d, 0);
    lemma_put_appends_one_version(prev, d);
    lemma_put_live(prev, d);
    assert(put_seq(s, docs) == prev.put_state(d));
}

/// Soft delete and expiry: a keyed lookup only ever returns a visible
/// document, so a soft-deleted or TTL-expired row is never handed back,
/// even though it still exists physically.
pub proof fn lemma_get_returns_only_visible(
    s: StoreV,
    project: Seq<char>,
    key: Seq<char>,
    now: int,
)
    ensures
        forall|dv: DocumentV|
            s.get_spec(project, key, now) == Ok::<Option<DocumentV>, StoreError>(Some(dv))
                ==> dv.visible(now) && dv.deleted_at is None && !dv.expired(now) && dv.project
                == project && dv.key == Some(key),
{
    assert forall|dv: DocumentV|
        s.get_spec(project, key, now) == Ok::<Option<DocumentV>, StoreError>(Some(dv))
            implies dv.visible(now) && dv.deleted_at is None && !dv.expired(now) && dv.project
        == project && dv.key == Some(key) by {
        let c = choose|i: int| s.answers(i, project, key, now);
        assert(s.answers(c, project, key, now));
        assert(dv == s.docs[c]);
    }
}

/// TTL: with a 60-second TTL and no deletion mark, a document created at
/// `t` is visible 30 seconds later and invisible 90 seconds later.
pub proof fn lemma_ttl_window(d: DocumentV)
    requires
        d.ttl_seconds == Some(60int),
        d.deleted_at is None,
    ensures
        d.visible(d.created_at + 30),
        !d.visible(d.created_at + 90),
{
}


/// A successful put preserves well-formedness: ids stay distinct, the
/// project table stays duplicate-free, and every live row's project stays
/// known.
pub proof fn lemma_put_wf(s: StoreV, d: DocumentV, now: int)
    requires
        s.wf(),
    ensures
        s.put_state(d).wf(),
{
    let post = s.put_state(d);
    if s.has_live(d.id) {
        let li = s.live_index(d.id);
        assert(0 <= li < s.docs.len() && s.docs[li].id == d.id);
        assert forall|i: int, j: int|
            #![trigger post.docs[i].id, post.docs[j].id]
            0 <= i < j < post.docs.len() implies post.docs[i].id != post.docs[j].id by {
            if i != li && j != li {
                assert(post.docs[i] == s.docs[i] && post.docs[j] == s.docs[j]);
            } else if i == li {
                assert(post.docs[j] == s.docs[j]);
                assert(s.docs[j].id != d.id);
            } else {
                assert(post.docs[i] == s.docs[i]);
                assert(s.docs[i].id != d.id);
            }
        }
    } else {
        assert forall|i: int, j: int|
            #![trigger post.docs[i].id, post.docs[j].id]
            0 <= i < j < post.docs.len() implies post.docs[i].id != post.docs[j].id by {
            if j < s.docs.len() {
            } else {
                assert(post.docs[j] == d);
                assert(!(0 <= i < s.docs.len() && s.docs[i].id == d.id));
            }
        }
    }
    assert forall|i: int| 0 <= i < post.docs.len() implies post.projects.contains(
        #[trigger] post.docs[i].project,
    ) by {
        if s.projects.contains(d.project) {
            assert(post.projects == s.projects);
            if i < s.docs.len() && post.docs[i] == s.docs[i] {
                assert(s.projects.contains(s.docs[i].project));
            } else {
                assert(post.docs[i] == d);
            }
        } else {
            assert(post.projects == s.projects.push(d.project));
            if i < s.docs.len() && post.docs[i] == s.docs[i] {
                let w = choose|w: int| 0 <= w < s.projects.len() && s.projects[w]
                    == s.docs[i].project;
                assert(s.projects.contains(s.docs[i].project));
                assert(0 <= w < s.projects.len() && s.projects[w] == s.docs[i].project);
                assert(post.projects[w] == s.docs[i].project);
            } else {
                assert(post.docs[i] == d);
                assert(post.projects[s.projects.len() as int] == d.project);
            }
        }
    }
    assert forall|i: int, j: int|
        #![trigger post.projects[i], post.projects[j]]
        0 <= i < j < post.projects.len() implies post.projects[i] != post.projects[j] by {
        if !s.projects.contains(d.project) && j == s.projects.len() {
            assert(post.projects[j] == d.project);
            assert(post.projects[i] == s.projects[i]);
            if s.projects[i] == d.project {
                assert(s.projects.contains(d.project));
            }
        }
    }
}

} // verus!
