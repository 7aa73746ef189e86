use vstd::prelude::*;

verus! {

/// A row of the `canter_fields` table: stable id and the bound tokenizer name,
/// keyed by the (unique) field name.
pub ghost struct FieldRow {
    pub id: int,
    pub tokenizer: Seq<char>,
}

/// A row of the `canter_terms` table, keyed by the term id: the owning field,
/// the token value, and the number of times the token was emitted.
pub ghost struct TermRow {
    pub field_id: int,
    pub value: Seq<char>,
    pub count: int,
}

/// The mathematical contents of the four storage tables.
///
/// A posting is a `(term_id, document_id, position)` triple; a document record
/// maps `(field_id, document_id)` to the token count stored for that pair.
#[verifier::ext_equal]
pub ghost struct Model {
    pub fields: Map<Seq<char>, FieldRow>,
    pub terms: Map<int, TermRow>,
    pub postings: Set<(int, int, int)>,
    pub documents: Map<(int, int), int>,
}

/// `m` with the terms, postings and documents tables emptied, as a rewrite
/// session leaves them on entry.
pub open spec fn truncated(m: Model) -> Model {
    Model {
        terms: Map::empty(),
        postings: Set::empty(),
        documents: Map::empty(),
        ..m
    }
}

/// `m` with the document record for `(field_id, doc_id)` set to `count`.
pub open spec fn with_document(m: Model, field_id: int, doc_id: int, count: int) -> Model {
    Model { documents: m.documents.insert((field_id, doc_id), count), ..m }
}

pub open spec fn in_i64(x: int) -> bool {
    i64::MIN <= x <= i64::MAX
}

/// Every table holds finitely many rows.
pub open spec fn storage_finite(m: Model) -> bool {
    &&& m.fields.dom().finite()
    &&& m.terms.dom().finite()
    &&& m.postings.finite()
    &&& m.documents.dom().finite()
}

/// Every INTEGER column holds a value in the i64 range.
pub open spec fn storage_bounded(m: Model) -> bool {
    &&& forall|n: Seq<char>| #[trigger] m.fields.dom().contains(n) ==> in_i64(m.fields[n].id)
    &&& forall|t: int| #[trigger] m.terms.dom().contains(t)
        ==> in_i64(t) && in_i64(m.terms[t].count)
    &&& forall|p: (int, int, int)| #[trigger] m.postings.contains(p)
        ==> in_i64(p.0) && in_i64(p.1) && in_i64(p.2)
    &&& forall|k: (int, int)| #[trigger] m.documents.dom().contains(k)
        ==> in_i64(k.0) && in_i64(k.1) && in_i64(m.documents[k])
}

/// Facts that hold of any SQLite-backed instance of the schema.
pub open spec fn storage_inv(m: Model) -> bool {
    storage_finite(m) && storage_bounded(m)
}

/// Number of document records belonging to `field_id`.
pub open spec fn doc_count(m: Model, field_id: int) -> nat {
    m.documents.dom().filter(|k: (int, int)| k.0 == field_id).len()
}

/// The postings that reference term `t`.
pub open spec fn term_postings(m: Model, t: int) -> Set<(int, int, int)> {
    m.postings.filter(|p: (int, int, int)| p.0 == t)
}

/// Position `p` is occupied in document `doc_id` for field `field_id`.
pub open spec fn position_used(m: Model, field_id: int, doc_id: int, p: int) -> bool {
    exists|t: int|
        #[trigger] m.postings.contains((t, doc_id, p)) && m.terms.dom().contains(t)
            && m.terms[t].field_id == field_id
}

/// Every posting references an existing term, and a document record for the
/// term's field and the posting's document.
pub open spec fn postings_wf(m: Model) -> bool {
    forall|pr: (int, int, int)| #[trigger] m.postings.contains(pr)
        ==> m.terms.dom().contains(pr.0) && m.documents.dom().contains(
            (m.terms[pr.0].field_id, pr.1),
        )
}

/// Every term row's count equals the number of postings that reference it.
pub open spec fn counts_wf(m: Model) -> bool {
    forall|t: int| #[trigger] m.terms.dom().contains(t)
        ==> m.terms[t].count == term_postings(m, t).len()
}

/// For every document record, the occupied positions are exactly the
/// contiguous range `1..=count`.
pub open spec fn positions_wf(m: Model) -> bool {
    forall|f: int, d: int, p: int| m.documents.dom().contains((f, d))
        ==> (#[trigger] position_used(m, f, d, p) <==> 1 <= p <= m.documents[(f, d)])
}

/// Document record counts are never negative.
pub open spec fn documents_wf(m: Model) -> bool {
    forall|k: (int, int)| #[trigger] m.documents.dom().contains(k) ==> m.documents[k] >= 0
}

/// Well-formedness of the inverted index: the invariants a rewrite session
/// establishes on entry and preserves through every ingestion step.
pub open spec fn index_wf(m: Model) -> bool {
    &&& storage_inv(m)
    &&& postings_wf(m)
    &&& counts_wf(m)
    &&& positions_wf(m)
    &&& documents_wf(m)
    &&& terms_match_unique(m)
}

/// No two distinct term rows share a (field, value) pair.
pub open spec fn terms_match_unique(m: Model) -> bool {
    forall|t1: int, t2: int|
        m.terms.dom().contains(t1) && m.terms.dom().contains(t2)
            && #[trigger] m.terms[t1].field_id == #[trigger] m.terms[t2].field_id
            && m.terms[t1].value == m.terms[t2].value ==> t1 == t2
}

/// After any commit of a rewrite session, the count stored for a term equals
/// the number of postings that reference it.
pub proof fn lemma_term_count_matches_postings(m: Model, t: int)
    requires
        index_wf(m),
        m.terms.dom().contains(t),
    ensures
        m.terms[t].count == term_postings(m, t).len(),
{
}

/// After any commit of a rewrite session, the positions recorded for a
/// (field, document) pair form the gap-free range `1..=count`, where `count`
/// is the value stored in its document record.
pub proof fn lemma_positions_contiguous(m: Model, f: int, d: int, p: int)
    requires
        index_wf(m),
        m.documents.dom().contains((f, d)),
    ensures
        position_used(m, f, d, p) <==> 1 <= p <= m.documents[(f, d)],
{
}

/// The count stored in the document record for `(f, d)`, or 0 when absent:
/// the resume point for position numbering.
pub open spec fn stored_count(m: Model, f: int, d: int) -> int {
    if m.documents.dom().contains((f, d)) {
        m.documents[(f, d)]
    } else {
        0
    }
}

/// Some posting at `(d, p)` references a term of field `f` with value `v`.
pub open spec fn posting_for(m: Model, f: int, d: int, p: int, v: Seq<char>) -> bool {
    exists|t: int|
        #[trigger] m.postings.contains((t, d, p)) && m.terms.dom().contains(t)
            && m.terms[t].field_id == f && m.terms[t].value == v
}

/// How one `add_text` (or one pre-tokenized text message) changes the model:
/// the document record for `(f, d)` is overwritten with the final position;
/// every new posting sits in the resumed range of document `d` and carries
/// the token of its position under a term of field `f`; position
/// `start + 1 + i` does carry token `i`; every old term row survives with
/// its field and value, and every new term row holds one of the ingested
/// tokens.  Together with the well-formedness the writer also ensures
/// (`index_wf`), term counts are thereby fixed too: each count equals the
/// number of postings that reference the term.
pub open spec fn adds_tokens(m0: Model, m1: Model, f: int, d: int, toks: Seq<Seq<char>>) -> bool {
    let start = stored_count(m0, f, d);
    &&& m1.fields == m0.fields
    &&& m1.documents == m0.documents.insert((f, d), start + toks.len())
    &&& m0.postings.subset_of(m1.postings)
    &&& forall|p: (int, int, int)| #[trigger] m1.postings.contains(p) ==> m0.postings.contains(p)
        || {
            &&& p.1 == d
            &&& start < p.2 <= start + toks.len()
            &&& m1.terms.dom().contains(p.0)
            &&& m1.terms[p.0].field_id == f
            &&& m1.terms[p.0].value == toks[p.2 - start - 1]
        }
    &&& forall|i: int| 0 <= i < toks.len() ==> posting_for(m1, f, d, start + 1 + i, toks[i])
    &&& forall|t: int| #[trigger] m0.terms.dom().contains(t) ==> m1.terms.dom().contains(t)
        && m1.terms[t].field_id == m0.terms[t].field_id && m1.terms[t].value == m0.terms[t].value
    &&& forall|t: int| #[trigger] m1.terms.dom().contains(t) && !m0.terms.dom().contains(t)
        ==> m1.terms[t].field_id == f && (exists|i: int|
        0 <= i < toks.len() && m1.terms[t].value == toks[i])
}

/// Emptying the three index tables leaves a well-formed index, whatever the
/// fields table holds.
pub proof fn lemma_truncated_wf(m: Model)
    requires
        storage_inv(m),
    ensures
        index_wf(truncated(m)),
{
    let t = truncated(m);
    assert forall|tid: int| #[trigger] t.terms.dom().contains(tid) implies t.terms[tid].count
        == term_postings(t, tid).len() by {}
    assert forall|f: int, d: int, p: int| t.documents.dom().contains((f, d)) implies (
    #[trigger] position_used(t, f, d, p) <==> 1 <= p <= t.documents[(f, d)]) by {}
}

/// Reading the resume point is sound: setting the document record to the
/// count it already (implicitly) has keeps the index well-formed.
pub proof fn lemma_ingest_start(m: Model, f: int, d: int)
    requires
        index_wf(m),
        in_i64(f),
        in_i64(d),
    ensures
        index_wf(with_document(m, f, d, stored_count(m, f, d))),
        stored_count(m, f, d) >= 0,
{
    let c = stored_count(m, f, d);
    let m1 = with_document(m, f, d, c);
    if m.documents.dom().contains((f, d)) {
        assert(m1.documents =~= m.documents);
        assert(m1 =~= m);
    } else {
        assert forall|pr: (int, int, int)| #[trigger] m1.postings.contains(pr) implies m1
            .terms.dom().contains(pr.0) && m1.documents.dom().contains(
            (m1.terms[pr.0].field_id, pr.1),
        ) by {
            assert(m.postings.contains(pr));
        }
        assert forall|tid: int| #[trigger] m1.terms.dom().contains(tid) implies m1.terms[
            tid
        ].count == term_postings(m1, tid).len() by {
            assert(term_postings(m1, tid) =~= term_postings(m, tid));
        }
        assert forall|f2: int, d2: int, p: int| m1.documents.dom().contains((f2, d2)) implies (
        #[trigger] position_used(m1, f2, d2, p) <==> 1 <= p <= m1.documents[(f2, d2)]) by {
            if f2 == f && d2 == d {
                if position_used(m1, f, d, p) {
                    let t = choose|t: int|
                        #[trigger] m1.postings.contains((t, d, p)) && m1.terms.dom().contains(t)
                            && m1.terms[t].field_id == f;
                    assert(m.postings.contains((t, d, p)));
                    assert(m.documents.dom().contains((f, d)));
                    assert(false);
                }
            } else {
                assert(m.documents.dom().contains((f2, d2)));
                assert(position_used(m1, f2, d2, p) == position_used(m, f2, d2, p));
            }
        }
    }
}

/// One ingestion step: a term row is upserted (count grown by one) and a
/// posting for it is inserted at the next position.  The index stays
/// well-formed with the document record advanced to that position, and the
/// new position carries the token.
#[verifier::rlimit(100)]
pub proof fn lemma_ingest_step(
    m1: Model,
    m2: Model,
    f: int,
    d: int,
    pos: int,
    tid: int,
    v: Seq<char>,
    c: int,
)
    requires
        index_wf(with_document(m1, f, d, pos)),
        0 <= pos < i64::MAX,
        in_i64(f),
        in_i64(d),
        in_i64(tid),
        c == (if m1.terms.dom().contains(tid) {
            m1.terms[tid].count
        } else {
            0
        }),
        c < i64::MAX,
        m1.terms.dom().contains(tid) ==> m1.terms[tid].field_id == f && m1.terms[tid].value
            == v,
        !m1.terms.dom().contains(tid) ==> (forall|t: int|
            #[trigger] m1.terms.dom().contains(t) ==> !(m1.terms[t].field_id == f && m1.terms[
                t
            ].value == v)),
        !m1.postings.contains((tid, d, pos + 1)),
        m2.fields == m1.fields,
        m2.documents == m1.documents,
        m2.terms == m1.terms.insert(tid, TermRow { field_id: f, value: v, count: c + 1 }),
        m2.postings == m1.postings.insert((tid, d, pos + 1)),
    ensures
        index_wf(with_document(m2, f, d, pos + 1)),
        posting_for(m2, f, d, pos + 1, v),
        m1.postings.subset_of(m2.postings),
        forall|p: (int, int, int)| #[trigger] m2.postings.contains(p) ==> m1.postings.contains(
            p,
        ) || (p.1 == d && p.2 == pos + 1),
        forall|t: int| #[trigger] m1.terms.dom().contains(t) ==> m2.terms.dom().contains(t)
            && m2.terms[t].field_id == m1.terms[t].field_id && m2.terms[t].value == m1.terms[
            t
        ].value,
        forall|f2: int, d2: int, p2: int, v2: Seq<char>|
            #[trigger] posting_for(m1, f2, d2, p2, v2) ==> posting_for(m2, f2, d2, p2, v2),
{
    let w1 = with_document(m1, f, d, pos);
    let w2 = with_document(m2, f, d, pos + 1);
    let newp = (tid, d, pos + 1);
    assert(m2.postings.contains(newp));
    assert(posting_for(m2, f, d, pos + 1, v));
    assert forall|f2: int, d2: int, p2: int, v2: Seq<char>|
        #[trigger] posting_for(m1, f2, d2, p2, v2) implies posting_for(m2, f2, d2, p2, v2) by {
        let t = choose|t: int|
            #[trigger] m1.postings.contains((t, d2, p2)) && m1.terms.dom().contains(t)
                && m1.terms[t].field_id == f2 && m1.terms[t].value == v2;
        assert(m2.postings.contains((t, d2, p2)));
        assert(m2.terms.dom().contains(t) && m2.terms[t].field_id == f2 && m2.terms[t].value
            == v2);
    }
    // storage bounds and finiteness
    assert(w2.terms.dom() =~= w1.terms.dom().insert(tid));
    assert(w2.postings =~= w1.postings.insert(newp));
    assert(w2.documents.dom() =~= w1.documents.dom().insert((f, d)));
    assert(storage_inv(w2));
    // every posting points at a term and a document record
    assert forall|pr: (int, int, int)| #[trigger] w2.postings.contains(pr) implies w2
        .terms.dom().contains(pr.0) && w2.documents.dom().contains(
        (w2.terms[pr.0].field_id, pr.1),
    ) by {
        if pr == newp {
            assert(w2.terms[tid].field_id == f);
            assert(w2.documents.dom().contains((f, d)));
        } else {
            assert(w1.postings.contains(pr));
            if pr.0 == tid {
                assert(w1.terms.dom().contains(tid));
                assert(w2.terms[tid].field_id == w1.terms[tid].field_id);
            }
        }
    }
    // counts: the bumped term gained exactly the one new posting
    assert forall|t: int| #[trigger] w2.terms.dom().contains(t) implies w2.terms[t].count
        == term_postings(w2, t).len() by {
        if t == tid {
            if m1.terms.dom().contains(tid) {
                assert(w1.terms[tid].count == term_postings(w1, tid).len());
                assert(term_postings(w2, tid) =~= term_postings(w1, tid).insert(newp));
                assert(!term_postings(w1, tid).contains(newp));
            } else {
                assert forall|pr: (int, int, int)| !(#[trigger] term_postings(
                    w1,
                    tid,
                ).contains(pr)) by {
                    if w1.postings.contains(pr) && pr.0 == tid {
                        assert(w1.terms.dom().contains(tid));
                    }
                }
                assert(term_postings(w1, tid) =~= Set::<(int, int, int)>::empty());
                assert(term_postings(w2, tid) =~= term_postings(w1, tid).insert(newp));
            }
        } else {
            assert(w1.terms.dom().contains(t));
            assert(term_postings(w2, t) =~= term_postings(w1, t));
            assert(w2.terms[t].count == w1.terms[t].count);
        }
    }
    // positions: the new range is the old range extended by one
    assert forall|f2: int, d2: int, p2: int| w2.documents.dom().contains((f2, d2)) implies (
    #[trigger] position_used(w2, f2, d2, p2) <==> 1 <= p2 <= w2.documents[(f2, d2)]) by {
        if f2 == f && d2 == d {
            if position_used(w2, f, d, p2) {
                let t = choose|t: int|
                    #[trigger] w2.postings.contains((t, d, p2)) && w2.terms.dom().contains(t)
                        && w2.terms[t].field_id == f;
                if (t, d, p2) == newp {
                    assert(1 <= p2 <= pos + 1);
                } else {
                    assert(w1.postings.contains((t, d, p2)));
                    assert(w1.terms.dom().contains(t) || t == tid);
                    if t == tid && !m1.terms.dom().contains(tid) {
                        assert(false);
                    }
                    assert(w1.terms[t].field_id == f);
                    assert(position_used(w1, f, d, p2));
                    assert(w1.documents.dom().contains((f, d)));
                    assert(1 <= p2 <= pos);
                }
            }
            if 1 <= p2 <= pos + 1 {
                if p2 == pos + 1 {
                    assert(w2.postings.contains(newp));
                    assert(w2.terms.dom().contains(tid) && w2.terms[tid].field_id == f);
                    assert(position_used(w2, f, d, p2));
                } else {
                    assert(w1.documents.dom().contains((f, d)));
                    assert(position_used(w1, f, d, p2));
                    let t = choose|t: int|
                        #[trigger] w1.postings.contains((t, d, p2)) && w1.terms.dom().contains(
                            t,
                        ) && w1.terms[t].field_id == f;
                    assert(w2.postings.contains((t, d, p2)));
                    if t == tid {
                        assert(w2.terms[tid].field_id == f);
                    }
                    assert(position_used(w2, f, d, p2));
                }
            }
        } else {
            assert(w1.documents.dom().contains((f2, d2)));
            assert(w2.documents[(f2, d2)] == w1.documents[(f2, d2)]);
            if position_used(w2, f2, d2, p2) {
                let t = choose|t: int|
                    #[trigger] w2.postings.contains((t, d2, p2)) && w2.terms.dom().contains(t)
                        && w2.terms[t].field_id == f2;
                if (t, d2, p2) == newp {
                    assert(w2.terms[tid].field_id == f);
                    assert(false);
                } else {
                    assert(w1.postings.contains((t, d2, p2)));
                    if t == tid && !m1.terms.dom().contains(tid) {
                        assert(false);
                    }
                    assert(w1.terms[t].field_id == f2);
                    assert(position_used(w1, f2, d2, p2));
                }
            }
            if 1 <= p2 <= w1.documents[(f2, d2)] {
                assert(position_used(w1, f2, d2, p2));
                let t = choose|t: int|
                    #[trigger] w1.postings.contains((t, d2, p2)) && w1.terms.dom().contains(t)
                        && w1.terms[t].field_id == f2;
                assert(w2.postings.contains((t, d2, p2)));
                if t == tid {
                    assert(w2.terms[tid].field_id == w1.terms[tid].field_id);
                }
                assert(position_used(w2, f2, d2, p2));
            }
        }
    }
    // no two rows share a (field, value) pair
    assert forall|t1: int, t2: int|
        w2.terms.dom().contains(t1) && w2.terms.dom().contains(t2) && #[trigger] w2.terms[
            t1
        ].field_id == #[trigger] w2.terms[t2].field_id && w2.terms[t1].value == w2.terms[
            t2
        ].value implies t1 == t2 by {
        if t1 != t2 {
            if t1 == tid && !m1.terms.dom().contains(tid) {
                assert(w1.terms.dom().contains(t2));
                assert(m1.terms[t2] == w1.terms[t2]);
            }
            if t2 == tid && !m1.terms.dom().contains(tid) {
                assert(w1.terms.dom().contains(t1));
                assert(m1.terms[t1] == w1.terms[t1]);
            }
        }
    }
}

} // verus!
