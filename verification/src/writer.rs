use vstd::prelude::*;

use crate::error::Error;
use crate::model::{
    adds_tokens, index_wf, lemma_ingest_start, lemma_ingest_step, lemma_truncated_wf,
    posting_for, stored_count, truncated, with_document, Model, TermRow,
};
use crate::store::Store;
use crate::tokenizer::{erased_tokens, ErasedTokenizer, Tokenizer};
use crate::{cache_consistent, index_specs, reg_find, reg_get, Field, FieldConfig, Index};

verus! {

/// A rewrite session: it owns the index, holds the rewrite transaction, and
/// repopulates the emptied terms, postings and documents tables.
pub struct Writer {
    pub(crate) index: Index,
}

impl Writer {
    /// The contents of the four storage tables.
    pub closed spec fn model(&self) -> Model {
        self.index.store.model()
    }

    /// The registered tokenizers.
    pub closed spec fn registry(&self) -> Seq<(String, ErasedTokenizer)> {
        self.index.tokenizers@
    }

    /// The cached field records.
    pub closed spec fn cache(&self) -> Seq<(String, Field)> {
        self.index.fields@
    }

    /// The configured per-field boosts.
    pub closed spec fn boosts(&self) -> Seq<(String, FieldConfig)> {
        self.index.config.fields@
    }

    /// A live rewrite session: its transaction is open, the index tables are
    /// well-formed, and the field cache agrees with the fields table.
    pub closed spec fn inv(&self) -> bool {
        &&& self.index.store.pending() is Some
        &&& index_wf(self.index.store.model())
        &&& cache_consistent(self.index.fields@, self.index.store.model())
    }
}

impl Index {
    /// Opens a rewrite session: begins the transaction and empties the
    /// terms, postings and documents tables.  Dropping the session without
    /// committing discards the rewrite.
    pub fn rewrite(self) -> (r: Result<Writer, Error>)
        requires
            self.inv(),
        ensures
            r matches Ok(w) ==> {
                &&& w.inv()
                &&& w.model() == truncated(self.model())
                &&& w.registry() == self.registry()
                &&& w.cache() == self.cache()
                &&& w.boosts() == self.boosts()
            },
            r matches Err(e) ==> e is Sqlite,
    {
        proof {
            index_specs(&self);
        }
        let mut ix = self;
        match ix.store.begin() {
            Ok(()) => {},
            Err(e) => {
                return Err(Error::Sqlite(e));
            },
        }
        match ix.store.truncate_index() {
            Ok(()) => {},
            Err(e) => {
                return Err(Error::Sqlite(e));
            },
        }
        let has = match ix.store.has_sequence_table() {
            Ok(b) => b,
            Err(e) => {
                return Err(Error::Sqlite(e));
            },
        };
        if has {
            match ix.store.reset_sequences() {
                Ok(()) => {},
                Err(e) => {
                    return Err(Error::Sqlite(e));
                },
            }
        }
        proof {
            lemma_truncated_wf(self.store.model());
            assert(ix.store.model().fields == self.store.model().fields);
        }
        Ok(Writer { index: ix })
    }
}

/// Upserts a term row for `(field_id, value)`: inserts it with count 1, or
/// grows the existing row's count by one; either way returns its id.
fn add_term(store: &mut Store, field_id: i64, value: &String) -> (r: Result<i64, Error>)
    ensures
        r matches Err(e) ==> *final(store) == *old(store) && e is Sqlite,
        r matches Ok(tid) ==> {
            let m0 = old(store).model();
            let m1 = final(store).model();
            let c = if m0.terms.dom().contains(tid as int) {
                m0.terms[tid as int].count
            } else {
                0
            };
            &&& final(store).pending() == old(store).pending()
            &&& c < i64::MAX
            &&& m1.terms == m0.terms.insert(
                tid as int,
                TermRow { field_id: field_id as int, value: value@, count: c + 1 },
            )
            &&& m1.postings == m0.postings
            &&& m1.documents == m0.documents
            &&& m1.fields == m0.fields
            &&& (m0.terms.dom().contains(tid as int) ==> m0.terms[tid as int].field_id
                == field_id as int && m0.terms[tid as int].value == value@)
            &&& (!m0.terms.dom().contains(tid as int) ==> (forall|t: int|
                #[trigger] m0.terms.dom().contains(t) ==> !(m0.terms[t].field_id
                    == field_id as int && m0.terms[t].value == value@)))
        },
{
    let existing = match store.select_term(field_id, value.as_str()) {
        Ok(t) => t,
        Err(e) => {
            return Err(Error::Sqlite(e));
        },
    };
    match existing {
        Some(term_id) => {
            match store.bump_term_count(term_id) {
                Ok(()) => {
                    proof {
                        let m0 = old(store).model();
                        let row = m0.terms[term_id as int];
                        assert(TermRow { count: row.count + 1, ..row } == TermRow {
                            field_id: field_id as int,
                            value: value@,
                            count: row.count + 1,
                        });
                    }
                    Ok(term_id)
                },
                Err(e) => Err(Error::Sqlite(e)),
            }
        },
        None => {
            match store.insert_term(field_id, value.as_str()) {
                Ok(term_id) => Ok(term_id),
                Err(e) => Err(Error::Sqlite(e)),
            }
        },
    }
}

impl Writer {
    /// Ingests a pre-tokenized text for `(field_id, document_id)`: resumes
    /// position numbering from the stored count, upserts a term and inserts a
    /// posting per token, and overwrites the document record with the final
    /// position.
    #[verifier::loop_isolation(false)]
    #[verifier::rlimit(100)]
    pub fn add_tokens(&mut self, field_id: i64, document_id: i64, tokens: &Vec<String>) -> (r:
        Result<(), Error>)
        requires
            old(self).inv(),
        ensures
            final(self).registry() == old(self).registry(),
            final(self).cache() == old(self).cache(),
            final(self).boosts() == old(self).boosts(),
            r is Ok ==> final(self).inv() && adds_tokens(
                old(self).model(),
                final(self).model(),
                field_id as int,
                document_id as int,
                tokens.deep_view(),
            ),
            r matches Err(e) ==> (e is Sqlite || (e is PositionOverflow && stored_count(
                old(self).model(),
                field_id as int,
                document_id as int,
            ) + tokens@.len() > i64::MAX)),
            r matches Err(e) && e is PositionOverflow ==> *final(self) == *old(self),
    {
        let ghost m0 = self.index.store.model();
        let start = match self.index.store.stored_document_count(field_id, document_id) {
            Ok(c) => c,
            Err(e) => {
                return Err(Error::Sqlite(e));
            },
        };
        proof {
            lemma_ingest_start(m0, field_id as int, document_id as int);
        }
        if (tokens.len() as u64) > ((i64::MAX - start) as u64) {
            return Err(Error::PositionOverflow);
        }
        let mut position = start;
        let mut i: usize = 0;
        while i < tokens.len()
            invariant
                0 <= i <= tokens@.len(),
                self.index.tokenizers == old(self).index.tokenizers,
                self.index.config == old(self).index.config,
                self.index.fields == old(self).index.fields,
                self.index.store.pending() == old(self).index.store.pending(),
                start == stored_count(m0, field_id as int, document_id as int),
                0 <= start,
                start + tokens@.len() <= i64::MAX,
                position == start + i,
                ({
                    let m = self.index.store.model();
                    &&& m.fields == m0.fields
                    &&& m.documents == m0.documents
                    &&& index_wf(
                        with_document(m, field_id as int, document_id as int, position as int),
                    )
                    &&& m0.postings.subset_of(m.postings)
                    &&& forall|p: (int, int, int)| #[trigger] m.postings.contains(p)
                        ==> m0.postings.contains(p) || {
                            &&& p.1 == document_id as int
                            &&& start < p.2 <= position
                            &&& m.terms.dom().contains(p.0)
                            &&& m.terms[p.0].field_id == field_id as int
                            &&& m.terms[p.0].value == tokens.deep_view()[p.2 - start - 1]
                        }
                    &&& forall|j: int| 0 <= j < i ==> posting_for(
                        m,
                        field_id as int,
                        document_id as int,
                        start + 1 + j,
                        tokens.deep_view()[j],
                    )
                    &&& forall|t: int| #[trigger] m0.terms.dom().contains(t)
                        ==> m.terms.dom().contains(t) && m.terms[t].field_id == m0.terms[
                            t
                        ].field_id && m.terms[t].value == m0.terms[t].value
                    &&& forall|t: int| #[trigger] m.terms.dom().contains(t)
                        && !m0.terms.dom().contains(t) ==> m.terms[t].field_id == field_id as int
                        && (exists|j: int| 0 <= j < i && m.terms[t].value
                        == tokens.deep_view()[j])
                }),
            decreases tokens@.len() - i,
        {
            let ghost m1 = self.index.store.model();
            let token = &tokens[i];
            let term_id = match add_term(&mut self.index.store, field_id, token) {
                Ok(t) => t,
                Err(e) => {
                    return Err(e);
                },
            };
            match self.index.store.insert_posting(term_id, document_id, position + 1) {
                Ok(()) => {},
                Err(e) => {
                    return Err(Error::Sqlite(e));
                },
            }
            proof {
                let m2 = self.index.store.model();
                let c = if m1.terms.dom().contains(term_id as int) {
                    m1.terms[term_id as int].count
                } else {
                    0
                };
                assert(tokens.deep_view()[i as int] == tokens@[i as int]@);
                lemma_ingest_step(
                    m1,
                    m2,
                    field_id as int,
                    document_id as int,
                    position as int,
                    term_id as int,
                    tokens.deep_view()[i as int],
                    c,
                );
                assert forall|j: int| 0 <= j < i + 1 implies posting_for(
                    m2,
                    field_id as int,
                    document_id as int,
                    start + 1 + j,
                    tokens.deep_view()[j],
                ) by {
                    if j < i {
                        assert(posting_for(
                            m1,
                            field_id as int,
                            document_id as int,
                            start + 1 + j,
                            tokens.deep_view()[j],
                        ));
                    }
                }
                let newp = (term_id as int, document_id as int, position as int + 1);
                assert forall|p: (int, int, int)| #[trigger] m2.postings.contains(p) implies
                    m1.postings.contains(p) || p == newp by {}
                assert(m2.terms.dom().contains(term_id as int));
                assert(m2.terms[term_id as int].value == tokens.deep_view()[i as int]);
                assert(m2.terms[term_id as int].field_id == field_id as int);
                assert forall|p: (int, int, int)| #[trigger] m2.postings.contains(p) && !m0
                    .postings.contains(p) implies {
                    &&& p.1 == document_id as int
                    &&& start < p.2 <= position + 1
                    &&& m2.terms.dom().contains(p.0)
                    &&& m2.terms[p.0].field_id == field_id as int
                    &&& m2.terms[p.0].value == tokens.deep_view()[p.2 - start - 1]
                } by {
                    if p == newp {
                        assert(newp.2 - start - 1 == i as int);
                    } else {
                        assert(m1.postings.contains(p));
                        assert(m1.terms.dom().contains(p.0));
                        if p.0 == term_id as int {
                            assert(m1.terms[p.0].value == tokens.deep_view()[p.2 - start - 1]);
                        }
                    }
                }
            }
            position = position + 1;
            i = i + 1;
        }
        let ghost mlast = self.index.store.model();
        match self.index.store.upsert_document(field_id, document_id, position) {
            Ok(()) => {},
            Err(e) => {
                return Err(Error::Sqlite(e));
            },
        }
        proof {
            let mfin = self.index.store.model();
            assert(mfin == with_document(
                mlast,
                field_id as int,
                document_id as int,
                position as int,
            ));
            assert(index_wf(mfin));
            assert forall|j: int| 0 <= j < tokens@.len() implies posting_for(
                mfin,
                field_id as int,
                document_id as int,
                start + 1 + j,
                tokens.deep_view()[j],
            ) by {
                assert(posting_for(
                    mlast,
                    field_id as int,
                    document_id as int,
                    start + 1 + j,
                    tokens.deep_view()[j],
                ));
                let t = choose|t: int|
                    #[trigger] mlast.postings.contains((t, document_id as int, start + 1 + j))
                        && mlast.terms.dom().contains(t) && mlast.terms[t].field_id
                        == field_id as int && mlast.terms[t].value == tokens.deep_view()[j];
                assert(mfin.postings.contains((t, document_id as int, start + 1 + j)));
            }
            assert(adds_tokens(
                m0,
                mfin,
                field_id as int,
                document_id as int,
                tokens.deep_view(),
            ));
            assert forall|k: int| 0 <= k < self.index.fields@.len() implies {
                &&& mfin.fields.dom().contains((#[trigger] self.index.fields@[k]).0@)
                &&& mfin.fields[self.index.fields@[k].0@].id == self.index.fields@[k].1.id as int
                &&& mfin.fields[self.index.fields@[k].0@].tokenizer == self.index.fields@[
                    k
                ].1.tokenizer@
            } by {
                assert(cache_consistent(old(self).index.fields@, m0));
                assert(old(self).index.fields@[k] == self.index.fields@[k]);
            }
        }
        Ok(())
    }

    /// Tokenizes a text with the field's tokenizer and ingests the tokens
    /// for `(field, document_id)`.
    pub fn add_text(&mut self, document_id: i64, field_name: &str, text: &str) -> (r: Result<
        (),
        Error,
    >)
        requires
            old(self).inv(),
        ensures
            final(self).registry() == old(self).registry(),
            final(self).boosts() == old(self).boosts(),
            r is Ok ==> {
                &&& final(self).inv()
                &&& old(self).model().fields.dom().contains(field_name@)
                &&& match reg_find(
                    old(self).registry(),
                    old(self).model().fields[field_name@].tokenizer,
                ) {
                    Some(t) => adds_tokens(
                        old(self).model(),
                        final(self).model(),
                        old(self).model().fields[field_name@].id,
                        document_id as int,
                        erased_tokens(t, text@),
                    ),
                    None => false,
                }
            },
            r matches Err(e) ==> match e {
                Error::Sqlite(_) => true,
                Error::NoSuchField(n) => !old(self).model().fields.dom().contains(field_name@)
                    && n@ == field_name@,
                Error::NoSuchTokenizer(n) => old(self).model().fields.dom().contains(field_name@)
                    && n@ == old(self).model().fields[field_name@].tokenizer && reg_find(
                    old(self).registry(),
                    n@,
                ) is None,
                Error::PositionOverflow => old(self).model().fields.dom().contains(field_name@)
                    && match reg_find(
                    old(self).registry(),
                    old(self).model().fields[field_name@].tokenizer,
                ) {
                    Some(tk) => stored_count(
                        old(self).model(),
                        old(self).model().fields[field_name@].id,
                        document_id as int,
                    ) + erased_tokens(tk, text@).len() > i64::MAX,
                    None => false,
                },
                _ => false,
            },
            r matches Err(e) && !(e is Sqlite) ==> final(self).model() == old(self).model(),
    {
        let field = match self.index.read_field(field_name) {
            Ok(f) => f,
            Err(e) => {
                return Err(e);
            },
        };
        let tokenizer = match reg_get(&self.index.tokenizers, field.tokenizer.as_str()) {
            Some(t) => t.clone(),
            None => {
                return Err(Error::NoSuchTokenizer(field.tokenizer));
            },
        };
        let tokens = tokenizer.tokenize(text);
        self.add_tokens(field.id, document_id, &tokens)
    }

    /// Resolves a field during a rewrite session, so that a pre-tokenizing
    /// producer can learn its id and tokenizer binding.
    pub fn field(&mut self, name: &str) -> (r: Result<Field, Error>)
        requires
            old(self).inv(),
        ensures
            final(self).inv(),
            final(self).model() == old(self).model(),
            final(self).registry() == old(self).registry(),
            final(self).boosts() == old(self).boosts(),
            r matches Ok(f) ==> old(self).model().fields.dom().contains(name@) && f.id as int
                == old(self).model().fields[name@].id && f.tokenizer@ == old(
                self,
            ).model().fields[name@].tokenizer,
            r matches Err(e) ==> match e {
                Error::Sqlite(_) => true,
                Error::NoSuchField(n) => n@ == name@ && !old(self).model().fields.dom().contains(
                    name@,
                ),
                _ => false,
            },
    {
        self.index.read_field(name)
    }

    /// Hands out a clone of a registered tokenizer, so that a parallel
    /// worker can run its own pipeline.
    pub fn tokenizer(&self, name: &str) -> (r: Option<ErasedTokenizer>)
        ensures
            match r {
                Some(t) => reg_find(self.registry(), name@) == Some(t),
                None => reg_find(self.registry(), name@) is None,
            },
    {
        match reg_get(&self.index.tokenizers, name) {
            Some(t) => Some(t.clone()),
            None => None,
        }
    }

    /// Gathers planner statistics, commits the rewrite transaction, and
    /// invalidates the field cache.  The committed tables are a well-formed
    /// index.
    pub fn commit(self) -> (r: Result<Index, Error>)
        requires
            self.inv(),
        ensures
            r matches Ok(ix) ==> {
                &&& ix.inv()
                &&& ix.model() == self.model()
                &&& index_wf(ix.model())
                &&& ix.registry() == self.registry()
                &&& ix.boosts() == self.boosts()
                &&& ix.cache().len() == 0
            },
            r matches Err(e) ==> e is Sqlite,
    {
        let mut ix = self.index;
        match ix.store.analyze() {
            Ok(()) => {},
            Err(e) => {
                return Err(Error::Sqlite(e));
            },
        }
        match ix.store.commit() {
            Ok(()) => {},
            Err(e) => {
                return Err(Error::Sqlite(e));
            },
        }
        ix.fields = Vec::new();
        proof {
            index_specs(&ix);
        }
        Ok(ix)
    }
}

} // verus!
