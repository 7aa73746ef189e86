use vstd::prelude::*;
use vstd::string::StringExecFns;

use crate::digits::{append_i64, append_u128, append_usize, dec_int};
use crate::Field;

verus! {

/// Matches every posted document.
pub struct AllQuery;

/// Matches postings of one token value in one field, scored with BM25.
pub struct TermQuery {
    pub field_id: i64,
    pub documents: i64,
    pub avg_documents_count: String,
    pub boost: String,
    pub value: String,
}

/// Matches documents where the token values appear at consecutive positions
/// in one field.
pub struct PhraseQuery {
    pub field_id: i64,
    pub documents: i64,
    pub avg_documents_count: String,
    pub boost: String,
    pub values: Vec<String>,
}

/// How a clause of a combined query participates in the match.
#[derive(Clone, Copy, PartialEq, Eq, Structural, Debug)]
pub enum Occur {
    Should,
    Must,
    MustNot,
}

/// Boolean composition of clause lists.
pub struct CombinedQuery {
    pub should: Vec<Query>,
    pub must: Vec<Query>,
    pub must_not: Vec<Query>,
}

/// A compiled search request: one of the four clause forms.
pub enum Query {
    All(AllQuery),
    Term(TermQuery),
    Phrase(PhraseQuery),
    Combined(CombinedQuery),
}

/// The SQL fragment that matches every posted document.
pub open spec fn all_sql(score: bool) -> Seq<char> {
    if score {
        "SELECT DISTINCT document_id, 1 AS score, 1 AS terms FROM canter_postings"@
    } else {
        "SELECT DISTINCT document_id FROM canter_postings"@
    }
}

/// The scored select list of a term query: boosted BM25 over the corpus
/// statistics baked into the query.
pub open spec fn term_select_sql(q: TermQuery) -> Seq<char> {
    "SELECT canter_postings.document_id AS document_id, "@ + q.boost@
        + " * canter_bm25("@ + dec_int(q.documents as int) + ", "@
        + q.avg_documents_count@
        + ", canter_terms.count, COUNT(canter_postings.position), canter_documents.count) AS score, 1 AS terms"@
}

/// The SQL fragment a term query compiles to.
pub open spec fn term_sql(q: TermQuery, score: bool) -> Seq<char> {
    (if score {
        term_select_sql(q)
    } else {
        "SELECT canter_postings.document_id AS document_id"@
    }) + " FROM canter_terms JOIN canter_postings ON canter_terms.id = canter_postings.term_id"@
        + (if score {
        " JOIN canter_documents ON canter_terms.field_id = canter_documents.field_id AND canter_postings.document_id = canter_documents.document_id"@
    } else {
        Seq::<char>::empty()
    }) + " WHERE canter_terms.field_id = "@ + dec_int(q.field_id as int)
        + " AND canter_terms.value = ? GROUP BY canter_postings.term_id, canter_postings.document_id"@
}

/// One phrase subquery, aliased `term_{i}`.
pub open spec fn phrase_sub_sql(q: PhraseQuery, score: bool, i: int) -> Seq<char> {
    "(SELECT canter_postings.document_id AS document_id, canter_postings.position AS position"@
        + (if score {
        ", canter_bm25("@ + dec_int(q.documents as int) + ", "@ + q.avg_documents_count@
            + ", canter_terms.count, COUNT(canter_postings.position), canter_documents.count) AS score"@
    } else {
        Seq::<char>::empty()
    }) + " FROM canter_terms JOIN canter_postings ON canter_terms.id = canter_postings.term_id"@
        + (if score {
        " JOIN canter_documents ON canter_terms.field_id = canter_documents.field_id AND canter_postings.document_id = canter_documents.document_id"@
    } else {
        Seq::<char>::empty()
    }) + " WHERE canter_terms.field_id = "@ + dec_int(q.field_id as int)
        + " AND canter_terms.value = ? GROUP BY canter_postings.term_id, canter_postings.document_id) AS term_"@
        + dec_int(i)
}

/// The join of phrase subquery `i` onto `term_0`, with the consecutive
/// position predicate.
pub open spec fn phrase_join_sql(q: PhraseQuery, score: bool, i: int) -> Seq<char> {
    " JOIN "@ + phrase_sub_sql(q, score, i) + " ON term_"@ + dec_int(i)
        + ".document_id = term_0.document_id AND term_"@ + dec_int(i)
        + ".position - term_0.position = "@ + dec_int(i)
}

/// The joins of phrase subqueries `1..n`.
pub open spec fn phrase_joins_sql(q: PhraseQuery, score: bool, n: int) -> Seq<char>
    decreases n,
{
    if n <= 1 {
        Seq::empty()
    } else {
        phrase_joins_sql(q, score, n - 1) + phrase_join_sql(q, score, n - 1)
    }
}

/// ` + term_{i}.score` for `i` in `1..n`.
pub open spec fn phrase_score_sum_sql(n: int) -> Seq<char>
    decreases n,
{
    if n <= 1 {
        Seq::empty()
    } else {
        phrase_score_sum_sql(n - 1) + " + term_"@ + dec_int(n - 1) + ".score"@
    }
}

/// The select list and `FROM` keyword of a non-degenerate phrase query.
pub open spec fn phrase_head_sql(q: PhraseQuery, score: bool) -> Seq<char> {
    let n = q.values@.len() as int;
    if score {
        "SELECT term_0.document_id AS document_id, "@ + q.boost@ + " * (term_0.score"@
            + phrase_score_sum_sql(n) + ") AS score, "@ + dec_int(n) + " AS terms FROM "@
    } else {
        "SELECT term_0.document_id AS document_id FROM "@
    }
}

/// The SQL fragment a phrase query compiles to.  An empty value list
/// degenerates to the all-documents fragment.
pub open spec fn phrase_sql(q: PhraseQuery, score: bool) -> Seq<char> {
    let n = q.values@.len() as int;
    if n == 0 {
        all_sql(score)
    } else {
        phrase_head_sql(q, score) + phrase_sub_sql(q, score, 0) + phrase_joins_sql(q, score, n)
    }
}

/// `, clause_{i}.document_id` for `i` in `1..n`.
pub open spec fn coalesce_cols_sql(n: int) -> Seq<char>
    decreases n,
{
    if n <= 1 {
        Seq::empty()
    } else {
        coalesce_cols_sql(n - 1) + ", clause_"@ + dec_int(n - 1) + ".document_id"@
    }
}

/// ` + IFNULL(clause_{i}.terms, 0)` for `i` in `1..n`.
pub open spec fn terms_sum_sql(n: int) -> Seq<char>
    decreases n,
{
    if n <= 1 {
        Seq::empty()
    } else {
        terms_sum_sql(n - 1) + " + IFNULL(clause_"@ + dec_int(n - 1) + ".terms, 0)"@
    }
}

/// ` + IFNULL(clause_{i}.score, 0)` for `i` in `1..n`.
pub open spec fn scores_sum_sql(n: int) -> Seq<char>
    decreases n,
{
    if n <= 1 {
        Seq::empty()
    } else {
        scores_sum_sql(n - 1) + " + IFNULL(clause_"@ + dec_int(n - 1) + ".score, 0)"@
    }
}

/// The select list of a combined query with at least one positive clause.
pub open spec fn combined_head_sql(c: CombinedQuery, score: bool) -> Seq<char> {
    let n = c.must@.len() + c.should@.len();
    (if c.must@.len() > 0 {
        "SELECT clause_0.document_id AS document_id"@
    } else {
        "SELECT COALESCE(NULL, clause_0.document_id"@ + coalesce_cols_sql(n as int)
            + ") AS document_id"@
    }) + (if score {
        ", (IFNULL(clause_0.terms, 0)"@ + terms_sum_sql(n as int)
            + ") * (IFNULL(clause_0.score, 0)"@ + scores_sum_sql(n as int)
            + ") AS score, 1 AS terms"@
    } else {
        Seq::<char>::empty()
    }) + " FROM"@
}

/// The joined must clauses `0..j`, aliased from `clause_0`.
pub open spec fn must_part_sql(qs: Seq<Query>, score: bool, j: int) -> Seq<char>
    decreases qs, j,
{
    if j <= 0 || qs.len() < j {
        Seq::empty()
    } else {
        must_part_sql(qs, score, j - 1) + (if j - 1 == 0 {
            " ("@ + query_sql(qs[0], score) + ") AS clause_0"@
        } else {
            " JOIN ("@ + query_sql(qs[j - 1], score) + ") AS clause_"@ + dec_int(j - 1)
                + " USING (document_id)"@
        })
    }
}

/// The joined should clauses `0..j`, aliased from `clause_{m}` where `m` is
/// the number of must clauses: left joins beside musts, a full outer join
/// chain on their own.
pub open spec fn should_part_sql(qs: Seq<Query>, score: bool, j: int, m: int) -> Seq<char>
    decreases qs, j,
{
    if j <= 0 || qs.len() < j {
        Seq::empty()
    } else {
        should_part_sql(qs, score, j - 1, m) + (if j - 1 == 0 {
            (if m > 0 {
                " LEFT JOIN ("@
            } else {
                " ("@
            }) + query_sql(qs[0], score) + ") AS clause_"@ + dec_int(m) + (if m > 0 {
                " USING (document_id)"@
            } else {
                Seq::<char>::empty()
            })
        } else {
            (if m > 0 {
                " LEFT JOIN ("@
            } else {
                " FULL JOIN ("@
            }) + query_sql(qs[j - 1], score) + ") AS clause_"@ + dec_int(m + j - 1)
                + " USING (document_id)"@
        })
    }
}

/// The anti-join exclusions: must-not clauses `0..j`, aliased from
/// `clause_{base}`, compiled without scoring.
pub open spec fn must_not_part_sql(qs: Seq<Query>, j: int, base: int) -> Seq<char>
    decreases qs, j,
{
    if j <= 0 || qs.len() < j {
        Seq::empty()
    } else {
        must_not_part_sql(qs, j - 1, base) + " LEFT JOIN ("@ + query_sql(qs[j - 1], false)
            + ") AS clause_"@ + dec_int(base + j - 1) + " USING (document_id)"@
    }
}

/// ` AND clause_{base + i}.document_id IS NULL` for `i` in `1..j`.
pub open spec fn where_null_sql(j: int, base: int) -> Seq<char>
    decreases j,
{
    if j <= 1 {
        Seq::empty()
    } else {
        where_null_sql(j - 1, base) + " AND clause_"@ + dec_int(base + j - 1)
            + ".document_id IS NULL"@
    }
}

/// The anti-join exclusions and their `WHERE` conjunction, aliased from
/// `clause_{base}`.
pub open spec fn combined_neg_sql(c: CombinedQuery, base: int) -> Seq<char>
    decreases c, 0int,
{
    must_not_part_sql(c.must_not@, c.must_not@.len() as int, base) + " WHERE clause_"@
        + dec_int(base) + ".document_id IS NULL"@ + where_null_sql(
        c.must_not@.len() as int,
        base,
    )
}

/// The SQL fragment a combined query compiles to.
pub open spec fn combined_sql(c: CombinedQuery, score: bool) -> Seq<char>
    decreases c, 1int,
{
    let n = (c.must@.len() + c.should@.len()) as int;
    (if n != 0 {
        combined_head_sql(c, score) + must_part_sql(c.must@, score, c.must@.len() as int)
            + should_part_sql(c.should@, score, c.should@.len() as int, c.must@.len() as int)
    } else {
        all_sql(score)
    }) + (if c.must_not@.len() > 0 {
        combined_neg_sql(c, n)
    } else {
        Seq::<char>::empty()
    })
}

/// The SQL fragment a query compiles to.
pub open spec fn query_sql(q: Query, score: bool) -> Seq<char>
    decreases q, 2int,
{
    match q {
        Query::All(_) => all_sql(score),
        Query::Term(t) => term_sql(t, score),
        Query::Phrase(p) => phrase_sql(p, score),
        Query::Combined(c) => combined_sql(c, score),
    }
}

/// The parameters a phrase query binds: its values, in order.
pub open spec fn values_params(vs: Seq<Seq<char>>) -> Seq<Seq<char>> {
    vs
}

/// The parameters the clauses `0..j` of a clause list bind, in order.
pub open spec fn clauses_params(qs: Seq<Query>, j: int) -> Seq<Seq<char>>
    decreases qs, j,
{
    if j <= 0 || qs.len() < j {
        Seq::empty()
    } else {
        clauses_params(qs, j - 1) + query_params(qs[j - 1])
    }
}

/// The parameters a query binds, in left-to-right traversal order: one per
/// `?` in its SQL fragment.
pub open spec fn query_params(q: Query) -> Seq<Seq<char>>
    decreases q, 0int,
{
    match q {
        Query::All(_) => Seq::empty(),
        Query::Term(t) => seq![t.value@],
        Query::Phrase(p) => p.values.deep_view(),
        Query::Combined(c) => combined_params(c),
    }
}

/// The parameters a combined query binds: must clauses' parameters, then
/// should clauses', then must-not clauses'.
pub open spec fn combined_params(c: CombinedQuery) -> Seq<Seq<char>>
    decreases c, 0int,
{
    clauses_params(c.must@, c.must@.len() as int) + clauses_params(
        c.should@,
        c.should@.len() as int,
    ) + clauses_params(c.must_not@, c.must_not@.len() as int)
}

impl TermQuery {
    pub(crate) fn new(field: &Field, boost: String, value: String) -> (r: Self)
        ensures
            r.field_id == field.id,
            r.documents == field.documents,
            r.avg_documents_count@ == field.avg_documents_count@,
            r.boost@ == boost@,
            r.value@ == value@,
    {
        TermQuery {
            field_id: field.id,
            documents: field.documents,
            avg_documents_count: field.avg_documents_count.clone(),
            boost,
            value,
        }
    }
}

impl PhraseQuery {
    pub(crate) fn new(field: &Field, boost: String, values: Vec<String>) -> (r: Self)
        ensures
            r.field_id == field.id,
            r.documents == field.documents,
            r.avg_documents_count@ == field.avg_documents_count@,
            r.boost@ == boost@,
            r.values == values,
    {
        PhraseQuery {
            field_id: field.id,
            documents: field.documents,
            avg_documents_count: field.avg_documents_count.clone(),
            boost,
            values,
        }
    }
}

/// The queries among `cs.take(j)` whose occurrence is `o`, in order.
pub open spec fn clause_queries(cs: Seq<(Occur, Query)>, o: Occur) -> Seq<Query>
    decreases cs.len(),
{
    if cs.len() == 0 {
        Seq::empty()
    } else {
        let rest = clause_queries(cs.drop_last(), o);
        if cs.last().0 == o {
            rest.push(cs.last().1)
        } else {
            rest
        }
    }
}

impl CombinedQuery {
    /// Partitions the clauses by their occurrence into the three lists,
    /// keeping their relative order.
    pub fn new(clauses: Vec<(Occur, Query)>) -> (r: Self)
        ensures
            r.should@ == clause_queries(clauses@, Occur::Should),
            r.must@ == clause_queries(clauses@, Occur::Must),
            r.must_not@ == clause_queries(clauses@, Occur::MustNot),
    {
        let ghost all = clauses@;
        let mut clauses = clauses;
        let mut should: Vec<Query> = Vec::new();
        let mut must: Vec<Query> = Vec::new();
        let mut must_not: Vec<Query> = Vec::new();
        let ghost mut done: int = 0;
        while clauses.len() > 0
            invariant
                0 <= done <= all.len(),
                clauses@ == all.skip(done),
                should@ == clause_queries(all.take(done), Occur::Should),
                must@ == clause_queries(all.take(done), Occur::Must),
                must_not@ == clause_queries(all.take(done), Occur::MustNot),
            decreases clauses.len(),
        {
            let (occur, clause) = clauses.remove(0);
            proof {
                assert(all.take(done + 1).drop_last() =~= all.take(done));
                assert(all.take(done + 1).last() == all[done]);
                assert(clauses@ =~= all.skip(done + 1));
            }
            match occur {
                Occur::Should => should.push(clause),
                Occur::Must => must.push(clause),
                Occur::MustNot => must_not.push(clause),
            }
            proof {
                done = done + 1;
            }
        }
        proof {
            assert(all.take(all.len() as int) =~= all);
        }
        CombinedQuery { should, must, must_not }
    }
}


impl AllQuery {
    /// Appends the SQL this query compiles to; it binds no parameters.
    pub fn to_sql(&self, score: bool, sql: &mut String, params: &mut Vec<String>)
        ensures
            final(sql)@ == old(sql)@ + all_sql(score),
            *final(params) == *old(params),
    {
        if score {
            sql.append(
                "SELECT DISTINCT document_id, 1 AS score, 1 AS terms FROM canter_postings",
            );
        } else {
            sql.append("SELECT DISTINCT document_id FROM canter_postings");
        }
    }
}

impl TermQuery {
    /// Appends the SQL this query compiles to and binds its value.
    pub fn to_sql(&self, score: bool, sql: &mut String, params: &mut Vec<String>)
        ensures
            final(sql)@ == old(sql)@ + term_sql(*self, score),
            final(params).deep_view() == old(params).deep_view() + seq![self.value@],
    {
        if score {
            sql.append("SELECT canter_postings.document_id AS document_id, ");
            sql.append(self.boost.as_str());
            sql.append(" * canter_bm25(");
            append_i64(sql, self.documents);
            sql.append(", ");
            sql.append(self.avg_documents_count.as_str());
            sql.append(
                ", canter_terms.count, COUNT(canter_postings.position), canter_documents.count) AS score, 1 AS terms",
            );
        } else {
            sql.append("SELECT canter_postings.document_id AS document_id");
        }
        sql.append(
            " FROM canter_terms JOIN canter_postings ON canter_terms.id = canter_postings.term_id",
        );
        if score {
            sql.append(
                " JOIN canter_documents ON canter_terms.field_id = canter_documents.field_id AND canter_postings.document_id = canter_documents.document_id",
            );
        }
        sql.append(" WHERE canter_terms.field_id = ");
        append_i64(sql, self.field_id);
        sql.append(
            " AND canter_terms.value = ? GROUP BY canter_postings.term_id, canter_postings.document_id",
        );
        params.push(self.value.clone());
        proof {
            assert(sql@ =~= old(sql)@ + term_sql(*self, score));
            assert(params.deep_view() =~~= old(params).deep_view() + seq![self.value@]);
        }
    }
}

/// Appends one bound parameter.
fn push_param(params: &mut Vec<String>, v: &String)
    ensures
        final(params).deep_view() == old(params).deep_view().push(v@),
{
    params.push(v.clone());
    proof {
        assert(params.deep_view() =~~= old(params).deep_view().push(v@));
    }
}

impl PhraseQuery {
    /// Appends the subquery for value `i`, aliased `term_{i}`.
    fn append_sub(&self, score: bool, i: usize, sql: &mut String)
        ensures
            final(sql)@ == old(sql)@ + phrase_sub_sql(*self, score, i as int),
    {
        sql.append(
            "(SELECT canter_postings.document_id AS document_id, canter_postings.position AS position",
        );
        if score {
            sql.append(", canter_bm25(");
            append_i64(sql, self.documents);
            sql.append(", ");
            sql.append(self.avg_documents_count.as_str());
            sql.append(
                ", canter_terms.count, COUNT(canter_postings.position), canter_documents.count) AS score",
            );
        }
        sql.append(
            " FROM canter_terms JOIN canter_postings ON canter_terms.id = canter_postings.term_id",
        );
        if score {
            sql.append(
                " JOIN canter_documents ON canter_terms.field_id = canter_documents.field_id AND canter_postings.document_id = canter_documents.document_id",
            );
        }
        sql.append(" WHERE canter_terms.field_id = ");
        append_i64(sql, self.field_id);
        sql.append(
            " AND canter_terms.value = ? GROUP BY canter_postings.term_id, canter_postings.document_id) AS term_",
        );
        append_usize(sql, i);
        proof {
            assert(sql@ =~= old(sql)@ + phrase_sub_sql(*self, score, i as int));
        }
    }

    /// Appends the select list and `FROM` keyword.
    #[verifier::loop_isolation(false)]
    fn append_head(&self, score: bool, sql: &mut String)
        requires
            self.values@.len() > 0,
        ensures
            final(sql)@ == old(sql)@ + phrase_head_sql(*self, score),
    {
        let n = self.values.len();
        if score {
            sql.append("SELECT term_0.document_id AS document_id, ");
            sql.append(self.boost.as_str());
            sql.append(" * (term_0.score");
            let ghost sum_base = sql@;
            let mut idx: usize = 1;
            while idx < n
                invariant
                    1 <= idx <= n,
                    sql@ == sum_base + phrase_score_sum_sql(idx as int),
                decreases n - idx,
            {
                sql.append(" + term_");
                append_usize(sql, idx);
                sql.append(".score");
                proof {
                    assert(sql@ =~= sum_base + phrase_score_sum_sql(idx as int + 1));
                }
                idx = idx + 1;
            }
            sql.append(") AS score, ");
            append_usize(sql, n);
            sql.append(" AS terms FROM ");
            proof {
                assert(sql@ =~= old(sql)@ + phrase_head_sql(*self, score));
            }
        } else {
            sql.append("SELECT term_0.document_id AS document_id FROM ");
        }
    }

    /// Appends the SQL this query compiles to and binds its values in order.
    #[verifier::loop_isolation(false)]
    #[verifier::rlimit(100)]
    pub fn to_sql(&self, score: bool, sql: &mut String, params: &mut Vec<String>)
        ensures
            final(sql)@ == old(sql)@ + phrase_sql(*self, score),
            final(params).deep_view() == old(params).deep_view() + self.values.deep_view(),
    {
        let n = self.values.len();
        if n == 0 {
            AllQuery.to_sql(score, sql, params);
            proof {
                assert(params.deep_view() =~~= old(params).deep_view()
                    + self.values.deep_view());
            }
            return;
        }
        self.append_head(score, sql);
        self.append_sub(score, 0, sql);
        push_param(params, &self.values[0]);
        let ghost join_base = sql@;
        proof {
            assert(params.deep_view() =~~= old(params).deep_view()
                + self.values.deep_view().subrange(0, 1));
        }
        let mut i: usize = 1;
        while i < n
            invariant
                1 <= i <= n,
                sql@ == join_base + phrase_joins_sql(*self, score, i as int),
                params.deep_view() == old(params).deep_view() + self.values.deep_view().subrange(
                    0,
                    i as int,
                ),
            decreases n - i,
        {
            sql.append(" JOIN ");
            self.append_sub(score, i, sql);
            sql.append(" ON term_");
            append_usize(sql, i);
            sql.append(".document_id = term_0.document_id AND term_");
            append_usize(sql, i);
            sql.append(".position - term_0.position = ");
            append_usize(sql, i);
            push_param(params, &self.values[i]);
            proof {
                assert(sql@ =~= join_base + phrase_joins_sql(*self, score, i as int + 1));
                assert(params.deep_view() =~~= old(params).deep_view()
                    + self.values.deep_view().subrange(0, i as int + 1));
            }
            i = i + 1;
        }
        proof {
            assert(self.values.deep_view().subrange(0, n as int) =~~= self.values.deep_view());
            assert(sql@ =~= old(sql)@ + phrase_sql(*self, score));
        }
    }
}

impl CombinedQuery {
    /// Appends the select list and `FROM` keyword.
    #[verifier::loop_isolation(false)]
    #[verifier::rlimit(100)]
    fn append_head(&self, score: bool, sql: &mut String)
        requires
            self.must@.len() + self.should@.len() > 0,
        ensures
            final(sql)@ == old(sql)@ + combined_head_sql(*self, score),
    {
        let m = self.must.len();
        let s_len = self.should.len();
        let clauses: u128 = m as u128 + s_len as u128;
        if m > 0 {
            sql.append("SELECT clause_0.document_id AS document_id");
        } else {
            sql.append("SELECT COALESCE(NULL, clause_0.document_id");
            let ghost co_base = sql@;
            let mut idx: usize = 1;
            while idx < s_len
                invariant
                    1 <= idx <= s_len,
                    m == 0,
                    sql@ == co_base + coalesce_cols_sql(idx as int),
                decreases s_len - idx,
            {
                sql.append(", clause_");
                append_usize(sql, idx);
                sql.append(".document_id");
                proof {
                    assert(sql@ =~= co_base + coalesce_cols_sql(idx as int + 1));
                }
                idx = idx + 1;
            }
            sql.append(") AS document_id");
        }
        if score {
            sql.append(", (IFNULL(clause_0.terms, 0)");
            let ghost t_base = sql@;
            let mut k: u128 = 1;
            while k < clauses
                invariant
                    1 <= k <= clauses,
                    sql@ == t_base + terms_sum_sql(k as int),
                decreases clauses - k,
            {
                sql.append(" + IFNULL(clause_");
                append_u128(sql, k);
                sql.append(".terms, 0)");
                proof {
                    assert(sql@ =~= t_base + terms_sum_sql(k as int + 1));
                }
                k = k + 1;
            }
            sql.append(") * (IFNULL(clause_0.score, 0)");
            let ghost s_base = sql@;
            let mut k2: u128 = 1;
            while k2 < clauses
                invariant
                    1 <= k2 <= clauses,
                    sql@ == s_base + scores_sum_sql(k2 as int),
                decreases clauses - k2,
            {
                sql.append(" + IFNULL(clause_");
                append_u128(sql, k2);
                sql.append(".score, 0)");
                proof {
                    assert(sql@ =~= s_base + scores_sum_sql(k2 as int + 1));
                }
                k2 = k2 + 1;
            }
            sql.append(") AS score, 1 AS terms");
        }
        sql.append(" FROM");
        proof {
            assert(sql@ =~= old(sql)@ + combined_head_sql(*self, score));
        }
    }

    /// Appends the joined must clauses.
    #[verifier::loop_isolation(false)]
    #[verifier::rlimit(100)]
    fn append_must(&self, score: bool, sql: &mut String, params: &mut Vec<String>)
        ensures
            final(sql)@ == old(sql)@ + must_part_sql(self.must@, score, self.must@.len() as int),
            final(params).deep_view() == old(params).deep_view() + clauses_params(
                self.must@,
                self.must@.len() as int,
            ),
        decreases *self, 0int,
    {
        let m = self.must.len();
        let mut i: usize = 0;
        while i < m
            invariant
                0 <= i <= m,
                sql@ == old(sql)@ + must_part_sql(self.must@, score, i as int),
                params.deep_view() == old(params).deep_view() + clauses_params(
                    self.must@,
                    i as int,
                ),
            decreases m - i,
        {
            if i == 0 {
                sql.append(" (");
            } else {
                sql.append(" JOIN (");
            }
            self.must[i].to_sql(score, sql, params);
            if i == 0 {
                sql.append(") AS clause_0");
            } else {
                sql.append(") AS clause_");
                append_usize(sql, i);
                sql.append(" USING (document_id)");
            }
            proof {
                assert(sql@ =~= old(sql)@ + must_part_sql(self.must@, score, i as int + 1));
                assert(params.deep_view() =~~= old(params).deep_view() + clauses_params(
                    self.must@,
                    i as int + 1,
                ));
            }
            i = i + 1;
        }
    }

    /// Appends the joined should clauses.
    #[verifier::loop_isolation(false)]
    #[verifier::rlimit(100)]
    fn append_should(&self, score: bool, sql: &mut String, params: &mut Vec<String>)
        ensures
            final(sql)@ == old(sql)@ + should_part_sql(
                self.should@,
                score,
                self.should@.len() as int,
                self.must@.len() as int,
            ),
            final(params).deep_view() == old(params).deep_view() + clauses_params(
                self.should@,
                self.should@.len() as int,
            ),
        decreases *self, 0int,
    {
        let m = self.must.len();
        let s_len = self.should.len();
        let mut j: usize = 0;
        while j < s_len
            invariant
                0 <= j <= s_len,
                sql@ == old(sql)@ + should_part_sql(self.should@, score, j as int, m as int),
                params.deep_view() == old(params).deep_view() + clauses_params(
                    self.should@,
                    j as int,
                ),
            decreases s_len - j,
        {
            if j == 0 && m == 0 {
                sql.append(" (");
            } else if j == 0 || m > 0 {
                sql.append(" LEFT JOIN (");
            } else {
                sql.append(" FULL JOIN (");
            }
            self.should[j].to_sql(score, sql, params);
            sql.append(") AS clause_");
            let alias: u128 = m as u128 + j as u128;
            append_u128(sql, alias);
            if j > 0 || m > 0 {
                sql.append(" USING (document_id)");
            }
            proof {
                assert(alias as int == m + j);
                assert(sql@ =~= old(sql)@ + should_part_sql(
                    self.should@,
                    score,
                    j as int + 1,
                    m as int,
                ));
                assert(params.deep_view() =~~= old(params).deep_view() + clauses_params(
                    self.should@,
                    j as int + 1,
                ));
            }
            j = j + 1;
        }
    }

    /// Appends the anti-join exclusions and their `WHERE` conjunction.
    #[verifier::loop_isolation(false)]
    #[verifier::rlimit(100)]
    fn append_neg(&self, base: u128, sql: &mut String, params: &mut Vec<String>)
        requires
            self.must_not@.len() > 0,
            base as int + self.must_not@.len() <= u128::MAX,
        ensures
            final(sql)@ == old(sql)@ + combined_neg_sql(*self, base as int),
            final(params).deep_view() == old(params).deep_view() + clauses_params(
                self.must_not@,
                self.must_not@.len() as int,
            ),
        decreases *self, 0int,
    {
        let mn = self.must_not.len();
        let mut j: usize = 0;
        while j < mn
            invariant
                0 <= j <= mn,
                sql@ == old(sql)@ + must_not_part_sql(self.must_not@, j as int, base as int),
                params.deep_view() == old(params).deep_view() + clauses_params(
                    self.must_not@,
                    j as int,
                ),
            decreases mn - j,
        {
            sql.append(" LEFT JOIN (");
            self.must_not[j].to_sql(false, sql, params);
            sql.append(") AS clause_");
            let alias: u128 = base + j as u128;
            append_u128(sql, alias);
            sql.append(" USING (document_id)");
            proof {
                assert(alias as int == base as int + j);
                assert(sql@ =~= old(sql)@ + must_not_part_sql(
                    self.must_not@,
                    j as int + 1,
                    base as int,
                ));
                assert(params.deep_view() =~~= old(params).deep_view() + clauses_params(
                    self.must_not@,
                    j as int + 1,
                ));
            }
            j = j + 1;
        }
        sql.append(" WHERE clause_");
        append_u128(sql, base);
        sql.append(".document_id IS NULL");
        let ghost where_done = sql@;
        let mut j2: usize = 1;
        while j2 < mn
            invariant
                1 <= j2 <= mn,
                sql@ == where_done + where_null_sql(j2 as int, base as int),
            decreases mn - j2,
        {
            sql.append(" AND clause_");
            let alias: u128 = base + j2 as u128;
            append_u128(sql, alias);
            sql.append(".document_id IS NULL");
            proof {
                assert(alias as int == base as int + j2);
                assert(sql@ =~= where_done + where_null_sql(j2 as int + 1, base as int));
            }
            j2 = j2 + 1;
        }
        proof {
            assert(sql@ =~= old(sql)@ + combined_neg_sql(*self, base as int));
        }
    }

    /// Appends the SQL this query compiles to and binds the parameters of
    /// its clauses in traversal order: must, should, must not.
    #[verifier::rlimit(100)]
    pub fn to_sql(&self, score: bool, sql: &mut String, params: &mut Vec<String>)
        ensures
            final(sql)@ == old(sql)@ + combined_sql(*self, score),
            final(params).deep_view() == old(params).deep_view() + combined_params(*self),
        decreases *self, 1int,
    {
        let m = self.must.len();
        let s_len = self.should.len();
        let clauses: u128 = m as u128 + s_len as u128;
        if clauses != 0 {
            self.append_head(score, sql);
            self.append_must(score, sql, params);
            self.append_should(score, sql, params);
        } else {
            AllQuery.to_sql(score, sql, params);
            proof {
                assert(clauses_params(self.must@, 0) =~~= Seq::<Seq<char>>::empty());
                assert(clauses_params(self.should@, 0) =~~= Seq::<Seq<char>>::empty());
            }
        }
        if self.must_not.len() > 0 {
            self.append_neg(clauses, sql, params);
        } else {
            proof {
                assert(clauses_params(self.must_not@, 0) =~~= Seq::<Seq<char>>::empty());
            }
        }
        proof {
            assert(clauses as int == self.must@.len() + self.should@.len());
            assert(sql@ =~= old(sql)@ + combined_sql(*self, score));
            assert(params.deep_view() =~~= old(params).deep_view() + combined_params(*self));
        }
    }
}

/// A combined query with no clauses at all compiles to exactly the SQL and
/// parameter list of the match-all query.  Together with `parse`'s contract,
/// a query text that is blank after trimming is equivalent to `AllQuery`.
pub proof fn lemma_empty_combined_is_all(c: CombinedQuery, score: bool)
    requires
        c.must@.len() == 0,
        c.should@.len() == 0,
        c.must_not@.len() == 0,
    ensures
        query_sql(Query::Combined(c), score) == query_sql(Query::All(AllQuery), score),
        query_params(Query::Combined(c)) == query_params(Query::All(AllQuery)),
{
    assert(combined_sql(c, score) =~= all_sql(score));
    assert(combined_params(c) =~= Seq::<Seq<char>>::empty());
}

impl Query {
    /// Appends the SQL this query compiles to and binds its parameters in
    /// left-to-right traversal order: one per `?` in the appended SQL.
    pub fn to_sql(&self, score: bool, sql: &mut String, params: &mut Vec<String>)
        ensures
            final(sql)@ == old(sql)@ + query_sql(*self, score),
            final(params).deep_view() == old(params).deep_view() + query_params(*self),
        decreases *self, 2int,
    {
        match self {
            Query::All(a) => {
                a.to_sql(score, sql, params);
                proof {
                    assert(params.deep_view() =~~= old(params).deep_view() + query_params(
                        *self,
                    ));
                }
            },
            Query::Term(t) => t.to_sql(score, sql, params),
            Query::Phrase(p) => p.to_sql(score, sql, params),
            Query::Combined(c) => c.to_sql(score, sql, params),
        }
    }
}


} // verus!
