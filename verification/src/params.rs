use vstd::prelude::*;

use crate::digits::{dec_digits, dec_int, digit_char};
use crate::query::{
    all_sql, clauses_params, coalesce_cols_sql, combined_head_sql, combined_neg_sql,
    combined_params, combined_sql, must_not_part_sql, must_part_sql, phrase_head_sql,
    phrase_join_sql, phrase_joins_sql, phrase_score_sum_sql, phrase_sql, phrase_sub_sql,
    query_params, query_sql, scores_sum_sql, should_part_sql, term_sql, terms_sum_sql,
    where_null_sql, CombinedQuery, PhraseQuery, Query, TermQuery,
};

verus! {

/// The number of `?` placeholders in a SQL fragment.
pub open spec fn placeholders(s: Seq<char>) -> int
    decreases s.len(),
{
    if s.len() == 0 {
        0int
    } else {
        placeholders(s.drop_last()) + (if s.last() == '?' {
            1int
        } else {
            0int
        })
    }
}

/// The texts a query splices into its SQL (rather than binding them) hold no
/// `?`: its boost and average-length statistic, recursively through combined
/// clauses.  Token values are always bound, never spliced, so they need no
/// such condition.
pub open spec fn splice_clean(q: Query) -> bool
    decreases q, 1int,
{
    match q {
        Query::All(_) => true,
        Query::Term(t) => placeholders(t.boost@) == 0 && placeholders(t.avg_documents_count@)
            == 0,
        Query::Phrase(p) => placeholders(p.boost@) == 0 && placeholders(p.avg_documents_count@)
            == 0,
        Query::Combined(c) => clauses_clean(c.must@) && clauses_clean(c.should@)
            && clauses_clean(c.must_not@),
    }
}

/// Every clause of the list is splice-clean.
pub open spec fn clauses_clean(qs: Seq<Query>) -> bool
    decreases qs, 0int,
{
    forall|i: int| 0 <= i < qs.len() ==> splice_clean(#[trigger] qs[i])
}

proof fn lemma_count_none(s: Seq<char>)
    requires
        forall|i: int| 0 <= i < s.len() ==> s[i] != '?',
    ensures
        placeholders(s) == 0,
    decreases s.len(),
{
    if s.len() > 0 {
        lemma_count_none(s.drop_last());
    }
}

proof fn lemma_count_one(s: Seq<char>, k: int)
    requires
        0 <= k < s.len(),
        s[k] == '?',
        forall|i: int| 0 <= i < s.len() && i != k ==> s[i] != '?',
    ensures
        placeholders(s) == 1,
    decreases s.len(),
{
    if k == s.len() - 1 {
        lemma_count_none(s.drop_last());
    } else {
        lemma_count_one(s.drop_last(), k);
    }
}

broadcast proof fn lemma_count_add(a: Seq<char>, b: Seq<char>)
    ensures
        #[trigger] placeholders(a + b) == placeholders(a) + placeholders(b),
    decreases b.len(),
{
    if b.len() == 0 {
        assert(a + b =~= a);
    } else {
        assert((a + b).drop_last() =~= a + b.drop_last());
        lemma_count_add(a, b.drop_last());
    }
}

proof fn lemma_count_dec_digits(n: int)
    ensures
        placeholders(dec_digits(n)) == 0,
    decreases (if n < 10 {
        0int
    } else {
        n
    }),
{
    assert forall|d: int| digit_char(d) != '?' by {}
    assert(placeholders(Seq::<char>::empty()) == 0);
    if n < 10 {
        assert(dec_digits(n).drop_last() =~= Seq::<char>::empty());
    } else {
        lemma_count_dec_digits(n / 10);
        assert(dec_digits(n).drop_last() =~= dec_digits(n / 10));
    }
}

proof fn lemma_count_dec_int(n: int)
    ensures
        placeholders(dec_int(n)) == 0,
{
    lemma_count_dec_digits(n);
    if n < 0 {
        lemma_count_dec_digits(-n);
        lemma_count_add(seq!['-'], dec_digits(-n));
        assert(seq!['-'].drop_last() =~= Seq::<char>::empty());
        assert(placeholders(Seq::<char>::empty()) == 0);
        assert(placeholders(seq!['-']) == 0);
    }
}

proof fn lemma_count_all(score: bool)
    ensures
        placeholders(all_sql(score)) == 0,
{
    reveal_strlit("SELECT DISTINCT document_id, 1 AS score, 1 AS terms FROM canter_postings");
    reveal_strlit("SELECT DISTINCT document_id FROM canter_postings");
    lemma_count_none(all_sql(score));
}


proof fn lemma_count_term(q: TermQuery, score: bool)
    requires
        placeholders(q.boost@) == 0,
        placeholders(q.avg_documents_count@) == 0,
    ensures
        placeholders(term_sql(q, score)) == 1,
{
    broadcast use lemma_count_add;

    reveal_strlit("SELECT canter_postings.document_id AS document_id, ");
    reveal_strlit(" * canter_bm25(");
    reveal_strlit(", ");
    reveal_strlit(
        ", canter_terms.count, COUNT(canter_postings.position), canter_documents.count) AS score, 1 AS terms",
    );
    reveal_strlit("SELECT canter_postings.document_id AS document_id");
    reveal_strlit(
        " FROM canter_terms JOIN canter_postings ON canter_terms.id = canter_postings.term_id",
    );
    reveal_strlit(
        " JOIN canter_documents ON canter_terms.field_id = canter_documents.field_id AND canter_postings.document_id = canter_documents.document_id",
    );
    reveal_strlit(" WHERE canter_terms.field_id = ");
    reveal_strlit(
        " AND canter_terms.value = ? GROUP BY canter_postings.term_id, canter_postings.document_id",
    );
    lemma_count_none("SELECT canter_postings.document_id AS document_id, "@);
    lemma_count_none(" * canter_bm25("@);
    lemma_count_none(", "@);
    lemma_count_none(
        ", canter_terms.count, COUNT(canter_postings.position), canter_documents.count) AS score, 1 AS terms"@,
    );
    lemma_count_none("SELECT canter_postings.document_id AS document_id"@);
    lemma_count_none(
        " FROM canter_terms JOIN canter_postings ON canter_terms.id = canter_postings.term_id"@,
    );
    lemma_count_none(
        " JOIN canter_documents ON canter_terms.field_id = canter_documents.field_id AND canter_postings.document_id = canter_documents.document_id"@,
    );
    lemma_count_none(" WHERE canter_terms.field_id = "@);
    lemma_count_one(
        " AND canter_terms.value = ? GROUP BY canter_postings.term_id, canter_postings.document_id"@,
        26,
    );
    lemma_count_dec_int(q.documents as int);
    lemma_count_dec_int(q.field_id as int);
    assert(placeholders(Seq::<char>::empty()) == 0);
}

proof fn lemma_count_phrase_sub(q: PhraseQuery, score: bool, i: int)
    requires
        placeholders(q.avg_documents_count@) == 0,
    ensures
        placeholders(phrase_sub_sql(q, score, i)) == 1,
{
    broadcast use lemma_count_add;

    reveal_strlit(
        "(SELECT canter_postings.document_id AS document_id, canter_postings.position AS position",
    );
    reveal_strlit(", canter_bm25(");
    reveal_strlit(", ");
    reveal_strlit(
        ", canter_terms.count, COUNT(canter_postings.position), canter_documents.count) AS score",
    );
    reveal_strlit(
        " FROM canter_terms JOIN canter_postings ON canter_terms.id = canter_postings.term_id",
    );
    reveal_strlit(
        " JOIN canter_documents ON canter_terms.field_id = canter_documents.field_id AND canter_postings.document_id = canter_documents.document_id",
    );
    reveal_strlit(" WHERE canter_terms.field_id = ");
    reveal_strlit(
        " AND canter_terms.value = ? GROUP BY canter_postings.term_id, canter_postings.document_id) AS term_",
    );
    lemma_count_none(
        "(SELECT canter_postings.document_id AS document_id, canter_postings.position AS position"@,
    );
    lemma_count_none(", canter_bm25("@);
    lemma_count_none(", "@);
    lemma_count_none(
        ", canter_terms.count, COUNT(canter_postings.position), canter_documents.count) AS score"@,
    );
    lemma_count_none(
        " FROM canter_terms JOIN canter_postings ON canter_terms.id = canter_postings.term_id"@,
    );
    lemma_count_none(
        " JOIN canter_documents ON canter_terms.field_id = canter_documents.field_id AND canter_postings.document_id = canter_documents.document_id"@,
    );
    lemma_count_none(" WHERE canter_terms.field_id = "@);
    lemma_count_one(
        " AND canter_terms.value = ? GROUP BY canter_postings.term_id, canter_postings.document_id) AS term_"@,
        26,
    );
    lemma_count_dec_int(q.documents as int);
    lemma_count_dec_int(q.field_id as int);
    lemma_count_dec_int(i);
    assert(placeholders(Seq::<char>::empty()) == 0);
}

proof fn lemma_count_phrase_join(q: PhraseQuery, score: bool, i: int)
    requires
        placeholders(q.avg_documents_count@) == 0,
    ensures
        placeholders(phrase_join_sql(q, score, i)) == 1,
{
    broadcast use lemma_count_add;

    reveal_strlit(" JOIN ");
    reveal_strlit(" ON term_");
    reveal_strlit(".document_id = term_0.document_id AND term_");
    reveal_strlit(".position - term_0.position = ");
    lemma_count_none(" JOIN "@);
    lemma_count_none(" ON term_"@);
    lemma_count_none(".document_id = term_0.document_id AND term_"@);
    lemma_count_none(".position - term_0.position = "@);
    lemma_count_phrase_sub(q, score, i);
    lemma_count_dec_int(i);
}

proof fn lemma_count_phrase_joins(q: PhraseQuery, score: bool, n: int)
    requires
        placeholders(q.avg_documents_count@) == 0,
    ensures
        placeholders(phrase_joins_sql(q, score, n)) == (if n <= 1 {
            0int
        } else {
            n - 1
        }),
    decreases n,
{
    broadcast use lemma_count_add;

    if n <= 1 {
    } else {
        lemma_count_phrase_joins(q, score, n - 1);
        lemma_count_phrase_join(q, score, n - 1);
    }
}

proof fn lemma_count_score_sum(n: int)
    ensures
        placeholders(phrase_score_sum_sql(n)) == 0,
    decreases n,
{
    broadcast use lemma_count_add;

    reveal_strlit(" + term_");
    reveal_strlit(".score");
    if n <= 1 {
    } else {
        lemma_count_score_sum(n - 1);
        lemma_count_none(" + term_"@);
        lemma_count_none(".score"@);
        lemma_count_dec_int(n - 1);
    }
}

proof fn lemma_count_phrase_head(q: PhraseQuery, score: bool)
    requires
        placeholders(q.boost@) == 0,
    ensures
        placeholders(phrase_head_sql(q, score)) == 0,
{
    broadcast use lemma_count_add;

    reveal_strlit("SELECT term_0.document_id AS document_id, ");
    reveal_strlit(" * (term_0.score");
    reveal_strlit(") AS score, ");
    reveal_strlit(" AS terms FROM ");
    reveal_strlit("SELECT term_0.document_id AS document_id FROM ");
    lemma_count_none("SELECT term_0.document_id AS document_id, "@);
    lemma_count_none(" * (term_0.score"@);
    lemma_count_none(") AS score, "@);
    lemma_count_none(" AS terms FROM "@);
    lemma_count_none("SELECT term_0.document_id AS document_id FROM "@);
    lemma_count_score_sum(q.values@.len() as int);
    lemma_count_dec_int(q.values@.len() as int);
}

proof fn lemma_count_phrase(q: PhraseQuery, score: bool)
    requires
        placeholders(q.boost@) == 0,
        placeholders(q.avg_documents_count@) == 0,
    ensures
        placeholders(phrase_sql(q, score)) == q.values@.len(),
{
    broadcast use lemma_count_add;

    let n = q.values@.len() as int;
    if n == 0 {
        lemma_count_all(score);
    } else {
        lemma_count_phrase_head(q, score);
        lemma_count_phrase_sub(q, score, 0);
        lemma_count_phrase_joins(q, score, n);
    }
}

proof fn lemma_count_coalesce(n: int)
    ensures
        placeholders(coalesce_cols_sql(n)) == 0,
    decreases n,
{
    broadcast use lemma_count_add;

    reveal_strlit(", clause_");
    reveal_strlit(".document_id");
    if n <= 1 {
    } else {
        lemma_count_coalesce(n - 1);
        lemma_count_none(", clause_"@);
        lemma_count_none(".document_id"@);
        lemma_count_dec_int(n - 1);
    }
}

proof fn lemma_count_terms_sum(n: int)
    ensures
        placeholders(terms_sum_sql(n)) == 0,
    decreases n,
{
    broadcast use lemma_count_add;

    reveal_strlit(" + IFNULL(clause_");
    reveal_strlit(".terms, 0)");
    if n <= 1 {
    } else {
        lemma_count_terms_sum(n - 1);
        lemma_count_none(" + IFNULL(clause_"@);
        lemma_count_none(".terms, 0)"@);
        lemma_count_dec_int(n - 1);
    }
}

proof fn lemma_count_scores_sum(n: int)
    ensures
        placeholders(scores_sum_sql(n)) == 0,
    decreases n,
{
    broadcast use lemma_count_add;

    reveal_strlit(" + IFNULL(clause_");
    reveal_strlit(".score, 0)");
    if n <= 1 {
    } else {
        lemma_count_scores_sum(n - 1);
        lemma_count_none(" + IFNULL(clause_"@);
        lemma_count_none(".score, 0)"@);
        lemma_count_dec_int(n - 1);
    }
}

proof fn lemma_count_combined_head(c: CombinedQuery, score: bool)
    ensures
        placeholders(combined_head_sql(c, score)) == 0,
{
    broadcast use lemma_count_add;

    let n = (c.must@.len() + c.should@.len()) as int;
    reveal_strlit("SELECT clause_0.document_id AS document_id");
    reveal_strlit("SELECT COALESCE(NULL, clause_0.document_id");
    reveal_strlit(") AS document_id");
    reveal_strlit(", (IFNULL(clause_0.terms, 0)");
    reveal_strlit(") * (IFNULL(clause_0.score, 0)");
    reveal_strlit(") AS score, 1 AS terms");
    reveal_strlit(" FROM");
    lemma_count_none("SELECT clause_0.document_id AS document_id"@);
    lemma_count_none("SELECT COALESCE(NULL, clause_0.document_id"@);
    lemma_count_none(") AS document_id"@);
    lemma_count_none(", (IFNULL(clause_0.terms, 0)"@);
    lemma_count_none(") * (IFNULL(clause_0.score, 0)"@);
    lemma_count_none(") AS score, 1 AS terms"@);
    lemma_count_none(" FROM"@);
    lemma_count_coalesce(n);
    lemma_count_terms_sum(n);
    lemma_count_scores_sum(n);
    assert(placeholders(Seq::<char>::empty()) == 0);
}

proof fn lemma_count_where_null(j: int, base: int)
    ensures
        placeholders(where_null_sql(j, base)) == 0,
    decreases j,
{
    broadcast use lemma_count_add;

    reveal_strlit(" AND clause_");
    reveal_strlit(".document_id IS NULL");
    if j <= 1 {
    } else {
        lemma_count_where_null(j - 1, base);
        lemma_count_none(" AND clause_"@);
        lemma_count_none(".document_id IS NULL"@);
        lemma_count_dec_int(base + j - 1);
    }
}

proof fn lemma_count_must_part(qs: Seq<Query>, score: bool, j: int)
    requires
        clauses_clean(qs),
    ensures
        placeholders(must_part_sql(qs, score, j)) == clauses_params(qs, j).len(),
    decreases qs, j,
{
    broadcast use lemma_count_add;

    reveal_strlit(" (");
    reveal_strlit(") AS clause_0");
    reveal_strlit(" JOIN (");
    reveal_strlit(") AS clause_");
    reveal_strlit(" USING (document_id)");
    if j <= 0 || qs.len() < j {
    } else {
        lemma_count_must_part(qs, score, j - 1);
        lemma_count_query(qs[j - 1], score);
        lemma_count_none(" ("@);
        lemma_count_none(") AS clause_0"@);
        lemma_count_none(" JOIN ("@);
        lemma_count_none(") AS clause_"@);
        lemma_count_none(" USING (document_id)"@);
        lemma_count_dec_int(j - 1);
    }
}

proof fn lemma_count_should_part(qs: Seq<Query>, score: bool, j: int, m: int)
    requires
        clauses_clean(qs),
    ensures
        placeholders(should_part_sql(qs, score, j, m)) == clauses_params(qs, j).len(),
    decreases qs, j,
{
    broadcast use lemma_count_add;

    reveal_strlit(" LEFT JOIN (");
    reveal_strlit(" (");
    reveal_strlit(" FULL JOIN (");
    reveal_strlit(") AS clause_");
    reveal_strlit(" USING (document_id)");
    if j <= 0 || qs.len() < j {
    } else {
        lemma_count_should_part(qs, score, j - 1, m);
        lemma_count_query(qs[j - 1], score);
        lemma_count_none(" LEFT JOIN ("@);
        lemma_count_none(" ("@);
        lemma_count_none(" FULL JOIN ("@);
        lemma_count_none(") AS clause_"@);
        lemma_count_none(" USING (document_id)"@);
        lemma_count_dec_int(m);
        lemma_count_dec_int(m + j - 1);
        assert(placeholders(Seq::<char>::empty()) == 0);
    }
}

proof fn lemma_count_must_not_part(qs: Seq<Query>, j: int, base: int)
    requires
        clauses_clean(qs),
    ensures
        placeholders(must_not_part_sql(qs, j, base)) == clauses_params(qs, j).len(),
    decreases qs, j,
{
    broadcast use lemma_count_add;

    reveal_strlit(" LEFT JOIN (");
    reveal_strlit(") AS clause_");
    reveal_strlit(" USING (document_id)");
    if j <= 0 || qs.len() < j {
    } else {
        lemma_count_must_not_part(qs, j - 1, base);
        lemma_count_query(qs[j - 1], false);
        lemma_count_none(" LEFT JOIN ("@);
        lemma_count_none(") AS clause_"@);
        lemma_count_none(" USING (document_id)"@);
        lemma_count_dec_int(base + j - 1);
    }
}

proof fn lemma_count_neg(c: CombinedQuery, base: int)
    requires
        clauses_clean(c.must_not@),
    ensures
        placeholders(combined_neg_sql(c, base)) == clauses_params(
            c.must_not@,
            c.must_not@.len() as int,
        ).len(),
    decreases c, 0int,
{
    broadcast use lemma_count_add;

    reveal_strlit(" WHERE clause_");
    reveal_strlit(".document_id IS NULL");
    lemma_count_must_not_part(c.must_not@, c.must_not@.len() as int, base);
    lemma_count_none(" WHERE clause_"@);
    lemma_count_none(".document_id IS NULL"@);
    lemma_count_dec_int(base);
    lemma_count_where_null(c.must_not@.len() as int, base);
}

proof fn lemma_count_combined(c: CombinedQuery, score: bool)
    requires
        splice_clean(Query::Combined(c)),
    ensures
        placeholders(combined_sql(c, score)) == combined_params(c).len(),
    decreases c, 1int,
{
    broadcast use lemma_count_add;

    let n = (c.must@.len() + c.should@.len()) as int;
    if n != 0 {
        lemma_count_combined_head(c, score);
        lemma_count_must_part(c.must@, score, c.must@.len() as int);
        lemma_count_should_part(c.should@, score, c.should@.len() as int, c.must@.len() as int);
    } else {
        lemma_count_all(score);
        assert(clauses_params(c.must@, 0).len() == 0);
        assert(clauses_params(c.should@, 0).len() == 0);
    }
    if c.must_not@.len() > 0 {
        lemma_count_neg(c, n);
    } else {
        assert(clauses_params(c.must_not@, 0).len() == 0);
        assert(placeholders(Seq::<char>::empty()) == 0);
    }
}

proof fn lemma_count_query(q: Query, score: bool)
    requires
        splice_clean(q),
    ensures
        placeholders(query_sql(q, score)) == query_params(q).len(),
    decreases q, 2int,
{
    match q {
        Query::All(_) => {
            lemma_count_all(score);
        },
        Query::Term(t) => {
            lemma_count_term(t, score);
        },
        Query::Phrase(p) => {
            lemma_count_phrase(p, score);
            assert(p.values.deep_view().len() == p.values@.len());
        },
        Query::Combined(c) => {
            lemma_count_combined(c, score);
        },
    }
}

/// Every `?` placeholder in a compiled query corresponds to exactly one
/// bound parameter, pushed in left-to-right traversal order: the compiled
/// SQL holds as many `?` as the parameter list is long.  The spliced texts
/// (boosts and average-length statistics) must themselves be free of `?`;
/// token values are bound, never spliced, so they are unconstrained.
pub proof fn lemma_one_param_per_placeholder(q: Query, score: bool)
    requires
        splice_clean(q),
    ensures
        placeholders(query_sql(q, score)) == query_params(q).len(),
{
    lemma_count_query(q, score);
}


} // verus!
