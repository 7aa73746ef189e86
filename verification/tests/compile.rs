use canter::{AllQuery, CombinedQuery, Occur, PhraseQuery, Query, TermQuery};

fn term(value: &str) -> TermQuery {
    TermQuery {
        field_id: 1,
        documents: 4,
        avg_documents_count: "1.5".to_string(),
        boost: "1".to_string(),
        value: value.to_string(),
    }
}

#[test]
fn all_query_selects_every_posted_document() {
    let mut sql = String::new();
    let mut params: Vec<String> = Vec::new();
    AllQuery.to_sql(true, &mut sql, &mut params);
    assert_eq!(
        sql,
        "SELECT DISTINCT document_id, 1 AS score, 1 AS terms FROM canter_postings"
    );
    assert_eq!(params, Vec::<String>::new());

    let mut sql = String::new();
    AllQuery.to_sql(false, &mut sql, &mut params);
    assert_eq!(sql, "SELECT DISTINCT document_id FROM canter_postings");
    assert_eq!(params, Vec::<String>::new());
}

#[test]
fn term_query_compiles_to_a_grouped_join() {
    let mut sql = String::new();
    let mut params: Vec<String> = Vec::new();
    term("foo").to_sql(false, &mut sql, &mut params);
    assert_eq!(
        sql,
        "SELECT canter_postings.document_id AS document_id \
         FROM canter_terms JOIN canter_postings ON canter_terms.id = canter_postings.term_id \
         WHERE canter_terms.field_id = 1 AND canter_terms.value = ? \
         GROUP BY canter_postings.term_id, canter_postings.document_id"
    );
    assert_eq!(params, ["foo"]);
}

#[test]
fn scored_term_query_splices_the_corpus_statistics() {
    let mut sql = String::new();
    let mut params: Vec<String> = Vec::new();
    let q = TermQuery {
        field_id: 3,
        documents: 7,
        avg_documents_count: "2.25".to_string(),
        boost: "1.5".to_string(),
        value: "bar".to_string(),
    };
    q.to_sql(true, &mut sql, &mut params);
    assert!(sql.starts_with(
        "SELECT canter_postings.document_id AS document_id, 1.5 * canter_bm25(7, 2.25, \
         canter_terms.count, COUNT(canter_postings.position), canter_documents.count) \
         AS score, 1 AS terms"
    ));
    assert!(sql.contains("WHERE canter_terms.field_id = 3 AND canter_terms.value = ?"));
    assert_eq!(params, ["bar"]);
}

#[test]
fn phrase_query_joins_on_consecutive_positions() {
    let mut sql = String::new();
    let mut params: Vec<String> = Vec::new();
    let q = PhraseQuery {
        field_id: 1,
        documents: 4,
        avg_documents_count: "1.5".to_string(),
        boost: "1".to_string(),
        values: vec!["bar".to_string(), "baz".to_string()],
    };
    q.to_sql(false, &mut sql, &mut params);
    assert!(sql.contains("AS term_0"));
    assert!(sql.contains(
        "ON term_1.document_id = term_0.document_id AND term_1.position - term_0.position = 1"
    ));
    assert_eq!(params, ["bar", "baz"]);
}

#[test]
fn empty_phrase_degenerates_to_the_all_query() {
    let mut sql = String::new();
    let mut params: Vec<String> = Vec::new();
    let q = PhraseQuery {
        field_id: 1,
        documents: 4,
        avg_documents_count: "1.5".to_string(),
        boost: "1".to_string(),
        values: vec![],
    };
    q.to_sql(true, &mut sql, &mut params);
    assert_eq!(
        sql,
        "SELECT DISTINCT document_id, 1 AS score, 1 AS terms FROM canter_postings"
    );
    assert_eq!(params, Vec::<String>::new());
}

#[test]
fn combined_query_without_clauses_compiles_like_the_all_query() {
    let combined = CombinedQuery::new(vec![]);
    let mut sql_combined = String::new();
    let mut params_combined: Vec<String> = Vec::new();
    combined.to_sql(true, &mut sql_combined, &mut params_combined);

    let mut sql_all = String::new();
    let mut params_all: Vec<String> = Vec::new();
    AllQuery.to_sql(true, &mut sql_all, &mut params_all);

    assert_eq!(sql_combined, sql_all);
    assert_eq!(params_combined, params_all);
}

#[test]
fn combined_query_binds_parameters_in_traversal_order() {
    let combined = CombinedQuery::new(vec![
        (Occur::Should, Query::Term(term("s1"))),
        (Occur::Must, Query::Term(term("m1"))),
        (Occur::MustNot, Query::Term(term("n1"))),
        (Occur::Should, Query::Term(term("s2"))),
        (Occur::Must, Query::Term(term("m2"))),
    ]);
    let mut sql = String::new();
    let mut params: Vec<String> = Vec::new();
    combined.to_sql(true, &mut sql, &mut params);
    // musts first, then shoulds, then must-nots, each list in clause order
    assert_eq!(params, ["m1", "m2", "s1", "s2", "n1"]);
    let question_marks = sql.matches('?').count();
    assert_eq!(question_marks, params.len());
    assert!(sql.contains("SELECT clause_0.document_id AS document_id"));
    assert!(sql.contains(") AS clause_1 USING (document_id)"));
    assert!(sql.contains("WHERE clause_4.document_id IS NULL"));
}

#[test]
fn must_not_clauses_become_anti_joins() {
    let combined = CombinedQuery::new(vec![(Occur::MustNot, Query::Term(term("x")))]);
    let mut sql = String::new();
    let mut params: Vec<String> = Vec::new();
    combined.to_sql(true, &mut sql, &mut params);
    assert!(sql.starts_with(
        "SELECT DISTINCT document_id, 1 AS score, 1 AS terms FROM canter_postings LEFT JOIN ("
    ));
    assert!(sql.ends_with(") AS clause_0 USING (document_id) WHERE clause_0.document_id IS NULL"));
    assert_eq!(params, ["x"]);
}

#[test]
fn should_only_composition_uses_full_joins() {
    let combined = CombinedQuery::new(vec![
        (Occur::Should, Query::Term(term("a"))),
        (Occur::Should, Query::Term(term("b"))),
    ]);
    let mut sql = String::new();
    let mut params: Vec<String> = Vec::new();
    combined.to_sql(true, &mut sql, &mut params);
    assert!(sql.starts_with("SELECT COALESCE(NULL, clause_0.document_id, clause_1.document_id) AS document_id"));
    assert!(sql.contains(" FULL JOIN ("));
    assert!(sql.contains("(IFNULL(clause_0.terms, 0) + IFNULL(clause_1.terms, 0)) * (IFNULL(clause_0.score, 0) + IFNULL(clause_1.score, 0)) AS score, 1 AS terms"));
    assert_eq!(params, ["a", "b"]);
}
