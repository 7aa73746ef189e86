use canter::{Config, Error, FieldConfig, Index};

fn open_index() -> Index {
    let conn = rusqlite::Connection::open_in_memory().unwrap();
    register_bm25(&conn, 2.0, 0.75);
    Index::open(conn, Config::default()).unwrap()
}

fn register_bm25(conn: &rusqlite::Connection, bm25_k1: f64, bm25_b: f64) {
    conn.create_scalar_function(
        "canter_bm25",
        5,
        rusqlite::functions::FunctionFlags::SQLITE_DETERMINISTIC,
        move |ctx| {
            let documents = ctx.get::<i64>(0)? as f64;
            let avg_documents_count = ctx.get::<f64>(1)?;
            let terms_count = ctx.get::<i64>(2)? as f64;
            let postings_count = ctx.get::<i64>(3)? as f64;
            let documents_count = ctx.get::<i64>(4)? as f64;

            let idf = ((documents - terms_count + 0.5) / (terms_count + 0.5) + 1.0).ln();

            Ok(idf * (postings_count * (bm25_k1 + 1.0))
                / (postings_count
                    + bm25_k1 * (1.0 - bm25_b + bm25_b * documents_count / avg_documents_count)))
        },
    )
    .unwrap();
}

fn scored(results: Vec<(i64, String)>) -> Vec<(i64, f64)> {
    results
        .into_iter()
        .map(|(id, s)| (id, s.parse::<f64>().unwrap()))
        .collect()
}

fn corpus() -> Index {
    let mut index = open_index();
    index.add_field("field", "default").unwrap();
    let mut writer = index.rewrite().unwrap();
    writer.add_text(1, "field", "FOO bar").unwrap();
    writer.add_text(1, "field", "BAZ").unwrap();
    writer.add_text(2, "field", "foo").unwrap();
    writer.add_text(3, "field", "BAR").unwrap();
    writer.add_text(4, "field", "baz").unwrap();
    writer.commit().unwrap()
}

#[test]
fn it_works() {
    let conn = rusqlite::Connection::open_in_memory().unwrap();
    register_bm25(&conn, 2.0, 0.75);
    let mut index = Index::open(conn, Config::default()).unwrap();

    index.add_field("field", "default").unwrap();

    {
        let mut reader = index.read();
        let query = reader.parse("field:foo").unwrap();
        let results = reader.search(&query, None, None, None).unwrap();
        assert_eq!(scored(results), []);
        index = reader.close();
    }

    {
        let mut writer = index.rewrite().unwrap();

        writer.add_text(1, "field", "FOO bar").unwrap();
        writer.add_text(1, "field", "BAZ").unwrap();

        writer.add_text(2, "field", "foo").unwrap();
        writer.add_text(3, "field", "BAR").unwrap();
        writer.add_text(4, "field", "baz").unwrap();

        index = writer.commit().unwrap();
    }

    let mut reader = index.read();

    let query = reader.parse("field:foo field:bar").unwrap();
    let results = reader.search(&query, None, None, None).unwrap();
    assert_eq!(
        scored(results),
        [
            (1, 1.8483924814931874),
            (2, 0.8317766166719343),
            (3, 0.8317766166719343)
        ]
    );

    let query = reader.parse("+field:foo +field:bar +field:baz").unwrap();
    let results = reader.search(&query, None, None, None).unwrap();
    assert_eq!(scored(results), [(1, 4.1588830833596715)]);

    let query = reader.parse("+field:foo field:bar").unwrap();
    let results = reader.search(&query, None, None, None).unwrap();
    assert_eq!(
        scored(results),
        [(1, 1.8483924814931874), (2, 0.8317766166719343)]
    );

    let query = reader.parse("+field:bar -field:foo -field:baz").unwrap();
    let results = reader.search(&query, None, None, None).unwrap();
    assert_eq!(scored(results), [(3, 0.8317766166719343)]);

    let query = reader.parse("-field:foo").unwrap();
    let results = reader.search(&query, None, None, None).unwrap();
    assert_eq!(scored(results), [(3, 1.0), (4, 1.0)]);

    let query = reader.parse("field:\"bar baz\"").unwrap();
    let results = reader.search(&query, None, None, None).unwrap();
    assert_eq!(scored(results), [(1, 1.8483924814931874)]);

    let query = reader.parse("field:\"foo baz\"").unwrap();
    let results = reader.search(&query, None, None, None).unwrap();
    assert_eq!(scored(results), []);

    let query = reader.parse("field:foo -field:\"bar baz\"").unwrap();
    let results = reader.search(&query, None, None, None).unwrap();
    assert_eq!(scored(results), [(2, 0.8317766166719343)]);
}

#[test]
fn blank_query_returns_every_document() {
    let index = corpus();
    let mut reader = index.read();
    let query = reader.parse("   ").unwrap();
    let results = reader.search(&query, None, None, None).unwrap();
    let mut rows = scored(results);
    rows.sort_by_key(|r| r.0);
    assert_eq!(rows, [(1, 1.0), (2, 1.0), (3, 1.0), (4, 1.0)]);
}

#[test]
fn limit_and_offset_page_the_results() {
    let index = corpus();
    let mut reader = index.read();
    let query = reader.parse("field:foo field:bar").unwrap();
    let results = reader.search(&query, Some(2), Some(1), None).unwrap();
    assert_eq!(
        scored(results),
        [(2, 0.8317766166719343), (3, 0.8317766166719343)]
    );
}

#[test]
fn redeclaring_a_field_is_idempotent() {
    let mut index = open_index();
    index.add_field("field", "default").unwrap();
    index.add_field("field", "default").unwrap();
    match index.add_field("field", "stub") {
        Err(Error::FieldConflict {
            name,
            tokenizer,
            existing_tokenizer,
        }) => {
            assert_eq!(name, "field");
            assert_eq!(tokenizer, "stub");
            assert_eq!(existing_tokenizer, "default");
        }
        other => panic!("expected a field conflict, got {:?}", other.map(|_| ())),
    }
}

#[test]
fn writing_to_an_undeclared_field_fails() {
    let index = open_index();
    let mut writer = index.rewrite().unwrap();
    match writer.add_text(1, "missing", "text") {
        Err(Error::NoSuchField(name)) => assert_eq!(name, "missing"),
        other => panic!("expected no such field, got {:?}", other.map(|_| ())),
    }
}

#[test]
fn unregistered_tokenizer_is_reported() {
    let mut index = open_index();
    index.add_field("weird", "nope").unwrap();
    let mut writer = index.rewrite().unwrap();
    match writer.add_text(1, "weird", "text") {
        Err(Error::NoSuchTokenizer(name)) => assert_eq!(name, "nope"),
        other => panic!("expected no such tokenizer, got {:?}", other.map(|_| ())),
    }
}

#[test]
fn overlong_tokens_are_dropped_not_truncated() {
    let mut index = open_index();
    index.add_field("field", "default").unwrap();
    let mut writer = index.rewrite().unwrap();
    let long = "a".repeat(41);
    writer.add_text(7, "field", &long).unwrap();
    writer.add_text(8, "field", "short").unwrap();
    let index = writer.commit().unwrap();
    let mut reader = index.read();
    // the dropped token left no postings, so even the blank query misses doc 7
    let query = reader.parse("").unwrap();
    let results = reader.search(&query, None, None, None).unwrap();
    assert_eq!(results.len(), 1);
    assert_eq!(results[0].0, 8);
}

#[test]
fn stub_tokenizer_indexes_the_whole_text() {
    let mut index = open_index();
    index.add_field("raw", "stub").unwrap();
    let mut writer = index.rewrite().unwrap();
    writer.add_text(9, "raw", "Hello World").unwrap();
    let index = writer.commit().unwrap();
    let mut reader = index.read();
    let query = reader.parse("raw:\"Hello World\"").unwrap();
    let results = reader.search(&query, None, None, None).unwrap();
    let rows = scored(results);
    assert_eq!(rows.len(), 1);
    assert_eq!(rows[0].0, 9);
    assert!(rows[0].1 > 0.0);
}

#[test]
fn rewrite_discards_the_previous_contents() {
    let index = corpus();
    let mut writer = index.rewrite().unwrap();
    writer.add_text(42, "field", "quux").unwrap();
    let index = writer.commit().unwrap();
    let mut reader = index.read();
    let query = reader.parse("field:foo").unwrap();
    assert_eq!(reader.search(&query, None, None, None).unwrap(), []);
    let query = reader.parse("field:quux").unwrap();
    let rows = scored(reader.search(&query, None, None, None).unwrap());
    assert_eq!(rows.len(), 1);
    assert_eq!(rows[0].0, 42);
}

#[test]
fn configured_boost_scales_the_score() {
    let conn = rusqlite::Connection::open_in_memory().unwrap();
    register_bm25(&conn, 2.0, 0.75);
    let config = Config {
        fields: vec![(
            "field".to_string(),
            FieldConfig {
                boost: "2".to_string(),
            },
        )],
    };
    let mut index = Index::open(conn, config).unwrap();
    index.add_field("field", "default").unwrap();
    let mut writer = index.rewrite().unwrap();
    writer.add_text(1, "field", "FOO bar").unwrap();
    writer.add_text(1, "field", "BAZ").unwrap();
    writer.add_text(2, "field", "foo").unwrap();
    writer.add_text(3, "field", "BAR").unwrap();
    writer.add_text(4, "field", "baz").unwrap();
    let index = writer.commit().unwrap();
    let mut reader = index.read();
    let query = reader.parse("+field:bar -field:foo -field:baz").unwrap();
    let results = reader.search(&query, None, None, None).unwrap();
    assert_eq!(scored(results), [(3, 2.0 * 0.8317766166719343)]);
}

#[test]
fn search_all_materializes_the_document_set() {
    let index = corpus();
    let mut reader = index.read();
    let query = reader.parse("field:foo").unwrap();
    reader.search_all(&query, "matched").unwrap();
    let query = reader.parse("field:bar").unwrap();
    let results = reader.search(&query, None, None, Some("matched_scored")).unwrap();
    assert_eq!(results, []);
}

#[test]
fn pretokenized_texts_ingest_like_plain_ones() {
    let mut index = open_index();
    index.add_field("field", "default").unwrap();
    let field_id: i64 = 1;
    let mut writer = index.rewrite().unwrap();
    writer
        .add_tokens(
            field_id,
            5,
            &vec!["foo".to_string(), "bar".to_string()],
        )
        .unwrap();
    let index = writer.commit().unwrap();
    let mut reader = index.read();
    let query = reader.parse("field:\"foo bar\"").unwrap();
    let rows = scored(reader.search(&query, None, None, None).unwrap());
    assert_eq!(rows.len(), 1);
    assert_eq!(rows[0].0, 5);
}

#[test]
fn committed_term_counts_match_their_postings() {
    let uri = "file:canter_counts?mode=memory&cache=shared";
    let flags = rusqlite::OpenFlags::default() | rusqlite::OpenFlags::SQLITE_OPEN_URI;
    let probe = rusqlite::Connection::open_with_flags(uri, flags).unwrap();
    let conn = rusqlite::Connection::open_with_flags(uri, flags).unwrap();
    let mut index = Index::open(conn, Config::default()).unwrap();
    index.add_field("field", "default").unwrap();
    let mut writer = index.rewrite().unwrap();
    writer.add_text(1, "field", "FOO bar").unwrap();
    writer.add_text(1, "field", "BAZ foo foo").unwrap();
    writer.add_text(2, "field", "foo").unwrap();
    writer.add_text(3, "field", "BAR").unwrap();
    let _index = writer.commit().unwrap();

    let mut stmt = probe.prepare("SELECT id, count FROM canter_terms").unwrap();
    let terms: Vec<(i64, i64)> = stmt
        .query_map([], |row| Ok((row.get(0)?, row.get(1)?)))
        .unwrap()
        .map(|r| r.unwrap())
        .collect();
    assert!(terms.len() >= 3);
    for (id, count) in terms {
        let postings: i64 = probe
            .query_row(
                "SELECT COUNT(*) FROM canter_postings WHERE term_id = ?",
                [id],
                |row| row.get(0),
            )
            .unwrap();
        assert_eq!(count, postings, "term {id}");
    }
}

#[test]
fn committed_positions_form_a_gap_free_range() {
    let uri = "file:canter_positions?mode=memory&cache=shared";
    let flags = rusqlite::OpenFlags::default() | rusqlite::OpenFlags::SQLITE_OPEN_URI;
    let probe = rusqlite::Connection::open_with_flags(uri, flags).unwrap();
    let conn = rusqlite::Connection::open_with_flags(uri, flags).unwrap();
    let mut index = Index::open(conn, Config::default()).unwrap();
    index.add_field("field", "default").unwrap();
    let mut writer = index.rewrite().unwrap();
    // two calls for the same document: numbering resumes from the stored count
    writer.add_text(1, "field", "FOO bar").unwrap();
    writer.add_text(1, "field", "BAZ").unwrap();
    writer.add_text(2, "field", "lone").unwrap();
    let _index = writer.commit().unwrap();

    let mut stmt = probe
        .prepare("SELECT field_id, document_id, count FROM canter_documents")
        .unwrap();
    let documents: Vec<(i64, i64, i64)> = stmt
        .query_map([], |row| Ok((row.get(0)?, row.get(1)?, row.get(2)?)))
        .unwrap()
        .map(|r| r.unwrap())
        .collect();
    assert_eq!(documents.len(), 2);
    for (field_id, document_id, count) in documents {
        let mut stmt = probe
            .prepare(
                "SELECT canter_postings.position FROM canter_postings \
                 JOIN canter_terms ON canter_terms.id = canter_postings.term_id \
                 WHERE canter_terms.field_id = ? AND canter_postings.document_id = ? \
                 ORDER BY canter_postings.position",
            )
            .unwrap();
        let positions: Vec<i64> = stmt
            .query_map([field_id, document_id], |row| row.get(0))
            .unwrap()
            .map(|r| r.unwrap())
            .collect();
        let expected: Vec<i64> = (1..=count).collect();
        assert_eq!(positions, expected, "field {field_id} document {document_id}");
    }
}

#[test]
fn fractional_average_length_scores_exactly() {
    // three documents with lengths 1, 1 and 2: the average document length
    // is 4/3, which has no short decimal form; the score must still equal
    // the BM25 formula evaluated on the exact double
    let mut index = open_index();
    index.add_field("field", "default").unwrap();
    let mut writer = index.rewrite().unwrap();
    writer.add_text(1, "field", "foo").unwrap();
    writer.add_text(2, "field", "foo").unwrap();
    writer.add_text(3, "field", "foo bar").unwrap();
    let index = writer.commit().unwrap();
    let mut reader = index.read();
    let query = reader.parse("field:bar").unwrap();
    let rows = scored(reader.search(&query, None, None, None).unwrap());

    let n = 3.0f64;
    let avgdl = 4.0f64 / 3.0f64;
    let df = 1.0f64; // "bar" was emitted once
    let tf = 1.0f64;
    let dl = 2.0f64;
    let (k1, b) = (2.0f64, 0.75f64);
    let idf = ((n - df + 0.5) / (df + 0.5) + 1.0).ln();
    let expected = idf * (tf * (k1 + 1.0)) / (tf + k1 * (1.0 - b + b * dl / avgdl));
    assert_eq!(rows, [(3, expected)]);
}

#[test]
fn storage_errors_surface_as_sqlite() {
    let index = corpus();
    let mut reader = index.read();
    let query = reader.parse("field:foo").unwrap();
    // creating the same temporary table twice makes the storage layer
    // reject the second statement
    reader.search_all(&query, "dup").unwrap();
    match reader.search_all(&query, "dup") {
        Err(Error::Sqlite(_)) => {}
        other => panic!("expected a storage error, got {:?}", other.map(|_| ())),
    }
}

#[test]
fn temp_table_names_are_validated() {
    assert!(canter::valid_temp_name("matched"));
    assert!(canter::valid_temp_name("_tmp_2"));
    assert!(!canter::valid_temp_name(""));
    assert!(!canter::valid_temp_name("2fast"));
    assert!(!canter::valid_temp_name("not a name!"));
    assert!(!canter::valid_temp_name("x; DROP TABLE canter_terms"));
    assert!(!canter::valid_temp_name("canter_documents"));
    assert!(canter::valid_temp_name("canterbury"));
}

#[test]
fn boost_strings_are_validated() {
    assert!(canter::numeric_boost("1"));
    assert!(canter::numeric_boost("2.5"));
    assert!(canter::numeric_boost("-0.75"));
    assert!(!canter::numeric_boost(""));
    assert!(!canter::numeric_boost("1."));
    assert!(!canter::numeric_boost(".5"));
    assert!(!canter::numeric_boost("1.2.3"));
    assert!(!canter::numeric_boost("1 OR 1"));
}

#[test]
fn malformed_boosts_fall_back_to_the_neutral_boost() {
    let conn = rusqlite::Connection::open_in_memory().unwrap();
    register_bm25(&conn, 2.0, 0.75);
    let config = Config {
        fields: vec![(
            "field".to_string(),
            FieldConfig {
                boost: "0) -- junk".to_string(),
            },
        )],
    };
    let mut index = Index::open(conn, config).unwrap();
    index.add_field("field", "default").unwrap();
    let mut writer = index.rewrite().unwrap();
    writer.add_text(3, "field", "BAR").unwrap();
    writer.add_text(1, "field", "foo bar baz").unwrap();
    let index = writer.commit().unwrap();
    let mut reader = index.read();
    let query = reader.parse("+field:bar -field:foo").unwrap();
    let results = reader.search(&query, None, None, None).unwrap();
    let rows = scored(results);
    assert_eq!(rows.len(), 1);
    assert_eq!(rows[0].0, 3);
    assert!(rows[0].1 > 0.0);
}
