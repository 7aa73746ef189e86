use vstd::prelude::*;

use rusqlite::Connection;
use rusqlite::Error as SqlError;
use rusqlite::OptionalExtension;

use crate::model::{doc_count, Model, TermRow};

verus! {

#[verifier::external_type_specification]
#[verifier::external_body]
pub struct ExConnection(Connection);

#[verifier::external_type_specification]
#[verifier::external_body]
pub struct ExSqlError(SqlError);

/// The storage connection, together with a ghost record of the contents of
/// the four tables (`model`) and, while a write transaction is open, of their
/// contents at the start of the transaction (`pending`).
///
/// The trusted wrappers below are the only functions that touch the
/// connection.  Each runs a single fixed SQL statement (or statement batch)
/// and states its effect on the ghost model; the stated effects rely on the
/// documented semantics of those statements and on the assumption that no
/// other connection writes to the `canter_` tables.
pub struct Store {
    pub(crate) conn: rusqlite::Connection,
    pub(crate) m: Ghost<Model>,
    pub(crate) s: Ghost<Option<Model>>,
}

const SCHEMA_SQL: &'static str = "CREATE TABLE IF NOT EXISTS canter_fields (\n    id INTEGER PRIMARY KEY,\n    name TEXT NOT NULL UNIQUE,\n    tokenizer TEXT NOT NULL\n);\nCREATE TABLE IF NOT EXISTS canter_terms (\n    id INTEGER PRIMARY KEY,\n    field_id INTEGER NOT NULL,\n    value TEXT NOT NULL,\n    count INTEGER NOT NULL,\n    UNIQUE (field_id, value)\n);\nCREATE TABLE IF NOT EXISTS canter_postings (\n    term_id INTEGER NOT NULL,\n    document_id INTEGER NOT NULL,\n    position INTEGER NOT NULL,\n    PRIMARY KEY (term_id, document_id, position)\n)\nWITHOUT ROWID;\nCREATE TABLE IF NOT EXISTS canter_documents (\n    field_id INTEGER NOT NULL,\n    document_id INTEGER NOT NULL,\n    count INTEGER NOT NULL,\n    PRIMARY KEY (field_id, document_id)\n)\nWITHOUT ROWID;";

const TRUNCATE_SQL: &'static str = "DELETE FROM canter_terms;\nDELETE FROM canter_postings;\nDELETE FROM canter_documents;";

const ANALYZE_SQL: &'static str = "ANALYZE canter_fields;\nANALYZE canter_terms;\nANALYZE canter_postings;\nANALYZE canter_documents;";

impl Store {
    /// The current contents of the four tables.
    pub closed spec fn model(&self) -> Model {
        self.m@
    }

    /// While a write transaction is open, the table contents it started from.
    pub closed spec fn pending(&self) -> Option<Model> {
        self.s@
    }

    /// Relies on `rusqlite::Connection::execute_batch` running the schema
    /// bootstrap: afterwards the four tables exist.  The connection is taken
    /// over in autocommit mode: the host must not hand one in with an
    /// explicitly opened transaction.  The i64-range and finiteness facts
    /// hold of any SQLite database, whose INTEGER columns are 64-bit and
    /// whose tables are finite.
    #[verifier::external_body]
    pub(crate) fn open(conn: rusqlite::Connection) -> (r: Result<Store, rusqlite::Error>)
        ensures
            r is Ok ==> (r->Ok_0).pending() is None,
            r is Ok ==> crate::model::storage_inv((r->Ok_0).model()),
    {
        conn.execute_batch(SCHEMA_SQL)?;
        let ghost m: Model = vstd::pervasive::arbitrary();
        Ok(Store { conn, m: Ghost(m), s: Ghost(None) })
    }

    /// Relies on `rusqlite::Connection::execute_batch` running `BEGIN`: a
    /// transaction opens and the tables are unchanged.
    #[verifier::external_body]
    pub(crate) fn begin(&mut self) -> (r: Result<(), rusqlite::Error>)
        requires
            old(self).pending() is None,
        ensures
            r is Ok ==> final(self).pending() == Some(old(self).model()),
            r is Ok ==> final(self).model() == old(self).model(),
            r is Err ==> *final(self) == *old(self),
    {
        self.conn.execute_batch("BEGIN")
    }

    /// Relies on `rusqlite::Connection::execute_batch` running `COMMIT`: on
    /// success the transaction is closed and the tables keep their contents.
    #[verifier::external_body]
    pub(crate) fn commit(&mut self) -> (r: Result<(), rusqlite::Error>)
        requires
            old(self).pending() is Some,
        ensures
            r is Ok ==> final(self).pending() is None,
            r is Ok ==> final(self).model() == old(self).model(),
    {
        self.conn.execute_batch("COMMIT")
    }

    /// Relies on `rusqlite::Connection::execute_batch` running three `DELETE`
    /// statements that empty the terms, postings and documents tables.
    #[verifier::external_body]
    pub(crate) fn truncate_index(&mut self) -> (r: Result<(), rusqlite::Error>)
        ensures
            r is Ok ==> final(self).model() == crate::model::truncated(old(self).model()),
            r is Ok ==> final(self).pending() == old(self).pending(),
    {
        self.conn.execute_batch(TRUNCATE_SQL)
    }

    /// Relies on `rusqlite::Connection::query_row` counting the
    /// `sqlite_sequence` bookkeeping table, which is not part of the model.
    #[verifier::external_body]
    pub(crate) fn has_sequence_table(&self) -> (r: Result<bool, rusqlite::Error>)
    {
        let n: i64 = self.conn.query_row(
            "SELECT COUNT(*) FROM sqlite_schema WHERE name = 'sqlite_sequence'",
            (),
            |row| row.get(0),
        )?;
        Ok(n != 0)
    }

    /// Relies on `rusqlite::Connection::execute` deleting rows of
    /// `sqlite_sequence`, a bookkeeping table that is not part of the model.
    #[verifier::external_body]
    pub(crate) fn reset_sequences(&mut self) -> (r: Result<(), rusqlite::Error>)
        ensures
            final(self).model() == old(self).model(),
            final(self).pending() == old(self).pending(),
    {
        self.conn.execute(
            "DELETE FROM sqlite_sequence WHERE name IN ('canter_terms', 'canter_postings', 'canter_documents')",
            (),
        )?;
        Ok(())
    }

    /// Relies on `rusqlite::Connection::query_row` with
    /// `SELECT tokenizer FROM canter_fields WHERE name = ?`: returns the
    /// tokenizer column of the unique row for `name`, if any.
    #[verifier::external_body]
    pub(crate) fn field_tokenizer(&self, name: &str) -> (r: Result<
        Option<String>,
        rusqlite::Error,
    >)
        ensures
            r matches Ok(Some(t)) ==> self.model().fields.dom().contains(name@)
                && t@ == self.model().fields[name@].tokenizer,
            r matches Ok(None) ==> !self.model().fields.dom().contains(name@),
    {
        self.conn.query_row(
            "SELECT tokenizer FROM canter_fields WHERE name = ?",
            (name,),
            |row| row.get(0),
        ).optional()
    }

    /// Relies on `rusqlite::Connection::execute` with
    /// `INSERT INTO canter_fields (name, tokenizer) VALUES (?, ?)`: on
    /// success a row for `name` exists with a rowid distinct from every
    /// existing row's id, and the other tables are unchanged.
    #[verifier::external_body]
    pub(crate) fn insert_field(&mut self, name: &str, tokenizer: &str) -> (r: Result<
        (),
        rusqlite::Error,
    >)
        ensures
            r is Ok ==> exists|id: int|
                crate::model::in_i64(id) && (forall|n: Seq<char>|
                    #[trigger] old(self).model().fields.dom().contains(n)
                        ==> old(self).model().fields[n].id != id) && final(self).model()
                    == (Model {
                    fields: old(self).model().fields.insert(
                        name@,
                        crate::model::FieldRow { id, tokenizer: tokenizer@ },
                    ),
                    ..old(self).model()
                }),
            r is Ok ==> final(self).pending() == old(self).pending(),
            r is Err ==> *final(self) == *old(self),
    {
        self.conn.execute(
            "INSERT INTO canter_fields (name, tokenizer) VALUES (?, ?)",
            (name, tokenizer),
        )?;
        Ok(())
    }

    /// Relies on `rusqlite::Connection::query_row` with a
    /// `canter_fields LEFT JOIN canter_documents` aggregate: returns, for the
    /// unique row named `name`, its id, its tokenizer, the number of document
    /// records for the field, and SQLite's text rendering of `AVG(count)`
    /// over those records (about which nothing is claimed).
    #[verifier::external_body]
    pub(crate) fn read_field_row(&self, name: &str) -> (r: Result<
        Option<(i64, String, i64, String)>,
        rusqlite::Error,
    >)
        ensures
            r matches Ok(Some(row)) ==> {
                &&& self.model().fields.dom().contains(name@)
                &&& row.0 as int == self.model().fields[name@].id
                &&& row.1@ == self.model().fields[name@].tokenizer
                &&& row.2 as int == doc_count(self.model(), row.0 as int)
            },
            r matches Ok(None) ==> !self.model().fields.dom().contains(name@),
    {
        self.conn.query_row(
            "SELECT canter_fields.id, canter_fields.tokenizer, COUNT(canter_documents.document_id), IFNULL(CAST(AVG(canter_documents.count) AS TEXT), '0') FROM canter_fields LEFT JOIN canter_documents ON canter_fields.id = canter_documents.field_id WHERE canter_fields.name = ? GROUP BY canter_fields.id",
            (name,),
            |row| Ok((row.get(0)?, row.get(1)?, row.get(2)?, row.get(3)?)),
        ).optional()
    }

    /// Relies on `rusqlite::Connection::query_row` with
    /// `SELECT count FROM canter_documents WHERE field_id = ? AND document_id = ?`:
    /// returns the count column of the unique row for the pair, or 0.
    #[verifier::external_body]
    pub(crate) fn stored_document_count(&self, field_id: i64, doc_id: i64) -> (r: Result<
        i64,
        rusqlite::Error,
    >)
        ensures
            r matches Ok(c) ==> c as int == if self.model().documents.dom().contains(
                (field_id as int, doc_id as int),
            ) {
                self.model().documents[(field_id as int, doc_id as int)]
            } else {
                0
            },
    {
        let c: Option<i64> = self.conn.query_row(
            "SELECT count FROM canter_documents WHERE field_id = ? AND document_id = ?",
            (field_id, doc_id),
            |row| row.get(0),
        ).optional()?;
        Ok(match c {
            Some(c) => c,
            None => 0,
        })
    }

    /// Relies on `rusqlite::Connection::query_row` with
    /// `SELECT id FROM canter_terms WHERE field_id = ? AND value = ?`: returns
    /// the id of a row matching the pair if one exists, else nothing.
    #[verifier::external_body]
    pub(crate) fn select_term(&self, field_id: i64, value: &str) -> (r: Result<
        Option<i64>,
        rusqlite::Error,
    >)
        ensures
            r matches Ok(Some(t)) ==> self.model().terms.dom().contains(t as int)
                && self.model().terms[t as int].field_id == field_id as int
                && self.model().terms[t as int].value == value@,
            r matches Ok(None) ==> forall|t: int| #[trigger] self.model().terms.dom().contains(t)
                ==> !(self.model().terms[t].field_id == field_id as int && self.model().terms[
                    t
                ].value == value@),
    {
        self.conn.query_row(
            "SELECT id FROM canter_terms WHERE field_id = ? AND value = ?",
            (field_id, value),
            |row| row.get(0),
        ).optional()
    }

    /// Relies on `rusqlite::Connection::execute` with
    /// `UPDATE canter_terms SET count = count + 1 WHERE id = ?`: on success
    /// the row's count column grew by one, and everything else is unchanged.
    /// On an i64 overflow SQLite's addition would fall back to floating
    /// point rather than raise an error; the `count < i64::MAX` clause
    /// therefore rests on a machine limit: a count that large would need as
    /// many stored postings, and every rewrite session starts from
    /// truncated tables.
    #[verifier::external_body]
    pub(crate) fn bump_term_count(&mut self, term_id: i64) -> (r: Result<(), rusqlite::Error>)
        ensures
            r is Ok && old(self).model().terms.dom().contains(term_id as int) ==> {
                &&& old(self).model().terms[term_id as int].count < i64::MAX
                &&& final(self).model() == (Model {
                    terms: old(self).model().terms.insert(
                        term_id as int,
                        TermRow {
                            count: old(self).model().terms[term_id as int].count + 1,
                            ..old(self).model().terms[term_id as int]
                        },
                    ),
                    ..old(self).model()
                })
            },
            r is Ok && !old(self).model().terms.dom().contains(term_id as int) ==> *final(self)
                == *old(self),
            r is Ok ==> final(self).pending() == old(self).pending(),
            r is Err ==> *final(self) == *old(self),
    {
        self.conn.execute("UPDATE canter_terms SET count = count + 1 WHERE id = ?", (term_id,))?;
        Ok(())
    }

    /// Relies on `rusqlite::Connection::query_row` with
    /// `INSERT INTO canter_terms (field_id, value, count) VALUES (?, ?, 1) RETURNING id`:
    /// on success a new row exists under a rowid distinct from every existing
    /// row's id, and everything else is unchanged.
    #[verifier::external_body]
    pub(crate) fn insert_term(&mut self, field_id: i64, value: &str) -> (r: Result<
        i64,
        rusqlite::Error,
    >)
        ensures
            r matches Ok(t) ==> {
                &&& !old(self).model().terms.dom().contains(t as int)
                &&& final(self).model() == (Model {
                    terms: old(self).model().terms.insert(
                        t as int,
                        TermRow { field_id: field_id as int, value: value@, count: 1 },
                    ),
                    ..old(self).model()
                })
            },
            r is Ok ==> final(self).pending() == old(self).pending(),
            r is Err ==> *final(self) == *old(self),
    {
        self.conn.query_row(
            "INSERT INTO canter_terms (field_id, value, count) VALUES (?, ?, 1) RETURNING id",
            (field_id, value),
            |row| row.get(0),
        )
    }

    /// Relies on `rusqlite::Connection::execute` with
    /// `INSERT INTO canter_postings (term_id, document_id, position) VALUES (?, ?, ?)`:
    /// on success the triple was not present (the full triple is the primary
    /// key, so a duplicate insert fails) and is now, all else unchanged.
    #[verifier::external_body]
    pub(crate) fn insert_posting(
        &mut self,
        term_id: i64,
        doc_id: i64,
        position: i64,
    ) -> (r: Result<(), rusqlite::Error>)
        ensures
            r is Ok ==> {
                &&& !old(self).model().postings.contains(
                    (term_id as int, doc_id as int, position as int),
                )
                &&& final(self).model() == (Model {
                    postings: old(self).model().postings.insert(
                        (term_id as int, doc_id as int, position as int),
                    ),
                    ..old(self).model()
                })
            },
            r is Ok ==> final(self).pending() == old(self).pending(),
            r is Err ==> *final(self) == *old(self),
    {
        self.conn.execute(
            "INSERT INTO canter_postings (term_id, document_id, position) VALUES (?, ?, ?)",
            (term_id, doc_id, position),
        )?;
        Ok(())
    }

    /// Relies on `rusqlite::Connection::execute` with
    /// `INSERT INTO canter_documents ... ON CONFLICT DO UPDATE SET count = ?3`:
    /// on success the document record for the pair holds `count`, all else
    /// unchanged.
    #[verifier::external_body]
    pub(crate) fn upsert_document(
        &mut self,
        field_id: i64,
        doc_id: i64,
        count: i64,
    ) -> (r: Result<(), rusqlite::Error>)
        ensures
            r is Ok ==> final(self).model() == crate::model::with_document(
                old(self).model(),
                field_id as int,
                doc_id as int,
                count as int,
            ),
            r is Ok ==> final(self).pending() == old(self).pending(),
            r is Err ==> *final(self) == *old(self),
    {
        self.conn.execute(
            "INSERT INTO canter_documents (field_id, document_id, count) VALUES (?1, ?2, ?3) ON CONFLICT DO UPDATE SET count = ?3",
            (field_id, doc_id, count),
        )?;
        Ok(())
    }

    /// Relies on `rusqlite::Connection::execute_batch` running `ANALYZE` on
    /// the four tables, which gathers planner statistics and leaves the table
    /// contents unchanged.
    #[verifier::external_body]
    pub(crate) fn analyze(&mut self) -> (r: Result<(), rusqlite::Error>)
        ensures
            final(self).model() == old(self).model(),
            final(self).pending() == old(self).pending(),
    {
        self.conn.execute_batch(ANALYZE_SQL)
    }

    /// Relies on `rusqlite::Connection::prepare` and `rusqlite::Rows`: runs
    /// the compiled SELECT handed to it and returns its rows, each read as an
    /// id and the text in the second column.  Nothing is claimed of the rows.
    #[verifier::external_body]
    pub(crate) fn query_scored(&self, sql: &str, params: &Vec<String>) -> (r: Result<
        Vec<(i64, String)>,
        rusqlite::Error,
    >)
    {
        let mut stmt = self.conn.prepare(sql)?;
        let mut rows = stmt.query(rusqlite::params_from_iter(params.iter()))?;
        let mut out = Vec::new();
        while let Some(row) = rows.next()? {
            out.push((row.get(0)?, row.get(1)?));
        }
        Ok(out)
    }

    /// Relies on `rusqlite::Connection::execute`: runs the single
    /// `CREATE TEMPORARY TABLE <name> AS <select>` statement handed to it.
    /// The required shape pins the created table to a plain identifier that
    /// is not `canter_`-prefixed, so it can neither reshape the statement
    /// nor shadow a model table; `execute` rejects any trailing second
    /// statement, and temporary tables under other names are not part of
    /// the model.
    #[verifier::external_body]
    pub(crate) fn execute_materialize(&self, sql: &str, params: &Vec<String>) -> (r: Result<
        (),
        rusqlite::Error,
    >)
        requires
            crate::reader::materialize_stmt_ok(sql@),
    {
        self.conn.execute(sql, rusqlite::params_from_iter(params.iter()))?;
        Ok(())
    }
}

} // verus!
