mod digits;
mod error;
mod model;
mod query;
mod params;
mod reader;
mod store;
mod tokenizer;
mod writer;

pub use error::Error;
pub use model::{
    adds_tokens, doc_count, index_wf, lemma_positions_contiguous,
    lemma_term_count_matches_postings, position_used, posting_for, stored_count, storage_inv,
    term_postings, truncated, with_document, FieldRow, Model, TermRow,
};
pub use params::{clauses_clean, lemma_one_param_per_placeholder, placeholders, splice_clean};
pub use query::{
    all_sql, lemma_empty_combined_is_all, query_params, query_sql, AllQuery, CombinedQuery,
    Occur, PhraseQuery, Query, TermQuery,
};
pub use tokenizer::{
    apply_all, default_pipeline, default_tokens, erased_tokens, is_alnum, is_white, lower_chars,
    lower_seq,
    split_tokens, ChainedTokenizer, ErasedTokenizer, LimitLength, SplitNonAlphanumeric,
    StubTokenizer, ToLowerCase, Tokenizer,
};
pub use reader::{
    clause_error, clause_from, clause_parses_to, clause_wf, configured_boost, is_ident_char,
    is_temp_name, materialize_sql, materialize_statement, materialize_stmt_ok, occur_of,
    parse_field_name, parse_occur, parse_values, parses_prefix, parses_to, search_sql,
    search_statement, skip_white, split_value, valid_temp_name, Reader,
};
pub use writer::Writer;

use vstd::prelude::*;
use vstd::string::StringExecFns;

use crate::store::Store;

verus! {

/// Relies on `str` equality comparing the character contents.
#[verifier::external_body]
pub(crate) fn str_eq(a: &str, b: &str) -> (r: bool)
    ensures
        r == (a@ == b@),
{
    a == b
}

/// A declared field: stable id, bound tokenizer name, and the corpus
/// statistics read for it (the average document length is carried as the
/// storage layer's text rendering, ready to be spliced into scoring SQL).
pub struct Field {
    pub id: i64,
    pub tokenizer: String,
    pub documents: i64,
    pub avg_documents_count: String,
}

impl Clone for Field {
    fn clone(&self) -> (r: Self)
        ensures
            r == *self,
    {
        Field {
            id: self.id,
            tokenizer: self.tokenizer.clone(),
            documents: self.documents,
            avg_documents_count: self.avg_documents_count.clone(),
        }
    }
}

/// Per-field query configuration.
pub struct FieldConfig {
    /// The multiplier applied to this field's BM25 scores, as a plain
    /// decimal literal (optional `-`, digits, optional fraction).  A boost
    /// that is not such a literal is ignored at parse time in favour of the
    /// neutral boost 1.
    pub boost: String,
}

/// `c` is a decimal digit.
pub open spec fn is_digit(c: char) -> bool {
    '0' <= c && c <= '9'
}

/// `u` is an unsigned decimal literal: digits with at most one `.`,
/// starting and ending with a digit.
pub open spec fn is_unsigned_decimal(u: Seq<char>) -> bool {
    &&& u.len() > 0
    &&& is_digit(u[0])
    &&& is_digit(u[u.len() - 1])
    &&& forall|i: int| #![trigger u[i]] 0 <= i < u.len() ==> (is_digit(u[i]) || u[i] == '.')
    &&& forall|i: int, j: int| #![trigger u[i], u[j]]
        0 <= i < j < u.len() && u[i] == '.' && u[j] == '.' ==> false
}

/// `s` is a plain decimal literal: an optional `-`, then digits with at
/// most one `.`, starting and ending with a digit.  Only such boosts are
/// spliced into scoring SQL.
pub open spec fn is_numeric_boost(s: Seq<char>) -> bool {
    is_unsigned_decimal(
        if s.len() > 0 && s[0] == '-' {
            s.drop_first()
        } else {
            s
        },
    )
}

/// Checks a configured boost against the decimal-literal shape.
#[verifier::loop_isolation(false)]
pub fn numeric_boost(s: &str) -> (r: bool)
    ensures
        r == is_numeric_boost(s@),
{
    let n = s.unicode_len();
    if n == 0 {
        return false;
    }
    let negative = s.get_char(0) == '-';
    let lo: usize = if negative {
        1
    } else {
        0
    };
    let ghost u = if negative {
        s@.drop_first()
    } else {
        s@
    };
    if lo >= n {
        return false;
    }
    let first = s.get_char(lo);
    let last = s.get_char(n - 1);
    if !('0' <= first && first <= '9') || !('0' <= last && last <= '9') {
        proof {
            assert(u[0] == s@[lo as int]);
            assert(u[u.len() - 1] == s@[n - 1]);
            assert(!is_unsigned_decimal(u));
        }
        return false;
    }
    let mut i: usize = lo;
    let mut dot_at: usize = n;
    while i < n
        invariant
            lo <= i <= n,
            lo <= dot_at,
            dot_at == n || (dot_at < i && s@[dot_at as int] == '.'),
            forall|k: int| lo <= k < i ==> (is_digit(#[trigger] s@[k]) || s@[k] == '.'),
            forall|k: int| lo <= k < i && #[trigger] s@[k] == '.' ==> k == dot_at,
        decreases n - i,
    {
        let c = s.get_char(i);
        if c == '.' {
            if dot_at < n {
                proof {
                    assert(u == (if s@.len() > 0 && s@[0] == '-' {
                        s@.drop_first()
                    } else {
                        s@
                    }));
                    assert(u.len() == n - lo);
                    assert(0 <= dot_at - lo < i - lo < u.len());
                    assert(u[dot_at - lo] == s@[dot_at as int]);
                    assert(u[i - lo] == s@[i as int]);
                    assert(u[dot_at - lo] == '.');
                    assert(u[i - lo] == '.');
                    assert(!is_unsigned_decimal(u));
                    assert(!is_numeric_boost(s@));
                }
                return false;
            }
            dot_at = i;
        } else if !('0' <= c && c <= '9') {
            proof {
                assert(u == (if s@.len() > 0 && s@[0] == '-' {
                    s@.drop_first()
                } else {
                    s@
                }));
                assert(u.len() == n - lo);
                assert(0 <= i - lo < u.len());
                assert(u[i - lo] == s@[i as int]);
                assert(!is_digit(u[i - lo]) && u[i - lo] != '.');
                assert(!is_unsigned_decimal(u));
                assert(!is_numeric_boost(s@));
            }
            return false;
        }
        i = i + 1;
    }
    proof {
        assert forall|k: int| 0 <= k < u.len() implies (is_digit(#[trigger] u[k]) || u[k]
            == '.') by {
            assert(u[k] == s@[k + lo]);
        }
        assert forall|k: int, j: int|
            0 <= k < j < u.len() && #[trigger] u[k] == '.' && #[trigger] u[j]
                == '.' implies false by {
            assert(u[k] == s@[k + lo]);
            assert(u[j] == s@[j + lo]);
        }
        assert(u[0] == s@[lo as int]);
        assert(u[u.len() - 1] == s@[n - 1]);
        assert(is_unsigned_decimal(u));
    }
    true
}

/// Index configuration: per-field boosts.  The BM25 constants live with the
/// `canter_bm25` SQL function, which the host registers on the connection.
pub struct Config {
    pub fields: Vec<(String, FieldConfig)>,
}

impl Default for Config {
    /// No per-field boosts: every field's boost is 1.
    fn default() -> (r: Self)
        ensures
            r.fields@.len() == 0,
    {
        Config { fields: Vec::new() }
    }
}

/// The tokenizer registered under `name`: the latest registration wins.
pub open spec fn reg_find(ts: Seq<(String, ErasedTokenizer)>, name: Seq<char>) -> Option<
    ErasedTokenizer,
>
    decreases ts.len(),
{
    if ts.len() == 0 {
        None
    } else if ts.last().0@ == name {
        Some(ts.last().1)
    } else {
        reg_find(ts.drop_last(), name)
    }
}

/// The cached field record under `name`, if any.
pub open spec fn cache_find(fs: Seq<(String, Field)>, name: Seq<char>) -> Option<Field>
    decreases fs.len(),
{
    if fs.len() == 0 {
        None
    } else if fs.last().0@ == name {
        Some(fs.last().1)
    } else {
        cache_find(fs.drop_last(), name)
    }
}

/// The boost configured for `name`, as a SQL numeric literal, if any.
pub open spec fn boost_find(bs: Seq<(String, FieldConfig)>, name: Seq<char>) -> Option<Seq<char>>
    decreases bs.len(),
{
    if bs.len() == 0 {
        None
    } else if bs.last().0@ == name {
        Some(bs.last().1.boost@)
    } else {
        boost_find(bs.drop_last(), name)
    }
}

/// Every cached field record agrees with the fields table on id and
/// tokenizer (its statistics may be older, by design).
pub open spec fn cache_consistent(fs: Seq<(String, Field)>, m: Model) -> bool {
    forall|i: int| 0 <= i < fs.len() ==> {
        &&& m.fields.dom().contains((#[trigger] fs[i]).0@)
        &&& m.fields[fs[i].0@].id == fs[i].1.id as int
        &&& m.fields[fs[i].0@].tokenizer == fs[i].1.tokenizer@
    }
}

/// An open index: the storage connection, the tokenizer registry, the
/// per-session field cache, and the configuration.
pub struct Index {
    pub(crate) store: Store,
    pub(crate) tokenizers: Vec<(String, ErasedTokenizer)>,
    pub(crate) fields: Vec<(String, Field)>,
    pub(crate) config: Config,
}

impl Index {
    /// The contents of the four storage tables.
    pub closed spec fn model(&self) -> Model {
        self.store.model()
    }

    /// The registered tokenizers.
    pub closed spec fn registry(&self) -> Seq<(String, ErasedTokenizer)> {
        self.tokenizers@
    }

    /// The cached field records.
    pub closed spec fn cache(&self) -> Seq<(String, Field)> {
        self.fields@
    }

    /// The configured per-field boosts.
    pub closed spec fn boosts(&self) -> Seq<(String, FieldConfig)> {
        self.config.fields@
    }

    /// Between sessions the index holds no open transaction, the storage
    /// facts hold, and the field cache agrees with the fields table.
    pub closed spec fn inv(&self) -> bool {
        &&& self.store.pending() is None
        &&& storage_inv(self.store.model())
        &&& cache_consistent(self.fields@, self.store.model())
    }
}

/// A cached entry found by name agrees with the fields table.
pub(crate) proof fn lemma_cache_find_consistent(fs: Seq<(String, Field)>, m: Model, name: Seq<char>)
    requires
        cache_consistent(fs, m),
        cache_find(fs, name) is Some,
    ensures
        m.fields.dom().contains(name),
        (cache_find(fs, name)->Some_0).id as int == m.fields[name].id,
        (cache_find(fs, name)->Some_0).tokenizer@ == m.fields[name].tokenizer,
    decreases fs.len(),
{
    if fs.len() > 0 {
        if fs.last().0@ == name {
            assert(fs[fs.len() - 1] == fs.last());
        } else {
            assert forall|i: int| 0 <= i < fs.drop_last().len() implies {
                &&& m.fields.dom().contains((#[trigger] fs.drop_last()[i]).0@)
                &&& m.fields[fs.drop_last()[i].0@].id == fs.drop_last()[i].1.id as int
                &&& m.fields[fs.drop_last()[i].0@].tokenizer == fs.drop_last()[i].1.tokenizer@
            } by {
                assert(fs.drop_last()[i] == fs[i]);
            }
            lemma_cache_find_consistent(fs.drop_last(), m, name);
        }
    }
}

/// Bridges the index's public spec functions to its fields, for the sibling
/// modules that build sessions on it.
pub(crate) proof fn index_specs(ix: &Index)
    ensures
        ix.inv() <==> (ix.store.pending() is None && storage_inv(ix.store.model())
            && cache_consistent(ix.fields@, ix.store.model())),
        ix.model() == ix.store.model(),
        ix.registry() == ix.tokenizers@,
        ix.cache() == ix.fields@,
        ix.boosts() == ix.config.fields@,
{
}

/// Looks a tokenizer up by name: the latest registration wins.
pub(crate) fn reg_get<'a>(ts: &'a Vec<(String, ErasedTokenizer)>, name: &str) -> (r: Option<
    &'a ErasedTokenizer,
>)
    ensures
        match r {
            Some(t) => reg_find(ts@, name@) == Some(*t),
            None => reg_find(ts@, name@) is None,
        },
{
    proof {
        assert(ts@.take(ts@.len() as int) =~= ts@);
    }
    let mut i = ts.len();
    while i > 0
        invariant
            0 <= i <= ts@.len(),
            reg_find(ts@, name@) == reg_find(ts@.take(i as int), name@),
        decreases i,
    {
        i = i - 1;
        proof {
            assert(ts@.take(i as int + 1).drop_last() =~= ts@.take(i as int));
            assert(ts@.take(i as int + 1).last() == ts@[i as int]);
        }
        if str_eq(ts[i].0.as_str(), name) {
            return Some(&ts[i].1);
        }
    }
    proof {
        assert(ts@.take(0) =~= Seq::<(String, ErasedTokenizer)>::empty());
    }
    None
}

/// Looks a cached field up by name.
pub(crate) fn cache_get<'a>(fs: &'a Vec<(String, Field)>, name: &str) -> (r: Option<&'a Field>)
    ensures
        match r {
            Some(f) => cache_find(fs@, name@) == Some(*f),
            None => cache_find(fs@, name@) is None,
        },
{
    proof {
        assert(fs@.take(fs@.len() as int) =~= fs@);
    }
    let mut i = fs.len();
    while i > 0
        invariant
            0 <= i <= fs@.len(),
            cache_find(fs@, name@) == cache_find(fs@.take(i as int), name@),
        decreases i,
    {
        i = i - 1;
        proof {
            assert(fs@.take(i as int + 1).drop_last() =~= fs@.take(i as int));
            assert(fs@.take(i as int + 1).last() == fs@[i as int]);
        }
        if str_eq(fs[i].0.as_str(), name) {
            return Some(&fs[i].1);
        }
    }
    proof {
        assert(fs@.take(0) =~= Seq::<(String, Field)>::empty());
    }
    None
}

/// Looks a configured boost up by field name.
pub(crate) fn boost_get<'a>(bs: &'a Vec<(String, FieldConfig)>, name: &str) -> (r: Option<&'a String>)
    ensures
        match r {
            Some(b) => boost_find(bs@, name@) == Some(b@),
            None => boost_find(bs@, name@) is None,
        },
{
    proof {
        assert(bs@.take(bs@.len() as int) =~= bs@);
    }
    let mut i = bs.len();
    while i > 0
        invariant
            0 <= i <= bs@.len(),
            boost_find(bs@, name@) == boost_find(bs@.take(i as int), name@),
        decreases i,
    {
        i = i - 1;
        proof {
            assert(bs@.take(i as int + 1).drop_last() =~= bs@.take(i as int));
            assert(bs@.take(i as int + 1).last() == bs@[i as int]);
        }
        if str_eq(bs[i].0.as_str(), name) {
            return Some(&bs[i].1.boost);
        }
    }
    proof {
        assert(bs@.take(0) =~= Seq::<(String, FieldConfig)>::empty());
    }
    None
}

impl Index {
    /// Opens an index over a storage connection: bootstraps the schema and
    /// registers the built-in tokenizers, `stub` and `default`.
    ///
    /// The connection must already carry the host-registered `canter_bm25`
    /// scalar function if scored searches are to be executed.
    pub fn open(conn: rusqlite::Connection, config: Config) -> (r: Result<Index, Error>)
        ensures
            r matches Ok(ix) ==> {
                &&& ix.inv()
                &&& reg_find(ix.registry(), "stub"@) == Some(
                    ErasedTokenizer::Stub(StubTokenizer),
                )
                &&& match reg_find(ix.registry(), "default"@) {
                    Some(t) => forall|s: Seq<char>| #[trigger] erased_tokens(t, s)
                        == default_tokens(s),
                    None => false,
                }
                &&& ix.cache().len() == 0
                &&& ix.boosts() == config.fields@
            },
            r matches Err(e) ==> e is Sqlite,
    {
        let store = match Store::open(conn) {
            Ok(s) => s,
            Err(e) => {
                return Err(Error::Sqlite(e));
            },
        };
        let mut tokenizers: Vec<(String, ErasedTokenizer)> = Vec::new();
        tokenizers.push((String::from_str("stub"), ErasedTokenizer::Stub(StubTokenizer)));
        let pipeline = default_pipeline();
        tokenizers.push((String::from_str("default"), pipeline));
        proof {
            reveal_strlit("stub");
            reveal_strlit("default");
            assert(("stub"@).len() == 4);
            assert(("default"@).len() == 7);
            assert(tokenizers@.last().0@ != "stub"@);
            assert(tokenizers@.drop_last().last().0@ == "stub"@);
            assert(tokenizers@.drop_last().last().1 == ErasedTokenizer::Stub(StubTokenizer));
            assert(reg_find(tokenizers@, "stub"@) == reg_find(
                tokenizers@.drop_last(),
                "stub"@,
            ));
            assert(reg_find(tokenizers@.drop_last(), "stub"@) == Some(
                ErasedTokenizer::Stub(StubTokenizer),
            ));
            assert(tokenizers@.last().0@ == "default"@);
            assert(reg_find(tokenizers@, "default"@) == Some(tokenizers@.last().1));
        }
        proof {
            assert(cache_consistent(Seq::<(String, Field)>::empty(), store.model()));
        }
        let ix = Index { store, tokenizers, fields: Vec::new(), config };
        Ok(ix)
    }

    /// Registers a tokenizer under a name; a later registration under the
    /// same name replaces the earlier one.
    pub fn add_tokenizer(&mut self, name: String, tokenizer: ErasedTokenizer)
        requires
            old(self).inv(),
        ensures
            final(self).inv(),
            final(self).registry() == old(self).registry().push((name, tokenizer)),
            final(self).model() == old(self).model(),
            final(self).cache() == old(self).cache(),
            final(self).boosts() == old(self).boosts(),
    {
        self.tokenizers.push((name, tokenizer));
    }

    /// Declares a field bound to a tokenizer name.  Re-declaring a field with
    /// the tokenizer it already has succeeds and changes nothing; with a
    /// different tokenizer it fails with `FieldConflict`; otherwise the field
    /// is inserted under a fresh id.
    pub fn add_field(&mut self, name: &str, tokenizer: &str) -> (r: Result<(), Error>)
        requires
            old(self).inv(),
        ensures
            final(self).inv(),
            final(self).registry() == old(self).registry(),
            final(self).cache() == old(self).cache(),
            final(self).boosts() == old(self).boosts(),
            r is Ok && old(self).model().fields.dom().contains(name@) ==> final(self).model()
                == old(self).model() && old(self).model().fields[name@].tokenizer == tokenizer@,
            r is Ok && !old(self).model().fields.dom().contains(name@) ==> exists|id: int|
                model::in_i64(id) && final(self).model() == (Model {
                    fields: old(self).model().fields.insert(
                        name@,
                        FieldRow { id, tokenizer: tokenizer@ },
                    ),
                    ..old(self).model()
                }),
            r matches Err(e) ==> final(self).model() == old(self).model(),
            r matches Err(e) ==> match e {
                Error::Sqlite(_) => true,
                Error::FieldConflict { name: n, tokenizer: t, existing_tokenizer: ex } => {
                    &&& old(self).model().fields.dom().contains(name@)
                    &&& ex@ == old(self).model().fields[name@].tokenizer
                    &&& ex@ != tokenizer@
                    &&& n@ == name@
                    &&& t@ == tokenizer@
                    &&& final(self).model() == old(self).model()
                },
                _ => false,
            },
            old(self).model().fields.dom().contains(name@) && old(self).model().fields[
                name@
            ].tokenizer == tokenizer@ && !(r matches Err(Error::Sqlite(_))) ==> r is Ok,
    {
        let existing = match self.store.field_tokenizer(name) {
            Ok(t) => t,
            Err(e) => {
                return Err(Error::Sqlite(e));
            },
        };
        match existing {
            Some(existing_tokenizer) => {
                if str_eq(existing_tokenizer.as_str(), tokenizer) {
                    Ok(())
                } else {
                    Err(
                        Error::FieldConflict {
                            name: name.to_owned(),
                            tokenizer: tokenizer.to_owned(),
                            existing_tokenizer,
                        },
                    )
                }
            },
            None => {
                match self.store.insert_field(name, tokenizer) {
                    Ok(()) => {
                        proof {
                            let m0 = old(self).store.model();
                            let m1 = self.store.model();
                            let id = choose|id: int|
                                model::in_i64(id) && (forall|n: Seq<char>|
                                    #[trigger] m0.fields.dom().contains(n) ==> m0.fields[n].id
                                        != id) && m1 == (Model {
                                    fields: m0.fields.insert(
                                        name@,
                                        FieldRow { id, tokenizer: tokenizer@ },
                                    ),
                                    ..m0
                                });
                            assert(m1.fields.dom() =~= m0.fields.dom().insert(name@));
                            assert forall|i: int| 0 <= i < self.fields@.len() implies {
                                &&& m1.fields.dom().contains((#[trigger] self.fields@[i]).0@)
                                &&& m1.fields[self.fields@[i].0@].id == self.fields@[i].1.id as int
                                &&& m1.fields[self.fields@[i].0@].tokenizer == self.fields@[
                                    i
                                ].1.tokenizer@
                            } by {
                                assert(m0.fields.dom().contains(self.fields@[i].0@));
                            }
                        }
                        Ok(())
                    },
                    Err(e) => Err(Error::Sqlite(e)),
                }
            },
        }
    }

    /// Resolves a field by name: from the session cache if present, else read
    /// from storage (computing its corpus statistics) and cached.
    pub(crate) fn read_field(&mut self, name: &str) -> (r: Result<Field, Error>)
        requires
            cache_consistent(old(self).fields@, old(self).store.model()),
        ensures
            final(self).store == old(self).store,
            final(self).tokenizers == old(self).tokenizers,
            final(self).config == old(self).config,
            cache_consistent(final(self).fields@, final(self).store.model()),
            r matches Ok(f) ==> {
                &&& old(self).store.model().fields.dom().contains(name@)
                &&& f.id as int == old(self).store.model().fields[name@].id
                &&& f.tokenizer@ == old(self).store.model().fields[name@].tokenizer
                &&& match cache_find(old(self).fields@, name@) {
                    Some(c) => f == c && final(self).fields@ == old(self).fields@,
                    None => f.documents as int == doc_count(old(self).store.model(), f.id as int)
                        && exists|e: (String, Field)|
                        e.0@ == name@ && e.1 == f && final(self).fields@ == old(
                            self,
                        ).fields@.push(e),
                }
            },
            r matches Err(e) ==> final(self).fields@ == old(self).fields@ && match e {
                Error::Sqlite(_) => true,
                Error::NoSuchField(n) => !old(self).store.model().fields.dom().contains(name@)
                    && n@ == name@,
                _ => false,
            },
            !old(self).store.model().fields.dom().contains(name@) ==> !(r is Ok),
    {
        let cached = match cache_get(&self.fields, name) {
            Some(f) => Some(f.clone()),
            None => None,
        };
        match cached {
            Some(f) => {
                proof {
                    lemma_cache_find_consistent(self.fields@, self.store.model(), name@);
                }
                Ok(f)
            },
            None => {
                let row = match self.store.read_field_row(name) {
                    Ok(row) => row,
                    Err(e) => {
                        return Err(Error::Sqlite(e));
                    },
                };
                match row {
                    Some((id, tokenizer, documents, avg_documents_count)) => {
                        let field = Field { id, tokenizer, documents, avg_documents_count };
                        let entry = (name.to_owned(), field.clone());
                        let ghost old_fields = self.fields@;
                        self.fields.push(entry);
                        proof {
                            assert forall|i: int| 0 <= i < self.fields@.len() implies {
                                &&& self.store.model().fields.dom().contains(
                                    (#[trigger] self.fields@[i]).0@,
                                )
                                &&& self.store.model().fields[self.fields@[i].0@].id
                                    == self.fields@[i].1.id as int
                                &&& self.store.model().fields[self.fields@[i].0@].tokenizer
                                    == self.fields@[i].1.tokenizer@
                            } by {
                                if i < old_fields.len() {
                                    assert(old_fields[i] == self.fields@[i]);
                                }
                            }
                        }
                        Ok(field)
                    },
                    None => Err(Error::NoSuchField(name.to_owned())),
                }
            },
        }
    }
}

} // verus!
