use vstd::prelude::*;
use vstd::string::StrSliceExecFns;
use vstd::string::StringExecFns;

use crate::digits::append_usize;
use crate::error::Error;
use crate::model::{doc_count, storage_inv, Model};
use crate::query::{
    query_params, query_sql, CombinedQuery, Occur, PhraseQuery, Query, TermQuery,
};
use crate::tokenizer::{erased_tokens, is_white, ErasedTokenizer, Tokenizer};
use crate::{
    boost_find, boost_get, cache_consistent, cache_find, index_specs, reg_find, reg_get, Field,
    FieldConfig, Index,
};

verus! {

/// The index of the first `:` at or after `i`.
pub open spec fn find_colon_from(s: Seq<char>, i: int) -> Option<int>
    decreases s.len() - i,
{
    if i < 0 || i >= s.len() {
        None
    } else if s[i] == ':' {
        Some(i)
    } else {
        find_colon_from(s, i + 1)
    }
}

/// The index of the first `"` at or after `i`.
pub open spec fn find_quote_from(s: Seq<char>, i: int) -> Option<int>
    decreases s.len() - i,
{
    if i < 0 || i >= s.len() {
        None
    } else if s[i] == '"' {
        Some(i)
    } else {
        find_quote_from(s, i + 1)
    }
}

/// The index of the first whitespace character at or after `i`.
pub open spec fn find_white_from(s: Seq<char>, i: int) -> Option<int>
    decreases s.len() - i,
{
    if i < 0 || i >= s.len() {
        None
    } else if is_white(s[i]) {
        Some(i)
    } else {
        find_white_from(s, i + 1)
    }
}

/// The index of the first non-whitespace character at or after `i`.
pub open spec fn find_nonwhite_from(s: Seq<char>, i: int) -> Option<int>
    decreases s.len() - i,
{
    if i < 0 || i >= s.len() {
        None
    } else if !is_white(s[i]) {
        Some(i)
    } else {
        find_nonwhite_from(s, i + 1)
    }
}

/// `s` with its leading whitespace removed.
pub open spec fn skip_white(s: Seq<char>) -> Seq<char> {
    match find_nonwhite_from(s, 0) {
        Some(p) => s.skip(p),
        None => Seq::empty(),
    }
}

/// How an occurrence prefix reads: `+` demands the clause, `-` excludes it,
/// nothing leaves it optional.
pub open spec fn occur_of(s: Seq<char>) -> (Occur, Seq<char>) {
    if s.len() > 0 && s[0] == '+' {
        (Occur::Must, s.drop_first())
    } else if s.len() > 0 && s[0] == '-' {
        (Occur::MustNot, s.drop_first())
    } else {
        (Occur::Should, s)
    }
}

/// How a clause value reads: a quoted value runs to the next quote (with no
/// closing quote the value is malformed), an unquoted one to the next
/// whitespace.  Yields the value and the remaining text.
pub open spec fn split_value(s: Seq<char>) -> Option<(Seq<char>, Seq<char>)> {
    if s.len() > 0 && s[0] == '"' {
        let t = s.drop_first();
        match find_quote_from(t, 0) {
            Some(p) => Some((t.take(p), t.skip(p + 1))),
            None => None,
        }
    } else {
        let p = match find_white_from(s, 0) {
            Some(p) => p,
            None => s.len() as int,
        };
        Some((s.take(p), s.skip(p)))
    }
}

proof fn lemma_find_colon_bounds(s: Seq<char>, i: int)
    requires
        0 <= i,
        find_colon_from(s, i) is Some,
    ensures
        i <= find_colon_from(s, i)->Some_0 < s.len(),
    decreases s.len() - i,
{
    if i < s.len() && s[i] != ':' {
        lemma_find_colon_bounds(s, i + 1);
    }
}

proof fn lemma_find_quote_bounds(s: Seq<char>, i: int)
    requires
        0 <= i,
        find_quote_from(s, i) is Some,
    ensures
        i <= find_quote_from(s, i)->Some_0 < s.len(),
    decreases s.len() - i,
{
    if i < s.len() && s[i] != '"' {
        lemma_find_quote_bounds(s, i + 1);
    }
}

proof fn lemma_find_white_bounds(s: Seq<char>, i: int)
    requires
        0 <= i,
        find_white_from(s, i) is Some,
    ensures
        i <= find_white_from(s, i)->Some_0 < s.len(),
    decreases s.len() - i,
{
    if i < s.len() && !is_white(s[i]) {
        lemma_find_white_bounds(s, i + 1);
    }
}

proof fn lemma_find_nonwhite_bounds(s: Seq<char>, i: int)
    requires
        0 <= i,
        find_nonwhite_from(s, i) is Some,
    ensures
        i <= find_nonwhite_from(s, i)->Some_0 < s.len(),
        !is_white(s[find_nonwhite_from(s, i)->Some_0]),
    decreases s.len() - i,
{
    if i < s.len() && is_white(s[i]) {
        lemma_find_nonwhite_bounds(s, i + 1);
    }
}

/// The trimmed remainder never grows.
pub proof fn lemma_skip_white_le(s: Seq<char>)
    ensures
        skip_white(s).len() <= s.len(),
{
    if find_nonwhite_from(s, 0) is Some {
        lemma_find_nonwhite_bounds(s, 0);
    }
}

/// Reads the optional occurrence prefix of a clause.
pub fn parse_occur<'a>(text: &'a str) -> (r: (Occur, &'a str))
    ensures
        r.0 == occur_of(text@).0,
        r.1@ == occur_of(text@).1,
{
    let n = text.unicode_len();
    if n == 0 {
        return (Occur::Should, text);
    }
    let c = text.get_char(0);
    if c == '+' {
        let rest = text.substring_char(1, n);
        proof {
            assert(rest@ =~= text@.drop_first());
        }
        (Occur::Must, rest)
    } else if c == '-' {
        let rest = text.substring_char(1, n);
        proof {
            assert(rest@ =~= text@.drop_first());
        }
        (Occur::MustNot, rest)
    } else {
        (Occur::Should, text)
    }
}

/// Reads the field name of a clause: everything up to the first `:`.  A
/// clause without `:` is malformed.
pub fn parse_field_name<'a>(text: &'a str) -> (r: Result<(&'a str, &'a str), Error>)
    ensures
        match find_colon_from(text@, 0) {
            Some(p) => r matches Ok(pair) && pair.0@ == text@.take(p) && pair.1@ == text@.skip(
                p + 1,
            ),
            None => r matches Err(Error::MissingFieldName(t)) && t@ == text@,
        },
{
    let n = text.unicode_len();
    let mut i: usize = 0;
    while i < n
        invariant
            0 <= i <= n == text@.len(),
            find_colon_from(text@, 0) == find_colon_from(text@, i as int),
        decreases n - i,
    {
        if text.get_char(i) == ':' {
            let field = text.substring_char(0, i);
            let rest = text.substring_char(i + 1, n);
            proof {
                assert(field@ =~= text@.take(i as int));
                assert(rest@ =~= text@.skip(i as int + 1));
            }
            return Ok((field, rest));
        }
        i = i + 1;
    }
    Err(Error::MissingFieldName(text.to_owned()))
}

/// The index of the first whitespace character, or the length when there is
/// none.
#[verifier::loop_isolation(false)]
fn find_white_pos(text: &str) -> (r: usize)
    ensures
        match find_white_from(text@, 0) {
            Some(p) => r == p,
            None => r == text@.len(),
        },
        r <= text@.len(),
{
    let n = text.unicode_len();
    let mut i: usize = 0;
    while i < n
        invariant
            0 <= i <= n,
            find_white_from(text@, 0) == find_white_from(text@, i as int),
        decreases n - i,
    {
        if text.get_char(i).is_whitespace() {
            return i;
        }
        i = i + 1;
    }
    n
}

/// Reads a clause value and tokenizes it with the field's tokenizer: quoted
/// values run to the closing quote, unquoted ones to the next whitespace.
#[verifier::loop_isolation(false)]
pub fn parse_values<'a>(tokenizer: &ErasedTokenizer, text: &'a str) -> (r: Result<
    (Vec<String>, &'a str),
    Error,
>)
    ensures
        match split_value(text@) {
            Some(va) => r matches Ok(pair) && pair.0.deep_view() == erased_tokens(
                *tokenizer,
                va.0,
            ) && pair.1@ == va.1,
            None => r matches Err(Error::UnclosedQuote(t)) && t@ == text@.drop_first(),
        },
{
    let n = text.unicode_len();
    let quoted = n > 0 && text.get_char(0) == '"';
    if quoted {
        let ghost t = text@.drop_first();
        let mut i: usize = 1;
        while i < n
            invariant
                1 <= i <= n == text@.len(),
                t == text@.drop_first(),
                find_quote_from(t, 0) == find_quote_from(t, i as int - 1),
            decreases n - i,
        {
            proof {
                assert(t[i as int - 1] == text@[i as int]);
            }
            if text.get_char(i) == '"' {
                let value = text.substring_char(1, i);
                let rest = text.substring_char(i + 1, n);
                proof {
                    assert(value@ =~= t.take(i as int - 1));
                    assert(rest@ =~= t.skip(i as int));
                }
                let values = tokenizer.tokenize(value);
                return Ok((values, rest));
            }
            i = i + 1;
        }
        let tail = text.substring_char(1, n);
        proof {
            assert(tail@ =~= text@.drop_first());
        }
        Err(Error::UnclosedQuote(tail.to_owned()))
    } else {
        let i = find_white_pos(text);
        let value = text.substring_char(0, i);
        let rest = text.substring_char(i, n);
        proof {
            assert(value@ =~= text@.take(i as int));
            assert(rest@ =~= text@.skip(i as int));
        }
        let values = tokenizer.tokenize(value);
        Ok((values, rest))
    }
}

/// Removes leading whitespace.
fn trim_start_str<'a>(text: &'a str) -> (r: &'a str)
    ensures
        r@ == skip_white(text@),
{
    let n = text.unicode_len();
    let mut i: usize = 0;
    while i < n
        invariant
            0 <= i <= n == text@.len(),
            find_nonwhite_from(text@, 0) == find_nonwhite_from(text@, i as int),
        decreases n - i,
    {
        if !text.get_char(i).is_whitespace() {
            let rest = text.substring_char(i, n);
            proof {
                assert(rest@ =~= text@.skip(i as int));
            }
            return rest;
        }
        i = i + 1;
    }
    let rest = text.substring_char(n, n);
    proof {
        assert(rest@ =~= Seq::<char>::empty());
    }
    rest
}

/// The errors a parse can surface: a malformed clause, an unresolvable
/// field or tokenizer, an unproductive value, or a storage failure.
pub open spec fn parser_error(e: Error) -> bool {
    ||| e is Sqlite
    ||| e is MissingFieldName
    ||| e is NoSuchField
    ||| e is NoSuchTokenizer
    ||| e is UnclosedQuote
    ||| e is InvalidValue
}

/// `q` is the clause some field name and value compile to: the field is
/// declared in `m`, its tokenizer registered in `reg`, the value's tokens
/// are non-empty, and the query carries the field's id, the configured
/// boost, and the tokens (one token makes a term query, several a phrase).
pub open spec fn clause_from(
    q: Query,
    m: Model,
    reg: Seq<(String, ErasedTokenizer)>,
    boosts: Seq<(String, FieldConfig)>,
    fname: Seq<char>,
    value: Seq<char>,
) -> bool {
    &&& m.fields.dom().contains(fname)
    &&& reg_find(reg, m.fields[fname].tokenizer) is Some
    &&& {
        let toks = erased_tokens(reg_find(reg, m.fields[fname].tokenizer)->Some_0, value);
        let boost = configured_boost(boosts, fname);
        &&& toks.len() >= 1
        &&& if toks.len() == 1 {
            match q {
                Query::Term(t) => t.field_id as int == m.fields[fname].id && t.value@ == toks[0]
                    && t.boost@ == boost,
                _ => false,
            }
        } else {
            match q {
                Query::Phrase(p) => p.field_id as int == m.fields[fname].id && p.values.deep_view()
                    == toks && p.boost@ == boost,
                _ => false,
            }
        }
    }
}

/// Some field name and value compile to `q`.
pub open spec fn clause_wf(
    q: Query,
    m: Model,
    reg: Seq<(String, ErasedTokenizer)>,
    boosts: Seq<(String, FieldConfig)>,
) -> bool {
    exists|fname: Seq<char>, value: Seq<char>|
        #[trigger] clause_from(q, m, reg, boosts, fname, value)
}

/// One clause reads off the front of `text`: the occurrence prefix, a field
/// name up to `:`, a value, and `q` is the clause those compile to; `rest`
/// is the remaining text with its leading whitespace removed.
pub open spec fn clause_parses_to(
    text: Seq<char>,
    m: Model,
    reg: Seq<(String, ErasedTokenizer)>,
    bs: Seq<(String, FieldConfig)>,
    oc: Occur,
    q: Query,
    rest: Seq<char>,
) -> bool {
    let s1 = occur_of(text).1;
    &&& oc == occur_of(text).0
    &&& match find_colon_from(s1, 0) {
        Some(p) => {
            let fname = s1.take(p);
            let s2 = s1.skip(p + 1);
            match split_value(s2) {
                Some(va) => clause_from(q, m, reg, bs, fname, va.0) && rest == skip_white(va.1),
                None => false,
            }
        },
        None => false,
    }
}

/// Reading clauses off the front of `text` one by one yields exactly the
/// list `cs` and leaves `rest`.
pub open spec fn parses_prefix(
    text: Seq<char>,
    m: Model,
    reg: Seq<(String, ErasedTokenizer)>,
    bs: Seq<(String, FieldConfig)>,
    cs: Seq<(Occur, Query)>,
    rest: Seq<char>,
) -> bool
    decreases cs.len(),
{
    if cs.len() == 0 {
        rest == text
    } else {
        exists|mid: Seq<char>|
            #[trigger] clause_parses_to(text, m, reg, bs, cs[0].0, cs[0].1, mid)
                && parses_prefix(mid, m, reg, bs, cs.drop_first(), rest)
    }
}

/// `text` (already free of leading whitespace) reads as exactly the clause
/// list `cs`, with nothing left over.
pub open spec fn parses_to(
    text: Seq<char>,
    m: Model,
    reg: Seq<(String, ErasedTokenizer)>,
    bs: Seq<(String, FieldConfig)>,
    cs: Seq<(Occur, Query)>,
) -> bool {
    parses_prefix(text, m, reg, bs, cs, Seq::empty())
}

/// The parser error that the clause at the front of `text` raises, with its
/// carried text: a clause without `:`, an undeclared field, an unregistered
/// tokenizer, a quote that never closes, a value without tokens, or a
/// storage failure.
pub open spec fn clause_error(
    text: Seq<char>,
    m: Model,
    reg: Seq<(String, ErasedTokenizer)>,
    e: Error,
) -> bool {
    let s1 = occur_of(text).1;
    match e {
        Error::Sqlite(_) => true,
        Error::MissingFieldName(t) => find_colon_from(s1, 0) is None && t@ == s1,
        Error::NoSuchField(n) => match find_colon_from(s1, 0) {
            Some(p) => n@ == s1.take(p) && !m.fields.dom().contains(n@),
            None => false,
        },
        Error::NoSuchTokenizer(n) => match find_colon_from(s1, 0) {
            Some(p) => {
                let fname = s1.take(p);
                &&& m.fields.dom().contains(fname)
                &&& n@ == m.fields[fname].tokenizer
                &&& reg_find(reg, n@) is None
            },
            None => false,
        },
        Error::UnclosedQuote(t) => match find_colon_from(s1, 0) {
            Some(p) => {
                let s2 = s1.skip(p + 1);
                &&& s2.len() > 0
                &&& s2[0] == '"'
                &&& find_quote_from(s2.drop_first(), 0) is None
                &&& t@ == s2.drop_first()
            },
            None => false,
        },
        Error::InvalidValue(t) => match find_colon_from(s1, 0) {
            Some(p) => {
                let fname = s1.take(p);
                let s2 = s1.skip(p + 1);
                &&& m.fields.dom().contains(fname)
                &&& match reg_find(reg, m.fields[fname].tokenizer) {
                    Some(tk) => match split_value(s2) {
                        Some(va) => erased_tokens(tk, va.0).len() == 0 && t@ == s2,
                        None => false,
                    },
                    None => false,
                }
            },
            None => false,
        },
        _ => false,
    }
}

/// Extending a read prefix by one more clause.
proof fn lemma_parses_prefix_snoc(
    text: Seq<char>,
    m: Model,
    reg: Seq<(String, ErasedTokenizer)>,
    bs: Seq<(String, FieldConfig)>,
    cs: Seq<(Occur, Query)>,
    rest: Seq<char>,
    oc: Occur,
    q: Query,
    r2: Seq<char>,
)
    requires
        parses_prefix(text, m, reg, bs, cs, rest),
        clause_parses_to(rest, m, reg, bs, oc, q, r2),
    ensures
        parses_prefix(text, m, reg, bs, cs.push((oc, q)), r2),
    decreases cs.len(),
{
    let cs2 = cs.push((oc, q));
    if cs.len() == 0 {
        assert(cs2[0] == (oc, q));
        assert(cs2.drop_first() =~= Seq::<(Occur, Query)>::empty());
        assert(parses_prefix(r2, m, reg, bs, cs2.drop_first(), r2));
        assert(clause_parses_to(text, m, reg, bs, cs2[0].0, cs2[0].1, r2));
    } else {
        let mid = choose|mid: Seq<char>|
            #[trigger] clause_parses_to(text, m, reg, bs, cs[0].0, cs[0].1, mid)
                && parses_prefix(mid, m, reg, bs, cs.drop_first(), rest);
        lemma_parses_prefix_snoc(mid, m, reg, bs, cs.drop_first(), rest, oc, q, r2);
        assert(cs2.drop_first() =~= cs.drop_first().push((oc, q)));
        assert(cs2[0] == cs[0]);
        assert(clause_parses_to(text, m, reg, bs, cs2[0].0, cs2[0].1, mid));
    }
}

/// Every query of a partition list is one of the partitioned clauses.
proof fn lemma_clause_queries_membership(cs: Seq<(Occur, Query)>, o: Occur, j: int)
    requires
        0 <= j < crate::query::clause_queries(cs, o).len(),
    ensures
        exists|k: int|
            0 <= k < cs.len() && (#[trigger] cs[k]).0 == o && cs[k].1
                == crate::query::clause_queries(cs, o)[j],
    decreases cs.len(),
{
    if cs.len() > 0 {
        let rest = crate::query::clause_queries(cs.drop_last(), o);
        if cs.last().0 == o && j == rest.len() {
            assert(cs[cs.len() - 1] == cs.last());
        } else {
            lemma_clause_queries_membership(cs.drop_last(), o, j);
            let k = choose|k: int|
                0 <= k < cs.drop_last().len() && (#[trigger] cs.drop_last()[k]).0 == o
                    && cs.drop_last()[k].1 == rest[j];
            assert(cs[k] == cs.drop_last()[k]);
        }
    }
}

/// A read session: parses queries against the declared fields and executes
/// compiled searches.
pub struct Reader {
    pub(crate) index: Index,
}

/// The boost a clause of field `fname` carries: the configured one when it
/// is a plain decimal literal, else the neutral boost 1 (a malformed boost
/// is never spliced into SQL).
pub open spec fn configured_boost(boosts: Seq<(String, FieldConfig)>, fname: Seq<char>) -> Seq<
    char,
> {
    match boost_find(boosts, fname) {
        Some(b) => if crate::is_numeric_boost(b) {
            b
        } else {
            "1"@
        },
        None => "1"@,
    }
}

/// What a parsed clause promises about the query it produced: the field was
/// resolved, its tokenizer found, the value tokenized to at least one token,
/// and the query carries the field's id, the configured boost, and the
/// tokens.
pub open spec fn clause_query_ok(
    q: Query,
    m: Model,
    cache: Seq<(String, Field)>,
    boosts: Seq<(String, FieldConfig)>,
    fname: Seq<char>,
    toks: Seq<Seq<char>>,
) -> bool {
    let row = m.fields[fname];
    let boost = configured_boost(boosts, fname);
    &&& m.fields.dom().contains(fname)
    &&& toks.len() >= 1
    &&& if toks.len() == 1 {
        match q {
            Query::Term(t) => {
                &&& t.field_id as int == row.id
                &&& t.value@ == toks[0]
                &&& t.boost@ == boost
                &&& match cache_find(cache, fname) {
                    Some(c) => t.documents == c.documents && t.avg_documents_count@
                        == c.avg_documents_count@,
                    None => t.documents as int == doc_count(m, row.id),
                }
            },
            _ => false,
        }
    } else {
        match q {
            Query::Phrase(p) => {
                &&& p.field_id as int == row.id
                &&& p.values.deep_view() == toks
                &&& p.boost@ == boost
                &&& match cache_find(cache, fname) {
                    Some(c) => p.documents == c.documents && p.avg_documents_count@
                        == c.avg_documents_count@,
                    None => p.documents as int == doc_count(m, row.id),
                }
            },
            _ => false,
        }
    }
}

impl Reader {
    /// The contents of the four storage tables.
    pub closed spec fn model(&self) -> Model {
        self.index.store.model()
    }

    /// The registered tokenizers.
    pub closed spec fn registry(&self) -> Seq<(String, ErasedTokenizer)> {
        self.index.tokenizers@
    }

    /// The cached field records.
    pub closed spec fn cache(&self) -> Seq<(String, Field)> {
        self.index.fields@
    }

    /// The configured per-field boosts.
    pub closed spec fn boosts(&self) -> Seq<(String, FieldConfig)> {
        self.index.config.fields@
    }

    /// A live read session: no open transaction, storage facts, and a field
    /// cache that agrees with the fields table.
    pub closed spec fn inv(&self) -> bool {
        &&& self.index.store.pending() is None
        &&& storage_inv(self.index.store.model())
        &&& cache_consistent(self.index.fields@, self.index.store.model())
    }
}

impl Index {
    /// Opens a read session.  The session may cache field statistics for its
    /// lifetime; it ends when `close` gives the index back.
    pub fn read(self) -> (r: Reader)
        requires
            self.inv(),
        ensures
            r.inv(),
            r.model() == self.model(),
            r.registry() == self.registry(),
            r.cache() == self.cache(),
            r.boosts() == self.boosts(),
    {
        proof {
            index_specs(&self);
        }
        Reader { index: self }
    }
}

impl Reader {
    /// Ends the read session, giving the index back.
    pub fn close(self) -> (r: Index)
        requires
            self.inv(),
        ensures
            r.inv(),
            r.model() == self.model(),
            r.registry() == self.registry(),
            r.boosts() == self.boosts(),
    {
        proof {
            index_specs(&self.index);
        }
        self.index
    }

    /// Parses one clause: occurrence prefix, field name, `:`, value; the
    /// value is tokenized with the field's tokenizer, one token makes a term
    /// query, several make a phrase query.  Returns the clause and the
    /// remaining text, trimmed.
    fn parse_clause<'t>(&mut self, text: &'t str) -> (r: Result<(Occur, Query, &'t str), Error>)
        requires
            old(self).inv(),
        ensures
            final(self).inv(),
            final(self).model() == old(self).model(),
            final(self).registry() == old(self).registry(),
            final(self).boosts() == old(self).boosts(),
            r matches Ok(ocr) ==> {
                let s1 = occur_of(text@).1;
                &&& ocr.0 == occur_of(text@).0
                &&& find_colon_from(s1, 0) is Some
                &&& {
                    let p = find_colon_from(s1, 0)->Some_0;
                    let fname = s1.take(p);
                    let s2 = s1.skip(p + 1);
                    let row = old(self).model().fields[fname];
                    &&& old(self).model().fields.dom().contains(fname)
                    &&& reg_find(old(self).registry(), row.tokenizer) is Some
                    &&& split_value(s2) is Some
                    &&& {
                        let tk = reg_find(old(self).registry(), row.tokenizer)->Some_0;
                        let va = split_value(s2)->Some_0;
                        &&& clause_query_ok(
                            ocr.1,
                            old(self).model(),
                            old(self).cache(),
                            old(self).boosts(),
                            fname,
                            erased_tokens(tk, va.0),
                        )
                        &&& clause_from(
                            ocr.1,
                            old(self).model(),
                            old(self).registry(),
                            old(self).boosts(),
                            fname,
                            va.0,
                        )
                        &&& ocr.2@ == skip_white(va.1)
                        &&& ocr.2@.len() < text@.len()
                    }
                }
            },
            r matches Ok(ocr) ==> clause_parses_to(
                text@,
                old(self).model(),
                old(self).registry(),
                old(self).boosts(),
                ocr.0,
                ocr.1,
                ocr.2@,
            ),
            r matches Err(e) ==> clause_error(
                text@,
                old(self).model(),
                old(self).registry(),
                e,
            ),
    {
        let (occur, text1) = parse_occur(text);
        let (field_name, text2) = match parse_field_name(text1) {
            Ok(pair) => pair,
            Err(e) => {
                return Err(e);
            },
        };
        proof {
            lemma_find_colon_bounds(text1@, 0);
        }
        let field = match self.index.read_field(field_name) {
            Ok(f) => f,
            Err(e) => {
                return Err(e);
            },
        };
        let tokenizer = match reg_get(&self.index.tokenizers, field.tokenizer.as_str()) {
            Some(t) => t.clone(),
            None => {
                return Err(Error::NoSuchTokenizer(field.tokenizer));
            },
        };
        let (values, rest) = match parse_values(&tokenizer, text2) {
            Ok(pair) => pair,
            Err(e) => {
                return Err(e);
            },
        };
        let boost = match boost_get(&self.index.config.fields, field_name) {
            Some(b) => {
                if crate::numeric_boost(b.as_str()) {
                    b.clone()
                } else {
                    String::from_str("1")
                }
            },
            None => String::from_str("1"),
        };
        let query: Query = if values.len() == 0 {
            return Err(Error::InvalidValue(text2.to_owned()));
        } else if values.len() == 1 {
            let value = values[0].clone();
            proof {
                assert(value@ == values.deep_view()[0]);
            }
            Query::Term(TermQuery::new(&field, boost, value))
        } else {
            Query::Phrase(PhraseQuery::new(&field, boost, values))
        };
        let trimmed = trim_start_str(rest);
        proof {
            let s1 = occur_of(text@).1;
            let p = find_colon_from(s1, 0)->Some_0;
            let s2 = s1.skip(p + 1);
            lemma_skip_white_le(rest@);
            if split_value(s2) matches Some(va) {
                if s2.len() > 0 && s2[0] == '"' {
                    lemma_find_quote_bounds(s2.drop_first(), 0);
                } else {
                    if find_white_from(s2, 0) is Some {
                        lemma_find_white_bounds(s2, 0);
                    }
                }
            }
            if cache_find(old(self).index.fields@, field_name@) is Some {
                crate::lemma_cache_find_consistent(
                    old(self).index.fields@,
                    old(self).index.store.model(),
                    field_name@,
                );
            }
        }
        Ok((occur, query, trimmed))
    }

    /// Parses a whitespace-separated clause list into a combined query.
    #[verifier::loop_isolation(false)]
    fn parse_clauses(&mut self, text: &str) -> (r: Result<CombinedQuery, Error>)
        requires
            old(self).inv(),
            text@.len() == 0 || !is_white(text@[0]),
        ensures
            final(self).inv(),
            final(self).model() == old(self).model(),
            final(self).registry() == old(self).registry(),
            final(self).boosts() == old(self).boosts(),
            text@.len() == 0 ==> r is Ok,
            r matches Ok(q) ==> (text@.len() == 0 ==> q.must@.len() == 0 && q.should@.len() == 0
                && q.must_not@.len() == 0),
            r matches Ok(q) ==> {
                let m = old(self).model();
                let reg = old(self).registry();
                let bs = old(self).boosts();
                &&& forall|j: int| 0 <= j < q.must@.len() ==> clause_wf(
                    #[trigger] q.must@[j],
                    m,
                    reg,
                    bs,
                )
                &&& forall|j: int| 0 <= j < q.should@.len() ==> clause_wf(
                    #[trigger] q.should@[j],
                    m,
                    reg,
                    bs,
                )
                &&& forall|j: int| 0 <= j < q.must_not@.len() ==> clause_wf(
                    #[trigger] q.must_not@[j],
                    m,
                    reg,
                    bs,
                )
            },
            r matches Ok(q) ==> exists|cs: Seq<(Occur, Query)>|
                #[trigger] parses_to(
                    text@,
                    old(self).model(),
                    old(self).registry(),
                    old(self).boosts(),
                    cs,
                ) && q.must@ == crate::query::clause_queries(cs, Occur::Must) && q.should@
                    == crate::query::clause_queries(cs, Occur::Should) && q.must_not@
                    == crate::query::clause_queries(cs, Occur::MustNot),
            r matches Err(e) ==> parser_error(e) && exists|cs: Seq<(Occur, Query)>, at: Seq<char>|
                #[trigger] parses_prefix(
                    text@,
                    old(self).model(),
                    old(self).registry(),
                    old(self).boosts(),
                    cs,
                    at,
                ) && clause_error(at, old(self).model(), old(self).registry(), e),
    {
        let mut clauses: Vec<(Occur, Query)> = Vec::new();
        let mut rest: &str = text;
        let ghost entry_len = text@.len();
        proof {
            assert(clauses@ =~= Seq::<(Occur, Query)>::empty());
        }
        while rest.unicode_len() > 0
            invariant
                self.inv(),
                self.model() == old(self).model(),
                self.registry() == old(self).registry(),
                self.boosts() == old(self).boosts(),
                entry_len == 0 ==> rest@.len() == 0,
                entry_len == 0 ==> clauses@.len() == 0,
                parses_prefix(
                    text@,
                    old(self).model(),
                    old(self).registry(),
                    old(self).boosts(),
                    clauses@,
                    rest@,
                ),
                forall|k: int| 0 <= k < clauses@.len() ==> clause_wf(
                    (#[trigger] clauses@[k]).1,
                    old(self).model(),
                    old(self).registry(),
                    old(self).boosts(),
                ),
            decreases rest@.len(),
        {
            let (occur, clause, r2) = match self.parse_clause(rest) {
                Ok(t) => t,
                Err(e) => {
                    proof {
                        assert(clause_error(
                            rest@,
                            old(self).model(),
                            old(self).registry(),
                            e,
                        ));
                    }
                    return Err(e);
                },
            };
            proof {
                lemma_parses_prefix_snoc(
                    text@,
                    old(self).model(),
                    old(self).registry(),
                    old(self).boosts(),
                    clauses@,
                    rest@,
                    occur,
                    clause,
                    r2@,
                );
            }
            clauses.push((occur, clause));
            rest = r2;
        }
        let q = CombinedQuery::new(clauses);
        proof {
            assert(rest@ =~= Seq::<char>::empty());
            assert(parses_to(
                text@,
                old(self).model(),
                old(self).registry(),
                old(self).boosts(),
                clauses@,
            ));
            if entry_len == 0 {
                assert(clauses@.len() == 0);
                assert(q.must@.len() == 0 && q.should@.len() == 0 && q.must_not@.len() == 0);
            }
            let m = old(self).model();
            let reg = old(self).registry();
            let bs = old(self).boosts();
            assert forall|j: int| 0 <= j < q.must@.len() implies clause_wf(
                #[trigger] q.must@[j],
                m,
                reg,
                bs,
            ) by {
                lemma_clause_queries_membership(clauses@, Occur::Must, j);
            }
            assert forall|j: int| 0 <= j < q.should@.len() implies clause_wf(
                #[trigger] q.should@[j],
                m,
                reg,
                bs,
            ) by {
                lemma_clause_queries_membership(clauses@, Occur::Should, j);
            }
            assert forall|j: int| 0 <= j < q.must_not@.len() implies clause_wf(
                #[trigger] q.must_not@[j],
                m,
                reg,
                bs,
            ) by {
                lemma_clause_queries_membership(clauses@, Occur::MustNot, j);
            }
        }
        Ok(q)
    }

    /// Parses a textual query: optionally prefixed clauses separated by
    /// whitespace.  A query that is empty after trimming parses to a
    /// combined query with no clauses, which compiles exactly as the
    /// match-all query does.
    pub fn parse(&mut self, text: &str) -> (r: Result<Query, Error>)
        requires
            old(self).inv(),
        ensures
            final(self).inv(),
            final(self).model() == old(self).model(),
            final(self).registry() == old(self).registry(),
            final(self).boosts() == old(self).boosts(),
            r matches Ok(q) ==> q is Combined,
            r matches Ok(q) ==> match q {
                Query::Combined(c) => exists|cs: Seq<(Occur, Query)>|
                    #[trigger] parses_to(
                        skip_white(text@),
                        old(self).model(),
                        old(self).registry(),
                        old(self).boosts(),
                        cs,
                    ) && c.must@ == crate::query::clause_queries(cs, Occur::Must) && c.should@
                        == crate::query::clause_queries(cs, Occur::Should) && c.must_not@
                        == crate::query::clause_queries(cs, Occur::MustNot),
                _ => false,
            },
            r matches Err(e) ==> exists|cs: Seq<(Occur, Query)>, at: Seq<char>|
                #[trigger] parses_prefix(
                    skip_white(text@),
                    old(self).model(),
                    old(self).registry(),
                    old(self).boosts(),
                    cs,
                    at,
                ) && clause_error(at, old(self).model(), old(self).registry(), e),
            r matches Ok(q) ==> match q {
                Query::Combined(c) => {
                    let m = old(self).model();
                    let reg = old(self).registry();
                    let bs = old(self).boosts();
                    &&& forall|j: int| 0 <= j < c.must@.len() ==> clause_wf(
                        #[trigger] c.must@[j],
                        m,
                        reg,
                        bs,
                    )
                    &&& forall|j: int| 0 <= j < c.should@.len() ==> clause_wf(
                        #[trigger] c.should@[j],
                        m,
                        reg,
                        bs,
                    )
                    &&& forall|j: int| 0 <= j < c.must_not@.len() ==> clause_wf(
                        #[trigger] c.must_not@[j],
                        m,
                        reg,
                        bs,
                    )
                },
                _ => false,
            },
            r matches Err(e) ==> parser_error(e),
            skip_white(text@).len() == 0 ==> (r matches Ok(q) && match q {
                Query::Combined(c) => c.must@.len() == 0 && c.should@.len() == 0
                    && c.must_not@.len() == 0,
                _ => false,
            }),
    {
        let trimmed = trim_start_str(text);
        proof {
            match find_nonwhite_from(text@, 0) {
                Some(p) => {
                    lemma_find_nonwhite_bounds(text@, 0);
                    assert(trimmed@[0] == text@[p]);
                },
                None => {},
            }
        }
        match self.parse_clauses(trimmed) {
            Ok(c) => Ok(Query::Combined(c)),
            Err(e) => Err(e),
        }
    }
}

/// `c` can stand in a plain SQL identifier: an ASCII letter, digit or
/// underscore.
pub open spec fn is_ident_char(c: char) -> bool {
    ('a' <= c && c <= 'z') || ('A' <= c && c <= 'Z') || ('0' <= c && c <= '9') || c == '_'
}

/// A usable temporary-table name: a plain SQL identifier (starting with an
/// ASCII letter or underscore) that does not begin with `canter_`, so that
/// the created table can neither reshape the statement nor shadow the
/// engine's own tables.
pub open spec fn is_temp_name(s: Seq<char>) -> bool {
    &&& s.len() > 0
    &&& (('a' <= s[0] && s[0] <= 'z') || ('A' <= s[0] && s[0] <= 'Z') || s[0] == '_')
    &&& (forall|i: int| 0 <= i < s.len() ==> is_ident_char(#[trigger] s[i]))
    &&& !(s.len() >= 7 && s.subrange(0, 7) == "canter_"@)
}

/// Checks a temporary-table name.
#[verifier::loop_isolation(false)]
pub fn valid_temp_name(s: &str) -> (r: bool)
    ensures
        r == is_temp_name(s@),
{
    let n = s.unicode_len();
    if n == 0 {
        return false;
    }
    let first = s.get_char(0);
    if !(('a' <= first && first <= 'z') || ('A' <= first && first <= 'Z') || first == '_') {
        return false;
    }
    let mut i: usize = 0;
    while i < n
        invariant
            0 <= i <= n,
            forall|j: int| 0 <= j < i ==> is_ident_char(#[trigger] s@[j]),
        decreases n - i,
    {
        let c = s.get_char(i);
        if !(('a' <= c && c <= 'z') || ('A' <= c && c <= 'Z') || ('0' <= c && c <= '9') || c
            == '_') {
            return false;
        }
        i = i + 1;
    }
    if n >= 7 {
        let head = s.substring_char(0, 7);
        proof {
            assert(head@ =~= s@.subrange(0, 7));
        }
        if crate::str_eq(head, "canter_") {
            return false;
        }
    }
    true
}

/// The statement is a `CREATE TEMPORARY TABLE <name> AS <select>` for some
/// usable name: the only statement shape the materializing wrapper accepts.
pub open spec fn materialize_stmt_ok(sql: Seq<char>) -> bool {
    exists|name: Seq<char>, inner: Seq<char>|
        is_temp_name(name) && sql == #[trigger] materialize_sql(inner, name)
}

/// The statement a scored search runs: the compiled query wrapped in an
/// ordering select (reading the score as its text rendering), optionally
/// materialized into a temporary table, with optional limit and offset.
pub open spec fn search_sql(
    inner: Seq<char>,
    temp: Option<Seq<char>>,
    limit: Option<int>,
    offset: Option<int>,
) -> Seq<char> {
    (match temp {
        Some(t) => "CREATE TEMPORARY TABLE "@ + t + " AS "@,
        None => Seq::<char>::empty(),
    }) + "SELECT document_id, CAST(score AS TEXT) AS score_text FROM ( "@ + inner
        + " ) ORDER BY score DESC"@ + (match limit {
        Some(l) => " LIMIT "@ + crate::digits::dec_int(l),
        None => Seq::<char>::empty(),
    }) + (match offset {
        Some(o) => " OFFSET "@ + crate::digits::dec_int(o),
        None => Seq::<char>::empty(),
    })
}

/// Builds the statement and parameter list a scored search runs.
#[verifier::rlimit(100)]
pub fn search_statement(
    query: &Query,
    limit: Option<usize>,
    offset: Option<usize>,
    temp: Option<&str>,
) -> (r: (String, Vec<String>))
    ensures
        r.0@ == search_sql(
            query_sql(*query, true),
            match temp {
                Some(t) => Some(t@),
                None => None,
            },
            match limit {
                Some(l) => Some(l as int),
                None => None,
            },
            match offset {
                Some(o) => Some(o as int),
                None => None,
            },
        ),
        r.1.deep_view() == query_params(*query),
{
    let mut sql = String::new();
    let mut params: Vec<String> = Vec::new();
    match temp {
        Some(t) => {
            sql.append("CREATE TEMPORARY TABLE ");
            sql.append(t);
            sql.append(" AS ");
        },
        None => {},
    }
    sql.append("SELECT document_id, CAST(score AS TEXT) AS score_text FROM ( ");
    query.to_sql(true, &mut sql, &mut params);
    sql.append(" ) ORDER BY score DESC");
    match limit {
        Some(l) => {
            sql.append(" LIMIT ");
            append_usize(&mut sql, l);
        },
        None => {},
    }
    match offset {
        Some(o) => {
            sql.append(" OFFSET ");
            append_usize(&mut sql, o);
        },
        None => {},
    }
    proof {
        assert(sql@ =~= search_sql(
            query_sql(*query, true),
            match temp {
                Some(t) => Some(t@),
                None => None,
            },
            match limit {
                Some(l) => Some(l as int),
                None => None,
            },
            match offset {
                Some(o) => Some(o as int),
                None => None,
            },
        ));
        assert(params.deep_view() =~~= query_params(*query));
    }
    (sql, params)
}

/// The statement that materializes the unscored document set of a query
/// into a temporary table.
pub open spec fn materialize_sql(inner: Seq<char>, temp: Seq<char>) -> Seq<char> {
    "CREATE TEMPORARY TABLE "@ + temp + " AS "@ + inner
}

/// Builds the statement and parameter list of an unscored materialization.
pub fn materialize_statement(query: &Query, temp: &str) -> (r: (String, Vec<String>))
    ensures
        r.0@ == materialize_sql(query_sql(*query, false), temp@),
        r.1.deep_view() == query_params(*query),
{
    let mut sql = String::new();
    let mut params: Vec<String> = Vec::new();
    sql.append("CREATE TEMPORARY TABLE ");
    sql.append(temp);
    sql.append(" AS ");
    query.to_sql(false, &mut sql, &mut params);
    proof {
        assert(sql@ =~= materialize_sql(query_sql(*query, false), temp@));
        assert(params.deep_view() =~~= query_params(*query));
    }
    (sql, params)
}

impl Reader {
    /// Runs a scored search: orders the compiled query's rows by descending
    /// score and returns `(document_id, score)` pairs, the score as the
    /// storage layer's text rendering of the REAL value.  With `temp` set
    /// the rows are materialized into that temporary table instead, and the
    /// returned list is empty.  What the rows hold is decided by the
    /// storage layer executing the compiled statement.
    pub fn search(
        &self,
        query: &Query,
        limit: Option<usize>,
        offset: Option<usize>,
        temp: Option<&str>,
    ) -> (r: Result<Vec<(i64, String)>, Error>)
        requires
            temp matches Some(t) ==> is_temp_name(t@),
        ensures
            temp is Some ==> (r matches Ok(rows) ==> rows@.len() == 0),
            r matches Err(e) ==> e is Sqlite,
    {
        let (sql, params) = search_statement(query, limit, offset, temp);
        match temp {
            None => {
                match self.index.store.query_scored(sql.as_str(), &params) {
                    Ok(rows) => Ok(rows),
                    Err(e) => Err(Error::Sqlite(e)),
                }
            },
            Some(t) => {
                proof {
                    let inner = "SELECT document_id, CAST(score AS TEXT) AS score_text FROM ( "@
                        + query_sql(*query, true) + " ) ORDER BY score DESC"@ + (match limit {
                        Some(l) => " LIMIT "@ + crate::digits::dec_int(l as int),
                        None => Seq::<char>::empty(),
                    }) + (match offset {
                        Some(o) => " OFFSET "@ + crate::digits::dec_int(o as int),
                        None => Seq::<char>::empty(),
                    });
                    assert(sql@ =~= materialize_sql(inner, t@));
                    assert(materialize_stmt_ok(sql@));
                }
                match self.index.store.execute_materialize(sql.as_str(), &params) {
                    Ok(()) => Ok(Vec::new()),
                    Err(e) => Err(Error::Sqlite(e)),
                }
            },
        }
    }

    /// Materializes the unscored document set of a query into a temporary
    /// table.
    pub fn search_all(&self, query: &Query, temp: &str) -> (r: Result<(), Error>)
        requires
            is_temp_name(temp@),
        ensures
            r matches Err(e) ==> e is Sqlite,
    {
        let (sql, params) = materialize_statement(query, temp);
        proof {
            assert(materialize_stmt_ok(sql@));
        }
        match self.index.store.execute_materialize(sql.as_str(), &params) {
            Ok(()) => Ok(()),
            Err(e) => Err(Error::Sqlite(e)),
        }
    }
}


} // verus!
