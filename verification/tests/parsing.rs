use canter::{
    parse_field_name, parse_occur, parse_values, Config, ErasedTokenizer, Error, Index, Occur,
    Query, StubTokenizer,
};

fn open_index() -> Index {
    let conn = rusqlite::Connection::open_in_memory().unwrap();
    let mut index = Index::open(conn, Config::default()).unwrap();
    index.add_field("field", "default").unwrap();
    index
}

#[test]
fn occur_prefixes_are_read_off_the_front() {
    let (occur, rest) = parse_occur("+a:b");
    assert_eq!(occur, Occur::Must);
    assert_eq!(rest, "a:b");
    let (occur, rest) = parse_occur("-a:b");
    assert_eq!(occur, Occur::MustNot);
    assert_eq!(rest, "a:b");
    let (occur, rest) = parse_occur("a:b");
    assert_eq!(occur, Occur::Should);
    assert_eq!(rest, "a:b");
    let (occur, rest) = parse_occur("");
    assert_eq!(occur, Occur::Should);
    assert_eq!(rest, "");
}

#[test]
fn field_names_run_to_the_first_colon() {
    let (field, rest) = parse_field_name("title:the road").unwrap();
    assert_eq!(field, "title");
    assert_eq!(rest, "the road");
    match parse_field_name("no separator") {
        Err(Error::MissingFieldName(text)) => assert_eq!(text, "no separator"),
        other => panic!("expected missing field name, got {:?}", other.map(|_| ())),
    }
}

#[test]
fn values_run_to_whitespace_or_the_closing_quote() {
    let stub = ErasedTokenizer::Stub(StubTokenizer);
    let (values, rest) = parse_values(&stub, "\"a b\" tail").unwrap();
    assert_eq!(values, ["a b"]);
    assert_eq!(rest, " tail");
    let (values, rest) = parse_values(&stub, "one two").unwrap();
    assert_eq!(values, ["one"]);
    assert_eq!(rest, " two");
    let (values, rest) = parse_values(&stub, "alone").unwrap();
    assert_eq!(values, ["alone"]);
    assert_eq!(rest, "");
    match parse_values(&stub, "\"never closed") {
        Err(Error::UnclosedQuote(text)) => assert_eq!(text, "never closed"),
        other => panic!("expected unclosed quote, got {:?}", other.map(|_| ())),
    }
}

#[test]
fn parsed_clauses_carry_field_boost_and_tokens() {
    let index = open_index();
    let mut reader = index.read();
    let query = reader.parse("field:FOO +field:\"bar baz\" -field:qux").unwrap();
    match query {
        Query::Combined(c) => {
            assert_eq!(c.should.len(), 1);
            assert_eq!(c.must.len(), 1);
            assert_eq!(c.must_not.len(), 1);
            match &c.should[0] {
                Query::Term(t) => {
                    assert_eq!(t.value, "foo");
                    assert_eq!(t.boost, "1");
                }
                other => panic!("expected a term clause, got {:?}", kind(other)),
            }
            match &c.must[0] {
                Query::Phrase(p) => {
                    assert_eq!(p.values, ["bar", "baz"]);
                }
                other => panic!("expected a phrase clause, got {:?}", kind(other)),
            }
            match &c.must_not[0] {
                Query::Term(t) => assert_eq!(t.value, "qux"),
                other => panic!("expected a term clause, got {:?}", kind(other)),
            }
        }
        other => panic!("expected a combined query, got {:?}", kind(&other)),
    }
}

fn kind(q: &Query) -> &'static str {
    match q {
        Query::All(_) => "all",
        Query::Term(_) => "term",
        Query::Phrase(_) => "phrase",
        Query::Combined(_) => "combined",
    }
}

#[test]
fn a_blank_query_parses_to_no_clauses() {
    let index = open_index();
    let mut reader = index.read();
    for text in ["", "   ", "\t \n"] {
        match reader.parse(text).unwrap() {
            Query::Combined(c) => {
                assert_eq!(c.should.len(), 0);
                assert_eq!(c.must.len(), 0);
                assert_eq!(c.must_not.len(), 0);
            }
            other => panic!("expected a combined query, got {:?}", kind(&other)),
        }
    }
}

#[test]
fn parser_errors_name_their_cause() {
    let index = open_index();
    let mut reader = index.read();
    match reader.parse("loneword") {
        Err(Error::MissingFieldName(text)) => assert_eq!(text, "loneword"),
        other => panic!("expected missing field name, got {:?}", other.map(|_| ()).map_err(|e| e.message())),
    }
    match reader.parse("ghost:value") {
        Err(Error::NoSuchField(name)) => assert_eq!(name, "ghost"),
        other => panic!("expected no such field, got {:?}", other.map(|_| ()).map_err(|e| e.message())),
    }
    match reader.parse("field:\"no end") {
        Err(Error::UnclosedQuote(text)) => assert_eq!(text, "no end"),
        other => panic!("expected unclosed quote, got {:?}", other.map(|_| ()).map_err(|e| e.message())),
    }
    match reader.parse("field:!!!") {
        Err(Error::InvalidValue(text)) => assert_eq!(text, "!!!"),
        other => panic!("expected invalid value, got {:?}", other.map(|_| ()).map_err(|e| e.message())),
    }
}

#[test]
fn error_messages_are_readable() {
    assert_eq!(
        Error::NoSuchField("title".to_string()).message(),
        "no such field: title"
    );
    assert_eq!(
        Error::UnclosedQuote("abc".to_string()).message(),
        "unclosed quote: abc"
    );
}
