use vstd::prelude::*;

verus! {

/// Errors raised by the engine.
#[derive(Debug)]
pub enum Error {
    /// An underlying storage failure.
    Sqlite(rusqlite::Error),
    /// `add_field` for a field that already exists with another tokenizer.
    FieldConflict { name: String, tokenizer: String, existing_tokenizer: String },
    /// A query or write names a field that was never declared.
    NoSuchField(String),
    /// A field is bound to a tokenizer name that was never registered.
    NoSuchTokenizer(String),
    /// A query clause has no `:` separating field and value.
    MissingFieldName(String),
    /// A quoted query value has no closing quote.
    UnclosedQuote(String),
    /// The tokenizer produced no tokens for a query value.
    InvalidValue(String),
    /// A document's position counter would leave the storage integer range.
    PositionOverflow,
    /// A parallel worker found the writer's channel closed.
    DisconnectedWriter,
    /// The writer found a worker's reply channel closed.
    DisconnectedSource,
}

impl Error {
    /// A human-readable description of the error.
    pub fn message(&self) -> String {
        let mut s = String::new();
        match self {
            Error::Sqlite(_) => {
                s.append("storage error");
            },
            Error::FieldConflict { name, tokenizer, existing_tokenizer } => {
                s.append("field `");
                s.append(name.as_str());
                s.append("` already defined, but using tokenizer `");
                s.append(existing_tokenizer.as_str());
                s.append("` instead of `");
                s.append(tokenizer.as_str());
                s.append("`");
            },
            Error::NoSuchField(name) => {
                s.append("no such field: ");
                s.append(name.as_str());
            },
            Error::NoSuchTokenizer(name) => {
                s.append("no such tokenizer: ");
                s.append(name.as_str());
            },
            Error::MissingFieldName(text) => {
                s.append("missing field name: ");
                s.append(text.as_str());
            },
            Error::UnclosedQuote(text) => {
                s.append("unclosed quote: ");
                s.append(text.as_str());
            },
            Error::InvalidValue(text) => {
                s.append("invalid value: ");
                s.append(text.as_str());
            },
            Error::PositionOverflow => {
                s.append("position counter overflow");
            },
            Error::DisconnectedWriter => {
                s.append("disconnected writer");
            },
            Error::DisconnectedSource => {
                s.append("disconnected source");
            },
        }
        s
    }
}

} // verus!
