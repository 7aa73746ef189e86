use canter::{
    ErasedTokenizer, LimitLength, SplitNonAlphanumeric, StubTokenizer, ToLowerCase, Tokenizer,
};

#[test]
fn stub_emits_the_input_unchanged() {
    assert_eq!(StubTokenizer.tokenize("Hello, World!"), ["Hello, World!"]);
    assert_eq!(StubTokenizer.tokenize(""), [""]);
}

#[test]
fn split_breaks_on_non_alphanumeric_runs() {
    assert_eq!(
        SplitNonAlphanumeric.tokenize("Hello, world!42"),
        ["Hello", "world", "42"]
    );
    assert_eq!(SplitNonAlphanumeric.tokenize("--a--b--"), ["a", "b"]);
    let none: [&str; 0] = [];
    assert_eq!(SplitNonAlphanumeric.tokenize(""), none);
    assert_eq!(SplitNonAlphanumeric.tokenize("..!?"), none);
    assert_eq!(SplitNonAlphanumeric.tokenize("caf\u{e9} au lait"), ["caf\u{e9}", "au", "lait"]);
}

#[test]
fn limit_length_filters_by_byte_length() {
    let none: [&str; 0] = [];
    assert_eq!(LimitLength::new(3).tokenize("abc"), ["abc"]);
    assert_eq!(LimitLength::new(3).tokenize("abcd"), none);
    // a two-byte character: the limit counts bytes, not characters
    assert_eq!(LimitLength::new(1).tokenize("\u{e9}"), none);
    assert_eq!(LimitLength::new(2).tokenize("\u{e9}"), ["\u{e9}"]);
    assert_eq!(LimitLength::default().limit, 40);
    assert_eq!(LimitLength::new(7).limit, 7);
}

#[test]
fn lowercase_maps_each_character() {
    assert_eq!(ToLowerCase.tokenize("FOO Bar"), ["foo bar"]);
    assert_eq!(ToLowerCase.tokenize(""), [""]);
    assert_eq!(ToLowerCase.tokenize("\u{c9}T\u{c9}"), ["\u{e9}t\u{e9}"]);
}

#[test]
fn chained_pipeline_feeds_inner_tokens_to_the_outer_stage() {
    let pipeline = ErasedTokenizer::Split(SplitNonAlphanumeric)
        .chain(ErasedTokenizer::Limit(LimitLength::new(40)))
        .chain(ErasedTokenizer::Lower(ToLowerCase));
    assert_eq!(pipeline.tokenize("FOO bar-BAZ"), ["foo", "bar", "baz"]);
    let long = "x".repeat(41);
    assert_eq!(pipeline.tokenize(&format!("ok {long} DONE")), ["ok", "done"]);
    let cloned = pipeline.clone();
    assert_eq!(cloned.tokenize("The 3 Little Pigs"), ["the", "3", "little", "pigs"]);
}
