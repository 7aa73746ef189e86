use vstd::prelude::*;
use vstd::string::StrSliceExecFns;
use vstd::string::StringExecFns;
use vstd::utf8::encode_utf8;

verus! {

/// Whether `c` is alphanumeric in the Unicode sense.
pub uninterp spec fn is_alnum(c: char) -> bool;

/// Whether `c` is whitespace in the Unicode sense.
pub uninterp spec fn is_white(c: char) -> bool;

/// The lowercase mapping of `c`: zero or more characters determined by `c`
/// alone.
pub uninterp spec fn lower_chars(c: char) -> Seq<char>;

/// Relies on `char::is_alphanumeric`: a pure classification of the character.
pub assume_specification[ char::is_alphanumeric ](c: char) -> (r: bool)
    ensures
        r == is_alnum(c),
;

/// Relies on `char::is_whitespace`: a pure classification of the character.
pub assume_specification[ char::is_whitespace ](c: char) -> (r: bool)
    ensures
        r == is_white(c),
;

/// Relies on `char::to_lowercase`: the lowercase mapping of a character
/// depends on the character alone.
#[verifier::external_body]
fn char_to_lowercase(c: char) -> (r: String)
    ensures
        r@ == lower_chars(c),
{
    let mut s = String::new();
    for l in c.to_lowercase() {
        s.push(l);
    }
    s
}

/// The lowercase mapping of a whole character sequence.
pub open spec fn lower_seq(s: Seq<char>) -> Seq<char>
    decreases s.len(),
{
    if s.len() == 0 {
        Seq::empty()
    } else {
        lower_seq(s.drop_last()) + lower_chars(s.last())
    }
}

/// One step of the splitting fold: extends the current fragment on an
/// alphanumeric character, otherwise closes it (dropping it when empty).
pub open spec fn split_step(
    acc: (Seq<Seq<char>>, Seq<char>),
    c: char,
) -> (Seq<Seq<char>>, Seq<char>) {
    if is_alnum(c) {
        (acc.0, acc.1.push(c))
    } else if acc.1.len() > 0 {
        (acc.0.push(acc.1), Seq::empty())
    } else {
        (acc.0, Seq::empty())
    }
}

/// Folds `split_step` over `s`: the closed fragments so far, and the open
/// trailing fragment.
pub open spec fn split_fold(s: Seq<char>) -> (Seq<Seq<char>>, Seq<char>)
    decreases s.len(),
{
    if s.len() == 0 {
        (Seq::empty(), Seq::empty())
    } else {
        split_step(split_fold(s.drop_last()), s.last())
    }
}

/// The fragments of `s` between runs of non-alphanumeric characters, empty
/// fragments dropped.
pub open spec fn split_tokens(s: Seq<char>) -> Seq<Seq<char>> {
    let p = split_fold(s);
    if p.1.len() > 0 {
        p.0.push(p.1)
    } else {
        p.0
    }
}

/// A tokenizer turns a text into zero or more tokens; `spec_tokens` is the
/// mathematical statement of which ones.
pub trait Tokenizer: Sized {
    spec fn spec_tokens(&self, text: Seq<char>) -> Seq<Seq<char>>;

    fn tokenize(&self, text: &str) -> (r: Vec<String>)
        ensures
            r.deep_view() == self.spec_tokens(text@),
    ;
}

/// Emits the input unchanged.
#[derive(Clone, Copy)]
pub struct StubTokenizer;

impl Tokenizer for StubTokenizer {
    open spec fn spec_tokens(&self, text: Seq<char>) -> Seq<Seq<char>> {
        seq![text]
    }

    fn tokenize(&self, text: &str) -> (r: Vec<String>)
        ensures
            r.deep_view() == self.spec_tokens(text@),
    {
        let mut out: Vec<String> = Vec::new();
        out.push(text.to_owned());
        assert(out.deep_view() =~~= self.spec_tokens(text@));
        out
    }
}

/// Splits on runs of non-alphanumeric characters; empty fragments are
/// dropped.
#[derive(Clone, Copy)]
pub struct SplitNonAlphanumeric;

impl Tokenizer for SplitNonAlphanumeric {
    open spec fn spec_tokens(&self, text: Seq<char>) -> Seq<Seq<char>> {
        split_tokens(text)
    }

    fn tokenize(&self, text: &str) -> (r: Vec<String>)
        ensures
            r.deep_view() == self.spec_tokens(text@),
    {
        let n = text.unicode_len();
        let mut out: Vec<String> = Vec::new();
        let mut start: usize = 0;
        let mut i: usize = 0;
        while i < n
            invariant
                0 <= start <= i <= n == text@.len(),
                (out.deep_view(), text@.subrange(start as int, i as int)) == split_fold(
                    text@.subrange(0, i as int),
                ),
            decreases n - i,
        {
            let c = text.get_char(i);
            proof {
                assert(text@.subrange(0, i as int + 1).drop_last() =~= text@.subrange(
                    0,
                    i as int,
                ));
                assert(text@.subrange(0, i as int + 1).last() == c);
            }
            if c.is_alphanumeric() {
                proof {
                    assert(text@.subrange(start as int, i as int + 1) =~= text@.subrange(
                        start as int,
                        i as int,
                    ).push(c));
                }
            } else {
                if i > start {
                    out.push(text.substring_char(start, i).to_owned());
                }
                start = i + 1;
                proof {
                    assert(text@.subrange(start as int, i as int + 1) =~= Seq::<char>::empty());
                }
            }
            i = i + 1;
        }
        if start < n {
            out.push(text.substring_char(start, n).to_owned());
        }
        proof {
            assert(text@.subrange(0, n as int) =~= text@);
            assert(out.deep_view() =~= split_tokens(text@));
        }
        out
    }
}

/// Emits the input only when its byte length is at most `limit`; longer
/// inputs are dropped, not truncated.
#[derive(Clone, Copy)]
pub struct LimitLength {
    pub limit: usize,
}

impl LimitLength {
    pub fn new(limit: usize) -> (r: Self)
        ensures
            r.limit == limit,
    {
        LimitLength { limit }
    }
}

impl Default for LimitLength {
    /// The default length limit is 40 bytes.
    fn default() -> (r: Self)
        ensures
            r.limit == 40,
    {
        LimitLength::new(40)
    }
}

impl Tokenizer for LimitLength {
    open spec fn spec_tokens(&self, text: Seq<char>) -> Seq<Seq<char>> {
        if encode_utf8(text).len() as usize <= self.limit {
            seq![text]
        } else {
            Seq::empty()
        }
    }

    fn tokenize(&self, text: &str) -> (r: Vec<String>)
        ensures
            r.deep_view() == self.spec_tokens(text@),
    {
        let mut out: Vec<String> = Vec::new();
        if text.len() <= self.limit {
            out.push(text.to_owned());
        }
        assert(out.deep_view() =~~= self.spec_tokens(text@));
        out
    }
}

/// Emits a single token: the character-wise Unicode lowercase mapping of the
/// input.
#[derive(Clone, Copy)]
pub struct ToLowerCase;

impl Tokenizer for ToLowerCase {
    open spec fn spec_tokens(&self, text: Seq<char>) -> Seq<Seq<char>> {
        seq![lower_seq(text)]
    }

    fn tokenize(&self, text: &str) -> (r: Vec<String>)
        ensures
            r.deep_view() == self.spec_tokens(text@),
    {
        let n = text.unicode_len();
        let mut buf = String::new();
        let mut i: usize = 0;
        while i < n
            invariant
                0 <= i <= n == text@.len(),
                buf@ == lower_seq(text@.subrange(0, i as int)),
            decreases n - i,
        {
            let c = text.get_char(i);
            let l = char_to_lowercase(c);
            buf.append(l.as_str());
            proof {
                assert(text@.subrange(0, i as int + 1).drop_last() =~= text@.subrange(
                    0,
                    i as int,
                ));
                assert(text@.subrange(0, i as int + 1).last() == c);
            }
            i = i + 1;
        }
        let mut out: Vec<String> = Vec::new();
        proof {
            assert(text@.subrange(0, n as int) =~= text@);
        }
        out.push(buf);
        assert(out.deep_view() =~~= self.spec_tokens(text@));
        out
    }
}

/// Two tokenizers chained: the inner one's output feeds the outer one.
pub struct ChainedTokenizer {
    pub inner: Box<ErasedTokenizer>,
    pub outer: Box<ErasedTokenizer>,
}

/// A tokenizer selected at run time: one of the built-in stages, or a chain
/// of two.  Fields and the registry store tokenizers in this form.
pub enum ErasedTokenizer {
    Stub(StubTokenizer),
    Split(SplitNonAlphanumeric),
    Limit(LimitLength),
    Lower(ToLowerCase),
    Chained(ChainedTokenizer),
}

fn clone_erased(t: &ErasedTokenizer) -> (r: ErasedTokenizer)
    ensures
        r == *t,
    decreases *t,
{
    match t {
        ErasedTokenizer::Stub(_) => ErasedTokenizer::Stub(StubTokenizer),
        ErasedTokenizer::Split(_) => ErasedTokenizer::Split(SplitNonAlphanumeric),
        ErasedTokenizer::Limit(l) => ErasedTokenizer::Limit(LimitLength { limit: l.limit }),
        ErasedTokenizer::Lower(_) => ErasedTokenizer::Lower(ToLowerCase),
        ErasedTokenizer::Chained(c) => ErasedTokenizer::Chained(
            ChainedTokenizer {
                inner: Box::new(clone_erased(&c.inner)),
                outer: Box::new(clone_erased(&c.outer)),
            },
        ),
    }
}

impl Clone for ChainedTokenizer {
    /// A deep copy, so that parallel workers can hold their own pipelines.
    fn clone(&self) -> (r: Self)
        ensures
            r == *self,
    {
        ChainedTokenizer {
            inner: Box::new(clone_erased(&self.inner)),
            outer: Box::new(clone_erased(&self.outer)),
        }
    }
}

impl Clone for ErasedTokenizer {
    /// A deep copy, so that parallel workers can hold their own pipelines.
    fn clone(&self) -> (r: Self)
        ensures
            r == *self,
    {
        clone_erased(self)
    }
}

/// The tokens of applying `t` to each element of `toks` in order,
/// concatenated.
pub open spec fn apply_all(t: ErasedTokenizer, toks: Seq<Seq<char>>) -> Seq<Seq<char>>
    decreases t, toks.len() + 1,
{
    if toks.len() == 0 {
        Seq::empty()
    } else {
        apply_all(t, toks.drop_last()) + erased_tokens(t, toks.last())
    }
}

/// The tokens that the erased tokenizer `t` emits for `text`.
pub open spec fn erased_tokens(t: ErasedTokenizer, text: Seq<char>) -> Seq<Seq<char>>
    decreases t, 0int,
{
    match t {
        ErasedTokenizer::Stub(s) => s.spec_tokens(text),
        ErasedTokenizer::Split(s) => s.spec_tokens(text),
        ErasedTokenizer::Limit(l) => l.spec_tokens(text),
        ErasedTokenizer::Lower(l) => l.spec_tokens(text),
        ErasedTokenizer::Chained(c) => apply_all(*c.outer, erased_tokens(*c.inner, text)),
    }
}

impl ErasedTokenizer {
    /// Chains `self` with `outer`, so that `self`'s output feeds `outer`.
    pub fn chain(self, outer: ErasedTokenizer) -> (r: ErasedTokenizer)
        ensures
            forall|s: Seq<char>| #[trigger] erased_tokens(r, s) == apply_all(
                outer,
                erased_tokens(self, s),
            ),
    {
        ErasedTokenizer::Chained(
            ChainedTokenizer { inner: Box::new(self), outer: Box::new(outer) },
        )
    }
}

impl Tokenizer for ErasedTokenizer {
    open spec fn spec_tokens(&self, text: Seq<char>) -> Seq<Seq<char>> {
        erased_tokens(*self, text)
    }

    #[verifier::loop_isolation(false)]
    fn tokenize(&self, text: &str) -> (r: Vec<String>)
        ensures
            r.deep_view() == self.spec_tokens(text@),
        decreases *self,
    {
        match self {
            ErasedTokenizer::Stub(s) => s.tokenize(text),
            ErasedTokenizer::Split(s) => s.tokenize(text),
            ErasedTokenizer::Limit(l) => l.tokenize(text),
            ErasedTokenizer::Lower(l) => l.tokenize(text),
            ErasedTokenizer::Chained(c) => {
                let inner_toks = c.inner.tokenize(text);
                let mut out: Vec<String> = Vec::new();
                let ghost all: Seq<Seq<char>> = inner_toks.deep_view();
                let mut i: usize = 0;
                while i < inner_toks.len()
                    invariant
                        0 <= i <= inner_toks.len(),
                        inner_toks.deep_view() == all,
                        all.len() == inner_toks.len(),
                        forall|j: int| 0 <= j < all.len() ==> all[j] == #[trigger] inner_toks@[j]@,
                        out.deep_view() == apply_all(*c.outer, all.subrange(0, i as int)),
                    decreases inner_toks.len() - i,
                {
                    let mut sub = c.outer.tokenize(inner_toks[i].as_str());
                    let ghost out_before = out.deep_view();
                    let ghost sub_view = sub.deep_view();
                    let mut k: usize = 0;
                    while k < sub.len()
                        invariant
                            0 <= k <= sub.len(),
                            sub.deep_view() == sub_view,
                            sub_view.len() == sub.len(),
                            forall|j: int| 0 <= j < sub_view.len() ==> sub_view[j]
                                == #[trigger] sub@[j]@,
                            out.deep_view() == out_before + sub_view.subrange(0, k as int),
                        decreases sub.len() - k,
                    {
                        let item = sub[k].clone();
                        assert(item@ == sub_view[k as int]);
                        let ghost before_push = out.deep_view();
                        let ghost before_vec = out@;
                        out.push(item);
                        proof {
                            let rhs = out_before + sub_view.subrange(0, k as int + 1);
                            assert(out.deep_view().len() == rhs.len());
                            assert forall|j: int| 0 <= j < rhs.len() implies out.deep_view()[j]
                                == rhs[j] by {
                                assert(out.deep_view()[j] == out@[j]@);
                                if j < rhs.len() - 1 {
                                    assert(out@[j] == before_vec[j]);
                                    assert(before_push[j] == before_vec[j]@);
                                    assert(before_push[j] == (out_before + sub_view.subrange(
                                        0,
                                        k as int,
                                    ))[j]);
                                }
                            }
                            assert(out.deep_view() =~~= rhs);
                        }
                        k = k + 1;
                    }
                    proof {
                        assert(sub_view.subrange(0, sub_view.len() as int) =~= sub_view);
                        assert(all.subrange(0, i as int + 1).drop_last() =~= all.subrange(
                            0,
                            i as int,
                        ));
                        assert(all.subrange(0, i as int + 1).last() == all[i as int]);
                        assert(out.deep_view() =~~= apply_all(
                            *c.outer,
                            all.subrange(0, i as int + 1),
                        ));
                    }
                    i = i + 1;
                }
                proof {
                    assert(all.subrange(0, all.len() as int) =~= all);
                }
                out
            },
        }
    }
}

/// What the default pipeline emits for a text: split on non-alphanumeric
/// runs, drop tokens longer than 40 bytes, lowercase the rest.
pub open spec fn default_tokens(s: Seq<char>) -> Seq<Seq<char>> {
    apply_all(
        ErasedTokenizer::Lower(ToLowerCase),
        apply_all(ErasedTokenizer::Limit((LimitLength { limit: 40 })), split_tokens(s)),
    )
}

/// The default pipeline: split on non-alphanumeric runs, drop tokens longer
/// than 40 bytes, lowercase the rest.
pub fn default_pipeline() -> (r: ErasedTokenizer)
    ensures
        forall|s: Seq<char>| #[trigger] erased_tokens(r, s) == default_tokens(s),
{
    let split = ErasedTokenizer::Split(SplitNonAlphanumeric);
    let limit = ErasedTokenizer::Limit(LimitLength::default());
    let lower = ErasedTokenizer::Lower(ToLowerCase);
    split.chain(limit).chain(lower)
}

} // verus!
