use vstd::prelude::*;

use crate::text::push_char;

verus! {

/// State of the argument splitter after reading some prefix of the input.
///
/// `escape_next` is the one-character lookahead set by an unescaped
/// backslash; `in_quote` records whether an unescaped double quote is
/// currently open; `current` is the token under construction and `done`
/// the tokens already emitted.
#[verifier::ext_equal]
pub struct TokenizerState {
    pub escape_next: bool,
    pub in_quote: bool,
    pub current: Seq<char>,
    pub done: Seq<Seq<char>>,
}

pub open spec fn tok_init() -> TokenizerState {
    TokenizerState {
        escape_next: false,
        in_quote: false,
        current: Seq::empty(),
        done: Seq::empty(),
    }
}

/// One character of the splitter's state machine, in priority order:
/// an unescaped space outside quotes delimits (even right after a
/// backslash), an unescaped backslash is kept literally and escapes the
/// next character, an unescaped double quote toggles quote mode and is
/// dropped, and every other character is appended literally.
pub open spec fn tok_step(st: TokenizerState, c: char) -> TokenizerState {
    if c == ' ' && !st.in_quote {
        TokenizerState {
            escape_next: false,
            in_quote: st.in_quote,
            current: Seq::empty(),
            done: if st.current.len() > 0 {
                st.done.push(st.current)
            } else {
                st.done
            },
        }
    } else if c == '\\' && !st.escape_next {
        TokenizerState {
            escape_next: true,
            in_quote: st.in_quote,
            current: st.current.push(c),
            done: st.done,
        }
    } else if c == '"' && !st.escape_next {
        TokenizerState {
            escape_next: false,
            in_quote: !st.in_quote,
            current: st.current,
            done: st.done,
        }
    } else {
        TokenizerState {
            escape_next: false,
            in_quote: st.in_quote,
            current: st.current.push(c),
            done: st.done,
        }
    }
}

pub open spec fn tok_run_from(st: TokenizerState, s: Seq<char>) -> TokenizerState
    decreases s.len(),
{
    if s.len() == 0 {
        st
    } else {
        tok_run_from(tok_step(st, s.first()), s.drop_first())
    }
}

pub open spec fn tok_run(s: Seq<char>) -> TokenizerState {
    tok_run_from(tok_init(), s)
}

/// The token sequence for an input string: run the state machine over
/// every character, then emit the last token if it is non-empty, or if
/// nothing has been emitted at all (so the result is never empty).
pub open spec fn tokenize(s: Seq<char>) -> Seq<Seq<char>> {
    let st = tok_run(s);
    if st.current.len() > 0 || st.done.len() == 0 {
        st.done.push(st.current)
    } else {
        st.done
    }
}

pub proof fn lemma_tok_run_from_push(st: TokenizerState, s: Seq<char>, c: char)
    ensures
        tok_run_from(st, s.push(c)) == tok_step(tok_run_from(st, s), c),
    decreases s.len(),
{
    if s.len() == 0 {
        assert(s.push(c).first() == c);
        assert(s.push(c).drop_first() =~= Seq::<char>::empty());
        assert(tok_run_from(st, s.push(c)) == tok_run_from(
            tok_step(st, c),
            s.push(c).drop_first(),
        ));
        assert(tok_run_from(tok_step(st, c), s.push(c).drop_first()) == tok_step(st, c));
        assert(tok_run_from(st, s) == st);
    } else {
        assert(s.push(c).first() == s.first());
        assert(s.push(c).drop_first() =~= s.drop_first().push(c));
        lemma_tok_run_from_push(tok_step(st, s.first()), s.drop_first(), c);
        assert(tok_run_from(st, s.push(c)) == tok_run_from(
            tok_step(st, s.first()),
            s.drop_first().push(c),
        ));
        assert(tok_run_from(st, s) == tok_run_from(tok_step(st, s.first()), s.drop_first()));
    }
}

/// The Tokenizer's output always holds at least one token.
pub proof fn lemma_tokenize_never_empty(s: Seq<char>)
    ensures
        tokenize(s).len() > 0,
{
}

/// True of a token that needs no quoting: it holds no space and no
/// double quote.
pub open spec fn plain_token(t: Seq<char>) -> bool {
    forall|i: int| 0 <= i < t.len() ==> t[i] != ' ' && t[i] != '"'
}

/// The tokens rejoined into one command line with single spaces.
pub open spec fn join_spaces(toks: Seq<Seq<char>>) -> Seq<char>
    decreases toks.len(),
{
    if toks.len() == 0 {
        Seq::empty()
    } else if toks.len() == 1 {
        toks[0]
    } else {
        toks.first() + seq![' '] + join_spaces(toks.drop_first())
    }
}

pub proof fn lemma_tok_run_from_concat(st: TokenizerState, a: Seq<char>, b: Seq<char>)
    ensures
        tok_run_from(st, a + b) == tok_run_from(tok_run_from(st, a), b),
    decreases a.len(),
{
    if a.len() == 0 {
        assert(a + b =~= b);
    } else {
        assert((a + b).first() == a.first());
        assert((a + b).drop_first() =~= a.drop_first() + b);
        lemma_tok_run_from_concat(tok_step(st, a.first()), a.drop_first(), b);
    }
}

/// Outside quotes, a token with no space and no quote is appended to
/// the current token character by character; nothing is emitted and
/// quote mode stays off.
proof fn lemma_run_plain_token(st: TokenizerState, t: Seq<char>)
    requires
        !st.in_quote,
        plain_token(t),
    ensures
        !tok_run_from(st, t).in_quote,
        tok_run_from(st, t).current == st.current + t,
        tok_run_from(st, t).done == st.done,
    decreases t.len(),
{
    if t.len() == 0 {
        assert(st.current + t =~= st.current);
    } else {
        let c = t.first();
        let st1 = tok_step(st, c);
        assert(forall|i: int|
            0 <= i < t.drop_first().len() ==> t.drop_first()[i] == t[i + 1]);
        lemma_run_plain_token(st1, t.drop_first());
        assert(st.current.push(c) + t.drop_first() =~= st.current + t);
    }
}

/// From a clean token boundary, running the splitter over non-empty
/// plain tokens joined with single spaces emits every token but the
/// last, which remains under construction.
proof fn lemma_run_join(st: TokenizerState, toks: Seq<Seq<char>>)
    requires
        !st.in_quote,
        st.current.len() == 0,
        toks.len() > 0,
        forall|i: int| 0 <= i < toks.len() ==> #[trigger] plain_token(toks[i]),
        forall|i: int| 0 <= i < toks.len() ==> toks[i].len() > 0,
    ensures
        !tok_run_from(st, join_spaces(toks)).in_quote,
        tok_run_from(st, join_spaces(toks)).current == toks.last(),
        tok_run_from(st, join_spaces(toks)).done == st.done + toks.drop_last(),
    decreases toks.len(),
{
    if toks.len() == 1 {
        lemma_run_plain_token(st, toks[0]);
        assert(st.current + toks[0] =~= toks[0]);
        assert(toks.drop_last() =~= Seq::<Seq<char>>::empty());
        assert(st.done + toks.drop_last() =~= st.done);
    } else {
        let t0 = toks.first();
        let rest = toks.drop_first();
        assert(join_spaces(toks) =~= (t0 + seq![' ']) + join_spaces(rest));
        lemma_tok_run_from_concat(st, t0 + seq![' '], join_spaces(rest));
        lemma_tok_run_from_concat(st, t0, seq![' ']);
        lemma_run_plain_token(st, t0);
        let st1 = tok_run_from(st, t0);
        assert(st1.current =~= t0);
        assert(Seq::<char>::empty().push(' ') =~= seq![' ']);
        lemma_tok_run_from_push(st1, Seq::<char>::empty(), ' ');
        let st2 = tok_run_from(st1, seq![' ']);
        assert(st2 == tok_step(st1, ' '));
        assert(st2.done == st.done.push(t0));
        assert(forall|i: int| 0 <= i < rest.len() ==> rest[i] == toks[i + 1]);
        lemma_run_join(st2, rest);
        let st3 = tok_run_from(st2, join_spaces(rest));
        assert(st3.current == rest.last());
        assert(rest.last() == toks.last());
        assert(st2.done + rest.drop_last() =~= st.done + toks.drop_last());
    }
}

/// The splitter's output shape: at least one token, and every token
/// non-empty unless the output is the single empty token.
pub proof fn lemma_tokenize_shape(s: Seq<char>)
    ensures
        tokenize(s).len() > 0,
        (forall|i: int| 0 <= i < tokenize(s).len() ==> tokenize(s)[i].len() > 0) || tokenize(s)
            =~= seq![Seq::<char>::empty()],
{
    lemma_done_nonempty(tok_init(), s);
    let st = tok_run(s);
    if st.current.len() > 0 || st.done.len() == 0 {
        if st.current.len() == 0 {
            assert(st.current =~= Seq::<char>::empty());
            assert(tokenize(s) =~~= seq![Seq::<char>::empty()]);
        }
    }
}

/// Every token the splitter has emitted mid-stream is non-empty.
proof fn lemma_done_nonempty(st: TokenizerState, s: Seq<char>)
    requires
        forall|i: int| 0 <= i < st.done.len() ==> st.done[i].len() > 0,
    ensures
        forall|i: int|
            0 <= i < tok_run_from(st, s).done.len() ==> tok_run_from(st, s).done[i].len() > 0,
    decreases s.len(),
{
    if s.len() > 0 {
        let st1 = tok_step(st, s.first());
        assert forall|i: int| 0 <= i < st1.done.len() implies st1.done[i].len() > 0 by {
            if i < st.done.len() {
                assert(st1.done[i] == st.done[i]);
            } else {
                assert(st1.done == st.done.push(st.current));
                assert(st1.done[i] == st.current);
            }
        }
        lemma_done_nonempty(st1, s.drop_first());
        assert(tok_run_from(st, s) == tok_run_from(st1, s.drop_first()));
    } else {
        assert(tok_run_from(st, s) == st);
    }
}

/// Splitting is idempotent: a token sequence of the splitter's output
/// shape, none of whose tokens holds a space or a double quote, is
/// reproduced exactly when rejoined with single spaces and split
/// again.
pub proof fn lemma_tokenize_idempotent(toks: Seq<Seq<char>>)
    requires
        toks.len() > 0,
        forall|i: int| 0 <= i < toks.len() ==> #[trigger] plain_token(toks[i]),
        (forall|i: int| 0 <= i < toks.len() ==> toks[i].len() > 0) || toks =~= seq![
            Seq::<char>::empty(),
        ],
    ensures
        tokenize(join_spaces(toks)) == toks,
{
    if forall|i: int| 0 <= i < toks.len() ==> toks[i].len() > 0 {
        lemma_run_join(tok_init(), toks);
        let st = tok_run(join_spaces(toks));
        assert(st.current == toks.last());
        assert(st.done =~= toks.drop_last());
        assert(st.done.push(st.current) =~= toks);
    } else {
        assert(toks =~= seq![Seq::<char>::empty()]);
        assert(join_spaces(toks) == toks[0]);
        assert(tok_run(join_spaces(toks)) == tok_init());
        assert(tokenize(join_spaces(toks)) =~= toks);
    }
}

/// The round trip: whatever input the splitter was given, if none of
/// the tokens it produced holds a space or a double quote, rejoining
/// them with single spaces and splitting again reproduces them.
pub proof fn lemma_tokenize_round_trip(s: Seq<char>)
    requires
        forall|i: int|
            0 <= i < tokenize(s).len() ==> #[trigger] plain_token(tokenize(s)[i]),
    ensures
        tokenize(join_spaces(tokenize(s))) == tokenize(s),
{
    lemma_tokenize_shape(s);
    lemma_tokenize_idempotent(tokenize(s));
}

/// Splits a command line string into its argument vector, exactly as
/// `tokenize` describes.
pub fn tokenize_str(s: &str) -> (r: Vec<String>)
    ensures
        r@.map_values(|t: String| t@) == tokenize(s@),
        r@.len() > 0,
{
    let n = s.unicode_len();
    let mut escape_next = false;
    let mut in_quote = false;
    let mut current = String::new();
    let mut args: Vec<String> = Vec::new();
    let mut i: usize = 0;
    while i < n
        invariant
            n == s@.len(),
            i <= n,
            tok_run_from(tok_init(), s@.subrange(0, i as int)) == (TokenizerState {
                escape_next,
                in_quote,
                current: current@,
                done: args@.map_values(|t: String| t@),
            }),
        decreases n - i,
    {
        proof {
            assert(s@.subrange(0, i + 1) =~= s@.subrange(0, i as int).push(s@[i as int]));
            lemma_tok_run_from_push(tok_init(), s@.subrange(0, i as int), s@[i as int]);
        }
        let c = s.get_char(i);
        let escape_symbol = escape_next;
        escape_next = false;
        if c == ' ' && !in_quote {
            if !current.as_str().is_empty() {
                proof {
                    assert(args@.push(current).map_values(|t: String| t@) =~= args@.map_values(
                        |t: String| t@,
                    ).push(current@));
                }
                args.push(current);
                current = String::new();
            }
        } else if c == '\\' && !escape_symbol {
            push_char(&mut current, c);
            escape_next = true;
        } else if c == '"' && !escape_symbol {
            in_quote = !in_quote;
        } else {
            push_char(&mut current, c);
        }
        i += 1;
    }
    proof {
        assert(s@.subrange(0, n as int) =~= s@);
    }
    if !current.as_str().is_empty() || args.len() == 0 {
        proof {
            assert(args@.push(current).map_values(|t: String| t@) =~= args@.map_values(
                |t: String| t@,
            ).push(current@));
        }
        args.push(current);
    }
    args
}

/// A value that can be read as a shell-style command line and split
/// into an argument vector.
pub trait CliArgs {
    spec fn arg_chars(&self) -> Seq<char>;

    fn split_as_args(&self) -> (r: Vec<String>)
        ensures
            r@.map_values(|t: String| t@) == tokenize(self.arg_chars()),
            r@.len() > 0,
    ;
}

impl CliArgs for &str {
    open spec fn arg_chars(&self) -> Seq<char> {
        self@
    }

    fn split_as_args(&self) -> (r: Vec<String>) {
        tokenize_str(self)
    }
}

impl CliArgs for String {
    open spec fn arg_chars(&self) -> Seq<char> {
        self@
    }

    fn split_as_args(&self) -> (r: Vec<String>) {
        tokenize_str(self.as_str())
    }
}

} // verus!

