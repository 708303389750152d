use vstd::prelude::*;

verus! {

use crate::ast::{ParseError, SpecErr, ErrorKind};
use crate::token::{
    Token, SpecToken, is_ws, is_ws_exec, classify_word, classify_word_exec,
};

broadcast use vstd::std_specs::vec::group_vec_axioms;

/// Clamp a continuation position into `lo .. hi` so that the tokenizer's
/// recursion visibly advances; the scanning functions below never actually
/// leave that range.
pub open spec fn clamp(j: int, lo: int, hi: int) -> int {
    if j < lo {
        lo
    } else if j > hi {
        hi
    } else {
        j
    }
}

/// The first position at or after `i` holding whitespace, or the length of
/// `s` if there is none: where the word starting at `i` ends.
pub open spec fn first_ws(s: Seq<char>, i: int) -> int
    decreases s.len() - i,
{
    if !(0 <= i < s.len()) {
        s.len() as int
    } else if is_ws(s[i]) {
        i
    } else {
        first_ws(s, i + 1)
    }
}

/// The first position at or after `i` holding `)`, or the length of `s` if
/// there is none: where a parenthesized comment closes.
pub open spec fn first_close(s: Seq<char>, i: int) -> int
    decreases s.len() - i,
{
    if !(0 <= i < s.len()) {
        s.len() as int
    } else if s[i] == ')' {
        i
    } else {
        first_close(s, i + 1)
    }
}

/// The first position at or after `i` holding a newline, or the length of
/// `s` if there is none: where an end-of-line comment closes.
pub open spec fn first_nl(s: Seq<char>, i: int) -> int
    decreases s.len() - i,
{
    if !(0 <= i < s.len()) {
        s.len() as int
    } else if s[i] == '\n' {
        i
    } else {
        first_nl(s, i + 1)
    }
}

/// The token sequence of `s` from position `i` on.
///
/// Whitespace separates tokens and is dropped.  A `(` standing alone as a
/// word opens a comment that runs to the next `)` and is dropped whole; if
/// no `)` follows before the end of the input, the opener is an
/// unterminated construct and tokenization fails at its character
/// position.  A `\` standing alone as a word opens a comment that runs to
/// the end of the line, which the end of the input also closes.  Every
/// other maximal run of non-whitespace characters is one word, classified
/// by `classify_word`.
pub open spec fn tokens_from(s: Seq<char>, i: int) -> Result<Seq<SpecToken>, SpecErr>
    decreases s.len() - i,
{
    if !(0 <= i < s.len()) {
        Ok(Seq::empty())
    } else if is_ws(s[i]) {
        tokens_from(s, i + 1)
    } else if s[i] == '(' && i + 1 < s.len() && is_ws(s[i + 1]) {
        if first_close(s, i + 2) >= s.len() {
            Err(SpecErr { kind: ErrorKind::UnterminatedConstruct, pos: i })
        } else {
            tokens_from(s, clamp(first_close(s, i + 2) + 1, i + 1, s.len() as int))
        }
    } else if s[i] == '\\' && i + 1 < s.len() && is_ws(s[i + 1]) {
        tokens_from(s, clamp(first_nl(s, i + 1) + 1, i + 1, s.len() as int))
    } else {
        let j = clamp(first_ws(s, i + 1), i + 1, s.len() as int);
        match tokens_from(s, j) {
            Ok(rest) => Ok(seq![classify_word(s.subrange(i, j))] + rest),
            Err(e) => Err(e),
        }
    }
}

/// The token sequence of a whole source text.
pub open spec fn spec_tokens(s: Seq<char>) -> Result<Seq<SpecToken>, SpecErr> {
    tokens_from(s, 0)
}

/// Tokens already taken, put back in front of what tokenization from the
/// current position yields.
pub open spec fn prepend_tokens(
    acc: Seq<SpecToken>,
    r: Result<Seq<SpecToken>, SpecErr>,
) -> Result<Seq<SpecToken>, SpecErr> {
    match r {
        Ok(rest) => Ok(acc + rest),
        Err(e) => Err(e),
    }
}

/// Appending to a vector pushes onto its model.
proof fn lemma_dv_push<T: DeepView>(v2: Seq<T>, v: Seq<T>, x: T)
    requires
        v2 == v.push(x),
    ensures
        Seq::new(v2.len(), |i: int| v2[i].deep_view()) == Seq::new(
            v.len(),
            |i: int| v[i].deep_view(),
        ).push(x.deep_view()),
{
    assert(Seq::new(v2.len(), |i: int| v2[i].deep_view()) =~= Seq::new(
        v.len(),
        |i: int| v[i].deep_view(),
    ).push(x.deep_view()));
}

/// Convert source text into its token sequence, eliding comments and
/// whitespace, exactly as `spec_tokens` says.  The one failure surface is
/// a parenthesized comment that never closes: an unterminated construct,
/// reported at the character position of its opening `(`.
pub fn tokenize(s: &str) -> (r: Result<Vec<Token>, ParseError>)
    ensures
        (match r {
            Ok(v) => spec_tokens(s@) == Ok::<Seq<SpecToken>, SpecErr>(v.deep_view()),
            Err(e) => spec_tokens(s@) == Err::<Seq<SpecToken>, SpecErr>(e.deep_view()),
        }),
{
    let n = s.unicode_len();
    let mut toks: Vec<Token> = Vec::new();
    let mut i: usize = 0;
    proof {
        match tokens_from(s@, 0) {
            Ok(rest) => {
                assert(toks.deep_view() + rest =~= rest);
            },
            Err(_) => {},
        }
    }
    while i < n
        invariant
            n == s@.len(),
            i <= n,
            prepend_tokens(toks.deep_view(), tokens_from(s@, i as int)) == tokens_from(s@, 0),
        decreases n - i,
    {
        let c = s.get_char(i);
        if is_ws_exec(c) {
            i += 1;
        } else if c == '(' && i + 1 < n && is_ws_exec(s.get_char(i + 1)) {
            let mut j = i + 2;
            while j < n && s.get_char(j) != ')'
                invariant
                    n == s@.len(),
                    i + 2 <= j <= n,
                    first_close(s@, i + 2) == first_close(s@, j as int),
                decreases n - j,
            {
                j += 1;
            }
            if j < n {
                proof {
                    assert(first_close(s@, j as int) == j);
                }
                i = j + 1;
            } else {
                proof {
                    assert(first_close(s@, j as int) == n);
                }
                return Err(ParseError { kind: ErrorKind::UnterminatedConstruct, pos: i });
            }
        } else if c == '\\' && i + 1 < n && is_ws_exec(s.get_char(i + 1)) {
            let mut j = i + 1;
            while j < n && s.get_char(j) != '\n'
                invariant
                    n == s@.len(),
                    i + 1 <= j <= n,
                    first_nl(s@, i + 1) == first_nl(s@, j as int),
                decreases n - j,
            {
                j += 1;
            }
            if j < n {
                proof {
                    assert(first_nl(s@, j as int) == j);
                }
                i = j + 1;
            } else {
                proof {
                    assert(first_nl(s@, j as int) == n);
                }
                i = n;
            }
        } else {
            let mut j = i + 1;
            while j < n && !is_ws_exec(s.get_char(j))
                invariant
                    n == s@.len(),
                    i + 1 <= j <= n,
                    first_ws(s@, i + 1) == first_ws(s@, j as int),
                decreases n - j,
            {
                j += 1;
            }
            proof {
                if j < n {
                    assert(first_ws(s@, j as int) == j);
                } else {
                    assert(first_ws(s@, j as int) == n);
                }
            }
            let word = s.substring_char(i, j);
            let tok = classify_word_exec(word);
            let ghost prev = toks;
            toks.push(tok);
            proof {
                lemma_dv_push(toks@, prev@, tok);
                match tokens_from(s@, j as int) {
                    Ok(rest) => {
                        assert(tokens_from(s@, i as int) == Ok::<Seq<SpecToken>, SpecErr>(seq![
                            classify_word(s@.subrange(i as int, j as int)),
                        ] + rest));
                        assert(toks.deep_view() + rest =~= prev.deep_view() + (seq![
                            tok.deep_view(),
                        ] + rest));
                    },
                    Err(_) => {},
                }
            }
            i = j;
        }
    }
    proof {
        match tokens_from(s@, i as int) {
            Ok(rest) => {
                assert(toks.deep_view() + rest =~= toks.deep_view());
            },
            Err(_) => {},
        }
    }
    Ok(toks)
}

} // verus!
