use vstd::prelude::*;

verus! {

/// A classified lexical token.  Comments and whitespace never reach this
/// level; the end of input is represented by the end of the token sequence.
///
/// Keyword recognition is contextual: the lexer leaves every word, reserved
/// or not, as a `Word` token and the grammar decides at each position
/// whether it stands for a keyword or for a plain word call.
#[derive(Debug, PartialEq, Eq)]
pub enum Token {
    Colon,
    Semicolon,
    Number(i64),
    Word(String),
}

/// The mathematical model of a token.
pub enum SpecToken {
    Colon,
    Semicolon,
    Number(int),
    Word(Seq<char>),
}

impl DeepView for Token {
    type V = SpecToken;

    open spec fn deep_view(&self) -> SpecToken {
        match self {
            Token::Colon => SpecToken::Colon,
            Token::Semicolon => SpecToken::Semicolon,
            Token::Number(v) => SpecToken::Number(*v as int),
            Token::Word(w) => SpecToken::Word(w@),
        }
    }
}

/// Whitespace separates tokens and is otherwise discarded.
pub open spec fn is_ws(c: char) -> bool {
    c == ' ' || c == '\t' || c == '\n' || c == '\r'
}

pub fn is_ws_exec(c: char) -> (r: bool)
    ensures
        r == is_ws(c),
{
    c == ' ' || c == '\t' || c == '\n' || c == '\r'
}

pub open spec fn is_digit(c: char) -> bool {
    '0' <= c && c <= '9'
}

pub open spec fn digit_val(c: char) -> int {
    (c as u32) - 48
}

pub open spec fn is_hex_digit(c: char) -> bool {
    ('0' <= c && c <= '9') || ('a' <= c && c <= 'f') || ('A' <= c && c <= 'F')
}

pub open spec fn hex_digit_val(c: char) -> int {
    if '0' <= c && c <= '9' {
        (c as u32) - 48
    } else if 'a' <= c && c <= 'f' {
        (c as u32) - 87
    } else {
        (c as u32) - 55
    }
}

/// ASCII upper-case folding: keyword matching is case-insensitive.
pub open spec fn up_char(c: char) -> char {
    if 'a' <= c && c <= 'z' {
        ((c as u32) - 32) as char
    } else {
        c
    }
}

pub open spec fn up_seq(w: Seq<char>) -> Seq<char> {
    Seq::new(w.len(), |i: int| up_char(w[i]))
}

fn up_char_exec(c: char) -> (r: char)
    ensures
        r == up_char(c),
{
    if 'a' <= c && c <= 'z' {
        (((c as u32) - 32) as u8) as char
    } else {
        c
    }
}

/// Whether `w`, upper-cased, is exactly the word `kw`; `kw` is one of the
/// upper-case reserved keywords, so this is case-insensitive matching.
pub fn word_matches(w: &str, kw: &str) -> (r: bool)
    ensures
        r == (up_seq(w@) == kw@),
{
    let n = w.unicode_len();
    let m = kw.unicode_len();
    if n != m {
        proof {
            assert(up_seq(w@).len() != kw@.len());
        }
        return false;
    }
    let mut i: usize = 0;
    while i < n
        invariant
            n == w@.len(),
            n == kw@.len(),
            i <= n,
            forall|j: int| 0 <= j < i ==> up_seq(w@)[j] == kw@[j],
        decreases n - i,
    {
        if up_char_exec(w.get_char(i)) != kw.get_char(i) {
            proof {
                assert(up_seq(w@)[i as int] != kw@[i as int]);
            }
            return false;
        }
        i += 1;
    }
    proof {
        assert(up_seq(w@) =~= kw@);
    }
    true
}

pub open spec fn is_kw_variable(w: Seq<char>) -> bool {
    up_seq(w) == "VARIABLE"@
}

pub open spec fn is_kw_constant(w: Seq<char>) -> bool {
    up_seq(w) == "CONSTANT"@
}

pub open spec fn is_kw_create(w: Seq<char>) -> bool {
    up_seq(w) == "CREATE"@
}

pub open spec fn is_kw_allot(w: Seq<char>) -> bool {
    up_seq(w) == "ALLOT"@
}

pub open spec fn is_kw_if(w: Seq<char>) -> bool {
    up_seq(w) == "IF"@
}

pub open spec fn is_kw_else(w: Seq<char>) -> bool {
    up_seq(w) == "ELSE"@
}

pub open spec fn is_kw_then(w: Seq<char>) -> bool {
    up_seq(w) == "THEN"@
}

pub open spec fn is_kw_begin(w: Seq<char>) -> bool {
    up_seq(w) == "BEGIN"@
}

pub open spec fn is_kw_until(w: Seq<char>) -> bool {
    up_seq(w) == "UNTIL"@
}

pub open spec fn is_kw_do(w: Seq<char>) -> bool {
    up_seq(w) == "DO"@
}

pub open spec fn is_kw_loop(w: Seq<char>) -> bool {
    up_seq(w) == "LOOP"@
}

/// The words that close an open control-flow construct.
pub open spec fn is_closer(w: Seq<char>) -> bool {
    is_kw_then(w) || is_kw_else(w) || is_kw_until(w) || is_kw_loop(w)
}

/// The reserved keywords; the name of a definition may not be one of them.
pub open spec fn is_reserved(w: Seq<char>) -> bool {
    is_kw_variable(w) || is_kw_constant(w) || is_kw_create(w) || is_kw_allot(w) || is_kw_if(w)
        || is_kw_else(w) || is_kw_then(w) || is_kw_begin(w) || is_kw_until(w) || is_kw_do(w)
        || is_kw_loop(w)
}

pub fn is_closer_exec(w: &str) -> (r: bool)
    ensures
        r == is_closer(w@),
{
    word_matches(w, "THEN") || word_matches(w, "ELSE") || word_matches(w, "UNTIL")
        || word_matches(w, "LOOP")
}

pub fn is_reserved_exec(w: &str) -> (r: bool)
    ensures
        r == is_reserved(w@),
{
    word_matches(w, "VARIABLE") || word_matches(w, "CONSTANT") || word_matches(w, "CREATE")
        || word_matches(w, "ALLOT") || word_matches(w, "IF") || word_matches(w, "ELSE")
        || word_matches(w, "THEN") || word_matches(w, "BEGIN") || word_matches(w, "UNTIL")
        || word_matches(w, "DO") || word_matches(w, "LOOP")
}

/// Whether every character of `w` is a decimal digit and there is at least
/// one: the shape of a decimal literal.
pub open spec fn is_dec_lit(w: Seq<char>) -> bool {
    w.len() >= 1 && (forall|i: int| 0 <= i < w.len() ==> is_digit(#[trigger] w[i]))
}

/// The value of a sequence of decimal digits.
pub open spec fn dec_val(w: Seq<char>) -> int
    decreases w.len(),
{
    if w.len() == 0 {
        0
    } else {
        dec_val(w.drop_last()) * 10 + digit_val(w.last())
    }
}

/// The shape of a hexadecimal literal: `0x` followed by hex digits.
pub open spec fn is_hex_lit(w: Seq<char>) -> bool {
    w.len() >= 3 && w[0] == '0' && w[1] == 'x' && (forall|i: int|
        2 <= i < w.len() ==> is_hex_digit(#[trigger] w[i]))
}

/// The value of a sequence of hexadecimal digits.
pub open spec fn hex_val(w: Seq<char>) -> int
    decreases w.len(),
{
    if w.len() == 0 {
        0
    } else {
        hex_val(w.drop_last()) * 16 + hex_digit_val(w.last())
    }
}

/// How a word, a maximal run of non-whitespace characters, is classified.
///
/// `:` and `;` are singleton structural tokens; a decimal or hexadecimal
/// digit run whose value fits in a 64-bit signed integer is a number; every
/// other word, a digit run too large for 64 bits included, is an identifier.
/// Classification is total: no word is rejected here.
pub open spec fn classify_word(w: Seq<char>) -> SpecToken {
    if w == seq![':'] {
        SpecToken::Colon
    } else if w == seq![';'] {
        SpecToken::Semicolon
    } else if is_dec_lit(w) && dec_val(w) <= i64::MAX as int {
        SpecToken::Number(dec_val(w))
    } else if is_hex_lit(w) && hex_val(w.subrange(2, w.len() as int)) <= i64::MAX as int {
        SpecToken::Number(hex_val(w.subrange(2, w.len() as int)))
    } else {
        SpecToken::Word(w)
    }
}

/// Scan the decimal digits of `w`; report whether all characters are digits
/// and, when they are, whether the value fits in `i64` and what it is.
fn scan_dec(w: &str) -> (r: (bool, bool, i64))
    ensures
        r.0 == is_dec_lit(w@),
        r.0 ==> (r.1 == (dec_val(w@) <= i64::MAX as int)),
        (r.0 && r.1) ==> r.2 as int == dec_val(w@),
{
    let n = w.unicode_len();
    if n == 0 {
        return (false, false, 0);
    }
    let mut i: usize = 0;
    let mut acc: i64 = 0;
    let mut fits: bool = true;
    while i < n
        invariant
            n == w@.len(),
            i <= n,
            forall|j: int| 0 <= j < i ==> is_digit(#[trigger] w@[j]),
            fits ==> acc as int == dec_val(w@.subrange(0, i as int)) && acc >= 0,
            !fits ==> dec_val(w@.subrange(0, i as int)) > i64::MAX as int,
        decreases n - i,
    {
        let c = w.get_char(i);
        if !('0' <= c && c <= '9') {
            proof {
                assert(!is_digit(w@[i as int]));
            }
            return (false, false, 0);
        }
        let d: i64 = ((c as u32) - 48) as i64;
        proof {
            let p = w@.subrange(0, i as int);
            let q = w@.subrange(0, i + 1);
            assert(q.drop_last() =~= p);
            assert(q.last() == w@[i as int]);
        }
        if fits {
            if acc > (i64::MAX - d) / 10 {
                proof {
                    assert(acc as int * 10 + d as int > i64::MAX as int) by (nonlinear_arith)
                        requires
                            acc as int > (i64::MAX as int - d as int) / 10,
                            0 <= d as int <= 9,
                            acc as int >= 0,
                    ;
                }
                fits = false;
            } else {
                proof {
                    assert(acc as int * 10 + d as int <= i64::MAX as int) by (nonlinear_arith)
                        requires
                            acc as int <= (i64::MAX as int - d as int) / 10,
                            0 <= d as int <= 9,
                            acc as int >= 0,
                    ;
                }
                acc = acc * 10 + d;
            }
        } else {
            proof {
                let p = w@.subrange(0, i as int);
                assert(dec_val(p) * 10 + digit_val(w@[i as int]) > i64::MAX as int)
                    by (nonlinear_arith)
                    requires
                        dec_val(p) > i64::MAX as int,
                        digit_val(w@[i as int]) >= 0,
                ;
            }
        }
        i += 1;
    }
    proof {
        assert(w@.subrange(0, n as int) =~= w@);
    }
    (true, fits, acc)
}

/// Scan `w` as a hexadecimal literal `0x…`; report whether it has that
/// shape and, when it does, whether the value fits in `i64` and what it is.
fn scan_hex(w: &str) -> (r: (bool, bool, i64))
    ensures
        r.0 == is_hex_lit(w@),
        r.0 ==> (r.1 == (hex_val(w@.subrange(2, w@.len() as int)) <= i64::MAX as int)),
        (r.0 && r.1) ==> r.2 as int == hex_val(w@.subrange(2, w@.len() as int)),
{
    let n = w.unicode_len();
    if n < 3 {
        return (false, false, 0);
    }
    if w.get_char(0) != '0' || w.get_char(1) != 'x' {
        return (false, false, 0);
    }
    let mut i: usize = 2;
    let mut acc: i64 = 0;
    let mut fits: bool = true;
    while i < n
        invariant
            n == w@.len(),
            n >= 3,
            2 <= i <= n,
            forall|j: int| 2 <= j < i ==> is_hex_digit(#[trigger] w@[j]),
            fits ==> acc as int == hex_val(w@.subrange(2, i as int)) && acc >= 0,
            !fits ==> hex_val(w@.subrange(2, i as int)) > i64::MAX as int,
        decreases n - i,
    {
        let c = w.get_char(i);
        let ok = ('0' <= c && c <= '9') || ('a' <= c && c <= 'f') || ('A' <= c && c <= 'F');
        if !ok {
            proof {
                assert(!is_hex_digit(w@[i as int]));
            }
            return (false, false, 0);
        }
        let d: i64 = if '0' <= c && c <= '9' {
            ((c as u32) - 48) as i64
        } else if 'a' <= c && c <= 'f' {
            ((c as u32) - 87) as i64
        } else {
            ((c as u32) - 55) as i64
        };
        proof {
            let p = w@.subrange(2, i as int);
            let q = w@.subrange(2, i + 1);
            assert(q.drop_last() =~= p);
            assert(q.last() == w@[i as int]);
            assert(d as int == hex_digit_val(w@[i as int]));
        }
        if fits {
            if acc > (i64::MAX - d) / 16 {
                proof {
                    assert(acc as int * 16 + d as int > i64::MAX as int) by (nonlinear_arith)
                        requires
                            acc as int > (i64::MAX as int - d as int) / 16,
                            0 <= d as int <= 15,
                            acc as int >= 0,
                    ;
                }
                fits = false;
            } else {
                proof {
                    assert(acc as int * 16 + d as int <= i64::MAX as int) by (nonlinear_arith)
                        requires
                            acc as int <= (i64::MAX as int - d as int) / 16,
                            0 <= d as int <= 15,
                            acc as int >= 0,
                    ;
                }
                acc = acc * 16 + d;
            }
        } else {
            proof {
                let p = w@.subrange(2, i as int);
                assert(hex_val(p) * 16 + hex_digit_val(w@[i as int]) > i64::MAX as int)
                    by (nonlinear_arith)
                    requires
                        hex_val(p) > i64::MAX as int,
                        hex_digit_val(w@[i as int]) >= 0,
                ;
            }
        }
        i += 1;
    }
    (true, fits, acc)
}

/// Classify one word into a token, exactly as `classify_word` says.
pub fn classify_word_exec(w: &str) -> (t: Token)
    ensures
        t.deep_view() == classify_word(w@),
{
    let n = w.unicode_len();
    if n == 1 && w.get_char(0) == ':' {
        proof {
            assert(w@ =~= seq![':']);
        }
        return Token::Colon;
    }
    if n == 1 && w.get_char(0) == ';' {
        proof {
            assert(w@ =~= seq![';']);
            assert(w@ != seq![':']);
        }
        return Token::Semicolon;
    }
    proof {
        if w@ == seq![':'] {
            assert(w@.len() == 1 && w@[0] == ':');
        }
        if w@ == seq![';'] {
            assert(w@.len() == 1 && w@[0] == ';');
        }
    }
    let (dec_ok, dec_fits, dec_v) = scan_dec(w);
    if dec_ok && dec_fits {
        return Token::Number(dec_v);
    }
    let (hex_ok, hex_fits, hex_v) = scan_hex(w);
    if hex_ok && hex_fits {
        return Token::Number(hex_v);
    }
    Token::Word(String::from_str(w))
}

} // verus!
