//! Tokens of the example S-expression language.
use vstd::prelude::*;

verus! {

/// A token; an identifier is the range of the source that spells it.
#[derive(Clone, Copy, Debug, PartialEq, Eq, Structural)]
pub enum Token {
    OpenParen,
    CloseParen,
    Plus,
    Dash,
    Star,
    Slash,
    Eq,
    Dollar,
    Let,
    Int(i64),
    Ident(usize, usize),
}

/// Why the source could not be split into tokens.
#[derive(Clone, Copy, Debug, PartialEq, Eq, Structural)]
pub enum LexError {
    /// A run of digits whose value does not fit an `i64`.
    IntTooLarge,
}

/// The Unicode white-space characters.
pub open spec fn is_ws(c: char) -> bool {
    ||| '\u{9}' <= c <= '\u{d}'
    ||| c == ' '
    ||| c == '\u{85}'
    ||| c == '\u{a0}'
    ||| c == '\u{1680}'
    ||| '\u{2000}' <= c <= '\u{200a}'
    ||| c == '\u{2028}'
    ||| c == '\u{2029}'
    ||| c == '\u{202f}'
    ||| c == '\u{205f}'
    ||| c == '\u{3000}'
}

/// Whether `c` is an ASCII digit.
pub open spec fn is_digit(c: char) -> bool {
    '0' <= c <= '9'
}

/// The token of a one-character symbol.
pub open spec fn single(c: char) -> Option<Token> {
    if c == '(' {
        Some(Token::OpenParen)
    } else if c == ')' {
        Some(Token::CloseParen)
    } else if c == '+' {
        Some(Token::Plus)
    } else if c == '-' {
        Some(Token::Dash)
    } else if c == '*' {
        Some(Token::Star)
    } else if c == '/' {
        Some(Token::Slash)
    } else if c == '=' {
        Some(Token::Eq)
    } else if c == '$' {
        Some(Token::Dollar)
    } else {
        None
    }
}

/// The first position at or after `i` that holds no white space.
pub open spec fn skip_ws(s: Seq<char>, i: int) -> int
    decreases s.len() - i,
{
    if 0 <= i < s.len() && is_ws(s[i]) {
        skip_ws(s, i + 1)
    } else {
        i
    }
}

/// The end of the run of digits that starts at `i`.
pub open spec fn digits_end(s: Seq<char>, i: int) -> int
    decreases s.len() - i,
{
    if 0 <= i < s.len() && is_digit(s[i]) {
        digits_end(s, i + 1)
    } else {
        i
    }
}

/// Whether `c` ends a word.
pub open spec fn ends_word(c: char) -> bool {
    is_ws(c) || c == '(' || c == ')'
}

/// The end of the word that starts at `i`.
pub open spec fn word_end(s: Seq<char>, i: int) -> int
    decreases s.len() - i,
{
    if 0 <= i < s.len() && !ends_word(s[i]) {
        word_end(s, i + 1)
    } else {
        i
    }
}

/// The decimal value of the digits `s[i..j]`.
pub open spec fn digits_value(s: Seq<char>, i: int, j: int) -> nat
    decreases j - i,
{
    if j <= i {
        0
    } else {
        (digits_value(s, i, j - 1) * 10 + (s[j - 1] as int - '0' as int)) as nat
    }
}

/// The spelling of the `let` keyword.
pub open spec fn let_word() -> Seq<char> {
    seq!['l', 'e', 't']
}

/// The token that starts at or after `i`, after white space, and the
/// position after it; `None` at the end of the source.
pub open spec fn lex_at(s: Seq<char>, i: int) -> Result<Option<(Token, int)>, LexError> {
    let k = skip_ws(s, i);
    if k >= s.len() {
        Ok(None)
    } else if single(s[k]) is Some {
        Ok(Some((single(s[k])->Some_0, k + 1)))
    } else if is_digit(s[k]) {
        let j = digits_end(s, k);
        let v = digits_value(s, k, j);
        if v > i64::MAX {
            Err(LexError::IntTooLarge)
        } else {
            Ok(Some((Token::Int(v as i64), j)))
        }
    } else {
        let j = word_end(s, k);
        if s.subrange(k, j) == let_word() {
            Ok(Some((Token::Let, j)))
        } else {
            Ok(Some((Token::Ident(k as usize, j as usize), j)))
        }
    }
}

/// The tokens of `s` from `i` on.
pub open spec fn lex_from(s: Seq<char>, i: int) -> Result<Seq<Token>, LexError>
    decreases s.len() - i,
{
    match lex_at(s, i) {
        Err(e) => Err(e),
        Ok(None) => Ok(Seq::empty()),
        Ok(Some((t, j))) => if j <= i || j > s.len() {
            Ok(Seq::empty())
        } else {
            match lex_from(s, j) {
                Err(e) => Err(e),
                Ok(rest) => Ok(seq![t] + rest),
            }
        },
    }
}

/// Whether `c` is white space.
pub fn is_whitespace(c: char) -> (r: bool)
    ensures
        r == is_ws(c),
{
    ('\u{9}' <= c && c <= '\u{d}') || c == ' ' || c == '\u{85}' || c == '\u{a0}' || c
        == '\u{1680}' || ('\u{2000}' <= c && c <= '\u{200a}') || c == '\u{2028}' || c
        == '\u{2029}' || c == '\u{202f}' || c == '\u{205f}' || c == '\u{3000}'
}

fn single_token(c: char) -> (r: Option<Token>)
    ensures
        r == single(c),
{
    if c == '(' {
        Some(Token::OpenParen)
    } else if c == ')' {
        Some(Token::CloseParen)
    } else if c == '+' {
        Some(Token::Plus)
    } else if c == '-' {
        Some(Token::Dash)
    } else if c == '*' {
        Some(Token::Star)
    } else if c == '/' {
        Some(Token::Slash)
    } else if c == '=' {
        Some(Token::Eq)
    } else if c == '$' {
        Some(Token::Dollar)
    } else {
        None
    }
}

/// The token that starts at or after `pos`, after white space, and the
/// position after it; `None` at the end of the source.
pub fn next_token(src: &[char], pos: usize) -> (r: Result<Option<(Token, usize)>, LexError>)
    requires
        pos <= src@.len(),
    ensures
        match lex_at(src@, pos as int) {
            Err(e) => r == Err::<Option<(Token, usize)>, LexError>(e),
            Ok(None) => r == Ok::<Option<(Token, usize)>, LexError>(None),
            Ok(Some((t, j))) => r == Ok::<Option<(Token, usize)>, LexError>(Some((t, j as usize)))
                && pos < j <= src@.len(),
        },
{
    let len = src.len();
    let mut k = pos;
    while k < len && is_whitespace(src[k])
        invariant
            pos <= k <= len == src@.len(),
            skip_ws(src@, pos as int) == skip_ws(src@, k as int),
        decreases len - k,
    {
        k += 1;
    }
    if k >= len {
        return Ok(None);
    }
    let c = src[k];
    if let Some(t) = single_token(c) {
        return Ok(Some((t, k + 1)));
    }
    if '0' <= c && c <= '9' {
        let mut j = k;
        let mut v: i64 = 0;
        while j < len && '0' <= src[j] && src[j] <= '9'
            invariant
                k <= j <= len == src@.len(),
                pos <= k < len,
                skip_ws(src@, pos as int) == k,
                single(src@[k as int]) is None,
                is_digit(src@[k as int]),
                digits_end(src@, k as int) == digits_end(src@, j as int),
                v == digits_value(src@, k as int, j as int),
                0 <= v,
            decreases len - j,
        {
            let d = (src[j] as u32 - '0' as u32) as i64;
            proof {
                lemma_digits_run(src@, j as int);
                lemma_digits_run(src@, j + 1);
                assert(digits_end(src@, j as int) == digits_end(src@, j + 1));
            }
            let ghost e = digits_end(src@, k as int);
            if v > (i64::MAX - d) / 10 {
                assert(v * 10 + d > i64::MAX) by (nonlinear_arith)
                    requires
                        v > (i64::MAX - d) / 10,
                        0 <= d <= 9,
                ;
                assert(digits_value(src@, k as int, j + 1) == v * 10 + d);
                proof {
                    lemma_digits_grow(src@, k as int, j as int, e);
                }
                return Err(LexError::IntTooLarge);
            }
            assert(v * 10 + d <= i64::MAX) by (nonlinear_arith)
                requires
                    v <= (i64::MAX - d) / 10,
                    0 <= v,
                    0 <= d <= 9,
            ;
            v = v * 10 + d;
            j += 1;
        }
        proof {
            lemma_digits_run(src@, j as int);
        }
        return Ok(Some((Token::Int(v), j)));
    }
    let mut j = k;
    while j < len && !(is_whitespace(src[j]) || src[j] == '(' || src[j] == ')')
        invariant
            k <= j <= len == src@.len(),
            pos <= k < len,
            skip_ws(src@, pos as int) == k,
            single(src@[k as int]) is None,
            !is_digit(src@[k as int]),
            word_end(src@, k as int) == word_end(src@, j as int),
        decreases len - j,
    {
        j += 1;
    }
    proof {
        lemma_word_run(src@, k as int);
    }
    let is_let = j - k == 3 && src[k] == 'l' && src[k + 1] == 'e' && src[k + 2] == 't';
    let ghost w = src@.subrange(k as int, j as int);
    proof {
        assert(w.len() == j - k);
        assert(let_word().len() == 3);
        if j - k == 3 {
            assert(w[0] == src@[k as int] && w[1] == src@[k + 1] && w[2] == src@[k + 2]);
            assert(let_word()[0] == 'l' && let_word()[1] == 'e' && let_word()[2] == 't');
            if is_let {
                assert(w =~= let_word());
            }
        }
        assert(is_let == (w == let_word()));
    }
    if is_let {
        Ok(Some((Token::Let, j)))
    } else {
        Ok(Some((Token::Ident(k, j), j)))
    }
}

/// A word stays within `s`.
proof fn lemma_word_run(s: Seq<char>, j: int)
    requires
        0 <= j <= s.len(),
    ensures
        j <= word_end(s, j) <= s.len(),
    decreases s.len() - j,
{
    if j < s.len() && !ends_word(s[j]) {
        lemma_word_run(s, j + 1);
    }
}

/// The run of digits from `j` stays within `s` and holds only digits.
proof fn lemma_digits_run(s: Seq<char>, j: int)
    requires
        0 <= j <= s.len(),
    ensures
        j <= digits_end(s, j) <= s.len(),
        forall|m: int| j <= m < digits_end(s, j) ==> is_digit(s[m]),
    decreases s.len() - j,
{
    if j < s.len() && is_digit(s[j]) {
        lemma_digits_run(s, j + 1);
    }
}

/// Digits only make a number larger.
proof fn lemma_digits_grow(s: Seq<char>, i: int, j: int, e: int)
    requires
        i <= j < e <= s.len(),
        forall|m: int| j <= m < e ==> is_digit(s[m]),
    ensures
        digits_value(s, i, e) >= digits_value(s, i, j + 1),
    decreases e - j,
{
    if j + 1 < e {
        lemma_digits_grow(s, i, j + 1, e);
        assert(digits_value(s, i, j + 2) == digits_value(s, i, j + 1) * 10 + (s[j + 1] as int
            - '0' as int));
    }
}

/// Splits `src` into tokens; fails where a number does not fit an `i64`.
pub fn tokenize(src: &[char]) -> (r: Result<Vec<Token>, LexError>)
    ensures
        match lex_from(src@, 0) {
            Ok(ts) => r matches Ok(v) && v@ == ts,
            Err(e) => r == Err::<Vec<Token>, LexError>(e),
        },
{
    let len = src.len();
    let mut out: Vec<Token> = Vec::new();
    let mut pos: usize = 0;
    let ghost total = lex_from(src@, 0);
    loop
        invariant
            len == src@.len(),
            pos <= src@.len(),
            total == lex_from(src@, 0),
            match lex_from(src@, pos as int) {
                Ok(rest) => total == Ok::<Seq<Token>, LexError>(out@ + rest),
                Err(e) => total == Err::<Seq<Token>, LexError>(e),
            },
        decreases src@.len() - pos,
    {
        let step = match next_token(src, pos) {
            Ok(step) => step,
            Err(e) => {
                return Err(e);
            },
        };
        match step {
            None => {
                assert(out@ + Seq::<Token>::empty() =~= out@);
                return Ok(out);
            },
            Some((t, j)) => {
                proof {
                    match lex_from(src@, j as int) {
                        Ok(rest) => {
                            assert(out@ + (seq![t] + rest) =~= out@.push(t) + rest);
                        },
                        Err(_) => {},
                    }
                }
                out.push(t);
                pos = j;
            },
        }
    }
}

} // verus!
