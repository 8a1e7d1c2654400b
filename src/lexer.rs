use vstd::prelude::*;

use crate::token::{Keyword, Token, TokenInfo, TokenView};

verus! {

/// The character class of digits that start and continue an integer literal.
pub const DIGIT_PATTERN: &'static str = "\\d";

/// The character class of characters that continue an identifier.
pub const IDENTIFIER_PATTERN: &'static str = "[a-zA-Z0-9_]";

/// Whether the regular expression `pattern` matches somewhere in `haystack`.
pub uninterp spec fn regex_is_match(pattern: Seq<char>, haystack: Seq<char>) -> bool;

/// Whether a character has the Unicode White_Space property.
pub uninterp spec fn white_space(c: char) -> bool;

/// Relies on regex::Regex::new and regex::Regex::is_match: whether `pattern` compiles and
/// matches somewhere in `haystack`; the answer depends on the two strings alone.
#[verifier::external_body]
fn pattern_matches(pattern: &str, haystack: &str) -> (r: bool)
    ensures
        r == regex_is_match(pattern@, haystack@),
{
    match regex::Regex::new(pattern) {
        Ok(re) => re.is_match(haystack),
        Err(_) => false,
    }
}

/// Relies on char::is_whitespace: whether `c` has the Unicode White_Space property.
#[verifier::external_body]
fn is_whitespace(c: char) -> (r: bool)
    ensures
        r == white_space(c),
{
    c.is_whitespace()
}

/// Whether `c` starts or continues an integer literal.
pub open spec fn is_digit(c: char) -> bool {
    regex_is_match(DIGIT_PATTERN@, seq![c])
}

/// Whether `c` continues an identifier.
pub open spec fn is_identifier_char(c: char) -> bool {
    regex_is_match(IDENTIFIER_PATTERN@, seq![c])
}

/// The token of a one-character symbol.
pub open spec fn symbol_token(c: char) -> Option<TokenView> {
    if c == '{' {
        Some(TokenView::OpenBrace)
    } else if c == '}' {
        Some(TokenView::CloseBrace)
    } else if c == '(' {
        Some(TokenView::OpenParenthesis)
    } else if c == ')' {
        Some(TokenView::CloseParenthesis)
    } else if c == ';' {
        Some(TokenView::Semicolon)
    } else if c == '~' {
        Some(TokenView::BitwiseNot)
    } else if c == '!' {
        Some(TokenView::LogicalNot)
    } else {
        None
    }
}

/// The end of the run of digits (or of identifier characters) that starts at `i`.
pub open spec fn run_end(cs: Seq<char>, i: int, digits: bool) -> int
    decreases cs.len() - i,
{
    if 0 <= i < cs.len() && (if digits {
        is_digit(cs[i])
    } else {
        is_identifier_char(cs[i])
    }) {
        run_end(cs, i + 1, digits)
    } else {
        i
    }
}

/// The value of a string of ASCII decimal digits.
pub open spec fn decimal_value(ds: Seq<char>) -> int
    decreases ds.len(),
{
    if ds.len() == 0 {
        0
    } else {
        decimal_value(ds.drop_last()) * 10 + (ds.last() as int - '0' as int)
    }
}

/// Whether every character is an ASCII decimal digit.
pub open spec fn all_ascii_digits(ds: Seq<char>) -> bool {
    forall|j: int| 0 <= j < ds.len() ==> '0' <= #[trigger] ds[j] <= '9'
}

/// The value of an integer literal, when it is ASCII digits and fits a `usize`.
pub open spec fn literal_value(ds: Seq<char>) -> Option<usize> {
    if all_ascii_digits(ds) && decimal_value(ds) <= usize::MAX {
        Some(decimal_value(ds) as usize)
    } else {
        None
    }
}

/// A word is a keyword or an identifier.
pub open spec fn word_token(w: Seq<char>) -> TokenView {
    if w == "int"@ {
        TokenView::Keyword(Keyword::Int)
    } else if w == "return"@ {
        TokenView::Keyword(Keyword::Return)
    } else {
        TokenView::Identifier(w)
    }
}

/// An integer literal that is not ASCII digits or does not fit a `usize`.
#[derive(Debug, Clone, Copy, PartialEq, Eq, Structural)]
pub struct LexError {
    pub line: usize,
}

/// Puts `front` before the tokens of `rest`, or passes its error on.
pub open spec fn prepend(front: Seq<(TokenView, usize)>, rest: Result<
    Seq<(TokenView, usize)>,
    LexError,
>) -> Result<Seq<(TokenView, usize)>, LexError> {
    match rest {
        Ok(ts) => Ok(front + ts),
        Err(e) => Err(e),
    }
}

/// The tokens of `cs` from position `pos` on, `line` being the current line. Whitespace
/// separates tokens, a newline starts a new line, symbols stand alone, a digit starts an
/// integer literal that runs over the following digits, and anything else starts a word that
/// runs over the following identifier characters.
pub open spec fn lex_from(cs: Seq<char>, pos: int, line: int) -> Result<
    Seq<(TokenView, usize)>,
    LexError,
>
    decreases cs.len() - pos via lex_from_decreases
{
    if pos < 0 || pos >= cs.len() {
        Ok(Seq::empty())
    } else {
        let c = cs[pos];
        let line2 = if c == '\n' {
            line + 1
        } else {
            line
        };
        if white_space(c) {
            lex_from(cs, pos + 1, line2)
        } else if symbol_token(c) is Some {
            prepend(seq![(symbol_token(c)->Some_0, line2 as usize)], lex_from(cs, pos + 1, line2))
        } else if is_digit(c) {
            let end = run_end(cs, pos + 1, true);
            match literal_value(cs.subrange(pos, end)) {
                Some(v) => prepend(
                    seq![(TokenView::IntegerLiteral(v), line2 as usize)],
                    lex_from(cs, end, line2),
                ),
                None => Err(LexError { line: line2 as usize }),
            }
        } else {
            let end = run_end(cs, pos + 1, false);
            prepend(seq![(word_token(cs.subrange(pos, end)), line2 as usize)], lex_from(cs, end, line2))
        }
    }
}

proof fn lemma_run_end_bounds(cs: Seq<char>, i: int, digits: bool)
    requires
        0 <= i <= cs.len(),
    ensures
        i <= run_end(cs, i, digits) <= cs.len(),
    decreases cs.len() - i,
{
    if 0 <= i < cs.len() && (if digits {
        is_digit(cs[i])
    } else {
        is_identifier_char(cs[i])
    }) {
        lemma_run_end_bounds(cs, i + 1, digits);
    }
}

#[via_fn]
proof fn lex_from_decreases(cs: Seq<char>, pos: int, line: int) {
    if 0 <= pos < cs.len() {
        lemma_run_end_bounds(cs, pos + 1, true);
        lemma_run_end_bounds(cs, pos + 1, false);
    }
}

proof fn lemma_decimal_grows(ds: Seq<char>, k: int)
    requires
        0 <= k <= ds.len(),
        all_ascii_digits(ds),
    ensures
        decimal_value(ds.take(k)) <= decimal_value(ds),
        0 <= decimal_value(ds),
    decreases ds.len(),
{
    if ds.len() > 0 {
        let p = ds.drop_last();
        assert(all_ascii_digits(p)) by {
            assert forall|j: int| 0 <= j < p.len() implies '0' <= #[trigger] p[j] <= '9' by {
                assert(p[j] == ds[j]);
            }
        }
        if k < ds.len() {
            lemma_decimal_grows(p, k);
            assert(p.take(k) == ds.take(k));
        } else {
            lemma_decimal_grows(p, 0);
            assert(ds.take(k) == ds);
        }
    }
}

/// Whether the character at `pos` is a digit in the sense of `is_digit`.
fn char_is_digit(buf: &str, pos: usize) -> (r: bool)
    requires
        pos < buf@.len() <= usize::MAX,
    ensures
        r == is_digit(buf@[pos as int]),
{
    let one = buf.substring_char(pos, pos + 1);
    assert(one@ =~= seq![buf@[pos as int]]);
    pattern_matches(DIGIT_PATTERN, one)
}

/// Whether the character at `pos` continues an identifier.
fn char_is_identifier(buf: &str, pos: usize) -> (r: bool)
    requires
        pos < buf@.len() <= usize::MAX,
    ensures
        r == is_identifier_char(buf@[pos as int]),
{
    let one = buf.substring_char(pos, pos + 1);
    assert(one@ =~= seq![buf@[pos as int]]);
    pattern_matches(IDENTIFIER_PATTERN, one)
}

/// The end of the run of digits or identifier characters from `start`.
fn find_run_end(buf: &str, n: usize, start: usize, digits: bool) -> (r: usize)
    requires
        n == buf@.len(),
        start <= n,
    ensures
        r == run_end(buf@, start as int, digits),
        start <= r <= n,
{
    let mut j = start;
    while j < n
        invariant
            start <= j <= n,
            n == buf@.len(),
            run_end(buf@, start as int, digits) == run_end(buf@, j as int, digits),
        decreases n - j,
    {
        let more = if digits {
            char_is_digit(buf, j)
        } else {
            char_is_identifier(buf, j)
        };
        if !more {
            return j;
        }
        j = j + 1;
    }
    j
}

/// The value of the literal in `buf[from..to]`, as in `literal_value`.
fn parse_integer_literal(buf: &str, from: usize, to: usize) -> (r: Option<usize>)
    requires
        from <= to <= buf@.len(),
    ensures
        r == literal_value(buf@.subrange(from as int, to as int)),
{
    let ghost ds = buf@.subrange(from as int, to as int);
    let mut acc: usize = 0;
    let mut j = from;
    while j < to
        invariant
            from <= j <= to <= buf@.len(),
            ds == buf@.subrange(from as int, to as int),
            all_ascii_digits(ds.take(j - from)),
            acc as int == decimal_value(ds.take(j - from)),
        decreases to - j,
    {
        let c = buf.get_char(j);
        assert(ds.take(j - from + 1).drop_last() == ds.take(j - from));
        assert(ds.take(j - from + 1).last() == c);
        if !('0' <= c && c <= '9') {
            assert(!all_ascii_digits(ds)) by {
                assert(ds[j - from] == c);
            }
            return None;
        }
        let d = (c as u32 - '0' as u32) as usize;
        let next = match acc.checked_mul(10) {
            Some(t) => t.checked_add(d),
            None => None,
        };
        match next {
            Some(v) => {
                acc = v;
            },
            None => {
                proof {
                    if all_ascii_digits(ds) {
                        lemma_decimal_grows(ds, j - from + 1);
                    }
                }
                return None;
            },
        }
        j = j + 1;
    }
    assert(ds.take(j - from) == ds);
    Some(acc)
}

/// Whether `buf[from..to]` is the text of `word`.
fn text_is(buf: &str, from: usize, to: usize, word: &str) -> (r: bool)
    requires
        from <= to <= buf@.len(),
    ensures
        r == (buf@.subrange(from as int, to as int) == word@),
{
    let n = word.unicode_len();
    if to - from != n {
        return false;
    }
    let mut j: usize = 0;
    while j < n
        invariant
            j <= n,
            n == word@.len(),
            to - from == n,
            from <= to <= buf@.len(),
            forall|t: int| 0 <= t < j ==> buf@[from + t] == word@[t],
        decreases n - j,
    {
        if buf.get_char(from + j) != word.get_char(j) {
            assert(buf@.subrange(from as int, to as int)[j as int] != word@[j as int]);
            return false;
        }
        j = j + 1;
    }
    assert(buf@.subrange(from as int, to as int) =~= word@);
    true
}

/// The token of a one-character symbol, if `c` is one.
fn symbol(c: char) -> (r: Option<Token>)
    ensures
        r matches Some(t) ==> symbol_token(c) == Some(t@),
        r is None ==> symbol_token(c) is None,
{
    match c {
        '{' => Some(Token::OpenBrace),
        '}' => Some(Token::CloseBrace),
        '(' => Some(Token::OpenParenthesis),
        ')' => Some(Token::CloseParenthesis),
        ';' => Some(Token::Semicolon),
        '~' => Some(Token::BitwiseNot),
        '!' => Some(Token::LogicalNot),
        _ => None,
    }
}

/// Splits source text into tokens, each with its line.
pub fn lex(buf: &str) -> (r: Result<Vec<TokenInfo>, LexError>)
    ensures
        match lex_from(buf@, 0, 0) {
            Ok(ts) => r is Ok && r->Ok_0@.map_values(|t: TokenInfo| t@) == ts,
            Err(e) => r == Err::<Vec<TokenInfo>, LexError>(e),
        },
{
    proof {
        reveal_strlit("int");
        reveal_strlit("return");
    }
    let n = buf.unicode_len();
    let mut tokens: Vec<TokenInfo> = Vec::new();
    let mut pos: usize = 0;
    let mut line: usize = 0;
    while pos < n
        invariant
            pos <= n,
            n == buf@.len(),
            line <= pos,
            lex_from(buf@, 0, 0) == prepend(
                tokens@.map_values(|t: TokenInfo| t@),
                lex_from(buf@, pos as int, line as int),
            ),
        decreases n - pos,
    {
        let ghost done = tokens@.map_values(|t: TokenInfo| t@);
        let c = buf.get_char(pos);
        if c == '\n' {
            line = line + 1;
        }
        if is_whitespace(c) {
            pos = pos + 1;
        } else {
            let (token, end) = match symbol(c) {
                Some(t) => (t, pos + 1),
                None => {
                    if char_is_digit(buf, pos) {
                        let end = find_run_end(buf, n, pos + 1, true);
                        match parse_integer_literal(buf, pos, end) {
                            Some(v) => (Token::IntegerLiteral(v), end),
                            None => {
                                return Err(LexError { line });
                            },
                        }
                    } else {
                        let end = find_run_end(buf, n, pos + 1, false);
                        let t = if text_is(buf, pos, end, "int") {
                            Token::Keyword(Keyword::Int)
                        } else if text_is(buf, pos, end, "return") {
                            Token::Keyword(Keyword::Return)
                        } else {
                            Token::Identifier(String::from_str(buf.substring_char(pos, end)))
                        };
                        (t, end)
                    }
                },
            };
            let info = TokenInfo::new(token, line);
            let ghost item = info@;
            tokens.push(info);
            proof {
                assert(tokens@.map_values(|t: TokenInfo| t@) == done + seq![item]);
                let rest = lex_from(buf@, end as int, line as int);
                if let Ok(ts) = rest {
                    assert(done + (seq![item] + ts) == (done + seq![item]) + ts);
                }
            }
            pos = end;
        }
    }
    assert(tokens@.map_values(|t: TokenInfo| t@) + Seq::<(TokenView, usize)>::empty() == tokens@.map_values(|t: TokenInfo| t@));
    Ok(tokens)
}

} // verus!
