//! The scanner: source text to tokens, one left-to-right pass. The
//! function `scan_spec` is the mathematical description; `scan_from_line`
//! implements it.

use vstd::prelude::*;

use crate::error::{ErrKind, LoxError};
use crate::number::Number;
use crate::token::{toks_view, SpecToken, Token};

verus! {

// ---------------------------------------------------------------------------
// Character classes
// ---------------------------------------------------------------------------
pub open spec fn is_ws(c: char) -> bool {
    c == ' ' || c == '\t' || c == '\r' || c == '\n'
}

pub open spec fn is_digit_ch(c: char) -> bool {
    48 <= c as u32 <= 57
}

pub open spec fn is_alpha_ch(c: char) -> bool {
    (97 <= c as u32 <= 122) || (65 <= c as u32 <= 90) || c == '_'
}

pub open spec fn is_ident_ch(c: char) -> bool {
    is_alpha_ch(c) || is_digit_ch(c)
}

pub open spec fn is_num_ch(c: char) -> bool {
    is_digit_ch(c) || c == '.'
}

pub fn is_ws_char(c: char) -> (r: bool)
    ensures
        r == is_ws(c),
{
    c == ' ' || c == '\t' || c == '\r' || c == '\n'
}

pub fn is_digit_char(c: char) -> (r: bool)
    ensures
        r == is_digit_ch(c),
{
    let u = c as u32;
    48 <= u && u <= 57
}

pub fn is_alpha_char(c: char) -> (r: bool)
    ensures
        r == is_alpha_ch(c),
{
    let u = c as u32;
    (97 <= u && u <= 122) || (65 <= u && u <= 90) || c == '_'
}

pub fn is_ident_char(c: char) -> (r: bool)
    ensures
        r == is_ident_ch(c),
{
    is_alpha_char(c) || is_digit_char(c)
}

pub fn is_num_char(c: char) -> (r: bool)
    ensures
        r == is_num_ch(c),
{
    is_digit_char(c) || c == '.'
}

// ---------------------------------------------------------------------------
// Maximal runs
// ---------------------------------------------------------------------------
/// First position at or after `i` whose character does not continue an
/// identifier run.
pub open spec fn ident_end(s: Seq<char>, i: int) -> int
    decreases s.len() - i,
    when 0 <= i <= s.len()
{
    if i < s.len() && is_ident_ch(s[i]) {
        ident_end(s, i + 1)
    } else {
        i
    }
}

/// First position at or after `i` whose character does not continue a
/// numeric run (digits and interior dots).
pub open spec fn num_end(s: Seq<char>, i: int) -> int
    decreases s.len() - i,
    when 0 <= i <= s.len()
{
    if i < s.len() && is_num_ch(s[i]) {
        num_end(s, i + 1)
    } else {
        i
    }
}

/// Position of the first `close` character at or after `i`; the length of
/// the sequence when there is none.
pub open spec fn close_idx(s: Seq<char>, i: int, close: char) -> int
    decreases s.len() - i,
    when 0 <= i <= s.len()
{
    if i < s.len() {
        if s[i] == close {
            i
        } else {
            close_idx(s, i + 1, close)
        }
    } else {
        i
    }
}

pub proof fn lemma_ident_end(s: Seq<char>, i: int)
    requires
        0 <= i <= s.len(),
    ensures
        i <= ident_end(s, i) <= s.len(),
        forall|k: int| i <= k < ident_end(s, i) ==> is_ident_ch(s[k]),
        ident_end(s, i) < s.len() ==> !is_ident_ch(s[ident_end(s, i)]),
    decreases s.len() - i,
{
    if i < s.len() && is_ident_ch(s[i]) {
        lemma_ident_end(s, i + 1);
    }
}

pub proof fn lemma_num_end(s: Seq<char>, i: int)
    requires
        0 <= i <= s.len(),
    ensures
        i <= num_end(s, i) <= s.len(),
        forall|k: int| i <= k < num_end(s, i) ==> is_num_ch(s[k]),
        num_end(s, i) < s.len() ==> !is_num_ch(s[num_end(s, i)]),
    decreases s.len() - i,
{
    if i < s.len() && is_num_ch(s[i]) {
        lemma_num_end(s, i + 1);
    }
}

pub proof fn lemma_close_idx(s: Seq<char>, i: int, close: char)
    requires
        0 <= i <= s.len(),
    ensures
        i <= close_idx(s, i, close) <= s.len(),
        close_idx(s, i, close) < s.len() ==> s[close_idx(s, i, close)] == close,
        forall|k: int| i <= k < close_idx(s, i, close) ==> s[k] != close,
    decreases s.len() - i,
{
    if i < s.len() && s[i] != close {
        lemma_close_idx(s, i + 1, close);
    }
}

// ---------------------------------------------------------------------------
// Numeric literals
// ---------------------------------------------------------------------------
/// The value of a sequence of decimal digit characters.
pub open spec fn digits_val(s: Seq<char>) -> int
    decreases s.len(),
{
    if s.len() == 0 {
        0
    } else {
        digits_val(s.drop_last()) * 10 + (s.last() as u32 - 48)
    }
}

pub open spec fn all_digits(s: Seq<char>) -> bool {
    forall|k: int| 0 <= k < s.len() ==> is_digit_ch(s[k])
}

pub proof fn lemma_digits_val_nonneg(s: Seq<char>)
    requires
        all_digits(s),
    ensures
        digits_val(s) >= 0,
    decreases s.len(),
{
    if s.len() > 0 {
        assert(all_digits(s.drop_last()));
        lemma_digits_val_nonneg(s.drop_last());
    }
}

/// The value of a digit run is at least the value of any of its prefixes.
pub proof fn lemma_digits_val_prefix(s: Seq<char>, m: int)
    requires
        all_digits(s),
        0 <= m <= s.len(),
    ensures
        digits_val(s.subrange(0, m)) <= digits_val(s),
    decreases s.len(),
{
    if m == s.len() {
        assert(s.subrange(0, m) =~= s);
    } else {
        assert(all_digits(s.drop_last()));
        assert(s.subrange(0, m) =~= s.drop_last().subrange(0, m));
        lemma_digits_val_prefix(s.drop_last(), m);
        lemma_digits_val_nonneg(s.drop_last());
    }
}

/// Parses the digit run `s[from..to]` as a 64-bit integer; `None` when the
/// value is out of range.
pub fn parse_digits(s: &str, from: usize, to: usize) -> (r: Option<i64>)
    requires
        from <= to <= s@.len(),
        forall|k: int| from <= k < to ==> is_digit_ch(s@[k]),
    ensures
        match r {
            Some(v) => v as int == digits_val(s@.subrange(from as int, to as int)) && v >= 0,
            None => digits_val(s@.subrange(from as int, to as int)) > i64::MAX,
        },
{
    let ghost run = s@.subrange(from as int, to as int);
    proof {
        assert(all_digits(run));
    }
    let mut acc: i64 = 0;
    let mut k = from;
    while k < to
        invariant
            from <= k <= to <= s@.len(),
            forall|j: int| from <= j < to ==> is_digit_ch(s@[j]),
            run == s@.subrange(from as int, to as int),
            all_digits(run),
            acc >= 0,
            acc as int == digits_val(s@.subrange(from as int, k as int)),
        decreases to - k,
    {
        let c = s.get_char(k);
        let d = (c as u32) - 48;
        assert(d <= 9);
        let ghost prev = s@.subrange(from as int, k as int);
        let ghost cur = s@.subrange(from as int, k as int + 1);
        proof {
            assert(cur.drop_last() =~= prev);
            assert(cur.last() == s@[k as int]);
        }
        let step = match acc.checked_mul(10) {
            Some(m) => m.checked_add(d as i64),
            None => None,
        };
        match step {
            Some(v) => {
                acc = v;
                k = k + 1;
            },
            None => {
                proof {
                    assert(digits_val(cur) > i64::MAX);
                    assert(cur =~= run.subrange(0, k + 1 - from));
                    lemma_digits_val_prefix(run, k + 1 - from);
                }
                return None;
            },
        }
    }
    proof {
        assert(s@.subrange(from as int, k as int) =~= run);
    }
    Some(acc)
}

// ---------------------------------------------------------------------------
// Keywords and punctuation
// ---------------------------------------------------------------------------
/// An identifier run folds to a keyword token when its text matches one of
/// the reserved words, and to an identifier token otherwise.
pub open spec fn keyword_token(w: Seq<char>) -> SpecToken {
    if w == "and"@ {
        SpecToken::And
    } else if w == "class"@ {
        SpecToken::Class
    } else if w == "else"@ {
        SpecToken::Else
    } else if w == "false"@ {
        SpecToken::False
    } else if w == "for"@ {
        SpecToken::For
    } else if w == "fun"@ {
        SpecToken::Fun
    } else if w == "if"@ {
        SpecToken::If
    } else if w == "nil"@ {
        SpecToken::Nil
    } else if w == "or"@ {
        SpecToken::Or
    } else if w == "print"@ {
        SpecToken::Print
    } else if w == "return"@ {
        SpecToken::Return
    } else if w == "super"@ {
        SpecToken::Super
    } else if w == "this"@ {
        SpecToken::This
    } else if w == "true"@ {
        SpecToken::True
    } else if w == "var"@ {
        SpecToken::Var
    } else if w == "while"@ {
        SpecToken::While
    } else {
        SpecToken::Identifier(w)
    }
}

/// True exactly of the reserved words of the language.
pub open spec fn is_keyword(w: Seq<char>) -> bool {
    ||| w == "and"@
    ||| w == "class"@
    ||| w == "else"@
    ||| w == "false"@
    ||| w == "for"@
    ||| w == "fun"@
    ||| w == "if"@
    ||| w == "nil"@
    ||| w == "or"@
    ||| w == "print"@
    ||| w == "return"@
    ||| w == "super"@
    ||| w == "this"@
    ||| w == "true"@
    ||| w == "var"@
    ||| w == "while"@
}

fn token_of_word(w: String) -> (t: Token)
    ensures
        t@ == keyword_token(w@),
{
    if w == String::from_str("and") {
        Token::And
    } else if w == String::from_str("class") {
        Token::Class
    } else if w == String::from_str("else") {
        Token::Else
    } else if w == String::from_str("false") {
        Token::False
    } else if w == String::from_str("for") {
        Token::For
    } else if w == String::from_str("fun") {
        Token::Fun
    } else if w == String::from_str("if") {
        Token::If
    } else if w == String::from_str("nil") {
        Token::Nil
    } else if w == String::from_str("or") {
        Token::Or
    } else if w == String::from_str("print") {
        Token::Print
    } else if w == String::from_str("return") {
        Token::Return
    } else if w == String::from_str("super") {
        Token::Super
    } else if w == String::from_str("this") {
        Token::This
    } else if w == String::from_str("true") {
        Token::True
    } else if w == String::from_str("var") {
        Token::Var
    } else if w == String::from_str("while") {
        Token::While
    } else {
        Token::Identifier(w)
    }
}

/// The token of a lone punctuation character, if it is one.
pub open spec fn single_tok(c: char) -> Option<SpecToken> {
    if c == '(' {
        Some(SpecToken::LeftParen)
    } else if c == ')' {
        Some(SpecToken::RightParen)
    } else if c == '{' {
        Some(SpecToken::LeftBrace)
    } else if c == '}' {
        Some(SpecToken::RightBrace)
    } else if c == ',' {
        Some(SpecToken::Comma)
    } else if c == '.' {
        Some(SpecToken::Dot)
    } else if c == ';' {
        Some(SpecToken::Semicolon)
    } else if c == '+' {
        Some(SpecToken::Plus)
    } else if c == '-' {
        Some(SpecToken::Minus)
    } else if c == '*' {
        Some(SpecToken::Star)
    } else if c == '/' {
        Some(SpecToken::Slash)
    } else if c == '!' {
        Some(SpecToken::Bang)
    } else if c == '=' {
        Some(SpecToken::Equal)
    } else if c == '<' {
        Some(SpecToken::Less)
    } else if c == '>' {
        Some(SpecToken::Greater)
    } else {
        None
    }
}

/// True of the characters that can start a two-character operator.
pub open spec fn two_char_first(c: char) -> bool {
    c == '!' || c == '=' || c == '<' || c == '>'
}

/// The combined operator token of `c` followed by `=`.
pub open spec fn combined_tok(c: char) -> SpecToken {
    if c == '!' {
        SpecToken::BangEqual
    } else if c == '=' {
        SpecToken::EqualEqual
    } else if c == '<' {
        SpecToken::LessEqual
    } else {
        SpecToken::GreaterEqual
    }
}

// ---------------------------------------------------------------------------
// The scanner
// ---------------------------------------------------------------------------
/// Tokens produced from position `i` onward, and whether scanning reached
/// the end of the input without a lexical fault. On a fault the tokens
/// already produced are kept and scanning stops.
pub open spec fn scan_spec(s: Seq<char>, i: int) -> (Seq<SpecToken>, bool)
    decreases s.len() - i,
    when 0 <= i <= s.len()
{
    if i >= s.len() {
        (seq![], true)
    } else {
        let c = s[i];
        if is_ws(c) {
            scan_spec(s, i + 1)
        } else if is_alpha_ch(c) {
            let j = ident_end(s, i);
            if i < j <= s.len() {
                let tok = keyword_token(s.subrange(i, j));
                let rest = scan_spec(s, j);
                (seq![tok] + rest.0, rest.1)
            } else {
                (seq![], false)
            }
        } else if is_digit_ch(c) {
            let j = num_end(s, i);
            if i < j <= s.len() {
                let run = s.subrange(i, j);
                if j < s.len() && is_alpha_ch(s[j]) {
                    (seq![], false)
                } else if run.contains('.') {
                    (seq![], false)
                } else if digits_val(run) > i64::MAX {
                    (seq![], false)
                } else {
                    let rest = scan_spec(s, j);
                    (seq![SpecToken::Number(digits_val(run))] + rest.0, rest.1)
                }
            } else {
                (seq![], false)
            }
        } else if c == '"' {
            let j = close_idx(s, i + 1, '"');
            if i + 1 <= j && j < s.len() {
                let rest = scan_spec(s, j + 1);
                (seq![SpecToken::StringLit(s.subrange(i + 1, j))] + rest.0, rest.1)
            } else {
                (seq![], false)
            }
        } else if two_char_first(c) && i + 1 < s.len() && s[i + 1] == '=' {
            let rest = scan_spec(s, i + 2);
            (seq![combined_tok(c)] + rest.0, rest.1)
        } else {
            match single_tok(c) {
                Some(tok) => {
                    let rest = scan_spec(s, i + 1);
                    (seq![tok] + rest.0, rest.1)
                },
                None => (seq![], false),
            }
        }
    }
}

fn ident_at(s: &str, j: usize) -> (r: bool)
    requires
        j < s@.len(),
    ensures
        r == is_ident_ch(s@[j as int]),
{
    is_ident_char(s.get_char(j))
}

fn num_at(s: &str, j: usize) -> (r: bool)
    requires
        j < s@.len(),
    ensures
        r == is_num_ch(s@[j as int]),
{
    is_num_char(s.get_char(j))
}

/// Scans forward from `from` for the closing character; `None` when the
/// input ends first.
pub fn find_to_close(s: &str, from: usize, close: char) -> (r: Option<usize>)
    requires
        from <= s@.len(),
    ensures
        match r {
            Some(j) => j == close_idx(s@, from as int, close) && j < s@.len(),
            None => close_idx(s@, from as int, close) == s@.len(),
        },
{
    let n = s.unicode_len();
    let mut j = from;
    while j < n
        invariant
            from <= j <= n,
            n == s@.len(),
            close_idx(s@, from as int, close) == close_idx(s@, j as int, close),
        decreases n - j,
    {
        if s.get_char(j) == close {
            return Some(j);
        }
        j = j + 1;
    }
    None
}

/// Scans the whole line, appending the tokens it finds to `list`. On a
/// lexical fault the tokens scanned before the fault stay in `list`.
/// Scans the whole line, appending the tokens it finds to `list`. On a
/// lexical fault the tokens scanned before the fault stay in `list`.
pub fn scan_from_line(line: &String, list: &mut Vec<Token>) -> (r: Result<(), LoxError>)
    ensures
        toks_view(final(list)@) == toks_view(old(list)@) + scan_spec(line@, 0).0,
        r is Ok <==> scan_spec(line@, 0).1,
        r matches Err(e) ==> e.kind == ErrKind::Lex,
{
    let s: &str = line.as_str();
    let n = s.unicode_len();
    let ghost base = list@;
    let mut i: usize = 0;
    while i < n
        invariant
            i <= n,
            n == s@.len(),
            s@ == line@,
            base == old(list)@,
            base.len() <= list@.len(),
            toks_view(list@).take(base.len() as int) == toks_view(base),
            scan_spec(s@, 0).0 == toks_view(list@).skip(base.len() as int) + scan_spec(
                s@,
                i as int,
            ).0,
            scan_spec(s@, 0).1 == scan_spec(s@, i as int).1,
        decreases n - i,
    {
        let ghost iold = i as int;
        let c = s.get_char(i);
        if is_ws_char(c) {
            i = i + 1;
        } else if is_alpha_char(c) {
            proof {
                lemma_ident_end(s@, i as int);
            }
            let mut j = i + 1;
            while j < n && ident_at(s, j)
                invariant
                    i < j <= n,
                    n == s@.len(),
                    ident_end(s@, i as int) == ident_end(s@, j as int),
                decreases n - j,
            {
                j = j + 1;
            }
            assert(j == ident_end(s@, i as int));
            let word = s.substring_char(i, j).to_owned();
            let tok = token_of_word(word);
            let ghost before = list@;
            list.push(tok);
            i = j;
            proof {
                lemma_toks_view_push(before, tok, base);
                lemma_scan_push_step(s@, iold, i as int, tok@, toks_view(before).skip(
                    base.len() as int,
                ));
            }
        } else if is_digit_char(c) {
            proof {
                lemma_num_end(s@, i as int);
            }
            let mut j = i + 1;
            while j < n && num_at(s, j)
                invariant
                    i < j <= n,
                    n == s@.len(),
                    num_end(s@, i as int) == num_end(s@, j as int),
                decreases n - j,
            {
                j = j + 1;
            }
            assert(j == num_end(s@, i as int));
            let ghost run = s@.subrange(i as int, j as int);
            if j < n && is_alpha_char(s.get_char(j)) {
                proof {
                    assert(scan_spec(s@, i as int).0.len() == 0);
                    assert(!scan_spec(s@, i as int).1);
                    lemma_scan_err_wrapup(list@, base, s@, i as int);
                }
                return Err(LoxError::new(ErrKind::Lex, "letter inside a numeric literal"));
            }
            // reject a dot anywhere in the run: no decimal literals
            let mut k = i;
            while k < j
                invariant
                    i <= k <= j <= n,
                    n == s@.len(),
                    s@ == line@,
                    base == old(list)@,
                    i < j,
                    run == s@.subrange(i as int, j as int),
                    j == num_end(s@, i as int),
                    num_end(s@, i as int) <= s@.len(),
                    !(j < s@.len() && is_alpha_ch(s@[j as int])),
                    base.len() <= list@.len(),
                    toks_view(list@).take(base.len() as int) == toks_view(base),
                    scan_spec(s@, 0).0 == toks_view(list@).skip(base.len() as int) + scan_spec(
                        s@,
                        iold,
                    ).0,
                    scan_spec(s@, 0).1 == scan_spec(s@, iold).1,
                    iold == i as int,
                    is_digit_ch(s@[iold]),
                    !s@.subrange(i as int, k as int).contains('.'),
                decreases j - k,
            {
                let ghost prev = s@.subrange(i as int, k as int);
                if s.get_char(k) == '.' {
                    proof {
                        assert(run[k - i] == '.');
                        assert(run.contains('.'));
                        assert(scan_spec(s@, i as int).0.len() == 0);
                        assert(!scan_spec(s@, i as int).1);
                        lemma_scan_err_wrapup(list@, base, s@, i as int);
                    }
                    return Err(LoxError::new(ErrKind::Lex, "numeric literals are integers only"));
                }
                proof {
                    let cur = s@.subrange(i as int, k as int + 1);
                    assert forall|q: int| 0 <= q < cur.len() implies cur[q] != '.' by {
                        if q < k - i {
                            assert(prev[q] != '.');
                        }
                    }
                }
                k = k + 1;
            }
            proof {
                assert(s@.subrange(i as int, k as int) =~= run);
                assert(!run.contains('.'));
                assert forall|q: int| i <= q < j implies is_digit_ch(s@[q]) by {
                    assert(is_num_ch(s@[q]));
                    assert(run[q - i] == s@[q]);
                }
            }
            match parse_digits(s, i, j) {
                Some(v) => {
                    let tok = Token::Number(Number::Integer(v));
                    let ghost before = list@;
                    list.push(tok);
                    i = j;
                    proof {
                        lemma_toks_view_push(before, tok, base);
                        lemma_scan_push_step(s@, iold, i as int, tok@, toks_view(before).skip(
                            base.len() as int,
                        ));
                    }
                },
                None => {
                    proof {
                        assert(digits_val(run) > i64::MAX);
                        assert(scan_spec(s@, i as int).0.len() == 0);
                        assert(!scan_spec(s@, i as int).1);
                        lemma_scan_err_wrapup(list@, base, s@, i as int);
                    }
                    return Err(LoxError::new(ErrKind::Lex, "numeric literal out of range"));
                },
            }
        } else if c == '"' {
            match find_to_close(s, i + 1, '"') {
                Some(j) => {
                    proof {
                        lemma_close_idx(s@, i as int + 1, '"');
                    }
                    let text = s.substring_char(i + 1, j).to_owned();
                    let tok = Token::StringLit(text);
                    let ghost before = list@;
                    list.push(tok);
                    i = j + 1;
                    proof {
                        lemma_toks_view_push(before, tok, base);
                        lemma_scan_push_step(s@, iold, i as int, tok@, toks_view(before).skip(
                            base.len() as int,
                        ));
                    }
                },
                None => {
                    proof {
                        lemma_close_idx(s@, i as int + 1, '"');
                        assert(scan_spec(s@, i as int).0.len() == 0);
                        assert(!scan_spec(s@, i as int).1);
                        lemma_scan_err_wrapup(list@, base, s@, i as int);
                    }
                    return Err(LoxError::new(ErrKind::Lex, "string without a closing quote"));
                },
            }
        } else if (c == '!' || c == '=' || c == '<' || c == '>') && i + 1 < n && s.get_char(i + 1)
            == '=' {
            let tok = if c == '!' {
                Token::BangEqual
            } else if c == '=' {
                Token::EqualEqual
            } else if c == '<' {
                Token::LessEqual
            } else {
                Token::GreaterEqual
            };
            let ghost before = list@;
            list.push(tok);
            i = i + 2;
            proof {
                lemma_toks_view_push(before, tok, base);
                lemma_scan_push_step(s@, iold, i as int, tok@, toks_view(before).skip(
                    base.len() as int,
                ));
            }
        } else {
            let tok = if c == '(' {
                Some(Token::LeftParen)
            } else if c == ')' {
                Some(Token::RightParen)
            } else if c == '{' {
                Some(Token::LeftBrace)
            } else if c == '}' {
                Some(Token::RightBrace)
            } else if c == ',' {
                Some(Token::Comma)
            } else if c == '.' {
                Some(Token::Dot)
            } else if c == ';' {
                Some(Token::Semicolon)
            } else if c == '+' {
                Some(Token::Plus)
            } else if c == '-' {
                Some(Token::Minus)
            } else if c == '*' {
                Some(Token::Star)
            } else if c == '/' {
                Some(Token::Slash)
            } else if c == '!' {
                Some(Token::Bang)
            } else if c == '=' {
                Some(Token::Equal)
            } else if c == '<' {
                Some(Token::Less)
            } else if c == '>' {
                Some(Token::Greater)
            } else {
                None
            };
            match tok {
                Some(t) => {
                    let ghost before = list@;
                    list.push(t);
                    i = i + 1;
                    proof {
                        lemma_toks_view_push(before, t, base);
                        lemma_scan_push_step(s@, iold, i as int, t@, toks_view(before).skip(
                            base.len() as int,
                        ));
                    }
                },
                None => {
                    proof {
                        assert(single_tok(s@[i as int]) is None);
                        assert(scan_spec(s@, i as int).0.len() == 0);
                        assert(!scan_spec(s@, i as int).1);
                        lemma_scan_err_wrapup(list@, base, s@, i as int);
                    }
                    return Err(LoxError::new(ErrKind::Lex, "character outside the language"));
                },
            }
        }
    }
    proof {
        lemma_take_skip_toks(list@, base.len() as int);
        assert(toks_view(list@).skip(base.len() as int) + scan_spec(s@, i as int).0 =~= toks_view(
            list@,
        ).skip(base.len() as int));
    }
    Ok(())
}

/// A token sequence is its prefix followed by the rest.
proof fn lemma_take_skip_toks(l: Seq<Token>, m: int)
    requires
        0 <= m <= l.len(),
    ensures
        toks_view(l) =~= toks_view(l).take(m) + toks_view(l).skip(m),
{
}

/// Wraps up the loop invariant of the scanner at a fault: the tokens in the
/// buffer are exactly the prefix plus everything scanned so far.
proof fn lemma_scan_err_wrapup(l: Seq<Token>, base: Seq<Token>, s: Seq<char>, i: int)
    requires
        base.len() <= l.len(),
        toks_view(l).take(base.len() as int) == toks_view(base),
        scan_spec(s, 0).0 == toks_view(l).skip(base.len() as int) + scan_spec(s, i).0,
        scan_spec(s, i).0.len() == 0,
    ensures
        toks_view(l) == toks_view(base) + scan_spec(s, 0).0,
{
    lemma_take_skip_toks(l, base.len() as int);
    assert(toks_view(l).skip(base.len() as int) + scan_spec(s, i).0 =~= toks_view(l).skip(
        base.len() as int,
    ));
    assert(toks_view(base) + scan_spec(s, 0).0 =~= toks_view(l));
}

/// One scanner step produced one token: re-associates the appends that the
/// loop invariant needs.
proof fn lemma_scan_push_step(s: Seq<char>, iold: int, inew: int, t: SpecToken, skip: Seq<SpecToken>)
    requires
        scan_spec(s, iold).0 == seq![t] + scan_spec(s, inew).0,
        scan_spec(s, 0).0 == skip + scan_spec(s, iold).0,
    ensures
        scan_spec(s, 0).0 == skip.push(t) + scan_spec(s, inew).0,
{
    assert(skip + (seq![t] + scan_spec(s, inew).0) =~= skip.push(t) + scan_spec(s, inew).0);
}

proof fn lemma_toks_view_push(before: Seq<Token>, t: Token, base: Seq<Token>)
    requires
        base.len() <= before.len(),
        toks_view(before).take(base.len() as int) == toks_view(base),
    ensures
        toks_view(before.push(t)) =~= toks_view(before).push(t@),
        toks_view(before.push(t)).take(base.len() as int) =~= toks_view(base),
        toks_view(before.push(t)).skip(base.len() as int) =~= toks_view(before).skip(
            base.len() as int,
        ).push(t@),
{
    assert(toks_view(before.push(t)) =~= toks_view(before).push(t@));
    assert(toks_view(before).take(base.len() as int) =~= toks_view(base));
}

/// Scans a whole source string, appending to the parser's token buffer.
pub fn scan_from_string(code: &String, list: &mut Vec<Token>) -> (r: Result<(), LoxError>)
    ensures
        toks_view(final(list)@) == toks_view(old(list)@) + scan_spec(code@, 0).0,
        r is Ok <==> scan_spec(code@, 0).1,
        r matches Err(e) ==> e.kind == ErrKind::Lex,
{
    scan_from_line(code, list)
}

} // verus!
