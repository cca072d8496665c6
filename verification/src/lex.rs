//! The lexical layer: atomic tokens (identifiers, numbers, string literals,
//! punctuation) and the skip policy that discards whitespace and comments
//! between them.
//!
//! `lex_from` is the specification of tokenization; the executable lexer is
//! proved to return exactly the token sequence it describes, or to fail exactly
//! when it describes none.

use vstd::prelude::*;
use crate::text::{
    ch_is_digit,
    ch_is_ident_char,
    ch_is_letter,
    ch_is_space,
    ch_is_str_char,
    is_digit,
    is_ident_char,
    is_letter,
    is_space,
    is_str_char,
};

verus! {

/// A lexical token of the proto grammar.
///
/// A `StrLit` payload is the full lexeme including both quotes; the quotes are
/// stripped when the syntax tree is constructed, not here.
pub enum Token {
    Ident(Vec<char>),
    Number(Vec<char>),
    StrLit(Vec<char>),
    Sym(char),
}

/// The mathematical value of a token.
pub enum TokenView {
    Ident(Seq<char>),
    Number(Seq<char>),
    StrLit(Seq<char>),
    Sym(char),
}

impl View for Token {
    type V = TokenView;

    open spec fn view(&self) -> TokenView {
        match self {
            Token::Ident(v) => TokenView::Ident(v@),
            Token::Number(v) => TokenView::Number(v@),
            Token::StrLit(v) => TokenView::StrLit(v@),
            Token::Sym(c) => TokenView::Sym(*c),
        }
    }
}

/// The values of a token sequence.
pub open spec fn toks_view(ts: Seq<Token>) -> Seq<TokenView> {
    ts.map_values(|t: Token| t@)
}

/// A punctuation character of the grammar.
pub open spec fn is_sym(c: char) -> bool {
    c == ';' || c == '=' || c == '{' || c == '}' || c == '(' || c == ')' || c == '.'
}

pub(crate) fn ch_is_sym(c: char) -> (r: bool)
    ensures
        r == is_sym(c),
{
    c == ';' || c == '=' || c == '{' || c == '}' || c == '(' || c == ')' || c == '.'
}

/// The first index at or after `i` that does not continue an identifier.
pub open spec fn ident_end(s: Seq<char>, i: int) -> int
    decreases s.len() - i,
{
    if i < s.len() && is_ident_char(s[i]) {
        ident_end(s, i + 1)
    } else {
        i
    }
}

/// The first index at or after `i` that is not a decimal digit.
pub open spec fn digit_end(s: Seq<char>, i: int) -> int
    decreases s.len() - i,
{
    if i < s.len() && is_digit(s[i]) {
        digit_end(s, i + 1)
    } else {
        i
    }
}

/// The index just past the newline that ends a line comment, or the end of the
/// input.
pub open spec fn line_end(s: Seq<char>, i: int) -> int
    decreases s.len() - i,
{
    if i >= s.len() {
        s.len() as int
    } else if s[i] == '\n' {
        i + 1
    } else {
        line_end(s, i + 1)
    }
}

/// The index just past the `*/` that closes a block comment, or `None` when
/// the comment never closes.
pub open spec fn block_end(s: Seq<char>, i: int) -> Option<int>
    decreases s.len() - i,
{
    if i >= s.len() {
        None
    } else if s[i] == '*' && i + 1 < s.len() && s[i + 1] == '/' {
        Some(i + 2)
    } else {
        block_end(s, i + 1)
    }
}

/// The index of the quote closing a string literal whose contents start at
/// `i`, or `None` when a disallowed character or the end of the input comes
/// first.
pub open spec fn str_end(s: Seq<char>, i: int) -> Option<int>
    decreases s.len() - i,
{
    if i >= s.len() {
        None
    } else if s[i] == '"' {
        Some(i)
    } else if is_str_char(s[i]) {
        str_end(s, i + 1)
    } else {
        None
    }
}

pub proof fn lemma_ident_end_bounds(s: Seq<char>, i: int)
    ensures
        i <= ident_end(s, i),
        i <= s.len() ==> ident_end(s, i) <= s.len(),
        forall|k: int| i <= k < ident_end(s, i) ==> is_ident_char(#[trigger] s[k]),
    decreases s.len() - i,
{
    if i < s.len() && is_ident_char(s[i]) {
        lemma_ident_end_bounds(s, i + 1);
    }
}

pub proof fn lemma_digit_end_bounds(s: Seq<char>, i: int)
    ensures
        i <= digit_end(s, i),
        i <= s.len() ==> digit_end(s, i) <= s.len(),
        forall|k: int| i <= k < digit_end(s, i) ==> is_digit(#[trigger] s[k]),
    decreases s.len() - i,
{
    if i < s.len() && is_digit(s[i]) {
        lemma_digit_end_bounds(s, i + 1);
    }
}

pub proof fn lemma_line_end_bounds(s: Seq<char>, i: int)
    ensures
        i <= s.len() ==> i <= line_end(s, i) <= s.len(),
    decreases s.len() - i,
{
    if i < s.len() && s[i] != '\n' {
        lemma_line_end_bounds(s, i + 1);
    }
}

pub proof fn lemma_block_end_bounds(s: Seq<char>, i: int)
    ensures
        i <= s.len() ==> (block_end(s, i) matches Some(j) ==> i + 2 <= j <= s.len()),
    decreases s.len() - i,
{
    if i < s.len() && !(s[i] == '*' && i + 1 < s.len() && s[i + 1] == '/') {
        lemma_block_end_bounds(s, i + 1);
    }
}

pub proof fn lemma_str_end_bounds(s: Seq<char>, i: int)
    ensures
        i <= s.len() ==> (str_end(s, i) matches Some(j) ==> i <= j < s.len()),
        str_end(s, i) matches Some(j) ==> s[j] == '"' && forall|k: int|
            i <= k < j ==> is_str_char(#[trigger] s[k]),
    decreases s.len() - i,
{
    if i < s.len() && s[i] != '"' && is_str_char(s[i]) {
        lemma_str_end_bounds(s, i + 1);
    }
}

/// The first index at or after `i` that lies outside whitespace and comments,
/// or `None` when a block comment never closes.
pub open spec fn skip_ws(s: Seq<char>, i: int) -> Option<int>
    decreases s.len() - i,
{
    if i >= s.len() {
        Some(s.len() as int)
    } else if is_space(s[i]) {
        skip_ws(s, i + 1)
    } else if s[i] == '/' && i + 1 < s.len() && s[i + 1] == '/' {
        proof {
            lemma_line_end_bounds(s, i + 2);
        }
        skip_ws(s, line_end(s, i + 2))
    } else if s[i] == '/' && i + 1 < s.len() && s[i + 1] == '*' {
        match block_end(s, i + 2) {
            Some(j) => {
                proof {
                    lemma_block_end_bounds(s, i + 2);
                }
                skip_ws(s, j)
            },
            None => None,
        }
    } else {
        Some(i)
    }
}

pub proof fn lemma_skip_ws_bounds(s: Seq<char>, i: int)
    ensures
        skip_ws(s, i) matches Some(j) ==> j <= s.len(),
        0 <= i <= s.len() ==> (skip_ws(s, i) matches Some(j) ==> i <= j),
        i >= s.len() ==> skip_ws(s, i) == Some(s.len() as int),
    decreases s.len() - i,
{
    if i < s.len() {
        if is_space(s[i]) {
            lemma_skip_ws_bounds(s, i + 1);
        } else if s[i] == '/' && i + 1 < s.len() && s[i + 1] == '/' {
            lemma_line_end_bounds(s, i + 2);
            lemma_skip_ws_bounds(s, line_end(s, i + 2));
        } else if s[i] == '/' && i + 1 < s.len() && s[i + 1] == '*' {
            lemma_block_end_bounds(s, i + 2);
            if let Some(j) = block_end(s, i + 2) {
                lemma_skip_ws_bounds(s, j);
            }
        }
    }
}

pub proof fn lemma_ident_end_shift(s: Seq<char>, i: int, k: int)
    requires
        0 <= i <= k,
        i <= s.len(),
    ensures
        ident_end(s, k) == ident_end(s.skip(i), k - i) + i,
    decreases s.len() - k,
{
    if k < s.len() && is_ident_char(s[k]) {
        lemma_ident_end_shift(s, i, k + 1);
    }
}

pub proof fn lemma_digit_end_shift(s: Seq<char>, i: int, k: int)
    requires
        0 <= i <= k,
        i <= s.len(),
    ensures
        digit_end(s, k) == digit_end(s.skip(i), k - i) + i,
    decreases s.len() - k,
{
    if k < s.len() && is_digit(s[k]) {
        lemma_digit_end_shift(s, i, k + 1);
    }
}

pub proof fn lemma_line_end_shift(s: Seq<char>, i: int, k: int)
    requires
        0 <= i <= k,
        i <= s.len(),
    ensures
        line_end(s, k) == line_end(s.skip(i), k - i) + i,
    decreases s.len() - k,
{
    if k < s.len() && s[k] != '\n' {
        lemma_line_end_shift(s, i, k + 1);
    }
}

pub proof fn lemma_block_end_shift(s: Seq<char>, i: int, k: int)
    requires
        0 <= i <= k,
        i <= s.len(),
    ensures
        block_end(s, k) == match block_end(s.skip(i), k - i) {
            Some(j) => Some(j + i),
            None => None,
        },
    decreases s.len() - k,
{
    if k < s.len() && !(s[k] == '*' && k + 1 < s.len() && s[k + 1] == '/') {
        lemma_block_end_shift(s, i, k + 1);
    }
}

pub proof fn lemma_str_end_shift(s: Seq<char>, i: int, k: int)
    requires
        0 <= i <= k,
        i <= s.len(),
    ensures
        str_end(s, k) == match str_end(s.skip(i), k - i) {
            Some(j) => Some(j + i),
            None => None,
        },
    decreases s.len() - k,
{
    if k < s.len() && s[k] != '"' && is_str_char(s[k]) {
        lemma_str_end_shift(s, i, k + 1);
    }
}

pub proof fn lemma_skip_ws_shift(s: Seq<char>, i: int, k: int)
    requires
        0 <= i <= k,
        i <= s.len(),
    ensures
        skip_ws(s, k) == match skip_ws(s.skip(i), k - i) {
            Some(j) => Some(j + i),
            None => None,
        },
    decreases s.len() - k,
{
    if k < s.len() {
        if is_space(s[k]) {
            lemma_skip_ws_shift(s, i, k + 1);
        } else if s[k] == '/' && k + 1 < s.len() && s[k + 1] == '/' {
            lemma_line_end_bounds(s, k + 2);
            lemma_line_end_shift(s, i, k + 2);
            lemma_skip_ws_shift(s, i, line_end(s, k + 2));
        } else if s[k] == '/' && k + 1 < s.len() && s[k + 1] == '*' {
            lemma_block_end_bounds(s, k + 2);
            lemma_block_end_shift(s, i, k + 2);
            if let Some(j) = block_end(s, k + 2) {
                lemma_skip_ws_shift(s, i, j);
            }
        }
    }
}

/// Tokenization depends only on the text from the scan position on.
pub proof fn lemma_lex_shift(s: Seq<char>, i: int, k: int)
    requires
        0 <= i <= k,
        i <= s.len(),
    ensures
        lex_from(s, k) == lex_from(s.skip(i), k - i),
    decreases s.len() - k,
{
    let t = s.skip(i);
    lemma_skip_ws_shift(s, i, k);
    lemma_skip_ws_bounds(s, k);
    lemma_skip_ws_bounds(t, k - i);
    if let Some(j) = skip_ws(s, k) {
        if j < s.len() && j >= 0 {
            if is_letter(s[j]) {
                lemma_ident_end_bounds(s, j + 1);
                lemma_ident_end_shift(s, i, j);
                let e = ident_end(s, j);
                lemma_lex_shift(s, i, e);
                assert(s.subrange(j, e) =~= t.subrange(j - i, e - i));
            } else if is_digit(s[j]) {
                lemma_digit_end_bounds(s, j + 1);
                lemma_digit_end_shift(s, i, j);
                let e = digit_end(s, j);
                lemma_lex_shift(s, i, e);
                assert(s.subrange(j, e) =~= t.subrange(j - i, e - i));
            } else if s[j] == '"' {
                lemma_str_end_bounds(s, j + 1);
                lemma_str_end_shift(s, i, j + 1);
                if let Some(e) = str_end(s, j + 1) {
                    lemma_lex_shift(s, i, e + 1);
                    assert(s.subrange(j, e + 1) =~= t.subrange(j - i, e + 1 - i));
                }
            } else if is_sym(s[j]) {
                lemma_lex_shift(s, i, j + 1);
            }
        }
    }
}

/// Skipping is idempotent: the index where skipping stops starts no further
/// whitespace or comment.
pub proof fn lemma_skip_ws_idempotent(s: Seq<char>, i: int)
    ensures
        skip_ws(s, i) matches Some(j) ==> skip_ws(s, j) == Some(j),
    decreases s.len() - i,
{
    if i < s.len() {
        if is_space(s[i]) {
            lemma_skip_ws_idempotent(s, i + 1);
        } else if s[i] == '/' && i + 1 < s.len() && s[i + 1] == '/' {
            lemma_line_end_bounds(s, i + 2);
            lemma_skip_ws_idempotent(s, line_end(s, i + 2));
        } else if s[i] == '/' && i + 1 < s.len() && s[i + 1] == '*' {
            lemma_block_end_bounds(s, i + 2);
            if let Some(k) = block_end(s, i + 2) {
                lemma_skip_ws_idempotent(s, k);
            }
        }
    }
}

/// The token sequence of the input from index `i` on, or `None` when the text
/// does not scan: an unterminated comment or string literal, or a character
/// that starts no token.
pub open spec fn lex_from(s: Seq<char>, i: int) -> Option<Seq<TokenView>>
    decreases s.len() - i,
{
    match skip_ws(s, i) {
        None => None,
        Some(j) => {
            proof {
                lemma_skip_ws_bounds(s, i);
            }
            if j >= s.len() || j < 0 {
                Some(Seq::empty())
            } else if is_letter(s[j]) {
                proof {
                    lemma_ident_end_bounds(s, j + 1);
                }
                let e = ident_end(s, j);
                match lex_from(s, e) {
                    Some(rest) => Some(seq![TokenView::Ident(s.subrange(j, e))] + rest),
                    None => None,
                }
            } else if is_digit(s[j]) {
                proof {
                    lemma_digit_end_bounds(s, j + 1);
                }
                let e = digit_end(s, j);
                match lex_from(s, e) {
                    Some(rest) => Some(seq![TokenView::Number(s.subrange(j, e))] + rest),
                    None => None,
                }
            } else if s[j] == '"' {
                match str_end(s, j + 1) {
                    Some(e) => {
                        proof {
                            lemma_str_end_bounds(s, j + 1);
                        }
                        match lex_from(s, e + 1) {
                            Some(rest) => Some(
                                seq![TokenView::StrLit(s.subrange(j, e + 1))] + rest,
                            ),
                            None => None,
                        }
                    },
                    None => None,
                }
            } else if is_sym(s[j]) {
                match lex_from(s, j + 1) {
                    Some(rest) => Some(seq![TokenView::Sym(s[j])] + rest),
                    None => None,
                }
            } else {
                None
            }
        },
    }
}

/// The tokens of a whole input.
pub open spec fn spec_tokens(s: Seq<char>) -> Option<Seq<TokenView>> {
    lex_from(s, 0)
}

fn scan_ident_end(s: &Vec<char>, start: usize) -> (e: usize)
    requires
        start <= s@.len(),
    ensures
        e as int == ident_end(s@, start as int),
        start <= e <= s@.len(),
{
    let mut i: usize = start;
    while i < s.len() && ch_is_ident_char(s[i])
        invariant
            start <= i <= s@.len(),
            ident_end(s@, start as int) == ident_end(s@, i as int),
        decreases s@.len() - i,
    {
        i = i + 1;
    }
    i
}

fn scan_digit_end(s: &Vec<char>, start: usize) -> (e: usize)
    requires
        start <= s@.len(),
    ensures
        e as int == digit_end(s@, start as int),
        start <= e <= s@.len(),
{
    let mut i: usize = start;
    while i < s.len() && ch_is_digit(s[i])
        invariant
            start <= i <= s@.len(),
            digit_end(s@, start as int) == digit_end(s@, i as int),
        decreases s@.len() - i,
    {
        i = i + 1;
    }
    i
}

fn scan_line_end(s: &Vec<char>, start: usize) -> (e: usize)
    requires
        start <= s@.len(),
    ensures
        e as int == line_end(s@, start as int),
        start <= e <= s@.len(),
{
    let mut i: usize = start;
    while i < s.len() && s[i] != '\n'
        invariant
            start <= i <= s@.len(),
            line_end(s@, start as int) == line_end(s@, i as int),
        decreases s@.len() - i,
    {
        i = i + 1;
    }
    if i < s.len() {
        i + 1
    } else {
        i
    }
}

fn scan_block_end(s: &Vec<char>, start: usize) -> (e: Option<usize>)
    requires
        start <= s@.len(),
    ensures
        match e {
            Some(j) => block_end(s@, start as int) == Some(j as int) && start <= j <= s@.len(),
            None => block_end(s@, start as int) is None,
        },
{
    let mut i: usize = start;
    while i < s.len() && !(s[i] == '*' && i + 1 < s.len() && s[i + 1] == '/')
        invariant
            start <= i <= s@.len(),
            block_end(s@, start as int) == block_end(s@, i as int),
        decreases s@.len() - i,
    {
        i = i + 1;
    }
    if i < s.len() {
        proof {
            lemma_block_end_bounds(s@, start as int);
        }
        Some(i + 2)
    } else {
        None
    }
}

fn scan_str_end(s: &Vec<char>, start: usize) -> (e: Option<usize>)
    requires
        start <= s@.len(),
    ensures
        match e {
            Some(j) => str_end(s@, start as int) == Some(j as int) && start <= j < s@.len(),
            None => str_end(s@, start as int) is None,
        },
{
    let mut i: usize = start;
    while i < s.len() && s[i] != '"' && ch_is_str_char(s[i])
        invariant
            start <= i <= s@.len(),
            str_end(s@, start as int) == str_end(s@, i as int),
        decreases s@.len() - i,
    {
        i = i + 1;
    }
    if i < s.len() && s[i] == '"' {
        Some(i)
    } else {
        None
    }
}

fn exec_skip_ws(s: &Vec<char>, start: usize) -> (r: Result<usize, usize>)
    requires
        start <= s@.len(),
    ensures
        match r {
            Ok(j) => skip_ws(s@, start as int) == Some(j as int) && start <= j <= s@.len(),
            Err(_) => skip_ws(s@, start as int) is None,
        },
{
    let mut i: usize = start;
    loop
        invariant
            start <= i <= s@.len(),
            skip_ws(s@, start as int) == skip_ws(s@, i as int),
        decreases s@.len() - i,
    {
        if i >= s.len() {
            return Ok(i);
        }
        let c = s[i];
        if ch_is_space(c) {
            i = i + 1;
        } else if c == '/' && i + 1 < s.len() && s[i + 1] == '/' {
            i = scan_line_end(s, i + 2);
        } else if c == '/' && i + 1 < s.len() && s[i + 1] == '*' {
            match scan_block_end(s, i + 2) {
                Some(j) => {
                    i = j;
                },
                None => {
                    return Err(i);
                },
            }
        } else {
            return Ok(i);
        }
    }
}

/// Copies the characters of the half-open range `from..to`.
fn copy_range(s: &Vec<char>, from: usize, to: usize) -> (v: Vec<char>)
    requires
        from <= to <= s@.len(),
    ensures
        v@ == s@.subrange(from as int, to as int),
{
    let mut v: Vec<char> = Vec::new();
    let mut i: usize = from;
    while i < to
        invariant
            from <= i <= to <= s@.len(),
            v@ == s@.subrange(from as int, i as int),
        decreases to - i,
    {
        v.push(s[i]);
        proof {
            assert(s@.subrange(from as int, i as int).push(s@[i as int]) =~= s@.subrange(
                from as int,
                i + 1,
            ));
        }
        i = i + 1;
    }
    v
}

/// Tokenizes the input from index `i` on; an `Err` carries the offset of the
/// character where scanning got stuck.
pub(crate) fn lex_rec(s: &Vec<char>, i: usize) -> (r: Result<Vec<Token>, usize>)
    requires
        i <= s@.len(),
    ensures
        match r {
            Ok(v) => lex_from(s@, i as int) == Some(toks_view(v@)),
            Err(_) => lex_from(s@, i as int) is None,
        },
    decreases s@.len() - i,
{
    let j = match exec_skip_ws(s, i) {
        Ok(j) => j,
        Err(p) => {
            return Err(p);
        },
    };
    if j >= s.len() {
        let v: Vec<Token> = Vec::new();
        proof {
            assert(toks_view(v@) =~= Seq::<TokenView>::empty());
        }
        return Ok(v);
    }
    let c = s[j];
    if ch_is_letter(c) {
        let e = scan_ident_end(s, j);
        proof {
            lemma_ident_end_bounds(s@, j + 1);
        }
        let payload = copy_range(s, j, e);
        match lex_rec(s, e) {
            Ok(mut rest) => {
                let tok = Token::Ident(payload);
                rest.insert(0, tok);
                proof {
                    assert(toks_view(rest@) =~= seq![TokenView::Ident(
                        s@.subrange(j as int, e as int),
                    )] + toks_view(rest@.drop_first()));
                }
                Ok(rest)
            },
            Err(p) => Err(p),
        }
    } else if ch_is_digit(c) {
        let e = scan_digit_end(s, j);
        proof {
            lemma_digit_end_bounds(s@, j + 1);
        }
        let payload = copy_range(s, j, e);
        match lex_rec(s, e) {
            Ok(mut rest) => {
                let tok = Token::Number(payload);
                rest.insert(0, tok);
                proof {
                    assert(toks_view(rest@) =~= seq![TokenView::Number(
                        s@.subrange(j as int, e as int),
                    )] + toks_view(rest@.drop_first()));
                }
                Ok(rest)
            },
            Err(p) => Err(p),
        }
    } else if c == '"' {
        match scan_str_end(s, j + 1) {
            Some(e) => {
                let payload = copy_range(s, j, e + 1);
                match lex_rec(s, e + 1) {
                    Ok(mut rest) => {
                        let tok = Token::StrLit(payload);
                        rest.insert(0, tok);
                        proof {
                            assert(toks_view(rest@) =~= seq![TokenView::StrLit(
                                s@.subrange(j as int, e + 1),
                            )] + toks_view(rest@.drop_first()));
                        }
                        Ok(rest)
                    },
                    Err(p) => Err(p),
                }
            },
            None => Err(j),
        }
    } else if ch_is_sym(c) {
        match lex_rec(s, j + 1) {
            Ok(mut rest) => {
                let tok = Token::Sym(c);
                rest.insert(0, tok);
                proof {
                    assert(toks_view(rest@) =~= seq![TokenView::Sym(s@[j as int])] + toks_view(
                        rest@.drop_first(),
                    ));
                }
                Ok(rest)
            },
            Err(p) => Err(p),
        }
    } else {
        Err(j)
    }
}

/// Tokenizes a whole input.
pub(crate) fn tokenize(s: &Vec<char>) -> (r: Result<Vec<Token>, usize>)
    ensures
        match r {
            Ok(v) => spec_tokens(s@) == Some(toks_view(v@)),
            Err(_) => spec_tokens(s@) is None,
        },
{
    lex_rec(s, 0)
}

} // verus!
