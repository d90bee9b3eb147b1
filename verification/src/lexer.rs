//! Splits SysY source text into tokens.
use vstd::prelude::*;

verus! {

/// A lexical token of SysY.
pub enum Token {
    KwInt,
    KwVoid,
    KwConst,
    KwIf,
    KwElse,
    KwWhile,
    KwBreak,
    KwContinue,
    KwReturn,
    KwExtern,
    Ident(String),
    IntLit(i32),
    LParen,
    RParen,
    LBrace,
    RBrace,
    LBracket,
    RBracket,
    Comma,
    Semi,
    Assign,
    Plus,
    Minus,
    Star,
    Slash,
    Percent,
    Not,
    Lt,
    Gt,
    Le,
    Ge,
    EqEq,
    Ne,
    AndAnd,
    OrOr,
    PlusPlus,
    MinusMinus,
}

/// Why the source text could not be split into tokens.
#[derive(Debug, PartialEq, Eq)]
pub enum LexError {
    /// A character that starts no token, at the given character index.
    UnexpectedChar(usize),
    /// A `/*` comment without its closing `*/`, opened at the given index.
    UnterminatedComment(usize),
    /// An integer literal whose value exceeds `i32::MAX`, at the given index.
    IntegerTooLarge(usize),
}

pub open spec fn is_space(c: char) -> bool {
    c == ' ' || c == '\t' || c == '\n' || c == '\r'
}

pub open spec fn is_alpha(c: char) -> bool {
    ('a' <= c && c <= 'z') || ('A' <= c && c <= 'Z') || c == '_'
}

pub open spec fn is_dec_digit(c: char) -> bool {
    '0' <= c && c <= '9'
}

pub open spec fn is_ident_char(c: char) -> bool {
    is_alpha(c) || is_dec_digit(c)
}

/// The value of a hexadecimal digit character (16 for any other character).
pub open spec fn digit_value(c: char) -> int {
    if '0' <= c && c <= '9' {
        c as int - '0' as int
    } else if 'a' <= c && c <= 'f' {
        c as int - 'a' as int + 10
    } else if 'A' <= c && c <= 'F' {
        c as int - 'A' as int + 10
    } else {
        16
    }
}

pub open spec fn all_digits(s: Seq<char>, base: int) -> bool {
    forall|i: int| 0 <= i < s.len() ==> #[trigger] digit_value(s[i]) < base
}

/// The number that a string of digits denotes in the given base.
pub open spec fn digits_value(s: Seq<char>, base: int) -> int
    decreases s.len(),
{
    if s.len() == 0 {
        0
    } else {
        digits_value(s.drop_last(), base) * base + digit_value(s.last())
    }
}

/// The value of an integer literal: hexadecimal after `0x`/`0X`, octal when
/// it starts with `0`, decimal otherwise.
pub open spec fn literal_value(s: Seq<char>) -> Option<int> {
    if s.len() > 2 && s[0] == '0' && (s[1] == 'x' || s[1] == 'X') && all_digits(s.subrange(2, s.len() as int), 16) {
        Some(digits_value(s.subrange(2, s.len() as int), 16))
    } else if s.len() >= 1 && s[0] == '0' && all_digits(s, 8) {
        Some(digits_value(s, 8))
    } else if s.len() >= 1 && s[0] != '0' && all_digits(s, 10) {
        Some(digits_value(s, 10))
    } else {
        None
    }
}

pub open spec fn is_keyword_text(s: Seq<char>) -> bool {
    s == seq!['i', 'n', 't'] || s == seq!['v', 'o', 'i', 'd'] || s == seq!['c', 'o', 'n', 's', 't'] || s == seq!['i', 'f'] || s == seq!['e', 'l', 's', 'e'] || s == seq!['w', 'h', 'i', 'l', 'e']
        || s == seq!['b', 'r', 'e', 'a', 'k'] || s == seq!['c', 'o', 'n', 't', 'i', 'n', 'u', 'e'] || s == seq!['r', 'e', 't', 'u', 'r', 'n'] || s == seq!['e', 'x', 't', 'e', 'r', 'n']
}

pub open spec fn is_ident_text(s: Seq<char>) -> bool {
    &&& s.len() > 0
    &&& is_alpha(s[0])
    &&& forall|i: int| 0 <= i < s.len() ==> #[trigger] is_ident_char(s[i])
    &&& !is_keyword_text(s)
}

/// The text of a keyword or punctuation token.
pub open spec fn fixed_text(t: Token) -> Seq<char> {
    match t {
        Token::KwInt => seq!['i', 'n', 't'],
        Token::KwVoid => seq!['v', 'o', 'i', 'd'],
        Token::KwConst => seq!['c', 'o', 'n', 's', 't'],
        Token::KwIf => seq!['i', 'f'],
        Token::KwElse => seq!['e', 'l', 's', 'e'],
        Token::KwWhile => seq!['w', 'h', 'i', 'l', 'e'],
        Token::KwBreak => seq!['b', 'r', 'e', 'a', 'k'],
        Token::KwContinue => seq!['c', 'o', 'n', 't', 'i', 'n', 'u', 'e'],
        Token::KwReturn => seq!['r', 'e', 't', 'u', 'r', 'n'],
        Token::KwExtern => seq!['e', 'x', 't', 'e', 'r', 'n'],
        Token::Ident(_) => Seq::empty(),
        Token::IntLit(_) => Seq::empty(),
        Token::LParen => seq!['('],
        Token::RParen => seq![')'],
        Token::LBrace => seq!['{'],
        Token::RBrace => seq!['}'],
        Token::LBracket => seq!['['],
        Token::RBracket => seq![']'],
        Token::Comma => seq![','],
        Token::Semi => seq![';'],
        Token::Assign => seq!['='],
        Token::Plus => seq!['+'],
        Token::Minus => seq!['-'],
        Token::Star => seq!['*'],
        Token::Slash => seq!['/'],
        Token::Percent => seq!['%'],
        Token::Not => seq!['!'],
        Token::Lt => seq!['<'],
        Token::Gt => seq!['>'],
        Token::Le => seq!['<', '='],
        Token::Ge => seq!['>', '='],
        Token::EqEq => seq!['=', '='],
        Token::Ne => seq!['!', '='],
        Token::AndAnd => seq!['&', '&'],
        Token::OrOr => seq!['|', '|'],
        Token::PlusPlus => seq!['+', '+'],
        Token::MinusMinus => seq!['-', '-'],
    }
}

/// `s` is a spelling of the token `t`.
pub open spec fn lexeme(s: Seq<char>, t: Token) -> bool {
    match t {
        Token::Ident(name) => name@ == s && is_ident_text(s),
        Token::IntLit(v) => literal_value(s) == Some(v as int),
        _ => s == fixed_text(t),
    }
}

/// Length of a line comment's body (after `//`): up to and including the
/// first newline, or to the end of the text.
pub open spec fn line_comment_rest(s: Seq<char>) -> nat
    decreases s.len(),
{
    if s.len() == 0 {
        0
    } else if s[0] == '\n' {
        1
    } else {
        1 + line_comment_rest(s.drop_first())
    }
}

/// Length of a block comment's body (after `/*`): up to and including the
/// first `*/`; `None` when there is none.
pub open spec fn block_comment_rest(s: Seq<char>) -> Option<nat>
    decreases s.len(),
{
    if s.len() < 2 {
        None
    } else if s[0] == '*' && s[1] == '/' {
        Some(2)
    } else {
        match block_comment_rest(s.drop_first()) {
            Some(k) => Some(k + 1),
            None => None,
        }
    }
}

/// Length of the comment that `s` starts with, if it starts with one.
pub open spec fn comment_len(s: Seq<char>) -> Option<nat> {
    if s.len() >= 2 && s[0] == '/' && s[1] == '/' {
        Some(2 + line_comment_rest(s.subrange(2, s.len() as int)))
    } else if s.len() >= 2 && s[0] == '/' && s[1] == '*' {
        match block_comment_rest(s.subrange(2, s.len() as int)) {
            Some(k) => Some(2 + k),
            None => None,
        }
    } else {
        None
    }
}

/// `s` consists of white space and comments only.
pub open spec fn is_trivia(s: Seq<char>) -> bool
    decreases s.len(),
{
    if s.len() == 0 {
        true
    } else if is_space(s[0]) {
        is_trivia(s.drop_first())
    } else {
        match comment_len(s) {
            Some(k) => if 0 < k <= s.len() {
                is_trivia(s.subrange(k as int, s.len() as int))
            } else {
                false
            },
            None => false,
        }
    }
}

/// End of the text before token `i` (the end of token `i - 1`, or 0).
pub open spec fn gap_start(spans: Seq<(usize, usize)>, i: int) -> int {
    if i == 0 { 0 } else { spans[i - 1].1 as int }
}

/// A token that starts with a letter takes every identifier character that
/// follows it: `intx` is one identifier, never `int` and `x`.
pub open spec fn words_maximal(src: Seq<char>, spans: Seq<(usize, usize)>) -> bool {
    forall|i: int| 0 <= i < spans.len() && is_alpha(src[(#[trigger] spans[i]).0 as int])
        ==> spans[i].1 == src.len() || !is_ident_char(src[spans[i].1 as int])
}

/// `toks`, at the character ranges `spans`, is a tokenization of `src`:
/// each token is spelled by its range, the ranges come in order, the text
/// around them is white space and comments, and words are taken whole.
pub open spec fn lexed_from(src: Seq<char>, toks: Seq<Token>, spans: Seq<(usize, usize)>) -> bool {
    &&& toks.len() == spans.len()
    &&& words_maximal(src, spans)
    &&& forall|i: int| 0 <= i < spans.len() ==> {
        &&& gap_start(spans, i) <= (#[trigger] spans[i]).0 < spans[i].1 <= src.len()
        &&& lexeme(src.subrange(spans[i].0 as int, spans[i].1 as int), toks[i])
        &&& is_trivia(src.subrange(gap_start(spans, i), spans[i].0 as int))
    }
    &&& gap_start(spans, spans.len() as int) <= src.len()
    &&& is_trivia(src.subrange(gap_start(spans, spans.len() as int), src.len() as int))
}

/// The characters of a string slice (`str::chars` collected).
#[verifier::external_body]
pub(crate) fn chars_of(s: &str) -> (v: Vec<char>)
    ensures
        v@ == s@,
{
    s.chars().collect()
}

proof fn lemma_line_rest_bounds(s: Seq<char>)
    ensures
        line_comment_rest(s) <= s.len(),
    decreases s.len(),
{
    if s.len() > 0 && s[0] != '\n' {
        lemma_line_rest_bounds(s.drop_first());
    }
}

proof fn lemma_line_rest_prefix(t: Seq<char>, m: int)
    requires
        line_comment_rest(t) <= m <= t.len(),
    ensures
        line_comment_rest(t.subrange(0, m)) == line_comment_rest(t),
    decreases t.len(),
{
    if t.len() > 0 && t[0] != '\n' {
        assert(t.subrange(0, m).drop_first() =~= t.drop_first().subrange(0, m - 1));
        lemma_line_rest_prefix(t.drop_first(), m - 1);
    }
}

proof fn lemma_block_rest_prefix(t: Seq<char>, m: int)
    requires
        block_comment_rest(t) matches Some(k) && k <= m <= t.len(),
    ensures
        block_comment_rest(t.subrange(0, m)) == block_comment_rest(t),
    decreases t.len(),
{
    if !(t[0] == '*' && t[1] == '/') {
        assert(t.subrange(0, m).drop_first() =~= t.drop_first().subrange(0, m - 1));
        lemma_block_rest_prefix(t.drop_first(), m - 1);
    }
}

proof fn lemma_block_rest_bounds(s: Seq<char>)
    ensures
        block_comment_rest(s) matches Some(k) ==> 2 <= k <= s.len(),
    decreases s.len(),
{
    if s.len() >= 2 && !(s[0] == '*' && s[1] == '/') {
        lemma_block_rest_bounds(s.drop_first());
    }
}

/// A comment found at the start of a longer text is found, with the same
/// length, at the start of any prefix that still holds it.
proof fn lemma_comment_prefix(t: Seq<char>, m: int)
    requires
        comment_len(t) matches Some(k) && k <= m <= t.len(),
    ensures
        comment_len(t.subrange(0, m)) == comment_len(t),
{
    let g = t.subrange(0, m);
    let tb = t.subrange(2, t.len() as int);
    assert(g.subrange(2, g.len() as int) =~= tb.subrange(0, m - 2));
    if t[1] == '/' {
        lemma_line_rest_prefix(tb, m - 2);
    } else {
        lemma_block_rest_prefix(tb, m - 2);
    }
}

/// Length of the line comment body starting at `pos` (after `//`).
fn scan_line_comment(src: &Vec<char>, pos: usize) -> (end: usize)
    requires
        pos <= src.len(),
    ensures
        end == pos + line_comment_rest(src@.subrange(pos as int, src.len() as int)),
        end <= src.len(),
{
    let mut i = pos;
    while i < src.len() && src[i] != '\n'
        invariant
            pos <= i <= src.len(),
            line_comment_rest(src@.subrange(pos as int, src.len() as int))
                == (i - pos) + line_comment_rest(src@.subrange(i as int, src.len() as int)),
        decreases src.len() - i,
    {
        assert(src@.subrange(i as int, src.len() as int).drop_first() =~= src@.subrange(i + 1, src.len() as int));
        i = i + 1;
    }
    if i < src.len() {
        i = i + 1;
    }
    i
}

/// End of the block comment body starting at `pos` (after `/*`), if closed.
fn scan_block_comment(src: &Vec<char>, pos: usize) -> (end: Option<usize>)
    requires
        pos <= src.len(),
    ensures
        match block_comment_rest(src@.subrange(pos as int, src.len() as int)) {
            Some(k) => end == Some((pos + k) as usize),
            None => end is None,
        },
{
    let mut i = pos;
    while i < src.len() && i + 1 < src.len() && !(src[i] == '*' && src[i + 1] == '/')
        invariant
            pos <= i <= src.len(),
            block_comment_rest(src@.subrange(pos as int, src.len() as int)) == match block_comment_rest(src@.subrange(i as int, src.len() as int)) {
                Some(k) => Some((k + (i - pos)) as nat),
                None => None::<nat>,
            },
        decreases src.len() - i,
    {
        assert(src@.subrange(i as int, src.len() as int).drop_first() =~= src@.subrange(i + 1, src.len() as int));
        i = i + 1;
    }
    if i < src.len() && i + 1 < src.len() {
        Some(i + 2)
    } else {
        None
    }
}

/// Skips white space and comments from `pos`.
fn skip_trivia(src: &Vec<char>, pos: usize) -> (r: Result<usize, LexError>)
    requires
        pos <= src.len(),
    ensures
        r matches Ok(p) ==> pos <= p <= src.len() && is_trivia(src@.subrange(pos as int, p as int)),
{
    let len = src.len();
    let mut i = pos;
    loop
        invariant
            pos <= i <= len,
            len == src.len(),
            forall|p: int| i <= p <= len && is_trivia(#[trigger] src@.subrange(i as int, p)) ==> is_trivia(src@.subrange(pos as int, p)),
        decreases len - i,
    {
        if i < len && (src[i] == ' ' || src[i] == '\t' || src[i] == '\n' || src[i] == '\r') {
            assert forall|p: int| i + 1 <= p <= len && is_trivia(#[trigger] src@.subrange(i + 1, p)) implies is_trivia(src@.subrange(pos as int, p)) by {
                let g = src@.subrange(i as int, p);
                assert(g.drop_first() =~= src@.subrange(i + 1, p));
                assert(is_trivia(g));
            }
            i = i + 1;
        } else if i < len && i + 1 < len && src[i] == '/' && (src[i + 1] == '/' || src[i + 1] == '*') {
            let ghost t = src@.subrange(i as int, len as int);
            assert(t.subrange(2, t.len() as int) =~= src@.subrange(i + 2, len as int));
            let end = if src[i + 1] == '/' {
                proof { lemma_line_rest_bounds(src@.subrange(i + 2, len as int)); }
                scan_line_comment(src, i + 2)
            } else {
                proof { lemma_block_rest_bounds(src@.subrange(i + 2, len as int)); }
                match scan_block_comment(src, i + 2) {
                    Some(e) => e,
                    None => { return Err(LexError::UnterminatedComment(i)); }
                }
            };
            assert(comment_len(t) == Some((end - i) as nat));
            assert forall|p: int| end <= p <= len && is_trivia(#[trigger] src@.subrange(end as int, p)) implies is_trivia(src@.subrange(pos as int, p)) by {
                let g = src@.subrange(i as int, p);
                assert(t.subrange(0, p - i) =~= g);
                lemma_comment_prefix(t, p - i);
                assert(g.subrange((end - i) as int, g.len() as int) =~= src@.subrange(end as int, p));
                assert(!is_space(g[0]));
                assert(is_trivia(g));
            }
            i = end;
        } else {
            assert(is_trivia(src@.subrange(i as int, i as int)));
            return Ok(i);
        }
    }
}


fn is_space_exec(c: char) -> (b: bool)
    ensures
        b == is_space(c),
{
    c == ' ' || c == '\t' || c == '\n' || c == '\r'
}

fn is_alpha_exec(c: char) -> (b: bool)
    ensures
        b == is_alpha(c),
{
    ('a' <= c && c <= 'z') || ('A' <= c && c <= 'Z') || c == '_'
}

fn is_ident_char_exec(c: char) -> (b: bool)
    ensures
        b == is_ident_char(c),
{
    is_alpha_exec(c) || ('0' <= c && c <= '9')
}

fn digit_value_exec(c: char) -> (v: u32)
    ensures
        v as int == digit_value(c),
        v <= 16,
{
    if '0' <= c && c <= '9' {
        (c as u32) - ('0' as u32)
    } else if 'a' <= c && c <= 'f' {
        (c as u32) - ('a' as u32) + 10
    } else if 'A' <= c && c <= 'F' {
        (c as u32) - ('A' as u32) + 10
    } else {
        16
    }
}

/// The keyword spelled by `src[start..end]`, if it is one.
fn keyword_at(src: &Vec<char>, start: usize, end: usize) -> (r: Option<Token>)
    requires
        start <= end <= src.len(),
    ensures
        r matches Some(t) ==> lexeme(src@.subrange(start as int, end as int), t) && !(t is Ident) && !(t is IntLit),
        r is None ==> !is_keyword_text(src@.subrange(start as int, end as int)),
{
    let ghost s = src@.subrange(start as int, end as int);
    let n = end - start;
    let c0 = if n > 0 { src[start] } else { ' ' };
    let c1 = if n > 1 { src[start + 1] } else { ' ' };
    let c2 = if n > 2 { src[start + 2] } else { ' ' };
    let c3 = if n > 3 { src[start + 3] } else { ' ' };
    let c4 = if n > 4 { src[start + 4] } else { ' ' };
    let c5 = if n > 5 { src[start + 5] } else { ' ' };
    let c6 = if n > 6 { src[start + 6] } else { ' ' };
    let c7 = if n > 7 { src[start + 7] } else { ' ' };
    assert(n > 0 ==> c0 == s[0]);
    assert(n > 1 ==> c1 == s[1]);
    assert(n > 2 ==> c2 == s[2]);
    assert(n > 3 ==> c3 == s[3]);
    assert(n > 4 ==> c4 == s[4]);
    assert(n > 5 ==> c5 == s[5]);
    assert(n > 6 ==> c6 == s[6]);
    assert(n > 7 ==> c7 == s[7]);
    let r = if n == 3 && c0 == 'i' && c1 == 'n' && c2 == 't' {
        Some(Token::KwInt)
    } else if n == 4 && c0 == 'v' && c1 == 'o' && c2 == 'i' && c3 == 'd' {
        Some(Token::KwVoid)
    } else if n == 5 && c0 == 'c' && c1 == 'o' && c2 == 'n' && c3 == 's' && c4 == 't' {
        Some(Token::KwConst)
    } else if n == 2 && c0 == 'i' && c1 == 'f' {
        Some(Token::KwIf)
    } else if n == 4 && c0 == 'e' && c1 == 'l' && c2 == 's' && c3 == 'e' {
        Some(Token::KwElse)
    } else if n == 5 && c0 == 'w' && c1 == 'h' && c2 == 'i' && c3 == 'l' && c4 == 'e' {
        Some(Token::KwWhile)
    } else if n == 5 && c0 == 'b' && c1 == 'r' && c2 == 'e' && c3 == 'a' && c4 == 'k' {
        Some(Token::KwBreak)
    } else if n == 8 && c0 == 'c' && c1 == 'o' && c2 == 'n' && c3 == 't' && c4 == 'i' && c5 == 'n'
        && c6 == 'u' && c7 == 'e' {
        Some(Token::KwContinue)
    } else if n == 6 && c0 == 'r' && c1 == 'e' && c2 == 't' && c3 == 'u' && c4 == 'r' && c5 == 'n' {
        Some(Token::KwReturn)
    } else if n == 6 && c0 == 'e' && c1 == 'x' && c2 == 't' && c3 == 'e' && c4 == 'r' && c5 == 'n' {
        Some(Token::KwExtern)
    } else {
        None
    };
    proof {
        if r is Some {
            assert(s =~= fixed_text(r.unwrap()));
        } else {
            if is_keyword_text(s) {
                assert(s.len() == n);
                assert(false);
            }
        }
    }
    r
}

/// The string made of `src[start..end]`.
fn string_of(src: &Vec<char>, start: usize, end: usize) -> (s: String)
    requires
        start <= end <= src.len(),
    ensures
        s@ == src@.subrange(start as int, end as int),
{
    let mut s = String::new();
    let mut i = start;
    while i < end
        invariant
            start <= i <= end <= src.len(),
            s@ == src@.subrange(start as int, i as int),
        decreases end - i,
    {
        crate::text::push_char(&mut s, src[i]);
        assert(s@ =~= src@.subrange(start as int, i + 1));
        i = i + 1;
    }
    s
}

/// Scans an identifier or keyword starting at `pos`.
fn scan_word(src: &Vec<char>, pos: usize) -> (r: (Token, usize))
    requires
        pos < src.len(),
        is_alpha(src@[pos as int]),
    ensures
        pos < r.1 <= src.len(),
        lexeme(src@.subrange(pos as int, r.1 as int), r.0),
        r.1 == src.len() || !is_ident_char(src@[r.1 as int]),
{
    let mut i = pos + 1;
    while i < src.len() && is_ident_char_exec(src[i])
        invariant
            pos < i <= src.len(),
            is_alpha(src@[pos as int]),
            forall|j: int| pos <= j < i ==> #[trigger] is_ident_char(src@[j]),
        decreases src.len() - i,
    {
        i = i + 1;
    }
    let ghost s = src@.subrange(pos as int, i as int);
    assert forall|j: int| 0 <= j < s.len() implies #[trigger] is_ident_char(s[j]) by {
        assert(s[j] == src@[pos + j]);
    }
    match keyword_at(src, pos, i) {
        Some(t) => (t, i),
        None => {
            let name = string_of(src, pos, i);
            (Token::Ident(name), i)
        },
    }
}

proof fn lemma_digits_step(s: Seq<char>, start: int, i: int, base: int)
    requires
        0 <= start <= i < s.len(),
    ensures
        digits_value(s.subrange(start, i + 1), base) == digits_value(s.subrange(start, i), base) * base + digit_value(s[i]),
{
    assert(s.subrange(start, i + 1).drop_last() =~= s.subrange(start, i));
}

/// Scans digits of the given base from `start`, accumulating their value.
fn scan_digits(src: &Vec<char>, start: usize, base: u32) -> (r: Result<(i32, usize), LexError>)
    requires
        start <= src.len(),
        2 <= base <= 16,
    ensures
        r matches Ok((v, e)) ==> {
            &&& start <= e <= src.len()
            &&& all_digits(src@.subrange(start as int, e as int), base as int)
            &&& v as int == digits_value(src@.subrange(start as int, e as int), base as int)
            &&& (e == src.len() || digit_value(src@[e as int]) >= base)
        },
{
    let mut value: i64 = 0;
    let mut i = start;
    assert(src@.subrange(start as int, start as int).len() == 0);
    while i < src.len() && digit_value_exec(src[i]) < base
        invariant
            start <= i <= src.len(),
            2 <= base <= 16,
            0 <= value <= 2147483647,
            all_digits(src@.subrange(start as int, i as int), base as int),
            value as int == digits_value(src@.subrange(start as int, i as int), base as int),
        decreases src.len() - i,
    {
        let d = digit_value_exec(src[i]);
        assert(value * (base as i64) <= 2147483647 * 16) by (nonlinear_arith)
            requires 0 <= value <= 2147483647, base <= 16;
        assert(value * (base as i64) >= 0) by (nonlinear_arith)
            requires 0 <= value, base >= 2;
        let next = value * (base as i64) + (d as i64);
        proof {
            lemma_digits_step(src@, start as int, i as int, base as int);
        }
        if next > 2147483647 {
            return Err(LexError::IntegerTooLarge(start));
        }
        value = next;
        assert forall|j: int| 0 <= j < i + 1 - start implies #[trigger] digit_value(src@.subrange(start as int, i + 1)[j]) < base by {
            if j < i - start {
                assert(src@.subrange(start as int, i + 1)[j] == src@.subrange(start as int, i as int)[j]);
            }
        }
        i = i + 1;
    }
    Ok((value as i32, i))
}

/// Scans an integer literal starting at `pos`.
fn scan_number(src: &Vec<char>, pos: usize) -> (r: Result<(Token, usize), LexError>)
    requires
        pos < src.len(),
        is_dec_digit(src@[pos as int]),
    ensures
        r matches Ok((t, e)) ==> pos < e <= src.len() && lexeme(src@.subrange(pos as int, e as int), t),
{
    let len = src.len();
    if src[pos] == '0' && len - pos > 2 && (src[pos + 1] == 'x' || src[pos + 1] == 'X')
        && digit_value_exec(src[pos + 2]) < 16 {
        let (v, e) = scan_digits(src, pos + 2, 16)?;
        let ghost s = src@.subrange(pos as int, e as int);
        assert(s.subrange(2, s.len() as int) =~= src@.subrange(pos + 2, e as int));
        Ok((Token::IntLit(v), e))
    } else if src[pos] == '0' {
        let (v, e) = scan_digits(src, pos, 8)?;
        let ghost s = src@.subrange(pos as int, e as int);
        assert(s.len() >= 1) by {
            if e == pos {
                assert(digit_value(src@[pos as int]) == 0);
            }
        }
        assert(s[0] == '0');
        assert(!(s.len() > 2 && s[0] == '0' && (s[1] == 'x' || s[1] == 'X') && all_digits(s.subrange(2, s.len() as int), 16))) by {
            if s.len() > 2 && (s[1] == 'x' || s[1] == 'X') {
                assert(digit_value(s[1]) < 8);
            }
        }
        Ok((Token::IntLit(v), e))
    } else {
        let (v, e) = scan_digits(src, pos, 10)?;
        let ghost s = src@.subrange(pos as int, e as int);
        assert(s.len() >= 1) by {
            if e == pos {
                assert(digit_value(src@[pos as int]) < 10);
            }
        }
        assert(s[0] == src@[pos as int]);
        Ok((Token::IntLit(v), e))
    }
}

/// Scans a punctuation token starting at `pos`.
fn scan_punct(src: &Vec<char>, pos: usize) -> (r: Option<(Token, usize)>)
    requires
        pos < src.len(),
    ensures
        r matches Some((t, e)) ==> pos < e <= src.len() && lexeme(src@.subrange(pos as int, e as int), t)
            && !(t is Ident) && !(t is IntLit),
{
    let c = src[pos];
    let d = if pos + 1 < src.len() { src[pos + 1] } else { ' ' };
    let two = if c == '<' && d == '=' {
        Some(Token::Le)
    } else if c == '>' && d == '=' {
        Some(Token::Ge)
    } else if c == '=' && d == '=' {
        Some(Token::EqEq)
    } else if c == '!' && d == '=' {
        Some(Token::Ne)
    } else if c == '&' && d == '&' {
        Some(Token::AndAnd)
    } else if c == '|' && d == '|' {
        Some(Token::OrOr)
    } else if c == '+' && d == '+' {
        Some(Token::PlusPlus)
    } else if c == '-' && d == '-' {
        Some(Token::MinusMinus)
    } else {
        None
    };
    if let Some(t) = two {
        assert(pos + 1 < src.len());
        assert(src@.subrange(pos as int, pos + 2) =~= fixed_text(t));
        return Some((t, pos + 2));
    }
    let one = if c == '(' {
        Some(Token::LParen)
    } else if c == ')' {
        Some(Token::RParen)
    } else if c == '{' {
        Some(Token::LBrace)
    } else if c == '}' {
        Some(Token::RBrace)
    } else if c == '[' {
        Some(Token::LBracket)
    } else if c == ']' {
        Some(Token::RBracket)
    } else if c == ',' {
        Some(Token::Comma)
    } else if c == ';' {
        Some(Token::Semi)
    } else if c == '=' {
        Some(Token::Assign)
    } else if c == '+' {
        Some(Token::Plus)
    } else if c == '-' {
        Some(Token::Minus)
    } else if c == '*' {
        Some(Token::Star)
    } else if c == '/' {
        Some(Token::Slash)
    } else if c == '%' {
        Some(Token::Percent)
    } else if c == '!' {
        Some(Token::Not)
    } else if c == '<' {
        Some(Token::Lt)
    } else if c == '>' {
        Some(Token::Gt)
    } else {
        None
    };
    match one {
        Some(t) => {
            assert(src@.subrange(pos as int, pos + 1) =~= fixed_text(t));
            Some((t, pos + 1))
        },
        None => None,
    }
}

/// Splits `src` into tokens, returning each token with its character range.
pub fn lex(src: &Vec<char>) -> (r: Result<(Vec<Token>, Vec<(usize, usize)>), LexError>)
    ensures
        r matches Ok((toks, spans)) ==> lexed_from(src@, toks@, spans@),
{
    let mut toks: Vec<Token> = Vec::new();
    let mut spans: Vec<(usize, usize)> = Vec::new();
    let mut pos: usize = 0;
    loop
        invariant
            pos <= src.len(),
            toks.len() == spans.len(),
            gap_start(spans@, spans.len() as int) == pos,
            words_maximal(src@, spans@),
            forall|i: int| 0 <= i < spans.len() ==> {
                &&& gap_start(spans@, i) <= (#[trigger] spans@[i]).0 < spans@[i].1 <= src.len()
                &&& lexeme(src@.subrange(spans@[i].0 as int, spans@[i].1 as int), toks@[i])
                &&& is_trivia(src@.subrange(gap_start(spans@, i), spans@[i].0 as int))
            },
        decreases src.len() - pos,
    {
        let p = skip_trivia(src, pos)?;
        if p == src.len() {
            return Ok((toks, spans));
        }
        let c = src[p];
        let (tok, e) = if is_alpha_exec(c) {
            scan_word(src, p)
        } else if '0' <= c && c <= '9' {
            scan_number(src, p)?
        } else {
            match scan_punct(src, p) {
                Some(te) => te,
                None => { return Err(LexError::UnexpectedChar(p)); },
            }
        };
        let ghost old_spans = spans@;
        toks.push(tok);
        spans.push((p, e));
        assert forall|i: int| 0 <= i < old_spans.len() implies gap_start(spans@, i) == gap_start(old_spans, i) by {
            if i > 0 {
                assert(spans@[i - 1] == old_spans[i - 1]);
            }
        }
        pos = e;
    }
}

} // verus!
