//! The lexer: turns source lines into a flat stream of positioned tokens.
//!
//! Each line is matched against an ordered table of rules; at every column the
//! first rule in table order that matches wins, so the table order encodes
//! precedence (two-character relational operators before their one-character
//! prefixes, keywords before variable names). Whitespace and comment matches
//! are consumed but never emitted.

use crate::ParseError;
use vstd::prelude::*;
use vstd::string::*;

verus! {

/// The kind of a token. `Comment` and `Whitespace` are recognized by the rule
/// table but filtered out of the emitted stream.
#[derive(Debug, PartialEq, Clone)]
pub enum TokenType {
    Comment,
    Whitespace,
    Print,
    If,
    Then,
    Let,
    Goto,
    Gosub,
    Return,
    Comma,
    Equal,
    NotEqual,
    LessEqual,
    GreaterEqual,
    Less,
    Greater,
    Plus,
    Minus,
    Multiply,
    Divide,
    OpenParen,
    CloseParen,
    Variable(String),
    Number(u64),
    String(String),
}

/// A half-open column range within one source line, in characters.
#[derive(Debug, PartialEq, Eq, Structural, Clone, Copy)]
pub struct Position {
    pub line_num: usize,
    pub col_start: usize,
    pub col_end: usize,
}

/// A token together with the source range it was read from.
#[derive(Debug, PartialEq, Clone)]
pub struct Token {
    pub kind: TokenType,
    pub position: Position,
}

// ---------------------------------------------------------------------------
// Mathematical model of tokens
// ---------------------------------------------------------------------------

/// The mathematical counterpart of `TokenType`: text is a sequence of
/// characters rather than a `String`.
pub enum TokenKindModel {
    Comment,
    Whitespace,
    Print,
    If,
    Then,
    Let,
    Goto,
    Gosub,
    Return,
    Comma,
    Equal,
    NotEqual,
    LessEqual,
    GreaterEqual,
    Less,
    Greater,
    Plus,
    Minus,
    Multiply,
    Divide,
    OpenParen,
    CloseParen,
    Variable(Seq<char>),
    Number(u64),
    StringLit(Seq<char>),
}

/// The mathematical counterpart of `Token`.
pub struct TokenModel {
    pub kind: TokenKindModel,
    pub line: nat,
    pub start: nat,
    pub end: nat,
}

pub open spec fn kind_view(k: TokenType) -> TokenKindModel {
    match k {
        TokenType::Comment => TokenKindModel::Comment,
        TokenType::Whitespace => TokenKindModel::Whitespace,
        TokenType::Print => TokenKindModel::Print,
        TokenType::If => TokenKindModel::If,
        TokenType::Then => TokenKindModel::Then,
        TokenType::Let => TokenKindModel::Let,
        TokenType::Goto => TokenKindModel::Goto,
        TokenType::Gosub => TokenKindModel::Gosub,
        TokenType::Return => TokenKindModel::Return,
        TokenType::Comma => TokenKindModel::Comma,
        TokenType::Equal => TokenKindModel::Equal,
        TokenType::NotEqual => TokenKindModel::NotEqual,
        TokenType::LessEqual => TokenKindModel::LessEqual,
        TokenType::GreaterEqual => TokenKindModel::GreaterEqual,
        TokenType::Less => TokenKindModel::Less,
        TokenType::Greater => TokenKindModel::Greater,
        TokenType::Plus => TokenKindModel::Plus,
        TokenType::Minus => TokenKindModel::Minus,
        TokenType::Multiply => TokenKindModel::Multiply,
        TokenType::Divide => TokenKindModel::Divide,
        TokenType::OpenParen => TokenKindModel::OpenParen,
        TokenType::CloseParen => TokenKindModel::CloseParen,
        TokenType::Variable(s) => TokenKindModel::Variable(s@),
        TokenType::Number(n) => TokenKindModel::Number(n),
        TokenType::String(s) => TokenKindModel::StringLit(s@),
    }
}

pub open spec fn token_view(t: Token) -> TokenModel {
    TokenModel {
        kind: kind_view(t.kind),
        line: t.position.line_num as nat,
        start: t.position.col_start as nat,
        end: t.position.col_end as nat,
    }
}

pub open spec fn tokens_view(ts: Seq<Token>) -> Seq<TokenModel> {
    ts.map_values(|t: Token| token_view(t))
}

// ---------------------------------------------------------------------------
// Character classes (by code point)
// ---------------------------------------------------------------------------

pub open spec fn is_whitespace_char(c: char) -> bool {
    c as int == 32 || c as int == 9 || c as int == 10 || c as int == 13
}

pub open spec fn is_digit_char(c: char) -> bool {
    48 <= c as int && c as int <= 57
}

/// A character that may appear in a variable name: an ASCII letter or `_`.
pub open spec fn is_word_char(c: char) -> bool {
    (65 <= c as int && c as int <= 90) || (97 <= c as int && c as int <= 122) || c as int == 95
}

pub open spec fn is_not_newline(c: char) -> bool {
    c as int != 10
}

/// Case-insensitive match of one character `a` of the input against one
/// lowercase reference character `b`.
pub open spec fn char_ci_eq(a: char, b: char) -> bool {
    a == b || (65 <= a as int && a as int <= 90 && a as int + 32 == b as int)
}

/// The input starts with the keyword `kw` (given in lowercase),
/// case-insensitively.
pub open spec fn matches_keyword(s: Seq<char>, kw: Seq<char>) -> bool {
    s.len() >= kw.len() && forall|i: int| 0 <= i < kw.len() ==> char_ci_eq(s[i], #[trigger] kw[i])
}

pub open spec fn kw_rem() -> Seq<char> {
    seq!['r', 'e', 'm']
}

pub open spec fn kw_print() -> Seq<char> {
    seq!['p', 'r', 'i', 'n', 't']
}

pub open spec fn kw_if() -> Seq<char> {
    seq!['i', 'f']
}

pub open spec fn kw_then() -> Seq<char> {
    seq!['t', 'h', 'e', 'n']
}

pub open spec fn kw_let() -> Seq<char> {
    seq!['l', 'e', 't']
}

pub open spec fn kw_goto() -> Seq<char> {
    seq!['g', 'o', 't', 'o']
}

pub open spec fn kw_gosub() -> Seq<char> {
    seq!['g', 'o', 's', 'u', 'b']
}

pub open spec fn kw_return() -> Seq<char> {
    seq!['r', 'e', 't', 'u', 'r', 'n']
}

// ---------------------------------------------------------------------------
// Maximal runs and greedy string literals
// ---------------------------------------------------------------------------

/// Length of the longest prefix of `s` whose characters all satisfy `pred`.
pub open spec fn run_len(s: Seq<char>, pred: spec_fn(char) -> bool) -> nat
    decreases s.len(),
{
    if s.len() == 0 || !pred(s[0]) {
        0
    } else {
        (1 + run_len(s.drop_first(), pred)) as nat
    }
}

pub proof fn lemma_run_len_bound(s: Seq<char>, pred: spec_fn(char) -> bool)
    ensures
        run_len(s, pred) <= s.len(),
    decreases s.len(),
{
    if s.len() != 0 && pred(s[0]) {
        lemma_run_len_bound(s.drop_first(), pred);
    }
}

/// If the first `i` characters satisfy `pred` and the character at `i` (when
/// there is one) does not, the run has length exactly `i`.
pub proof fn lemma_run_len_at(s: Seq<char>, pred: spec_fn(char) -> bool, i: int)
    requires
        0 <= i <= s.len(),
        forall|j: int| 0 <= j < i ==> pred(#[trigger] s[j]),
        i < s.len() ==> !pred(s[i]),
    ensures
        run_len(s, pred) == i,
    decreases s.len(),
{
    if i == 0 {
    } else {
        lemma_run_len_at(s.drop_first(), pred, i - 1);
    }
}

/// The greatest index `j` with `1 <= j <= hi` and `s[j] == c`, or `0` when
/// there is none.
pub open spec fn last_index_before(s: Seq<char>, c: char, hi: int) -> int
    decreases hi,
{
    if hi <= 0 {
        0
    } else if hi < s.len() && s[hi] == c {
        hi
    } else {
        last_index_before(s, c, hi - 1)
    }
}

pub proof fn lemma_last_index_before(s: Seq<char>, c: char, hi: int)
    requires
        hi >= 0,
    ensures
        0 <= last_index_before(s, c, hi) <= hi,
        last_index_before(s, c, hi) >= 1 ==> last_index_before(s, c, hi) < s.len() && s[last_index_before(s, c, hi)] == c,
        forall|j: int|
            last_index_before(s, c, hi) < j <= hi && 0 <= j < s.len() ==> s[j] != c,
    decreases hi,
{
    if hi > 0 && !(hi < s.len() && s[hi] == c) {
        lemma_last_index_before(s, c, hi - 1);
    }
}

/// The greedy string-literal rule: an opening quote, then as many
/// non-newline characters as possible up to a final closing quote. Returns
/// the literal's content (quotes stripped) and the whole match length.
pub open spec fn string_lit_match(s: Seq<char>) -> Option<(Seq<char>, nat)> {
    if s.len() >= 2 && s[0] == '"' {
        let bound = run_len(s.skip(1), |c: char| is_not_newline(c));
        let j = last_index_before(s, '"', bound as int);
        if j >= 1 {
            Some((s.subrange(1, j), (j + 1) as nat))
        } else {
            None
        }
    } else {
        None
    }
}

// ---------------------------------------------------------------------------
// Numeric value of a digit run (wrapping at the width of `u64`)
// ---------------------------------------------------------------------------

pub open spec fn digit_val(c: char) -> u64 {
    (c as int - 48) as u64
}

/// The base-10 value of a digit sequence, accumulated with wrapping
/// arithmetic so that overlong literals wrap deterministically instead of
/// failing.
pub open spec fn digits_val(s: Seq<char>) -> u64
    decreases s.len(),
{
    if s.len() == 0 {
        0u64
    } else {
        vstd::wrapping::u64_specs::wrapping_add(
            vstd::wrapping::u64_specs::wrapping_mul(digits_val(s.drop_last()), 10u64),
            digit_val(s.last()),
        )
    }
}

// ---------------------------------------------------------------------------
// The rule table: first matching rule at the start of `s` wins
// ---------------------------------------------------------------------------

/// The ordered rule table of the lexer, as a function from the remaining
/// input to the kind and length of the first match. `None` means no rule
/// matches, which is a lex error.
pub open spec fn match_at(s: Seq<char>) -> Option<(TokenKindModel, nat)> {
    if matches_keyword(s, kw_rem()) {
        Some((TokenKindModel::Comment, (3 + run_len(s.skip(3), |c: char| is_not_newline(c))) as nat))
    } else if s.len() > 0 && is_whitespace_char(s[0]) {
        Some((TokenKindModel::Whitespace, 1nat))
    } else if matches_keyword(s, kw_print()) {
        Some((TokenKindModel::Print, 5nat))
    } else if matches_keyword(s, kw_if()) {
        Some((TokenKindModel::If, 2nat))
    } else if matches_keyword(s, kw_then()) {
        Some((TokenKindModel::Then, 4nat))
    } else if matches_keyword(s, kw_let()) {
        Some((TokenKindModel::Let, 3nat))
    } else if matches_keyword(s, kw_goto()) {
        Some((TokenKindModel::Goto, 4nat))
    } else if matches_keyword(s, kw_gosub()) {
        Some((TokenKindModel::Gosub, 5nat))
    } else if matches_keyword(s, kw_return()) {
        Some((TokenKindModel::Return, 6nat))
    } else if s.len() > 0 && s[0] == ',' {
        Some((TokenKindModel::Comma, 1nat))
    } else if s.len() > 0 && s[0] == '=' {
        Some((TokenKindModel::Equal, 1nat))
    } else if s.len() >= 2 && ((s[0] == '<' && s[1] == '>') || (s[0] == '>' && s[1] == '<')) {
        Some((TokenKindModel::NotEqual, 2nat))
    } else if s.len() >= 2 && s[0] == '<' && s[1] == '=' {
        Some((TokenKindModel::LessEqual, 2nat))
    } else if s.len() >= 2 && s[0] == '>' && s[1] == '=' {
        Some((TokenKindModel::GreaterEqual, 2nat))
    } else if s.len() > 0 && s[0] == '<' {
        Some((TokenKindModel::Less, 1nat))
    } else if s.len() > 0 && s[0] == '>' {
        Some((TokenKindModel::Greater, 1nat))
    } else if s.len() > 0 && s[0] == '+' {
        Some((TokenKindModel::Plus, 1nat))
    } else if s.len() > 0 && s[0] == '-' {
        Some((TokenKindModel::Minus, 1nat))
    } else if s.len() > 0 && s[0] == '*' {
        Some((TokenKindModel::Multiply, 1nat))
    } else if s.len() > 0 && s[0] == '/' {
        Some((TokenKindModel::Divide, 1nat))
    } else if s.len() > 0 && s[0] == '(' {
        Some((TokenKindModel::OpenParen, 1nat))
    } else if s.len() > 0 && s[0] == ')' {
        Some((TokenKindModel::CloseParen, 1nat))
    } else if run_len(s, |c: char| is_word_char(c)) > 0 {
        let n = run_len(s, |c: char| is_word_char(c));
        Some((TokenKindModel::Variable(s.take(n as int)), n))
    } else if run_len(s, |c: char| is_digit_char(c)) > 0 {
        let n = run_len(s, |c: char| is_digit_char(c));
        Some((TokenKindModel::Number(digits_val(s.take(n as int))), n))
    } else {
        match string_lit_match(s) {
            Some((content, len)) => Some((TokenKindModel::StringLit(content), len)),
            None => None,
        }
    }
}

/// Every rule matches at least one character and never runs past the input.
pub proof fn lemma_match_at_valid(s: Seq<char>)
    requires
        match_at(s) is Some,
    ensures
        1 <= match_at(s)->Some_0.1 <= s.len(),
{
    if matches_keyword(s, kw_rem()) {
        lemma_run_len_bound(s.skip(3), |c: char| is_not_newline(c));
    } else if matches_keyword(s, kw_print()) {
    } else if run_len(s, |c: char| is_word_char(c)) > 0 {
        lemma_run_len_bound(s, |c: char| is_word_char(c));
    } else if run_len(s, |c: char| is_digit_char(c)) > 0 {
        lemma_run_len_bound(s, |c: char| is_digit_char(c));
    } else if s.len() >= 2 && s[0] == '"' {
        let bound = run_len(s.skip(1), |c: char| is_not_newline(c));
        lemma_run_len_bound(s.skip(1), |c: char| is_not_newline(c));
        lemma_last_index_before(s, '"', bound as int);
    }
}

// ---------------------------------------------------------------------------
// Executable character and scanning helpers
// ---------------------------------------------------------------------------

/// The characters of `s`, in order.
fn str_to_chars(s: &str) -> (v: Vec<char>)
    ensures
        v@ == s@,
{
    let n = s.unicode_len();
    let mut v: Vec<char> = Vec::new();
    let mut i: usize = 0;
    while i < n
        invariant
            n == s@.len(),
            i <= n,
            v@ == s@.take(i as int),
        decreases n - i,
    {
        v.push(s.get_char(i));
        i = i + 1;
        proof {
            assert(v@ =~= s@.take(i as int));
        }
    }
    proof {
        assert(v@ =~= s@);
    }
    v
}

fn char_ci_eq_exec(a: char, b: char) -> (r: bool)
    ensures
        r == char_ci_eq(a, b),
{
    let au = a as u32;
    let bu = b as u32;
    au == bu || (65 <= au && au <= 90 && au + 32 == bu)
}

fn match_keyword_exec(cs: &Vec<char>, kw: &Vec<char>) -> (r: bool)
    ensures
        r == matches_keyword(cs@, kw@),
{
    if cs.len() < kw.len() {
        return false;
    }
    let mut i: usize = 0;
    while i < kw.len()
        invariant
            cs@.len() >= kw@.len(),
            i <= kw@.len(),
            forall|j: int| 0 <= j < i ==> char_ci_eq(cs@[j], #[trigger] kw@[j]),
        decreases kw@.len() - i,
    {
        if !char_ci_eq_exec(cs[i], kw[i]) {
            return false;
        }
        i = i + 1;
    }
    true
}

fn kw_rem_chars() -> (v: Vec<char>)
    ensures
        v@ == kw_rem(),
{
    let mut v: Vec<char> = Vec::new();
    v.push('r');
    v.push('e');
    v.push('m');
    proof {
        assert(v@ =~= kw_rem());
    }
    v
}

fn kw_print_chars() -> (v: Vec<char>)
    ensures
        v@ == kw_print(),
{
    let mut v: Vec<char> = Vec::new();
    v.push('p');
    v.push('r');
    v.push('i');
    v.push('n');
    v.push('t');
    proof {
        assert(v@ =~= kw_print());
    }
    v
}

fn kw_if_chars() -> (v: Vec<char>)
    ensures
        v@ == kw_if(),
{
    let mut v: Vec<char> = Vec::new();
    v.push('i');
    v.push('f');
    proof {
        assert(v@ =~= kw_if());
    }
    v
}

fn kw_then_chars() -> (v: Vec<char>)
    ensures
        v@ == kw_then(),
{
    let mut v: Vec<char> = Vec::new();
    v.push('t');
    v.push('h');
    v.push('e');
    v.push('n');
    proof {
        assert(v@ =~= kw_then());
    }
    v
}

fn kw_let_chars() -> (v: Vec<char>)
    ensures
        v@ == kw_let(),
{
    let mut v: Vec<char> = Vec::new();
    v.push('l');
    v.push('e');
    v.push('t');
    proof {
        assert(v@ =~= kw_let());
    }
    v
}

fn kw_goto_chars() -> (v: Vec<char>)
    ensures
        v@ == kw_goto(),
{
    let mut v: Vec<char> = Vec::new();
    v.push('g');
    v.push('o');
    v.push('t');
    v.push('o');
    proof {
        assert(v@ =~= kw_goto());
    }
    v
}

fn kw_gosub_chars() -> (v: Vec<char>)
    ensures
        v@ == kw_gosub(),
{
    let mut v: Vec<char> = Vec::new();
    v.push('g');
    v.push('o');
    v.push('s');
    v.push('u');
    v.push('b');
    proof {
        assert(v@ =~= kw_gosub());
    }
    v
}

fn kw_return_chars() -> (v: Vec<char>)
    ensures
        v@ == kw_return(),
{
    let mut v: Vec<char> = Vec::new();
    v.push('r');
    v.push('e');
    v.push('t');
    v.push('u');
    v.push('r');
    v.push('n');
    proof {
        assert(v@ =~= kw_return());
    }
    v
}

fn is_whitespace_exec(c: char) -> (r: bool)
    ensures
        r == is_whitespace_char(c),
{
    let u = c as u32;
    u == 32 || u == 9 || u == 10 || u == 13
}

fn is_digit_exec(c: char) -> (r: bool)
    ensures
        r == is_digit_char(c),
{
    let u = c as u32;
    48 <= u && u <= 57
}

fn is_word_exec(c: char) -> (r: bool)
    ensures
        r == is_word_char(c),
{
    let u = c as u32;
    (65 <= u && u <= 90) || (97 <= u && u <= 122) || u == 95
}

/// Length of the maximal run of word characters from position `from`.
fn scan_word(cs: &Vec<char>, from: usize) -> (n: usize)
    requires
        from <= cs@.len(),
    ensures
        n == run_len(cs@.skip(from as int), |c: char| is_word_char(c)),
        from + n <= cs@.len(),
{
    let mut i: usize = from;
    while i < cs.len() && is_word_exec(cs[i])
        invariant
            from <= i <= cs@.len(),
            forall|j: int| from <= j < i ==> is_word_char(#[trigger] cs@[j]),
        decreases cs@.len() - i,
    {
        i = i + 1;
    }
    proof {
        lemma_run_len_at(cs@.skip(from as int), |c: char| is_word_char(c), i - from);
    }
    i - from
}

/// Length of the maximal run of digits from position `from`.
fn scan_digits(cs: &Vec<char>, from: usize) -> (n: usize)
    requires
        from <= cs@.len(),
    ensures
        n == run_len(cs@.skip(from as int), |c: char| is_digit_char(c)),
        from + n <= cs@.len(),
{
    let mut i: usize = from;
    while i < cs.len() && is_digit_exec(cs[i])
        invariant
            from <= i <= cs@.len(),
            forall|j: int| from <= j < i ==> is_digit_char(#[trigger] cs@[j]),
        decreases cs@.len() - i,
    {
        i = i + 1;
    }
    proof {
        lemma_run_len_at(cs@.skip(from as int), |c: char| is_digit_char(c), i - from);
    }
    i - from
}

fn is_not_newline_exec(c: char) -> (r: bool)
    ensures
        r == is_not_newline(c),
{
    (c as u32) != 10
}

/// Length of the maximal run of non-newline characters from position `from`.
fn scan_not_newline(cs: &Vec<char>, from: usize) -> (n: usize)
    requires
        from <= cs@.len(),
    ensures
        n == run_len(cs@.skip(from as int), |c: char| is_not_newline(c)),
        from + n <= cs@.len(),
{
    let mut i: usize = from;
    while i < cs.len() && is_not_newline_exec(cs[i])
        invariant
            from <= i <= cs@.len(),
            forall|j: int| from <= j < i ==> is_not_newline(#[trigger] cs@[j]),
        decreases cs@.len() - i,
    {
        i = i + 1;
    }
    proof {
        lemma_run_len_at(cs@.skip(from as int), |c: char| is_not_newline(c), i - from);
    }
    i - from
}

/// The greatest index `j` with `1 <= j <= hi` holding a quote, or `0`.
fn scan_last_quote(cs: &Vec<char>, hi: usize) -> (j: usize)
    requires
        hi < cs@.len(),
    ensures
        j == last_index_before(cs@, '"', hi as int),
{
    let mut j: usize = hi;
    while j >= 1
        invariant
            j <= hi < cs@.len(),
            last_index_before(cs@, '"', hi as int) == last_index_before(cs@, '"', j as int),
        decreases j,
    {
        if cs[j] == '"' {
            return j;
        }
        j = j - 1;
    }
    0
}

/// The base-10 value of the digit run `cs[from .. from + n]`, wrapping at the
/// width of `u64`.
fn scan_number(cs: &Vec<char>, from: usize, n: usize) -> (val: u64)
    requires
        from + n <= cs@.len(),
        forall|j: int| from <= j < from + n ==> is_digit_char(#[trigger] cs@[j]),
    ensures
        val == digits_val(cs@.subrange(from as int, from + n)),
{
    let len = cs.len();
    let mut val: u64 = 0;
    let mut i: usize = 0;
    while i < n
        invariant
            len == cs@.len(),
            from + n <= cs@.len(),
            i <= n,
            forall|j: int| from <= j < from + n ==> is_digit_char(#[trigger] cs@[j]),
            val == digits_val(cs@.subrange(from as int, from + i)),
        decreases n - i,
    {
        let d = (cs[from + i] as u32) - 48;
        val = val.wrapping_mul(10).wrapping_add(d as u64);
        proof {
            let pre = cs@.subrange(from as int, from + i);
            let post = cs@.subrange(from as int, from + i + 1);
            assert(post.drop_last() =~= pre);
            assert(post.last() == cs@[from + i]);
        }
        i = i + 1;
    }
    val
}

/// Characters satisfying `pred` fill the whole run.
pub proof fn lemma_run_len_chars(s: Seq<char>, pred: spec_fn(char) -> bool)
    ensures
        forall|j: int| 0 <= j < run_len(s, pred) ==> pred(#[trigger] s[j]),
    decreases s.len(),
{
    if s.len() != 0 && pred(s[0]) {
        lemma_run_len_chars(s.drop_first(), pred);
        lemma_run_len_bound(s, pred);
        assert forall|j: int| 0 <= j < run_len(s, pred) implies pred(#[trigger] s[j]) by {
            if j > 0 {
                assert(s[j] == s.drop_first()[j - 1]);
            }
        }
    }
}

// ---------------------------------------------------------------------------
// Matching one token
// ---------------------------------------------------------------------------

/// Match the rule table against `text`, the not yet consumed slice of a line
/// whose absolute column is `col_start`. Returns the first (by table order)
/// matching token, or the lex error when no rule matches.
pub fn match_token(text: &str, col_start: usize, line_num: usize) -> (r: Result<Token, ParseError>)
    requires
        col_start + text@.len() <= usize::MAX,
    ensures
        match r {
            Ok(t) => {
                &&& match_at(text@) matches Some((k, len)) && token_view(t) == (TokenModel {
                    kind: k,
                    line: line_num as nat,
                    start: col_start as nat,
                    end: (col_start + len) as nat,
                })
            },
            Err(e) => {
                &&& match_at(text@) is None
                &&& e matches ParseError::UnkownToken { line_num: ln, col_start: cs, unkown_code }
                    && ln == line_num && cs == col_start && unkown_code@ == text@
            },
        },
{
    let cs = str_to_chars(text);
    proof {
        assert(cs@.skip(0) =~= cs@);
    }
    let kw = kw_rem_chars();
    if match_keyword_exec(&cs, &kw) {
        let n = 3 + scan_not_newline(&cs, 3);
        return Ok(make_token(TokenType::Comment, col_start, n, line_num));
    }
    if cs.len() > 0 && is_whitespace_exec(cs[0]) {
        return Ok(make_token(TokenType::Whitespace, col_start, 1, line_num));
    }
    let kw = kw_print_chars();
    if match_keyword_exec(&cs, &kw) {
        return Ok(make_token(TokenType::Print, col_start, 5, line_num));
    }
    let kw = kw_if_chars();
    if match_keyword_exec(&cs, &kw) {
        return Ok(make_token(TokenType::If, col_start, 2, line_num));
    }
    let kw = kw_then_chars();
    if match_keyword_exec(&cs, &kw) {
        return Ok(make_token(TokenType::Then, col_start, 4, line_num));
    }
    let kw = kw_let_chars();
    if match_keyword_exec(&cs, &kw) {
        return Ok(make_token(TokenType::Let, col_start, 3, line_num));
    }
    let kw = kw_goto_chars();
    if match_keyword_exec(&cs, &kw) {
        return Ok(make_token(TokenType::Goto, col_start, 4, line_num));
    }
    let kw = kw_gosub_chars();
    if match_keyword_exec(&cs, &kw) {
        return Ok(make_token(TokenType::Gosub, col_start, 5, line_num));
    }
    let kw = kw_return_chars();
    if match_keyword_exec(&cs, &kw) {
        return Ok(make_token(TokenType::Return, col_start, 6, line_num));
    }
    if cs.len() > 0 && cs[0] == ',' {
        return Ok(make_token(TokenType::Comma, col_start, 1, line_num));
    }
    if cs.len() > 0 && cs[0] == '=' {
        return Ok(make_token(TokenType::Equal, col_start, 1, line_num));
    }
    if cs.len() >= 2 && ((cs[0] == '<' && cs[1] == '>') || (cs[0] == '>' && cs[1] == '<')) {
        return Ok(make_token(TokenType::NotEqual, col_start, 2, line_num));
    }
    if cs.len() >= 2 && cs[0] == '<' && cs[1] == '=' {
        return Ok(make_token(TokenType::LessEqual, col_start, 2, line_num));
    }
    if cs.len() >= 2 && cs[0] == '>' && cs[1] == '=' {
        return Ok(make_token(TokenType::GreaterEqual, col_start, 2, line_num));
    }
    if cs.len() > 0 && cs[0] == '<' {
        return Ok(make_token(TokenType::Less, col_start, 1, line_num));
    }
    if cs.len() > 0 && cs[0] == '>' {
        return Ok(make_token(TokenType::Greater, col_start, 1, line_num));
    }
    if cs.len() > 0 && cs[0] == '+' {
        return Ok(make_token(TokenType::Plus, col_start, 1, line_num));
    }
    if cs.len() > 0 && cs[0] == '-' {
        return Ok(make_token(TokenType::Minus, col_start, 1, line_num));
    }
    if cs.len() > 0 && cs[0] == '*' {
        return Ok(make_token(TokenType::Multiply, col_start, 1, line_num));
    }
    if cs.len() > 0 && cs[0] == '/' {
        return Ok(make_token(TokenType::Divide, col_start, 1, line_num));
    }
    if cs.len() > 0 && cs[0] == '(' {
        return Ok(make_token(TokenType::OpenParen, col_start, 1, line_num));
    }
    if cs.len() > 0 && cs[0] == ')' {
        return Ok(make_token(TokenType::CloseParen, col_start, 1, line_num));
    }
    let n = scan_word(&cs, 0);
    if n > 0 {
        let content = text.substring_char(0, n).to_owned();
        proof {
            assert(content@ =~= text@.take(n as int));
        }
        return Ok(make_token(TokenType::Variable(content), col_start, n, line_num));
    }
    let n = scan_digits(&cs, 0);
    if n > 0 {
        proof {
            lemma_run_len_chars(cs@, |c: char| is_digit_char(c));
            assert(cs@.subrange(0, n as int) =~= cs@.take(n as int));
        }
        let val = scan_number(&cs, 0, n);
        return Ok(make_token(TokenType::Number(val), col_start, n, line_num));
    }
    if cs.len() >= 2 && cs[0] == '"' {
        let bound = scan_not_newline(&cs, 1);
        let j = scan_last_quote(&cs, bound);
        proof {
            lemma_last_index_before(cs@, '"', bound as int);
        }
        if j >= 1 {
            let content = text.substring_char(1, j).to_owned();
            return Ok(make_token(TokenType::String(content), col_start, j + 1, line_num));
        }
    }
    Err(ParseError::UnkownToken { line_num, col_start, unkown_code: text.to_owned() })
}

/// Wrap a token kind matched over `len` characters starting at `col_start`.
fn make_token(kind: TokenType, col_start: usize, len: usize, line_num: usize) -> (t: Token)
    requires
        col_start + len <= usize::MAX,
    ensures
        t.kind == kind,
        t.position == (Position { line_num, col_start, col_end: (col_start + len) as usize }),
{
    Token { kind, position: Position { line_num, col_start, col_end: col_start + len } }
}

// ---------------------------------------------------------------------------
// Lexing a whole line, then a whole program
// ---------------------------------------------------------------------------

/// Every match of the rule table from column `col` to the end of the line,
/// skipped matches included, as `(kind, start, end)` spans. `Err(c)` is the
/// column where no rule matched.
pub open spec fn lex_all_from(line: Seq<char>, col: nat) -> Result<Seq<(TokenKindModel, nat, nat)>, nat>
    decreases line.len() - col when col <= line.len()
{
    if col >= line.len() {
        Ok(seq![])
    } else {
        match match_at(line.skip(col as int)) {
            None => Err(col),
            Some((k, len)) => {
                if len == 0 || col + len > line.len() {
                    Err(col)
                } else {
                    match lex_all_from(line, (col + len) as nat) {
                        Ok(rest) => Ok(seq![(k, col, (col + len) as nat)] + rest),
                        Err(c) => Err(c),
                    }
                }
            },
        }
    }
}

pub open spec fn is_skipped(k: TokenKindModel) -> bool {
    k is Comment || k is Whitespace
}

/// The tokens a line contributes to the stream: its matches with the
/// whitespace and comment spans dropped.
pub open spec fn kept_tokens(all: Seq<(TokenKindModel, nat, nat)>, line: nat) -> Seq<TokenModel>
    decreases all.len(),
{
    if all.len() == 0 {
        seq![]
    } else {
        let rest = kept_tokens(all.drop_last(), line);
        let e = all.last();
        if is_skipped(e.0) {
            rest
        } else {
            rest.push(TokenModel { kind: e.0, line, start: e.1, end: e.2 })
        }
    }
}

/// The token stream of a whole program, line by line; `Err((i, c))` is the
/// first line `i` and column `c` where no rule matched.
pub open spec fn lex_program_from(lines: Seq<Seq<char>>, i: nat) -> Result<Seq<TokenModel>, (nat, nat)>
    decreases lines.len() - i when i <= lines.len()
{
    if i >= lines.len() {
        Ok(seq![])
    } else {
        match lex_all_from(lines[i as int], 0) {
            Err(c) => Err((i, c)),
            Ok(all) => match lex_program_from(lines, i + 1) {
                Err(p) => Err(p),
                Ok(rest) => Ok(kept_tokens(all, i) + rest),
            },
        }
    }
}

pub open spec fn lex_program(lines: Seq<Seq<char>>) -> Result<Seq<TokenModel>, (nat, nat)> {
    lex_program_from(lines, 0)
}

/// Tokenize one line: repeatedly match the rule table at the current column,
/// dropping whitespace and comment matches from the result.
pub fn tokenize_line(line: &str, line_num: usize) -> (r: Result<Vec<Token>, ParseError>)
    ensures
        match r {
            Ok(toks) => {
                &&& lex_all_from(line@, 0) matches Ok(all) && tokens_view(toks@) == kept_tokens(
                    all,
                    line_num as nat,
                )
            },
            Err(e) => {
                &&& lex_all_from(line@, 0) matches Err(c)
                    && e matches ParseError::UnkownToken { line_num: ln, col_start: cs, unkown_code }
                    && ln == line_num && cs == c && unkown_code@ == line@.skip(c as int)
            },
        },
{
    let n = line.unicode_len();
    let mut col: usize = 0;
    let mut tokens: Vec<Token> = Vec::new();
    let ghost mut done: Seq<(TokenKindModel, nat, nat)> = seq![];
    while col < n
        invariant
            n == line@.len(),
            col <= n,
            tokens_view(tokens@) == kept_tokens(done, line_num as nat),
            lex_all_from(line@, col as nat) matches Ok(rest) ==> lex_all_from(line@, 0)
                == Ok::<_, nat>(done + rest),
            lex_all_from(line@, col as nat) matches Err(c) ==> lex_all_from(line@, 0)
                == Err::<Seq<(TokenKindModel, nat, nat)>, _>(c),
        decreases n - col,
    {
        let text = line.substring_char(col, n);
        proof {
            assert(text@ =~= line@.skip(col as int));
        }
        let t = match match_token(text, col, line_num) {
            Ok(t) => t,
            Err(e) => {
                return Err(e);
            },
        };
        proof {
            lemma_match_at_valid(line@.skip(col as int));
        }
        let ghost (k, len) = match_at(line@.skip(col as int))->Some_0;
        let offset = t.position.col_end - t.position.col_start;
        let keep = match t.kind {
            TokenType::Whitespace => false,
            TokenType::Comment => false,
            _ => true,
        };
        if keep {
            tokens.push(t);
        }
        proof {
            let entry = (k, col as nat, (col + len) as nat);
            assert(done.push(entry).drop_last() =~= done);
            if keep {
                assert(tokens_view(tokens@) =~= kept_tokens(done.push(entry), line_num as nat));
            }
            done = done.push(entry);
            if lex_all_from(line@, (col + len) as nat) is Ok {
                let rest = lex_all_from(line@, (col + len) as nat)->Ok_0;
                assert(done + rest =~= done.drop_last() + (seq![entry] + rest));
            }
        }
        col = col + offset;
    }
    proof {
        assert(done + seq![] =~= done);
    }
    Ok(tokens)
}

/// Tokenize a program given as its source lines.
pub fn tokenize(lines: &Vec<String>) -> (r: Result<Vec<Token>, ParseError>)
    ensures
        match r {
            Ok(toks) => lex_program(lines.deep_view()) == Ok::<_, (nat, nat)>(tokens_view(toks@)),
            Err(e) => {
                &&& lex_program(lines.deep_view()) matches Err(p)
                    && e matches ParseError::UnkownToken { line_num: ln, col_start: cs, unkown_code }
                    && ln == p.0 && cs == p.1 && unkown_code@ == lines.deep_view()[p.0 as int].skip(
                    p.1 as int,
                )
            },
        },
{
    let ghost lv = lines.deep_view();
    let mut tokens: Vec<Token> = Vec::new();
    let mut i: usize = 0;
    while i < lines.len()
        invariant
            lv == lines.deep_view(),
            i <= lines@.len(),
            lv.len() == lines@.len(),
            forall|j: int| 0 <= j < lv.len() ==> lv[j] == lines@[j]@,
            lex_program_from(lv, i as nat) matches Ok(rest) ==> lex_program(lv) == Ok::<_, (nat, nat)>(
                tokens_view(tokens@) + rest,
            ),
            lex_program_from(lv, i as nat) matches Err(p) ==> lex_program(lv) == Err::<Seq<TokenModel>, _>(p),
        decreases lines@.len() - i,
    {
        let mut line_tokens = match tokenize_line(&lines[i], i) {
            Ok(ts) => ts,
            Err(e) => {
                return Err(e);
            },
        };
        let ghost old_tokens = tokens@;
        let ghost line_toks = line_tokens@;
        tokens.append(&mut line_tokens);
        proof {
            assert(tokens_view(tokens@) =~= tokens_view(old_tokens) + tokens_view(line_toks));
            if lex_program_from(lv, (i + 1) as nat) is Ok {
                let rest = lex_program_from(lv, (i + 1) as nat)->Ok_0;
                assert(tokens_view(tokens@) + rest =~= tokens_view(old_tokens) + (tokens_view(
                    line_toks,
                ) + rest));
            }
        }
        i = i + 1;
    }
    proof {
        assert(tokens_view(tokens@) + seq![] =~= tokens_view(tokens@));
    }
    Ok(tokens)
}

// ---------------------------------------------------------------------------
// The span round-trip law
// ---------------------------------------------------------------------------

/// The concatenation of the given spans of `line`, in order.
pub open spec fn concat_spans(line: Seq<char>, spans: Seq<(TokenKindModel, nat, nat)>) -> Seq<char>
    decreases spans.len(),
{
    if spans.len() == 0 {
        seq![]
    } else {
        line.subrange(spans.first().1 as int, spans.first().2 as int) + concat_spans(
            line,
            spans.drop_first(),
        )
    }
}

proof fn lemma_lex_spans_from(line: Seq<char>, col: nat)
    requires
        col <= line.len(),
        lex_all_from(line, col) is Ok,
    ensures
        concat_spans(line, lex_all_from(line, col)->Ok_0) == line.skip(col as int),
    decreases line.len() - col,
{
    if col >= line.len() {
        assert(line.skip(col as int) =~= Seq::<char>::empty());
    } else {
        let (k, len) = match_at(line.skip(col as int))->Some_0;
        let rest = lex_all_from(line, (col + len) as nat)->Ok_0;
        let all = lex_all_from(line, col)->Ok_0;
        lemma_lex_spans_from(line, (col + len) as nat);
        assert(all.drop_first() =~= rest);
        assert(line.subrange(col as int, (col + len) as int) + line.skip((col + len) as int)
            =~= line.skip(col as int));
    }
}

/// Law: when a line lexes successfully, concatenating the text spans of all
/// its matches in position order — the emitted tokens interleaved with the
/// skipped whitespace and comment matches — reconstructs the line exactly.
pub proof fn lemma_lex_round_trip(line: Seq<char>)
    requires
        lex_all_from(line, 0) is Ok,
    ensures
        concat_spans(line, lex_all_from(line, 0)->Ok_0) == line,
{
    lemma_lex_spans_from(line, 0);
    assert(line.skip(0) =~= line);
}

} // verus!
