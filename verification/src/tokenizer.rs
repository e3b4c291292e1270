//! The tokenizer: whitespace-delimited words classified, in order, as a
//! fixed operator symbol, a variable-arity function-declare run of `:` and
//! `.`, a numeric literal, or an identifier.  A leading backslash suppresses
//! the operator steps.  Anything else is a lexical error naming the word.

use crate::fp;
use crate::text;
use vstd::prelude::*;

verus! {

/// An operator token.
#[derive(Debug, Clone, Copy, PartialEq, Eq, Structural)]
pub enum Op {
    Add,
    Sub,
    Mul,
    Div,
    Exp,
    Mod,
    Equ,
    LazyEqu,
    GlobalEqu,
    LazyGlobalEqu,
    /// Declares a function; the payload is the declared parameter count.
    FunctionDeclare(usize),
    Compose,
    Id,
    If,
    IfElse,
    EqualTo,
    GreaterThan,
    GreaterThanOrEqualTo,
    LessThan,
    LessThanOrEqualTo,
    Not,
}

/// A numeric literal: a 64-bit integer, or a double carried as its bits.
#[derive(Debug, Clone, Copy, PartialEq, Eq, Structural)]
pub enum Num {
    Int(i64),
    Float(u64),
}

/// A lexical token.
#[derive(Debug, Clone, PartialEq)]
pub enum Token {
    Identifier(String),
    Scalar(Num),
    Operator(Op),
}

/// Mathematical model of a [`Token`].
pub enum TokenV {
    Identifier(Seq<char>),
    Scalar(Num),
    Operator(Op),
}

impl View for Token {
    type V = TokenV;

    open spec fn view(&self) -> TokenV {
        match self {
            Token::Identifier(s) => TokenV::Identifier(s@),
            Token::Scalar(n) => TokenV::Scalar(*n),
            Token::Operator(op) => TokenV::Operator(*op),
        }
    }
}

/// A lexical error, naming the offending word.
#[derive(Debug, Clone, PartialEq)]
pub enum TokenizeError {
    /// A word of `:` and `.` characters mixed with something else.
    InvalidDynamicOperator(String),
    /// A word with a leading digit that is neither an integer nor a decimal
    /// float literal.
    InvalidNumericConstant(String),
    /// A word with a leading letter whose tail leaves the identifier
    /// alphabet.
    InvalidIdentifier(String),
    /// A word that fits no class at all.
    UnableToMatchToken(String),
}

/// Mathematical model of a [`TokenizeError`].
pub enum TokenizeErrorV {
    InvalidDynamicOperator(Seq<char>),
    InvalidNumericConstant(Seq<char>),
    InvalidIdentifier(Seq<char>),
    UnableToMatchToken(Seq<char>),
}

impl View for TokenizeError {
    type V = TokenizeErrorV;

    open spec fn view(&self) -> TokenizeErrorV {
        match self {
            TokenizeError::InvalidDynamicOperator(s) => TokenizeErrorV::InvalidDynamicOperator(s@),
            TokenizeError::InvalidNumericConstant(s) => TokenizeErrorV::InvalidNumericConstant(s@),
            TokenizeError::InvalidIdentifier(s) => TokenizeErrorV::InvalidIdentifier(s@),
            TokenizeError::UnableToMatchToken(s) => TokenizeErrorV::UnableToMatchToken(s@),
        }
    }
}

// ---------------------------------------------------------------------------
// Character classes
// ---------------------------------------------------------------------------

/// Word-splitting whitespace.
pub open spec fn is_space_c(c: char) -> bool {
    c == ' ' || c == '\t' || c == '\n' || c == '\r'
}

/// An ASCII decimal digit.
pub open spec fn is_digit_c(c: char) -> bool {
    '0' <= c && c <= '9'
}

/// An ASCII letter.
pub open spec fn is_alpha_c(c: char) -> bool {
    ('a' <= c && c <= 'z') || ('A' <= c && c <= 'Z')
}

/// A character allowed after the first of an identifier.
pub open spec fn is_ident_c(c: char) -> bool {
    is_alpha_c(c) || is_digit_c(c) || c == '\'' || c == '_'
}

/// The numeric value of a digit character.
pub open spec fn digit_of(c: char) -> int {
    c as int - '0' as int
}

// ---------------------------------------------------------------------------
// Word shapes
// ---------------------------------------------------------------------------

/// Twice the `:`s plus the `.`s of a word, as the declare operator counts
/// them.
pub open spec fn dot_sum(s: Seq<char>) -> int
    decreases s.len(),
{
    if s.len() == 0 {
        0
    } else {
        dot_sum(s.drop_last()) + if s.last() == ':' {
            2int
        } else if s.last() == '.' {
            1int
        } else {
            0int
        }
    }
}

/// Whether every character of the word is `:` or `.`.
pub open spec fn all_colon_dots(s: Seq<char>) -> bool {
    forall|k: int| 0 <= k < s.len() ==> s[k] == ':' || s[k] == '.'
}

/// The declared parameter count of a `:`/`.` run: one more than the count
/// over the characters after the leading `:`, capped at the machine word.
pub open spec fn arity_of(s: Seq<char>) -> usize {
    if 1 + dot_sum(s.drop_first()) > usize::MAX {
        usize::MAX
    } else {
        (1 + dot_sum(s.drop_first())) as usize
    }
}

/// The value of a string of decimal digits.
pub open spec fn digits_val(s: Seq<char>) -> int
    decreases s.len(),
{
    if s.len() == 0 {
        0
    } else {
        digits_val(s.drop_last()) * 10 + digit_of(s.last())
    }
}

/// The length of the run of digits starting at position `i`.
pub open spec fn digit_run(s: Seq<char>, i: int) -> int
    decreases s.len() - i,
{
    if i < 0 || i >= s.len() || !is_digit_c(s[i]) {
        0
    } else {
        1 + digit_run(s, i + 1)
    }
}

/// Whether the word has the shape of a decimal float literal with a leading
/// digit: digits, an optional point with further digits, and an optional
/// exponent part.
pub open spec fn float_shape(s: Seq<char>) -> bool {
    let n1 = digit_run(s, 0);
    if n1 == 0 {
        false
    } else {
        let j = if n1 < s.len() && s[n1] == '.' {
            n1 + 1 + digit_run(s, n1 + 1)
        } else {
            n1
        };
        if j == s.len() {
            true
        } else if s[j] == 'e' || s[j] == 'E' {
            let k = if j + 1 < s.len() && (s[j + 1] == '+' || s[j + 1] == '-') {
                j + 2
            } else {
                j + 1
            };
            let m = digit_run(s, k);
            m > 0 && k + m == s.len()
        } else {
            false
        }
    }
}

/// Whether the word is an identifier: a leading letter, then letters,
/// digits, `'` or `_`.
pub open spec fn ident_shape(s: Seq<char>) -> bool {
    s.len() > 0 && is_alpha_c(s[0]) && (forall|k: int| 1 <= k < s.len() ==> is_ident_c(s[k]))
}

// ---------------------------------------------------------------------------
// Word classification
// ---------------------------------------------------------------------------

/// The fixed operator symbol table.
pub open spec fn op_of_word(w: Seq<char>) -> Option<Op> {
    if w == seq!['+'] {
        Some(Op::Add)
    } else if w == seq!['-'] {
        Some(Op::Sub)
    } else if w == seq!['*'] {
        Some(Op::Mul)
    } else if w == seq!['/'] {
        Some(Op::Div)
    } else if w == seq!['*', '*'] {
        Some(Op::Exp)
    } else if w == seq!['%'] {
        Some(Op::Mod)
    } else if w == seq!['='] {
        Some(Op::Equ)
    } else if w == seq!['.'] {
        Some(Op::LazyEqu)
    } else if w == seq!['=', '>'] {
        Some(Op::GlobalEqu)
    } else if w == seq!['.', '>'] {
        Some(Op::LazyGlobalEqu)
    } else if w == seq!['~'] {
        Some(Op::Compose)
    } else if w == seq![','] {
        Some(Op::Id)
    } else if w == seq!['?'] {
        Some(Op::If)
    } else if w == seq!['?', '?'] {
        Some(Op::IfElse)
    } else if w == seq!['=', '='] {
        Some(Op::EqualTo)
    } else if w == seq!['>'] {
        Some(Op::GreaterThan)
    } else if w == seq!['>', '='] {
        Some(Op::GreaterThanOrEqualTo)
    } else if w == seq!['<'] {
        Some(Op::LessThan)
    } else if w == seq!['<', '='] {
        Some(Op::LessThanOrEqualTo)
    } else if w == seq!['!'] {
        Some(Op::Not)
    } else {
        None
    }
}

/// Classify a numeric word: an integer if it is all digits and fits in an
/// `i64`, else a float if it has the decimal float shape and parses.
pub open spec fn classify_number(w: Seq<char>) -> Result<TokenV, TokenizeErrorV> {
    if digit_run(w, 0) == w.len() && digits_val(w) <= i64::MAX {
        Ok(TokenV::Scalar(Num::Int(digits_val(w) as i64)))
    } else if float_shape(w) {
        match fp::fp_parse_bits(w) {
            Some(b) => Ok(TokenV::Scalar(Num::Float(b))),
            None => Err(TokenizeErrorV::InvalidNumericConstant(w)),
        }
    } else {
        Err(TokenizeErrorV::InvalidNumericConstant(w))
    }
}

/// Classify a word with its operator interpretation suppressed: a numeric
/// literal or an identifier only.  Errors name the full original word.
pub open spec fn classify_escaped(full: Seq<char>, w: Seq<char>) -> Result<TokenV, TokenizeErrorV> {
    if w.len() > 0 && is_digit_c(w[0]) {
        classify_number(w)
    } else if ident_shape(w) {
        Ok(TokenV::Identifier(w))
    } else if w.len() > 0 && is_alpha_c(w[0]) {
        Err(TokenizeErrorV::InvalidIdentifier(full))
    } else {
        Err(TokenizeErrorV::UnableToMatchToken(full))
    }
}

/// Classify one whitespace-delimited word, in order: the operator table,
/// the `:`/`.` declare run, the backslash escape, a numeric literal, an
/// identifier; anything else is a lexical error.
pub open spec fn classify_word(w: Seq<char>) -> Result<TokenV, TokenizeErrorV> {
    match op_of_word(w) {
        Some(op) => Ok(TokenV::Operator(op)),
        None => if w.len() > 0 && w[0] == ':' {
            if all_colon_dots(w) {
                Ok(TokenV::Operator(Op::FunctionDeclare(arity_of(w))))
            } else {
                Err(TokenizeErrorV::InvalidDynamicOperator(w))
            }
        } else if w.len() > 0 && w[0] == '\\' {
            classify_escaped(w, w.drop_first())
        } else if w.len() > 0 && is_digit_c(w[0]) {
            classify_number(w)
        } else if ident_shape(w) {
            Ok(TokenV::Identifier(w))
        } else if w.len() > 0 && is_alpha_c(w[0]) {
            Err(TokenizeErrorV::InvalidIdentifier(w))
        } else {
            Err(TokenizeErrorV::UnableToMatchToken(w))
        },
    }
}

// ---------------------------------------------------------------------------
// Splitting and the token stream
// ---------------------------------------------------------------------------

/// The length of the word at the head of `s`: the run of non-space
/// characters.
pub open spec fn word_len(s: Seq<char>) -> int
    decreases s.len(),
{
    if s.len() == 0 || is_space_c(s[0]) {
        0
    } else {
        1 + word_len(s.drop_first())
    }
}

/// The head word is never longer than the text.
pub proof fn lemma_word_len_le(s: Seq<char>)
    ensures
        0 <= word_len(s) <= s.len(),
    decreases s.len(),
{
    if s.len() > 0 && !is_space_c(s[0]) {
        lemma_word_len_le(s.drop_first());
    }
}

/// The whitespace-delimited words of the text, in order.
pub open spec fn spec_words(s: Seq<char>) -> Seq<Seq<char>>
    decreases s.len()
    via spec_words_decreases
{
    if s.len() == 0 {
        Seq::empty()
    } else if is_space_c(s[0]) {
        spec_words(s.drop_first())
    } else {
        seq![s.take(word_len(s))] + spec_words(s.skip(word_len(s)))
    }
}

#[via_fn]
proof fn spec_words_decreases(s: Seq<char>) {
    if s.len() > 0 && !is_space_c(s[0]) {
        lemma_word_len_le(s);
        lemma_word_len_le(s.drop_first());
        assert(word_len(s) == 1 + word_len(s.drop_first()));
    }
}

/// Classify each word in order, stopping at the first lexical error.
pub open spec fn lex_words(ws: Seq<Seq<char>>) -> Result<Seq<TokenV>, TokenizeErrorV>
    decreases ws.len(),
{
    if ws.len() == 0 {
        Ok(Seq::empty())
    } else {
        match classify_word(ws[0]) {
            Ok(t) => match lex_words(ws.drop_first()) {
                Ok(ts) => Ok(seq![t] + ts),
                Err(e) => Err(e),
            },
            Err(e) => Err(e),
        }
    }
}

/// The token stream of a source text, or its first lexical error.
pub open spec fn spec_lex(s: Seq<char>) -> Result<Seq<TokenV>, TokenizeErrorV> {
    lex_words(spec_words(s))
}

/// The views of a vector of tokens.
pub open spec fn tokens_view(ts: Seq<Token>) -> Seq<TokenV> {
    ts.map_values(|t: Token| t@)
}

/// The view of a tokenizer result.
pub open spec fn lex_result_view(r: Result<Vec<Token>, TokenizeError>) -> Result<
    Seq<TokenV>,
    TokenizeErrorV,
> {
    match r {
        Ok(ts) => Ok(tokens_view(ts@)),
        Err(e) => Err(e@),
    }
}

// ---------------------------------------------------------------------------
// The executable tokenizer
// ---------------------------------------------------------------------------

fn is_space(c: char) -> (r: bool)
    ensures
        r == is_space_c(c),
{
    c == ' ' || c == '\t' || c == '\n' || c == '\r'
}

fn is_digit(c: char) -> (r: bool)
    ensures
        r == is_digit_c(c),
{
    '0' <= c && c <= '9'
}

fn is_alpha(c: char) -> (r: bool)
    ensures
        r == is_alpha_c(c),
{
    ('a' <= c && c <= 'z') || ('A' <= c && c <= 'Z')
}

fn is_ident(c: char) -> (r: bool)
    ensures
        r == is_ident_c(c),
{
    is_alpha(c) || is_digit(c) || c == '\'' || c == '_'
}

/// The length of the digit run of `w` from position `i`.
fn digit_run_from(w: &Vec<char>, i: usize) -> (r: usize)
    requires
        i <= w@.len(),
    ensures
        r == digit_run(w@, i as int),
        i + r <= w@.len(),
    decreases w@.len() - i,
{
    if i == w.len() || !is_digit(w[i]) {
        0
    } else {
        1 + digit_run_from(w, i + 1)
    }
}

/// Count `:` as two and `.` as one over a run of characters, capping at the
/// machine word; other characters count nothing.
pub fn get_dot_count(chars: &Vec<char>) -> (r: usize)
    ensures
        dot_sum(chars@) <= usize::MAX ==> r == dot_sum(chars@),
        dot_sum(chars@) > usize::MAX ==> r == usize::MAX,
{
    let mut acc: usize = 0;
    let mut i: usize = 0;
    while i < chars.len()
        invariant
            i <= chars@.len(),
            dot_sum(chars@.take(i as int)) <= usize::MAX ==> acc == dot_sum(chars@.take(i as int)),
            dot_sum(chars@.take(i as int)) > usize::MAX ==> acc == usize::MAX,
        decreases chars@.len() - i,
    {
        let c = chars[i];
        let add: usize = if c == ':' {
            2
        } else if c == '.' {
            1
        } else {
            0
        };
        proof {
            assert(chars@.take(i + 1).drop_last() =~= chars@.take(i as int));
            assert(chars@.take(i + 1).last() == chars@[i as int]);
            lemma_dot_sum_nonneg(chars@.take(i as int));
        }
        if acc > usize::MAX - add {
            acc = usize::MAX;
        } else {
            acc = acc + add;
        }
        i = i + 1;
    }
    proof {
        assert(chars@.take(chars@.len() as int) =~= chars@);
    }
    acc
}

/// The `:`/`.` count of a word is never negative.
pub proof fn lemma_dot_sum_nonneg(s: Seq<char>)
    ensures
        dot_sum(s) >= 0,
    decreases s.len(),
{
    if s.len() > 0 {
        lemma_dot_sum_nonneg(s.drop_last());
    }
}

/// Whether the word has the decimal float shape.
fn has_float_shape(w: &Vec<char>) -> (r: bool)
    ensures
        r == float_shape(w@),
{
    let n1 = digit_run_from(w, 0);
    if n1 == 0 {
        return false;
    }
    let j: usize = if n1 < w.len() && w[n1] == '.' {
        n1 + 1 + digit_run_from(w, n1 + 1)
    } else {
        n1
    };
    if j == w.len() {
        return true;
    }
    if w[j] == 'e' || w[j] == 'E' {
        let k: usize = if j + 1 < w.len() && (w[j + 1] == '+' || w[j + 1] == '-') {
            j + 2
        } else {
            j + 1
        };
        if k > w.len() {
            return false;
        }
        let m = digit_run_from(w, k);
        m > 0 && k + m == w.len()
    } else {
        false
    }
}

/// The value of a digit word, exactly when it fits in an `i64`.
fn digits_to_int(w: &Vec<char>) -> (r: Option<i64>)
    requires
        digit_run(w@, 0) == w@.len(),
    ensures
        digits_val(w@) <= i64::MAX ==> r == Some((digits_val(w@) as i64)),
        digits_val(w@) > i64::MAX ==> r == None::<i64>,
{
    proof {
        lemma_digit_run_digits(w@, 0);
    }
    let mut acc: u128 = 0;
    let mut i: usize = 0;
    while i < w.len()
        invariant
            i <= w@.len(),
            digit_run(w@, 0) == w@.len(),
            forall|k: int| 0 <= k < w@.len() ==> is_digit_c(w@[k]),
            digits_val(w@.take(i as int)) <= i64::MAX ==> acc == digits_val(w@.take(i as int)),
            digits_val(w@.take(i as int)) > i64::MAX ==> acc > i64::MAX && acc <= 10 * (
            i64::MAX as u128) + 9,
        decreases w@.len() - i,
    {
        let c = w[i];
        proof {
            assert(is_digit_c(w@[i as int]));
        }
        let d: u128 = (c as u32 as u128) - 48;
        proof {
            assert(d == digit_of(c));
            assert(chars_take_step(w@, i as int));
            assert(w@.take(i + 1).drop_last() == w@.take(i as int));
            assert(digits_val(w@.take(i + 1)) == digits_val(w@.take(i as int)) * 10 + digit_of(
                w@[i as int],
            ));
            lemma_digits_val_nonneg(w@.take(i as int));
        }
        if acc <= i64::MAX as u128 {
            acc = acc * 10 + d;
        }
        i = i + 1;
    }
    proof {
        assert(w@.take(w@.len() as int) =~= w@);
    }
    if acc <= i64::MAX as u128 {
        Some(acc as i64)
    } else {
        None
    }
}

/// The step fact used when folding a digit word left to right.
pub open spec fn chars_take_step(s: Seq<char>, i: int) -> bool {
    0 <= i < s.len() ==> s.take(i + 1).drop_last() =~= s.take(i) && s.take(i + 1).last() == s[i]
}

/// A digit run covering the whole word makes every character a digit.
pub proof fn lemma_digit_run_digits(s: Seq<char>, i: int)
    requires
        0 <= i <= s.len(),
        digit_run(s, i) == s.len() - i,
    ensures
        forall|k: int| i <= k < s.len() ==> is_digit_c(s[k]),
    decreases s.len() - i,
{
    if i < s.len() {
        lemma_digit_run_digits(s, i + 1);
    }
}

/// The value of a digit word is never negative.
pub proof fn lemma_digits_val_nonneg(s: Seq<char>)
    requires
        forall|k: int| 0 <= k < s.len() ==> is_digit_c(s[k]),
    ensures
        digits_val(s) >= 0,
    decreases s.len(),
{
    if s.len() > 0 {
        assert(s.drop_last() =~= s.take(s.len() - 1));
        lemma_digits_val_nonneg(s.drop_last());
    }
}

/// The view of a classification result.
pub open spec fn token_result_view(r: Result<Token, TokenizeError>) -> Result<
    TokenV,
    TokenizeErrorV,
> {
    match r {
        Ok(t) => Ok(t@),
        Err(e) => Err(e@),
    }
}

/// Whether the word is the single character `a`.
fn word_is1(w: &Vec<char>, a: char) -> (r: bool)
    ensures
        r == (w@ == seq![a]),
{
    let r = w.len() == 1 && w[0] == a;
    proof {
        if r {
            assert(w@ =~= seq![a]);
        } else {
            assert(w@ != seq![a]) by {
                if w@ == seq![a] {
                    assert(w@.len() == 1 && w@[0] == a);
                }
            }
        }
    }
    r
}

/// Whether the word is the two characters `a` then `b`.
fn word_is2(w: &Vec<char>, a: char, b: char) -> (r: bool)
    ensures
        r == (w@ == seq![a, b]),
{
    let r = w.len() == 2 && w[0] == a && w[1] == b;
    proof {
        if r {
            assert(w@ =~= seq![a, b]);
        } else {
            assert(w@ != seq![a, b]) by {
                if w@ == seq![a, b] {
                    assert(w@.len() == 2 && w@[0] == a && w@[1] == b);
                }
            }
        }
    }
    r
}

/// The characters of the word after the first.
fn tail_vec(w: &Vec<char>) -> (r: Vec<char>)
    requires
        w@.len() > 0,
    ensures
        r@ == w@.drop_first(),
{
    let mut out: Vec<char> = Vec::new();
    let mut i: usize = 1;
    while i < w.len()
        invariant
            1 <= i <= w@.len(),
            out@ == w@.subrange(1, i as int),
        decreases w@.len() - i,
    {
        out.push(w[i]);
        proof {
            assert(out@ =~= w@.subrange(1, i + 1));
        }
        i = i + 1;
    }
    proof {
        assert(out@ =~= w@.drop_first());
    }
    out
}

/// Match the word against the fixed operator table.
fn lex_operator(w: &Vec<char>) -> (r: Option<Op>)
    ensures
        r == op_of_word(w@),
{
    if word_is1(w, '+') {
        Some(Op::Add)
    } else if word_is1(w, '-') {
        Some(Op::Sub)
    } else if word_is1(w, '*') {
        Some(Op::Mul)
    } else if word_is1(w, '/') {
        Some(Op::Div)
    } else if word_is2(w, '*', '*') {
        Some(Op::Exp)
    } else if word_is1(w, '%') {
        Some(Op::Mod)
    } else if word_is1(w, '=') {
        Some(Op::Equ)
    } else if word_is1(w, '.') {
        Some(Op::LazyEqu)
    } else if word_is2(w, '=', '>') {
        Some(Op::GlobalEqu)
    } else if word_is2(w, '.', '>') {
        Some(Op::LazyGlobalEqu)
    } else if word_is1(w, '~') {
        Some(Op::Compose)
    } else if word_is1(w, ',') {
        Some(Op::Id)
    } else if word_is1(w, '?') {
        Some(Op::If)
    } else if word_is2(w, '?', '?') {
        Some(Op::IfElse)
    } else if word_is2(w, '=', '=') {
        Some(Op::EqualTo)
    } else if word_is1(w, '>') {
        Some(Op::GreaterThan)
    } else if word_is2(w, '>', '=') {
        Some(Op::GreaterThanOrEqualTo)
    } else if word_is1(w, '<') {
        Some(Op::LessThan)
    } else if word_is2(w, '<', '=') {
        Some(Op::LessThanOrEqualTo)
    } else if word_is1(w, '!') {
        Some(Op::Not)
    } else {
        None
    }
}

/// Classify a word with a leading digit.
fn lex_number(w: &Vec<char>) -> (r: Result<Token, TokenizeError>)
    ensures
        token_result_view(r) == classify_number(w@),
{
    let run = digit_run_from(w, 0);
    if run == w.len() {
        match digits_to_int(w) {
            Some(v) => {
                return Ok(Token::Scalar(Num::Int(v)));
            },
            None => {},
        }
    }
    if has_float_shape(w) {
        let s = text::chars_to_string(w);
        match fp::fp_parse(s.as_str()) {
            Some(b) => Ok(Token::Scalar(Num::Float(b))),
            None => Err(TokenizeError::InvalidNumericConstant(s)),
        }
    } else {
        Err(TokenizeError::InvalidNumericConstant(text::chars_to_string(w)))
    }
}

/// Whether every character of the word is `:` or `.`.
fn check_colon_dots(w: &Vec<char>) -> (r: bool)
    ensures
        r == all_colon_dots(w@),
{
    let mut i: usize = 0;
    while i < w.len()
        invariant
            i <= w@.len(),
            forall|k: int| 0 <= k < i ==> w@[k] == ':' || w@[k] == '.',
        decreases w@.len() - i,
    {
        if w[i] != ':' && w[i] != '.' {
            return false;
        }
        i = i + 1;
    }
    true
}

/// Whether the tail of the word stays in the identifier alphabet.
fn check_ident_tail(w: &Vec<char>) -> (r: bool)
    requires
        w@.len() > 0,
    ensures
        r == (forall|k: int| 1 <= k < w@.len() ==> is_ident_c(w@[k])),
{
    let mut i: usize = 1;
    while i < w.len()
        invariant
            1 <= i <= w@.len(),
            forall|k: int| 1 <= k < i ==> is_ident_c(w@[k]),
        decreases w@.len() - i,
    {
        if !is_ident(w[i]) {
            return false;
        }
        i = i + 1;
    }
    true
}

/// Classify a word whose operator interpretation is suppressed.
fn lex_escaped(full: &Vec<char>, w: &Vec<char>) -> (r: Result<Token, TokenizeError>)
    ensures
        token_result_view(r) == classify_escaped(full@, w@),
{
    if w.len() > 0 && is_digit(w[0]) {
        lex_number(w)
    } else if w.len() > 0 && is_alpha(w[0]) {
        if check_ident_tail(w) {
            Ok(Token::Identifier(text::chars_to_string(w)))
        } else {
            Err(TokenizeError::InvalidIdentifier(text::chars_to_string(full)))
        }
    } else {
        Err(TokenizeError::UnableToMatchToken(text::chars_to_string(full)))
    }
}

/// Classify one word.
fn lex_word(w: &Vec<char>) -> (r: Result<Token, TokenizeError>)
    ensures
        token_result_view(r) == classify_word(w@),
{
    match lex_operator(w) {
        Some(op) => Ok(Token::Operator(op)),
        None => {
            if w.len() > 0 && w[0] == ':' {
                if check_colon_dots(w) {
                    let tail = tail_vec(w);
                    let dc = get_dot_count(&tail);
                    let arity: usize = if dc >= usize::MAX - 1 {
                        usize::MAX
                    } else {
                        dc + 1
                    };
                    proof {
                        lemma_dot_sum_nonneg(w@.drop_first());
                    }
                    Ok(Token::Operator(Op::FunctionDeclare(arity)))
                } else {
                    Err(TokenizeError::InvalidDynamicOperator(text::chars_to_string(w)))
                }
            } else if w.len() > 0 && w[0] == '\\' {
                let tail = tail_vec(w);
                lex_escaped(w, &tail)
            } else if w.len() > 0 && is_digit(w[0]) {
                lex_number(w)
            } else if w.len() > 0 && is_alpha(w[0]) {
                if check_ident_tail(w) {
                    Ok(Token::Identifier(text::chars_to_string(w)))
                } else {
                    Err(TokenizeError::InvalidIdentifier(text::chars_to_string(w)))
                }
            } else {
                Err(TokenizeError::UnableToMatchToken(text::chars_to_string(w)))
            }
        },
    }
}

/// A run of non-spaces up to a space or the end pins down the head word's
/// length.
proof fn lemma_word_len_at(s: Seq<char>, j: int)
    requires
        0 <= j <= s.len(),
        forall|k: int| 0 <= k < j ==> !is_space_c(s[k]),
        j == s.len() || is_space_c(s[j]),
    ensures
        word_len(s) == j,
    decreases j,
{
    if j > 0 {
        lemma_word_len_at(s.drop_first(), j - 1);
    }
}

/// The relation the tokenizer's loop maintains between the tokens read so
/// far and the words not yet reached.
pub open spec fn lex_loop_inv(full: Seq<char>, toks: Seq<Token>, pos: int) -> bool {
    match lex_words(spec_words(full.skip(pos))) {
        Ok(ts) => spec_lex(full) == Ok::<Seq<TokenV>, TokenizeErrorV>(tokens_view(toks) + ts),
        Err(e) => spec_lex(full) == Err::<Seq<TokenV>, TokenizeErrorV>(e),
    }
}

impl Token {
    /// Wrap a name as an identifier token.
    pub fn identifier(s: String) -> (t: Token)
        ensures
            t@ == TokenV::Identifier(s@),
    {
        Token::Identifier(s)
    }

    /// Wrap a number as a scalar token.
    pub fn scalar(value: Num) -> (t: Token)
        ensures
            t@ == TokenV::Scalar(value),
    {
        Token::Scalar(value)
    }

    /// Wrap an operator as an operator token.
    pub fn operator(op: Op) -> (t: Token)
        ensures
            t@ == TokenV::Operator(op),
    {
        Token::Operator(op)
    }

    /// Split the source text on whitespace and classify each word, left to
    /// right, stopping at the first lexical error.
    pub fn tokenize(s: &str) -> (r: Result<Vec<Token>, TokenizeError>)
        ensures
            lex_result_view(r) == spec_lex(s@),
    {
        let chars = text::str_to_chars(s);
        let mut toks: Vec<Token> = Vec::new();
        let mut pos: usize = 0;
        proof {
            assert(chars@.skip(0) =~= chars@);
            assert(tokens_view(toks@) =~= Seq::<TokenV>::empty());
            if let Ok(ts) = lex_words(spec_words(chars@)) {
                assert(tokens_view(toks@) + ts =~= ts);
            }
        }
        while pos < chars.len()
            invariant
                pos <= chars@.len(),
                chars@ == s@,
                lex_loop_inv(chars@, toks@, pos as int),
            decreases chars@.len() - pos,
        {
            if is_space(chars[pos]) {
                proof {
                    assert(chars@.skip(pos as int).drop_first() =~= chars@.skip(pos + 1));
                }
                pos = pos + 1;
            } else {
                // Scan to the end of the word.
                let start = pos;
                let mut end = pos;
                while end < chars.len() && !is_space(chars[end])
                    invariant
                        start <= end <= chars@.len(),
                        forall|k: int| start <= k < end ==> !is_space_c(chars@[k]),
                    decreases chars@.len() - end,
                {
                    end = end + 1;
                }
                // Copy the word out.
                let mut w: Vec<char> = Vec::new();
                let mut i = start;
                while i < end
                    invariant
                        start <= i <= end <= chars@.len(),
                        w@ == chars@.subrange(start as int, i as int),
                    decreases end - i,
                {
                    w.push(chars[i]);
                    proof {
                        assert(w@ =~= chars@.subrange(start as int, i + 1));
                    }
                    i = i + 1;
                }
                proof {
                    let suffix = chars@.skip(start as int);
                    assert forall|k: int| 0 <= k < end - start implies !is_space_c(
                        suffix[k],
                    ) by {
                        assert(suffix[k] == chars@[start + k]);
                    }
                    if (end as int) < chars@.len() {
                        assert(is_space_c(suffix[end - start]));
                    }
                    lemma_word_len_at(suffix, end - start);
                    assert(suffix.take(end - start) =~= chars@.subrange(start as int, end as int));
                    assert(suffix.skip(end - start) =~= chars@.skip(end as int));
                    assert(spec_words(suffix) == seq![w@] + spec_words(chars@.skip(end as int)));
                    assert((seq![w@] + spec_words(chars@.skip(end as int)))[0] == w@);
                    assert((seq![w@] + spec_words(chars@.skip(end as int))).drop_first()
                        =~= spec_words(chars@.skip(end as int)));
                }
                match lex_word(&w) {
                    Ok(t) => {
                        proof {
                            let rest = spec_words(chars@.skip(end as int));
                            if let Ok(ts2) = lex_words(rest) {
                                assert(tokens_view(toks@.push(t)) =~= tokens_view(toks@) + seq![
                                    t@,
                                ]);
                                assert(tokens_view(toks@) + (seq![t@] + ts2) =~= tokens_view(
                                    toks@.push(t),
                                ) + ts2);
                            }
                        }
                        toks.push(t);
                        pos = end;
                    },
                    Err(e) => {
                        return Err(e);
                    },
                }
            }
        }
        proof {
            assert(chars@.skip(chars@.len() as int) =~= Seq::<char>::empty());
            if let Ok(ts) = lex_words(spec_words(chars@)) {
                assert(tokens_view(toks@) + Seq::<TokenV>::empty() =~= tokens_view(toks@));
            }
        }
        Ok(toks)
    }
}

} // verus!
