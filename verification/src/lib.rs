//! A small embedded expression-language engine: a tokenizer, a prefix
//! (Polish-notation) parser, and a tree-walking executor, each with a
//! machine-checked contract against a mathematical model of the language.
//!
//! A caller hands [`evaluate`] a block of source text and a recursion
//! allowance and receives the values of its top-level expressions in order,
//! or the first lexical, parse or runtime error.

pub mod cards;
pub mod common;
pub mod executor;
pub mod fp;
pub mod parser;
pub mod text;
pub mod tokenizer;
pub mod value;

use executor::{spec_exec, Executor, RtErrV, RuntimeError};
use parser::{spec_next_tree, Parser};
use tokenizer::{spec_lex, Token, TokenV, TokenizeError, TokenizeErrorV};
use value::{Value, ValueV};
use vstd::prelude::*;

verus! {

/// The first failure of a whole-program evaluation.
#[derive(Debug)]
pub enum EvalError {
    /// A word that is no token.
    Lex(TokenizeError),
    /// A parse or runtime failure.
    Runtime(RuntimeError),
}

/// Mathematical model of an [`EvalError`].
pub enum EvalErrV {
    Lex(TokenizeErrorV),
    Runtime(RtErrV),
}

impl View for EvalError {
    type V = EvalErrV;

    open spec fn view(&self) -> EvalErrV {
        match self {
            EvalError::Lex(e) => EvalErrV::Lex(e@),
            EvalError::Runtime(e) => EvalErrV::Runtime(e@),
        }
    }
}

/// Run the trees of a token stream from `pos` on, each in a fresh local
/// scope against an empty global environment, collecting values until the
/// stream ends or a tree fails.
pub open spec fn spec_run(toks: Seq<TokenV>, pos: int, fuel: nat) -> Result<Seq<ValueV>, EvalErrV>
    decreases toks.len() - pos
    via spec_run_decreases
{
    let (ro, p2) = spec_next_tree(toks, pos);
    match ro {
        None => Ok(Seq::empty()),
        Some(Err(e)) => Err(EvalErrV::Runtime(RtErrV::ParseError(e))),
        Some(Ok(t)) => match spec_exec(Seq::empty(), Seq::empty(), t, fuel).res {
            Err(e) => Err(EvalErrV::Runtime(e)),
            Ok(v) => match spec_run(toks, p2, fuel) {
                Ok(vs) => Ok(seq![v] + vs),
                Err(e) => Err(e),
            },
        },
    }
}

#[via_fn]
proof fn spec_run_decreases(toks: Seq<TokenV>, pos: int, fuel: nat) {
    if pos < toks.len() {
        parser::lemma_parse_progress(toks, pos, Seq::empty(), parser::parse_fuel(toks, pos));
    }
}

/// What a whole program evaluates to: the values of its top-level
/// expressions in order, or its first error.
pub open spec fn spec_evaluate(s: Seq<char>, fuel: nat) -> Result<Seq<ValueV>, EvalErrV> {
    match spec_lex(s) {
        Err(e) => Err(EvalErrV::Lex(e)),
        Ok(toks) => spec_run(toks, 0, fuel),
    }
}

/// The view of a whole-program result.
pub open spec fn eval_result_view(r: Result<Vec<Value>, EvalError>) -> Result<
    Seq<ValueV>,
    EvalErrV,
> {
    match r {
        Ok(vs) => Ok(executor::values_view(vs@)),
        Err(e) => Err(e@),
    }
}

/// Tokenize, parse and evaluate a program, stopping at its first error.
/// The recursion allowance bounds how deep one expression's evaluation may
/// descend; a pathological recursive definition fails rather than running
/// without bound.
#[verifier::rlimit(100)]
#[verifier::spinoff_prover]
#[verifier::loop_isolation(false)]
pub fn evaluate(src: &str, fuel: u64) -> (r: Result<Vec<Value>, EvalError>)
    ensures
        eval_result_view(r) == spec_evaluate(src@, fuel as nat),
{
    let toks = match Token::tokenize(src) {
        Ok(t) => t,
        Err(e) => {
            return Err(EvalError::Lex(e));
        },
    };
    let ghost tv = tokenizer::tokens_view(toks@);
    let parser0 = Parser::new(toks);
    let mut ex = Executor::with_fuel(parser0, fuel);
    let mut out: Vec<Value> = Vec::new();
    proof {
        assert(executor::values_view(out@) =~= Seq::<ValueV>::empty());
        if let Ok(vs) = spec_run(tv, 0, fuel as nat) {
            assert(executor::values_view(out@) + vs =~= vs);
        }
    }
    loop
        invariant
            ex.wf(),
            ex@.toks == tv,
            ex@.globals == Seq::<(Seq<char>, executor::ObjV)>::empty(),
            ex@.fuel == fuel as nat,
            match spec_run(tv, ex@.pos, fuel as nat) {
                Ok(vs) => spec_run(tv, 0, fuel as nat) == Ok::<Seq<ValueV>, EvalErrV>(
                    executor::values_view(out@) + vs,
                ),
                Err(e) => spec_run(tv, 0, fuel as nat) == Err::<Seq<ValueV>, EvalErrV>(e),
            },
        decreases tv.len() - ex@.pos + 1,
    {
        let ghost pos0 = ex@.pos;
        match ex.next() {
            None => {
                proof {
                    if let Ok(vs) = spec_run(tv, pos0, fuel as nat) {
                        assert(executor::values_view(out@) + vs =~= executor::values_view(out@));
                    }
                }
                return Ok(out);
            },
            Some(Ok(v)) => {
                proof {
                    parser::lemma_parse_progress(
                        tv,
                        pos0,
                        Seq::empty(),
                        parser::parse_fuel(tv, pos0),
                    );
                    let vv = v@;
                    if let Ok(vs2) = spec_run(tv, ex@.pos, fuel as nat) {
                        assert(executor::values_view(out@.push(v)) =~= executor::values_view(out@)
                            + seq![vv]);
                        assert(executor::values_view(out@) + (seq![vv] + vs2)
                            =~= executor::values_view(out@.push(v)) + vs2);
                    }
                }
                out.push(v);
            },
            Some(Err(e)) => {
                return Err(EvalError::Runtime(e));
            },
        }
    }
}

// ---------------------------------------------------------------------------
// Fence stripping
// ---------------------------------------------------------------------------

/// A message may arrive wrapped in a code fence: three backticks with or
/// without a newline after the opening fence, or single backticks.  Where
/// both fences of a pair are present they are stripped; anything else is
/// left exactly as given.
pub open spec fn spec_strip_fences(s: Seq<char>) -> Seq<char> {
    if s.len() >= 4 && s[0] == '`' && s[1] == '`' && s[2] == '`' && s[3] == '\n' {
        if s.len() >= 7 && s[s.len() - 3] == '`' && s[s.len() - 2] == '`' && s[s.len() - 1]
            == '`' {
            s.subrange(4, s.len() - 3)
        } else {
            s
        }
    } else if s.len() >= 3 && s[0] == '`' && s[1] == '`' && s[2] == '`' {
        if s.len() >= 6 && s[s.len() - 3] == '`' && s[s.len() - 2] == '`' && s[s.len() - 1]
            == '`' {
            s.subrange(3, s.len() - 3)
        } else {
            s
        }
    } else if s.len() >= 1 && s[0] == '`' {
        if s.len() >= 2 && s[s.len() - 1] == '`' {
            s.subrange(1, s.len() - 1)
        } else {
            s
        }
    } else {
        s
    }
}

/// Copy a range of a character vector into a string.
fn chars_range_string(v: &Vec<char>, from: usize, to: usize) -> (r: String)
    requires
        from <= to <= v@.len(),
    ensures
        r@ == v@.subrange(from as int, to as int),
{
    let mut out: Vec<char> = Vec::new();
    let mut i = from;
    while i < to
        invariant
            from <= i <= to <= v@.len(),
            out@ == v@.subrange(from as int, i as int),
        decreases to - i,
    {
        out.push(v[i]);
        proof {
            assert(out@ =~= v@.subrange(from as int, i + 1));
        }
        i = i + 1;
    }
    text::chars_to_string(&out)
}

/// Strip a surrounding code fence, where one is present on both sides.
pub fn strip_fences(src: &str) -> (r: String)
    ensures
        r@ == spec_strip_fences(src@),
{
    let chars = text::str_to_chars(src);
    let n = chars.len();
    if n >= 4 && chars[0] == '`' && chars[1] == '`' && chars[2] == '`' && chars[3] == '\n' {
        if n >= 7 && chars[n - 3] == '`' && chars[n - 2] == '`' && chars[n - 1] == '`' {
            chars_range_string(&chars, 4, n - 3)
        } else {
            src.to_owned()
        }
    } else if n >= 3 && chars[0] == '`' && chars[1] == '`' && chars[2] == '`' {
        if n >= 6 && chars[n - 3] == '`' && chars[n - 2] == '`' && chars[n - 1] == '`' {
            chars_range_string(&chars, 3, n - 3)
        } else {
            src.to_owned()
        }
    } else if n >= 1 && chars[0] == '`' {
        if n >= 2 && chars[n - 1] == '`' {
            chars_range_string(&chars, 1, n - 1)
        } else {
            src.to_owned()
        }
    } else {
        src.to_owned()
    }
}

} // verus!
