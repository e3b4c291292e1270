//! The parser: a recursive-descent reader of the prefix (Polish-notation)
//! grammar.  Every operator token is followed by exactly as many
//! sub-expressions as it needs; an identifier that names a function known to
//! the parser consumes that function's declared number of arguments, and any
//! other identifier is a variable reference.  The parser keeps its own
//! copy-on-write map from identifier to declared arity, so nested function
//! declarations shadow outer ones while their sub-trees are read.

use crate::tokenizer::{tokens_view, Num, Op, Token, TokenV};
use crate::value::{Value, ValueV};
use vstd::prelude::*;

verus! {

broadcast use vstd::std_specs::vec::group_vec_axioms;

/// The advisory type attached to declarations; the executor never reads it.
pub enum Type {
    Float,
    Int,
    Bool,
    Str,
    Nil,
    Any,
    Function(Box<Type>, Vec<Type>),
}

/// A function header: its name, advisory return type, and parameters.
pub struct FunctionDeclaration {
    pub name: String,
    pub r: Type,
    pub args: Vec<(String, Type)>,
}

/// A syntax tree, one variant per language construct.
pub enum ParseTree {
    Add(Box<ParseTree>, Box<ParseTree>),
    Sub(Box<ParseTree>, Box<ParseTree>),
    Mul(Box<ParseTree>, Box<ParseTree>),
    Div(Box<ParseTree>, Box<ParseTree>),
    Exp(Box<ParseTree>, Box<ParseTree>),
    Mod(Box<ParseTree>, Box<ParseTree>),
    EqualTo(Box<ParseTree>, Box<ParseTree>),
    GreaterThan(Box<ParseTree>, Box<ParseTree>),
    GreaterThanOrEqualTo(Box<ParseTree>, Box<ParseTree>),
    LessThan(Box<ParseTree>, Box<ParseTree>),
    LessThanOrEqualTo(Box<ParseTree>, Box<ParseTree>),
    Not(Box<ParseTree>),
    /// Eager bind: name, value expression, continuation scope.
    Equ(String, Box<ParseTree>, Box<ParseTree>),
    /// Lazy bind: the value expression is stored unevaluated.
    LazyEqu(String, Box<ParseTree>, Box<ParseTree>),
    /// Reserved global eager bind; evaluation for it is not defined.
    GlobalEqu(String, Box<ParseTree>),
    /// Reserved global lazy bind; evaluation for it is not defined.
    LazyGlobalEqu(String, Box<ParseTree>),
    /// Name, parameters, advisory return type, body, continuation scope.
    FunctionDefinition(String, Vec<(String, Type)>, Type, Box<ParseTree>, Box<ParseTree>),
    Compose(Box<ParseTree>, Box<ParseTree>),
    Id(Box<ParseTree>),
    If(Box<ParseTree>, Box<ParseTree>),
    IfElse(Box<ParseTree>, Box<ParseTree>, Box<ParseTree>),
    FunctionCall(String, Vec<ParseTree>),
    Variable(String),
    Constant(Value),
}

/// Mathematical model of a [`ParseTree`].  Advisory types are not part of
/// the model; parameters appear by name.
pub enum TreeV {
    Add(Box<TreeV>, Box<TreeV>),
    Sub(Box<TreeV>, Box<TreeV>),
    Mul(Box<TreeV>, Box<TreeV>),
    Div(Box<TreeV>, Box<TreeV>),
    Exp(Box<TreeV>, Box<TreeV>),
    Mod(Box<TreeV>, Box<TreeV>),
    EqualTo(Box<TreeV>, Box<TreeV>),
    GreaterThan(Box<TreeV>, Box<TreeV>),
    GreaterThanOrEqualTo(Box<TreeV>, Box<TreeV>),
    LessThan(Box<TreeV>, Box<TreeV>),
    LessThanOrEqualTo(Box<TreeV>, Box<TreeV>),
    Not(Box<TreeV>),
    Equ(Seq<char>, Box<TreeV>, Box<TreeV>),
    LazyEqu(Seq<char>, Box<TreeV>, Box<TreeV>),
    GlobalEqu(Seq<char>, Box<TreeV>),
    LazyGlobalEqu(Seq<char>, Box<TreeV>),
    FunctionDefinition(Seq<char>, Seq<Seq<char>>, Box<TreeV>, Box<TreeV>),
    Compose(Box<TreeV>, Box<TreeV>),
    Id(Box<TreeV>),
    If(Box<TreeV>, Box<TreeV>),
    IfElse(Box<TreeV>, Box<TreeV>, Box<TreeV>),
    FunctionCall(Seq<char>, Seq<TreeV>),
    Variable(Seq<char>),
    Constant(ValueV),
}

/// The parameter names of a declared parameter list.
pub open spec fn params_view(args: Seq<(String, Type)>) -> Seq<Seq<char>> {
    args.map_values(|p: (String, Type)| p.0@)
}

/// The models of a run of syntax trees, in order.
pub open spec fn trees_view(s: Seq<ParseTree>) -> Seq<TreeV>
    decreases s,
{
    if s.len() == 0 {
        Seq::empty()
    } else {
        trees_view(s.drop_last()).push(tree_view(s.last()))
    }
}

/// The model of a syntax tree.
pub open spec fn tree_view(t: ParseTree) -> TreeV
    decreases t,
{
    match t {
        ParseTree::Add(a, b) => TreeV::Add(Box::new(tree_view(*a)), Box::new(tree_view(*b))),
        ParseTree::Sub(a, b) => TreeV::Sub(Box::new(tree_view(*a)), Box::new(tree_view(*b))),
        ParseTree::Mul(a, b) => TreeV::Mul(Box::new(tree_view(*a)), Box::new(tree_view(*b))),
        ParseTree::Div(a, b) => TreeV::Div(Box::new(tree_view(*a)), Box::new(tree_view(*b))),
        ParseTree::Exp(a, b) => TreeV::Exp(Box::new(tree_view(*a)), Box::new(tree_view(*b))),
        ParseTree::Mod(a, b) => TreeV::Mod(Box::new(tree_view(*a)), Box::new(tree_view(*b))),
        ParseTree::EqualTo(a, b) => TreeV::EqualTo(
            Box::new(tree_view(*a)),
            Box::new(tree_view(*b)),
        ),
        ParseTree::GreaterThan(a, b) => TreeV::GreaterThan(
            Box::new(tree_view(*a)),
            Box::new(tree_view(*b)),
        ),
        ParseTree::GreaterThanOrEqualTo(a, b) => TreeV::GreaterThanOrEqualTo(
            Box::new(tree_view(*a)),
            Box::new(tree_view(*b)),
        ),
        ParseTree::LessThan(a, b) => TreeV::LessThan(
            Box::new(tree_view(*a)),
            Box::new(tree_view(*b)),
        ),
        ParseTree::LessThanOrEqualTo(a, b) => TreeV::LessThanOrEqualTo(
            Box::new(tree_view(*a)),
            Box::new(tree_view(*b)),
        ),
        ParseTree::Not(a) => TreeV::Not(Box::new(tree_view(*a))),
        ParseTree::Equ(n, a, b) => TreeV::Equ(n@, Box::new(tree_view(*a)), Box::new(tree_view(*b))),
        ParseTree::LazyEqu(n, a, b) => TreeV::LazyEqu(
            n@,
            Box::new(tree_view(*a)),
            Box::new(tree_view(*b)),
        ),
        ParseTree::GlobalEqu(n, a) => TreeV::GlobalEqu(n@, Box::new(tree_view(*a))),
        ParseTree::LazyGlobalEqu(n, a) => TreeV::LazyGlobalEqu(n@, Box::new(tree_view(*a))),
        ParseTree::FunctionDefinition(n, args, _r, a, b) => TreeV::FunctionDefinition(
            n@,
            params_view(args@),
            Box::new(tree_view(*a)),
            Box::new(tree_view(*b)),
        ),
        ParseTree::Compose(a, b) => TreeV::Compose(
            Box::new(tree_view(*a)),
            Box::new(tree_view(*b)),
        ),
        ParseTree::Id(a) => TreeV::Id(Box::new(tree_view(*a))),
        ParseTree::If(a, b) => TreeV::If(Box::new(tree_view(*a)), Box::new(tree_view(*b))),
        ParseTree::IfElse(a, b, c) => TreeV::IfElse(
            Box::new(tree_view(*a)),
            Box::new(tree_view(*b)),
            Box::new(tree_view(*c)),
        ),
        ParseTree::FunctionCall(n, args) => TreeV::FunctionCall(n@, trees_view(args@)),
        ParseTree::Variable(n) => TreeV::Variable(n@),
        ParseTree::Constant(v) => TreeV::Constant(v@),
    }
}

impl View for ParseTree {
    type V = TreeV;

    open spec fn view(&self) -> TreeV {
        tree_view(*self)
    }
}

/// A parse failure.
#[derive(Debug, Clone, PartialEq)]
pub enum ParseError {
    /// The token stream ended in the middle of a construct.
    UnexpectedEndInput,
    /// A name was referenced that the parser cannot resolve.
    IdentifierUndefined(String),
    /// A position that demands an identifier held something else.
    InvalidIdentifier,
    /// A function was applied before any definition was seen.
    FunctionUndefined,
    /// A variable was read before any binding was seen.
    VariableUndefined,
}

/// Mathematical model of a [`ParseError`].
pub enum ParseErrorV {
    UnexpectedEndInput,
    IdentifierUndefined(Seq<char>),
    InvalidIdentifier,
    FunctionUndefined,
    VariableUndefined,
}

impl View for ParseError {
    type V = ParseErrorV;

    open spec fn view(&self) -> ParseErrorV {
        match self {
            ParseError::UnexpectedEndInput => ParseErrorV::UnexpectedEndInput,
            ParseError::IdentifierUndefined(s) => ParseErrorV::IdentifierUndefined(s@),
            ParseError::InvalidIdentifier => ParseErrorV::InvalidIdentifier,
            ParseError::FunctionUndefined => ParseErrorV::FunctionUndefined,
            ParseError::VariableUndefined => ParseErrorV::VariableUndefined,
        }
    }
}

/// The value of a scalar token.
pub open spec fn num_value(n: Num) -> ValueV {
    match n {
        Num::Int(i) => ValueV::Int(i),
        Num::Float(b) => ValueV::Float(b),
    }
}

/// The arity map the parser threads through a parse: name and declared
/// parameter count, later entries shadowing earlier ones.
pub open spec fn arity_lookup(env: Seq<(Seq<char>, usize)>, name: Seq<char>) -> Option<usize>
    decreases env.len(),
{
    if env.len() == 0 {
        None
    } else if env.last().0 == name {
        Some(env.last().1)
    } else {
        arity_lookup(env.drop_last(), name)
    }
}

/// The outcome of reading one expression: the tree and the next position,
/// a failure, or exhaustion of the recursion allowance (which the reader
/// below never reports when the allowance covers the tokens left).
pub enum ParseOut {
    Done(TreeV, int),
    Fail(ParseErrorV),
    Short,
}

/// The outcome of reading a run of argument expressions.
pub enum ArgsOut {
    DoneArgs(Seq<TreeV>, int),
    FailArgs(ParseErrorV),
    ShortArgs,
}

/// Read the declared parameter names: exactly `k` identifier tokens.
pub open spec fn spec_params(toks: Seq<TokenV>, pos: int, k: nat) -> Result<
    (Seq<Seq<char>>, int),
    ParseErrorV,
>
    decreases k,
{
    if k == 0 {
        Ok((Seq::empty(), pos))
    } else if !(0 <= pos < toks.len()) {
        Err(ParseErrorV::UnexpectedEndInput)
    } else {
        match toks[pos] {
            TokenV::Identifier(name) => match spec_params(toks, pos + 1, (k - 1) as nat) {
                Ok((rest, p)) => Ok((seq![name] + rest, p)),
                Err(e) => Err(e),
            },
            _ => Err(ParseErrorV::InvalidIdentifier),
        }
    }
}

/// Read one expression rooted at `pos`.  Each operator consumes its fixed
/// operand count; a bind form first takes an identifier; a declare form
/// takes an identifier, its parameters, then body and continuation with the
/// new arity visible; an identifier with a known arity consumes that many
/// arguments.
pub open spec fn spec_parse(
    toks: Seq<TokenV>,
    pos: int,
    env: Seq<(Seq<char>, usize)>,
    fuel: nat,
) -> ParseOut
    decreases fuel,
{
    if fuel == 0 {
        ParseOut::Short
    } else if !(0 <= pos < toks.len()) {
        ParseOut::Fail(ParseErrorV::UnexpectedEndInput)
    } else {
        match toks[pos] {
            TokenV::Scalar(n) => ParseOut::Done(TreeV::Constant(num_value(n)), pos + 1),
            TokenV::Identifier(name) => match arity_lookup(env, name) {
                Some(k) => match spec_parse_args(toks, pos + 1, env, k as nat, (fuel - 1) as nat) {
                    ArgsOut::DoneArgs(args, p) => ParseOut::Done(
                        TreeV::FunctionCall(name, args),
                        p,
                    ),
                    ArgsOut::FailArgs(e) => ParseOut::Fail(e),
                    ArgsOut::ShortArgs => ParseOut::Short,
                },
                None => ParseOut::Done(TreeV::Variable(name), pos + 1),
            },
            TokenV::Operator(op) => match op {
                Op::Add => spec_parse_two(toks, pos + 1, env, (fuel - 1) as nat, BinaryOp::Add),
                Op::Sub => spec_parse_two(toks, pos + 1, env, (fuel - 1) as nat, BinaryOp::Sub),
                Op::Mul => spec_parse_two(toks, pos + 1, env, (fuel - 1) as nat, BinaryOp::Mul),
                Op::Div => spec_parse_two(toks, pos + 1, env, (fuel - 1) as nat, BinaryOp::Div),
                Op::Exp => spec_parse_two(toks, pos + 1, env, (fuel - 1) as nat, BinaryOp::Exp),
                Op::Mod => spec_parse_two(toks, pos + 1, env, (fuel - 1) as nat, BinaryOp::Mod),
                Op::EqualTo => spec_parse_two(toks, pos + 1, env, (fuel - 1) as nat, BinaryOp::EqualTo),
                Op::GreaterThan => spec_parse_two(
                    toks,
                    pos + 1,
                    env,
                    (fuel - 1) as nat,
                    BinaryOp::GreaterThan,
                ),
                Op::GreaterThanOrEqualTo => spec_parse_two(
                    toks,
                    pos + 1,
                    env,
                    (fuel - 1) as nat,
                    BinaryOp::GreaterThanOrEqualTo,
                ),
                Op::LessThan => spec_parse_two(
                    toks,
                    pos + 1,
                    env,
                    (fuel - 1) as nat,
                    BinaryOp::LessThan,
                ),
                Op::LessThanOrEqualTo => spec_parse_two(
                    toks,
                    pos + 1,
                    env,
                    (fuel - 1) as nat,
                    BinaryOp::LessThanOrEqualTo,
                ),
                Op::Compose => spec_parse_two(toks, pos + 1, env, (fuel - 1) as nat, BinaryOp::Compose),
                Op::If => spec_parse_two(toks, pos + 1, env, (fuel - 1) as nat, BinaryOp::If),
                Op::Not => match spec_parse(toks, pos + 1, env, (fuel - 1) as nat) {
                    ParseOut::Done(a, p) => ParseOut::Done(TreeV::Not(Box::new(a)), p),
                    other => other,
                },
                Op::Id => match spec_parse(toks, pos + 1, env, (fuel - 1) as nat) {
                    ParseOut::Done(a, p) => ParseOut::Done(TreeV::Id(Box::new(a)), p),
                    other => other,
                },
                Op::IfElse => match spec_parse(toks, pos + 1, env, (fuel - 1) as nat) {
                    ParseOut::Done(c, p1) => match spec_parse(toks, p1, env, (fuel - 1) as nat) {
                        ParseOut::Done(t, p2) => match spec_parse(
                            toks,
                            p2,
                            env,
                            (fuel - 1) as nat,
                        ) {
                            ParseOut::Done(e, p3) => ParseOut::Done(
                                TreeV::IfElse(Box::new(c), Box::new(t), Box::new(e)),
                                p3,
                            ),
                            other => other,
                        },
                        other => other,
                    },
                    other => other,
                },
                Op::Equ => spec_parse_bind(toks, pos + 1, env, (fuel - 1) as nat, false),
                Op::LazyEqu => spec_parse_bind(toks, pos + 1, env, (fuel - 1) as nat, true),
                Op::GlobalEqu => spec_parse_global(toks, pos + 1, env, (fuel - 1) as nat, false),
                Op::LazyGlobalEqu => spec_parse_global(toks, pos + 1, env, (fuel - 1) as nat, true),
                Op::FunctionDeclare(k) => if !(pos + 1 < toks.len()) {
                    ParseOut::Fail(ParseErrorV::UnexpectedEndInput)
                } else {
                    match toks[pos + 1] {
                        TokenV::Identifier(name) => match spec_params(toks, pos + 2, k as nat) {
                            Ok((params, p1)) => {
                                let env2 = env.push((name, k));
                                match spec_parse(toks, p1, env2, (fuel - 1) as nat) {
                                    ParseOut::Done(body, p2) => match spec_parse(
                                        toks,
                                        p2,
                                        env2,
                                        (fuel - 1) as nat,
                                    ) {
                                        ParseOut::Done(scope, p3) => ParseOut::Done(
                                            TreeV::FunctionDefinition(
                                                name,
                                                params,
                                                Box::new(body),
                                                Box::new(scope),
                                            ),
                                            p3,
                                        ),
                                        other => other,
                                    },
                                    other => other,
                                }
                            },
                            Err(e) => ParseOut::Fail(e),
                        },
                        _ => ParseOut::Fail(ParseErrorV::InvalidIdentifier),
                    }
                },
            },
        }
    }
}

/// The binary constructs, so the reader above can share one two-operand
/// path.
#[derive(Debug, Clone, Copy)]
pub enum BinaryOp {
    Add,
    Sub,
    Mul,
    Div,
    Exp,
    Mod,
    EqualTo,
    GreaterThan,
    GreaterThanOrEqualTo,
    LessThan,
    LessThanOrEqualTo,
    Compose,
    If,
}

/// Build the tree of a two-operand construct.
pub open spec fn make_two(op: BinaryOp, a: TreeV, b: TreeV) -> TreeV {
    match op {
        BinaryOp::Add => TreeV::Add(Box::new(a), Box::new(b)),
        BinaryOp::Sub => TreeV::Sub(Box::new(a), Box::new(b)),
        BinaryOp::Mul => TreeV::Mul(Box::new(a), Box::new(b)),
        BinaryOp::Div => TreeV::Div(Box::new(a), Box::new(b)),
        BinaryOp::Exp => TreeV::Exp(Box::new(a), Box::new(b)),
        BinaryOp::Mod => TreeV::Mod(Box::new(a), Box::new(b)),
        BinaryOp::EqualTo => TreeV::EqualTo(Box::new(a), Box::new(b)),
        BinaryOp::GreaterThan => TreeV::GreaterThan(Box::new(a), Box::new(b)),
        BinaryOp::GreaterThanOrEqualTo => TreeV::GreaterThanOrEqualTo(Box::new(a), Box::new(b)),
        BinaryOp::LessThan => TreeV::LessThan(Box::new(a), Box::new(b)),
        BinaryOp::LessThanOrEqualTo => TreeV::LessThanOrEqualTo(Box::new(a), Box::new(b)),
        BinaryOp::Compose => TreeV::Compose(Box::new(a), Box::new(b)),
        BinaryOp::If => TreeV::If(Box::new(a), Box::new(b)),
    }
}

/// Read two operands and build the construct.
pub open spec fn spec_parse_two(
    toks: Seq<TokenV>,
    pos: int,
    env: Seq<(Seq<char>, usize)>,
    fuel: nat,
    op: BinaryOp,
) -> ParseOut
    decreases fuel,
{
    if fuel == 0 {
        ParseOut::Short
    } else {
        match spec_parse(toks, pos, env, (fuel - 1) as nat) {
            ParseOut::Done(a, p1) => match spec_parse(toks, p1, env, (fuel - 1) as nat) {
                ParseOut::Done(b, p2) => ParseOut::Done(make_two(op, a, b), p2),
                other => other,
            },
            other => other,
        }
    }
}

/// Read the identifier and two operands of a local bind.
pub open spec fn spec_parse_bind(
    toks: Seq<TokenV>,
    pos: int,
    env: Seq<(Seq<char>, usize)>,
    fuel: nat,
    lazy: bool,
) -> ParseOut
    decreases fuel,
{
    if fuel == 0 {
        ParseOut::Short
    } else if !(0 <= pos < toks.len()) {
        ParseOut::Fail(ParseErrorV::UnexpectedEndInput)
    } else {
        match toks[pos] {
            TokenV::Identifier(name) => match spec_parse(toks, pos + 1, env, (fuel - 1) as nat) {
                ParseOut::Done(a, p1) => match spec_parse(toks, p1, env, (fuel - 1) as nat) {
                    ParseOut::Done(b, p2) => ParseOut::Done(
                        if lazy {
                            TreeV::LazyEqu(name, Box::new(a), Box::new(b))
                        } else {
                            TreeV::Equ(name, Box::new(a), Box::new(b))
                        },
                        p2,
                    ),
                    other => other,
                },
                other => other,
            },
            _ => ParseOut::Fail(ParseErrorV::InvalidIdentifier),
        }
    }
}

/// Read the identifier and single operand of a reserved global bind.
pub open spec fn spec_parse_global(
    toks: Seq<TokenV>,
    pos: int,
    env: Seq<(Seq<char>, usize)>,
    fuel: nat,
    lazy: bool,
) -> ParseOut
    decreases fuel,
{
    if fuel == 0 {
        ParseOut::Short
    } else if !(0 <= pos < toks.len()) {
        ParseOut::Fail(ParseErrorV::UnexpectedEndInput)
    } else {
        match toks[pos] {
            TokenV::Identifier(name) => match spec_parse(toks, pos + 1, env, (fuel - 1) as nat) {
                ParseOut::Done(a, p1) => ParseOut::Done(
                    if lazy {
                        TreeV::LazyGlobalEqu(name, Box::new(a))
                    } else {
                        TreeV::GlobalEqu(name, Box::new(a))
                    },
                    p1,
                ),
                other => other,
            },
            _ => ParseOut::Fail(ParseErrorV::InvalidIdentifier),
        }
    }
}

/// Read `k` argument expressions in order.
pub open spec fn spec_parse_args(
    toks: Seq<TokenV>,
    pos: int,
    env: Seq<(Seq<char>, usize)>,
    k: nat,
    fuel: nat,
) -> ArgsOut
    decreases fuel,
{
    if k == 0 {
        ArgsOut::DoneArgs(Seq::empty(), pos)
    } else if fuel == 0 {
        ArgsOut::ShortArgs
    } else {
        match spec_parse(toks, pos, env, (fuel - 1) as nat) {
            ParseOut::Done(a, p1) => match spec_parse_args(
                toks,
                p1,
                env,
                (k - 1) as nat,
                (fuel - 1) as nat,
            ) {
                ArgsOut::DoneArgs(rest, p2) => ArgsOut::DoneArgs(seq![a] + rest, p2),
                other => other,
            },
            ParseOut::Fail(e) => ArgsOut::FailArgs(e),
            ParseOut::Short => ArgsOut::ShortArgs,
        }
    }
}

// ---------------------------------------------------------------------------
// The executable parser
// ---------------------------------------------------------------------------

/// The model of the parser's arity map.
pub open spec fn arity_view(env: Seq<(String, usize)>) -> Seq<(Seq<char>, usize)> {
    env.map_values(|p: (String, usize)| (p.0@, p.1))
}

/// Whether a parse outcome is the given result and next position.
pub open spec fn parse_out_match(o: ParseOut, res: Result<ParseTree, ParseError>, p: int) -> bool {
    match o {
        ParseOut::Done(tv, q) => match res {
            Ok(t) => t@ == tv && p == q,
            Err(_) => false,
        },
        ParseOut::Fail(e) => match res {
            Ok(_) => false,
            Err(er) => er@ == e,
        },
        ParseOut::Short => false,
    }
}

/// Whether an argument-run outcome is the given result and next position.
pub open spec fn args_out_match(
    o: ArgsOut,
    res: Result<Vec<ParseTree>, ParseError>,
    p: int,
) -> bool {
    match o {
        ArgsOut::DoneArgs(avs, q) => match res {
            Ok(ts) => trees_view(ts@) == avs && p == q,
            Err(_) => false,
        },
        ArgsOut::FailArgs(e) => match res {
            Ok(_) => false,
            Err(er) => er@ == e,
        },
        ArgsOut::ShortArgs => false,
    }
}

/// The value a scalar token carries.
fn num_to_value(n: Num) -> (v: Value)
    ensures
        v@ == num_value(n),
{
    match n {
        Num::Int(i) => Value::Int(i),
        Num::Float(b) => Value::Float(b),
    }
}

/// Build the tree of a two-operand construct.
fn build_two(op: BinaryOp, a: ParseTree, b: ParseTree) -> (t: ParseTree)
    ensures
        t@ == make_two(op, a@, b@),
{
    match op {
        BinaryOp::Add => ParseTree::Add(Box::new(a), Box::new(b)),
        BinaryOp::Sub => ParseTree::Sub(Box::new(a), Box::new(b)),
        BinaryOp::Mul => ParseTree::Mul(Box::new(a), Box::new(b)),
        BinaryOp::Div => ParseTree::Div(Box::new(a), Box::new(b)),
        BinaryOp::Exp => ParseTree::Exp(Box::new(a), Box::new(b)),
        BinaryOp::Mod => ParseTree::Mod(Box::new(a), Box::new(b)),
        BinaryOp::EqualTo => ParseTree::EqualTo(Box::new(a), Box::new(b)),
        BinaryOp::GreaterThan => ParseTree::GreaterThan(Box::new(a), Box::new(b)),
        BinaryOp::GreaterThanOrEqualTo => ParseTree::GreaterThanOrEqualTo(Box::new(a), Box::new(b)),
        BinaryOp::LessThan => ParseTree::LessThan(Box::new(a), Box::new(b)),
        BinaryOp::LessThanOrEqualTo => ParseTree::LessThanOrEqualTo(Box::new(a), Box::new(b)),
        BinaryOp::Compose => ParseTree::Compose(Box::new(a), Box::new(b)),
        BinaryOp::If => ParseTree::If(Box::new(a), Box::new(b)),
    }
}

/// Look a name up in the arity map, later entries first.
fn arity_find(env: &Vec<(String, usize)>, name: &String) -> (r: Option<usize>)
    ensures
        r == arity_lookup(arity_view(env@), name@),
{
    let mut j = env.len();
    proof {
        assert(arity_view(env@).take(env@.len() as int) =~= arity_view(env@));
    }
    while j > 0
        invariant
            j <= env@.len(),
            arity_lookup(arity_view(env@), name@) == arity_lookup(
                arity_view(env@).take(j as int),
                name@,
            ),
        decreases j,
    {
        let entry = &env[j - 1];
        proof {
            assert(arity_view(env@).take(j as int).last() == (env@[j - 1].0@, env@[j - 1].1));
            assert(arity_view(env@).take(j as int).drop_last() =~= arity_view(env@).take(j - 1));
        }
        if entry.0.eq(name) {
            return Some(entry.1);
        }
        j = j - 1;
    }
    proof {
        assert(arity_view(env@).take(0) =~= Seq::<(Seq<char>, usize)>::empty());
    }
    None
}

/// Copy the arity map so a declaration can extend it for its own sub-trees.
fn clone_arities(env: &Vec<(String, usize)>) -> (r: Vec<(String, usize)>)
    ensures
        r@ == env@,
{
    let mut out: Vec<(String, usize)> = Vec::new();
    let mut i: usize = 0;
    while i < env.len()
        invariant
            i <= env@.len(),
            out@ == env@.take(i as int),
        decreases env@.len() - i,
    {
        let entry = &env[i];
        out.push((entry.0.clone(), entry.1));
        proof {
            assert(out@ =~= env@.take(i + 1));
        }
        i = i + 1;
    }
    proof {
        assert(env@.take(env@.len() as int) =~= env@);
    }
    out
}

/// Read the `k` declared parameter names, each carrying the advisory any
/// type.
fn parse_params(toks: &Vec<Token>, pos: usize, k: usize) -> (r: (
    Result<Vec<(String, Type)>, ParseError>,
    usize,
))
    requires
        pos <= toks@.len(),
    ensures
        pos <= r.1 <= toks@.len(),
        match spec_params(tokens_view(toks@), pos as int, k as nat) {
            Ok((names, q)) => match r.0 {
                Ok(ps) => params_view(ps@) == names && r.1 == q,
                Err(_) => false,
            },
            Err(e) => match r.0 {
                Ok(_) => false,
                Err(er) => er@ == e,
            },
        },
    decreases k,
{
    if k == 0 {
        proof {
            assert(params_view(Seq::<(String, Type)>::empty()) =~= Seq::<Seq<char>>::empty());
        }
        return (Ok(Vec::new()), pos);
    }
    if pos == toks.len() {
        return (Err(ParseError::UnexpectedEndInput), pos);
    }
    let tok = &toks[pos];
    proof {
        assert(tokens_view(toks@)[pos as int] == toks@[pos as int]@);
    }
    match tok {
        Token::Identifier(name) => {
            let first = name.clone();
            let (rest, p) = parse_params(toks, pos + 1, k - 1);
            match rest {
                Ok(mut ps) => {
                    ps.insert(0, (first, Type::Any));
                    proof {
                        let names = params_view(ps@);
                        assert(params_view(ps@) =~= seq![name@] + params_view(
                            ps@.subrange(1, ps@.len() as int),
                        ));
                    }
                    (Ok(ps), p)
                },
                Err(e) => (Err(e), p),
            }
        },
        _ => (Err(ParseError::InvalidIdentifier), pos),
    }
}

/// Read one expression rooted at `pos`, returning the tree and the next
/// position.  The contract ties the result to [`spec_parse`] at every
/// sufficient recursion allowance; since the reader returns no allowance
/// failure, such an allowance always suffices.
pub fn parse_expr(toks: &Vec<Token>, pos: usize, env: &Vec<(String, usize)>) -> (r: (
    Result<ParseTree, ParseError>,
    usize,
))
    requires
        pos <= toks@.len(),
    ensures
        r.1 <= toks@.len(),
        match r.0 {
            Ok(_) => pos < r.1,
            Err(_) => true,
        },
        forall|f: nat|
            f >= 2 * (toks@.len() - pos) + 2 ==> parse_out_match(
                #[trigger] spec_parse(tokens_view(toks@), pos as int, arity_view(env@), f),
                r.0,
                r.1 as int,
            ),
    decreases toks@.len() - pos, 0int,
{
    if pos == toks.len() {
        return (Err(ParseError::UnexpectedEndInput), pos);
    }
    let tok = &toks[pos];
    proof {
        assert(tokens_view(toks@)[pos as int] == toks@[pos as int]@);
    }
    match tok {
        Token::Scalar(n) => (Ok(ParseTree::Constant(num_to_value(*n))), pos + 1),
        Token::Identifier(name) => {
            match arity_find(env, name) {
                Some(k) => {
                    let (ra, p) = parse_args(toks, pos + 1, env, k);
                    proof {
                        let gt = tokens_view(toks@);
                        let en = arity_view(env@);
                        assert forall|f: nat|
                            #![trigger spec_parse(gt, pos as int, en, f)]
                            f >= 2 * (toks@.len() - pos) + 2 implies args_out_match(
                            spec_parse_args(gt, pos as int + 1, en, k as nat, (f - 1) as nat),
                            ra,
                            p as int,
                        ) by {
                            let f1 = (f - 1) as nat;
                            assert(f1 >= 2 * (toks@.len() - (pos + 1)) + 3);
                            assert(args_out_match(
                                spec_parse_args(gt, (pos + 1) as int, en, k as nat, f1),
                                ra,
                                p as int,
                            ));
                        }
                    }
                    match ra {
                        Ok(args) => (Ok(ParseTree::FunctionCall(name.clone(), args)), p),
                        Err(e) => (Err(e), p),
                    }
                },
                None => (Ok(ParseTree::Variable(name.clone())), pos + 1),
            }
        },
        Token::Operator(op) => {
            let o = *op;
            match o {
                Op::Add => {
                    let rr = parse_two(toks, pos + 1, env, BinaryOp::Add);
                    proof {
                        let gt = tokens_view(toks@);
                        let en = arity_view(env@);
                        assert forall|f: nat|
                            #![trigger spec_parse(gt, pos as int, en, f)]
                            f >= 2 * (toks@.len() - pos) + 2 implies parse_out_match(
                            spec_parse_two(gt, pos as int + 1, en, (f - 1) as nat, BinaryOp::Add),
                            rr.0,
                            rr.1 as int,
                        ) by {
                            let f1 = (f - 1) as nat;
                            assert(f1 >= 2 * (toks@.len() - (pos + 1)) + 3);
                            assert(parse_out_match(
                                spec_parse_two(gt, (pos + 1) as int, en, f1, BinaryOp::Add),
                                rr.0,
                                rr.1 as int,
                            ));
                        }
                    }
                    rr
                },
                Op::Sub => {
                    let rr = parse_two(toks, pos + 1, env, BinaryOp::Sub);
                    proof {
                        let gt = tokens_view(toks@);
                        let en = arity_view(env@);
                        assert forall|f: nat|
                            #![trigger spec_parse(gt, pos as int, en, f)]
                            f >= 2 * (toks@.len() - pos) + 2 implies parse_out_match(
                            spec_parse_two(gt, pos as int + 1, en, (f - 1) as nat, BinaryOp::Sub),
                            rr.0,
                            rr.1 as int,
                        ) by {
                            let f1 = (f - 1) as nat;
                            assert(f1 >= 2 * (toks@.len() - (pos + 1)) + 3);
                            assert(parse_out_match(
                                spec_parse_two(gt, (pos + 1) as int, en, f1, BinaryOp::Sub),
                                rr.0,
                                rr.1 as int,
                            ));
                        }
                    }
                    rr
                },
                Op::Mul => {
                    let rr = parse_two(toks, pos + 1, env, BinaryOp::Mul);
                    proof {
                        let gt = tokens_view(toks@);
                        let en = arity_view(env@);
                        assert forall|f: nat|
                            #![trigger spec_parse(gt, pos as int, en, f)]
                            f >= 2 * (toks@.len() - pos) + 2 implies parse_out_match(
                            spec_parse_two(gt, pos as int + 1, en, (f - 1) as nat, BinaryOp::Mul),
                            rr.0,
                            rr.1 as int,
                        ) by {
                            let f1 = (f - 1) as nat;
                            assert(f1 >= 2 * (toks@.len() - (pos + 1)) + 3);
                            assert(parse_out_match(
                                spec_parse_two(gt, (pos + 1) as int, en, f1, BinaryOp::Mul),
                                rr.0,
                                rr.1 as int,
                            ));
                        }
                    }
                    rr
                },
                Op::Div => {
                    let rr = parse_two(toks, pos + 1, env, BinaryOp::Div);
                    proof {
                        let gt = tokens_view(toks@);
                        let en = arity_view(env@);
                        assert forall|f: nat|
                            #![trigger spec_parse(gt, pos as int, en, f)]
                            f >= 2 * (toks@.len() - pos) + 2 implies parse_out_match(
                            spec_parse_two(gt, pos as int + 1, en, (f - 1) as nat, BinaryOp::Div),
                            rr.0,
                            rr.1 as int,
                        ) by {
                            let f1 = (f - 1) as nat;
                            assert(f1 >= 2 * (toks@.len() - (pos + 1)) + 3);
                            assert(parse_out_match(
                                spec_parse_two(gt, (pos + 1) as int, en, f1, BinaryOp::Div),
                                rr.0,
                                rr.1 as int,
                            ));
                        }
                    }
                    rr
                },
                Op::Exp => {
                    let rr = parse_two(toks, pos + 1, env, BinaryOp::Exp);
                    proof {
                        let gt = tokens_view(toks@);
                        let en = arity_view(env@);
                        assert forall|f: nat|
                            #![trigger spec_parse(gt, pos as int, en, f)]
                            f >= 2 * (toks@.len() - pos) + 2 implies parse_out_match(
                            spec_parse_two(gt, pos as int + 1, en, (f - 1) as nat, BinaryOp::Exp),
                            rr.0,
                            rr.1 as int,
                        ) by {
                            let f1 = (f - 1) as nat;
                            assert(f1 >= 2 * (toks@.len() - (pos + 1)) + 3);
                            assert(parse_out_match(
                                spec_parse_two(gt, (pos + 1) as int, en, f1, BinaryOp::Exp),
                                rr.0,
                                rr.1 as int,
                            ));
                        }
                    }
                    rr
                },
                Op::Mod => {
                    let rr = parse_two(toks, pos + 1, env, BinaryOp::Mod);
                    proof {
                        let gt = tokens_view(toks@);
                        let en = arity_view(env@);
                        assert forall|f: nat|
                            #![trigger spec_parse(gt, pos as int, en, f)]
                            f >= 2 * (toks@.len() - pos) + 2 implies parse_out_match(
                            spec_parse_two(gt, pos as int + 1, en, (f - 1) as nat, BinaryOp::Mod),
                            rr.0,
                            rr.1 as int,
                        ) by {
                            let f1 = (f - 1) as nat;
                            assert(f1 >= 2 * (toks@.len() - (pos + 1)) + 3);
                            assert(parse_out_match(
                                spec_parse_two(gt, (pos + 1) as int, en, f1, BinaryOp::Mod),
                                rr.0,
                                rr.1 as int,
                            ));
                        }
                    }
                    rr
                },
                Op::EqualTo => {
                    let rr = parse_two(toks, pos + 1, env, BinaryOp::EqualTo);
                    proof {
                        let gt = tokens_view(toks@);
                        let en = arity_view(env@);
                        assert forall|f: nat|
                            #![trigger spec_parse(gt, pos as int, en, f)]
                            f >= 2 * (toks@.len() - pos) + 2 implies parse_out_match(
                            spec_parse_two(gt, pos as int + 1, en, (f - 1) as nat, BinaryOp::EqualTo),
                            rr.0,
                            rr.1 as int,
                        ) by {
                            let f1 = (f - 1) as nat;
                            assert(f1 >= 2 * (toks@.len() - (pos + 1)) + 3);
                            assert(parse_out_match(
                                spec_parse_two(gt, (pos + 1) as int, en, f1, BinaryOp::EqualTo),
                                rr.0,
                                rr.1 as int,
                            ));
                        }
                    }
                    rr
                },
                Op::GreaterThan => {
                    let rr = parse_two(toks, pos + 1, env, BinaryOp::GreaterThan);
                    proof {
                        let gt = tokens_view(toks@);
                        let en = arity_view(env@);
                        assert forall|f: nat|
                            #![trigger spec_parse(gt, pos as int, en, f)]
                            f >= 2 * (toks@.len() - pos) + 2 implies parse_out_match(
                            spec_parse_two(gt, pos as int + 1, en, (f - 1) as nat, BinaryOp::GreaterThan),
                            rr.0,
                            rr.1 as int,
                        ) by {
                            let f1 = (f - 1) as nat;
                            assert(f1 >= 2 * (toks@.len() - (pos + 1)) + 3);
                            assert(parse_out_match(
                                spec_parse_two(gt, (pos + 1) as int, en, f1, BinaryOp::GreaterThan),
                                rr.0,
                                rr.1 as int,
                            ));
                        }
                    }
                    rr
                },
                Op::GreaterThanOrEqualTo => {
                    let rr = parse_two(toks, pos + 1, env, BinaryOp::GreaterThanOrEqualTo);
                    proof {
                        let gt = tokens_view(toks@);
                        let en = arity_view(env@);
                        assert forall|f: nat|
                            #![trigger spec_parse(gt, pos as int, en, f)]
                            f >= 2 * (toks@.len() - pos) + 2 implies parse_out_match(
                            spec_parse_two(gt, pos as int + 1, en, (f - 1) as nat, BinaryOp::GreaterThanOrEqualTo),
                            rr.0,
                            rr.1 as int,
                        ) by {
                            let f1 = (f - 1) as nat;
                            assert(f1 >= 2 * (toks@.len() - (pos + 1)) + 3);
                            assert(parse_out_match(
                                spec_parse_two(gt, (pos + 1) as int, en, f1, BinaryOp::GreaterThanOrEqualTo),
                                rr.0,
                                rr.1 as int,
                            ));
                        }
                    }
                    rr
                },
                Op::LessThan => {
                    let rr = parse_two(toks, pos + 1, env, BinaryOp::LessThan);
                    proof {
                        let gt = tokens_view(toks@);
                        let en = arity_view(env@);
                        assert forall|f: nat|
                            #![trigger spec_parse(gt, pos as int, en, f)]
                            f >= 2 * (toks@.len() - pos) + 2 implies parse_out_match(
                            spec_parse_two(gt, pos as int + 1, en, (f - 1) as nat, BinaryOp::LessThan),
                            rr.0,
                            rr.1 as int,
                        ) by {
                            let f1 = (f - 1) as nat;
                            assert(f1 >= 2 * (toks@.len() - (pos + 1)) + 3);
                            assert(parse_out_match(
                                spec_parse_two(gt, (pos + 1) as int, en, f1, BinaryOp::LessThan),
                                rr.0,
                                rr.1 as int,
                            ));
                        }
                    }
                    rr
                },
                Op::LessThanOrEqualTo => {
                    let rr = parse_two(toks, pos + 1, env, BinaryOp::LessThanOrEqualTo);
                    proof {
                        let gt = tokens_view(toks@);
                        let en = arity_view(env@);
                        assert forall|f: nat|
                            #![trigger spec_parse(gt, pos as int, en, f)]
                            f >= 2 * (toks@.len() - pos) + 2 implies parse_out_match(
                            spec_parse_two(gt, pos as int + 1, en, (f - 1) as nat, BinaryOp::LessThanOrEqualTo),
                            rr.0,
                            rr.1 as int,
                        ) by {
                            let f1 = (f - 1) as nat;
                            assert(f1 >= 2 * (toks@.len() - (pos + 1)) + 3);
                            assert(parse_out_match(
                                spec_parse_two(gt, (pos + 1) as int, en, f1, BinaryOp::LessThanOrEqualTo),
                                rr.0,
                                rr.1 as int,
                            ));
                        }
                    }
                    rr
                },
                Op::Compose => {
                    let rr = parse_two(toks, pos + 1, env, BinaryOp::Compose);
                    proof {
                        let gt = tokens_view(toks@);
                        let en = arity_view(env@);
                        assert forall|f: nat|
                            #![trigger spec_parse(gt, pos as int, en, f)]
                            f >= 2 * (toks@.len() - pos) + 2 implies parse_out_match(
                            spec_parse_two(gt, pos as int + 1, en, (f - 1) as nat, BinaryOp::Compose),
                            rr.0,
                            rr.1 as int,
                        ) by {
                            let f1 = (f - 1) as nat;
                            assert(f1 >= 2 * (toks@.len() - (pos + 1)) + 3);
                            assert(parse_out_match(
                                spec_parse_two(gt, (pos + 1) as int, en, f1, BinaryOp::Compose),
                                rr.0,
                                rr.1 as int,
                            ));
                        }
                    }
                    rr
                },
                Op::If => {
                    let rr = parse_two(toks, pos + 1, env, BinaryOp::If);
                    proof {
                        let gt = tokens_view(toks@);
                        let en = arity_view(env@);
                        assert forall|f: nat|
                            #![trigger spec_parse(gt, pos as int, en, f)]
                            f >= 2 * (toks@.len() - pos) + 2 implies parse_out_match(
                            spec_parse_two(gt, pos as int + 1, en, (f - 1) as nat, BinaryOp::If),
                            rr.0,
                            rr.1 as int,
                        ) by {
                            let f1 = (f - 1) as nat;
                            assert(f1 >= 2 * (toks@.len() - (pos + 1)) + 3);
                            assert(parse_out_match(
                                spec_parse_two(gt, (pos + 1) as int, en, f1, BinaryOp::If),
                                rr.0,
                                rr.1 as int,
                            ));
                        }
                    }
                    rr
                },
                Op::Not => {
                    let (ra, p) = parse_expr(toks, pos + 1, env);
                    proof {
                        let gt = tokens_view(toks@);
                        let en = arity_view(env@);
                        assert forall|f: nat|
                            #![trigger spec_parse(gt, pos as int, en, f)]
                            f >= 2 * (toks@.len() - pos) + 2 implies parse_out_match(
                            spec_parse(gt, pos as int + 1, en, (f - 1) as nat),
                            ra,
                            p as int,
                        ) by {
                            let f1 = (f - 1) as nat;
                            assert(f1 >= 2 * (toks@.len() - (pos + 1)) + 2);
                            assert(parse_out_match(spec_parse(gt, (pos + 1) as int, en, f1), ra, p as int));
                        }
                    }
                    match ra {
                        Ok(a) => (Ok(ParseTree::Not(Box::new(a))), p),
                        Err(e) => (Err(e), p),
                    }
                },
                Op::Id => {
                    let (ra, p) = parse_expr(toks, pos + 1, env);
                    proof {
                        let gt = tokens_view(toks@);
                        let en = arity_view(env@);
                        assert forall|f: nat|
                            #![trigger spec_parse(gt, pos as int, en, f)]
                            f >= 2 * (toks@.len() - pos) + 2 implies parse_out_match(
                            spec_parse(gt, pos as int + 1, en, (f - 1) as nat),
                            ra,
                            p as int,
                        ) by {
                            let f1 = (f - 1) as nat;
                            assert(f1 >= 2 * (toks@.len() - (pos + 1)) + 2);
                            assert(parse_out_match(spec_parse(gt, (pos + 1) as int, en, f1), ra, p as int));
                        }
                    }
                    match ra {
                        Ok(a) => (Ok(ParseTree::Id(Box::new(a))), p),
                        Err(e) => (Err(e), p),
                    }
                },
                Op::IfElse => {
                    let (rc, p1) = parse_expr(toks, pos + 1, env);
                    proof {
                        let gt = tokens_view(toks@);
                        let en = arity_view(env@);
                        assert forall|f: nat|
                            #![trigger spec_parse(gt, pos as int, en, f)]
                            f >= 2 * (toks@.len() - pos) + 2 implies parse_out_match(
                            spec_parse(gt, pos as int + 1, en, (f - 1) as nat),
                            rc,
                            p1 as int,
                        ) by {
                            let f1 = (f - 1) as nat;
                            assert(f1 >= 2 * (toks@.len() - (pos + 1)) + 2);
                            assert(parse_out_match(spec_parse(gt, (pos + 1) as int, en, f1), rc, p1 as int));
                        }
                    }
                    match rc {
                        Ok(c) => {
                            let (rt, p2) = parse_expr(toks, p1, env);
                            proof {
                                let gt = tokens_view(toks@);
                                let en = arity_view(env@);
                                assert forall|f: nat|
                                    #![trigger spec_parse(gt, pos as int, en, f)]
                                    f >= 2 * (toks@.len() - pos) + 2 implies parse_out_match(
                                    spec_parse(gt, p1 as int, en, (f - 1) as nat),
                                    rt,
                                    p2 as int,
                                ) by {
                                    let f1 = (f - 1) as nat;
                                    assert(f1 >= 2 * (toks@.len() - p1) + 2);
                                    assert(parse_out_match(spec_parse(gt, p1 as int, en, f1), rt, p2 as int));
                                }
                            }
                            match rt {
                                Ok(t) => {
                                    let (re, p3) = parse_expr(toks, p2, env);
                                    proof {
                                        let gt = tokens_view(toks@);
                                        let en = arity_view(env@);
                                        assert forall|f: nat|
                                            #![trigger spec_parse(gt, pos as int, en, f)]
                                            f >= 2 * (toks@.len() - pos) + 2 implies parse_out_match(
                                            spec_parse(gt, p2 as int, en, (f - 1) as nat),
                                            re,
                                            p3 as int,
                                        ) by {
                                            let f1 = (f - 1) as nat;
                                            assert(f1 >= 2 * (toks@.len() - p2) + 2);
                                            assert(parse_out_match(spec_parse(gt, p2 as int, en, f1), re, p3 as int));
                                        }
                                    }
                                    match re {
                                        Ok(e) => (
                                            Ok(
                                                ParseTree::IfElse(
                                                    Box::new(c),
                                                    Box::new(t),
                                                    Box::new(e),
                                                ),
                                            ),
                                            p3,
                                        ),
                                        Err(e) => (Err(e), p3),
                                    }
                                },
                                Err(e) => (Err(e), p2),
                            }
                        },
                        Err(e) => (Err(e), p1),
                    }
                },
                Op::Equ => {
                    let rr = parse_bind(toks, pos + 1, env, false);
                    proof {
                        let gt = tokens_view(toks@);
                        let en = arity_view(env@);
                        assert forall|f: nat|
                            #![trigger spec_parse(gt, pos as int, en, f)]
                            f >= 2 * (toks@.len() - pos) + 2 implies parse_out_match(
                            spec_parse_bind(gt, pos as int + 1, en, (f - 1) as nat, false),
                            rr.0,
                            rr.1 as int,
                        ) by {
                            let f1 = (f - 1) as nat;
                            assert(f1 >= 2 * (toks@.len() - (pos + 1)) + 3);
                            assert(parse_out_match(
                                spec_parse_bind(gt, (pos + 1) as int, en, f1, false),
                                rr.0,
                                rr.1 as int,
                            ));
                        }
                    }
                    rr
                },
                Op::LazyEqu => {
                    let rr = parse_bind(toks, pos + 1, env, true);
                    proof {
                        let gt = tokens_view(toks@);
                        let en = arity_view(env@);
                        assert forall|f: nat|
                            #![trigger spec_parse(gt, pos as int, en, f)]
                            f >= 2 * (toks@.len() - pos) + 2 implies parse_out_match(
                            spec_parse_bind(gt, pos as int + 1, en, (f - 1) as nat, true),
                            rr.0,
                            rr.1 as int,
                        ) by {
                            let f1 = (f - 1) as nat;
                            assert(f1 >= 2 * (toks@.len() - (pos + 1)) + 3);
                            assert(parse_out_match(
                                spec_parse_bind(gt, (pos + 1) as int, en, f1, true),
                                rr.0,
                                rr.1 as int,
                            ));
                        }
                    }
                    rr
                },
                Op::GlobalEqu => {
                    let rr = parse_global(toks, pos + 1, env, false);
                    proof {
                        let gt = tokens_view(toks@);
                        let en = arity_view(env@);
                        assert forall|f: nat|
                            #![trigger spec_parse(gt, pos as int, en, f)]
                            f >= 2 * (toks@.len() - pos) + 2 implies parse_out_match(
                            spec_parse_global(gt, pos as int + 1, en, (f - 1) as nat, false),
                            rr.0,
                            rr.1 as int,
                        ) by {
                            let f1 = (f - 1) as nat;
                            assert(f1 >= 2 * (toks@.len() - (pos + 1)) + 3);
                            assert(parse_out_match(
                                spec_parse_global(gt, (pos + 1) as int, en, f1, false),
                                rr.0,
                                rr.1 as int,
                            ));
                        }
                    }
                    rr
                },
                Op::LazyGlobalEqu => {
                    let rr = parse_global(toks, pos + 1, env, true);
                    proof {
                        let gt = tokens_view(toks@);
                        let en = arity_view(env@);
                        assert forall|f: nat|
                            #![trigger spec_parse(gt, pos as int, en, f)]
                            f >= 2 * (toks@.len() - pos) + 2 implies parse_out_match(
                            spec_parse_global(gt, pos as int + 1, en, (f - 1) as nat, true),
                            rr.0,
                            rr.1 as int,
                        ) by {
                            let f1 = (f - 1) as nat;
                            assert(f1 >= 2 * (toks@.len() - (pos + 1)) + 3);
                            assert(parse_out_match(
                                spec_parse_global(gt, (pos + 1) as int, en, f1, true),
                                rr.0,
                                rr.1 as int,
                            ));
                        }
                    }
                    rr
                },
                Op::FunctionDeclare(k) => {
                    if pos + 1 == toks.len() {
                        return (Err(ParseError::UnexpectedEndInput), pos + 1);
                    }
                    let tok2 = &toks[pos + 1];
                    proof {
                        assert(tokens_view(toks@)[pos + 1] == toks@[pos + 1]@);
                    }
                    match tok2 {
                        Token::Identifier(name) => {
                            let (pr, p1) = parse_params(toks, pos + 2, k);
                            match pr {
                                Ok(params) => {
                                    let mut env2 = clone_arities(env);
                                    env2.push((name.clone(), k));
                                    proof {
                                        assert(arity_view(env2@) =~= arity_view(env@).push(
                                            (name@, k),
                                        ));
                                    }
                                    let (rb, p2) = parse_expr(toks, p1, &env2);
                                    proof {
                                        let gt = tokens_view(toks@);
                                        let en = arity_view(env@);
                                        let en2 = arity_view(env2@);
                                        assert forall|f: nat|
                                            #![trigger spec_parse(gt, pos as int, en, f)]
                                            f >= 2 * (toks@.len() - pos) + 2 implies parse_out_match(
                                            spec_parse(gt, p1 as int, en.push((name@, k)), (f - 1) as nat),
                                            rb,
                                            p2 as int,
                                        ) by {
                                            let f1 = (f - 1) as nat;
                                            assert(f1 >= 2 * (toks@.len() - p1) + 2);
                                            assert(parse_out_match(spec_parse(gt, p1 as int, en2, f1), rb, p2 as int));
                                            assert(en2 == en.push((name@, k)));
                                        }
                                    }
                                    match rb {
                                        Ok(body) => {
                                            let (rs, p3) = parse_expr(toks, p2, &env2);
                                            proof {
                                                let gt = tokens_view(toks@);
                                                let en = arity_view(env@);
                                                let en2 = arity_view(env2@);
                                                assert forall|f: nat|
                                                    #![trigger spec_parse(gt, pos as int, en, f)]
                                                    f >= 2 * (toks@.len() - pos) + 2 implies parse_out_match(
                                                    spec_parse(gt, p2 as int, en.push((name@, k)), (f - 1) as nat),
                                                    rs,
                                                    p3 as int,
                                                ) by {
                                                    let f1 = (f - 1) as nat;
                                                    assert(f1 >= 2 * (toks@.len() - p2) + 2);
                                                    assert(parse_out_match(spec_parse(gt, p2 as int, en2, f1), rs, p3 as int));
                                                    assert(en2 == en.push((name@, k)));
                                                }
                                            }
                                            match rs {
                                                Ok(scope) => (
                                                    Ok(
                                                        ParseTree::FunctionDefinition(
                                                            name.clone(),
                                                            params,
                                                            Type::Any,
                                                            Box::new(body),
                                                            Box::new(scope),
                                                        ),
                                                    ),
                                                    p3,
                                                ),
                                                Err(e) => (Err(e), p3),
                                            }
                                        },
                                        Err(e) => (Err(e), p2),
                                    }
                                },
                                Err(e) => (Err(e), p1),
                            }
                        },
                        _ => (Err(ParseError::InvalidIdentifier), pos + 1),
                    }
                },
            }
        },
    }
}

/// Read the two operands of a binary construct.
fn parse_two(toks: &Vec<Token>, pos: usize, env: &Vec<(String, usize)>, op: BinaryOp) -> (r: (
    Result<ParseTree, ParseError>,
    usize,
))
    requires
        pos <= toks@.len(),
    ensures
        r.1 <= toks@.len(),
        match r.0 {
            Ok(_) => pos < r.1,
            Err(_) => true,
        },
        forall|f: nat|
            f >= 2 * (toks@.len() - pos) + 3 ==> parse_out_match(
                #[trigger] spec_parse_two(
                    tokens_view(toks@),
                    pos as int,
                    arity_view(env@),
                    f,
                    op,
                ),
                r.0,
                r.1 as int,
            ),
    decreases toks@.len() - pos, 1int,
{
    let (ra, p1) = parse_expr(toks, pos, env);
    proof {
        let gt = tokens_view(toks@);
        let en = arity_view(env@);
        assert forall|f: nat|
            #![trigger spec_parse_two(gt, pos as int, en, f, op)]
            f >= 2 * (toks@.len() - pos) + 3 implies parse_out_match(
            spec_parse(gt, pos as int, en, (f - 1) as nat),
            ra,
            p1 as int,
        ) by {
            let f1 = (f - 1) as nat;
            assert(f1 >= 2 * (toks@.len() - pos) + 2);
            assert(parse_out_match(spec_parse(gt, pos as int, en, f1), ra, p1 as int));
        }
    }
    match ra {
        Ok(a) => {
            let (rb, p2) = parse_expr(toks, p1, env);
            proof {
                let gt = tokens_view(toks@);
                let en = arity_view(env@);
                assert forall|f: nat|
                    #![trigger spec_parse_two(gt, pos as int, en, f, op)]
                    f >= 2 * (toks@.len() - pos) + 3 implies parse_out_match(
                    spec_parse(gt, p1 as int, en, (f - 1) as nat),
                    rb,
                    p2 as int,
                ) by {
                    let f1 = (f - 1) as nat;
                    assert(f1 >= 2 * (toks@.len() - p1) + 2);
                    assert(parse_out_match(spec_parse(gt, p1 as int, en, f1), rb, p2 as int));
                }
            }
            match rb {
                Ok(b) => (Ok(build_two(op, a, b)), p2),
                Err(e) => (Err(e), p2),
            }
        },
        Err(e) => (Err(e), p1),
    }
}

/// Read the identifier and two operands of a local bind.
fn parse_bind(toks: &Vec<Token>, pos: usize, env: &Vec<(String, usize)>, lazy: bool) -> (r: (
    Result<ParseTree, ParseError>,
    usize,
))
    requires
        pos <= toks@.len(),
    ensures
        r.1 <= toks@.len(),
        match r.0 {
            Ok(_) => pos < r.1,
            Err(_) => true,
        },
        forall|f: nat|
            f >= 2 * (toks@.len() - pos) + 3 ==> parse_out_match(
                #[trigger] spec_parse_bind(
                    tokens_view(toks@),
                    pos as int,
                    arity_view(env@),
                    f,
                    lazy,
                ),
                r.0,
                r.1 as int,
            ),
    decreases toks@.len() - pos, 1int,
{
    if pos == toks.len() {
        return (Err(ParseError::UnexpectedEndInput), pos);
    }
    let tok = &toks[pos];
    proof {
        assert(tokens_view(toks@)[pos as int] == toks@[pos as int]@);
    }
    match tok {
        Token::Identifier(name) => {
            let pos2 = pos + 1;
            let (ra, p1) = parse_expr(toks, pos2, env);
            proof {
                let gt = tokens_view(toks@);
                let en = arity_view(env@);
                assert forall|f: nat|
                    #![trigger spec_parse_bind(gt, pos as int, en, f, lazy)]
                    f >= 2 * (toks@.len() - pos) + 3 implies parse_out_match(
                    spec_parse(gt, pos as int + 1, en, (f - 1) as nat),
                    ra,
                    p1 as int,
                ) by {
                    let f1 = (f - 1) as nat;
                    assert(f1 >= 2 * (toks@.len() - pos2) + 2);
                    assert(parse_out_match(spec_parse(gt, pos2 as int, en, f1), ra, p1 as int));
                    assert(pos2 as int == pos as int + 1);
                }
            }
            match ra {
                Ok(a) => {
                    let (rb, p2) = parse_expr(toks, p1, env);
                    proof {
                        let gt = tokens_view(toks@);
                        let en = arity_view(env@);
                        assert forall|f: nat|
                            #![trigger spec_parse_bind(gt, pos as int, en, f, lazy)]
                            f >= 2 * (toks@.len() - pos) + 3 implies parse_out_match(
                            spec_parse(gt, p1 as int, en, (f - 1) as nat),
                            rb,
                            p2 as int,
                        ) by {
                            let f1 = (f - 1) as nat;
                            assert(f1 >= 2 * (toks@.len() - p1) + 2);
                            assert(parse_out_match(spec_parse(gt, p1 as int, en, f1), rb, p2 as int));
                        }
                    }
                    match rb {
                        Ok(b) => (
                            Ok(
                                if lazy {
                                    ParseTree::LazyEqu(name.clone(), Box::new(a), Box::new(b))
                                } else {
                                    ParseTree::Equ(name.clone(), Box::new(a), Box::new(b))
                                },
                            ),
                            p2,
                        ),
                        Err(e) => (Err(e), p2),
                    }
                },
                Err(e) => (Err(e), p1),
            }
        },
        _ => (Err(ParseError::InvalidIdentifier), pos),
    }
}

/// Read the identifier and single operand of a reserved global bind.
fn parse_global(toks: &Vec<Token>, pos: usize, env: &Vec<(String, usize)>, lazy: bool) -> (r: (
    Result<ParseTree, ParseError>,
    usize,
))
    requires
        pos <= toks@.len(),
    ensures
        r.1 <= toks@.len(),
        match r.0 {
            Ok(_) => pos < r.1,
            Err(_) => true,
        },
        forall|f: nat|
            f >= 2 * (toks@.len() - pos) + 3 ==> parse_out_match(
                #[trigger] spec_parse_global(
                    tokens_view(toks@),
                    pos as int,
                    arity_view(env@),
                    f,
                    lazy,
                ),
                r.0,
                r.1 as int,
            ),
    decreases toks@.len() - pos, 1int,
{
    if pos == toks.len() {
        return (Err(ParseError::UnexpectedEndInput), pos);
    }
    let tok = &toks[pos];
    proof {
        assert(tokens_view(toks@)[pos as int] == toks@[pos as int]@);
    }
    match tok {
        Token::Identifier(name) => {
            let pos2 = pos + 1;
            let (ra, p1) = parse_expr(toks, pos2, env);
            proof {
                let gt = tokens_view(toks@);
                let en = arity_view(env@);
                assert forall|f: nat|
                    #![trigger spec_parse_global(gt, pos as int, en, f, lazy)]
                    f >= 2 * (toks@.len() - pos) + 3 implies {
                    let o = spec_parse(gt, pos as int + 1, en, (f - 1) as nat);
                    parse_out_match(o, ra, p1 as int)
                } by {
                    let f1 = (f - 1) as nat;
                    assert(f1 >= 2 * (toks@.len() - pos2) + 2);
                    assert(parse_out_match(spec_parse(gt, pos2 as int, en, f1), ra, p1 as int));
                    assert(pos2 as int == pos as int + 1);
                }
            }
            match ra {
                Ok(a) => (
                    Ok(
                        if lazy {
                            ParseTree::LazyGlobalEqu(name.clone(), Box::new(a))
                        } else {
                            ParseTree::GlobalEqu(name.clone(), Box::new(a))
                        },
                    ),
                    p1,
                ),
                Err(e) => (Err(e), p1),
            }
        },
        _ => (Err(ParseError::InvalidIdentifier), pos),
    }
}

/// Read `k` argument expressions in order.
fn parse_args(toks: &Vec<Token>, pos: usize, env: &Vec<(String, usize)>, k: usize) -> (r: (
    Result<Vec<ParseTree>, ParseError>,
    usize,
))
    requires
        pos <= toks@.len(),
    ensures
        r.1 <= toks@.len(),
        match r.0 {
            Ok(_) => pos <= r.1,
            Err(_) => true,
        },
        forall|f: nat|
            f >= 2 * (toks@.len() - pos) + 3 ==> args_out_match(
                #[trigger] spec_parse_args(
                    tokens_view(toks@),
                    pos as int,
                    arity_view(env@),
                    k as nat,
                    f,
                ),
                r.0,
                r.1 as int,
            ),
    decreases toks@.len() - pos, 1int,
{
    if k == 0 {
        proof {
            assert(trees_view(Seq::<ParseTree>::empty()) =~= Seq::<TreeV>::empty());
        }
        return (Ok(Vec::new()), pos);
    }
    let (ra, p1) = parse_expr(toks, pos, env);
    proof {
        let gt = tokens_view(toks@);
        let en = arity_view(env@);
        assert forall|f: nat|
            #![trigger spec_parse_args(gt, pos as int, en, k as nat, f)]
            f >= 2 * (toks@.len() - pos) + 3 implies parse_out_match(
            spec_parse(gt, pos as int, en, (f - 1) as nat),
            ra,
            p1 as int,
        ) by {
            let f1 = (f - 1) as nat;
            assert(f1 >= 2 * (toks@.len() - pos) + 2);
            assert(parse_out_match(spec_parse(gt, pos as int, en, f1), ra, p1 as int));
        }
    }
    match ra {
        Ok(a) => {
            let ghost atree = a@;
            let (rr, p2) = parse_args(toks, p1, env, k - 1);
            proof {
                let gt = tokens_view(toks@);
                let en = arity_view(env@);
                assert forall|f: nat|
                    #![trigger spec_parse_args(gt, pos as int, en, k as nat, f)]
                    f >= 2 * (toks@.len() - pos) + 3 implies args_out_match(
                    spec_parse_args(gt, p1 as int, en, (k - 1) as nat, (f - 1) as nat),
                    rr,
                    p2 as int,
                ) by {
                    let f1 = (f - 1) as nat;
                    assert(f1 >= 2 * (toks@.len() - p1) + 3);
                    assert(args_out_match(
                        spec_parse_args(gt, p1 as int, en, (k - 1) as nat, f1),
                        rr,
                        p2 as int,
                    ));
                }
            }
            match rr {
                Ok(mut rest) => {
                    let ghost rest0 = rest@;
                    rest.insert(0, a);
                    proof {
                        assert(rest@ =~= seq![rest@[0]] + rest0);
                        lemma_trees_view_parts(rest@);
                        lemma_trees_view_parts(rest0);
                        assert(rest@[0]@ == atree);
                        assert(trees_view(rest@) =~= seq![atree] + trees_view(rest0));
                    }
                    (Ok(rest), p2)
                },
                Err(e) => (Err(e), p2),
            }
        },
        Err(e) => (Err(e), p1),
    }
}

/// The model of a run of trees, element by element.
pub proof fn lemma_trees_view_parts(s: Seq<ParseTree>)
    ensures
        trees_view(s).len() == s.len(),
        forall|i: int| 0 <= i < s.len() ==> #[trigger] trees_view(s)[i] == s[i]@,
    decreases s.len(),
{
    if s.len() > 0 {
        lemma_trees_view_parts(s.drop_last());
        assert forall|i: int| 0 <= i < s.len() implies #[trigger] trees_view(s)[i] == s[i]@ by {
            if i < s.len() - 1 {
                assert(trees_view(s)[i] == trees_view(s.drop_last())[i]);
                assert(s.drop_last()[i] == s[i]);
            } else {
                assert(trees_view(s)[i] == tree_view(s.last()));
            }
        }
    }
}


// ---------------------------------------------------------------------------
// The driver
// ---------------------------------------------------------------------------

/// The recursion allowance that always covers the tokens left.
pub open spec fn parse_fuel(toks: Seq<TokenV>, pos: int) -> nat {
    (2 * (toks.len() - pos) + 2) as nat
}

/// The outcome of reading one expression at `pos`, at the allowance that
/// always suffices.
pub open spec fn parse_at(toks: Seq<TokenV>, pos: int, env: Seq<(Seq<char>, usize)>) -> ParseOut {
    spec_parse(toks, pos, env, parse_fuel(toks, pos))
}

/// A successful read always moves past at least one token and never past
/// the end.
pub proof fn lemma_parse_progress(
    toks: Seq<TokenV>,
    pos: int,
    env: Seq<(Seq<char>, usize)>,
    fuel: nat,
)
    ensures
        match spec_parse(toks, pos, env, fuel) {
            ParseOut::Done(_, p) => pos < p <= toks.len(),
            _ => true,
        },
    decreases fuel, 5int,
{
    if fuel > 0 && 0 <= pos < toks.len() {
        let f1 = (fuel - 1) as nat;
        match toks[pos] {
            TokenV::Scalar(_) => {},
            TokenV::Identifier(name) => {
                if arity_lookup(env, name) is Some {
                    let k = arity_lookup(env, name)->0;
                    lemma_args_progress(toks, pos + 1, env, k as nat, f1);
                }
            },
            TokenV::Operator(op) => match op {
                Op::Add => lemma_two_progress(toks, pos + 1, env, f1, BinaryOp::Add),
                Op::Sub => lemma_two_progress(toks, pos + 1, env, f1, BinaryOp::Sub),
                Op::Mul => lemma_two_progress(toks, pos + 1, env, f1, BinaryOp::Mul),
                Op::Div => lemma_two_progress(toks, pos + 1, env, f1, BinaryOp::Div),
                Op::Exp => lemma_two_progress(toks, pos + 1, env, f1, BinaryOp::Exp),
                Op::Mod => lemma_two_progress(toks, pos + 1, env, f1, BinaryOp::Mod),
                Op::EqualTo => lemma_two_progress(toks, pos + 1, env, f1, BinaryOp::EqualTo),
                Op::GreaterThan => lemma_two_progress(toks, pos + 1, env, f1, BinaryOp::GreaterThan),
                Op::GreaterThanOrEqualTo => lemma_two_progress(
                    toks,
                    pos + 1,
                    env,
                    f1,
                    BinaryOp::GreaterThanOrEqualTo,
                ),
                Op::LessThan => lemma_two_progress(toks, pos + 1, env, f1, BinaryOp::LessThan),
                Op::LessThanOrEqualTo => lemma_two_progress(
                    toks,
                    pos + 1,
                    env,
                    f1,
                    BinaryOp::LessThanOrEqualTo,
                ),
                Op::Compose => lemma_two_progress(toks, pos + 1, env, f1, BinaryOp::Compose),
                Op::If => lemma_two_progress(toks, pos + 1, env, f1, BinaryOp::If),
                Op::Not => lemma_parse_progress(toks, pos + 1, env, f1),
                Op::Id => lemma_parse_progress(toks, pos + 1, env, f1),
                Op::IfElse => {
                    lemma_parse_progress(toks, pos + 1, env, f1);
                    if let ParseOut::Done(_, p1) = spec_parse(toks, pos + 1, env, f1) {
                        lemma_parse_progress(toks, p1, env, f1);
                        if let ParseOut::Done(_, p2) = spec_parse(toks, p1, env, f1) {
                            lemma_parse_progress(toks, p2, env, f1);
                        }
                    }
                },
                Op::Equ => lemma_bind_progress(toks, pos + 1, env, f1, false),
                Op::LazyEqu => lemma_bind_progress(toks, pos + 1, env, f1, true),
                Op::GlobalEqu => lemma_global_progress(toks, pos + 1, env, f1, false),
                Op::LazyGlobalEqu => lemma_global_progress(toks, pos + 1, env, f1, true),
                Op::FunctionDeclare(k) => {
                    if pos + 1 < toks.len() {
                        if let TokenV::Identifier(name) = toks[pos + 1] {
                            lemma_params_progress(toks, pos + 2, k as nat);
                            if let Ok((_, p1)) = spec_params(toks, pos + 2, k as nat) {
                                let env2 = env.push((name, k));
                                lemma_parse_progress(toks, p1, env2, f1);
                                if let ParseOut::Done(_, p2) = spec_parse(toks, p1, env2, f1) {
                                    lemma_parse_progress(toks, p2, env2, f1);
                                }
                            }
                        }
                    }
                },
            },
        }
    }
}

/// Progress for the two-operand reader.
pub proof fn lemma_two_progress(
    toks: Seq<TokenV>,
    pos: int,
    env: Seq<(Seq<char>, usize)>,
    fuel: nat,
    op: BinaryOp,
)
    ensures
        match spec_parse_two(toks, pos, env, fuel, op) {
            ParseOut::Done(_, p) => pos < p <= toks.len(),
            _ => true,
        },
    decreases fuel, 4int,
{
    if fuel > 0 {
        let f1 = (fuel - 1) as nat;
        lemma_parse_progress(toks, pos, env, f1);
        if let ParseOut::Done(_, p1) = spec_parse(toks, pos, env, f1) {
            lemma_parse_progress(toks, p1, env, f1);
        }
    }
}

/// Progress for the local-bind reader.
pub proof fn lemma_bind_progress(
    toks: Seq<TokenV>,
    pos: int,
    env: Seq<(Seq<char>, usize)>,
    fuel: nat,
    lazy: bool,
)
    ensures
        match spec_parse_bind(toks, pos, env, fuel, lazy) {
            ParseOut::Done(_, p) => pos < p <= toks.len(),
            _ => true,
        },
    decreases fuel, 4int,
{
    if fuel > 0 && 0 <= pos < toks.len() {
        let f1 = (fuel - 1) as nat;
        if let TokenV::Identifier(_) = toks[pos] {
            lemma_parse_progress(toks, pos + 1, env, f1);
            if let ParseOut::Done(_, p1) = spec_parse(toks, pos + 1, env, f1) {
                lemma_parse_progress(toks, p1, env, f1);
            }
        }
    }
}

/// Progress for the reserved global-bind reader.
pub proof fn lemma_global_progress(
    toks: Seq<TokenV>,
    pos: int,
    env: Seq<(Seq<char>, usize)>,
    fuel: nat,
    lazy: bool,
)
    ensures
        match spec_parse_global(toks, pos, env, fuel, lazy) {
            ParseOut::Done(_, p) => pos < p <= toks.len(),
            _ => true,
        },
    decreases fuel, 4int,
{
    if fuel > 0 && 0 <= pos < toks.len() {
        let f1 = (fuel - 1) as nat;
        if let TokenV::Identifier(_) = toks[pos] {
            lemma_parse_progress(toks, pos + 1, env, f1);
        }
    }
}

/// Progress for the parameter reader.
pub proof fn lemma_params_progress(toks: Seq<TokenV>, pos: int, k: nat)
    ensures
        match spec_params(toks, pos, k) {
            Ok((_, p)) => pos <= p && (p <= toks.len() || p == pos) && (k > 0 ==> pos < p),
            _ => true,
        },
    decreases k,
{
    if k > 0 && 0 <= pos < toks.len() {
        if let TokenV::Identifier(_) = toks[pos] {
            lemma_params_progress(toks, pos + 1, (k - 1) as nat);
        }
    }
}

/// Progress for the argument reader.
pub proof fn lemma_args_progress(
    toks: Seq<TokenV>,
    pos: int,
    env: Seq<(Seq<char>, usize)>,
    k: nat,
    fuel: nat,
)
    ensures
        match spec_parse_args(toks, pos, env, k, fuel) {
            ArgsOut::DoneArgs(_, p) => pos <= p && (p <= toks.len() || p == pos),
            _ => true,
        },
    decreases fuel, 4int,
{
    if k > 0 && fuel > 0 {
        let f1 = (fuel - 1) as nat;
        lemma_parse_progress(toks, pos, env, f1);
        if let ParseOut::Done(_, p1) = spec_parse(toks, pos, env, f1) {
            lemma_args_progress(toks, p1, env, (k - 1) as nat, f1);
        }
    }
}

impl ParseTree {
    /// Read the next expression from `tokens` at `pos`, with `arities`
    /// naming the functions in scope and their declared argument counts.
    /// Returns the tree and the position after it, or the first failure.
    pub fn parse(tokens: &Vec<Token>, pos: usize, arities: &Vec<(String, usize)>) -> (r: (
        Result<ParseTree, ParseError>,
        usize,
    ))
        requires
            pos <= tokens@.len(),
        ensures
            r.1 <= tokens@.len(),
            match r.0 {
                Ok(_) => pos < r.1,
                Err(_) => true,
            },
            parse_out_match(
                parse_at(tokens_view(tokens@), pos as int, arity_view(arities@)),
                r.0,
                r.1 as int,
            ),
    {
        let rr = parse_expr(tokens, pos, arities);
        proof {
            let gt = tokens_view(tokens@);
            let en = arity_view(arities@);
            assert(parse_fuel(gt, pos as int) >= 2 * (tokens@.len() - pos) + 2);
            assert(parse_out_match(
                spec_parse(gt, pos as int, en, parse_fuel(gt, pos as int)),
                rr.0,
                rr.1 as int,
            ));
        }
        rr
    }
}

/// What one step of the token cursor yields: nothing at the end of the
/// stream, otherwise the next tree or the first failure, with the position
/// after it (the end, once a failure is reported).
pub open spec fn spec_next_tree(toks: Seq<TokenV>, pos: int) -> (Option<
    Result<TreeV, ParseErrorV>,
>, int) {
    if pos >= toks.len() {
        (None, pos)
    } else {
        match parse_at(toks, pos, Seq::empty()) {
            ParseOut::Done(t, p) => (Some(Ok(t)), p),
            ParseOut::Fail(e) => (Some(Err(e)), toks.len() as int),
            ParseOut::Short => (Some(Err(ParseErrorV::UnexpectedEndInput)), toks.len() as int),
        }
    }
}

/// A cursor that yields the top-level trees of a token stream, one at a
/// time.  Each tree is read with a fresh arity map, so a function is
/// callable only inside the continuation of its own declaration.
pub struct Parser {
    tokens: Vec<Token>,
    pos: usize,
}

impl View for Parser {
    type V = (Seq<TokenV>, int);

    closed spec fn view(&self) -> (Seq<TokenV>, int) {
        (tokens_view(self.tokens@), self.pos as int)
    }
}

impl Parser {
    /// Whether the cursor is inside its token stream.
    pub closed spec fn wf(&self) -> bool {
        self.pos <= self.tokens@.len()
    }

    /// Start a cursor at the head of a token stream.
    pub fn new(tokens: Vec<Token>) -> (p: Parser)
        ensures
            p.wf(),
            p@ == (tokens_view(tokens@), 0int),
    {
        Parser { tokens, pos: 0 }
    }

    /// Read the next top-level tree: the end of the stream between trees is
    /// the end of the program; mid-tree it is a parse error, after which
    /// the cursor stops.
    pub fn next_tree(&mut self) -> (r: Option<Result<ParseTree, ParseError>>)
        requires
            old(self).wf(),
        ensures
            final(self).wf(),
            final(self)@.0 == old(self)@.0,
            ({
                let (ro, p2) = spec_next_tree(old(self)@.0, old(self)@.1);
                final(self)@.1 == p2 && (match (r, ro) {
                    (None, None) => true,
                    (Some(Ok(t)), Some(Ok(tv))) => t@ == tv,
                    (Some(Err(e)), Some(Err(ev))) => e@ == ev,
                    _ => false,
                })
            }),
    {
        if self.pos == self.tokens.len() {
            return None;
        }
        let arities: Vec<(String, usize)> = Vec::new();
        let (r0, p) = ParseTree::parse(&self.tokens, self.pos, &arities);
        proof {
            assert(arity_view(Seq::<(String, usize)>::empty()) =~= Seq::<
                (Seq<char>, usize),
            >::empty());
        }
        match r0 {
            Ok(t) => {
                self.pos = p;
                Some(Ok(t))
            },
            Err(e) => {
                let n = self.tokens.len();
                self.pos = n;
                Some(Err(e))
            },
        }
    }
}


// ---------------------------------------------------------------------------
// Structural copies
// ---------------------------------------------------------------------------

impl Type {
    /// A structural copy.  Types are advisory, so nothing is claimed of it.
    #[verifier::loop_isolation(false)]
    pub fn duplicate(&self) -> Type
        decreases self,
    {
        match self {
            Type::Float => Type::Float,
            Type::Int => Type::Int,
            Type::Bool => Type::Bool,
            Type::Str => Type::Str,
            Type::Nil => Type::Nil,
            Type::Any => Type::Any,
            Type::Function(r, args) => {
                let mut out: Vec<Type> = Vec::new();
                let mut i: usize = 0;
                while i < args.len()
                    decreases args@.len() - i,
                {
                    proof {
                        assert(decreases_to!(*self => self->Function_1));
                        assert(decreases_to!(self->Function_1 => self->Function_1@));
                        assert(decreases_to!(self->Function_1@ => self->Function_1@[i as int]));
                    }
                    out.push(args[i].duplicate());
                    i = i + 1;
                }
                Type::Function(Box::new((**r).duplicate()), out)
            },
        }
    }
}

/// A structural copy of a declared parameter list; the names are kept
/// exactly.
pub fn duplicate_params(args: &Vec<(String, Type)>) -> (r: Vec<(String, Type)>)
    ensures
        params_view(r@) == params_view(args@),
{
    let mut out: Vec<(String, Type)> = Vec::new();
    let mut i: usize = 0;
    while i < args.len()
        invariant
            i <= args@.len(),
            out@.len() == i,
            forall|j: int| 0 <= j < i ==> out@[j].0@ == args@[j].0@,
        decreases args@.len() - i,
    {
        let entry = &args[i];
        out.push((entry.0.clone(), entry.1.duplicate()));
        i = i + 1;
    }
    proof {
        assert(params_view(out@) =~= params_view(args@));
    }
    out
}

impl ParseTree {
    /// A structural copy; its model is exactly the original's, which a
    /// derived `Clone` would not let the verifier see.
    #[verifier::loop_isolation(false)]
    pub fn duplicate(&self) -> (r: ParseTree)
        ensures
            r@ == self@,
        decreases self,
    {
        match self {
            ParseTree::Add(a, b) => ParseTree::Add(
                Box::new(a.duplicate()),
                Box::new(b.duplicate()),
            ),
            ParseTree::Sub(a, b) => ParseTree::Sub(
                Box::new(a.duplicate()),
                Box::new(b.duplicate()),
            ),
            ParseTree::Mul(a, b) => ParseTree::Mul(
                Box::new(a.duplicate()),
                Box::new(b.duplicate()),
            ),
            ParseTree::Div(a, b) => ParseTree::Div(
                Box::new(a.duplicate()),
                Box::new(b.duplicate()),
            ),
            ParseTree::Exp(a, b) => ParseTree::Exp(
                Box::new(a.duplicate()),
                Box::new(b.duplicate()),
            ),
            ParseTree::Mod(a, b) => ParseTree::Mod(
                Box::new(a.duplicate()),
                Box::new(b.duplicate()),
            ),
            ParseTree::EqualTo(a, b) => ParseTree::EqualTo(
                Box::new(a.duplicate()),
                Box::new(b.duplicate()),
            ),
            ParseTree::GreaterThan(a, b) => ParseTree::GreaterThan(
                Box::new(a.duplicate()),
                Box::new(b.duplicate()),
            ),
            ParseTree::GreaterThanOrEqualTo(a, b) => ParseTree::GreaterThanOrEqualTo(
                Box::new(a.duplicate()),
                Box::new(b.duplicate()),
            ),
            ParseTree::LessThan(a, b) => ParseTree::LessThan(
                Box::new(a.duplicate()),
                Box::new(b.duplicate()),
            ),
            ParseTree::LessThanOrEqualTo(a, b) => ParseTree::LessThanOrEqualTo(
                Box::new(a.duplicate()),
                Box::new(b.duplicate()),
            ),
            ParseTree::Not(a) => ParseTree::Not(Box::new(a.duplicate())),
            ParseTree::Equ(n, a, b) => ParseTree::Equ(
                n.clone(),
                Box::new(a.duplicate()),
                Box::new(b.duplicate()),
            ),
            ParseTree::LazyEqu(n, a, b) => ParseTree::LazyEqu(
                n.clone(),
                Box::new(a.duplicate()),
                Box::new(b.duplicate()),
            ),
            ParseTree::GlobalEqu(n, a) => ParseTree::GlobalEqu(n.clone(), Box::new(a.duplicate())),
            ParseTree::LazyGlobalEqu(n, a) => ParseTree::LazyGlobalEqu(
                n.clone(),
                Box::new(a.duplicate()),
            ),
            ParseTree::FunctionDefinition(n, args, r0, a, b) => ParseTree::FunctionDefinition(
                n.clone(),
                duplicate_params(args),
                r0.duplicate(),
                Box::new(a.duplicate()),
                Box::new(b.duplicate()),
            ),
            ParseTree::Compose(a, b) => ParseTree::Compose(
                Box::new(a.duplicate()),
                Box::new(b.duplicate()),
            ),
            ParseTree::Id(a) => ParseTree::Id(Box::new(a.duplicate())),
            ParseTree::If(a, b) => ParseTree::If(
                Box::new(a.duplicate()),
                Box::new(b.duplicate()),
            ),
            ParseTree::IfElse(a, b, c) => ParseTree::IfElse(
                Box::new(a.duplicate()),
                Box::new(b.duplicate()),
                Box::new(c.duplicate()),
            ),
            ParseTree::FunctionCall(n, args) => {
                let mut out: Vec<ParseTree> = Vec::new();
                let mut i: usize = 0;
                while i < args.len()
                    invariant
                        i <= args@.len(),
                        out@.len() == i,
                        forall|j: int| 0 <= j < i ==> out@[j]@ == args@[j]@,
                    decreases args@.len() - i,
                {
                    proof {
                        assert(decreases_to!(*self => self->FunctionCall_1));
                        assert(decreases_to!(self->FunctionCall_1 => self->FunctionCall_1@));
                        assert(decreases_to!(self->FunctionCall_1@ => self->FunctionCall_1@[i as int]));
                    }
                    out.push(args[i].duplicate());
                    i = i + 1;
                }
                proof {
                    lemma_trees_view_parts(out@);
                    lemma_trees_view_parts(args@);
                    assert(trees_view(out@) =~= trees_view(args@));
                }
                ParseTree::FunctionCall(n.clone(), out)
            },
            ParseTree::Variable(n) => ParseTree::Variable(n.clone()),
            ParseTree::Constant(v) => ParseTree::Constant(v.duplicate()),
        }
    }
}

// ---------------------------------------------------------------------------
// Stated laws
// ---------------------------------------------------------------------------

/// A lone operator token is an incomplete program: whichever operator it
/// is, reading it fails with the input-ended error and yields no tree.
pub proof fn lemma_operator_alone_fails(op: Op)
    ensures
        parse_at(seq![TokenV::Operator(op)], 0, Seq::empty()) == ParseOut::Fail(
            ParseErrorV::UnexpectedEndInput,
        ),
{
    reveal_with_fuel(spec_parse, 3);
    let toks = seq![TokenV::Operator(op)];
    assert(toks.len() == 1 && toks[0] == TokenV::Operator(op));
    assert(parse_fuel(toks, 0) == 4);
    match op {
        Op::Add => {},
        Op::Sub => {},
        Op::Mul => {},
        Op::Div => {},
        Op::Exp => {},
        Op::Mod => {},
        Op::Equ => {},
        Op::LazyEqu => {},
        Op::GlobalEqu => {},
        Op::LazyGlobalEqu => {},
        Op::FunctionDeclare(_) => {},
        Op::Compose => {},
        Op::Id => {},
        Op::If => {},
        Op::IfElse => {},
        Op::EqualTo => {},
        Op::GreaterThan => {},
        Op::GreaterThanOrEqualTo => {},
        Op::LessThan => {},
        Op::LessThanOrEqualTo => {},
        Op::Not => {},
    }
}

} // verus!
