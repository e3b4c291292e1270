//! The executor: a tree walker that evaluates one syntax tree against a
//! global and a local environment and produces a runtime value or a named
//! runtime error.
//!
//! The local environment is a stack of bindings: a bind form pushes an
//! entry for its continuation and pops it on the way out, so a callee's
//! bindings are invisible to its caller; forcing a lazy binding replaces
//! that entry with its computed value in place, so later reads in the same
//! or a nested scope see the cached value.  Evaluation carries a recursion
//! allowance, since a recursive definition may otherwise descend without
//! bound; the allowance is the only resource the caller must pick.

use crate::parser::{ParseError, ParseErrorV, ParseTree, Parser, TreeV};
use crate::value::{
    spec_add_v, spec_div_v, spec_eq_v, spec_exp_v, spec_ge_v, spec_gt_v, spec_le_v, spec_lt_v,
    spec_mod_v, spec_mul_v, spec_sub_v, spec_truthy, Value, ValueV,
};
use vstd::prelude::*;

verus! {

/// A binding's state: already computed, or a tree awaiting its first read.
pub enum Evaluation {
    Computed(Value),
    Uncomputed(Box<ParseTree>),
}

/// A function entry: its declared parameter names and its body, which is
/// absent for a declaration without a definition.
pub struct Function {
    pub params: Vec<String>,
    pub body: Option<Box<ParseTree>>,
}

/// An environment entry: a variable binding or a function binding.
pub enum Object {
    Variable(Evaluation),
    Function(Function),
}

/// Mathematical model of an [`Evaluation`].
pub enum EvalV {
    Computed(ValueV),
    Uncomputed(TreeV),
}

/// Mathematical model of a [`Function`] entry.
pub struct FunV {
    pub params: Seq<Seq<char>>,
    pub body: Option<TreeV>,
}

/// Mathematical model of an [`Object`].
pub enum ObjV {
    Variable(EvalV),
    Function(FunV),
}

/// The model of an environment: named entries, later ones shadowing
/// earlier ones.
pub type EnvV = Seq<(Seq<char>, ObjV)>;

/// The model of an entry.
pub open spec fn obj_view(o: Object) -> ObjV {
    match o {
        Object::Variable(Evaluation::Computed(v)) => ObjV::Variable(EvalV::Computed(v@)),
        Object::Variable(Evaluation::Uncomputed(t)) => ObjV::Variable(EvalV::Uncomputed(t@)),
        Object::Function(f) => ObjV::Function(
            FunV {
                params: f.params@.map_values(|s: String| s@),
                body: match f.body {
                    Some(b) => Some(b@),
                    None => None,
                },
            },
        ),
    }
}

/// The model of an environment.
pub open spec fn env_view(env: Seq<(String, Object)>) -> EnvV {
    env.map_values(|e: (String, Object)| (e.0@, obj_view(e.1)))
}

/// A runtime failure, carrying what a caller needs to report it.
#[derive(Debug)]
pub enum RuntimeError {
    /// The token cursor failed before a tree was available.
    ParseError(ParseError),
    /// An operator met operand types it has no rule for; carries the
    /// operator symbol and the offending values.
    NoOverloadForTypes(String, Vec<Value>),
    /// A name was bound while already bound in a visible scope.
    ImmutableError(String),
    /// A variable was read with no binding in scope.
    VariableUndefined(String),
    /// A function was called with no function binding in scope.
    FunctionUndeclared(String),
    /// A function was called whose binding has no body.
    FunctionUndefined(String),
    /// A function's name was read as if it were a variable.
    NotAVariable(String),
    /// Integer division or remainder by zero; carries the operator symbol.
    DivisionByZero(String),
    /// A reserved construct with no defined evaluation; carries the name
    /// it would have bound.
    UnsupportedConstruct(String),
    /// The recursion allowance ran out before the tree was evaluated.
    RecursionLimit,
}

/// Mathematical model of a [`RuntimeError`].
pub enum RtErrV {
    ParseError(ParseErrorV),
    NoOverloadForTypes(Seq<char>, Seq<ValueV>),
    ImmutableError(Seq<char>),
    VariableUndefined(Seq<char>),
    FunctionUndeclared(Seq<char>),
    FunctionUndefined(Seq<char>),
    NotAVariable(Seq<char>),
    DivisionByZero(Seq<char>),
    UnsupportedConstruct(Seq<char>),
    RecursionLimit,
}

/// The models of a run of values.
pub open spec fn values_view(s: Seq<Value>) -> Seq<ValueV> {
    s.map_values(|v: Value| v@)
}

impl View for RuntimeError {
    type V = RtErrV;

    open spec fn view(&self) -> RtErrV {
        match self {
            RuntimeError::ParseError(e) => RtErrV::ParseError(e@),
            RuntimeError::NoOverloadForTypes(op, vs) => RtErrV::NoOverloadForTypes(
                op@,
                values_view(vs@),
            ),
            RuntimeError::ImmutableError(s) => RtErrV::ImmutableError(s@),
            RuntimeError::VariableUndefined(s) => RtErrV::VariableUndefined(s@),
            RuntimeError::FunctionUndeclared(s) => RtErrV::FunctionUndeclared(s@),
            RuntimeError::FunctionUndefined(s) => RtErrV::FunctionUndefined(s@),
            RuntimeError::NotAVariable(s) => RtErrV::NotAVariable(s@),
            RuntimeError::DivisionByZero(s) => RtErrV::DivisionByZero(s@),
            RuntimeError::UnsupportedConstruct(s) => RtErrV::UnsupportedConstruct(s@),
            RuntimeError::RecursionLimit => RtErrV::RecursionLimit,
        }
    }
}

/// The view of an evaluation result.
pub open spec fn res_view(r: Result<Value, RuntimeError>) -> Result<ValueV, RtErrV> {
    match r {
        Ok(v) => Ok(v@),
        Err(e) => Err(e@),
    }
}

/// What evaluating one tree yields: a result, and the local environment as
/// it stands afterwards (the same entries, some lazy ones now computed).
pub struct EvalOut {
    pub res: Result<ValueV, RtErrV>,
    pub env: EnvV,
}

/// The index of the visible entry with this name: the latest one.
pub open spec fn env_find(env: EnvV, name: Seq<char>) -> Option<int>
    decreases env.len(),
{
    if env.len() == 0 {
        None
    } else if env.last().0 == name {
        Some(env.len() - 1)
    } else {
        env_find(env.drop_last(), name)
    }
}

/// Whether a name is bound in the environment.
pub open spec fn env_has(env: EnvV, name: Seq<char>) -> bool {
    env_find(env, name) is Some
}

/// Bind each declared parameter, in order, to its argument tree, stored
/// unevaluated: arguments are call-by-need.  Extra parameters or extra
/// arguments are dropped, as the pairing walks both lists together.
pub open spec fn bind_args(l: EnvV, params: Seq<Seq<char>>, args: Seq<TreeV>) -> EnvV
    decreases params.len(),
{
    if params.len() == 0 || args.len() == 0 {
        l
    } else {
        bind_args(
            l.push((params[0], ObjV::Variable(EvalV::Uncomputed(args[0])))),
            params.drop_first(),
            args.drop_first(),
        )
    }
}

/// How many bindings the parameter pairing pushes.
pub open spec fn bind_count(params: Seq<Seq<char>>, args: Seq<TreeV>) -> int {
    if params.len() <= args.len() {
        params.len() as int
    } else {
        args.len() as int
    }
}

/// Evaluate the two operands of a binary construct, left to right,
/// threading the local environment.
pub open spec fn spec_exec2(g: EnvV, l: EnvV, a: TreeV, b: TreeV, fuel: nat) -> (Result<
    (ValueV, ValueV),
    RtErrV,
>, EnvV)
    decreases fuel, 1int,
{
    let o1 = spec_exec(g, l, a, fuel);
    match o1.res {
        Ok(x) => {
            let o2 = spec_exec(g, o1.env, b, fuel);
            match o2.res {
                Ok(y) => (Ok((x, y)), o2.env),
                Err(e) => (Err(e), o2.env),
            }
        },
        Err(e) => (Err(e), o1.env),
    }
}

/// Turn an operator table's answer into a result, with the no-overload
/// error naming the operator and both operands.
pub open spec fn table_result(
    op: Seq<char>,
    x: ValueV,
    y: ValueV,
    v: Option<ValueV>,
) -> Result<ValueV, RtErrV> {
    match v {
        Some(r) => Ok(r),
        None => Err(RtErrV::NoOverloadForTypes(op, seq![x, y])),
    }
}

/// Like [`table_result`], for the comparison tables.
pub open spec fn table_result_bool(
    op: Seq<char>,
    x: ValueV,
    y: ValueV,
    v: Option<bool>,
) -> Result<ValueV, RtErrV> {
    match v {
        Some(r) => Ok(ValueV::Bool(r)),
        None => Err(RtErrV::NoOverloadForTypes(op, seq![x, y])),
    }
}

/// Whether a division-family pair is an integer division by zero.
pub open spec fn int_div_by_zero(x: ValueV, y: ValueV) -> bool {
    x is Int && y is Int && y->Int_0 == 0
}

/// Evaluate one tree.  The rules, by node kind, are those of the language:
/// operand pairs dispatch on their runtime types; binds check the name is
/// fresh, extend the scope for their continuation alone, and lazy binds
/// store the tree unevaluated; reading a lazy binding computes it once and
/// caches it in place; a definition makes the function visible to its own
/// body; a call binds arguments unevaluated in a scope the caller never
/// sees; conditionals coerce by truthiness and evaluate only the taken
/// branch; the reserved global binds are an unsupported construct.
pub open spec fn spec_exec(g: EnvV, l: EnvV, t: TreeV, fuel: nat) -> EvalOut
    decreases fuel, 0int,
{
    if fuel == 0 {
        EvalOut { res: Err(RtErrV::RecursionLimit), env: l }
    } else {
        let f1 = (fuel - 1) as nat;
        match t {
            TreeV::Add(a, b) => {
                let (r, l2) = spec_exec2(g, l, *a, *b, f1);
                match r {
                    Ok((x, y)) => EvalOut {
                        res: table_result("+"@, x, y, spec_add_v(x, y)),
                        env: l2,
                    },
                    Err(e) => EvalOut { res: Err(e), env: l2 },
                }
            },
            TreeV::Sub(a, b) => {
                let (r, l2) = spec_exec2(g, l, *a, *b, f1);
                match r {
                    Ok((x, y)) => EvalOut {
                        res: table_result("-"@, x, y, spec_sub_v(x, y)),
                        env: l2,
                    },
                    Err(e) => EvalOut { res: Err(e), env: l2 },
                }
            },
            TreeV::Mul(a, b) => {
                let (r, l2) = spec_exec2(g, l, *a, *b, f1);
                match r {
                    Ok((x, y)) => EvalOut {
                        res: table_result("*"@, x, y, spec_mul_v(x, y)),
                        env: l2,
                    },
                    Err(e) => EvalOut { res: Err(e), env: l2 },
                }
            },
            TreeV::Div(a, b) => {
                let (r, l2) = spec_exec2(g, l, *a, *b, f1);
                match r {
                    Ok((x, y)) => EvalOut {
                        res: if int_div_by_zero(x, y) {
                            Err(RtErrV::DivisionByZero("/"@))
                        } else {
                            table_result("/"@, x, y, spec_div_v(x, y))
                        },
                        env: l2,
                    },
                    Err(e) => EvalOut { res: Err(e), env: l2 },
                }
            },
            TreeV::Mod(a, b) => {
                let (r, l2) = spec_exec2(g, l, *a, *b, f1);
                match r {
                    Ok((x, y)) => EvalOut {
                        res: if int_div_by_zero(x, y) {
                            Err(RtErrV::DivisionByZero("%"@))
                        } else {
                            table_result("%"@, x, y, spec_mod_v(x, y))
                        },
                        env: l2,
                    },
                    Err(e) => EvalOut { res: Err(e), env: l2 },
                }
            },
            TreeV::Exp(a, b) => {
                let (r, l2) = spec_exec2(g, l, *a, *b, f1);
                match r {
                    Ok((x, y)) => EvalOut {
                        res: table_result("**"@, x, y, spec_exp_v(x, y)),
                        env: l2,
                    },
                    Err(e) => EvalOut { res: Err(e), env: l2 },
                }
            },
            TreeV::EqualTo(a, b) => {
                let (r, l2) = spec_exec2(g, l, *a, *b, f1);
                match r {
                    Ok((x, y)) => EvalOut {
                        res: table_result_bool("=="@, x, y, spec_eq_v(x, y)),
                        env: l2,
                    },
                    Err(e) => EvalOut { res: Err(e), env: l2 },
                }
            },
            TreeV::GreaterThan(a, b) => {
                let (r, l2) = spec_exec2(g, l, *a, *b, f1);
                match r {
                    Ok((x, y)) => EvalOut {
                        res: table_result_bool(">"@, x, y, spec_gt_v(x, y)),
                        env: l2,
                    },
                    Err(e) => EvalOut { res: Err(e), env: l2 },
                }
            },
            TreeV::GreaterThanOrEqualTo(a, b) => {
                let (r, l2) = spec_exec2(g, l, *a, *b, f1);
                match r {
                    Ok((x, y)) => EvalOut {
                        res: table_result_bool(">="@, x, y, spec_ge_v(x, y)),
                        env: l2,
                    },
                    Err(e) => EvalOut { res: Err(e), env: l2 },
                }
            },
            TreeV::LessThan(a, b) => {
                let (r, l2) = spec_exec2(g, l, *a, *b, f1);
                match r {
                    Ok((x, y)) => EvalOut {
                        res: table_result_bool("<"@, x, y, spec_lt_v(x, y)),
                        env: l2,
                    },
                    Err(e) => EvalOut { res: Err(e), env: l2 },
                }
            },
            TreeV::LessThanOrEqualTo(a, b) => {
                let (r, l2) = spec_exec2(g, l, *a, *b, f1);
                match r {
                    Ok((x, y)) => EvalOut {
                        res: table_result_bool("<="@, x, y, spec_le_v(x, y)),
                        env: l2,
                    },
                    Err(e) => EvalOut { res: Err(e), env: l2 },
                }
            },
            TreeV::Not(a) => {
                let o1 = spec_exec(g, l, *a, f1);
                match o1.res {
                    Ok(v) => EvalOut {
                        res: match v {
                            ValueV::Bool(b) => Ok(ValueV::Bool(!b)),
                            other => Err(RtErrV::NoOverloadForTypes("not"@, seq![other])),
                        },
                        env: o1.env,
                    },
                    Err(e) => EvalOut { res: Err(e), env: o1.env },
                }
            },
            TreeV::Equ(name, body, scope) => {
                if env_has(g, name) || env_has(l, name) {
                    EvalOut { res: Err(RtErrV::ImmutableError(name)), env: l }
                } else {
                    let o1 = spec_exec(g, l, *body, f1);
                    match o1.res {
                        Ok(v) => {
                            let l2 = o1.env.push((name, ObjV::Variable(EvalV::Computed(v))));
                            let o2 = spec_exec(g, l2, *scope, f1);
                            EvalOut { res: o2.res, env: o2.env.subrange(0, l2.len() - 1) }
                        },
                        Err(e) => EvalOut { res: Err(e), env: o1.env },
                    }
                }
            },
            TreeV::LazyEqu(name, body, scope) => {
                if env_has(g, name) || env_has(l, name) {
                    EvalOut { res: Err(RtErrV::ImmutableError(name)), env: l }
                } else {
                    let l2 = l.push((name, ObjV::Variable(EvalV::Uncomputed(*body))));
                    let o2 = spec_exec(g, l2, *scope, f1);
                    EvalOut { res: o2.res, env: o2.env.subrange(0, l2.len() - 1) }
                }
            },
            TreeV::GlobalEqu(name, _body) => EvalOut {
                res: Err(RtErrV::UnsupportedConstruct(name)),
                env: l,
            },
            TreeV::LazyGlobalEqu(name, _body) => EvalOut {
                res: Err(RtErrV::UnsupportedConstruct(name)),
                env: l,
            },
            TreeV::FunctionDefinition(name, params, body, scope) => {
                if env_has(g, name) || env_has(l, name) {
                    EvalOut { res: Err(RtErrV::ImmutableError(name)), env: l }
                } else {
                    let l2 = l.push(
                        (name, ObjV::Function(FunV { params, body: Some(*body) })),
                    );
                    let o2 = spec_exec(g, l2, *scope, f1);
                    EvalOut { res: o2.res, env: o2.env.subrange(0, l2.len() - 1) }
                }
            },
            TreeV::Compose(a, b) => {
                let o1 = spec_exec(g, l, *a, f1);
                match o1.res {
                    Ok(_) => spec_exec(g, o1.env, *b, f1),
                    Err(e) => EvalOut { res: Err(e), env: o1.env },
                }
            },
            TreeV::Id(a) => spec_exec(g, l, *a, f1),
            TreeV::If(c, body) => {
                let o1 = spec_exec(g, l, *c, f1);
                match o1.res {
                    Ok(v) => if spec_truthy(v) {
                        spec_exec(g, o1.env, *body, f1)
                    } else {
                        EvalOut { res: Ok(ValueV::Nil), env: o1.env }
                    },
                    Err(e) => EvalOut { res: Err(e), env: o1.env },
                }
            },
            TreeV::IfElse(c, t_branch, e_branch) => {
                let o1 = spec_exec(g, l, *c, f1);
                match o1.res {
                    Ok(v) => if spec_truthy(v) {
                        spec_exec(g, o1.env, *t_branch, f1)
                    } else {
                        spec_exec(g, o1.env, *e_branch, f1)
                    },
                    Err(e) => EvalOut { res: Err(e), env: o1.env },
                }
            },
            TreeV::FunctionCall(name, args) => {
                let found = if env_find(l, name) is Some {
                    Some(l[env_find(l, name)->0].1)
                } else if env_find(g, name) is Some {
                    Some(g[env_find(g, name)->0].1)
                } else {
                    None
                };
                match found {
                    Some(ObjV::Function(f)) => match f.body {
                        Some(b) => {
                            let l2 = bind_args(l, f.params, args);
                            let o = spec_exec(g, l2, b, f1);
                            EvalOut { res: o.res, env: o.env.subrange(0, l.len() as int) }
                        },
                        None => EvalOut { res: Err(RtErrV::FunctionUndefined(name)), env: l },
                    },
                    Some(ObjV::Variable(_)) => EvalOut {
                        res: Err(RtErrV::FunctionUndeclared(name)),
                        env: l,
                    },
                    None => EvalOut { res: Err(RtErrV::FunctionUndeclared(name)), env: l },
                }
            },
            TreeV::Variable(name) => {
                match env_find(l, name) {
                    Some(i) => match l[i].1 {
                        ObjV::Variable(EvalV::Computed(v)) => EvalOut { res: Ok(v), env: l },
                        ObjV::Variable(EvalV::Uncomputed(tree)) => {
                            // The tree runs against the scope beneath its own
                            // binding: what was visible where it was written.
                            let o = spec_exec(g, l.take(i), tree, f1);
                            match o.res {
                                Ok(v) => EvalOut {
                                    res: Ok(v),
                                    env: (o.env.take(i) + l.skip(i)).update(
                                        i,
                                        (l[i].0, ObjV::Variable(EvalV::Computed(v))),
                                    ),
                                },
                                Err(e) => EvalOut {
                                    res: Err(e),
                                    env: o.env.take(i) + l.skip(i),
                                },
                            }
                        },
                        ObjV::Function(_) => EvalOut {
                            res: Err(RtErrV::NotAVariable(name)),
                            env: l,
                        },
                    },
                    None => match env_find(g, name) {
                        Some(i) => match g[i].1 {
                            ObjV::Variable(EvalV::Computed(v)) => EvalOut { res: Ok(v), env: l },
                            ObjV::Variable(EvalV::Uncomputed(tree)) => {
                                let o = spec_exec(g, l, tree, f1);
                                match o.res {
                                    Ok(v) => EvalOut {
                                        res: Ok(v),
                                        env: o.env.push(
                                            (name, ObjV::Variable(EvalV::Computed(v))),
                                        ),
                                    },
                                    Err(e) => EvalOut { res: Err(e), env: o.env },
                                }
                            },
                            ObjV::Function(_) => EvalOut {
                                res: Err(RtErrV::NotAVariable(name)),
                                env: l,
                            },
                        },
                        None => EvalOut { res: Err(RtErrV::VariableUndefined(name)), env: l },
                    },
                }
            },
            TreeV::Constant(v) => EvalOut { res: Ok(v), env: l },
        }
    }
}

// ---------------------------------------------------------------------------
// Environment shape
// ---------------------------------------------------------------------------

/// Binding the parameters extends the environment and touches nothing
/// below it.
pub proof fn lemma_bind_args_shape(l: EnvV, params: Seq<Seq<char>>, args: Seq<TreeV>)
    ensures
        bind_args(l, params, args).len() == l.len() + bind_count(params, args),
        forall|i: int| 0 <= i < l.len() ==> bind_args(l, params, args)[i] == l[i],
    decreases params.len(),
{
    if params.len() > 0 && args.len() > 0 {
        let e0 = (params[0], ObjV::Variable(EvalV::Uncomputed(args[0])));
        lemma_bind_args_shape(l.push(e0), params.drop_first(), args.drop_first());
        assert forall|i: int| 0 <= i < l.len() implies bind_args(l, params, args)[i] == l[i] by {
            assert(bind_args(l, params, args) == bind_args(
                l.push(e0),
                params.drop_first(),
                args.drop_first(),
            ));
            assert(bind_args(l.push(e0), params.drop_first(), args.drop_first())[i] == l.push(
                e0,
            )[i]);
        }
    }
}

/// Binding the parameters appends exactly the paired entries.
pub proof fn lemma_bind_args_flat(l: EnvV, params: Seq<Seq<char>>, args: Seq<TreeV>)
    ensures
        bind_args(l, params, args) == l + Seq::new(
            bind_count(params, args) as nat,
            |i: int| (params[i], ObjV::Variable(EvalV::Uncomputed(args[i]))),
        ),
    decreases params.len(),
{
    let cnt = bind_count(params, args);
    let tail = Seq::new(
        cnt as nat,
        |i: int| (params[i], ObjV::Variable(EvalV::Uncomputed(args[i]))),
    );
    if params.len() == 0 || args.len() == 0 {
        assert(bind_args(l, params, args) =~= l + tail);
    } else {
        let e0 = (params[0], ObjV::Variable(EvalV::Uncomputed(args[0])));
        lemma_bind_args_flat(l.push(e0), params.drop_first(), args.drop_first());
        assert(bind_args(l, params, args) =~= l + tail);
    }
}

/// Evaluation never shortens the local environment and never renames what
/// was already there: it only pushes scoped entries (which the enclosing
/// construct pops) and caches computed values in place.
#[verifier::rlimit(100)]
#[verifier::spinoff_prover]
pub proof fn lemma_exec_env_grows(g: EnvV, l: EnvV, t: TreeV, fuel: nat)
    ensures
        spec_exec(g, l, t, fuel).env.len() >= l.len(),
        forall|i: int|
            0 <= i < l.len() ==> #[trigger] spec_exec(g, l, t, fuel).env[i].0 == l[i].0,
    decreases fuel, 0int,
{
    if fuel > 0 {
        let f1 = (fuel - 1) as nat;
        match t {
            TreeV::Add(a, b) => lemma_exec2_env_grows(g, l, *a, *b, f1),
            TreeV::Sub(a, b) => lemma_exec2_env_grows(g, l, *a, *b, f1),
            TreeV::Mul(a, b) => lemma_exec2_env_grows(g, l, *a, *b, f1),
            TreeV::Div(a, b) => lemma_exec2_env_grows(g, l, *a, *b, f1),
            TreeV::Mod(a, b) => lemma_exec2_env_grows(g, l, *a, *b, f1),
            TreeV::Exp(a, b) => lemma_exec2_env_grows(g, l, *a, *b, f1),
            TreeV::EqualTo(a, b) => lemma_exec2_env_grows(g, l, *a, *b, f1),
            TreeV::GreaterThan(a, b) => lemma_exec2_env_grows(g, l, *a, *b, f1),
            TreeV::GreaterThanOrEqualTo(a, b) => lemma_exec2_env_grows(g, l, *a, *b, f1),
            TreeV::LessThan(a, b) => lemma_exec2_env_grows(g, l, *a, *b, f1),
            TreeV::LessThanOrEqualTo(a, b) => lemma_exec2_env_grows(g, l, *a, *b, f1),
            TreeV::Not(a) => lemma_exec_env_grows(g, l, *a, f1),
            TreeV::Equ(name, body, scope) => {
                if !(env_has(g, name) || env_has(l, name)) {
                    lemma_exec_env_grows(g, l, *body, f1);
                    let o1 = spec_exec(g, l, *body, f1);
                    if o1.res is Ok {
                        let v = o1.res->Ok_0;
                        let l2 = o1.env.push((name, ObjV::Variable(EvalV::Computed(v))));
                        lemma_exec_env_grows(g, l2, *scope, f1);
                    }
                }
            },
            TreeV::LazyEqu(name, body, scope) => {
                if !(env_has(g, name) || env_has(l, name)) {
                    let l2 = l.push((name, ObjV::Variable(EvalV::Uncomputed(*body))));
                    lemma_exec_env_grows(g, l2, *scope, f1);
                }
            },
            TreeV::GlobalEqu(_, _) => {},
            TreeV::LazyGlobalEqu(_, _) => {},
            TreeV::FunctionDefinition(name, params, body, scope) => {
                if !(env_has(g, name) || env_has(l, name)) {
                    let l2 = l.push(
                        (name, ObjV::Function(FunV { params, body: Some(*body) })),
                    );
                    lemma_exec_env_grows(g, l2, *scope, f1);
                }
            },
            TreeV::Compose(a, b) => {
                lemma_exec_env_grows(g, l, *a, f1);
                let o1 = spec_exec(g, l, *a, f1);
                if o1.res is Ok {
                    lemma_exec_env_grows(g, o1.env, *b, f1);
                }
            },
            TreeV::Id(a) => lemma_exec_env_grows(g, l, *a, f1),
            TreeV::If(c, body) => {
                lemma_exec_env_grows(g, l, *c, f1);
                let o1 = spec_exec(g, l, *c, f1);
                if o1.res is Ok {
                    lemma_exec_env_grows(g, o1.env, *body, f1);
                }
            },
            TreeV::IfElse(c, tb, eb) => {
                lemma_exec_env_grows(g, l, *c, f1);
                let o1 = spec_exec(g, l, *c, f1);
                if o1.res is Ok {
                    lemma_exec_env_grows(g, o1.env, *tb, f1);
                    lemma_exec_env_grows(g, o1.env, *eb, f1);
                }
            },
            TreeV::FunctionCall(name, args) => {
                let found = if env_find(l, name) is Some {
                    Some(l[env_find(l, name)->0].1)
                } else if env_find(g, name) is Some {
                    Some(g[env_find(g, name)->0].1)
                } else {
                    None
                };
                if let Some(ObjV::Function(f)) = found {
                    if let Some(b) = f.body {
                        let l2 = bind_args(l, f.params, args);
                        lemma_bind_args_shape(l, f.params, args);
                        lemma_exec_env_grows(g, l2, b, f1);
                    }
                }
            },
            TreeV::Variable(name) => {
                match env_find(l, name) {
                    Some(i) => {
                        lemma_env_find_in_range(l, name);
                        if let ObjV::Variable(EvalV::Uncomputed(tree)) = l[i].1 {
                            lemma_exec_env_grows(g, l.take(i), tree, f1);
                            let o = spec_exec(g, l.take(i), tree, f1);
                            assert(o.env.len() >= i);
                            let merged = o.env.take(i) + l.skip(i);
                            assert(merged.len() == l.len());
                            assert forall|k: int| 0 <= k < l.len() implies merged[k].0 == l[k].0 by {
                                if k < i {
                                    assert(merged[k] == o.env.take(i)[k]);
                                    assert(o.env[k].0 == l.take(i)[k].0);
                                } else {
                                    assert(merged[k] == l.skip(i)[k - i]);
                                }
                            }
                        }
                    },
                    None => {
                        if let Some(i) = env_find(g, name) {
                            lemma_env_find_in_range(g, name);
                            if let ObjV::Variable(EvalV::Uncomputed(tree)) = g[i].1 {
                                lemma_exec_env_grows(g, l, tree, f1);
                            }
                        }
                    },
                }
            },
            TreeV::Constant(_) => {},
        }
    }
}

/// Two-operand evaluation likewise only grows the environment.
pub proof fn lemma_exec2_env_grows(g: EnvV, l: EnvV, a: TreeV, b: TreeV, fuel: nat)
    ensures
        spec_exec2(g, l, a, b, fuel).1.len() >= l.len(),
        forall|i: int|
            0 <= i < l.len() ==> #[trigger] spec_exec2(g, l, a, b, fuel).1[i].0 == l[i].0,
    decreases fuel, 1int,
{
    lemma_exec_env_grows(g, l, a, fuel);
    let o1 = spec_exec(g, l, a, fuel);
    if o1.res is Ok {
        lemma_exec_env_grows(g, o1.env, b, fuel);
    }
}

/// A found index lies inside the environment.
pub proof fn lemma_env_find_in_range(env: EnvV, name: Seq<char>)
    ensures
        match env_find(env, name) {
            Some(i) => 0 <= i < env.len() && env[i].0 == name,
            None => true,
        },
    decreases env.len(),
{
    if env.len() > 0 && env.last().0 != name {
        lemma_env_find_in_range(env.drop_last(), name);
    }
}

// ---------------------------------------------------------------------------
// The executable evaluator
// ---------------------------------------------------------------------------

/// The view of a pair-evaluation result.
pub open spec fn pair_res_view(r: Result<(Value, Value), RuntimeError>) -> Result<
    (ValueV, ValueV),
    RtErrV,
> {
    match r {
        Ok((x, y)) => Ok((x@, y@)),
        Err(e) => Err(e@),
    }
}

/// Whether a name is bound in the environment.
fn env_defined(env: &Vec<(String, Object)>, name: &String) -> (r: bool)
    ensures
        r == env_has(env_view(env@), name@),
{
    match env_index(env, name) {
        Some(_) => true,
        None => false,
    }
}

/// The index of the visible entry with this name, the latest one.
fn env_index(env: &Vec<(String, Object)>, name: &String) -> (r: Option<usize>)
    ensures
        match r {
            Some(i) => env_find(env_view(env@), name@) == Some(i as int) && i < env@.len(),
            None => env_find(env_view(env@), name@) is None,
        },
{
    let mut j = env.len();
    proof {
        assert(env_view(env@).take(env@.len() as int) =~= env_view(env@));
    }
    while j > 0
        invariant
            j <= env@.len(),
            env_find(env_view(env@), name@) == env_find(env_view(env@).take(j as int), name@),
        decreases j,
    {
        let entry = &env[j - 1];
        proof {
            assert(env_view(env@).take(j as int).last() == (env@[j - 1].0@, obj_view(
                env@[j - 1].1,
            )));
            assert(env_view(env@).take(j as int).drop_last() =~= env_view(env@).take(j - 1));
        }
        if entry.0.eq(name) {
            return Some(j - 1);
        }
        j = j - 1;
    }
    proof {
        assert(env_view(env@).take(0) =~= Seq::<(Seq<char>, ObjV)>::empty());
    }
    None
}

/// Copy a function entry out of the environment: its parameter names and
/// its body, if the entry is a function at all.
fn copy_function_entry(o: &Object) -> (r: Option<(Vec<String>, Option<ParseTree>)>)
    ensures
        match obj_view(*o) {
            ObjV::Function(fv) => match r {
                Some((ps, body)) => ps@.map_values(|s: String| s@) == fv.params && (match (
                    body,
                    fv.body,
                ) {
                    (Some(b), Some(bv)) => b@ == bv,
                    (None, None) => true,
                    _ => false,
                }),
                None => false,
            },
            ObjV::Variable(_) => r is None,
        },
{
    match o {
        Object::Function(f) => {
            let mut ps: Vec<String> = Vec::new();
            let mut i: usize = 0;
            while i < f.params.len()
                invariant
                    i <= f.params@.len(),
                    ps@.len() == i,
                    forall|k: int| 0 <= k < i ==> ps@[k]@ == f.params@[k]@,
                decreases f.params@.len() - i,
            {
                ps.push(f.params[i].clone());
                i = i + 1;
            }
            proof {
                assert(ps@.map_values(|s: String| s@) =~= f.params@.map_values(|s: String| s@));
            }
            let body = match &f.body {
                Some(b) => Some(b.duplicate()),
                None => None,
            };
            Some((ps, body))
        },
        Object::Variable(_) => None,
    }
}

/// Evaluate the two operands of a binary construct, left to right.
fn exec_two(
    g: &Vec<(String, Object)>,
    l: &mut Vec<(String, Object)>,
    a: &ParseTree,
    b: &ParseTree,
    fuel: u64,
) -> (r: Result<(Value, Value), RuntimeError>)
    ensures
        ({
            let o = spec_exec2(env_view(g@), env_view(old(l)@), a@, b@, fuel as nat);
            pair_res_view(r) == o.0 && env_view(final(l)@) == o.1
        }),
    decreases fuel, 2int,
{
    match exec_tree(g, l, a, fuel) {
        Ok(x) => {
            match exec_tree(g, l, b, fuel) {
                Ok(y) => Ok((x, y)),
                Err(e) => Err(e),
            }
        },
        Err(e) => Err(e),
    }
}

/// Evaluate an arithmetic node.
#[verifier::loop_isolation(false)]
#[verifier::rlimit(100)]
#[verifier::spinoff_prover]
fn exec_arith(
    g: &Vec<(String, Object)>,
    l: &mut Vec<(String, Object)>,
    t: &ParseTree,
    fuel: u64,
) -> (r: Result<Value, RuntimeError>)
    requires
        1 <= fuel,
        t is Add || t is Sub || t is Mul || t is Div || t is Mod || t is Exp,
    ensures
        ({
            let o = spec_exec(env_view(g@), env_view(old(l)@), t@, fuel as nat);
            res_view(r) == o.res && env_view(final(l)@) == o.env
        }),
    decreases fuel, 0int,
{
    match t {
        ParseTree::Add(a, b) => {
            match exec_two(g, l, a, b, fuel - 1) {
                Ok((x, y)) => {
                    let ghost xv = x@;
                    let ghost yv = y@;
                    match x.duplicate().add(y.duplicate()) {
                        Some(v) => Ok(v),
                        None => {
                            let vs = vec![x, y];
                            proof {
                                assert(values_view(vs@) =~= seq![xv, yv]);
                            }
                            Err(RuntimeError::NoOverloadForTypes("+".to_owned(), vs))
                        },
                    }
                },
                Err(e) => Err(e),
            }
        },
        ParseTree::Sub(a, b) => {
            match exec_two(g, l, a, b, fuel - 1) {
                Ok((x, y)) => {
                    let ghost xv = x@;
                    let ghost yv = y@;
                    match x.duplicate().sub(y.duplicate()) {
                        Some(v) => Ok(v),
                        None => {
                            let vs = vec![x, y];
                            proof {
                                assert(values_view(vs@) =~= seq![xv, yv]);
                            }
                            Err(RuntimeError::NoOverloadForTypes("-".to_owned(), vs))
                        },
                    }
                },
                Err(e) => Err(e),
            }
        },
        ParseTree::Mul(a, b) => {
            match exec_two(g, l, a, b, fuel - 1) {
                Ok((x, y)) => {
                    let ghost xv = x@;
                    let ghost yv = y@;
                    match x.duplicate().mul(y.duplicate()) {
                        Some(v) => Ok(v),
                        None => {
                            let vs = vec![x, y];
                            proof {
                                assert(values_view(vs@) =~= seq![xv, yv]);
                            }
                            Err(RuntimeError::NoOverloadForTypes("*".to_owned(), vs))
                        },
                    }
                },
                Err(e) => Err(e),
            }
        },
        ParseTree::Div(a, b) => {
            match exec_two(g, l, a, b, fuel - 1) {
                Ok((x, y)) => {
                    let ghost xv = x@;
                    let ghost yv = y@;
                    let zero = match (&x, &y) {
                        (Value::Int(_), Value::Int(d)) => *d == 0,
                        _ => false,
                    };
                    if zero {
                        Err(RuntimeError::DivisionByZero("/".to_owned()))
                    } else {
                        match x.duplicate().div(y.duplicate()) {
                            Some(v) => Ok(v),
                            None => {
                                let vs = vec![x, y];
                                proof {
                                    assert(values_view(vs@) =~= seq![xv, yv]);
                                }
                                Err(RuntimeError::NoOverloadForTypes("/".to_owned(), vs))
                            },
                        }
                    }
                },
                Err(e) => Err(e),
            }
        },
        ParseTree::Mod(a, b) => {
            match exec_two(g, l, a, b, fuel - 1) {
                Ok((x, y)) => {
                    let ghost xv = x@;
                    let ghost yv = y@;
                    let zero = match (&x, &y) {
                        (Value::Int(_), Value::Int(d)) => *d == 0,
                        _ => false,
                    };
                    if zero {
                        Err(RuntimeError::DivisionByZero("%".to_owned()))
                    } else {
                        match x.duplicate().modulo(y.duplicate()) {
                            Some(v) => Ok(v),
                            None => {
                                let vs = vec![x, y];
                                proof {
                                    assert(values_view(vs@) =~= seq![xv, yv]);
                                }
                                Err(RuntimeError::NoOverloadForTypes("%".to_owned(), vs))
                            },
                        }
                    }
                },
                Err(e) => Err(e),
            }
        },
        ParseTree::Exp(a, b) => {
            match exec_two(g, l, a, b, fuel - 1) {
                Ok((x, y)) => {
                    let ghost xv = x@;
                    let ghost yv = y@;
                    match x.duplicate().exp(y.duplicate()) {
                        Some(v) => Ok(v),
                        None => {
                            let vs = vec![x, y];
                            proof {
                                assert(values_view(vs@) =~= seq![xv, yv]);
                            }
                            Err(RuntimeError::NoOverloadForTypes("**".to_owned(), vs))
                        },
                    }
                },
                Err(e) => Err(e),
            }
        },
        _ => {
            proof {
                assert(false);
            }
            Err(RuntimeError::RecursionLimit)
        },
    }
}

/// Evaluate a comparison or negation node.
#[verifier::loop_isolation(false)]
#[verifier::rlimit(100)]
#[verifier::spinoff_prover]
fn exec_compare(
    g: &Vec<(String, Object)>,
    l: &mut Vec<(String, Object)>,
    t: &ParseTree,
    fuel: u64,
) -> (r: Result<Value, RuntimeError>)
    requires
        1 <= fuel,
        t is EqualTo || t is GreaterThan || t is GreaterThanOrEqualTo || t is LessThan || t is LessThanOrEqualTo || t is Not,
    ensures
        ({
            let o = spec_exec(env_view(g@), env_view(old(l)@), t@, fuel as nat);
            res_view(r) == o.res && env_view(final(l)@) == o.env
        }),
    decreases fuel, 0int,
{
    match t {
        ParseTree::EqualTo(a, b) => {
            match exec_two(g, l, a, b, fuel - 1) {
                Ok((x, y)) => {
                    let ghost xv = x@;
                    let ghost yv = y@;
                    match x.eq_value(&y) {
                        Some(v) => Ok(Value::Bool(v)),
                        None => {
                            let vs = vec![x, y];
                            proof {
                                assert(values_view(vs@) =~= seq![xv, yv]);
                            }
                            Err(RuntimeError::NoOverloadForTypes("==".to_owned(), vs))
                        },
                    }
                },
                Err(e) => Err(e),
            }
        },
        ParseTree::GreaterThan(a, b) => {
            match exec_two(g, l, a, b, fuel - 1) {
                Ok((x, y)) => {
                    let ghost xv = x@;
                    let ghost yv = y@;
                    match y.lt_value(&x) {
                        Some(v) => Ok(Value::Bool(v)),
                        None => {
                            let vs = vec![x, y];
                            proof {
                                assert(values_view(vs@) =~= seq![xv, yv]);
                            }
                            Err(RuntimeError::NoOverloadForTypes(">".to_owned(), vs))
                        },
                    }
                },
                Err(e) => Err(e),
            }
        },
        ParseTree::GreaterThanOrEqualTo(a, b) => {
            match exec_two(g, l, a, b, fuel - 1) {
                Ok((x, y)) => {
                    let ghost xv = x@;
                    let ghost yv = y@;
                    match y.le_value(&x) {
                        Some(v) => Ok(Value::Bool(v)),
                        None => {
                            let vs = vec![x, y];
                            proof {
                                assert(values_view(vs@) =~= seq![xv, yv]);
                            }
                            Err(RuntimeError::NoOverloadForTypes(">=".to_owned(), vs))
                        },
                    }
                },
                Err(e) => Err(e),
            }
        },
        ParseTree::LessThan(a, b) => {
            match exec_two(g, l, a, b, fuel - 1) {
                Ok((x, y)) => {
                    let ghost xv = x@;
                    let ghost yv = y@;
                    match x.lt_value(&y) {
                        Some(v) => Ok(Value::Bool(v)),
                        None => {
                            let vs = vec![x, y];
                            proof {
                                assert(values_view(vs@) =~= seq![xv, yv]);
                            }
                            Err(RuntimeError::NoOverloadForTypes("<".to_owned(), vs))
                        },
                    }
                },
                Err(e) => Err(e),
            }
        },
        ParseTree::LessThanOrEqualTo(a, b) => {
            match exec_two(g, l, a, b, fuel - 1) {
                Ok((x, y)) => {
                    let ghost xv = x@;
                    let ghost yv = y@;
                    match x.le_value(&y) {
                        Some(v) => Ok(Value::Bool(v)),
                        None => {
                            let vs = vec![x, y];
                            proof {
                                assert(values_view(vs@) =~= seq![xv, yv]);
                            }
                            Err(RuntimeError::NoOverloadForTypes("<=".to_owned(), vs))
                        },
                    }
                },
                Err(e) => Err(e),
            }
        },
        ParseTree::Not(a) => {
            match exec_tree(g, l, a, fuel - 1) {
                Ok(v) => {
                    match v {
                        Value::Bool(b) => Ok(Value::Bool(!b)),
                        other => {
                            let ghost ov = other@;
                            let vs = vec![other];
                            proof {
                                assert(values_view(vs@) =~= seq![ov]);
                            }
                            Err(RuntimeError::NoOverloadForTypes("not".to_owned(), vs))
                        },
                    }
                },
                Err(e) => Err(e),
            }
        },
        _ => {
            proof {
                assert(false);
            }
            Err(RuntimeError::RecursionLimit)
        },
    }
}

/// Evaluate a bind, declaration, or reserved global-bind node.
#[verifier::loop_isolation(false)]
#[verifier::rlimit(100)]
#[verifier::spinoff_prover]
fn exec_binding(
    g: &Vec<(String, Object)>,
    l: &mut Vec<(String, Object)>,
    t: &ParseTree,
    fuel: u64,
) -> (r: Result<Value, RuntimeError>)
    requires
        1 <= fuel,
        t is Equ || t is LazyEqu || t is GlobalEqu || t is LazyGlobalEqu || t is FunctionDefinition,
    ensures
        ({
            let o = spec_exec(env_view(g@), env_view(old(l)@), t@, fuel as nat);
            res_view(r) == o.res && env_view(final(l)@) == o.env
        }),
    decreases fuel, 0int,
{
    match t {
        ParseTree::Equ(name, body, scope) => {
            if env_defined(g, name) || env_defined(l, name) {
                Err(RuntimeError::ImmutableError(name.clone()))
            } else {
                match exec_tree(g, l, body, fuel - 1) {
                    Ok(v) => {
                        let ghost gv = env_view(g@);
                        let ghost vv = v@;
                        let ghost lb = l@;
                        let old_len = l.len();
                        l.push((name.clone(), Object::Variable(Evaluation::Computed(v))));
                        proof {
                            assert(env_view(l@) =~= env_view(lb).push(
                                (name@, ObjV::Variable(EvalV::Computed(vv))),
                            ));
                        }
                        let ghost l2v = env_view(l@);
                        let r2 = exec_tree(g, l, scope, fuel - 1);
                        let ghost lb2 = l@;
                        proof {
                            lemma_exec_env_grows(gv, l2v, scope@, (fuel - 1) as nat);
                            assert(lb2.len() >= old_len + 1);
                        }
                        l.truncate(old_len);
                        proof {
                            assert(l@ =~= lb2.subrange(0, old_len as int));
                            assert(env_view(l@) =~= env_view(lb2).subrange(0, old_len as int));
                        }
                        r2
                    },
                    Err(e) => Err(e),
                }
            }
        },
        ParseTree::LazyEqu(name, body, scope) => {
            if env_defined(g, name) || env_defined(l, name) {
                Err(RuntimeError::ImmutableError(name.clone()))
            } else {
                let ghost gv = env_view(g@);
                let ghost lb = l@;
                let old_len = l.len();
                l.push(
                    (
                        name.clone(),
                        Object::Variable(Evaluation::Uncomputed(Box::new(body.duplicate()))),
                    ),
                );
                proof {
                    assert(env_view(l@) =~= env_view(lb).push(
                        (name@, ObjV::Variable(EvalV::Uncomputed(body@))),
                    ));
                }
                let ghost l2v = env_view(l@);
                let r2 = exec_tree(g, l, scope, fuel - 1);
                let ghost lb2 = l@;
                proof {
                    lemma_exec_env_grows(gv, l2v, scope@, (fuel - 1) as nat);
                    assert(lb2.len() >= old_len + 1);
                }
                l.truncate(old_len);
                proof {
                    assert(l@ =~= lb2.subrange(0, old_len as int));
                    assert(env_view(l@) =~= env_view(lb2).subrange(0, old_len as int));
                }
                r2
            }
        },
        ParseTree::GlobalEqu(name, _body) => Err(
            RuntimeError::UnsupportedConstruct(name.clone()),
        ),
        ParseTree::LazyGlobalEqu(name, _body) => Err(
            RuntimeError::UnsupportedConstruct(name.clone()),
        ),
        ParseTree::FunctionDefinition(name, params, _r, body, scope) => {
            if env_defined(g, name) || env_defined(l, name) {
                Err(RuntimeError::ImmutableError(name.clone()))
            } else {
                let ghost gv = env_view(g@);
                let old_len = l.len();
                let mut names: Vec<String> = Vec::new();
                let mut i: usize = 0;
                while i < params.len()
                    invariant
                        i <= params@.len(),
                        names@.len() == i,
                        forall|k: int| 0 <= k < i ==> names@[k]@ == params@[k].0@,
                    decreases params@.len() - i,
                {
                    let entry = &params[i];
                    names.push(entry.0.clone());
                    i = i + 1;
                }
                proof {
                    assert(names@.map_values(|s: String| s@) =~= crate::parser::params_view(
                        params@,
                    ));
                }
                let ghost lb = l@;
                l.push(
                    (
                        name.clone(),
                        Object::Function(
                            Function { params: names, body: Some(Box::new(body.duplicate())) },
                        ),
                    ),
                );
                proof {
                    assert(env_view(l@) =~= env_view(lb).push(
                        (
                            name@,
                            ObjV::Function(
                                FunV {
                                    params: crate::parser::params_view(params@),
                                    body: Some(body@),
                                },
                            ),
                        ),
                    ));
                }
                let ghost l2v = env_view(l@);
                let r2 = exec_tree(g, l, scope, fuel - 1);
                let ghost lb2 = l@;
                proof {
                    lemma_exec_env_grows(gv, l2v, scope@, (fuel - 1) as nat);
                    assert(lb2.len() >= old_len + 1);
                }
                l.truncate(old_len);
                proof {
                    assert(l@ =~= lb2.subrange(0, old_len as int));
                    assert(env_view(l@) =~= env_view(lb2).subrange(0, old_len as int));
                }
                r2
            }
        },
        _ => {
            proof {
                assert(false);
            }
            Err(RuntimeError::RecursionLimit)
        },
    }
}

/// Evaluate a sequencing, identity, conditional or literal node.
#[verifier::loop_isolation(false)]
#[verifier::rlimit(100)]
#[verifier::spinoff_prover]
fn exec_flow(
    g: &Vec<(String, Object)>,
    l: &mut Vec<(String, Object)>,
    t: &ParseTree,
    fuel: u64,
) -> (r: Result<Value, RuntimeError>)
    requires
        1 <= fuel,
        t is Compose || t is Id || t is If || t is IfElse || t is Constant,
    ensures
        ({
            let o = spec_exec(env_view(g@), env_view(old(l)@), t@, fuel as nat);
            res_view(r) == o.res && env_view(final(l)@) == o.env
        }),
    decreases fuel, 0int,
{
    match t {
        ParseTree::Compose(a, b) => {
            match exec_tree(g, l, a, fuel - 1) {
                Ok(_) => exec_tree(g, l, b, fuel - 1),
                Err(e) => Err(e),
            }
        },
        ParseTree::Id(a) => exec_tree(g, l, a, fuel - 1),
        ParseTree::If(c, body) => {
            match exec_tree(g, l, c, fuel - 1) {
                Ok(v) => {
                    if crate::value::truthy(&v) {
                        exec_tree(g, l, body, fuel - 1)
                    } else {
                        Ok(Value::Nil)
                    }
                },
                Err(e) => Err(e),
            }
        },
        ParseTree::IfElse(c, tb, eb) => {
            match exec_tree(g, l, c, fuel - 1) {
                Ok(v) => {
                    if crate::value::truthy(&v) {
                        exec_tree(g, l, tb, fuel - 1)
                    } else {
                        exec_tree(g, l, eb, fuel - 1)
                    }
                },
                Err(e) => Err(e),
            }
        },
        ParseTree::Constant(v) => Ok(v.duplicate()),
        _ => {
            proof {
                assert(false);
            }
            Err(RuntimeError::RecursionLimit)
        },
    }
}

/// Evaluate a function call or a variable reference.
#[verifier::loop_isolation(false)]
#[verifier::rlimit(100)]
#[verifier::spinoff_prover]
fn exec_name(
    g: &Vec<(String, Object)>,
    l: &mut Vec<(String, Object)>,
    t: &ParseTree,
    fuel: u64,
) -> (r: Result<Value, RuntimeError>)
    requires
        1 <= fuel,
        t is FunctionCall || t is Variable,
    ensures
        ({
            let o = spec_exec(env_view(g@), env_view(old(l)@), t@, fuel as nat);
            res_view(r) == o.res && env_view(final(l)@) == o.env
        }),
    decreases fuel, 0int,
{
    match t {
        ParseTree::FunctionCall(name, args) => {
            let looked = match env_index(l, name) {
                Some(i) => copy_function_entry(&l[i].1),
                None => match env_index(g, name) {
                    Some(i) => copy_function_entry(&g[i].1),
                    None => None,
                },
            };
            proof {
                lemma_env_find_in_range(env_view(l@), name@);
                lemma_env_find_in_range(env_view(g@), name@);
            }
            match looked {
                None => Err(RuntimeError::FunctionUndeclared(name.clone())),
                Some((_params, None)) => Err(RuntimeError::FunctionUndefined(name.clone())),
                Some((params, Some(b))) => {
                    let ghost gv = env_view(g@);
                    let ghost l0v = env_view(l@);
                    let ghost pv = params@.map_values(|s: String| s@);
                    let ghost av = crate::parser::trees_view(args@);
                    proof {
                        crate::parser::lemma_trees_view_parts(args@);
                    }
                    let old_len = l.len();
                    let m = if params.len() <= args.len() {
                        params.len()
                    } else {
                        args.len()
                    };
                    let mut j: usize = 0;
                    while j < m
                        invariant
                            j <= m,
                            env_view(l@) == l0v + Seq::new(
                                j as nat,
                                |i: int| (pv[i], ObjV::Variable(EvalV::Uncomputed(av[i]))),
                            ),
                        decreases m - j,
                    {
                        let ghost before = env_view(l@);
                        l.push(
                            (
                                params[j].clone(),
                                Object::Variable(
                                    Evaluation::Uncomputed(Box::new(args[j].duplicate())),
                                ),
                            ),
                        );
                        proof {
                            assert(env_view(l@) =~= before.push(
                                (pv[j as int], ObjV::Variable(EvalV::Uncomputed(av[j as int]))),
                            ));
                            assert(env_view(l@) =~= l0v + Seq::new(
                                (j + 1) as nat,
                                |i: int| (pv[i], ObjV::Variable(EvalV::Uncomputed(av[i]))),
                            ));
                        }
                        j = j + 1;
                    }
                    proof {
                        lemma_bind_args_flat(l0v, pv, av);
                        assert(env_view(l@) =~= bind_args(l0v, pv, av));
                    }
                    let ghost l2v = env_view(l@);
                    let r = exec_tree(g, l, &b, fuel - 1);
                    proof {
                        lemma_exec_env_grows(gv, l2v, b@, (fuel - 1) as nat);
                        lemma_bind_args_shape(l0v, pv, av);
                    }
                    l.truncate(old_len);
                    proof {
                        assert(env_view(l@) =~= spec_exec(
                            gv,
                            l2v,
                            b@,
                            (fuel - 1) as nat,
                        ).env.subrange(0, old_len as int));
                    }
                    r
                },
            }
        },
        ParseTree::Variable(name) => {
            let idx = env_index(l, name);
            proof {
                lemma_env_find_in_range(env_view(l@), name@);
                lemma_env_find_in_range(env_view(g@), name@);
            }
            match idx {
                Some(i) => {
                    let kind: u8 = match &l[i].1 {
                        Object::Variable(Evaluation::Computed(_)) => 0,
                        Object::Variable(Evaluation::Uncomputed(_)) => 1,
                        Object::Function(_) => 2,
                    };
                    if kind == 0 {
                        let v = match &l[i].1 {
                            Object::Variable(Evaluation::Computed(v)) => v.duplicate(),
                            _ => Value::Nil,
                        };
                        Ok(v)
                    } else if kind == 1 {
                        let t2 = match &l[i].1 {
                            Object::Variable(Evaluation::Uncomputed(tb)) => tb.duplicate(),
                            _ => ParseTree::Variable(name.clone()),
                        };
                        let ghost gv = env_view(g@);
                        let ghost l0v = env_view(l@);
                        let mut tail = l.split_off(i);
                        proof {
                            assert(env_view(l@) =~= l0v.take(i as int));
                            assert(env_view(tail@) =~= l0v.skip(i as int));
                        }
                        let ghost belowv = env_view(l@);
                        let ghost tailv = env_view(tail@);
                        let r = exec_tree(g, l, &t2, fuel - 1);
                        proof {
                            lemma_exec_env_grows(gv, belowv, t2@, (fuel - 1) as nat);
                        }
                        let ghost afterv = env_view(l@);
                        l.truncate(i);
                        proof {
                            assert(env_view(l@) =~= afterv.take(i as int));
                        }
                        let ghost truncv = env_view(l@);
                        l.append(&mut tail);
                        proof {
                            assert(env_view(l@) =~= truncv + tailv);
                        }
                        match r {
                            Ok(v) => {
                                let nm = l[i].0.clone();
                                let upd = (nm, Object::Variable(Evaluation::Computed(v.duplicate())));
                                let ghost before = env_view(l@);
                                l.set(i, upd);
                                proof {
                                    assert(before[i as int].0 == l0v[i as int].0);
                                    assert(env_view(l@) =~= before.update(
                                        i as int,
                                        (l0v[i as int].0, ObjV::Variable(
                                            EvalV::Computed(v@),
                                        )),
                                    ));
                                }
                                Ok(v)
                            },
                            Err(e) => Err(e),
                        }
                    } else {
                        Err(RuntimeError::NotAVariable(name.clone()))
                    }
                },
                None => {
                    let gidx = env_index(g, name);
                    match gidx {
                        Some(i) => {
                            let kind: u8 = match &g[i].1 {
                                Object::Variable(Evaluation::Computed(_)) => 0,
                                Object::Variable(Evaluation::Uncomputed(_)) => 1,
                                Object::Function(_) => 2,
                            };
                            if kind == 0 {
                                let v = match &g[i].1 {
                                    Object::Variable(Evaluation::Computed(v)) => v.duplicate(),
                                    _ => Value::Nil,
                                };
                                Ok(v)
                            } else if kind == 1 {
                                let t2 = match &g[i].1 {
                                    Object::Variable(Evaluation::Uncomputed(tb)) => tb.duplicate(),
                                    _ => ParseTree::Variable(name.clone()),
                                };
                                let ghost before0 = env_view(l@);
                                match exec_tree(g, l, &t2, fuel - 1) {
                                    Ok(v) => {
                                        let ghost before = env_view(l@);
                                        l.push(
                                            (
                                                name.clone(),
                                                Object::Variable(
                                                    Evaluation::Computed(v.duplicate()),
                                                ),
                                            ),
                                        );
                                        proof {
                                            assert(env_view(l@) =~= before.push(
                                                (name@, ObjV::Variable(EvalV::Computed(v@))),
                                            ));
                                        }
                                        Ok(v)
                                    },
                                    Err(e) => Err(e),
                                }
                            } else {
                                Err(RuntimeError::NotAVariable(name.clone()))
                            }
                        },
                        None => Err(RuntimeError::VariableUndefined(name.clone())),
                    }
                },
            }
        },
        _ => {
            proof {
                assert(false);
            }
            Err(RuntimeError::RecursionLimit)
        },
    }
}

/// Evaluate one tree against the global and local environments, spending
/// one unit of the recursion allowance per node entered.
fn exec_tree(
    g: &Vec<(String, Object)>,
    l: &mut Vec<(String, Object)>,
    t: &ParseTree,
    fuel: u64,
) -> (r: Result<Value, RuntimeError>)
    ensures
        ({
            let o = spec_exec(env_view(g@), env_view(old(l)@), t@, fuel as nat);
            res_view(r) == o.res && env_view(final(l)@) == o.env
        }),
    decreases fuel, 1int,
{
    if fuel == 0 {
        return Err(RuntimeError::RecursionLimit);
    }
    match t {
        ParseTree::Add(_, _) => exec_arith(g, l, t, fuel),
        ParseTree::Sub(_, _) => exec_arith(g, l, t, fuel),
        ParseTree::Mul(_, _) => exec_arith(g, l, t, fuel),
        ParseTree::Div(_, _) => exec_arith(g, l, t, fuel),
        ParseTree::Mod(_, _) => exec_arith(g, l, t, fuel),
        ParseTree::Exp(_, _) => exec_arith(g, l, t, fuel),
        ParseTree::EqualTo(_, _) => exec_compare(g, l, t, fuel),
        ParseTree::GreaterThan(_, _) => exec_compare(g, l, t, fuel),
        ParseTree::GreaterThanOrEqualTo(_, _) => exec_compare(g, l, t, fuel),
        ParseTree::LessThan(_, _) => exec_compare(g, l, t, fuel),
        ParseTree::LessThanOrEqualTo(_, _) => exec_compare(g, l, t, fuel),
        ParseTree::Not(_) => exec_compare(g, l, t, fuel),
        ParseTree::Equ(_, _, _) => exec_binding(g, l, t, fuel),
        ParseTree::LazyEqu(_, _, _) => exec_binding(g, l, t, fuel),
        ParseTree::GlobalEqu(_, _) => exec_binding(g, l, t, fuel),
        ParseTree::LazyGlobalEqu(_, _) => exec_binding(g, l, t, fuel),
        ParseTree::FunctionDefinition(_, _, _, _, _) => exec_binding(g, l, t, fuel),
        ParseTree::Compose(_, _) => exec_flow(g, l, t, fuel),
        ParseTree::Id(_) => exec_flow(g, l, t, fuel),
        ParseTree::If(_, _) => exec_flow(g, l, t, fuel),
        ParseTree::IfElse(_, _, _) => exec_flow(g, l, t, fuel),
        ParseTree::Constant(_) => exec_flow(g, l, t, fuel),
        ParseTree::FunctionCall(_, _) => exec_name(g, l, t, fuel),
        ParseTree::Variable(_) => exec_name(g, l, t, fuel),
    }
}

// ---------------------------------------------------------------------------
// The executor over a token cursor
// ---------------------------------------------------------------------------

/// The recursion allowance used when the caller does not pick one.
pub const DEFAULT_FUEL: u64 = 1000000;

/// The state an [`Executor`] models: the token stream and position of its
/// cursor, the global environment, and the recursion allowance.
pub struct ExecSt {
    pub toks: Seq<crate::tokenizer::TokenV>,
    pub pos: int,
    pub globals: EnvV,
    pub fuel: nat,
}

/// What one step of the executor yields: nothing at the end of the
/// program, a parse failure wrapped as a runtime error, or the evaluation
/// of the next tree in a fresh local scope against the globals.
pub open spec fn spec_executor_next(st: ExecSt) -> (Option<Result<ValueV, RtErrV>>, int) {
    let (ro, p2) = crate::parser::spec_next_tree(st.toks, st.pos);
    match ro {
        None => (None, p2),
        Some(Err(e)) => (Some(Err(RtErrV::ParseError(e))), p2),
        Some(Ok(t)) => (
            Some(spec_exec(st.globals, Seq::empty(), t, st.fuel).res),
            p2,
        ),
    }
}

/// Evaluates the top-level trees of a program one at a time, threading the
/// global environment between them and giving each a fresh local scope.
pub struct Executor {
    exprs: Parser,
    globals: Vec<(String, Object)>,
    fuel: u64,
}

impl View for Executor {
    type V = ExecSt;

    closed spec fn view(&self) -> ExecSt {
        ExecSt {
            toks: self.exprs@.0,
            pos: self.exprs@.1,
            globals: env_view(self.globals@),
            fuel: self.fuel as nat,
        }
    }
}

impl Executor {
    /// Whether the cursor is inside its token stream.
    pub closed spec fn wf(&self) -> bool {
        self.exprs.wf()
    }

    /// Start an executor over a token cursor with the default recursion
    /// allowance and an empty global environment.
    pub fn new(exprs: Parser) -> (r: Executor)
        requires
            exprs.wf(),
        ensures
            r.wf(),
            r@.toks == exprs@.0,
            r@.pos == exprs@.1,
            r@.globals == Seq::<(Seq<char>, ObjV)>::empty(),
            r@.fuel == DEFAULT_FUEL as nat,
    {
        let e = Executor { exprs, globals: Vec::new(), fuel: DEFAULT_FUEL };
        proof {
            assert(env_view(Seq::<(String, Object)>::empty()) =~= Seq::<
                (Seq<char>, ObjV),
            >::empty());
        }
        e
    }

    /// Start an executor with a recursion allowance of the caller's choice.
    pub fn with_fuel(exprs: Parser, fuel: u64) -> (r: Executor)
        requires
            exprs.wf(),
        ensures
            r.wf(),
            r@.toks == exprs@.0,
            r@.pos == exprs@.1,
            r@.globals == Seq::<(Seq<char>, ObjV)>::empty(),
            r@.fuel == fuel as nat,
    {
        let e = Executor { exprs, globals: Vec::new(), fuel };
        proof {
            assert(env_view(Seq::<(String, Object)>::empty()) =~= Seq::<
                (Seq<char>, ObjV),
            >::empty());
        }
        e
    }

    /// Evaluate the next top-level expression: its value, the first error,
    /// or nothing once the program is done.
    pub fn next(&mut self) -> (r: Option<Result<Value, RuntimeError>>)
        requires
            old(self).wf(),
        ensures
            final(self).wf(),
            final(self)@.toks == old(self)@.toks,
            final(self)@.globals == old(self)@.globals,
            final(self)@.fuel == old(self)@.fuel,
            ({
                let (ro, p2) = spec_executor_next(old(self)@);
                final(self)@.pos == p2 && (match (r, ro) {
                    (None, None) => true,
                    (Some(rr), Some(rs)) => res_view(rr) == rs,
                    _ => false,
                })
            }),
    {
        match self.exprs.next_tree() {
            None => None,
            Some(Err(e)) => Some(Err(RuntimeError::ParseError(e))),
            Some(Ok(t)) => {
                let mut locals: Vec<(String, Object)> = Vec::new();
                proof {
                    assert(env_view(Seq::<(String, Object)>::empty()) =~= Seq::<
                        (Seq<char>, ObjV),
                    >::empty());
                }
                let r = exec_tree(&self.globals, &mut locals, &t, self.fuel);
                Some(r)
            },
        }
    }
}

// ---------------------------------------------------------------------------
// Stated laws
// ---------------------------------------------------------------------------

/// A conditional never evaluates the untaken branch: when the condition
/// comes out true, the two-branch form gives the same outcome whatever
/// stands in the false branch, and symmetrically; and the single-branch
/// form with a false condition is nil whatever stands in the body.
pub proof fn lemma_untaken_branch_ignored(
    g: EnvV,
    l: EnvV,
    c: TreeV,
    t1: TreeV,
    t2: TreeV,
    e1: TreeV,
    e2: TreeV,
    fuel: nat,
)
    requires
        fuel >= 1,
    ensures
        ({
            let o = spec_exec(g, l, c, (fuel - 1) as nat);
            &&& (o.res is Ok && spec_truthy(o.res->Ok_0) ==> spec_exec(
                g,
                l,
                TreeV::IfElse(Box::new(c), Box::new(t1), Box::new(e1)),
                fuel,
            ) == spec_exec(g, l, TreeV::IfElse(Box::new(c), Box::new(t1), Box::new(e2)), fuel))
            &&& (o.res is Ok && !spec_truthy(o.res->Ok_0) ==> spec_exec(
                g,
                l,
                TreeV::IfElse(Box::new(c), Box::new(t1), Box::new(e1)),
                fuel,
            ) == spec_exec(g, l, TreeV::IfElse(Box::new(c), Box::new(t2), Box::new(e1)), fuel))
            &&& (o.res is Ok && !spec_truthy(o.res->Ok_0) ==> spec_exec(
                g,
                l,
                TreeV::If(Box::new(c), Box::new(t1)),
                fuel,
            ) == EvalOut { res: Ok(ValueV::Nil), env: o.env })
        }),
{
}

/// Re-binding a name visible in the local or global scope always fails
/// with the immutable-rebind error and leaves the environment untouched,
/// whether the new binding is eager, lazy, or a function definition.
pub proof fn lemma_rebind_fails(
    g: EnvV,
    l: EnvV,
    name: Seq<char>,
    a: TreeV,
    b: TreeV,
    params: Seq<Seq<char>>,
    fuel: nat,
)
    requires
        fuel >= 1,
        env_has(l, name) || env_has(g, name),
    ensures
        spec_exec(g, l, TreeV::Equ(name, Box::new(a), Box::new(b)), fuel) == (EvalOut {
            res: Err(RtErrV::ImmutableError(name)),
            env: l,
        }),
        spec_exec(g, l, TreeV::LazyEqu(name, Box::new(a), Box::new(b)), fuel) == (EvalOut {
            res: Err(RtErrV::ImmutableError(name)),
            env: l,
        }),
        spec_exec(
            g,
            l,
            TreeV::FunctionDefinition(name, params, Box::new(a), Box::new(b)),
            fuel,
        ) == (EvalOut { res: Err(RtErrV::ImmutableError(name)), env: l }),
{
}

/// Reading a binding that is already computed returns the cached value and
/// evaluates nothing: the environment comes back exactly as it was.
pub proof fn lemma_cached_read(g: EnvV, l: EnvV, name: Seq<char>, fuel: nat)
    requires
        fuel >= 1,
        env_find(l, name) is Some,
        l[env_find(l, name)->0].1 is Variable,
        l[env_find(l, name)->0].1->Variable_0 is Computed,
    ensures
        spec_exec(g, l, TreeV::Variable(name), fuel) == (EvalOut {
            res: Ok(l[env_find(l, name)->0].1->Variable_0->Computed_0),
            env: l,
        }),
{
}

/// Forcing a lazy binding evaluates its tree once and caches the value in
/// place: afterwards the entry is computed, so by [`lemma_cached_read`]
/// later reads in that scope return the value without evaluating again.
pub proof fn lemma_force_memoizes(g: EnvV, l: EnvV, name: Seq<char>, fuel: nat)
    requires
        fuel >= 1,
        env_find(l, name) is Some,
        l[env_find(l, name)->0].1 is Variable,
        l[env_find(l, name)->0].1->Variable_0 is Uncomputed,
    ensures
        ({
            let i = env_find(l, name)->0;
            let thunk = l[i].1->Variable_0->Uncomputed_0;
            let o = spec_exec(g, l.take(i), thunk, (fuel - 1) as nat);
            let out = spec_exec(g, l, TreeV::Variable(name), fuel);
            &&& out.res == o.res
            &&& (o.res is Ok ==> out.env[i].1 == ObjV::Variable(
                EvalV::Computed(o.res->Ok_0),
            ) && out.env[i].0 == name && out.env.len() == l.len())
        }),
{
    let i = env_find(l, name)->0;
    lemma_env_find_in_range(l, name);
    let thunk = l[i].1->Variable_0->Uncomputed_0;
    lemma_exec_env_grows(g, l.take(i), thunk, (fuel - 1) as nat);
}

} // verus!
