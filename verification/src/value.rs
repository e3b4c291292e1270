//! Runtime values of the language and the arithmetic, comparison and
//! truthiness rules over them.
//!
//! A floating-point result is carried as the 64 bits of its IEEE-754 double
//! encoding, so that the verified code never touches a machine float; the
//! arithmetic on those bit patterns is delegated to software-float routines
//! behind the trusted wrappers in `fp`.

use crate::fp;
use vstd::prelude::*;
use vstd::string::StringExecFns;

verus! {

/// A runtime value: the result of evaluating an expression.
#[derive(Debug, Clone, PartialEq)]
pub enum Value {
    /// IEEE-754 double, stored as its bit pattern.
    Float(u64),
    Int(i64),
    Bool(bool),
    Str(String),
    Nil,
}

/// Mathematical model of a [`Value`]: strings become sequences of characters.
pub enum ValueV {
    Float(u64),
    Int(i64),
    Bool(bool),
    Str(Seq<char>),
    Nil,
}

impl View for Value {
    type V = ValueV;

    open spec fn view(&self) -> ValueV {
        match self {
            Value::Float(b) => ValueV::Float(*b),
            Value::Int(i) => ValueV::Int(*i),
            Value::Bool(b) => ValueV::Bool(*b),
            Value::Str(s) => ValueV::Str(s@),
            Value::Nil => ValueV::Nil,
        }
    }
}

impl Value {
    /// A structural copy; unlike a derived `Clone`, its contract is visible
    /// to the verifier.
    pub fn duplicate(&self) -> (r: Value)
        ensures
            r == *self,
    {
        match self {
            Value::Float(b) => Value::Float(*b),
            Value::Int(i) => Value::Int(*i),
            Value::Bool(b) => Value::Bool(*b),
            Value::Str(s) => Value::Str(s.clone()),
            Value::Nil => Value::Nil,
        }
    }
}

/// Truthiness coercion: `0`, both zero floats, the empty string and nil are
/// false; every other value is true, and a boolean is itself.  A NaN pattern
/// has a nonzero magnitude, so it is true, exactly as `f != 0.0` would be.
pub open spec fn spec_truthy(v: ValueV) -> bool {
    match v {
        ValueV::Float(b) => (b & 0x7fff_ffff_ffff_ffff) != 0,
        ValueV::Int(i) => i != 0,
        ValueV::Bool(b) => b,
        ValueV::Str(s) => s.len() != 0,
        ValueV::Nil => false,
    }
}

/// Evaluate the truthiness coercion of a value.
pub fn truthy(v: &Value) -> (r: bool)
    ensures
        r == spec_truthy(v@),
{
    match v {
        Value::Float(b) => (*b & 0x7fff_ffff_ffff_ffff) != 0,
        Value::Int(i) => *i != 0,
        Value::Bool(b) => *b,
        Value::Str(s) => !s.as_str().is_empty(),
        Value::Nil => false,
    }
}

/// The string `s` repeated `n` times.
pub open spec fn spec_repeat(s: Seq<char>, n: nat) -> Seq<char>
    decreases n,
{
    if n == 0 {
        Seq::empty()
    } else {
        spec_repeat(s, (n - 1) as nat) + s
    }
}

/// `x` multiplied by itself `n` times, wrapping on 64-bit overflow.
pub open spec fn pow_wrap(x: i64, n: nat) -> i64
    decreases n,
{
    if n == 0 {
        1
    } else {
        vstd::wrapping::i64_specs::wrapping_mul(pow_wrap(x, (n - 1) as nat), x)
    }
}

/// The low 32 bits of an integer, as the exponent operator reads them.
pub open spec fn low32(y: i64) -> u32 {
    (y & 0xffff_ffff) as u32
}

/// The `+` table: integers add (wrapping), any float operand promotes the
/// result to a float, strings concatenate; no other pairing is defined.
pub open spec fn spec_add_v(x: ValueV, y: ValueV) -> Option<ValueV> {
    match (x, y) {
        (ValueV::Int(a), ValueV::Int(b)) => Some(
            ValueV::Int(vstd::wrapping::i64_specs::wrapping_add(a, b)),
        ),
        (ValueV::Float(a), ValueV::Int(b)) => Some(
            ValueV::Float(fp::fp_add_bits(a, fp::fp_from_int_bits(b))),
        ),
        (ValueV::Int(a), ValueV::Float(b)) => Some(
            ValueV::Float(fp::fp_add_bits(fp::fp_from_int_bits(a), b)),
        ),
        (ValueV::Float(a), ValueV::Float(b)) => Some(ValueV::Float(fp::fp_add_bits(a, b))),
        (ValueV::Str(a), ValueV::Str(b)) => Some(ValueV::Str(a + b)),
        _ => None,
    }
}

/// The `-` table: defined on numeric operands only, with float promotion.
pub open spec fn spec_sub_v(x: ValueV, y: ValueV) -> Option<ValueV> {
    match (x, y) {
        (ValueV::Int(a), ValueV::Int(b)) => Some(
            ValueV::Int(vstd::wrapping::i64_specs::wrapping_sub(a, b)),
        ),
        (ValueV::Float(a), ValueV::Int(b)) => Some(
            ValueV::Float(fp::fp_sub_bits(a, fp::fp_from_int_bits(b))),
        ),
        (ValueV::Int(a), ValueV::Float(b)) => Some(
            ValueV::Float(fp::fp_sub_bits(fp::fp_from_int_bits(a), b)),
        ),
        (ValueV::Float(a), ValueV::Float(b)) => Some(ValueV::Float(fp::fp_sub_bits(a, b))),
        _ => None,
    }
}

/// The `*` table: numerics multiply with float promotion, and a string on
/// the left repeats a non-negative integer count of times.  An integer on
/// the left of a string is not defined.
pub open spec fn spec_mul_v(x: ValueV, y: ValueV) -> Option<ValueV> {
    match (x, y) {
        (ValueV::Int(a), ValueV::Int(b)) => Some(
            ValueV::Int(vstd::wrapping::i64_specs::wrapping_mul(a, b)),
        ),
        (ValueV::Float(a), ValueV::Int(b)) => Some(
            ValueV::Float(fp::fp_mul_bits(a, fp::fp_from_int_bits(b))),
        ),
        (ValueV::Int(a), ValueV::Float(b)) => Some(
            ValueV::Float(fp::fp_mul_bits(fp::fp_from_int_bits(a), b)),
        ),
        (ValueV::Float(a), ValueV::Float(b)) => Some(ValueV::Float(fp::fp_mul_bits(a, b))),
        (ValueV::Str(a), ValueV::Int(b)) => if 0 <= b {
            Some(ValueV::Str(spec_repeat(a, b as nat)))
        } else {
            None
        },
        _ => None,
    }
}

/// The `/` table: defined on numeric operands; integer division truncates
/// and wraps on the one overflowing pair, and division by the integer zero
/// is not a value (the executor reports it as its own error).
pub open spec fn spec_div_v(x: ValueV, y: ValueV) -> Option<ValueV> {
    match (x, y) {
        (ValueV::Int(a), ValueV::Int(b)) => if b == 0 {
            None
        } else {
            match a.checked_div(b) {
                Some(q) => Some(ValueV::Int(q)),
                None => Some(ValueV::Int(i64::MIN)),
            }
        },
        (ValueV::Float(a), ValueV::Int(b)) => Some(
            ValueV::Float(fp::fp_div_bits(a, fp::fp_from_int_bits(b))),
        ),
        (ValueV::Int(a), ValueV::Float(b)) => Some(
            ValueV::Float(fp::fp_div_bits(fp::fp_from_int_bits(a), b)),
        ),
        (ValueV::Float(a), ValueV::Float(b)) => Some(ValueV::Float(fp::fp_div_bits(a, b))),
        _ => None,
    }
}

/// The `%` table: like `/`, with the remainder in place of the quotient.
pub open spec fn spec_mod_v(x: ValueV, y: ValueV) -> Option<ValueV> {
    match (x, y) {
        (ValueV::Int(a), ValueV::Int(b)) => if b == 0 {
            None
        } else {
            match a.checked_rem(b) {
                Some(q) => Some(ValueV::Int(q)),
                None => Some(ValueV::Int(0)),
            }
        },
        (ValueV::Float(a), ValueV::Int(b)) => Some(
            ValueV::Float(fp::fp_rem_bits(a, fp::fp_from_int_bits(b))),
        ),
        (ValueV::Int(a), ValueV::Float(b)) => Some(
            ValueV::Float(fp::fp_rem_bits(fp::fp_from_int_bits(a), b)),
        ),
        (ValueV::Float(a), ValueV::Float(b)) => Some(ValueV::Float(fp::fp_rem_bits(a, b))),
        _ => None,
    }
}

/// The `**` table: an integer raised to the low 32 bits of an integer,
/// multiplying with wrapping.  Exponentiation with a float operand has no
/// defined rule here.
pub open spec fn spec_exp_v(x: ValueV, y: ValueV) -> Option<ValueV> {
    match (x, y) {
        (ValueV::Int(a), ValueV::Int(b)) => Some(ValueV::Int(pow_wrap(a, low32(b) as nat))),
        _ => None,
    }
}

/// The `==` table: numerics compare with float promotion, booleans and
/// strings compare within their own family.
pub open spec fn spec_eq_v(x: ValueV, y: ValueV) -> Option<bool> {
    match (x, y) {
        (ValueV::Int(a), ValueV::Int(b)) => Some(a == b),
        (ValueV::Int(a), ValueV::Float(b)) => Some(fp::fp_eq_bits(fp::fp_from_int_bits(a), b)),
        (ValueV::Float(a), ValueV::Int(b)) => Some(fp::fp_eq_bits(a, fp::fp_from_int_bits(b))),
        (ValueV::Float(a), ValueV::Float(b)) => Some(fp::fp_eq_bits(a, b)),
        (ValueV::Bool(a), ValueV::Bool(b)) => Some(a == b),
        (ValueV::Str(a), ValueV::Str(b)) => Some(a == b),
        _ => None,
    }
}

/// The `<` table: numeric operands only, with float promotion.
pub open spec fn spec_lt_v(x: ValueV, y: ValueV) -> Option<bool> {
    match (x, y) {
        (ValueV::Int(a), ValueV::Int(b)) => Some(a < b),
        (ValueV::Int(a), ValueV::Float(b)) => Some(fp::fp_lt_bits(fp::fp_from_int_bits(a), b)),
        (ValueV::Float(a), ValueV::Int(b)) => Some(fp::fp_lt_bits(a, fp::fp_from_int_bits(b))),
        (ValueV::Float(a), ValueV::Float(b)) => Some(fp::fp_lt_bits(a, b)),
        _ => None,
    }
}

/// The `<=` table: numeric operands only, with float promotion.
pub open spec fn spec_le_v(x: ValueV, y: ValueV) -> Option<bool> {
    match (x, y) {
        (ValueV::Int(a), ValueV::Int(b)) => Some(a <= b),
        (ValueV::Int(a), ValueV::Float(b)) => Some(fp::fp_le_bits(fp::fp_from_int_bits(a), b)),
        (ValueV::Float(a), ValueV::Int(b)) => Some(fp::fp_le_bits(a, fp::fp_from_int_bits(b))),
        (ValueV::Float(a), ValueV::Float(b)) => Some(fp::fp_le_bits(a, b)),
        _ => None,
    }
}

/// The `>` table: `x > y` holds exactly when `y < x`.
pub open spec fn spec_gt_v(x: ValueV, y: ValueV) -> Option<bool> {
    spec_lt_v(y, x)
}

/// The `>=` table: `x >= y` holds exactly when `y <= x`.
pub open spec fn spec_ge_v(x: ValueV, y: ValueV) -> Option<bool> {
    spec_le_v(y, x)
}

/// The view of an optional value.
pub open spec fn opt_value_view(r: Option<Value>) -> Option<ValueV> {
    match r {
        Some(v) => Some(v@),
        None => None,
    }
}

/// Repeat a string a given number of times.
fn repeat_string(s: &String, n: u64) -> (r: String)
    ensures
        r@ == spec_repeat(s@, n as nat),
{
    let mut out = String::new();
    let mut i: u64 = 0;
    while i < n
        invariant
            i <= n,
            out@ == spec_repeat(s@, i as nat),
        decreases n - i,
    {
        out.append(s.as_str());
        i = i + 1;
    }
    out
}

/// Raise an integer to a 32-bit power, wrapping on overflow.
fn int_pow_wrapping(x: i64, n: u32) -> (r: i64)
    ensures
        r == pow_wrap(x, n as nat),
{
    let mut acc: i64 = 1;
    let mut i: u32 = 0;
    while i < n
        invariant
            i <= n,
            acc == pow_wrap(x, i as nat),
        decreases n - i,
    {
        acc = acc.wrapping_mul(x);
        i = i + 1;
    }
    acc
}

/// The low 32 bits of an integer.
fn low32_exec(y: i64) -> (r: u32)
    ensures
        r == low32(y),
{
    proof {
        assert(0 <= (y & 0xffff_ffff) <= 0xffff_ffff) by (bit_vector);
    }
    (y & 0xffff_ffff) as u32
}

/// Numeric operands whose promotion commutes: integers, and floats whose
/// bits are not a NaN (two NaN payloads may keep their order).
pub open spec fn commuting_operands(x: ValueV, y: ValueV) -> bool {
    (x is Int || (x is Float && !fp::is_nan_bits(x->Float_0))) && (y is Int || (y is Float
        && !fp::is_nan_bits(y->Float_0)))
}

impl Value {
    /// Apply the `+` table to two values.  Numeric promotion is
    /// commutative: an integer added to a float and that float added to
    /// the integer give equal results, NaN patterns aside.
    pub fn add(self, rhs: Value) -> (r: Option<Value>)
        ensures
            opt_value_view(r) == spec_add_v(self@, rhs@),
            commuting_operands(self@, rhs@) ==> opt_value_view(r) == spec_add_v(rhs@, self@),
    {
        match (self, rhs) {
            (Value::Int(a), Value::Int(b)) => Some(Value::Int(a.wrapping_add(b))),
            (Value::Float(a), Value::Int(b)) => Some(Value::Float(fp::fp_add(a, fp::fp_from_int(b)))),
            (Value::Int(a), Value::Float(b)) => Some(Value::Float(fp::fp_add(fp::fp_from_int(a), b))),
            (Value::Float(a), Value::Float(b)) => Some(Value::Float(fp::fp_add(a, b))),
            (Value::Str(a), Value::Str(b)) => Some(Value::Str(a.concat(b.as_str()))),
            _ => None,
        }
    }

    /// Apply the `-` table to two values.
    pub fn sub(self, rhs: Value) -> (r: Option<Value>)
        ensures
            opt_value_view(r) == spec_sub_v(self@, rhs@),
    {
        match (self, rhs) {
            (Value::Int(a), Value::Int(b)) => Some(Value::Int(a.wrapping_sub(b))),
            (Value::Float(a), Value::Int(b)) => Some(Value::Float(fp::fp_sub(a, fp::fp_from_int(b)))),
            (Value::Int(a), Value::Float(b)) => Some(Value::Float(fp::fp_sub(fp::fp_from_int(a), b))),
            (Value::Float(a), Value::Float(b)) => Some(Value::Float(fp::fp_sub(a, b))),
            _ => None,
        }
    }

    /// Apply the `*` table to two values.  Numeric promotion is
    /// commutative, as for `+`; the string row is one-sided.
    pub fn mul(self, rhs: Value) -> (r: Option<Value>)
        ensures
            opt_value_view(r) == spec_mul_v(self@, rhs@),
            commuting_operands(self@, rhs@) ==> opt_value_view(r) == spec_mul_v(rhs@, self@),
    {
        match (self, rhs) {
            (Value::Int(a), Value::Int(b)) => Some(Value::Int(a.wrapping_mul(b))),
            (Value::Float(a), Value::Int(b)) => Some(Value::Float(fp::fp_mul(a, fp::fp_from_int(b)))),
            (Value::Int(a), Value::Float(b)) => Some(Value::Float(fp::fp_mul(fp::fp_from_int(a), b))),
            (Value::Float(a), Value::Float(b)) => Some(Value::Float(fp::fp_mul(a, b))),
            (Value::Str(a), Value::Int(b)) => if 0 <= b {
                Some(Value::Str(repeat_string(&a, b as u64)))
            } else {
                None
            },
            _ => None,
        }
    }

    /// Apply the `/` table to two values; integer division by zero is not a
    /// value.
    pub fn div(self, rhs: Value) -> (r: Option<Value>)
        ensures
            opt_value_view(r) == spec_div_v(self@, rhs@),
    {
        match (self, rhs) {
            (Value::Int(a), Value::Int(b)) => if b == 0 {
                None
            } else {
                match a.checked_div(b) {
                    Some(q) => Some(Value::Int(q)),
                    None => Some(Value::Int(i64::MIN)),
                }
            },
            (Value::Float(a), Value::Int(b)) => Some(Value::Float(fp::fp_div(a, fp::fp_from_int(b)))),
            (Value::Int(a), Value::Float(b)) => Some(Value::Float(fp::fp_div(fp::fp_from_int(a), b))),
            (Value::Float(a), Value::Float(b)) => Some(Value::Float(fp::fp_div(a, b))),
            _ => None,
        }
    }

    /// Apply the `%` table to two values; the integer remainder at zero is
    /// not a value.
    pub fn modulo(self, rhs: Value) -> (r: Option<Value>)
        ensures
            opt_value_view(r) == spec_mod_v(self@, rhs@),
    {
        match (self, rhs) {
            (Value::Int(a), Value::Int(b)) => if b == 0 {
                None
            } else {
                match a.checked_rem(b) {
                    Some(q) => Some(Value::Int(q)),
                    None => Some(Value::Int(0)),
                }
            },
            (Value::Float(a), Value::Int(b)) => Some(Value::Float(fp::fp_rem(a, fp::fp_from_int(b)))),
            (Value::Int(a), Value::Float(b)) => Some(Value::Float(fp::fp_rem(fp::fp_from_int(a), b))),
            (Value::Float(a), Value::Float(b)) => Some(Value::Float(fp::fp_rem(a, b))),
            _ => None,
        }
    }

    /// Apply the `**` table to two values.
    pub fn exp(self, rhs: Value) -> (r: Option<Value>)
        ensures
            opt_value_view(r) == spec_exp_v(self@, rhs@),
    {
        match (self, rhs) {
            (Value::Int(a), Value::Int(b)) => Some(Value::Int(int_pow_wrapping(a, low32_exec(b)))),
            _ => None,
        }
    }

    /// Apply the `==` table to two values.
    pub fn eq_value(&self, rhs: &Value) -> (r: Option<bool>)
        ensures
            r == spec_eq_v(self@, rhs@),
    {
        match (self, rhs) {
            (Value::Int(a), Value::Int(b)) => Some(*a == *b),
            (Value::Int(a), Value::Float(b)) => Some(fp::fp_eq(fp::fp_from_int(*a), *b)),
            (Value::Float(a), Value::Int(b)) => Some(fp::fp_eq(*a, fp::fp_from_int(*b))),
            (Value::Float(a), Value::Float(b)) => Some(fp::fp_eq(*a, *b)),
            (Value::Bool(a), Value::Bool(b)) => Some(*a == *b),
            (Value::Str(a), Value::Str(b)) => Some(a.eq(b)),
            _ => None,
        }
    }

    /// Apply the `<` table to two values.
    pub fn lt_value(&self, rhs: &Value) -> (r: Option<bool>)
        ensures
            r == spec_lt_v(self@, rhs@),
    {
        match (self, rhs) {
            (Value::Int(a), Value::Int(b)) => Some(*a < *b),
            (Value::Int(a), Value::Float(b)) => Some(fp::fp_lt(fp::fp_from_int(*a), *b)),
            (Value::Float(a), Value::Int(b)) => Some(fp::fp_lt(*a, fp::fp_from_int(*b))),
            (Value::Float(a), Value::Float(b)) => Some(fp::fp_lt(*a, *b)),
            _ => None,
        }
    }

    /// Apply the `<=` table to two values.
    pub fn le_value(&self, rhs: &Value) -> (r: Option<bool>)
        ensures
            r == spec_le_v(self@, rhs@),
    {
        match (self, rhs) {
            (Value::Int(a), Value::Int(b)) => Some(*a <= *b),
            (Value::Int(a), Value::Float(b)) => Some(fp::fp_le(fp::fp_from_int(*a), *b)),
            (Value::Float(a), Value::Int(b)) => Some(fp::fp_le(*a, fp::fp_from_int(*b))),
            (Value::Float(a), Value::Float(b)) => Some(fp::fp_le(*a, *b)),
            _ => None,
        }
    }
}

// ---------------------------------------------------------------------------
// Rendering
// ---------------------------------------------------------------------------

/// The character of one decimal digit.
pub open spec fn digit_char(d: int) -> char {
    ((48 + d) as u8) as char
}

/// The decimal digits of a natural number, most significant first.
pub open spec fn dec_digits(n: nat) -> Seq<char>
    decreases n,
{
    if n < 10 {
        seq![digit_char(n as int)]
    } else {
        dec_digits(n / 10).push(digit_char((n % 10) as int))
    }
}

/// The decimal rendering of an integer.
pub open spec fn int_decimal(i: int) -> Seq<char> {
    if i < 0 {
        seq!['-'] + dec_digits((-i) as nat)
    } else {
        dec_digits(i as nat)
    }
}

/// How a value prints: numbers in decimal, booleans as `true`/`false`,
/// strings raw, and nil as `nil`.
pub open spec fn spec_render(v: ValueV) -> Seq<char> {
    match v {
        ValueV::Float(b) => fp::fp_display_chars(b),
        ValueV::Int(i) => int_decimal(i as int),
        ValueV::Bool(b) => if b {
            "true"@
        } else {
            "false"@
        },
        ValueV::Str(s) => s,
        ValueV::Nil => "nil"@,
    }
}

/// The decimal digits of a 64-bit natural number.
fn u64_digits(n: u64) -> (r: Vec<char>)
    ensures
        r@ == dec_digits(n as nat),
{
    let mut out: Vec<char> = Vec::new();
    let mut m = n;
    if m == 0 {
        out.push('0');
        proof {
            assert(digit_char(0) == '0');
            assert(out@ =~= dec_digits(0));
        }
        return out;
    }
    proof {
        assert(dec_digits(n as nat) =~= dec_digits(n as nat) + out@);
    }
    while m > 0
        invariant
            m > 0 ==> dec_digits(n as nat) == dec_digits(m as nat) + out@,
            m == 0 ==> dec_digits(n as nat) == out@,
        decreases m,
    {
        let ghost m0 = m as nat;
        let ghost out0 = out@;
        let d = (m % 10) as u8;
        let c = (48 + d) as char;
        out.insert(0, c);
        m = m / 10;
        proof {
            assert(c == digit_char((m0 % 10) as int));
            assert(out@ =~= seq![c] + out0);
            if m0 >= 10 {
                assert(dec_digits(m0) == dec_digits(m0 / 10).push(digit_char((m0 % 10) as int)));
                assert(dec_digits(m0) + out0 =~= dec_digits(m as nat) + out@);
            } else {
                assert(dec_digits(m0) =~= seq![c]);
                assert(dec_digits(m0) + out0 =~= out@);
            }
        }
    }
    out
}

/// The decimal rendering of a 64-bit integer.
fn int_to_chars(i: i64) -> (r: Vec<char>)
    ensures
        r@ == int_decimal(i as int),
{
    if i >= 0 {
        u64_digits(i as u64)
    } else if i == i64::MIN {
        let mut v = u64_digits(9223372036854775808u64);
        v.insert(0, '-');
        proof {
            assert(v@ =~= int_decimal(i64::MIN as int));
        }
        v
    } else {
        let mut v = u64_digits((-i) as u64);
        v.insert(0, '-');
        proof {
            assert(v@ =~= int_decimal(i as int));
        }
        v
    }
}

impl Value {
    /// Render the value as the engine prints it.
    pub fn render(&self) -> (r: String)
        ensures
            r@ == spec_render(self@),
    {
        match self {
            Value::Float(b) => fp::fp_display(*b),
            Value::Int(i) => crate::text::chars_to_string(&int_to_chars(*i)),
            Value::Bool(b) => if *b {
                "true".to_owned()
            } else {
                "false".to_owned()
            },
            Value::Str(s) => s.clone(),
            Value::Nil => "nil".to_owned(),
        }
    }
}

// ---------------------------------------------------------------------------
// Stated laws
// ---------------------------------------------------------------------------

/// Truthiness: the integer zero, both zero floats, the empty string and
/// nil are false; every nonzero number, every nonempty string, and `true`
/// are true; a boolean is itself.
pub proof fn lemma_truthiness()
    ensures
        !spec_truthy(ValueV::Int(0)),
        !spec_truthy(ValueV::Str(Seq::empty())),
        !spec_truthy(ValueV::Nil),
        forall|b: u64| (b & 0x7fff_ffff_ffff_ffff) == 0 ==> !spec_truthy(ValueV::Float(b)),
        forall|b: u64| (b & 0x7fff_ffff_ffff_ffff) != 0 ==> spec_truthy(ValueV::Float(b)),
        forall|i: i64| i != 0 ==> spec_truthy(ValueV::Int(i)),
        forall|s: Seq<char>| s.len() > 0 ==> spec_truthy(ValueV::Str(s)),
        forall|b: bool| spec_truthy(ValueV::Bool(b)) == b,
{
}

/// A string to the left of `*` repeats a non-negative integer count of
/// times; an integer to the left of a string has no rule, so the operand
/// order matters.
pub proof fn lemma_mul_string_sides(s: Seq<char>, n: i64)
    ensures
        0 <= n ==> spec_mul_v(ValueV::Str(s), ValueV::Int(n)) == Some(
            ValueV::Str(spec_repeat(s, n as nat)),
        ),
        n < 0 ==> spec_mul_v(ValueV::Str(s), ValueV::Int(n)) is None,
        spec_mul_v(ValueV::Int(n), ValueV::Str(s)) is None,
{
}

} // verus!
