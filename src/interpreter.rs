use vstd::prelude::*;
use vstd::string::*;
use crate::ast::{Expr, ExprView, Literal, LiteralView, Statement, StatementView, statements_view};
use crate::token::{Token, TokenType, TokenView};

verus! {

/// A runtime value. A number is held as the bit pattern of an IEEE-754
/// binary64 value.
#[derive(Debug, Clone)]
pub enum Value {
    Nil,
    Bool(bool),
    Number(u64),
    String(String),
}

pub enum ValueView {
    Nil,
    Bool(bool),
    Number(u64),
    String(Seq<char>),
}

impl View for Value {
    type V = ValueView;

    open spec fn view(&self) -> ValueView {
        match self {
            Value::Nil => ValueView::Nil,
            Value::Bool(b) => ValueView::Bool(*b),
            Value::Number(n) => ValueView::Number(*n),
            Value::String(s) => ValueView::String(s@),
        }
    }
}

pub open spec fn values_view(v: Seq<Value>) -> Seq<ValueView> {
    v.map_values(|x: Value| x@)
}

/// The arithmetic that the interpreter leaves to its caller.
#[derive(Debug, Clone, Copy, PartialEq, Eq, Structural)]
pub enum ArithOp {
    Add,
    Sub,
    Mul,
    Div,
}

/// Why evaluation stopped.
#[derive(Debug, Clone, Copy, PartialEq, Eq, Structural)]
pub enum RuntimeErrorKind {
    OperandMustBeNumber,
    OperandsMustBeNumbers,
    OperandsMustBeNumbersOrStrings,
}

impl RuntimeErrorKind {
    pub open spec fn message_text(&self) -> Seq<char> {
        match self {
            RuntimeErrorKind::OperandMustBeNumber => "Operand must be a number."@,
            RuntimeErrorKind::OperandsMustBeNumbers => "Operands must be numbers."@,
            RuntimeErrorKind::OperandsMustBeNumbersOrStrings => "Operands must be two numbers or two strings."@,
        }
    }

    pub fn message(&self) -> (r: &'static str)
        ensures
            r@ == self.message_text(),
    {
        match self {
            RuntimeErrorKind::OperandMustBeNumber => "Operand must be a number.",
            RuntimeErrorKind::OperandsMustBeNumbers => "Operands must be numbers.",
            RuntimeErrorKind::OperandsMustBeNumbersOrStrings => "Operands must be two numbers or two strings.",
        }
    }
}

/// A runtime error: the operator token that failed, and why.
#[derive(Debug, Clone)]
pub struct RuntimeError {
    pub token: Token,
    pub kind: RuntimeErrorKind,
}

pub struct RuntimeErrorView {
    pub token: TokenView,
    pub kind: RuntimeErrorKind,
}

impl View for RuntimeError {
    type V = RuntimeErrorView;

    open spec fn view(&self) -> RuntimeErrorView {
        RuntimeErrorView { token: self.token@, kind: self.kind }
    }
}

impl RuntimeError {
    pub fn new(token: Token, kind: RuntimeErrorKind) -> (r: Self)
        ensures
            r.token == token,
            r.kind == kind,
    {
        RuntimeError { token, kind }
    }
}

pub open spec fn result_view(r: Result<Value, RuntimeError>) -> Result<ValueView, RuntimeErrorView> {
    match r {
        Ok(v) => Ok(v@),
        Err(e) => Err(e@),
    }
}

pub const SIGN: u64 = 0x8000_0000_0000_0000;

pub const EXPONENT: u64 = 0x7ff0_0000_0000_0000;

pub const FRACTION: u64 = 0x000f_ffff_ffff_ffff;

pub open spec fn is_nan(x: u64) -> bool {
    x & EXPONENT == EXPONENT && x & FRACTION != 0
}

/// The negation of a binary64 value: its sign bit flipped.
pub open spec fn negate(x: u64) -> u64 {
    x ^ SIGN
}

/// The position of a binary64 value that is not NaN on the number line, in
/// an order that agrees with the order of the reals; both zeros stand at 0.
pub open spec fn order_key(x: u64) -> int {
    if x >= SIGN {
        -((x - SIGN) as int)
    } else {
        x as int
    }
}

/// IEEE-754 equality: never of a NaN, and `0 == -0`.
pub open spec fn num_eq(a: u64, b: u64) -> bool {
    !is_nan(a) && !is_nan(b) && order_key(a) == order_key(b)
}

/// The comparison that `op` (one of `> >= < <=`) denotes, IEEE-754 style:
/// false whenever a NaN takes part.
pub open spec fn num_compare(op: TokenType, a: u64, b: u64) -> bool {
    !is_nan(a) && !is_nan(b) && match op {
        TokenType::Greater => order_key(a) > order_key(b),
        TokenType::GreaterEqual => order_key(a) >= order_key(b),
        TokenType::Less => order_key(a) < order_key(b),
        _ => order_key(a) <= order_key(b),
    }
}

/// `nil` and `false` are falsy; every other value is truthy.
pub open spec fn truthy(v: ValueView) -> bool {
    match v {
        ValueView::Nil => false,
        ValueView::Bool(b) => b,
        _ => true,
    }
}

/// Equality over all values: kinds never equal one another.
pub open spec fn values_equal(a: ValueView, b: ValueView) -> bool {
    match (a, b) {
        (ValueView::Nil, ValueView::Nil) => true,
        (ValueView::Bool(x), ValueView::Bool(y)) => x == y,
        (ValueView::Number(x), ValueView::Number(y)) => num_eq(x, y),
        (ValueView::String(x), ValueView::String(y)) => x == y,
        _ => false,
    }
}

pub open spec fn arith_op(t: TokenType) -> Option<ArithOp> {
    match t {
        TokenType::Plus => Some(ArithOp::Add),
        TokenType::Minus => Some(ArithOp::Sub),
        TokenType::Star => Some(ArithOp::Mul),
        TokenType::Slash => Some(ArithOp::Div),
        _ => None,
    }
}

pub open spec fn is_comparison(t: TokenType) -> bool {
    t == TokenType::Greater || t == TokenType::GreaterEqual || t == TokenType::Less || t
        == TokenType::LessEqual
}

pub open spec fn rt_err(op: TokenView, kind: RuntimeErrorKind) -> Result<ValueView, RuntimeErrorView> {
    Err(RuntimeErrorView { token: op, kind })
}

/// The result of a unary operator on a value.
pub open spec fn unary_value(op: TokenView, v: ValueView) -> Result<ValueView, RuntimeErrorView> {
    if op.ty == TokenType::Bang {
        Ok(ValueView::Bool(!truthy(v)))
    } else {
        match v {
            ValueView::Number(n) => Ok(ValueView::Number(negate(n))),
            _ => rt_err(op, RuntimeErrorKind::OperandMustBeNumber),
        }
    }
}

/// The result of a binary operator on two values, where `arith` gives the
/// arithmetic on numbers.
pub open spec fn binary_value(
    op: TokenView,
    l: ValueView,
    r: ValueView,
    arith: spec_fn(ArithOp, u64, u64) -> u64,
) -> Result<ValueView, RuntimeErrorView> {
    if op.ty == TokenType::EqualEqual {
        Ok(ValueView::Bool(values_equal(l, r)))
    } else if op.ty == TokenType::BangEqual {
        Ok(ValueView::Bool(!values_equal(l, r)))
    } else {
        match (l, r) {
            (ValueView::Number(a), ValueView::Number(b)) => {
                if is_comparison(op.ty) {
                    Ok(ValueView::Bool(num_compare(op.ty, a, b)))
                } else {
                    Ok(ValueView::Number(arith(arith_op(op.ty)->0, a, b)))
                }
            },
            (ValueView::String(a), ValueView::String(b)) => {
                if op.ty == TokenType::Plus {
                    Ok(ValueView::String(a + b))
                } else {
                    rt_err(op, RuntimeErrorKind::OperandsMustBeNumbers)
                }
            },
            _ => {
                if op.ty == TokenType::Plus {
                    rt_err(op, RuntimeErrorKind::OperandsMustBeNumbersOrStrings)
                } else {
                    rt_err(op, RuntimeErrorKind::OperandsMustBeNumbers)
                }
            },
        }
    }
}

/// The operator kinds that the parser puts in a binary node.
pub open spec fn binary_operator(t: TokenType) -> bool {
    arith_op(t) is Some || is_comparison(t) || t == TokenType::EqualEqual || t
        == TokenType::BangEqual
}

/// Whether every operator in the tree is one that its node can hold.
pub open spec fn well_formed(e: ExprView) -> bool
    decreases e,
{
    match e {
        ExprView::Binary(l, op, r) => binary_operator(op.ty) && well_formed(*l) && well_formed(*r),
        ExprView::Grouping(x) => well_formed(*x),
        ExprView::Literal(_) => true,
        ExprView::Unary(op, x) => (op.ty == TokenType::Bang || op.ty == TokenType::Minus)
            && well_formed(*x),
    }
}

/// The value of an expression, where `number` gives the value of a number
/// literal's text and `arith` the arithmetic on numbers. Operands are
/// evaluated left first, and the first error stops evaluation.
pub open spec fn eval(
    e: ExprView,
    number: spec_fn(Seq<char>) -> u64,
    arith: spec_fn(ArithOp, u64, u64) -> u64,
) -> Result<ValueView, RuntimeErrorView>
    decreases e,
{
    match e {
        ExprView::Literal(l) => Ok(
            match l {
                LiteralView::Nil => ValueView::Nil,
                LiteralView::Bool(b) => ValueView::Bool(b),
                LiteralView::Number(t) => ValueView::Number(number(t)),
                LiteralView::String(s) => ValueView::String(s),
            },
        ),
        ExprView::Grouping(x) => eval(*x, number, arith),
        ExprView::Unary(op, x) => match eval(*x, number, arith) {
            Ok(v) => unary_value(op, v),
            Err(err) => Err(err),
        },
        ExprView::Binary(l, op, r) => match eval(*l, number, arith) {
            Ok(lv) => match eval(*r, number, arith) {
                Ok(rv) => binary_value(op, lv, rv, arith),
                Err(err) => Err(err),
            },
            Err(err) => Err(err),
        },
    }
}

/// Whether `number` gives every result that the function `p` may return.
pub open spec fn numbers_by<P: Fn(&str) -> u64>(p: P, number: spec_fn(Seq<char>) -> u64) -> bool {
    forall|t: &str, n: u64| #[trigger] call_ensures(p, (t,), n) ==> n == number(t@)
}

/// Whether `arith` gives every result that the function `f` may return.
pub open spec fn arith_by<F: Fn(ArithOp, u64, u64) -> u64>(
    f: F,
    arith: spec_fn(ArithOp, u64, u64) -> u64,
) -> bool {
    forall|op: ArithOp, a: u64, b: u64, n: u64| #[trigger]
        call_ensures(f, (op, a, b), n) ==> n == arith(op, a, b)
}

pub open spec fn callable<P: Fn(&str) -> u64, F: Fn(ArithOp, u64, u64) -> u64>(
    p: P,
    f: F,
) -> bool {
    &&& forall|t: &str| #[trigger] call_requires(p, (t,))
    &&& forall|op: ArithOp, a: u64, b: u64| #[trigger] call_requires(f, (op, a, b))
}

/// What running a program gives: the values that `print` statements wrote,
/// in order, and the error that stopped it, if one did.
pub open spec fn run(
    stmts: Seq<StatementView>,
    number: spec_fn(Seq<char>) -> u64,
    arith: spec_fn(ArithOp, u64, u64) -> u64,
) -> (Seq<ValueView>, Option<RuntimeErrorView>)
    decreases stmts.len(),
{
    if stmts.len() == 0 {
        (seq![], None)
    } else {
        let (e, printed) = match stmts[0] {
            StatementView::Expression(e) => (e, false),
            StatementView::Print(e) => (e, true),
        };
        match eval(e, number, arith) {
            Err(err) => (seq![], Some(err)),
            Ok(v) => {
                let rest = run(stmts.drop_first(), number, arith);
                (if printed { seq![v] + rest.0 } else { rest.0 }, rest.1)
            },
        }
    }
}

pub open spec fn statement_well_formed(s: StatementView) -> bool {
    match s {
        StatementView::Expression(e) => well_formed(e),
        StatementView::Print(e) => well_formed(e),
    }
}

pub open spec fn error_view(e: Option<RuntimeError>) -> Option<RuntimeErrorView> {
    match e {
        Some(x) => Some(x@),
        None => None,
    }
}

/// The runtime kind of a value.
pub open spec fn kind_of(v: ValueView) -> int {
    match v {
        ValueView::Nil => 0,
        ValueView::Bool(_) => 1,
        ValueView::Number(_) => 2,
        ValueView::String(_) => 3,
    }
}

/// `==` and `!=` never fail, whatever the kinds of their operands, and values
/// of different kinds are never equal.
pub proof fn lemma_equality_total(
    op: TokenView,
    a: ValueView,
    b: ValueView,
    arith: spec_fn(ArithOp, u64, u64) -> u64,
)
    requires
        op.ty == TokenType::EqualEqual || op.ty == TokenType::BangEqual,
    ensures
        binary_value(op, a, b, arith) is Ok,
        kind_of(a) != kind_of(b) ==> binary_value(op, a, b, arith) == Ok::<
            ValueView,
            RuntimeErrorView,
        >(ValueView::Bool(op.ty == TokenType::BangEqual)),
{
}

/// `+` on two strings is their concatenation; on a string and a value of
/// another kind it is an error that names the operator.
pub proof fn lemma_plus_on_strings(
    op: TokenView,
    a: ValueView,
    b: ValueView,
    arith: spec_fn(ArithOp, u64, u64) -> u64,
)
    requires
        op.ty == TokenType::Plus,
        a is String || b is String,
    ensures
        (a is String && b is String) ==> binary_value(op, a, b, arith) == Ok::<
            ValueView,
            RuntimeErrorView,
        >(ValueView::String(a->String_0 + b->String_0)),
        !(a is String && b is String) ==> binary_value(op, a, b, arith) == rt_err(
            op,
            RuntimeErrorKind::OperandsMustBeNumbersOrStrings,
        ),
{
}

/// `!` never fails: it gives `true` of `nil` and `false` only, and `false` of
/// every other value, `0` and the empty string included.
pub proof fn lemma_not_truthiness(op: TokenView, v: ValueView)
    requires
        op.ty == TokenType::Bang,
    ensures
        unary_value(op, v) == Ok::<ValueView, RuntimeErrorView>(
            ValueView::Bool(v is Nil || v == ValueView::Bool(false)),
        ),
{
}

fn is_nan_bits(x: u64) -> (r: bool)
    ensures
        r == is_nan(x),
{
    x & EXPONENT == EXPONENT && x & FRACTION != 0
}

fn order_key_of(x: u64) -> (r: i128)
    ensures
        r == order_key(x),
{
    if x >= SIGN {
        -((x - SIGN) as i128)
    } else {
        x as i128
    }
}

/// The tree-walking evaluator.
#[derive(Debug)]
pub struct Interpreter {}

impl Interpreter {
    /// Equality of two values of any kinds.
    pub fn is_equal(&self, left: &Value, right: &Value) -> (r: bool)
        ensures
            r == values_equal(left@, right@),
    {
        match (left, right) {
            (Value::Nil, Value::Nil) => true,
            (Value::Bool(l), Value::Bool(r)) => *l == *r,
            (Value::Number(l), Value::Number(r)) => !is_nan_bits(*l) && !is_nan_bits(*r)
                && order_key_of(*l) == order_key_of(*r),
            (Value::String(l), Value::String(r)) => *l == *r,
            _ => false,
        }
    }

    fn truthy(v: &Value) -> (r: bool)
        ensures
            r == truthy(v@),
    {
        match v {
            Value::Nil => false,
            Value::Bool(b) => *b,
            _ => true,
        }
    }

    /// Applies a unary operator (`!` or `-`) to a value.
    pub fn unary(&self, op: &Token, v: Value) -> (r: Result<Value, RuntimeError>)
        requires
            op.ty == TokenType::Bang || op.ty == TokenType::Minus,
        ensures
            result_view(r) == unary_value(op@, v@),
    {
        if op.ty == TokenType::Bang {
            Ok(Value::Bool(!Self::truthy(&v)))
        } else {
            match v {
                Value::Number(n) => Ok(Value::Number(n ^ SIGN)),
                _ => Err(RuntimeError::new(op.duplicate(), RuntimeErrorKind::OperandMustBeNumber)),
            }
        }
    }

    /// Applies a binary operator to two values; `arith` does the arithmetic
    /// on numbers.
    pub fn binary<F: Fn(ArithOp, u64, u64) -> u64>(
        &self,
        op: &Token,
        left: Value,
        right: Value,
        arith: &F,
    ) -> (r: Result<Value, RuntimeError>)
        requires
            binary_operator(op.ty),
            forall|o: ArithOp, a: u64, b: u64| #[trigger] call_requires(*arith, (o, a, b)),
        ensures
            forall|g: spec_fn(ArithOp, u64, u64) -> u64| #[trigger]
                arith_by(*arith, g) ==> result_view(r) == binary_value(op@, left@, right@, g),
    {
        if op.ty == TokenType::EqualEqual {
            return Ok(Value::Bool(self.is_equal(&left, &right)));
        }
        if op.ty == TokenType::BangEqual {
            return Ok(Value::Bool(!self.is_equal(&left, &right)));
        }
        match (left, right) {
            (Value::Number(a), Value::Number(b)) => {
                if op.ty == TokenType::Greater || op.ty == TokenType::GreaterEqual || op.ty
                    == TokenType::Less || op.ty == TokenType::LessEqual {
                    let ordered = !is_nan_bits(a) && !is_nan_bits(b);
                    let ka = order_key_of(a);
                    let kb = order_key_of(b);
                    let c = match op.ty {
                        TokenType::Greater => ka > kb,
                        TokenType::GreaterEqual => ka >= kb,
                        TokenType::Less => ka < kb,
                        _ => ka <= kb,
                    };
                    Ok(Value::Bool(ordered && c))
                } else {
                    let o = match op.ty {
                        TokenType::Plus => ArithOp::Add,
                        TokenType::Minus => ArithOp::Sub,
                        TokenType::Star => ArithOp::Mul,
                        _ => ArithOp::Div,
                    };
                    let n = (*arith)(o, a, b);
                    Ok(Value::Number(n))
                }
            },
            (Value::String(a), Value::String(b)) => {
                if op.ty == TokenType::Plus {
                    Ok(Value::String(a.concat(b.as_str())))
                } else {
                    Err(RuntimeError::new(op.duplicate(), RuntimeErrorKind::OperandsMustBeNumbers))
                }
            },
            _ => {
                if op.ty == TokenType::Plus {
                    Err(
                        RuntimeError::new(
                            op.duplicate(),
                            RuntimeErrorKind::OperandsMustBeNumbersOrStrings,
                        ),
                    )
                } else {
                    Err(RuntimeError::new(op.duplicate(), RuntimeErrorKind::OperandsMustBeNumbers))
                }
            },
        }
    }

    /// Evaluates an expression; `number` turns a number literal's text into
    /// a value and `arith` does the arithmetic on numbers. The result is the
    /// one that `eval` gives for whatever functions describe the two.
    pub fn evaluate<P: Fn(&str) -> u64, F: Fn(ArithOp, u64, u64) -> u64>(
        &self,
        e: &Expr,
        number: &P,
        arith: &F,
    ) -> (r: Result<Value, RuntimeError>)
        requires
            well_formed(e@),
            callable(*number, *arith),
        ensures
            forall|ns: spec_fn(Seq<char>) -> u64, ga: spec_fn(ArithOp, u64, u64) -> u64|
                numbers_by(*number, ns) && arith_by(*arith, ga) ==> #[trigger] eval(e@, ns, ga)
                    == result_view(r),
        decreases e,
    {
        match e {
            Expr::Literal(l) => {
                match l {
                    Literal::Nil => Ok(Value::Nil),
                    Literal::Bool(b) => Ok(Value::Bool(*b)),
                    Literal::Number(t) => {
                        let text = t.as_str();
                        let n = (*number)(text);
                        let r = Value::Number(n);
                        assert forall|ns: spec_fn(Seq<char>) -> u64, ga: spec_fn(ArithOp, u64, u64) -> u64|
                            numbers_by(*number, ns) && arith_by(*arith, ga) implies #[trigger] eval(e@, ns, ga)
                                == result_view(Ok(r)) by {
                            assert(call_ensures(*number, (text,), n));
                        }
                        Ok(r)
                    },
                    Literal::String(t) => Ok(Value::String(t.clone())),
                }
            },
            Expr::Grouping(g) => {
                let r = self.evaluate(&g.expr, number, arith);
                assert forall|ns: spec_fn(Seq<char>) -> u64, ga: spec_fn(ArithOp, u64, u64) -> u64|
                    numbers_by(*number, ns) && arith_by(*arith, ga) implies #[trigger] eval(e@, ns, ga)
                        == result_view(r) by {
                    assert(eval(e@, ns, ga) == eval(g.expr@, ns, ga));
                }
                r
            },
            Expr::Unary(u) => {
                let v = self.evaluate(&u.right, number, arith);
                let r = match v {
                    Err(x) => Err(x),
                    Ok(v) => self.unary(&u.op, v),
                };
                assert forall|ns: spec_fn(Seq<char>) -> u64, ga: spec_fn(ArithOp, u64, u64) -> u64|
                    numbers_by(*number, ns) && arith_by(*arith, ga) implies #[trigger] eval(e@, ns, ga)
                        == result_view(r) by {
                    assert(eval(u.right@, ns, ga) == result_view(v));
                }
                r
            },
            Expr::Binary(b) => {
                let l = self.evaluate(&b.left, number, arith);
                match l {
                    Err(x) => {
                        assert forall|ns: spec_fn(Seq<char>) -> u64, ga: spec_fn(ArithOp, u64, u64) -> u64|
                            numbers_by(*number, ns) && arith_by(*arith, ga) implies #[trigger] eval(e@, ns, ga)
                                == result_view(Err(x)) by {
                            assert(eval(b.left@, ns, ga) == result_view(l));
                        }
                        Err(x)
                    },
                    Ok(lv) => {
                        let rr = self.evaluate(&b.right, number, arith);
                        let r = match rr {
                            Err(x) => Err(x),
                            Ok(rv) => self.binary(&b.op, lv, rv, arith),
                        };
                        assert forall|ns: spec_fn(Seq<char>) -> u64, ga: spec_fn(ArithOp, u64, u64) -> u64|
                            numbers_by(*number, ns) && arith_by(*arith, ga) implies #[trigger] eval(e@, ns, ga)
                                == result_view(r) by {
                            assert(eval(b.left@, ns, ga) == result_view(l));
                            assert(eval(b.right@, ns, ga) == result_view(rr));
                        }
                        r
                    },
                }
            },
        }
    }
    /// Runs the statements in order, stopping at the first runtime error.
    /// Returns the values that `print` statements wrote, in order, and the
    /// error, if one stopped the run: what `run` gives for whatever functions
    /// describe `number` and `arith`.
    pub fn interpret<P: Fn(&str) -> u64, F: Fn(ArithOp, u64, u64) -> u64>(
        stmts: &Vec<Statement>,
        number: &P,
        arith: &F,
    ) -> (r: (Vec<Value>, Option<RuntimeError>))
        requires
            forall|i: int| 0 <= i < stmts@.len() ==> statement_well_formed(#[trigger] stmts@[i]@),
            callable(*number, *arith),
        ensures
            forall|ns: spec_fn(Seq<char>) -> u64, ga: spec_fn(ArithOp, u64, u64) -> u64|
                numbers_by(*number, ns) && arith_by(*arith, ga) ==> #[trigger] run(
                    statements_view(stmts@),
                    ns,
                    ga,
                ) == (values_view(r.0@), error_view(r.1)),
    {
        let interpreter = Interpreter {};
        let mut printed: Vec<Value> = Vec::new();
        let mut i: usize = 0;
        let ghost all = statements_view(stmts@);
        assert(all.subrange(0, all.len() as int) =~= all);
        assert(values_view(printed@) =~= Seq::<ValueView>::empty());
        assert forall|ns: spec_fn(Seq<char>) -> u64, ga: spec_fn(ArithOp, u64, u64) -> u64|
            numbers_by(*number, ns) && arith_by(*arith, ga) implies #[trigger] run(all, ns, ga)
                == (values_view(printed@) + run(all.subrange(0, all.len() as int), ns, ga).0,
                run(all.subrange(0, all.len() as int), ns, ga).1) by {
            assert(values_view(printed@) + run(all, ns, ga).0 =~= run(all, ns, ga).0);
        }
        while i < stmts.len()
            invariant
                i <= stmts@.len(),
                all == statements_view(stmts@),
                forall|j: int| 0 <= j < stmts@.len() ==> statement_well_formed(#[trigger] stmts@[j]@),
                callable(*number, *arith),
                forall|ns: spec_fn(Seq<char>) -> u64, ga: spec_fn(ArithOp, u64, u64) -> u64|
                    numbers_by(*number, ns) && arith_by(*arith, ga) ==> #[trigger] run(all, ns, ga)
                        == (values_view(printed@) + run(all.subrange(i as int, all.len() as int), ns, ga).0,
                        run(all.subrange(i as int, all.len() as int), ns, ga).1),
            decreases stmts@.len() - i,
        {
            let ghost rest = all.subrange(i as int, all.len() as int);
            let ghost next = all.subrange(i + 1, all.len() as int);
            assert(rest.drop_first() =~= next);
            assert(rest[0] == stmts@[i as int]@);
            let ghost before = printed@;
            let (e, is_print) = match &stmts[i] {
                Statement::Expression(s) => (&s.expr, false),
                Statement::Print(s) => (&s.expr, true),
            };
            assert(statement_well_formed(stmts@[i as int]@));
            let v = interpreter.evaluate(e, number, arith);
            match v {
                Err(err) => {
                    let r = (printed, Some(err));
                    assert forall|ns: spec_fn(Seq<char>) -> u64, ga: spec_fn(ArithOp, u64, u64) -> u64|
                        numbers_by(*number, ns) && arith_by(*arith, ga) implies #[trigger] run(
                            statements_view(stmts@),
                            ns,
                            ga,
                        ) == (values_view(r.0@), error_view(r.1)) by {
                        assert(eval(e@, ns, ga) == result_view(v));
                        assert(run(all, ns, ga) == (values_view(before) + run(rest, ns, ga).0, run(rest, ns, ga).1));
                        assert(values_view(before) + seq![] =~= values_view(before));
                    }
                    return r;
                },
                Ok(val) => {
                    let ghost vv = val@;
                    if is_print {
                        printed.push(val);
                    }
                    assert forall|ns: spec_fn(Seq<char>) -> u64, ga: spec_fn(ArithOp, u64, u64) -> u64|
                        numbers_by(*number, ns) && arith_by(*arith, ga) implies #[trigger] run(all, ns, ga)
                            == (values_view(printed@) + run(next, ns, ga).0, run(next, ns, ga).1) by {
                        assert(eval(e@, ns, ga) == result_view(v));
                        assert(run(all, ns, ga) == (values_view(before) + run(rest, ns, ga).0, run(rest, ns, ga).1));
                        if is_print {
                            assert(values_view(printed@) =~= values_view(before).push(vv));
                            assert(values_view(before) + (seq![vv] + run(next, ns, ga).0) =~= values_view(printed@) + run(next, ns, ga).0);
                        } else {
                            assert(values_view(printed@) =~= values_view(before));
                        }
                    }
                },
            }
            i = i + 1;
        }
        assert forall|ns: spec_fn(Seq<char>) -> u64, ga: spec_fn(ArithOp, u64, u64) -> u64|
            numbers_by(*number, ns) && arith_by(*arith, ga) implies #[trigger] run(
                statements_view(stmts@),
                ns,
                ga,
            ) == (values_view(printed@), error_view(None)) by {
            assert(all.subrange(i as int, all.len() as int) =~= Seq::<StatementView>::empty());
            assert(run(all, ns, ga) == (values_view(printed@) + run(all.subrange(i as int, all.len() as int), ns, ga).0, run(all.subrange(i as int, all.len() as int), ns, ga).1));
            assert(values_view(printed@) + seq![] =~= values_view(printed@));
        }
        (printed, None)
    }
}

} // verus!
