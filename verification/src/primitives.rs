//! The primitive operations as the host calls them: on handles. Each
//! resolves its operands in the table, computes on the values, and interns a
//! rational result to hand back its handle.

use vstd::prelude::*;
use crate::rational::Rational;
use crate::checked::{
    parts, ratio_checked_add, ratio_checked_sub, ratio_checked_mul, ratio_checked_div,
    ratio_checked_pow, mul_result, div_result, new_defined, reduces,
};
use crate::ops::{less, is_floor, is_ceil, is_round, is_less, min, max, neg, abs, floor, ceil, round};
use crate::special::{pow_result, is_square, pow, sqrt, log, cbrt, NotYetImplemented};
use crate::sort::{RationalSort, Value, interned, handle_of};

verus! {

/// The operations on two rationals that give a rational.
#[derive(Clone, Copy, Debug, PartialEq, Eq, Structural)]
pub enum BinaryOp {
    Add,
    Sub,
    Mul,
    Div,
    Min,
    Max,
    Pow,
}

/// The operations on one rational that give a rational.
#[derive(Clone, Copy, Debug, PartialEq, Eq, Structural)]
pub enum UnaryOp {
    Neg,
    Abs,
    Floor,
    Ceil,
    Round,
    Sqrt,
}

/// The operations that are supported on a single input so far.
#[derive(Clone, Copy, Debug, PartialEq, Eq, Structural)]
pub enum PendingOp {
    Log,
    Cbrt,
}

/// The order relations.
#[derive(Clone, Copy, Debug, PartialEq, Eq, Structural)]
pub enum Relation {
    Less,
    Greater,
    LessOrEqual,
    GreaterOrEqual,
}

/// The name of each binary operation.
pub open spec fn binary_name(op: BinaryOp) -> Seq<char> {
    match op {
        BinaryOp::Add => "+"@,
        BinaryOp::Sub => "-"@,
        BinaryOp::Mul => "*"@,
        BinaryOp::Div => "/"@,
        BinaryOp::Min => "min"@,
        BinaryOp::Max => "max"@,
        BinaryOp::Pow => "pow"@,
    }
}

/// The name under which the host knows a binary operation.
pub fn binary_symbol(op: BinaryOp) -> (r: &'static str)
    ensures
        r@ == binary_name(op),
{
    match op {
        BinaryOp::Add => "+",
        BinaryOp::Sub => "-",
        BinaryOp::Mul => "*",
        BinaryOp::Div => "/",
        BinaryOp::Min => "min",
        BinaryOp::Max => "max",
        BinaryOp::Pow => "pow",
    }
}

/// The name of each unary operation.
pub open spec fn unary_name(op: UnaryOp) -> Seq<char> {
    match op {
        UnaryOp::Neg => "neg"@,
        UnaryOp::Abs => "abs"@,
        UnaryOp::Floor => "floor"@,
        UnaryOp::Ceil => "ceil"@,
        UnaryOp::Round => "round"@,
        UnaryOp::Sqrt => "sqrt"@,
    }
}

/// The name under which the host knows a unary operation.
pub fn unary_symbol(op: UnaryOp) -> (r: &'static str)
    ensures
        r@ == unary_name(op),
{
    match op {
        UnaryOp::Neg => "neg",
        UnaryOp::Abs => "abs",
        UnaryOp::Floor => "floor",
        UnaryOp::Ceil => "ceil",
        UnaryOp::Round => "round",
        UnaryOp::Sqrt => "sqrt",
    }
}

/// The name of each relation.
pub open spec fn relation_name(rel: Relation) -> Seq<char> {
    match rel {
        Relation::Less => "<"@,
        Relation::Greater => ">"@,
        Relation::LessOrEqual => "<="@,
        Relation::GreaterOrEqual => ">="@,
    }
}

/// The name under which the host knows a relation.
pub fn relation_symbol(rel: Relation) -> (r: &'static str)
    ensures
        r@ == relation_name(rel),
{
    match rel {
        Relation::Less => "<",
        Relation::Greater => ">",
        Relation::LessOrEqual => "<=",
        Relation::GreaterOrEqual => ">=",
    }
}

/// The names of the logarithm and the cube root.
pub open spec fn pending_name(op: PendingOp) -> Seq<char> {
    match op {
        PendingOp::Log => "log"@,
        PendingOp::Cbrt => "cbrt"@,
    }
}

/// The name under which the host knows `log` and `cbrt`.
pub fn pending_symbol(op: PendingOp) -> (r: &'static str)
    ensures
        r@ == pending_name(op),
{
    match op {
        PendingOp::Log => "log",
        PendingOp::Cbrt => "cbrt",
    }
}

/// A primitive of the sort.
#[derive(Clone, Copy, Debug, PartialEq, Eq, Structural)]
pub enum Primitive {
    Binary(BinaryOp),
    Unary(UnaryOp),
    Pending(PendingOp),
    Order(Relation),
    Construct,
    Numer,
    Denom,
}

/// The sorts that a primitive takes or gives.
#[derive(Clone, Copy, Debug, PartialEq, Eq, Structural)]
pub enum SortName {
    Rational,
    Int,
    Unit,
}

/// What the host needs to register a primitive: its operands, all of one
/// sort, its result, and whether it can end without a result.
#[derive(Clone, Copy, Debug, PartialEq, Eq, Structural)]
pub struct Signature {
    pub arity: usize,
    pub operand: SortName,
    pub result: SortName,
    pub partial: bool,
}

/// The signature of each primitive.
pub open spec fn signature_of(p: Primitive) -> Signature {
    match p {
        Primitive::Binary(op) => Signature {
            arity: 2,
            operand: SortName::Rational,
            result: SortName::Rational,
            partial: op != BinaryOp::Min && op != BinaryOp::Max,
        },
        Primitive::Unary(op) => Signature {
            arity: 1,
            operand: SortName::Rational,
            result: SortName::Rational,
            partial: op == UnaryOp::Sqrt || op == UnaryOp::Neg || op == UnaryOp::Abs,
        },
        Primitive::Pending(_) => Signature {
            arity: 1,
            operand: SortName::Rational,
            result: SortName::Rational,
            partial: true,
        },
        Primitive::Order(_) => Signature {
            arity: 2,
            operand: SortName::Rational,
            result: SortName::Unit,
            partial: true,
        },
        Primitive::Construct => Signature {
            arity: 2,
            operand: SortName::Int,
            result: SortName::Rational,
            partial: true,
        },
        Primitive::Numer => Signature {
            arity: 1,
            operand: SortName::Rational,
            result: SortName::Int,
            partial: false,
        },
        Primitive::Denom => Signature {
            arity: 1,
            operand: SortName::Rational,
            result: SortName::Int,
            partial: false,
        },
    }
}

/// The table of primitives, in the order of registration.
pub open spec fn all_primitives() -> Seq<Primitive> {
    seq![
        Primitive::Binary(BinaryOp::Add),
        Primitive::Binary(BinaryOp::Sub),
        Primitive::Binary(BinaryOp::Mul),
        Primitive::Binary(BinaryOp::Div),
        Primitive::Binary(BinaryOp::Min),
        Primitive::Binary(BinaryOp::Max),
        Primitive::Unary(UnaryOp::Neg),
        Primitive::Unary(UnaryOp::Abs),
        Primitive::Unary(UnaryOp::Floor),
        Primitive::Unary(UnaryOp::Ceil),
        Primitive::Unary(UnaryOp::Round),
        Primitive::Construct,
        Primitive::Numer,
        Primitive::Denom,
        Primitive::Binary(BinaryOp::Pow),
        Primitive::Pending(PendingOp::Log),
        Primitive::Unary(UnaryOp::Sqrt),
        Primitive::Pending(PendingOp::Cbrt),
        Primitive::Order(Relation::Less),
        Primitive::Order(Relation::Greater),
        Primitive::Order(Relation::LessOrEqual),
        Primitive::Order(Relation::GreaterOrEqual),
    ]
}

/// The name of each primitive.
pub open spec fn name_of(p: Primitive) -> Seq<char> {
    match p {
        Primitive::Binary(op) => binary_name(op),
        Primitive::Unary(op) => unary_name(op),
        Primitive::Pending(op) => pending_name(op),
        Primitive::Order(rel) => relation_name(rel),
        Primitive::Construct => "rational"@,
        Primitive::Numer => "numer"@,
        Primitive::Denom => "denom"@,
    }
}

/// The name under which the host knows a primitive.
pub fn symbol(p: Primitive) -> (r: &'static str)
    ensures
        r@ == name_of(p),
{
    match p {
        Primitive::Binary(op) => binary_symbol(op),
        Primitive::Unary(op) => unary_symbol(op),
        Primitive::Pending(op) => pending_symbol(op),
        Primitive::Order(rel) => relation_symbol(rel),
        Primitive::Construct => "rational",
        Primitive::Numer => "numer",
        Primitive::Denom => "denom",
    }
}

/// Operands, result and partiality of a primitive.
pub fn signature(p: Primitive) -> (r: Signature)
    ensures
        r == signature_of(p),
{
    let rational = SortName::Rational;
    match p {
        Primitive::Binary(op) => {
            let total = matches!(op, BinaryOp::Min | BinaryOp::Max);
            Signature { arity: 2, operand: rational, result: rational, partial: !total }
        },
        Primitive::Unary(op) => {
            let partial = matches!(op, UnaryOp::Sqrt | UnaryOp::Neg | UnaryOp::Abs);
            Signature { arity: 1, operand: rational, result: rational, partial }
        },
        Primitive::Pending(_) => Signature { arity: 1, operand: rational, result: rational, partial: true },
        Primitive::Order(_) => Signature { arity: 2, operand: rational, result: SortName::Unit, partial: true },
        Primitive::Construct => Signature { arity: 2, operand: SortName::Int, result: rational, partial: true },
        Primitive::Numer => Signature { arity: 1, operand: rational, result: SortName::Int, partial: false },
        Primitive::Denom => Signature { arity: 1, operand: rational, result: SortName::Int, partial: false },
    }
}

/// The table holds every primitive, and none twice.
pub proof fn lemma_table_complete(p: Primitive)
    ensures
        all_primitives().contains(p),
        all_primitives().no_duplicates(),
{
    let t = all_primitives();
    let i: int = match p {
        Primitive::Binary(BinaryOp::Add) => 0,
        Primitive::Binary(BinaryOp::Sub) => 1,
        Primitive::Binary(BinaryOp::Mul) => 2,
        Primitive::Binary(BinaryOp::Div) => 3,
        Primitive::Binary(BinaryOp::Min) => 4,
        Primitive::Binary(BinaryOp::Max) => 5,
        Primitive::Unary(UnaryOp::Neg) => 6,
        Primitive::Unary(UnaryOp::Abs) => 7,
        Primitive::Unary(UnaryOp::Floor) => 8,
        Primitive::Unary(UnaryOp::Ceil) => 9,
        Primitive::Unary(UnaryOp::Round) => 10,
        Primitive::Construct => 11,
        Primitive::Numer => 12,
        Primitive::Denom => 13,
        Primitive::Binary(BinaryOp::Pow) => 14,
        Primitive::Pending(PendingOp::Log) => 15,
        Primitive::Unary(UnaryOp::Sqrt) => 16,
        Primitive::Pending(PendingOp::Cbrt) => 17,
        Primitive::Order(Relation::Less) => 18,
        Primitive::Order(Relation::Greater) => 19,
        Primitive::Order(Relation::LessOrEqual) => 20,
        Primitive::Order(Relation::GreaterOrEqual) => 21,
    };
    assert(t.len() == 22);
    assert(t[i] == p);
}

/// What a binary operation gives on `x` and `y`, as numerator and
/// denominator.
pub open spec fn binary_outcome(op: BinaryOp, x: Rational, y: Rational) -> Option<(int, int)> {
    let (xn, xd, yn, yd) = (x.numer as int, x.denom as int, y.numer as int, y.denom as int);
    match op {
        BinaryOp::Add => ratio_checked_add(xn, xd, yn, yd),
        BinaryOp::Sub => ratio_checked_sub(xn, xd, yn, yd),
        BinaryOp::Mul => mul_result(x, y, ratio_checked_mul(xn, xd, yn, yd)),
        BinaryOp::Div => div_result(x, y, ratio_checked_div(xn, xd, yn, yd)),
        BinaryOp::Min => parts(Some(if less(y, x) { y } else { x })),
        BinaryOp::Max => parts(Some(if less(x, y) { y } else { x })),
        BinaryOp::Pow => pow_result(x, y, ratio_checked_pow(xn, xd, yn)),
    }
}

/// `c` is what a unary operation gives on `x`.
pub open spec fn unary_relates(op: UnaryOp, x: Rational, c: Option<Rational>) -> bool {
    match op {
        UnaryOp::Neg => (c.is_some() <==> x.numer > i64::MIN) && (c matches Some(k) ==> k.numer
            == -x.numer && k.denom == x.denom),
        UnaryOp::Abs => (c.is_some() <==> x.numer > i64::MIN) && (c matches Some(k) ==> k.denom
            == x.denom && k.numer == (if x.numer < 0 { -x.numer } else { x.numer as int })),
        UnaryOp::Floor => c matches Some(k) && k.denom == 1 && is_floor(
            k.numer as int,
            x.numer as int,
            x.denom as int,
        ),
        UnaryOp::Ceil => c matches Some(k) && k.denom == 1 && is_ceil(
            k.numer as int,
            x.numer as int,
            x.denom as int,
        ),
        UnaryOp::Round => c matches Some(k) && k.denom == 1 && is_round(
            k.numer as int,
            x.numer as int,
            x.denom as int,
        ),
        UnaryOp::Sqrt => (c.is_some() <==> is_square(x.numer as int) && is_square(x.denom as int))
            && (c matches Some(k) ==> k.numer >= 0 && k.numer * k.numer == x.numer && k.denom
            * k.denom == x.denom),
    }
}

/// Whether a relation holds of `x` and `y`.
pub open spec fn relation_holds(rel: Relation, x: Rational, y: Rational) -> bool {
    match rel {
        Relation::Less => less(x, y),
        Relation::Greater => less(y, x),
        Relation::LessOrEqual => !less(y, x),
        Relation::GreaterOrEqual => !less(x, y),
    }
}

/// The value behind an optional handle.
pub open spec fn value_behind(table: Seq<Rational>, r: Option<Value>) -> Option<Rational> {
    match r {
        Some(h) => Some(table[h.bits as int]),
        None => None,
    }
}

/// How a result enters the table: none leaves the table as it is and gives
/// no handle; a value is interned and its handle given.
pub open spec fn recorded(
    before: Seq<Rational>,
    after: Seq<Rational>,
    c: Option<Rational>,
    r: Option<Value>,
) -> bool {
    match c {
        None => r.is_none() && after == before,
        Some(v) => r == Some(Value { bits: handle_of(before, v) as u64 }) && after == interned(
            before,
            v,
        ) && handle_of(before, v) < after.len(),
    }
}

/// Computes a binary operation on two values.
pub fn eval_binary(op: BinaryOp, x: Rational, y: Rational) -> (r: Option<Rational>)
    requires
        x.wf(),
        y.wf(),
    ensures
        parts(r) == binary_outcome(op, x, y),
        r matches Some(c) ==> c.wf(),
{
    match op {
        BinaryOp::Add => crate::checked::add(x, y),
        BinaryOp::Sub => crate::checked::sub(x, y),
        BinaryOp::Mul => crate::checked::mul(x, y),
        BinaryOp::Div => crate::checked::div(x, y),
        BinaryOp::Min => Some(min(x, y)),
        BinaryOp::Max => Some(max(x, y)),
        BinaryOp::Pow => pow(x, y),
    }
}

/// Computes a unary operation on a value.
pub fn eval_unary(op: UnaryOp, x: Rational) -> (r: Option<Rational>)
    requires
        x.wf(),
    ensures
        unary_relates(op, x, r),
        r matches Some(c) ==> c.wf(),
{
    match op {
        UnaryOp::Neg => neg(x),
        UnaryOp::Abs => abs(x),
        UnaryOp::Floor => Some(floor(x)),
        UnaryOp::Ceil => Some(ceil(x)),
        UnaryOp::Round => Some(round(x)),
        UnaryOp::Sqrt => sqrt(x),
    }
}

/// Decides a relation between two values.
pub fn eval_relation(rel: Relation, x: Rational, y: Rational) -> (r: Option<()>)
    requires
        x.wf(),
        y.wf(),
    ensures
        r.is_some() <==> relation_holds(rel, x, y),
{
    let holds = match rel {
        Relation::Less => is_less(x, y),
        Relation::Greater => is_less(y, x),
        Relation::LessOrEqual => !is_less(y, x),
        Relation::GreaterOrEqual => !is_less(x, y),
    };
    if holds {
        Some(())
    } else {
        None
    }
}

impl RationalSort {
    /// The primitives that the sort offers to the host, in the order of
    /// registration.
    pub fn register_primitives(&self) -> (r: Vec<Primitive>)
        ensures
            r@ == all_primitives(),
    {
        let r = vec![
            Primitive::Binary(BinaryOp::Add),
            Primitive::Binary(BinaryOp::Sub),
            Primitive::Binary(BinaryOp::Mul),
            Primitive::Binary(BinaryOp::Div),
            Primitive::Binary(BinaryOp::Min),
            Primitive::Binary(BinaryOp::Max),
            Primitive::Unary(UnaryOp::Neg),
            Primitive::Unary(UnaryOp::Abs),
            Primitive::Unary(UnaryOp::Floor),
            Primitive::Unary(UnaryOp::Ceil),
            Primitive::Unary(UnaryOp::Round),
            Primitive::Construct,
            Primitive::Numer,
            Primitive::Denom,
            Primitive::Binary(BinaryOp::Pow),
            Primitive::Pending(PendingOp::Log),
            Primitive::Unary(UnaryOp::Sqrt),
            Primitive::Pending(PendingOp::Cbrt),
            Primitive::Order(Relation::Less),
            Primitive::Order(Relation::Greater),
            Primitive::Order(Relation::LessOrEqual),
            Primitive::Order(Relation::GreaterOrEqual),
        ];
        assert(r@ =~= all_primitives());
        r
    }

    /// Interns a result, if there is one.
    pub fn record(&mut self, c: Option<Rational>) -> (r: Option<Value>)
        requires
            old(self).wf(),
            c matches Some(v) ==> v.wf(),
        ensures
            final(self).wf(),
            recorded(old(self)@, final(self)@, c, r),
            value_behind(final(self)@, r) == c,
    {
        match c {
            Some(v) => Some(self.store(v)),
            None => None,
        }
    }

    /// A binary operation on the values behind `a` and `b`; the handle of
    /// the result, if there is one.
    pub fn apply_binary(&mut self, op: BinaryOp, a: Value, b: Value) -> (r: Option<Value>)
        requires
            old(self).wf(),
            a.bits < old(self)@.len(),
            b.bits < old(self)@.len(),
        ensures
            final(self).wf(),
            recorded(old(self)@, final(self)@, value_behind(final(self)@, r), r),
            parts(value_behind(final(self)@, r)) == binary_outcome(
                op,
                old(self)@[a.bits as int],
                old(self)@[b.bits as int],
            ),
    {
        let x = self.load(a);
        let y = self.load(b);
        let c = eval_binary(op, x, y);
        self.record(c)
    }

    /// A unary operation on the value behind `a`; the handle of the result,
    /// if there is one.
    pub fn apply_unary(&mut self, op: UnaryOp, a: Value) -> (r: Option<Value>)
        requires
            old(self).wf(),
            a.bits < old(self)@.len(),
        ensures
            final(self).wf(),
            recorded(old(self)@, final(self)@, value_behind(final(self)@, r), r),
            unary_relates(op, old(self)@[a.bits as int], value_behind(final(self)@, r)),
    {
        let x = self.load(a);
        let c = eval_unary(op, x);
        self.record(c)
    }

    /// Logarithm or cube root of the value behind `a`: supported for 1 only,
    /// where the one gives 0 and the other 1.
    pub fn apply_pending(&mut self, op: PendingOp, a: Value) -> (r: Result<Value, NotYetImplemented>)
        requires
            old(self).wf(),
            a.bits < old(self)@.len(),
        ensures
            final(self).wf(),
            r.is_ok() <==> old(self)@[a.bits as int] == (Rational { numer: 1, denom: 1 }),
            r is Err ==> final(self)@ == old(self)@,
            r matches Ok(h) ==> recorded(
                old(self)@,
                final(self)@,
                Some(Rational { numer: if op == PendingOp::Log { 0i64 } else { 1i64 }, denom: 1 }),
                Some(h),
            ),
    {
        let x = self.load(a);
        let c = match op {
            PendingOp::Log => log(x),
            PendingOp::Cbrt => cbrt(x),
        };
        match c {
            Ok(v) => {
                proof {
                    assert(crate::rational::combination(0, v.numer as int, 1, v.denom as int) == 1);
                }
                Ok(self.store(v))
            },
            Err(e) => Err(e),
        }
    }

    /// Whether a relation holds between the values behind `a` and `b`.
    pub fn apply_relation(&self, rel: Relation, a: Value, b: Value) -> (r: Option<()>)
        requires
            self.wf(),
            a.bits < self@.len(),
            b.bits < self@.len(),
        ensures
            r.is_some() <==> relation_holds(rel, self@[a.bits as int], self@[b.bits as int]),
    {
        eval_relation(rel, self.load(a), self.load(b))
    }

    /// The constructor: the handle of the reduced fraction `n / d`, where
    /// there is one.
    pub fn construct(&mut self, n: i64, d: i64) -> (r: Option<Value>)
        requires
            old(self).wf(),
        ensures
            final(self).wf(),
            r.is_some() <==> new_defined(n, d),
            recorded(old(self)@, final(self)@, value_behind(final(self)@, r), r),
            r matches Some(h) ==> reduces(final(self)@[h.bits as int], n as int, d as int),
    {
        let c = Rational::new(n, d);
        self.record(c)
    }

    /// The reduced numerator of the value behind `a`.
    pub fn numer(&self, a: Value) -> (n: i64)
        requires
            a.bits < self@.len(),
        ensures
            n == self@[a.bits as int].numer,
    {
        self.load(a).numer
    }

    /// The reduced denominator of the value behind `a`.
    pub fn denom(&self, a: Value) -> (d: i64)
        requires
            a.bits < self@.len(),
        ensures
            d == self@[a.bits as int].denom,
    {
        self.load(a).denom
    }
}

} // verus!
