use rational_sort::primitives::{
    binary_symbol, eval_binary, eval_relation, eval_unary, pending_symbol, relation_symbol,
    signature, symbol, unary_symbol, BinaryOp, PendingOp, Primitive, Relation, Signature,
    SortName, UnaryOp,
};
use rational_sort::rational::Rational;
use rational_sort::sort::RationalSort;
use rational_sort::special::NotYetImplemented;

fn q(n: i64, d: i64) -> Rational {
    Rational::new(n, d).unwrap()
}

#[test]
fn symbols_are_the_registered_names() {
    let binary = [
        (BinaryOp::Add, "+"),
        (BinaryOp::Sub, "-"),
        (BinaryOp::Mul, "*"),
        (BinaryOp::Div, "/"),
        (BinaryOp::Min, "min"),
        (BinaryOp::Max, "max"),
        (BinaryOp::Pow, "pow"),
    ];
    for (op, name) in binary {
        assert_eq!(binary_symbol(op), name);
    }
    let unary = [
        (UnaryOp::Neg, "neg"),
        (UnaryOp::Abs, "abs"),
        (UnaryOp::Floor, "floor"),
        (UnaryOp::Ceil, "ceil"),
        (UnaryOp::Round, "round"),
        (UnaryOp::Sqrt, "sqrt"),
    ];
    for (op, name) in unary {
        assert_eq!(unary_symbol(op), name);
    }
    let relations = [
        (Relation::Less, "<"),
        (Relation::Greater, ">"),
        (Relation::LessOrEqual, "<="),
        (Relation::GreaterOrEqual, ">="),
    ];
    for (rel, name) in relations {
        assert_eq!(relation_symbol(rel), name);
    }
}

#[test]
fn eval_binary_dispatches_each_operation() {
    let (a, b) = (q(3, 4), q(1, 2));
    assert_eq!(eval_binary(BinaryOp::Add, a, b), Some(q(5, 4)));
    assert_eq!(eval_binary(BinaryOp::Sub, a, b), Some(q(1, 4)));
    assert_eq!(eval_binary(BinaryOp::Mul, a, b), Some(q(3, 8)));
    assert_eq!(eval_binary(BinaryOp::Div, a, b), Some(q(3, 2)));
    assert_eq!(eval_binary(BinaryOp::Min, a, b), Some(b));
    assert_eq!(eval_binary(BinaryOp::Max, a, b), Some(a));
    assert_eq!(eval_binary(BinaryOp::Pow, a, q(2, 1)), Some(q(9, 16)));
    assert_eq!(eval_binary(BinaryOp::Div, a, q(0, 1)), None);
}

#[test]
fn eval_unary_dispatches_each_operation() {
    let a = q(-9, 4);
    assert_eq!(eval_unary(UnaryOp::Neg, a), Some(q(9, 4)));
    assert_eq!(eval_unary(UnaryOp::Abs, a), Some(q(9, 4)));
    assert_eq!(eval_unary(UnaryOp::Floor, a), Some(q(-3, 1)));
    assert_eq!(eval_unary(UnaryOp::Ceil, a), Some(q(-2, 1)));
    assert_eq!(eval_unary(UnaryOp::Round, a), Some(q(-2, 1)));
    assert_eq!(eval_unary(UnaryOp::Sqrt, a), None);
    assert_eq!(eval_unary(UnaryOp::Sqrt, q(9, 4)), Some(q(3, 2)));
}

#[test]
fn eval_relation_dispatches_each_relation() {
    let (a, b) = (q(1, 2), q(3, 4));
    assert_eq!(eval_relation(Relation::Less, a, b), Some(()));
    assert_eq!(eval_relation(Relation::Greater, a, b), None);
    assert_eq!(eval_relation(Relation::LessOrEqual, a, a), Some(()));
    assert_eq!(eval_relation(Relation::GreaterOrEqual, a, b), None);
}

#[test]
fn apply_binary_interns_the_result() {
    let mut sort = RationalSort::new();
    let a = sort.store(q(1, 2));
    let b = sort.store(q(1, 3));
    let sum = sort.apply_binary(BinaryOp::Add, a, b).unwrap();
    assert_eq!(sum.bits, 2);
    assert_eq!(sort.load(sum), q(5, 6));
    assert_eq!(sort.apply_binary(BinaryOp::Add, b, a), Some(sum));
    assert_eq!(sort.apply_binary(BinaryOp::Sub, sum, b), Some(a));
    assert_eq!(sort.population(), 3);
}

#[test]
fn apply_binary_without_result_leaves_the_table() {
    let mut sort = RationalSort::new();
    let a = sort.store(q(1, 2));
    let zero = sort.store(q(0, 1));
    let top = sort.store(q(i64::MAX, 1));
    assert_eq!(sort.apply_binary(BinaryOp::Div, a, zero), None);
    assert_eq!(sort.apply_binary(BinaryOp::Mul, top, top), None);
    assert_eq!(sort.apply_binary(BinaryOp::Pow, zero, zero), None);
    assert_eq!(sort.population(), 3);
}

#[test]
fn apply_unary_interns_the_result() {
    let mut sort = RationalSort::new();
    let a = sort.store(q(-3, 2));
    let f = sort.apply_unary(UnaryOp::Floor, a).unwrap();
    assert_eq!(sort.load(f), q(-2, 1));
    let c = sort.apply_unary(UnaryOp::Ceil, a).unwrap();
    assert_eq!(sort.load(c), q(-1, 1));
    assert_eq!(sort.apply_unary(UnaryOp::Sqrt, a), None);
    assert_eq!(sort.population(), 3);
}

#[test]
fn apply_pending_supports_one_only() {
    let mut sort = RationalSort::new();
    let one = sort.store(q(1, 1));
    let two = sort.store(q(2, 1));
    let l = sort.apply_pending(PendingOp::Log, one).unwrap();
    assert_eq!(sort.load(l), q(0, 1));
    assert_eq!(sort.apply_pending(PendingOp::Cbrt, one), Ok(one));
    assert_eq!(sort.apply_pending(PendingOp::Log, two), Err(NotYetImplemented));
    assert_eq!(sort.apply_pending(PendingOp::Cbrt, two), Err(NotYetImplemented));
    assert_eq!(sort.population(), 3);
}

#[test]
fn apply_relation_reads_the_table() {
    let mut sort = RationalSort::new();
    let a = sort.store(q(1, 2));
    let b = sort.store(q(3, 4));
    assert_eq!(sort.apply_relation(Relation::Less, a, b), Some(()));
    assert_eq!(sort.apply_relation(Relation::Less, b, a), None);
    assert_eq!(sort.apply_relation(Relation::GreaterOrEqual, b, a), Some(()));
}

#[test]
fn construct_and_project() {
    let mut sort = RationalSort::new();
    let h = sort.construct(10, -4).unwrap();
    assert_eq!(sort.numer(h), -5);
    assert_eq!(sort.denom(h), 2);
    assert_eq!(sort.construct(-5, 2), Some(h));
    assert_eq!(sort.construct(1, 0), None);
    assert_eq!(sort.population(), 1);
}

#[test]
fn table_lists_every_primitive_once() {
    let table = RationalSort::new().register_primitives();
    let names: Vec<&str> = table.iter().map(|p| symbol(*p)).collect();
    assert_eq!(
        names,
        vec![
            "+", "-", "*", "/", "min", "max", "neg", "abs", "floor", "ceil", "round", "rational",
            "numer", "denom", "pow", "log", "sqrt", "cbrt", "<", ">", "<=", ">=",
        ]
    );
    for (i, a) in table.iter().enumerate() {
        for b in table.iter().skip(i + 1) {
            assert_ne!(a, b);
        }
    }
}

#[test]
fn signatures_name_operands_and_results() {
    let rational = SortName::Rational;
    assert_eq!(
        signature(Primitive::Binary(BinaryOp::Add)),
        Signature { arity: 2, operand: rational, result: rational, partial: true }
    );
    assert_eq!(
        signature(Primitive::Binary(BinaryOp::Min)),
        Signature { arity: 2, operand: rational, result: rational, partial: false }
    );
    assert_eq!(
        signature(Primitive::Unary(UnaryOp::Floor)),
        Signature { arity: 1, operand: rational, result: rational, partial: false }
    );
    assert_eq!(
        signature(Primitive::Unary(UnaryOp::Sqrt)),
        Signature { arity: 1, operand: rational, result: rational, partial: true }
    );
    assert_eq!(
        signature(Primitive::Unary(UnaryOp::Neg)),
        Signature { arity: 1, operand: rational, result: rational, partial: true }
    );
    assert_eq!(
        signature(Primitive::Pending(PendingOp::Log)),
        Signature { arity: 1, operand: rational, result: rational, partial: true }
    );
    assert_eq!(
        signature(Primitive::Order(Relation::Less)),
        Signature { arity: 2, operand: rational, result: SortName::Unit, partial: true }
    );
    assert_eq!(
        signature(Primitive::Construct),
        Signature { arity: 2, operand: SortName::Int, result: rational, partial: true }
    );
    assert_eq!(
        signature(Primitive::Numer),
        Signature { arity: 1, operand: rational, result: SortName::Int, partial: false }
    );
    assert_eq!(
        signature(Primitive::Denom),
        Signature { arity: 1, operand: rational, result: SortName::Int, partial: false }
    );
    assert_eq!(pending_symbol(PendingOp::Log), "log");
    assert_eq!(pending_symbol(PendingOp::Cbrt), "cbrt");
}
