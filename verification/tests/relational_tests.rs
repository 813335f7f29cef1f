use tungsten_core::interval::Interval;
use tungsten_core::relational::{BinOp, Constraint, PredExpr, RelationalContext};

fn ident(n: &str) -> Box<PredExpr> {
    Box::new(PredExpr::Ident(n.to_string()))
}

fn num(v: i64) -> Box<PredExpr> {
    Box::new(PredExpr::Int(v))
}

fn bin(op: BinOp, left: Box<PredExpr>, right: Box<PredExpr>) -> PredExpr {
    PredExpr::Binary { op, left, right }
}

#[test]
fn constant_candidate_against_constant_bound() {
    let ctx = RelationalContext::new();
    let pred = bin(BinOp::LtEq, ident("_val"), num(100));
    assert_eq!(ctx.verify_predicate(&PredExpr::Int(80), &pred), Ok(()));
    assert_eq!(
        ctx.verify_predicate(&PredExpr::Int(150), &pred),
        Err("Constant value 150 does not satisfy relational bound LtEq".to_string())
    );
}

#[test]
fn candidate_on_the_right_inverts_the_relation() {
    let ctx = RelationalContext::new();
    // 0 <= _val  reads as  _val >= 0
    let pred = bin(BinOp::LtEq, num(0), ident("_val"));
    assert_eq!(ctx.verify_predicate(&PredExpr::Int(5), &pred), Ok(()));
    assert_eq!(
        ctx.verify_predicate(&PredExpr::Int(-5), &pred),
        Err("Constant value -5 does not satisfy relational bound GtEq".to_string())
    );
}

#[test]
fn conjunction_checks_both_sides_in_order() {
    let ctx = RelationalContext::new();
    let pred = bin(
        BinOp::And,
        Box::new(bin(BinOp::GtEq, ident("_val"), num(1))),
        Box::new(bin(BinOp::Lt, ident("_val"), num(10))),
    );
    assert_eq!(ctx.verify_predicate(&PredExpr::Int(3), &pred), Ok(()));
    assert_eq!(
        ctx.verify_predicate(&PredExpr::Int(0), &pred),
        Err("Constant value 0 does not satisfy relational bound GtEq".to_string())
    );
    assert_eq!(
        ctx.verify_predicate(&PredExpr::Int(10), &pred),
        Err("Constant value 10 does not satisfy relational bound Lt".to_string())
    );
}

#[test]
fn constant_against_parameter_interval() {
    let mut ctx = RelationalContext::new();
    ctx.add_interval("len".to_string(), Interval::new(0, 64));
    let pred = bin(BinOp::Lt, ident("_val"), ident("len"));
    // 0 < min(len) is false
    assert_eq!(
        ctx.verify_predicate(&PredExpr::Int(0), &pred),
        Err("Value 0 violates relational bound Lt against parameter 'len'".to_string())
    );
    let ge = bin(BinOp::GtEq, ident("_val"), ident("len"));
    assert_eq!(ctx.verify_predicate(&PredExpr::Int(64), &ge), Ok(()));
    // No interval known for the bound: accepted.
    let unknown = bin(BinOp::Lt, ident("_val"), ident("cap"));
    assert_eq!(ctx.verify_predicate(&PredExpr::Int(1000), &unknown), Ok(()));
}

#[test]
fn variables_and_other_forms_are_accepted() {
    let mut ctx = RelationalContext::new();
    ctx.add_constraint(Constraint::Lt("a".to_string(), "b".to_string()));
    let pred = bin(BinOp::Lt, ident("a"), ident("b"));
    assert_eq!(ctx.verify_predicate(&PredExpr::Int(1), &pred), Ok(()));
    assert_eq!(ctx.verify_predicate(&PredExpr::Int(1), &PredExpr::Other), Ok(()));
}

#[test]
fn equality_against_an_interval_needs_a_single_value() {
    let mut ctx = RelationalContext::new();
    ctx.add_interval("one".to_string(), Interval::new(3, 3));
    ctx.add_interval("two".to_string(), Interval::new(3, 4));
    assert_eq!(ctx.verify_predicate(&PredExpr::Int(3), &bin(BinOp::Eq, ident("_val"), ident("one"))), Ok(()));
    assert_eq!(
        ctx.verify_predicate(&PredExpr::Int(3), &bin(BinOp::Eq, ident("_val"), ident("two"))),
        Err("Value 3 violates relational bound Eq against parameter 'two'".to_string())
    );
}
