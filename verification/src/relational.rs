use vstd::prelude::*;
use crate::interval::Interval;
use crate::text::{extend_lit, extend_chars, i64_decimal, int_decimal, str_chars, string_of};
use crate::effects::str_eq;

verus! {

broadcast use vstd::string::group_string_axioms;

/// Binary operators of refinement predicates.
#[derive(Debug, Clone, Copy, PartialEq, Eq, Structural)]
pub enum BinOp {
    Add,
    Sub,
    Mul,
    Div,
    Eq,
    NotEq,
    Lt,
    LtEq,
    Gt,
    GtEq,
    And,
    Or,
}

/// The expressions a refinement predicate is built from: what the predicate checker reads
/// of the surface syntax.
#[derive(Debug)]
pub enum PredExpr {
    Int(i64),
    Ident(String),
    Binary { op: BinOp, left: Box<PredExpr>, right: Box<PredExpr> },
    /// Any other expression form.
    Other,
}

/// A known relation between two named variables.
#[derive(Debug, PartialEq)]
pub enum Constraint {
    /// a >= b
    GtEq(String, String),
    /// a > b
    Gt(String, String),
    /// a <= b
    LtEq(String, String),
    /// a < b
    Lt(String, String),
    /// a == b
    Eq(String, String),
}

/// The interval table a list of entries denotes: a later entry for a name replaces an earlier one.
pub open spec fn interval_map(v: Seq<(String, Interval)>) -> Map<Seq<char>, Interval>
    decreases v.len(),
{
    if v.len() == 0 {
        Map::empty()
    } else {
        interval_map(v.drop_last()).insert(v.last().0@, v.last().1)
    }
}

/// Facts known about the variables in scope: relations and constant interval bounds.
#[derive(Debug)]
pub struct RelationalContext {
    constraints: Vec<Constraint>,
    variable_intervals: Vec<(String, Interval)>,
}

impl RelationalContext {
    pub closed spec fn constraints(&self) -> Seq<Constraint> {
        self.constraints@
    }

    pub closed spec fn intervals(&self) -> Map<Seq<char>, Interval> {
        interval_map(self.variable_intervals@)
    }

    pub fn new() -> (r: Self)
        ensures
            r.constraints() == Seq::<Constraint>::empty(),
            r.intervals() == Map::<Seq<char>, Interval>::empty(),
    {
        RelationalContext { constraints: Vec::new(), variable_intervals: Vec::new() }
    }

    pub fn add_interval(&mut self, var: String, interval: Interval)
        ensures
            final(self).intervals() == old(self).intervals().insert(var@, interval),
            final(self).constraints() == old(self).constraints(),
    {
        let ghost before = self.variable_intervals@;
        self.variable_intervals.push((var, interval));
        assert(self.variable_intervals@.drop_last() =~= before);
    }

    pub fn add_constraint(&mut self, constraint: Constraint)
        ensures
            final(self).constraints() == old(self).constraints().push(constraint),
            final(self).intervals() == old(self).intervals(),
    {
        self.constraints.push(constraint);
    }

    fn interval_of(&self, name: &str) -> (r: Option<Interval>)
        ensures
            match r {
                Some(i) => self.intervals().contains_key(name@) && self.intervals()[name@] == i,
                None => !self.intervals().contains_key(name@),
            },
    {
        let v = &self.variable_intervals;
        let mut k = v.len();
        assert(v@.subrange(0, k as int) =~= v@);
        while k > 0
            invariant
                k <= v@.len(),
                v@ == self.variable_intervals@,
                forall|m: int| k <= m < v@.len() ==> v@[m].0@ != name@,
                interval_map(v@).contains_key(name@) == interval_map(v@.subrange(0, k as int)).contains_key(name@),
                interval_map(v@).contains_key(name@) ==> interval_map(v@)[name@] == interval_map(v@.subrange(0, k as int))[name@],
            decreases k,
        {
            assert(v@.subrange(0, k as int).drop_last() =~= v@.subrange(0, k - 1));
            assert(interval_map(v@.subrange(0, k as int)) == interval_map(v@.subrange(0, k - 1)).insert(
                v@[k - 1].0@,
                v@[k - 1].1,
            ));
            if str_eq(v[k - 1].0.as_str(), name) {
                return Some(v[k - 1].1);
            }
            k = k - 1;
        }
        assert(interval_map(v@.subrange(0, 0)) == Map::<Seq<char>, Interval>::empty());
        None
    }
}

/// The operator with its sides exchanged.
pub open spec fn flip(op: BinOp) -> BinOp {
    match op {
        BinOp::Lt => BinOp::Gt,
        BinOp::LtEq => BinOp::GtEq,
        BinOp::Gt => BinOp::Lt,
        BinOp::GtEq => BinOp::LtEq,
        other => other,
    }
}

/// The implicit candidate `_val` of a refinement predicate.
pub open spec fn is_candidate(e: PredExpr) -> bool {
    e matches PredExpr::Ident(id) && id@ == "_val"@
}

/// Whether a relation between two constants holds; non-relational operators hold trivially.
pub open spec fn const_relation_holds(op: BinOp, c: i64, b: i64) -> bool {
    match op {
        BinOp::GtEq => c >= b,
        BinOp::Gt => c > b,
        BinOp::LtEq => c <= b,
        BinOp::Lt => c < b,
        BinOp::Eq => c == b,
        BinOp::NotEq => c != b,
        _ => true,
    }
}

/// Whether a relation between a constant and every value of an interval holds.
pub open spec fn const_interval_holds(op: BinOp, c: i64, b: Interval) -> bool {
    match op {
        BinOp::GtEq => c >= b.max,
        BinOp::Gt => c > b.max,
        BinOp::LtEq => c <= b.min,
        BinOp::Lt => c < b.min,
        BinOp::Eq => b.min == b.max && c == b.min,
        _ => true,
    }
}

/// The `Debug` name of an operator.
pub open spec fn op_name(op: BinOp) -> Seq<char> {
    match op {
        BinOp::Add => "Add"@,
        BinOp::Sub => "Sub"@,
        BinOp::Mul => "Mul"@,
        BinOp::Div => "Div"@,
        BinOp::Eq => "Eq"@,
        BinOp::NotEq => "NotEq"@,
        BinOp::Lt => "Lt"@,
        BinOp::LtEq => "LtEq"@,
        BinOp::Gt => "Gt"@,
        BinOp::GtEq => "GtEq"@,
        BinOp::And => "And"@,
        BinOp::Or => "Or"@,
    }
}

pub open spec fn const_violation_msg(c: i64, op: BinOp) -> Seq<char> {
    "Constant value "@ + int_decimal(c as int) + " does not satisfy relational bound "@ + op_name(op)
}

pub open spec fn param_violation_msg(c: i64, op: BinOp, param: Seq<char>) -> Seq<char> {
    "Value "@ + int_decimal(c as int) + " violates relational bound "@ + op_name(op)
        + " against parameter '"@ + param + "'"@
}

/// The verdict on one relation `left op right` for a candidate value: a constant bound
/// must hold exactly; a constant candidate against a parameter with a known interval must
/// hold for the whole interval; anything else cannot be disproven and is accepted.
pub open spec fn atomic_verdict(
    intervals: Map<Seq<char>, Interval>,
    candidate: PredExpr,
    op: BinOp,
    left: PredExpr,
    right: PredExpr,
) -> Result<(), Seq<char>> {
    let (target, bound, rel) = if is_candidate(left) {
        (candidate, right, op)
    } else if is_candidate(right) {
        (candidate, left, flip(op))
    } else {
        (left, right, op)
    };
    match (target, bound) {
        (PredExpr::Int(c), PredExpr::Int(b)) => if const_relation_holds(rel, c, b) {
            Ok(())
        } else {
            Err(const_violation_msg(c, rel))
        },
        (PredExpr::Int(c), PredExpr::Ident(name)) => if intervals.contains_key(name@)
            && !const_interval_holds(rel, c, intervals[name@]) {
            Err(param_violation_msg(c, rel, name@))
        } else {
            Ok(())
        },
        _ => Ok(()),
    }
}

/// The verdict on a predicate: a conjunction holds when both sides do (the left one is
/// checked first); any other binary relation is judged by `atomic_verdict`.
pub open spec fn predicate_verdict(
    intervals: Map<Seq<char>, Interval>,
    candidate: PredExpr,
    predicate: PredExpr,
) -> Result<(), Seq<char>>
    decreases predicate,
{
    match predicate {
        PredExpr::Binary { op: BinOp::And, left, right } => match predicate_verdict(
            intervals,
            candidate,
            *left,
        ) {
            Err(e) => Err(e),
            Ok(_) => predicate_verdict(intervals, candidate, *right),
        },
        PredExpr::Binary { op, left, right } => atomic_verdict(intervals, candidate, op, *left, *right),
        _ => Ok(()),
    }
}

/// The relation `op` between two numbers, for the comparison operators a
/// refinement bound uses.
pub open spec fn related(op: BinOp, x: int, y: int) -> bool {
    match op {
        BinOp::GtEq => x >= y,
        BinOp::Gt => x > y,
        BinOp::LtEq => x <= y,
        BinOp::Lt => x < y,
        _ => x == y,
    }
}

/// A bound operator of a refinement: `>=`, `>`, `<=`, `<` or `==`.
pub open spec fn is_bound_op(op: BinOp) -> bool {
    op is GtEq || op is Gt || op is LtEq || op is Lt || op is Eq
}

/// A constant candidate meets the bound `_val op b`, and its mirror
/// `b op' _val`, exactly when `c op b` holds.
pub proof fn law_constant_bound(intervals: Map<Seq<char>, Interval>, val: PredExpr, op: BinOp, c: i64, b: i64)
    requires
        is_candidate(val),
        is_bound_op(op),
    ensures
        predicate_verdict(
            intervals,
            PredExpr::Int(c),
            PredExpr::Binary { op, left: Box::new(val), right: Box::new(PredExpr::Int(b)) },
        ) is Ok <==> related(op, c as int, b as int),
        predicate_verdict(
            intervals,
            PredExpr::Int(c),
            PredExpr::Binary { op: flip(op), left: Box::new(PredExpr::Int(b)), right: Box::new(val) },
        ) is Ok <==> related(op, c as int, b as int),
{
}

/// A constant candidate meets the bound `_val op n`, where `n` is known to
/// lie in a non-empty interval, exactly when `c op x` holds for every `x` of
/// the interval.
pub proof fn law_interval_bound(
    intervals: Map<Seq<char>, Interval>,
    val: PredExpr,
    op: BinOp,
    c: i64,
    n: PredExpr,
)
    requires
        is_candidate(val),
        is_bound_op(op),
        n matches PredExpr::Ident(name) && intervals.contains_key(name@) && intervals[name@].min <= intervals[name@].max,
    ensures
        predicate_verdict(intervals, PredExpr::Int(c), PredExpr::Binary { op, left: Box::new(val), right: Box::new(n) })
            is Ok <==> (forall|x: int|
            intervals[n->Ident_0@].min <= x <= intervals[n->Ident_0@].max ==> #[trigger] related(op, c as int, x)),
{
    let iv = intervals[n->Ident_0@];
    let v = predicate_verdict(intervals, PredExpr::Int(c), PredExpr::Binary { op, left: Box::new(val), right: Box::new(n) });
    assert(v is Ok <==> const_interval_holds(op, c, iv));
    if const_interval_holds(op, c, iv) {
        assert forall|x: int| iv.min <= x <= iv.max implies #[trigger] related(op, c as int, x) by {}
    } else {
        assert(!related(op, c as int, iv.min as int) || !related(op, c as int, iv.max as int));
    }
}

/// A conjunction of bounds is met exactly when both of its sides are.
pub proof fn law_conjunction(intervals: Map<Seq<char>, Interval>, candidate: PredExpr, p: PredExpr, q: PredExpr)
    ensures
        predicate_verdict(
            intervals,
            candidate,
            PredExpr::Binary { op: BinOp::And, left: Box::new(p), right: Box::new(q) },
        ) is Ok <==> (predicate_verdict(intervals, candidate, p) is Ok && predicate_verdict(intervals, candidate, q) is Ok),
{
}

pub open spec fn verdict_view(r: Result<(), String>) -> Result<(), Seq<char>> {
    match r {
        Ok(_) => Ok(()),
        Err(e) => Err(e@),
    }
}

fn op_name_exec(out: &mut Vec<char>, op: BinOp)
    ensures
        final(out)@ == old(out)@ + op_name(op),
{
    match op {
        BinOp::Add => extend_lit(out, "Add"),
        BinOp::Sub => extend_lit(out, "Sub"),
        BinOp::Mul => extend_lit(out, "Mul"),
        BinOp::Div => extend_lit(out, "Div"),
        BinOp::Eq => extend_lit(out, "Eq"),
        BinOp::NotEq => extend_lit(out, "NotEq"),
        BinOp::Lt => extend_lit(out, "Lt"),
        BinOp::LtEq => extend_lit(out, "LtEq"),
        BinOp::Gt => extend_lit(out, "Gt"),
        BinOp::GtEq => extend_lit(out, "GtEq"),
        BinOp::And => extend_lit(out, "And"),
        BinOp::Or => extend_lit(out, "Or"),
    }
}

fn is_candidate_exec(e: &PredExpr) -> (r: bool)
    ensures
        r == is_candidate(*e),
{
    match e {
        PredExpr::Ident(id) => str_eq(id.as_str(), "_val"),
        _ => false,
    }
}

fn flip_exec(op: BinOp) -> (r: BinOp)
    ensures
        r == flip(op),
{
    match op {
        BinOp::Lt => BinOp::Gt,
        BinOp::LtEq => BinOp::GtEq,
        BinOp::Gt => BinOp::Lt,
        BinOp::GtEq => BinOp::LtEq,
        other => other,
    }
}

/// Whether a recorded constraint directly establishes `c op b` for variables `c` and `b`.
pub open spec fn constraint_proves(con: Constraint, op: BinOp, c: Seq<char>, b: Seq<char>) -> bool {
    match con {
        Constraint::GtEq(x, y) => op == BinOp::GtEq && x@ == c && y@ == b,
        Constraint::Gt(x, y) => (op == BinOp::Gt || op == BinOp::GtEq) && x@ == c && y@ == b,
        Constraint::LtEq(x, y) => op == BinOp::LtEq && x@ == c && y@ == b,
        Constraint::Lt(x, y) => (op == BinOp::Lt || op == BinOp::LtEq) && x@ == c && y@ == b,
        Constraint::Eq(x, y) => (op == BinOp::GtEq || op == BinOp::LtEq || op == BinOp::Eq) && ((
        x@ == c && y@ == b) || (x@ == b && y@ == c)),
    }
}

fn constraint_proves_exec(con: &Constraint, op: BinOp, c: &str, b: &str) -> (r: bool)
    ensures
        r == constraint_proves(*con, op, c@, b@),
{
    match con {
        Constraint::GtEq(x, y) => op == BinOp::GtEq && str_eq(x.as_str(), c) && str_eq(y.as_str(), b),
        Constraint::Gt(x, y) => (op == BinOp::Gt || op == BinOp::GtEq) && str_eq(x.as_str(), c)
            && str_eq(y.as_str(), b),
        Constraint::LtEq(x, y) => op == BinOp::LtEq && str_eq(x.as_str(), c) && str_eq(y.as_str(), b),
        Constraint::Lt(x, y) => (op == BinOp::Lt || op == BinOp::LtEq) && str_eq(x.as_str(), c)
            && str_eq(y.as_str(), b),
        Constraint::Eq(x, y) => (op == BinOp::GtEq || op == BinOp::LtEq || op == BinOp::Eq) && ((
        str_eq(x.as_str(), c) && str_eq(y.as_str(), b)) || (str_eq(x.as_str(), b) && str_eq(
            y.as_str(),
            c,
        ))),
    }
}

impl RelationalContext {
    fn verify_atomic_relation(
        &self,
        candidate: &PredExpr,
        op: BinOp,
        left: &PredExpr,
        right: &PredExpr,
    ) -> (r: Result<(), String>)
        ensures
            verdict_view(r) == atomic_verdict(self.intervals(), *candidate, op, *left, *right),
    {
        // The left operand in the predicate is often `_val` (the implicit candidate).
        let is_left_candidate = is_candidate_exec(left);
        let is_right_candidate = is_candidate_exec(right);
        let (target_val, bound_expr, relation_op) = if is_left_candidate {
            (candidate, right, op)
        } else if is_right_candidate {
            (candidate, left, flip_exec(op))
        } else {
            (left, right, op)
        };
        // 1. Both sides are constant integers.
        if let (PredExpr::Int(c_val), PredExpr::Int(b_val)) = (target_val, bound_expr) {
            let c_val = *c_val;
            let b_val = *b_val;
            let satisfied = match relation_op {
                BinOp::GtEq => c_val >= b_val,
                BinOp::Gt => c_val > b_val,
                BinOp::LtEq => c_val <= b_val,
                BinOp::Lt => c_val < b_val,
                BinOp::Eq => c_val == b_val,
                BinOp::NotEq => c_val != b_val,
                _ => true,
            };
            if satisfied {
                return Ok(());
            } else {
                let mut msg: Vec<char> = Vec::new();
                extend_lit(&mut msg, "Constant value ");
                extend_chars(&mut msg, i64_decimal(c_val).as_slice());
                extend_lit(&mut msg, " does not satisfy relational bound ");
                op_name_exec(&mut msg, relation_op);
                return Err(string_of(msg.as_slice()));
            }
        }
        // 2. Both sides are variables: recorded relations and intervals.
        if let (PredExpr::Ident(c_name), PredExpr::Ident(b_name)) = (target_val, bound_expr) {
            if str_eq(c_name.as_str(), b_name.as_str()) {
                if relation_op == BinOp::GtEq || relation_op == BinOp::LtEq || relation_op == BinOp::Eq {
                    return Ok(());
                }
            }
            assert(atomic_verdict(self.intervals(), *candidate, op, *left, *right) == Ok::<(), Seq<char>>(()));
            let mut k: usize = 0;
            while k < self.constraints.len()
                invariant
                    atomic_verdict(self.intervals(), *candidate, op, *left, *right) == Ok::<(), Seq<char>>(()),
                decreases self.constraints@.len() - k,
            {
                if constraint_proves_exec(&self.constraints[k], relation_op, c_name.as_str(), b_name.as_str()) {
                    return Ok(());
                }
                k = k + 1;
            }
            if let (Some(c_int), Some(b_int)) = (self.interval_of(c_name.as_str()), self.interval_of(b_name.as_str())) {
                let proved = match relation_op {
                    BinOp::GtEq => c_int.min >= b_int.max,
                    BinOp::Gt => c_int.min > b_int.max,
                    BinOp::LtEq => c_int.max <= b_int.min,
                    BinOp::Lt => c_int.max < b_int.min,
                    _ => false,
                };
                if proved {
                    return Ok(());
                }
            }
        }
        // 3. Constant candidate against a variable bound with a known interval.
        if let (PredExpr::Int(c_val), PredExpr::Ident(b_name)) = (target_val, bound_expr) {
            let c_val = *c_val;
            if let Some(b_int) = self.interval_of(b_name.as_str()) {
                let satisfied = match relation_op {
                    BinOp::GtEq => c_val >= b_int.max,
                    BinOp::Gt => c_val > b_int.max,
                    BinOp::LtEq => c_val <= b_int.min,
                    BinOp::Lt => c_val < b_int.min,
                    BinOp::Eq => b_int.min == b_int.max && c_val == b_int.min,
                    _ => true,
                };
                if satisfied {
                    return Ok(());
                } else {
                    let mut msg: Vec<char> = Vec::new();
                    extend_lit(&mut msg, "Value ");
                    extend_chars(&mut msg, i64_decimal(c_val).as_slice());
                    extend_lit(&mut msg, " violates relational bound ");
                    op_name_exec(&mut msg, relation_op);
                    extend_lit(&mut msg, " against parameter '");
                    extend_chars(&mut msg, str_chars(b_name.as_str()).as_slice());
                    extend_lit(&mut msg, "'");
                    return Err(string_of(msg.as_slice()));
                }
            }
        }
        // 4. The candidate cannot be disproven at this stage.
        Ok(())
    }

    /// Checks a refinement predicate against a candidate value expression.
    pub fn verify_predicate(&self, candidate: &PredExpr, predicate: &PredExpr) -> (r: Result<(), String>)
        ensures
            verdict_view(r) == predicate_verdict(self.intervals(), *candidate, *predicate),
        decreases predicate,
    {
        match predicate {
            PredExpr::Binary { op: BinOp::And, left, right } => {
                match self.verify_predicate(candidate, left) {
                    Err(e) => {
                        return Err(e);
                    },
                    Ok(_) => {},
                }
                self.verify_predicate(candidate, right)
            },
            PredExpr::Binary { op, left, right } => self.verify_atomic_relation(candidate, *op, left, right),
            _ => Ok(()),
        }
    }
}

} // verus!
