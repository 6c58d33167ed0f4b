use vstd::prelude::*;

use crate::random::RandomSource;
use crate::random::ThreadRandom;

verus! {

/// The coordinate a terminal node substitutes: the pixel's normalized
/// horizontal (`X`) or vertical (`Y`) position.
#[derive(Debug, Clone, Copy, PartialEq, Eq)]
pub enum Value {
    X,
    Y,
}

/// The operators of arity one.
#[derive(Debug, Clone, Copy, PartialEq, Eq)]
pub enum UnaryOp {
    /// Sine of the child value times pi.
    Sin,
    /// Cosine of the child value times pi.
    Cos,
    /// `2 / (1 + exp(-child)) - 1`, the sigmoid rescaled towards `(-1, 1)`.
    ScaledSigmoid,
    /// Square root of the absolute value of the child.
    Sqrt,
}

/// The operators of arity two.
#[derive(Debug, Clone, Copy, PartialEq, Eq)]
pub enum BinaryOp {
    /// Product of the children's values.
    Mult,
    /// Arithmetic mean of the children's values.
    Average,
}

/// The seven operator kinds, each with a fixed arity.
#[derive(Debug, Clone, Copy)]
pub enum Opcode {
    Substitute,
    Mult,
    Average,
    Sin,
    Cos,
    ScaledSigmoid,
    Sqrt,
}

/// A randomly generated expression tree. A terminal node holds exactly one
/// bound coordinate and no children; a unary operator exactly one child; a
/// binary operator exactly two. A node owns its children exclusively, and a
/// finished tree is never mutated.
#[derive(Debug)]
pub enum Expression {
    Terminal(Value),
    Unary(UnaryOp, Box<Expression>),
    Binary(BinaryOp, Box<Expression>, Box<Expression>),
}

/// The longest path from a node down to any terminal.
pub open spec fn depth_of(e: Expression) -> nat
    decreases e,
{
    match e {
        Expression::Terminal(_) => 0,
        Expression::Unary(_, c) => 1 + depth_of(*c),
        Expression::Binary(_, l, r) => {
            let dl = depth_of(*l);
            let dr = depth_of(*r);
            1 + if dl >= dr {
                dl
            } else {
                dr
            }
        },
    }
}

/// The operator kind at a node's root.
pub open spec fn opcode_of(e: Expression) -> Opcode {
    match e {
        Expression::Terminal(_) => Opcode::Substitute,
        Expression::Unary(op, _) => match op {
            UnaryOp::Sin => Opcode::Sin,
            UnaryOp::Cos => Opcode::Cos,
            UnaryOp::ScaledSigmoid => Opcode::ScaledSigmoid,
            UnaryOp::Sqrt => Opcode::Sqrt,
        },
        Expression::Binary(op, _, _) => match op {
            BinaryOp::Mult => Opcode::Mult,
            BinaryOp::Average => Opcode::Average,
        },
    }
}

/// The fixed arity of an operator kind.
pub open spec fn arity(op: Opcode) -> nat {
    match op {
        Opcode::Substitute => 0,
        Opcode::Sin => 1,
        Opcode::Cos => 1,
        Opcode::ScaledSigmoid => 1,
        Opcode::Sqrt => 1,
        Opcode::Mult => 2,
        Opcode::Average => 2,
    }
}

/// The number of child subtrees at a node's root.
pub open spec fn child_count(e: Expression) -> nat {
    match e {
        Expression::Terminal(_) => 0,
        Expression::Unary(_, _) => 1,
        Expression::Binary(_, _, _) => 2,
    }
}

/// Law: a node's arity matches its operator kind exactly — a terminal has no
/// children, a unary operator one, a binary operator two.
pub proof fn lemma_arity_matches_opcode(e: Expression)
    ensures
        child_count(e) == arity(opcode_of(e)),
{
}

/// Law: a node's kind is `Substitute` exactly when the node is a terminal.
/// With `node_for`'s contract this makes a drawn `Substitute` end its branch
/// in a terminal at once, whatever depth budget is left.
pub proof fn lemma_substitute_is_terminal(e: Expression)
    ensures
        (opcode_of(e) == Opcode::Substitute) <==> (e is Terminal),
{
}

/// The number of child slots of an operator kind, as an executable value.
pub fn opcode_arity(op: Opcode) -> (n: u8)
    ensures
        n as nat == arity(op),
{
    match op {
        Opcode::Substitute => 0,
        Opcode::Sin => 1,
        Opcode::Cos => 1,
        Opcode::ScaledSigmoid => 1,
        Opcode::Sqrt => 1,
        Opcode::Mult => 2,
        Opcode::Average => 2,
    }
}

/// One instruction of an evaluation plan: substitute a coordinate, or apply
/// an operator to the topmost one or two values of the evaluation stack.
#[derive(Debug, Clone, Copy, PartialEq, Eq)]
pub enum Step {
    Push(Value),
    Apply1(UnaryOp),
    Apply2(BinaryOp),
}

/// The postorder evaluation plan of a tree: each node's children come first,
/// then the operator that combines them.
pub open spec fn plan_of(e: Expression) -> Seq<Step>
    decreases e,
{
    match e {
        Expression::Terminal(v) => seq![Step::Push(v)],
        Expression::Unary(op, c) => plan_of(*c) + seq![Step::Apply1(op)],
        Expression::Binary(op, l, r) => plan_of(*l) + plan_of(*r) + seq![Step::Apply2(op)],
    }
}

/// Recursive evaluation of a tree at the coordinates `x` and `y`, over any
/// value domain `V` whose unary and binary operator meanings are given by
/// `un` and `bin`.
pub open spec fn tree_value<V>(
    e: Expression,
    x: V,
    y: V,
    un: spec_fn(UnaryOp, V) -> V,
    bin: spec_fn(BinaryOp, V, V) -> V,
) -> V
    decreases e,
{
    match e {
        Expression::Terminal(Value::X) => x,
        Expression::Terminal(Value::Y) => y,
        Expression::Unary(op, c) => un(op, tree_value(*c, x, y, un, bin)),
        Expression::Binary(op, l, r) => bin(
            op,
            tree_value(*l, x, y, un, bin),
            tree_value(*r, x, y, un, bin),
        ),
    }
}

/// One machine step on a value stack. An operator finding too few operands
/// leaves the stack as it is; the plan of a tree never runs short.
pub open spec fn step_stack<V>(
    s: Step,
    stack: Seq<V>,
    x: V,
    y: V,
    un: spec_fn(UnaryOp, V) -> V,
    bin: spec_fn(BinaryOp, V, V) -> V,
) -> Seq<V> {
    match s {
        Step::Push(Value::X) => stack.push(x),
        Step::Push(Value::Y) => stack.push(y),
        Step::Apply1(op) => if stack.len() >= 1 {
            stack.drop_last().push(un(op, stack.last()))
        } else {
            stack
        },
        Step::Apply2(op) => if stack.len() >= 2 {
            stack.subrange(0, stack.len() - 2).push(
                bin(op, stack[stack.len() - 2], stack[stack.len() - 1]),
            )
        } else {
            stack
        },
    }
}

/// Runs a plan left to right over a value stack.
pub open spec fn run_steps<V>(
    p: Seq<Step>,
    stack: Seq<V>,
    x: V,
    y: V,
    un: spec_fn(UnaryOp, V) -> V,
    bin: spec_fn(BinaryOp, V, V) -> V,
) -> Seq<V>
    decreases p.len(),
{
    if p.len() == 0 {
        stack
    } else {
        run_steps(p.drop_first(), step_stack(p.first(), stack, x, y, un, bin), x, y, un, bin)
    }
}

/// The number of operands a step takes from the stack.
pub open spec fn step_need(s: Step) -> nat {
    match s {
        Step::Push(_) => 0,
        Step::Apply1(_) => 1,
        Step::Apply2(_) => 2,
    }
}

/// Whether a plan can run on `stack` to the end without an operator finding
/// too few operands.
pub open spec fn steps_safe<V>(
    p: Seq<Step>,
    stack: Seq<V>,
    x: V,
    y: V,
    un: spec_fn(UnaryOp, V) -> V,
    bin: spec_fn(BinaryOp, V, V) -> V,
) -> bool
    decreases p.len(),
{
    if p.len() == 0 {
        true
    } else {
        step_need(p.first()) <= stack.len() && steps_safe(
            p.drop_first(),
            step_stack(p.first(), stack, x, y, un, bin),
            x,
            y,
            un,
            bin,
        )
    }
}

/// Running two plans in sequence runs the first, then the second on what the
/// first left behind.
proof fn lemma_run_append<V>(
    p1: Seq<Step>,
    p2: Seq<Step>,
    stack: Seq<V>,
    x: V,
    y: V,
    un: spec_fn(UnaryOp, V) -> V,
    bin: spec_fn(BinaryOp, V, V) -> V,
)
    ensures
        run_steps(p1 + p2, stack, x, y, un, bin) == run_steps(
            p2,
            run_steps(p1, stack, x, y, un, bin),
            x,
            y,
            un,
            bin,
        ),
    decreases p1.len(),
{
    if p1.len() == 0 {
        assert(p1 + p2 =~= p2);
    } else {
        assert((p1 + p2).first() == p1.first());
        assert((p1 + p2).drop_first() =~= p1.drop_first() + p2);
        lemma_run_append(
            p1.drop_first(),
            p2,
            step_stack(p1.first(), stack, x, y, un, bin),
            x,
            y,
            un,
            bin,
        );
    }
}

/// Law: the plan machine agrees with the tree. Running a tree's postorder
/// plan on any stack, over any value domain and any operator meanings,
/// pushes exactly the tree's recursively evaluated value, so evaluation is a
/// function of the tree, the coordinates and the operator meanings alone.
pub proof fn lemma_plan_evaluates_tree<V>(
    e: Expression,
    stack: Seq<V>,
    x: V,
    y: V,
    un: spec_fn(UnaryOp, V) -> V,
    bin: spec_fn(BinaryOp, V, V) -> V,
)
    ensures
        run_steps(plan_of(e), stack, x, y, un, bin) == stack.push(tree_value(e, x, y, un, bin)),
    decreases e,
{
    match e {
        Expression::Terminal(v) => {
            let p = plan_of(e);
            assert(p.len() == 1);
            assert(p.first() == Step::Push(v));
            assert(p.drop_first() =~= Seq::<Step>::empty());
            match v {
                Value::X => {
                    assert(step_stack(Step::Push(v), stack, x, y, un, bin) == stack.push(x));
                    assert(run_steps(Seq::<Step>::empty(), stack.push(x), x, y, un, bin)
                        == stack.push(x));
                    assert(run_steps(p, stack, x, y, un, bin) == stack.push(x));
                    assert(tree_value(e, x, y, un, bin) == x);
                },
                Value::Y => {
                    assert(step_stack(Step::Push(v), stack, x, y, un, bin) == stack.push(y));
                    assert(run_steps(Seq::<Step>::empty(), stack.push(y), x, y, un, bin)
                        == stack.push(y));
                    assert(run_steps(p, stack, x, y, un, bin) == stack.push(y));
                    assert(tree_value(e, x, y, un, bin) == y);
                },
            }
            assert(run_steps(plan_of(e), stack, x, y, un, bin) == stack.push(tree_value(e, x, y, un, bin)));
        },
        Expression::Unary(op, c) => {
            lemma_plan_evaluates_tree(*c, stack, x, y, un, bin);
            lemma_run_append(plan_of(*c), seq![Step::Apply1(op)], stack, x, y, un, bin);
            let s1 = stack.push(tree_value(*c, x, y, un, bin));
            assert(s1.drop_last() =~= stack);
            let top = un(op, tree_value(*c, x, y, un, bin));
            assert(step_stack(Step::Apply1(op), s1, x, y, un, bin) == stack.push(top));
            assert(seq![Step::Apply1(op)].drop_first() =~= Seq::<Step>::empty());
            assert(run_steps(Seq::<Step>::empty(), stack.push(top), x, y, un, bin)
                == stack.push(top));
            assert(run_steps(seq![Step::Apply1(op)], s1, x, y, un, bin) == stack.push(top));
            assert(tree_value(e, x, y, un, bin) == top);
            assert(run_steps(plan_of(e), stack, x, y, un, bin) == stack.push(tree_value(e, x, y, un, bin)));
        },
        Expression::Binary(op, l, r) => {
            let tl = tree_value(*l, x, y, un, bin);
            let tr = tree_value(*r, x, y, un, bin);
            let s1 = stack.push(tl);
            let s2 = s1.push(tr);
            lemma_plan_evaluates_tree(*l, stack, x, y, un, bin);
            lemma_plan_evaluates_tree(*r, s1, x, y, un, bin);
            assert(plan_of(e) =~= plan_of(*l) + (plan_of(*r) + seq![Step::Apply2(op)]));
            lemma_run_append(
                plan_of(*l),
                plan_of(*r) + seq![Step::Apply2(op)],
                stack,
                x,
                y,
                un,
                bin,
            );
            lemma_run_append(plan_of(*r), seq![Step::Apply2(op)], s1, x, y, un, bin);
            assert(s2.subrange(0, s2.len() - 2) =~= stack);
            assert(s2[s2.len() - 2] == tl);
            assert(s2[s2.len() - 1] == tr);
            let top = bin(op, tl, tr);
            assert(step_stack(Step::Apply2(op), s2, x, y, un, bin) == stack.push(top));
            assert(seq![Step::Apply2(op)].drop_first() =~= Seq::<Step>::empty());
            assert(run_steps(Seq::<Step>::empty(), stack.push(top), x, y, un, bin)
                == stack.push(top));
            assert(run_steps(seq![Step::Apply2(op)], s2, x, y, un, bin) == stack.push(top));
            assert(tree_value(e, x, y, un, bin) == top);
            assert(run_steps(plan_of(e), stack, x, y, un, bin) == stack.push(tree_value(e, x, y, un, bin)));
        },
    }
}

/// Two plans in sequence are safe exactly when the first is safe and the
/// second is safe on what the first left behind.
proof fn lemma_steps_safe_append<V>(
    p1: Seq<Step>,
    p2: Seq<Step>,
    stack: Seq<V>,
    x: V,
    y: V,
    un: spec_fn(UnaryOp, V) -> V,
    bin: spec_fn(BinaryOp, V, V) -> V,
)
    ensures
        steps_safe(p1 + p2, stack, x, y, un, bin) == (steps_safe(p1, stack, x, y, un, bin)
            && steps_safe(p2, run_steps(p1, stack, x, y, un, bin), x, y, un, bin)),
    decreases p1.len(),
{
    if p1.len() == 0 {
        assert(p1 + p2 =~= p2);
    } else {
        assert((p1 + p2).first() == p1.first());
        assert((p1 + p2).drop_first() =~= p1.drop_first() + p2);
        lemma_steps_safe_append(
            p1.drop_first(),
            p2,
            step_stack(p1.first(), stack, x, y, un, bin),
            x,
            y,
            un,
            bin,
        );
    }
}

/// Law: a tree's plan never runs short. On any starting stack, over any
/// value domain and operator meanings, every operator application in the
/// plan finds the operands it needs, so an executor that substitutes and
/// applies step by step never underflows and, by `lemma_plan_evaluates_tree`,
/// leaves exactly one more value than it started with.
pub proof fn lemma_plan_never_runs_short<V>(
    e: Expression,
    stack: Seq<V>,
    x: V,
    y: V,
    un: spec_fn(UnaryOp, V) -> V,
    bin: spec_fn(BinaryOp, V, V) -> V,
)
    ensures
        steps_safe(plan_of(e), stack, x, y, un, bin),
    decreases e,
{
    match e {
        Expression::Terminal(v) => {
            let p = plan_of(e);
            assert(p.first() == Step::Push(v));
            assert(p.drop_first() =~= Seq::<Step>::empty());
            match v {
                Value::X => {
                    assert(steps_safe(Seq::<Step>::empty(), stack.push(x), x, y, un, bin));
                },
                Value::Y => {
                    assert(steps_safe(Seq::<Step>::empty(), stack.push(y), x, y, un, bin));
                },
            }
            assert(steps_safe(p, stack, x, y, un, bin));
        },
        Expression::Unary(op, c) => {
            lemma_plan_never_runs_short(*c, stack, x, y, un, bin);
            lemma_plan_evaluates_tree(*c, stack, x, y, un, bin);
            lemma_steps_safe_append(plan_of(*c), seq![Step::Apply1(op)], stack, x, y, un, bin);
            let s1 = stack.push(tree_value(*c, x, y, un, bin));
            let stepped = step_stack(Step::Apply1(op), s1, x, y, un, bin);
            assert(seq![Step::Apply1(op)].first() == Step::Apply1(op));
            assert(seq![Step::Apply1(op)].drop_first() =~= Seq::<Step>::empty());
            assert(steps_safe(Seq::<Step>::empty(), stepped, x, y, un, bin));
            assert(s1.len() >= 1);
            assert(steps_safe(seq![Step::Apply1(op)], s1, x, y, un, bin));
        },
        Expression::Binary(op, l, r) => {
            let tl = tree_value(*l, x, y, un, bin);
            let tr = tree_value(*r, x, y, un, bin);
            let s1 = stack.push(tl);
            let s2 = s1.push(tr);
            lemma_plan_never_runs_short(*l, stack, x, y, un, bin);
            lemma_plan_evaluates_tree(*l, stack, x, y, un, bin);
            lemma_plan_never_runs_short(*r, s1, x, y, un, bin);
            lemma_plan_evaluates_tree(*r, s1, x, y, un, bin);
            assert(plan_of(e) =~= plan_of(*l) + (plan_of(*r) + seq![Step::Apply2(op)]));
            lemma_steps_safe_append(
                plan_of(*l),
                plan_of(*r) + seq![Step::Apply2(op)],
                stack,
                x,
                y,
                un,
                bin,
            );
            lemma_steps_safe_append(plan_of(*r), seq![Step::Apply2(op)], s1, x, y, un, bin);
            let stepped = step_stack(Step::Apply2(op), s2, x, y, un, bin);
            assert(seq![Step::Apply2(op)].first() == Step::Apply2(op));
            assert(seq![Step::Apply2(op)].drop_first() =~= Seq::<Step>::empty());
            assert(steps_safe(Seq::<Step>::empty(), stepped, x, y, un, bin));
            assert(s2.len() >= 2);
            assert(steps_safe(seq![Step::Apply2(op)], s2, x, y, un, bin));
        },
    }
}

/// Law: a terminal bound to X evaluates to the first coordinate, and one
/// bound to Y to the second, under any operator meanings.
pub proof fn lemma_terminal_evaluates_to_coordinate<V>(
    x: V,
    y: V,
    un: spec_fn(UnaryOp, V) -> V,
    bin: spec_fn(BinaryOp, V, V) -> V,
)
    ensures
        tree_value(Expression::Terminal(Value::X), x, y, un, bin) == x,
        tree_value(Expression::Terminal(Value::Y), x, y, un, bin) == y,
{
}

/// The terminal value a draw selects: a zero draw binds X, any other binds Y.
pub open spec fn value_for_draw(d: u32) -> Value {
    if d == 0 {
        Value::X
    } else {
        Value::Y
    }
}

/// The terminal value for the draw `d`, as executable code.
pub fn value_for(d: u32) -> (v: Value)
    ensures
        v == value_for_draw(d),
{
    if d == 0 {
        Value::X
    } else {
        Value::Y
    }
}

/// The operator kind a draw below seven selects.
pub open spec fn opcode_for_draw(k: u32) -> Opcode {
    if k == 0 {
        Opcode::Substitute
    } else if k == 1 {
        Opcode::Mult
    } else if k == 2 {
        Opcode::Average
    } else if k == 3 {
        Opcode::Sin
    } else if k == 4 {
        Opcode::Cos
    } else if k == 5 {
        Opcode::ScaledSigmoid
    } else {
        Opcode::Sqrt
    }
}

/// Draws a terminal's bound coordinate, X or Y with equal weight.
fn draw_value<R: RandomSource>(rng: &mut R) -> Value {
    let d = rng.next_below(2);
    value_for(d)
}

impl Expression {
    /// Builds the node that the operator draw `k` selects: a drawn
    /// `Substitute` ends the branch in a terminal at once, whatever depth
    /// budget is left; any other kind constructs its one or two children
    /// independently from the next draws, each with one level less of budget.
    pub fn node_for<R: RandomSource>(k: u32, max_depth: usize, rng: &mut R) -> (e: Expression)
        requires
            k < 7,
            1 <= max_depth,
        ensures
            depth_of(e) <= max_depth,
            opcode_of(e) == opcode_for_draw(k),
        decreases max_depth, 0int,
    {
        if k == 0 {
            Expression::Terminal(draw_value(rng))
        } else if k == 1 {
            Expression::Binary(
                BinaryOp::Mult,
                Box::new(Expression::construct(max_depth - 1, rng)),
                Box::new(Expression::construct(max_depth - 1, rng)),
            )
        } else if k == 2 {
            Expression::Binary(
                BinaryOp::Average,
                Box::new(Expression::construct(max_depth - 1, rng)),
                Box::new(Expression::construct(max_depth - 1, rng)),
            )
        } else if k == 3 {
            Expression::Unary(UnaryOp::Sin, Box::new(Expression::construct(max_depth - 1, rng)))
        } else if k == 4 {
            Expression::Unary(UnaryOp::Cos, Box::new(Expression::construct(max_depth - 1, rng)))
        } else if k == 5 {
            Expression::Unary(
                UnaryOp::ScaledSigmoid,
                Box::new(Expression::construct(max_depth - 1, rng)),
            )
        } else {
            Expression::Unary(UnaryOp::Sqrt, Box::new(Expression::construct(max_depth - 1, rng)))
        }
    }

    /// Randomized, depth-bounded construction. With no depth budget left the
    /// node is a terminal bound to the value the next draw selects; otherwise
    /// one of the seven operator kinds is drawn with equal weight and the
    /// node the draw selects is built by `node_for`. Construction always
    /// succeeds, and the tree never exceeds `max_depth`.
    pub fn construct<R: RandomSource>(max_depth: usize, rng: &mut R) -> (e: Expression)
        ensures
            depth_of(e) <= max_depth,
            max_depth == 0 ==> e is Terminal,
        decreases max_depth, 1int,
    {
        if max_depth == 0 {
            Expression::Terminal(draw_value(rng))
        } else {
            let k = rng.next_below(7);
            Expression::node_for(k, max_depth, rng)
        }
    }

    /// Construction from the thread-local random source.
    pub fn new(depth: usize) -> (e: Expression)
        ensures
            depth_of(e) <= depth,
            depth == 0 ==> e is Terminal,
    {
        let mut rng = ThreadRandom {};
        Expression::construct(depth, &mut rng)
    }

    /// Appends this tree's postorder plan to `out`.
    fn emit(&self, out: &mut Vec<Step>)
        ensures
            final(out)@ == old(out)@ + plan_of(*self),
        decreases *self,
    {
        match self {
            Expression::Terminal(v) => {
                out.push(Step::Push(*v));
                assert(out@ =~= old(out)@ + plan_of(*self));
            },
            Expression::Unary(op, c) => {
                c.emit(out);
                out.push(Step::Apply1(*op));
                assert(out@ =~= old(out)@ + plan_of(*self));
            },
            Expression::Binary(op, l, r) => {
                l.emit(out);
                r.emit(out);
                out.push(Step::Apply2(*op));
                assert(out@ =~= old(out)@ + plan_of(*self));
            },
        }
    }

    /// The tree's evaluation plan: the sequence of substitutions and
    /// operator applications that computes the tree's value bottom-up, in
    /// postorder. Running it on an empty stack never runs short of operands
    /// (`lemma_plan_never_runs_short`) and leaves exactly the tree's value
    /// (`lemma_plan_evaluates_tree`), whatever meaning the runner gives the
    /// operators.
    pub fn plan(&self) -> (p: Vec<Step>)
        ensures
            p@ == plan_of(*self),
    {
        let mut out: Vec<Step> = Vec::new();
        self.emit(&mut out);
        assert(out@ =~= plan_of(*self));
        out
    }

    /// The tree's depth, as an executable value.
    pub fn height(&self) -> (h: u64)
        requires
            depth_of(*self) <= u64::MAX,
        ensures
            h as nat == depth_of(*self),
        decreases *self,
    {
        match self {
            Expression::Terminal(_) => 0,
            Expression::Unary(_, c) => 1 + c.height(),
            Expression::Binary(_, l, r) => {
                let hl = l.height();
                let hr = r.height();
                let m = if hl >= hr {
                    hl
                } else {
                    hr
                };
                1 + m
            },
        }
    }
}

} // verus!
