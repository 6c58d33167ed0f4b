use random_art::expression::{BinaryOp, Expression, Step, UnaryOp, Value};
use random_art::random::ScriptedRandom;

// A reference executor for evaluation plans over f32, mirroring the pixel
// driver: push a coordinate, or apply an operator to the topmost values.
fn run(plan: &[Step], x: f32, y: f32) -> f32 {
    let mut stack: Vec<f32> = Vec::new();
    for step in plan {
        match step {
            Step::Push(Value::X) => stack.push(x),
            Step::Push(Value::Y) => stack.push(y),
            Step::Apply1(op) => {
                let v = stack.pop().expect("plan ran short of operands");
                stack.push(match op {
                    UnaryOp::Sin => (v * std::f32::consts::PI).sin(),
                    UnaryOp::Cos => (v * std::f32::consts::PI).cos(),
                    UnaryOp::ScaledSigmoid => 2. / (1. + (-v).exp()) - 1.,
                    UnaryOp::Sqrt => v.abs().sqrt(),
                });
            }
            Step::Apply2(op) => {
                let b = stack.pop().expect("plan ran short of operands");
                let a = stack.pop().expect("plan ran short of operands");
                stack.push(match op {
                    BinaryOp::Mult => a * b,
                    BinaryOp::Average => (a + b) / 2.,
                });
            }
        }
    }
    stack.pop().expect("plan left no value")
}

fn terminal(v: Value) -> Expression {
    Expression::Terminal(v)
}

fn unary(op: UnaryOp, c: Expression) -> Expression {
    Expression::Unary(op, Box::new(c))
}

fn binary(op: BinaryOp, l: Expression, r: Expression) -> Expression {
    Expression::Binary(op, Box::new(l), Box::new(r))
}

#[test]
fn plan_of_terminal_is_one_push() {
    assert_eq!(terminal(Value::X).plan(), vec![Step::Push(Value::X)]);
    assert_eq!(terminal(Value::Y).plan(), vec![Step::Push(Value::Y)]);
}

#[test]
fn plan_is_postorder() {
    let e = binary(
        BinaryOp::Mult,
        terminal(Value::X),
        unary(UnaryOp::Sqrt, terminal(Value::Y)),
    );
    assert_eq!(
        e.plan(),
        vec![
            Step::Push(Value::X),
            Step::Push(Value::Y),
            Step::Apply1(UnaryOp::Sqrt),
            Step::Apply2(BinaryOp::Mult),
        ]
    );
}

#[test]
fn terminal_x_evaluates_to_x() {
    let p = terminal(Value::X).plan();
    assert_eq!(run(&p, 0.3, 0.7), 0.3);
    assert_eq!(run(&p, -2.5, 9.0), -2.5);
}

#[test]
fn terminal_y_evaluates_to_y() {
    let p = terminal(Value::Y).plan();
    assert_eq!(run(&p, 0.3, 0.7), 0.7);
    assert_eq!(run(&p, 1.0, -8.25), -8.25);
}

#[test]
fn scripted_terminal_evaluates_to_x() {
    // A scripted source forces the bound value to X; the tree then returns
    // the first coordinate.
    let mut rng = ScriptedRandom::new(vec![0]);
    let e = Expression::construct(0, &mut rng);
    assert_eq!(run(&e.plan(), 0.3, 0.7), 0.3);
}

#[test]
fn mult_of_x_and_y_multiplies() {
    let e = binary(BinaryOp::Mult, terminal(Value::X), terminal(Value::Y));
    assert_eq!(run(&e.plan(), 2.0, 3.0), 6.0);
}

#[test]
fn average_of_x_and_y() {
    let e = binary(BinaryOp::Average, terminal(Value::X), terminal(Value::Y));
    assert_eq!(run(&e.plan(), 2.0, 3.0), 2.5);
}

#[test]
fn sine_of_half_is_one() {
    let e = unary(UnaryOp::Sin, terminal(Value::X));
    assert_eq!(run(&e.plan(), 0.5, 0.0), 1.0);
}

#[test]
fn cosine_of_one_is_minus_one() {
    let e = unary(UnaryOp::Cos, terminal(Value::X));
    assert_eq!(run(&e.plan(), 1.0, 0.0), -1.0);
}

#[test]
fn scaled_sigmoid_at_zero_is_zero() {
    let e = unary(UnaryOp::ScaledSigmoid, terminal(Value::X));
    assert_eq!(run(&e.plan(), 0.0, 123.0), 0.0);
    assert_eq!(run(&e.plan(), 0.0, -55.5), 0.0);
}

#[test]
fn scaled_sigmoid_stays_within_unit_interval() {
    let e = unary(UnaryOp::ScaledSigmoid, terminal(Value::X));
    let p = e.plan();
    for x in [-10.0f32, -1.0, -0.25, 0.5, 1.0, 10.0] {
        let r = run(&p, x, 0.0);
        assert!(-1.0 < r && r < 1.0);
    }
}

#[test]
fn sqrt_output_is_nonnegative() {
    let e = unary(UnaryOp::Sqrt, terminal(Value::X));
    let p = e.plan();
    for x in [-4.0f32, -1.0, -0.5, 0.0, 2.25, 9.0] {
        assert!(run(&p, x, 0.0) >= 0.0);
    }
    assert_eq!(run(&p, -4.0, 0.0), 2.0);
    assert_eq!(run(&p, 2.25, 0.0), 1.5);
}

#[test]
fn evaluation_is_deterministic() {
    let mut rng = ScriptedRandom::new(vec![1, 3, 2, 5, 0, 1, 6, 4, 0, 0, 1, 0]);
    let e = Expression::construct(5, &mut rng);
    let p = e.plan();
    let a = run(&p, 0.125, -0.375);
    let b = run(&p, 0.125, -0.375);
    assert_eq!(a.to_bits(), b.to_bits());
}

#[test]
fn random_tree_plan_runs_to_a_single_value() {
    for depth in 0..7 {
        let e = Expression::new(depth);
        let p = e.plan();
        assert!(!p.is_empty());
        // The executor panics if a plan runs short of operands or leaves no
        // value; a constructed tree's plan must do neither.
        let _ = run(&p, 0.25, -0.25);
    }
}
