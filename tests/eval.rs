use interpreter::math;
use interpreter::{
    apply_int, eval_as, report, Exec, Executor, IntOutcome, Lambda, LineReader, NodeType, NodeValue, Operator, ReadPointer,
    Real, StateNode, Token, TreeNode, VirtualEnv,
};

#[derive(Debug, Clone, Copy, PartialEq)]
struct Narrow(f32);

#[derive(Debug, Clone, Copy, PartialEq)]
struct Wide(f64);

impl Real for Narrow {
    fn parse_text(text: &str) -> Option<Self> {
        text.parse::<f32>().ok().map(Narrow)
    }
    fn to_text(&self) -> String {
        self.0.to_string()
    }
    fn is_zero(&self) -> bool {
        self.0 == 0.0
    }
    fn apply(&self, op: Operator, other: &Self) -> Self {
        Narrow(match op {
            Operator::Add => self.0 + other.0,
            Operator::Sub => self.0 - other.0,
            Operator::Mul => self.0 * other.0,
            Operator::Div => self.0 / other.0,
        })
    }
    fn ratio(a: i128, b: i128) -> Self {
        Narrow(a as f32 / b as f32)
    }
}

impl Real for Wide {
    fn parse_text(text: &str) -> Option<Self> {
        text.parse::<f64>().ok().map(Wide)
    }
    fn to_text(&self) -> String {
        self.0.to_string()
    }
    fn is_zero(&self) -> bool {
        self.0 == 0.0
    }
    fn apply(&self, op: Operator, other: &Self) -> Self {
        Wide(match op {
            Operator::Add => self.0 + other.0,
            Operator::Sub => self.0 - other.0,
            Operator::Mul => self.0 * other.0,
            Operator::Div => self.0 / other.0,
        })
    }
    fn ratio(a: i128, b: i128) -> Self {
        Wide(a as f64 / b as f64)
    }
}

type Num = NodeValue<Narrow, Wide>;

type Op = fn(Exec<Num>) -> StateNode<Num>;

fn binary(e: Exec<Num>, op: Operator) -> StateNode<Num> {
    match e {
        Exec::BinOp(lhs, rhs) => StateNode::operator(lhs, rhs, op),
        _ => StateNode::RuntimeErr("bad arguments".to_string()),
    }
}

fn add(e: Exec<Num>) -> StateNode<Num> {
    binary(e, Operator::Add)
}

fn sub(e: Exec<Num>) -> StateNode<Num> {
    binary(e, Operator::Sub)
}

fn mult(e: Exec<Num>) -> StateNode<Num> {
    binary(e, Operator::Mul)
}

fn div(e: Exec<Num>) -> StateNode<Num> {
    binary(e, Operator::Div)
}

fn integer(e: Exec<Num>) -> StateNode<Num> {
    match e {
        Exec::Root(StateNode::Node(node)) => eval_as(&node, NodeType::Integer),
        _ => StateNode::RuntimeErr("bad arguments".to_string()),
    }
}

fn int_env() -> VirtualEnv<Num, Op> {
    let mut env: VirtualEnv<Num, Op> = VirtualEnv::new();
    env.define("ADD", add as Op);
    env.define("SUB", sub as Op);
    env.define("MULT", mult as Op);
    env.define("DIV", div as Op);
    env.define("INTEGER", integer as Op);
    env
}

fn run(text: &str) -> Result<String, String> {
    let executor = Executor::new(math::lexer(), math::parser(), int_env());
    let mut reader = LineReader::new(text);
    executor.exec(&mut reader)
}

#[test]
fn parenthesised_sum_times_four() {
    assert_eq!(run("(2+3)*4"), Ok("20".to_string()));
}

#[test]
fn arithmetic_nests_to_the_right() {
    assert_eq!(run("1+2*3"), Ok("7".to_string()));
    assert_eq!(run("10-4-3"), Ok("9".to_string()));
    assert_eq!(run("6/2"), Ok("3".to_string()));
}

#[test]
fn division_by_zero_is_an_error_value() {
    assert_eq!(run("1/0"), Err("Cannot divide by zero".to_string()));
    assert_eq!(run("(1/0)+2"), Err("Cannot divide by zero".to_string()));
}

#[test]
fn missing_operation_is_reported_by_name() {
    let mut env: VirtualEnv<Num, Op> = VirtualEnv::new();
    env.define("INTEGER", integer as Op);
    let executor = Executor::new(math::lexer(), math::parser(), env);
    let mut reader = LineReader::new("1+2");
    assert_eq!(executor.exec(&mut reader), Err("No lambda found for `ADD`".to_string()));
}

#[test]
fn variable_needs_its_operation() {
    assert_eq!(run("x"), Err("No lambda found for `GET_IDENT`".to_string()));
}

fn ident(e: Exec<Num>) -> StateNode<Num> {
    match e {
        Exec::UniOp(StateNode::Node(node)) => match &node.leaf {
            Some(t) if t.value == "answer" => StateNode::Value(NodeValue::Integer(42)),
            _ => StateNode::RuntimeErr("unknown".to_string()),
        },
        Exec::UniOp(other) => other,
        _ => StateNode::RuntimeErr("bad arguments".to_string()),
    }
}

#[test]
fn variable_is_looked_up_by_its_operation() {
    let mut env = int_env();
    env.define("GET_IDENT", ident as Op);
    let executor = Executor::new(math::lexer(), math::parser(), env);
    let mut reader = LineReader::new("answer*2");
    assert_eq!(executor.exec(&mut reader), Ok("84".to_string()));
}

fn set(e: Exec<Num>) -> StateNode<Num> {
    match e {
        Exec::BinOp(StateNode::Node(_), StateNode::Value(_)) => StateNode::NoValue,
        _ => StateNode::RuntimeErr("bad arguments".to_string()),
    }
}

#[test]
fn assignment_gives_no_value() {
    let mut env = int_env();
    env.define("SET_IDENT", set as Op);
    let executor = Executor::new(math::lexer(), math::parser(), env);
    let mut reader = LineReader::new("x=1+2");
    assert_eq!(executor.exec(&mut reader), Ok("None".to_string()));
}

#[test]
fn parse_failure_is_reported() {
    assert!(run("+").is_err());
}

fn leaf(value: &str, lambda: Lambda) -> TreeNode {
    let mut node = TreeNode::from_token(Token::new("int", value, ReadPointer::from_pos((0, 0, 0, 1), (0, 1))));
    node.set_lambda(&lambda);
    node
}

#[test]
fn default_instruction_needs_a_more_specific_one() {
    let env = int_env();
    let plain_leaf = leaf("1", Lambda::Eval);
    assert!(matches!(env.eval_node(&plain_leaf), StateNode::RuntimeErr(_)));
    let branch = TreeNode::from_nodes(vec![leaf("1", Lambda::EvalAs("INTEGER".to_string()))]);
    assert!(matches!(env.eval_node(&branch), StateNode::RuntimeErr(_)));
    // the default defers to the node's own instruction
    let typed = leaf("5", Lambda::EvalAs("INTEGER".to_string()));
    assert!(matches!(env.eval_lambda(&typed, &Lambda::Eval), StateNode::Value(NodeValue::Integer(5))));
}

#[test]
fn descend_evaluates_a_child_under_another_instruction() {
    let env = int_env();
    let branch = TreeNode::from_nodes(vec![leaf("8", Lambda::Eval), leaf("9", Lambda::Eval)]);
    let get = Lambda::GetExpr(2, Box::new(Lambda::EvalAs("INTEGER".to_string())));
    assert!(matches!(env.eval_lambda(&branch, &get), StateNode::Value(NodeValue::Integer(9))));
    let out_of_range = Lambda::GetExpr(3, Box::new(Lambda::Eval));
    assert!(matches!(env.eval_lambda(&branch, &out_of_range), StateNode::RuntimeErr(_)));
}

#[test]
fn operation_arguments_must_name_children() {
    let env = int_env();
    let branch = TreeNode::from_nodes(vec![leaf("8", Lambda::EvalAs("INTEGER".to_string()))]);
    let call = Lambda::Lambda("ADD".to_string(), vec![1, 2]);
    assert!(matches!(env.eval_lambda(&branch, &call), StateNode::RuntimeErr(_)));
}

#[test]
fn literal_instruction_hands_on_the_leaf() {
    let env = int_env();
    let node = leaf("4", Lambda::EvalToken);
    assert!(matches!(env.eval_node(&node), StateNode::Node(_)));
    let branch = TreeNode::from_nodes(vec![]);
    assert!(matches!(env.eval_lambda(&branch, &Lambda::EvalToken), StateNode::RuntimeErr(_)));
}

#[test]
fn report_writes_each_outcome() {
    assert_eq!(report::<Num>(StateNode::NoValue), Ok("None".to_string()));
    assert_eq!(report(StateNode::Value(Num::Integer(12))), Ok("12".to_string()));
    assert_eq!(report::<Num>(StateNode::RuntimeErr("bad".to_string())), Err("bad".to_string()));
    let node = TreeNode::from_nodes(vec![leaf("1", Lambda::Eval), leaf("2", Lambda::Eval)]);
    assert_eq!(report::<Num>(StateNode::Node(node)), Ok("Node Result: ( int:1 int:2 )".to_string()));
}

#[test]
fn state_node_as_value() {
    let node = leaf("1", Lambda::Eval);
    assert!(matches!(StateNode::<Num>::new(node).as_value(), StateNode::RuntimeErr(_)));
    assert!(matches!(StateNode::Value(Num::Integer(3)).as_value(), StateNode::Value(NodeValue::Integer(3))));
}

#[test]
fn integer_division_promotes_only_uneven_quotients() {
    assert_eq!(apply_int(Operator::Div, 6, 2, false), IntOutcome::Whole(3));
    assert_eq!(apply_int(Operator::Div, 7, 2, false), IntOutcome::Fraction);
    assert_eq!(apply_int(Operator::Div, -7, 7, false), IntOutcome::Whole(-1));
    assert_eq!(NodeType::float_of(NodeType::Integer), NodeType::Float);
    assert_eq!(NodeType::float_of(NodeType::BigInteger), NodeType::BigFloat);
}

#[test]
fn division_by_zero_in_every_integer_kind() {
    assert_eq!(apply_int(Operator::Div, 5, 0, false), IntOutcome::DivideByZero);
    assert_eq!(apply_int(Operator::Div, 0, 0, true), IntOutcome::DivideByZero);
    assert_eq!(apply_int(Operator::Div, -3, 0, true), IntOutcome::DivideByZero);
}

#[test]
fn integer_arithmetic_is_exact_or_overflows() {
    assert_eq!(apply_int(Operator::Add, 2, 3, false), IntOutcome::Whole(5));
    assert_eq!(apply_int(Operator::Sub, 2, 3, false), IntOutcome::Whole(-1));
    assert_eq!(apply_int(Operator::Mul, 4, 5, false), IntOutcome::Whole(20));
    assert_eq!(apply_int(Operator::Add, i32::MAX as i128, 1, false), IntOutcome::Overflow);
    assert_eq!(apply_int(Operator::Add, i32::MAX as i128, 1, true), IntOutcome::Whole(i32::MAX as i128 + 1));
    assert_eq!(apply_int(Operator::Div, i128::MIN, -1, true), IntOutcome::Overflow);
    assert_eq!(apply_int(Operator::Div, i32::MIN as i128, -1, false), IntOutcome::Overflow);
}

#[test]
fn promotion_takes_the_wider_kind_in_either_order() {
    assert_eq!(NodeType::common(NodeType::Integer, NodeType::BigFloat), Some(NodeType::BigFloat));
    assert_eq!(NodeType::common(NodeType::BigFloat, NodeType::Integer), Some(NodeType::BigFloat));
    assert_eq!(NodeType::common(NodeType::Integer, NodeType::BigInteger), Some(NodeType::BigInteger));
    assert_eq!(NodeType::common(NodeType::BigInteger, NodeType::Float), Some(NodeType::Float));
    assert_eq!(NodeType::common(NodeType::Float, NodeType::Float), Some(NodeType::Float));
    assert_eq!(NodeType::common(NodeType::String, NodeType::Integer), None);
    assert_eq!(NodeType::common(NodeType::String, NodeType::String), Some(NodeType::String));
    // grouping does not matter
    let left = NodeType::common(NodeType::common(NodeType::Integer, NodeType::Float).unwrap(), NodeType::BigInteger);
    let right = NodeType::common(NodeType::Integer, NodeType::common(NodeType::Float, NodeType::BigInteger).unwrap());
    assert_eq!(left, right);
}
