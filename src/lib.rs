//! A small language front-end: a backtracking grammar engine that turns text
//! into a syntax tree, and a tree-walking evaluator driven by the instruction
//! attached to each node.

pub mod pointer;
pub mod text;
pub mod pattern;
pub mod reader;
pub mod token;
pub mod lambda;
pub mod syntax;
pub mod parser;
pub mod exec;
pub mod value;
pub mod math;

pub use exec::{eval_as, report, Exec, Executor, StateNode, ValueText, VirtualEnv};
pub use lambda::{Lambda, OwnedLambda};
pub use parser::{ParseError, Parser, ParserDef};
pub use pointer::ReadPointer;
pub use reader::{LineReader, SizeType};
pub use syntax::{AbstractSyntaxTree, Expression, TreeNode};
pub use token::{Lexer, Token, TokenDef};
pub use value::{apply_int, IntOutcome, NodeType, NodeValue, Operator, Real};
