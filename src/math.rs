//! The grammar of a small arithmetic language with assignment: its tokens
//! and its rules, as configuration of the lexer and the parser.

use vstd::prelude::*;
use crate::lambda::Lambda;
use crate::lambda::LambdaView;
use crate::parser::{Parser, ParserDef};
use crate::syntax::{expr_text, exprs_text};
use crate::syntax::Expression;
use crate::token::Lexer;

verus! {

/// A reference to the rule `name`.
fn rule(name: &str) -> (r: Expression)
    ensures
        r matches Expression::Expr(n) && n@ == name@,
{
    Expression::Expr(name.to_owned())
}

/// A token of type `token_type`, with `value` where that is not empty.
fn tok(token_type: &str, value: &str) -> (r: Expression)
    ensures
        r matches Expression::Token(t, v) && t@ == token_type@ && v@ == value@,
{
    Expression::Token(token_type.to_owned(), value.to_owned())
}

/// A call of the operation `name` on the children at `args`.
fn call(name: &str, args: Vec<u32>) -> (r: Lambda)
    ensures
        r matches Lambda::Lambda(n, a) && n@ == name@ && a == args,
{
    Lambda::Lambda(name.to_owned(), args)
}

/// The tokens: operators and parentheses, decimal numbers, whole numbers,
/// assignment signs and identifiers.
pub fn lexer() -> (r: Lexer)
    ensures
        r.wf(),
{
    let mut lexer = Lexer::new();
    let _ = lexer.define("op", "\\+|\\-|\\*|\\/|\\(|\\)");
    let _ = lexer.define("float", "[0-9]+\\.[0-9]+");
    let _ = lexer.define("int", "[0-9]+");
    let _ = lexer.define("assign", "\\:\\=|\\=");
    let _ = lexer.define("ident", "[a-zA-Z_]+");
    lexer
}

/// The rules: an expression is an assignment or a sum; sums, products and
/// quotients nest to the right; a value is a parenthesised sum, a number or
/// a variable.
pub fn parser() -> (r: Parser)
    ensures
        r.wf(),
        r.names() == seq!["EXPR"@, "ASSIGN"@, "IDENT"@, "MATH:EXPR"@, "TERM"@, "FACTOR"@, "VALUE"@, "NUM"@, "VAR"@],
        // an expression is an assignment or a sum, by default evaluation
        expr_text(r.defs()[0].expr) == "[ ASSIGN | MATH:EXPR ]"@,
        r.defs()[0].lambda@ == LambdaView::Eval,
{
    proof {
        reveal_strlit("EXPR");
        reveal_strlit("ASSIGN");
        reveal_strlit("IDENT");
        reveal_strlit("MATH:EXPR");
        reveal_strlit("TERM");
        reveal_strlit("FACTOR");
        reveal_strlit("VALUE");
        reveal_strlit("NUM");
        reveal_strlit("VAR");
        reveal_strlit("[ ASSIGN | MATH:EXPR ]");
    }
    let mut parser = Parser::new();
    parser.define("EXPR", rule("MATH:EXPR"), Lambda::Eval);
    assert(parser.names() =~= seq!["EXPR"@]);
    let a = rule("ASSIGN");
    let m = rule("MATH:EXPR");
    let expr = Expression::ExprOr(vec![a, m]);
    let ghost first = expr;
    proof {
        let es = first->ExprOr_0@;
        assert(es.len() == 2);
        assert(es.drop_last() =~= seq![es[0]]);
        assert(expr_text(es[0]) == "ASSIGN"@);
        assert(expr_text(es[1]) == "MATH:EXPR"@);
        let sep = seq![' ', '|', ' '];
        assert(exprs_text(seq![es[0]], sep) == "ASSIGN"@);
        assert(exprs_text(es, sep) == "ASSIGN"@ + sep + "MATH:EXPR"@);
        assert(expr_text(first) == seq!['[', ' '] + exprs_text(es, sep) + seq![' ', ']']);
        assert(expr_text(first) =~= "[ ASSIGN | MATH:EXPR ]"@);
    }
    parser.define("EXPR", expr, Lambda::Eval);
    proof {
        assert("ASSIGN"@.len() != "EXPR"@.len());
    }
    assert(parser.names() =~= seq!["EXPR"@]);
    parser.define(
        "ASSIGN",
        Expression::SubExpr(vec![rule("IDENT"), tok("assign", ""), rule("MATH:EXPR")]),
        call("SET_IDENT", vec![1, 3]),
    );
    proof {
        assert("IDENT"@.len() != "EXPR"@.len());
        assert("IDENT"@.len() != "ASSIGN"@.len());
    }
    assert(parser.names() =~= seq!["EXPR"@, "ASSIGN"@]);
    parser.define("IDENT", tok("ident", ""), Lambda::EvalToken);
    proof {
        assert("MATH:EXPR"@.len() != "EXPR"@.len());
        assert("MATH:EXPR"@.len() != "ASSIGN"@.len());
        assert("MATH:EXPR"@.len() != "IDENT"@.len());
    }
    assert(parser.names() =~= seq!["EXPR"@, "ASSIGN"@, "IDENT"@]);
    parser.define(
        "MATH:EXPR",
        Expression::ExprOr(
            vec![
                Expression::SubExpr(vec![rule("TERM"), tok("op", "+"), rule("MATH:EXPR")]),
                Expression::SubExpr(vec![rule("TERM"), tok("op", "-"), rule("MATH:EXPR")]),
                rule("TERM"),
            ],
        ),
        Lambda::LambdaOr(vec![call("ADD", vec![1, 3]), call("SUB", vec![1, 3]), Lambda::Eval]),
    );
    proof {
        assert("TERM"@[0] != "EXPR"@[0]);
        assert("TERM"@.len() != "ASSIGN"@.len());
        assert("TERM"@.len() != "IDENT"@.len());
        assert("TERM"@.len() != "MATH:EXPR"@.len());
    }
    assert(parser.names() =~= seq!["EXPR"@, "ASSIGN"@, "IDENT"@, "MATH:EXPR"@]);
    parser.define(
        "TERM",
        Expression::ExprOr(vec![Expression::SubExpr(vec![rule("FACTOR"), tok("op", "*"), rule("TERM")]), rule("FACTOR")]),
        Lambda::LambdaOr(vec![call("MULT", vec![1, 3]), Lambda::Eval]),
    );
    proof {
        assert("FACTOR"@.len() != "EXPR"@.len());
        assert("FACTOR"@[0] != "ASSIGN"@[0]);
        assert("FACTOR"@.len() != "IDENT"@.len());
        assert("FACTOR"@.len() != "MATH:EXPR"@.len());
        assert("FACTOR"@.len() != "TERM"@.len());
    }
    assert(parser.names() =~= seq!["EXPR"@, "ASSIGN"@, "IDENT"@, "MATH:EXPR"@, "TERM"@]);
    parser.define(
        "FACTOR",
        Expression::ExprOr(vec![Expression::SubExpr(vec![rule("VALUE"), tok("op", "/"), rule("FACTOR")]), rule("VALUE")]),
        Lambda::LambdaOr(vec![call("DIV", vec![1, 3]), Lambda::Eval]),
    );
    proof {
        assert("VALUE"@.len() != "EXPR"@.len());
        assert("VALUE"@.len() != "ASSIGN"@.len());
        assert("VALUE"@[0] != "IDENT"@[0]);
        assert("VALUE"@.len() != "MATH:EXPR"@.len());
        assert("VALUE"@.len() != "TERM"@.len());
        assert("VALUE"@.len() != "FACTOR"@.len());
    }
    assert(parser.names() =~= seq!["EXPR"@, "ASSIGN"@, "IDENT"@, "MATH:EXPR"@, "TERM"@, "FACTOR"@]);
    parser.define(
        "VALUE",
        Expression::ExprOr(
            vec![
                Expression::SubExpr(vec![tok("op", "("), rule("MATH:EXPR"), tok("op", ")")]),
                rule("NUM"),
                rule("VAR"),
            ],
        ),
        Lambda::LambdaOr(vec![Lambda::GetExpr(2, Box::new(Lambda::Eval)), Lambda::Eval, Lambda::Eval]),
    );
    proof {
        assert("NUM"@.len() != "EXPR"@.len());
        assert("NUM"@.len() != "ASSIGN"@.len());
        assert("NUM"@.len() != "IDENT"@.len());
        assert("NUM"@.len() != "MATH:EXPR"@.len());
        assert("NUM"@.len() != "TERM"@.len());
        assert("NUM"@.len() != "FACTOR"@.len());
        assert("NUM"@.len() != "VALUE"@.len());
    }
    assert(parser.names() =~= seq!["EXPR"@, "ASSIGN"@, "IDENT"@, "MATH:EXPR"@, "TERM"@, "FACTOR"@, "VALUE"@]);
    parser.define(
        "NUM",
        Expression::ExprOr(vec![tok("float", ""), tok("int", "")]),
        Lambda::LambdaOr(vec![Lambda::EvalAs("FLOAT".to_owned()), Lambda::EvalAs("INTEGER".to_owned())]),
    );
    proof {
        assert("VAR"@.len() != "EXPR"@.len());
        assert("VAR"@.len() != "ASSIGN"@.len());
        assert("VAR"@.len() != "IDENT"@.len());
        assert("VAR"@.len() != "MATH:EXPR"@.len());
        assert("VAR"@.len() != "TERM"@.len());
        assert("VAR"@.len() != "FACTOR"@.len());
        assert("VAR"@.len() != "VALUE"@.len());
        assert("VAR"@[0] != "NUM"@[0]);
    }
    assert(parser.names() =~= seq!["EXPR"@, "ASSIGN"@, "IDENT"@, "MATH:EXPR"@, "TERM"@, "FACTOR"@, "VALUE"@, "NUM"@]);
    parser.define("VAR", Expression::SubExpr(vec![rule("IDENT")]), call("GET_IDENT", vec![1]));
    assert(parser.names() =~= seq!["EXPR"@, "ASSIGN"@, "IDENT"@, "MATH:EXPR"@, "TERM"@, "FACTOR"@, "VALUE"@, "NUM"@, "VAR"@]);
    proof {
        assert(parser.names()[0] == "EXPR"@);
        assert(parser.defs()[0] == (ParserDef { expr: first, lambda: Lambda::Eval }));
    }
    parser
}

} // verus!
