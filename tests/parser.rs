use interpreter::{Expression, Lambda, Lexer, LineReader, Parser, TreeNode};

fn tok(token_type: &str, value: &str) -> Expression {
    Expression::Token(token_type.to_string(), value.to_string())
}

fn rule(name: &str) -> Expression {
    Expression::Expr(name.to_string())
}

fn any(alternatives: Vec<Expression>) -> Expression {
    Expression::ExprOr(alternatives)
}

fn all(parts: Vec<Expression>) -> Expression {
    Expression::SubExpr(parts)
}

fn abc_lexer() -> Result<Lexer, String> {
    let mut lexer = Lexer::new();
    lexer.define("tok:a", "[a-c]+")?;
    lexer.define("tok:b", "[d-f]+")?;
    lexer.define("tok:c", "[g-i]+")?;
    Ok(lexer)
}

fn sum_lexer() -> Result<Lexer, String> {
    let mut lexer = Lexer::new();
    lexer.define("num", "[0-9]+")?;
    lexer.define("op", "\\+|\\(|\\)")?;
    Ok(lexer)
}

#[test]
fn test_get_expr_or() -> Result<(), String> {
    let lexer = abc_lexer()?;
    let mut parser = Parser::new();
    parser.define("EXPR", any(vec![tok("tok:a", ""), tok("tok:b", ""), tok("tok:c", "")]), Lambda::Eval);
    let mut reader = LineReader::new("abcdefghi");
    let ast_1 = parser.parse_tree(&lexer, &mut reader)?;
    let ast_2 = parser.parse_tree(&lexer, &mut reader)?;
    let ast_3 = parser.parse_tree(&lexer, &mut reader)?;
    let exp_1 = TreeNode::from_token(tok("tok:a", "abc").token());
    let exp_2 = TreeNode::from_token(tok("tok:b", "def").token());
    let exp_3 = TreeNode::from_token(tok("tok:c", "ghi").token());
    assert_eq!(exp_1.render(), ast_1.render(), "When trying to match ASTs:");
    assert_eq!(exp_2.render(), ast_2.render(), "When trying to match ASTs:");
    assert_eq!(exp_3.render(), ast_3.render(), "When trying to match ASTs:");
    Ok(())
}

#[test]
fn test_get_sub_expr() -> Result<(), String> {
    let lexer = sum_lexer()?;
    let mut parser = Parser::new();
    parser.define("EXPR", any(vec![all(vec![rule("NUM"), tok("op", "+"), rule("EXPR")]), rule("NUM")]), Lambda::Eval);
    parser.define("NUM", tok("num", ""), Lambda::Eval);
    let mut reader = LineReader::new("1+2+3");
    let ast = parser.parse_tree(&lexer, &mut reader)?;
    let exp = TreeNode::from_expr(&any(vec![
        tok("num", "1"),
        tok("op", "+"),
        all(vec![tok("num", "2"), tok("op", "+"), tok("num", "3")]),
    ]));
    assert_eq!(exp.render(), ast.render(), "When trying to match ASTs:");
    Ok(())
}

#[test]
fn test_get_expr() -> Result<(), String> {
    let mut lexer = Lexer::new();
    lexer.define("tok", "[a-z]+")?;
    lexer.define("op", "\\(|\\)")?;
    let mut parser = Parser::new();
    parser.define("EXPR", rule("NUM"), Lambda::Eval);
    parser.define("NUM", tok("tok", ""), Lambda::Eval);
    let mut reader = LineReader::new("token");
    let ast = parser.parse_tree(&lexer, &mut reader)?;
    let exp = TreeNode::from_token(tok("tok", "token").token());
    assert_eq!(exp.render(), ast.render(), "When trying to match ASTs:");
    Ok(())
}

#[test]
fn test_get_token() -> Result<(), String> {
    let mut lexer = Lexer::new();
    lexer.define("tok:a", "[a-c]+")?;
    let mut parser = Parser::new();
    parser.define("EXPR", tok("tok:a", ""), Lambda::Eval);
    let mut reader = LineReader::new("abc");
    let ast = parser.parse_tree(&lexer, &mut reader)?;
    let exp = TreeNode::from_token(tok("tok:a", "abc").token());
    assert_eq!(exp.render(), ast.render(), "When trying to match ASTs:");
    Ok(())
}

#[test]
fn test_recursion() -> Result<(), String> {
    let mut lexer = Lexer::new();
    lexer.define("tok", "[a-z]+")?;
    lexer.define("op", "\\(|\\)")?;
    let mut parser = Parser::new();
    parser.define("EXPR", any(vec![all(vec![tok("op", "("), rule("EXPR"), tok("op", ")")]), rule("TOK")]), Lambda::Eval);
    parser.define("TOK", tok("tok", ""), Lambda::Eval);
    let mut reader = LineReader::new("((token))");
    let ast = parser.parse_tree(&lexer, &mut reader)?;
    let exp = TreeNode::from_expr(&any(vec![
        tok("op", "("),
        all(vec![tok("op", "("), tok("tok", "token"), tok("op", ")")]),
        tok("op", ")"),
    ]));
    assert_eq!(exp.render(), ast.render(), "When trying to match ASTs:");
    Ok(())
}

#[test]
fn assert_ast_token() -> Result<(), String> {
    let mut lexer = Lexer::new();
    lexer.define("tok:a", "[a-c]+")?;
    let mut parser = Parser::new();
    parser.define("EXPR", tok("tok:a", ""), Lambda::Eval);
    let mut reader = LineReader::new("abc");
    let ast = parser.parse_tree(&lexer, &mut reader)?;
    let exp = TreeNode::from_token(tok("tok:a", "abc").token());
    assert_eq!(exp.render(), ast.render(), "When trying to match ASTs:");
    Ok(())
}

#[test]
fn assert_ast_ne_macro_token() -> Result<(), String> {
    let mut lexer = Lexer::new();
    lexer.define("tok:a", "[a-c]+")?;
    let mut parser = Parser::new();
    parser.define("EXPR", tok("tok:a", ""), Lambda::Eval);
    let mut reader = LineReader::new("abc");
    let ast = parser.parse_tree(&lexer, &mut reader)?;
    let exp = TreeNode::from_token(tok("tok:a", "def").token());
    assert_ne!(exp.render(), ast.render(), "Both are equal when trying to match ASTs:");
    Ok(())
}

#[test]
fn assert_ast_expr_or() -> Result<(), String> {
    let lexer = abc_lexer()?;
    let mut parser = Parser::new();
    parser.define("EXPR", any(vec![tok("tok:a", ""), tok("tok:b", ""), tok("tok:c", "")]), Lambda::Eval);
    let mut reader = LineReader::new("abcdefghi");
    let ast_1 = parser.parse_tree(&lexer, &mut reader)?;
    let ast_2 = parser.parse_tree(&lexer, &mut reader)?;
    let ast_3 = parser.parse_tree(&lexer, &mut reader)?;
    let exp_1 = TreeNode::from_token(tok("tok:a", "abc").token());
    let exp_2 = TreeNode::from_token(tok("tok:b", "def").token());
    let exp_3 = TreeNode::from_token(tok("tok:c", "ghi").token());
    assert_eq!(exp_1.render(), ast_1.render(), "When trying to match ASTs:");
    assert_eq!(exp_2.render(), ast_2.render(), "When trying to match ASTs:");
    assert_eq!(exp_3.render(), ast_3.render(), "When trying to match ASTs:");
    Ok(())
}

#[test]
fn assert_ast_expr_or_sub_expr() -> Result<(), String> {
    let lexer = abc_lexer()?;
    let mut parser = Parser::new();
    parser.define(
        "EXPR",
        any(vec![all(vec![tok("tok:a", ""), tok("tok:b", "")]), tok("tok:a", ""), tok("tok:c", "")]),
        Lambda::Eval,
    );
    let mut reader = LineReader::new("ghiabcdefabcghi");
    let ast_1 = parser.parse_tree(&lexer, &mut reader)?;
    let ast_2 = parser.parse_tree(&lexer, &mut reader)?;
    let ast_3 = parser.parse_tree(&lexer, &mut reader)?;
    let ast_4 = parser.parse_tree(&lexer, &mut reader)?;
    let exp_1 = TreeNode::from_token(tok("tok:c", "ghi").token());
    let exp_2 = TreeNode::from_expr(&all(vec![tok("tok:a", "abc"), tok("tok:b", "def")]));
    let exp_3 = TreeNode::from_token(tok("tok:a", "abc").token());
    let exp_4 = TreeNode::from_token(tok("tok:c", "ghi").token());
    assert_eq!(exp_1.render(), ast_1.render(), "When trying to match ASTs:");
    assert_eq!(exp_2.render(), ast_2.render(), "When trying to match ASTs:");
    assert_eq!(exp_3.render(), ast_3.render(), "When trying to match ASTs:");
    assert_eq!(exp_4.render(), ast_4.render(), "When trying to match ASTs:");
    Ok(())
}

#[test]
fn assert_ast_expr() -> Result<(), String> {
    let mut lexer = Lexer::new();
    lexer.define("tok", "[a-z]+")?;
    lexer.define("op", "\\(|\\)")?;
    let mut parser = Parser::new();
    parser.define("EXPR", rule("NUM"), Lambda::Eval);
    parser.define("NUM", tok("tok", ""), Lambda::Eval);
    let mut reader = LineReader::new("token");
    let ast = parser.parse_tree(&lexer, &mut reader)?;
    let exp = TreeNode::from_token(tok("tok", "token").token());
    assert_eq!(exp.render(), ast.render(), "When trying to match ASTs:");
    Ok(())
}

fn nested_sum_parser() -> Parser {
    let mut parser = Parser::new();
    parser.define("EXPR", any(vec![all(vec![rule("VAL"), tok("op", "+"), rule("EXPR")]), rule("VAL")]), Lambda::Eval);
    parser.define("VAL", any(vec![all(vec![tok("op", "("), rule("EXPR"), tok("op", ")")]), rule("NUM")]), Lambda::Eval);
    parser.define("NUM", tok("num", ""), Lambda::Eval);
    parser
}

#[test]
fn assert_ast_sub_expr() -> Result<(), String> {
    let lexer = sum_lexer()?;
    let parser = nested_sum_parser();
    let mut reader = LineReader::new("1+2+3");
    let ast = parser.parse_tree(&lexer, &mut reader)?;
    let exp = TreeNode::from_expr(&any(vec![
        tok("num", "1"),
        tok("op", "+"),
        all(vec![tok("num", "2"), tok("op", "+"), tok("num", "3")]),
    ]));
    assert_eq!(exp.render(), ast.render(), "When trying to match ASTs:");
    Ok(())
}

#[test]
fn assert_ast_sub_expr_sub_expr() -> Result<(), String> {
    let lexer = sum_lexer()?;
    let parser = nested_sum_parser();
    let mut reader = LineReader::new("1+(2+3)");
    let ast = parser.parse_tree(&lexer, &mut reader)?;
    let exp = TreeNode::from_expr(&any(vec![
        tok("num", "1"),
        tok("op", "+"),
        all(vec![
            tok("op", "("),
            all(vec![tok("num", "2"), tok("op", "+"), tok("num", "3")]),
            tok("op", ")"),
        ]),
    ]));
    assert_eq!(exp.render(), ast.render(), "When trying to match ASTs:");
    Ok(())
}

#[test]
fn failed_alternative_returns_the_cursor_to_where_it_was() -> Result<(), String> {
    let lexer = abc_lexer()?;
    let mut parser = Parser::new();
    // the first alternative reads "abc", then fails on "ghi"
    parser.define("EXPR", any(vec![all(vec![tok("tok:a", ""), tok("tok:b", "")]), tok("tok:a", "")]), Lambda::Eval);
    let mut reader = LineReader::new("abcghi");
    let ast = parser.parse_tree(&lexer, &mut reader)?;
    assert_eq!(ast.render(), "tok:a:abc");
    assert_eq!(reader.get_pointer().read_pos, (3, 3));
    assert_eq!(reader.get_pointer().line_pos, (0, 3, 0, 3));
    Ok(())
}

#[test]
fn failed_choice_leaves_the_cursor_unmoved() -> Result<(), String> {
    let lexer = abc_lexer()?;
    let mut parser = Parser::new();
    parser.define("EXPR", any(vec![all(vec![tok("tok:a", ""), tok("tok:b", "")]), tok("tok:c", "")]), Lambda::Eval);
    let mut reader = LineReader::new("abcabc");
    assert!(parser.parse_tree(&lexer, &mut reader).is_err());
    assert_eq!(reader.get_pointer().read_pos, (0, 0));
    assert_eq!(reader.get_pointer().line_pos, (0, 0, 0, 0));
    Ok(())
}

#[test]
fn first_alternative_wins() -> Result<(), String> {
    let mut lexer = Lexer::new();
    lexer.define("word", "[a-z]+")?;
    lexer.define("letters", "[a-z]+")?;
    let mut parser = Parser::new();
    parser.define(
        "EXPR",
        any(vec![tok("word", ""), tok("letters", "")]),
        Lambda::LambdaOr(vec![Lambda::EvalAs("A".to_string()), Lambda::EvalAs("B".to_string())]),
    );
    let mut reader = LineReader::new("abc");
    let ast = parser.parse_tree(&lexer, &mut reader)?;
    assert_eq!(ast.root.lambda, Lambda::EvalAs("A".to_string()));
    assert_eq!(ast.render(), "word:abc");
    Ok(())
}

#[test]
fn sequence_is_all_or_nothing() -> Result<(), String> {
    let lexer = abc_lexer()?;
    let mut parser = Parser::new();
    parser.define("EXPR", all(vec![tok("tok:a", ""), tok("tok:b", ""), tok("tok:c", "")]), Lambda::Eval);
    let mut reader = LineReader::new("abcdefabc");
    let r = parser.parse_tree(&lexer, &mut reader);
    assert!(r.is_err());
    let mut reader = LineReader::new("abcdefghi");
    let ast = parser.parse_tree(&lexer, &mut reader)?;
    assert_eq!(ast.root.nodes.len(), 3);
    assert_eq!(ast.render(), "( tok:a:abc tok:b:def tok:c:ghi )");
    Ok(())
}

#[test]
fn round_trip_rendering_nests_to_the_right() -> Result<(), String> {
    let lexer = sum_lexer()?;
    let mut parser = Parser::new();
    parser.define("EXPR", any(vec![all(vec![rule("TERM"), tok("op", "+"), rule("EXPR")]), rule("TERM")]), Lambda::Eval);
    parser.define("TERM", tok("num", ""), Lambda::Eval);
    let mut reader = LineReader::new("1+2+3");
    let ast = parser.parse_tree(&lexer, &mut reader)?;
    assert_eq!(ast.render(), "( num:1 op:+ ( num:2 op:+ num:3 ) )");
    Ok(())
}

#[test]
fn unknown_rule_fails_fast() -> Result<(), String> {
    let lexer = sum_lexer()?;
    let mut parser = Parser::new();
    // the second alternative would match, but the first names a rule that does not exist
    parser.define("EXPR", any(vec![all(vec![tok("num", ""), rule("MISSING")]), tok("num", "")]), Lambda::Eval);
    let mut reader = LineReader::new("1");
    let r = parser.parse_tree(&lexer, &mut reader);
    assert_eq!(r.err(), Some("Parser has no definition for `MISSING`".to_string()));
    Ok(())
}

#[test]
fn left_recursion_is_reported() -> Result<(), String> {
    let lexer = sum_lexer()?;
    let mut parser = Parser::new();
    parser.define("EXPR", any(vec![all(vec![rule("EXPR"), tok("op", "+"), tok("num", "")]), tok("num", "")]), Lambda::Eval);
    let mut reader = LineReader::new("1+2");
    let r = parser.parse_tree(&lexer, &mut reader);
    assert_eq!(r.err(), Some("Left recursion in rule `EXPR`".to_string()));
    Ok(())
}

#[test]
fn parse_needs_an_expr_rule() -> Result<(), String> {
    let lexer = sum_lexer()?;
    let mut parser = Parser::new();
    parser.define("NUM", tok("num", ""), Lambda::Eval);
    let mut reader = LineReader::new("1");
    let r = parser.parse_tree(&lexer, &mut reader);
    assert_eq!(r.err(), Some("You need to define an Expression for EXPR".to_string()));
    assert!(parser.get_expr("NUM").is_ok());
    assert_eq!(parser.get_expr("EXPR").err(), Some("Parser has no definition for `EXPR`".to_string()));
    Ok(())
}

#[test]
fn token_with_expected_value_only_matches_that_value() -> Result<(), String> {
    let lexer = sum_lexer()?;
    let mut parser = Parser::new();
    parser.define("EXPR", any(vec![tok("op", "("), tok("op", "+")]), Lambda::Eval);
    let mut reader = LineReader::new("+");
    let ast = parser.parse_tree(&lexer, &mut reader)?;
    assert_eq!(ast.render(), "op:+");
    Ok(())
}

#[test]
fn nodes_carry_the_instruction_of_the_chosen_alternative() -> Result<(), String> {
    let lexer = sum_lexer()?;
    let mut parser = Parser::new();
    parser.define(
        "EXPR",
        any(vec![all(vec![tok("num", ""), tok("op", "+"), tok("num", "")]), tok("num", "")]),
        Lambda::LambdaOr(vec![Lambda::Lambda("ADD".to_string(), vec![1, 3]), Lambda::EvalAs("INTEGER".to_string())]),
    );
    let mut reader = LineReader::new("7");
    let ast = parser.parse_tree(&lexer, &mut reader)?;
    assert_eq!(ast.root.lambda, Lambda::EvalAs("INTEGER".to_string()));
    let mut reader = LineReader::new("7+8");
    let ast = parser.parse_tree(&lexer, &mut reader)?;
    assert_eq!(ast.root.lambda, Lambda::Lambda("ADD".to_string(), vec![1, 3]));
    assert_eq!(ast.root.nodes[0].lambda, Lambda::Eval);
    Ok(())
}

#[test]
fn choice_without_an_instruction_for_an_alternative_is_an_error() -> Result<(), String> {
    let lexer = sum_lexer()?;
    let mut parser = Parser::new();
    parser.define("EXPR", any(vec![tok("op", ""), tok("num", "")]), Lambda::LambdaOr(vec![Lambda::Eval]));
    let mut reader = LineReader::new("1");
    assert!(parser.parse_tree(&lexer, &mut reader).is_err());
    Ok(())
}

#[test]
fn failed_choice_names_the_expression() -> Result<(), String> {
    let lexer = abc_lexer()?;
    let mut parser = Parser::new();
    parser.define("EXPR", any(vec![tok("tok:a", ""), all(vec![tok("tok:b", "def"), rule("REST")])]), Lambda::Eval);
    let mut reader = LineReader::new("ghi");
    let r = parser.parse_tree(&lexer, &mut reader);
    assert_eq!(
        r.err(),
        Some("Could not find a matching expression for: [ tok:a | ( tok:b:def REST ) ]".to_string())
    );
    Ok(())
}

#[test]
fn short_instruction_list_gives_a_grammar_error() -> Result<(), String> {
    let lexer = sum_lexer()?;
    let mut parser = Parser::new();
    parser.define("EXPR", any(vec![tok("op", ""), tok("num", "")]), Lambda::LambdaOr(vec![Lambda::Eval]));
    let mut reader = LineReader::new("1");
    let r = parser.parse_tree(&lexer, &mut reader);
    assert_eq!(r.err(), Some("Could not get Lambda for Expression 1 [2>1]".to_string()));
    Ok(())
}

#[test]
fn token_value_mismatch_names_type_and_value() -> Result<(), String> {
    let lexer = sum_lexer()?;
    let mut parser = Parser::new();
    parser.define("EXPR", tok("op", "("), Lambda::Eval);
    let mut reader = LineReader::new("+");
    let r = parser.parse_tree(&lexer, &mut reader);
    assert_eq!(r.err(), Some("Could not find token: \"op\" with value \"(\"".to_string()));
    assert_eq!(reader.get_pointer().read_pos, (0, 0));
    Ok(())
}

#[test]
fn undefined_rule_deeper_in_the_grammar_is_reported() -> Result<(), String> {
    let lexer = sum_lexer()?;
    let mut parser = Parser::new();
    parser.define("EXPR", any(vec![all(vec![rule("NUM"), tok("op", "+"), rule("EXPR")]), rule("NUM")]), Lambda::Eval);
    parser.define("NUM", any(vec![all(vec![tok("op", "("), rule("GROUP")]), tok("num", "")]), Lambda::Eval);
    let mut reader = LineReader::new("1+(2)");
    let r = parser.parse_tree(&lexer, &mut reader);
    assert_eq!(r.err(), Some("Parser has no definition for `GROUP`".to_string()));
    assert_eq!(reader.get_pointer().read_pos.0, 0);
    Ok(())
}

#[test]
fn math_grammar_is_closed() {
    assert!(interpreter::math::parser().is_closed());
}

#[test]
fn grammar_with_a_missing_rule_is_not_closed() {
    let mut parser = Parser::new();
    parser.define("EXPR", all(vec![tok("num", ""), rule("MISSING")]), Lambda::Eval);
    assert!(!parser.is_closed());
    parser.define("MISSING", tok("num", ""), Lambda::Eval);
    assert!(parser.is_closed());
}

#[test]
fn grammar_with_a_short_instruction_list_is_not_closed() {
    let mut parser = Parser::new();
    parser.define("EXPR", any(vec![tok("op", ""), tok("num", "")]), Lambda::LambdaOr(vec![Lambda::Eval]));
    assert!(!parser.is_closed());
}
