use interpreter::{Lexer, LineReader, ReadPointer, TokenDef};

#[test]
fn next_token_of_a_type() -> Result<(), String> {
    let reader = LineReader::new("12345abcdefg");
    let mut lexer = Lexer::new();
    lexer.define("num", "[0-9]+")?;
    let token = lexer.get_next_token("num", &reader).ok_or("Couldn't find token")?;
    assert_eq!(token.token_type, "num");
    assert_eq!(token.value, "12345");
    assert_eq!(token.position, ReadPointer::from_pos((0, 0, 0, 5), (0, 5)));
    assert!(lexer.get_next_token("word", &reader).is_none());
    Ok(())
}

#[test]
fn next_token_of_any_type_goes_by_definition_order() -> Result<(), String> {
    let reader = LineReader::new("12345abcdefg");
    let mut lexer = Lexer::new();
    lexer.define("digits", "[0-9]+")?;
    lexer.define("short", "[0-9]")?;
    let token = lexer.get_next_any(&reader).ok_or("Couldn't find token")?;
    assert_eq!(token.token_type, "digits");
    assert_eq!(token.value, "12345");
    Ok(())
}

#[test]
fn pattern_matches_only_at_the_reading_position() -> Result<(), String> {
    let reader = LineReader::new("abc123");
    let mut lexer = Lexer::new();
    lexer.define("num", "[0-9]+")?;
    assert!(lexer.get_next_token("num", &reader).is_none());
    Ok(())
}

#[test]
fn bad_pattern_is_an_error() {
    let mut lexer = Lexer::new();
    let r = lexer.define("broken", "foo(bar");
    assert_eq!(r, Err("Cannot Build Token Definition - Regex Error for: \\A(foo(bar)".to_string()));
    assert!(TokenDef::new("broken", "(").is_err());
    assert!(TokenDef::new("fine", "[a-z]").is_ok());
}

#[test]
fn redefining_a_token_type_replaces_it() -> Result<(), String> {
    let reader = LineReader::new("abc");
    let mut lexer = Lexer::new();
    lexer.define("t", "[0-9]+")?;
    lexer.define("t", "[a-z]+")?;
    let token = lexer.get_next_token("t", &reader).ok_or("Couldn't find token")?;
    assert_eq!(token.value, "abc");
    Ok(())
}

#[test]
fn get_next_with_a_definition() -> Result<(), String> {
    let reader = LineReader::new("12345abcdefg");
    let lexer = Lexer::new();
    let token_def = TokenDef::new("num", "[0-9]+")?;
    let token = lexer.get_next(&token_def, &reader).ok_or("Couldn't find token")?;
    assert_eq!(token.token_type, "num");
    assert_eq!(token.value, "12345");
    Ok(())
}

#[test]
fn reader_reads_and_moves() {
    let mut reader = LineReader::new("abcdefg");
    let _ = reader.next(&3u32);
    assert_eq!(reader.read_char(), Some('d'));
    assert_eq!(reader.read_current(), Some("abc".to_string()));
    reader.commit();
    let _ = reader.next(&3u32);
    assert_eq!(reader.read_current(), Some("def".to_string()));
    let (val, ptr) = reader.read_next(1).unwrap();
    assert_eq!(val, "g");
    assert_eq!(ptr, ReadPointer::from_pos((0, 6, 0, 7), (6, 7)));
    assert!(reader.read_next(2).is_none());
    assert!(reader.next(&5u32).is_err());
    let ptr = ReadPointer::from_pos((0, 3, 0, 6), (3, 6));
    assert_eq!(reader.read_pointer(&ptr), Some("def".to_string()));
    assert_eq!(reader.read_pointer(&ReadPointer::from_pos((0, 0, 0, 0), (3, 9))), None);
}

#[test]
fn reader_moves_over_lines() {
    let mut reader = LineReader::new("ab\ncd");
    let _ = reader.next(&4u32);
    assert_eq!(reader.get_pointer().line_pos, (0, 0, 1, 1));
    assert_eq!(reader.get_pointer().read_pos, (0, 4));
}

#[test]
fn token_renders_as_type_and_value() {
    let token = interpreter::Token::new("num", "42", ReadPointer::from_pos((0, 0, 0, 2), (0, 2)));
    assert_eq!(token.render(), "num:42");
}
