use rlox::bytes::{bytes_equal, concat_bytes, copy_range, dec_of_u64, text_bytes};
use rlox::chunk::{Chunk, OpCode};
use rlox::compiler::{compile_source, Parser, Resolver};
use rlox::scanner::{Scanner, Token, TokenType};
use rlox::value::Value;
use rlox::vm::arity_message;

fn kinds_of(src: &str) -> Vec<TokenType> {
    let mut scanner = Scanner::new(src.as_bytes().to_vec());
    scanner.scan_tokens().into_iter().map(|t| t.kind).collect()
}

#[test]
fn decimal_rendering() {
    assert_eq!(dec_of_u64(0), b"0".to_vec());
    assert_eq!(dec_of_u64(7), b"7".to_vec());
    assert_eq!(dec_of_u64(10), b"10".to_vec());
    assert_eq!(dec_of_u64(1234567890), b"1234567890".to_vec());
    assert_eq!(dec_of_u64(u64::MAX), b"18446744073709551615".to_vec());
}

#[test]
fn byte_helpers() {
    let a = b"abc".to_vec();
    let b = b"abc".to_vec();
    let c = b"abd".to_vec();
    assert!(bytes_equal(&a, &b));
    assert!(!bytes_equal(&a, &c));
    assert!(!bytes_equal(&a, &b"ab".to_vec()));
    assert_eq!(concat_bytes(&a, &c), b"abcabd".to_vec());
    assert_eq!(copy_range(&a, 1, 3), b"bc".to_vec());
    assert_eq!(text_bytes("hi"), b"hi".to_vec());
}

#[test]
fn opcode_bytes_roundtrip() {
    let ops = [
        OpCode::Return,
        OpCode::Constant,
        OpCode::Divide,
        OpCode::Add,
        OpCode::Negate,
        OpCode::Multiply,
        OpCode::Substract,
        OpCode::Not,
        OpCode::Equal,
        OpCode::Greater,
        OpCode::Less,
        OpCode::Print,
        OpCode::Nil,
        OpCode::Pop,
        OpCode::JumpIfFalse,
        OpCode::GetLocal,
        OpCode::SetLocal,
        OpCode::Jump,
        OpCode::Loop,
        OpCode::Call,
        OpCode::Closure,
        OpCode::GetUpvalue,
        OpCode::SetUpvalue,
    ];
    for op in ops {
        assert_eq!(OpCode::from_byte(op.to_byte()), Some(op));
    }
    assert_eq!(OpCode::from_byte(200), None);
}

#[test]
fn chunk_appends_and_patches() {
    let mut c = Chunk::new();
    assert!(c.write_chunk(OpCode::JumpIfFalse, 3));
    assert!(c.write_u32(0xAABBCCDD, 3));
    assert_eq!(c.code, vec![14, 0xAA, 0xBB, 0xCC, 0xDD]);
    assert_eq!(c.lines, vec![3, 3, 3, 3, 3]);
    c.patch_u32(1, 7);
    assert_eq!(c.code, vec![14, 0, 0, 0, 7]);
    assert_eq!(c.size(), 5);
    assert_eq!(c.add_constant(Value::Number(0)), Some(0));
    assert_eq!(c.add_constant(Value::Nil), Some(1));
}

#[test]
fn scanner_kinds_for_punctuation_and_operators() {
    assert_eq!(
        kinds_of("( ) { } , . - + ; / * ! != = == > >= < <="),
        vec![
            TokenType::LeftParen,
            TokenType::RightParen,
            TokenType::LeftBrace,
            TokenType::RightBrace,
            TokenType::Comma,
            TokenType::Dot,
            TokenType::Minus,
            TokenType::Plus,
            TokenType::Semicolon,
            TokenType::Slash,
            TokenType::Star,
            TokenType::Bang,
            TokenType::BangEqual,
            TokenType::Equal,
            TokenType::EqualEqual,
            TokenType::Greater,
            TokenType::GreaterEqual,
            TokenType::Less,
            TokenType::LessEqual,
            TokenType::Eof,
        ]
    );
}

#[test]
fn scanner_keywords_and_identifiers() {
    assert_eq!(
        kinds_of("and class else false for fun if nil or print return super this true var while"),
        vec![
            TokenType::And,
            TokenType::Class,
            TokenType::Else,
            TokenType::False,
            TokenType::For,
            TokenType::Fun,
            TokenType::If,
            TokenType::Nil,
            TokenType::Or,
            TokenType::Print,
            TokenType::Return,
            TokenType::Super,
            TokenType::This,
            TokenType::True,
            TokenType::Var,
            TokenType::While,
            TokenType::Eof,
        ]
    );
    assert_eq!(
        kinds_of("andy orchid _x1 f t"),
        vec![
            TokenType::Identifier,
            TokenType::Identifier,
            TokenType::Identifier,
            TokenType::Identifier,
            TokenType::Identifier,
            TokenType::Eof,
        ]
    );
}

#[test]
fn scanner_number_lexemes() {
    let mut scanner = Scanner::new(b"12.5 7. 0".to_vec());
    let tokens = scanner.scan_tokens();
    let pairs: Vec<(TokenType, Vec<u8>)> =
        tokens.into_iter().map(|t| (t.kind, t.lexeme)).collect();
    assert_eq!(
        pairs,
        vec![
            (TokenType::Number, b"12.5".to_vec()),
            (TokenType::Number, b"7".to_vec()),
            (TokenType::Dot, b".".to_vec()),
            (TokenType::Number, b"0".to_vec()),
            (TokenType::Eof, b"".to_vec()),
        ]
    );
}

#[test]
fn scanner_string_lexeme_keeps_quotes() {
    let mut scanner = Scanner::new(b"\"hi\"".to_vec());
    let tokens = scanner.scan_tokens();
    assert_eq!(tokens[0].kind, TokenType::String);
    assert_eq!(tokens[0].lexeme, b"\"hi\"".to_vec());
}

#[test]
fn scanner_counts_lines() {
    let mut scanner = Scanner::new(b"a\n// comment\nb \"x\ny\" c".to_vec());
    let tokens = scanner.scan_tokens();
    let lines: Vec<(TokenType, u32)> = tokens.into_iter().map(|t| (t.kind, t.line)).collect();
    assert_eq!(
        lines,
        vec![
            (TokenType::Identifier, 1),
            (TokenType::Identifier, 3),
            (TokenType::String, 4),
            (TokenType::Identifier, 4),
            (TokenType::Eof, 4),
        ]
    );
}

#[test]
fn scanner_error_tokens() {
    let mut scanner = Scanner::new(b"@ \"open".to_vec());
    let tokens = scanner.scan_tokens();
    assert_eq!(tokens[0].kind, TokenType::Error);
    assert_eq!(tokens[0].lexeme, b"Unexpected character.".to_vec());
    assert_eq!(tokens[1].kind, TokenType::Error);
    assert_eq!(tokens[1].lexeme, b"Unterminated string.".to_vec());
    assert_eq!(tokens[2].kind, TokenType::Eof);
}

#[test]
fn token_duplicate_copies_fields() {
    let t = Token::new(TokenType::Identifier, b"name".to_vec(), 9);
    let d = t.duplicate();
    assert_eq!(d.kind, TokenType::Identifier);
    assert_eq!(d.lexeme, b"name".to_vec());
    assert_eq!(d.line, 9);
}

#[test]
fn arity_message_is_exact() {
    assert_eq!(arity_message(2, 1), b"Expected 2 arguments but got 1.".to_vec());
    assert_eq!(arity_message(0, 13), b"Expected 0 arguments but got 13.".to_vec());
}

#[test]
fn diagnostic_rendering() {
    let ds = match compile_source(b"print\nq;".to_vec()) {
        Err(ds) => ds,
        Ok(_) => panic!("expected a compile error"),
    };
    assert_eq!(ds.len(), 1);
    assert_eq!(ds[0].message, b"Unknown variable 'q'.".to_vec());
    assert_eq!(ds[0].line, 2);
    let rendered = ds[0].render();
    assert_eq!(
        String::from_utf8(rendered).unwrap(),
        "[line 2] Error at ';': Unknown variable 'q'."
    );
}

#[test]
fn diagnostic_at_end_rendering() {
    let ds = match compile_source(b"print 1".to_vec()) {
        Err(ds) => ds,
        Ok(_) => panic!("expected a compile error"),
    };
    let rendered = String::from_utf8(ds[0].render()).unwrap();
    assert_eq!(rendered, "[line 1] Error at end: Expect ';' after value.");
}

#[test]
fn diagnostic_for_a_lexical_error_has_no_position_part() {
    let ds = match compile_source(b"var a = @;".to_vec()) {
        Err(ds) => ds,
        Ok(_) => panic!("expected a compile error"),
    };
    let rendered = String::from_utf8(ds[0].render()).unwrap();
    assert_eq!(rendered, "[line 1] Error: Unexpected character.");
}

#[test]
fn resolver_scopes_drop_their_locals() {
    let mut r = Resolver::new();
    assert_eq!(r.locals.len(), 2);
    assert!(r.begin_scope());
    r.locals.push(rlox::compiler::Local {
        name: b"x".to_vec(),
        depth: Some(1),
        is_captured: false,
    });
    assert!(r.already_declared(&b"x".to_vec()));
    assert!(!r.already_declared(&b"clock".to_vec()));
    let popped = r.end_scope();
    assert_eq!(popped, 1);
    assert_eq!(r.locals.len(), 2);
}

#[test]
fn parser_init_scans_the_source() {
    let p = Parser::init(b"print 1;".to_vec());
    assert!(!p.had_error);
    assert_eq!(p.tokens.len(), 4);
    assert_eq!(p.tokens[0].kind, TokenType::Print);
    assert_eq!(p.tokens[3].kind, TokenType::Eof);
}

#[test]
fn value_predicates() {
    assert!(Value::Nil.is_falsy());
    assert!(Value::Bool(false).is_falsy());
    assert!(!Value::Bool(true).is_falsy());
    assert!(!Value::Number(0u64).is_falsy());
    assert!(!Value::Str(0).is_falsy());
    assert!(Value::Number(7).is_number());
    assert!(Value::Str(0).is_string());
    assert!(Value::Bool(true).is_bool());
    assert!(Value::Closure(0).is_closure());
    assert!(!Value::Nil.is_number());
}

#[test]
fn compiled_program_tables() {
    let program = compile_source(b"fun f() { return 1; } print \"s\";".to_vec())
        .expect("program should compile");
    // the script and one function literal
    assert_eq!(program.funcs.len(), 2);
    assert_eq!(program.funcs[program.script].name, b"<script>".to_vec());
    assert_eq!(program.funcs[program.script].arity, 0);
    assert_eq!(program.funcs[0].name, b"f".to_vec());
    // every chunk's line table runs in parallel with its code
    for f in &program.funcs {
        assert_eq!(f.chunk.code.len(), f.chunk.lines.len());
    }
    assert_eq!(program.strings, vec![b"s".to_vec()]);
}
