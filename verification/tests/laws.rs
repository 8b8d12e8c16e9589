use rhai_tokenizer::engine::{Engine, TokenIterator};
use rhai_tokenizer::keywords::is_reserved_keyword_or_symbol;
use rhai_tokenizer::position::Position;
use rhai_tokenizer::token::{Token, TokenOf};

fn engine() -> Engine {
    Engine { custom_keywords: Vec::new(), disabled_symbols: Vec::new(), max_string_size: 0 }
}

fn symbols() -> Vec<Token> {
    vec![
        TokenOf::LeftBrace,
        TokenOf::RightBrace,
        TokenOf::LeftParen,
        TokenOf::RightParen,
        TokenOf::LeftBracket,
        TokenOf::RightBracket,
        TokenOf::Multiply,
        TokenOf::Divide,
        TokenOf::Modulo,
        TokenOf::PowerOf,
        TokenOf::LeftShift,
        TokenOf::RightShift,
        TokenOf::SemiColon,
        TokenOf::Colon,
        TokenOf::DoubleColon,
        TokenOf::Comma,
        TokenOf::Period,
        TokenOf::DoubleQuestion,
        TokenOf::ExclusiveRange,
        TokenOf::InclusiveRange,
        TokenOf::MapStart,
        TokenOf::Equals,
        TokenOf::LessThan,
        TokenOf::GreaterThan,
        TokenOf::LessThanEqualsTo,
        TokenOf::GreaterThanEqualsTo,
        TokenOf::EqualsTo,
        TokenOf::NotEqualsTo,
        TokenOf::Bang,
        TokenOf::Pipe,
        TokenOf::Or,
        TokenOf::XOr,
        TokenOf::Ampersand,
        TokenOf::And,
        TokenOf::PlusAssign,
        TokenOf::MinusAssign,
        TokenOf::MultiplyAssign,
        TokenOf::DivideAssign,
        TokenOf::LeftShiftAssign,
        TokenOf::RightShiftAssign,
        TokenOf::AndAssign,
        TokenOf::OrAssign,
        TokenOf::XOrAssign,
        TokenOf::ModuloAssign,
        TokenOf::PowerOfAssign,
        TokenOf::Elvis,
        TokenOf::QuestionBracket,
    ]
}

fn first_token(it: &mut TokenIterator) -> (Token, Position) {
    it.next().unwrap()
}

#[test]
fn law_lookup_inverts_syntax_on_symbols_and_keywords() {
    let mut all = symbols();
    all.extend(vec![TokenOf::Fn, TokenOf::Let, TokenOf::Continue, TokenOf::NotIn, TokenOf::Unit]);
    for t in all {
        assert_eq!(Token::lookup_symbol_from_syntax(t.literal_syntax()), Some(t.clone()));
    }
    assert_eq!(
        Token::lookup_symbol_from_syntax(TokenOf::<String>::UnaryMinus.literal_syntax()),
        Some(TokenOf::Minus)
    );
}

#[test]
fn law_lookup_sound_on_examples() {
    for text in ["+", "<<=", "while", "?.", "!in"] {
        let t = Token::lookup_symbol_from_syntax(text).unwrap();
        assert_eq!(t.literal_syntax(), text);
    }
}

#[test]
fn law_op_assignment_round_trip_on_examples() {
    for t in [TokenOf::<String>::Plus, TokenOf::Minus, TokenOf::PowerOf, TokenOf::XOr, TokenOf::Pipe] {
        let a = t.convert_to_op_assignment().unwrap();
        assert!(a.is_op_assignment());
        assert_eq!(a.get_base_op_from_assignment(), Some(t));
    }
    assert_eq!(TokenOf::<String>::Comma.convert_to_op_assignment(), None);
}

#[test]
fn law_reserved_flags_on_examples() {
    for word in ["curry", "call", "print", "var", "===", "foo"] {
        let (r, f, m) = is_reserved_keyword_or_symbol(word);
        assert!(!m || f);
        assert!(!f || r);
        if r {
            assert_eq!(Token::lookup_symbol_from_syntax(word), None);
        }
    }
}

#[test]
fn law_symbol_text_read_back_on_all_standard_symbols() {
    let e = engine();
    for t in symbols() {
        let text = t.to_text();
        let mut it = e.lex_raw(&[text.as_str()]);
        it.state.next_token_cannot_be_unary = true;
        let (got, pos) = first_token(&mut it);
        assert_eq!(got, t);
        assert_eq!(pos, Position::new(1, 1));
        assert_eq!(first_token(&mut it).0, TokenOf::EOF);
    }
}

#[test]
fn law_end_of_input_gives_eof() {
    let e = engine();
    let mut it = e.lex_raw(&["   "]);
    assert_eq!(first_token(&mut it), (TokenOf::EOF, Position::new(1, 4)));
    assert_eq!(first_token(&mut it), (TokenOf::EOF, Position::new(1, 5)));
}

#[test]
fn law_reading_never_panics_on_odd_inputs() {
    let e = engine();
    let inputs = [
        "'", "\"", "`", "#", "##", "#\"", "\\", "'\\", "\"\\x", "\"\\u12", "0x", "0b", "1e", "1e+",
        "/*", "//", "-", "!i", "!in", "$", "@", "'\\U0011FFFF'", "\"\\\n", "1.", "..", "\u{0}",
        "`${", "'\r\n'", "\"\r\n\"",
    ];
    for input in inputs {
        let mut it = e.lex_raw(&[input]);
        let mut n = 0;
        loop {
            let (t, _) = first_token(&mut it);
            n += 1;
            if t == TokenOf::EOF || n > 20 {
                break;
            }
        }
        assert!(n <= 20);
    }
}

#[test]
fn law_integer_text_read_back_on_examples() {
    let e = engine();
    for i in [0i64, 7, 42, 1234567890, i64::MAX, -1, -42, i64::MIN] {
        let text = TokenOf::<String>::IntegerConstant(i).to_text();
        let mut it = e.lex_raw(&[text.as_str()]);
        assert_eq!(first_token(&mut it), (TokenOf::IntegerConstant(i), Position::new(1, 1)));
        assert_eq!(first_token(&mut it).0, TokenOf::EOF);
    }
}

#[test]
fn law_rewind_undoes_advance_on_examples() {
    for (line, col) in [(1u16, 0u16), (3, 7), (9, 65534)] {
        let mut p = Position::new(line, col);
        p.advance();
        p.rewind();
        assert_eq!(p, Position::new(line, col));
    }
}

#[test]
fn law_open_string_only_at_end_on_examples() {
    let e = engine();
    let mut it = e.lex_raw(&["`abc"]);
    assert_eq!(first_token(&mut it).0, TokenOf::LexError(rhai_tokenizer::error::LexErrorOf::UnterminatedString));
    assert_eq!(it.state.is_within_text_terminated_by, None);
    let mut it2 = e.lex_raw(&["`abc` x"]);
    assert_eq!(first_token(&mut it2).0, TokenOf::StringConstant("abc".to_string()));
    assert_eq!(it2.state.is_within_text_terminated_by, None);
}

#[test]
fn law_compression_only_appends_on_example() {
    let e = engine();
    let mut it = e.lex_raw(&["let  a = `x${ b }y` ;  fn f ( ) { }"]);
    it.state.tokenizer_control.compressed = Some(String::new());
    it.state.last_token = Some(String::new());
    let mut before = String::new();
    let mut closed_interpolation = false;
    for _ in 0..30 {
        let (t, _) = first_token(&mut it);
        let now = it.state.tokenizer_control.compressed.clone().unwrap();
        assert!(now.starts_with(before.as_str()));
        before = now;
        if t == TokenOf::RightBrace && !closed_interpolation {
            closed_interpolation = true;
            it.state.tokenizer_control.is_within_text = true;
        }
        if t == TokenOf::EOF {
            break;
        }
    }
    assert_eq!(before, "let a=`x${b}y`;fn f(){}");
}

#[test]
fn law_keyword_text_read_back_on_all_standard_keywords() {
    let e = engine();
    let keywords: Vec<Token> = vec![
        TokenOf::Fn, TokenOf::Private, TokenOf::Import, TokenOf::Export, TokenOf::As, TokenOf::True,
        TokenOf::False, TokenOf::Let, TokenOf::Const, TokenOf::If, TokenOf::Else, TokenOf::Do,
        TokenOf::While, TokenOf::Until, TokenOf::Loop, TokenOf::For, TokenOf::In, TokenOf::Continue,
        TokenOf::Break, TokenOf::Return, TokenOf::Throw, TokenOf::Try, TokenOf::Catch,
    ];
    for t in keywords {
        assert!(t.is_standard_keyword());
        let text = t.to_text();
        let mut it = e.lex_raw(&[text.as_str()]);
        assert_eq!(first_token(&mut it), (t, Position::new(1, 1)));
        assert_eq!(first_token(&mut it).0, TokenOf::EOF);
    }
}
