use rhai_tokenizer::engine::{Engine, TokenIterator};
use rhai_tokenizer::error::LexErrorOf;
use rhai_tokenizer::position::Position;
use rhai_tokenizer::token::{Token, TokenOf};

fn engine() -> Engine {
    Engine { custom_keywords: Vec::new(), disabled_symbols: Vec::new(), max_string_size: 0 }
}

fn s(t: &str) -> String {
    t.to_string()
}

fn collect(it: &mut TokenIterator) -> Vec<(Token, Position)> {
    let mut out = Vec::new();
    loop {
        let (t, p) = it.next().unwrap();
        let end = t == TokenOf::EOF;
        out.push((t, p));
        if end || out.len() > 1000 {
            return out;
        }
    }
}

fn lex(src: &str) -> Vec<(Token, Position)> {
    let e = engine();
    let mut it = e.lex_raw(&[src]);
    collect(&mut it)
}

fn tokens(src: &str) -> Vec<Token> {
    lex(src).into_iter().map(|(t, _)| t).collect()
}

#[test]
fn lex_simple_statement() {
    let r = lex("let x = 42;");
    assert_eq!(
        r,
        vec![
            (TokenOf::Let, Position::new(1, 1)),
            (TokenOf::Identifier(s("x")), Position::new(1, 5)),
            (TokenOf::Equals, Position::new(1, 7)),
            (TokenOf::IntegerConstant(42), Position::new(1, 9)),
            (TokenOf::SemiColon, Position::new(1, 11)),
            (TokenOf::EOF, Position::new(1, 12)),
        ]
    );
}

#[test]
fn lex_empty_input_gives_eof() {
    assert_eq!(lex(""), vec![(TokenOf::EOF, Position::new(1, 1))]);
}

#[test]
fn lex_joins_several_inputs() {
    let e = engine();
    let mut it = e.lex_raw(&["le", "t x"]);
    let r = collect(&mut it);
    assert_eq!(r[0], (TokenOf::Let, Position::new(1, 1)));
    assert_eq!(r[1], (TokenOf::Identifier(s("x")), Position::new(1, 5)));
}

#[test]
fn lex_numbers() {
    assert_eq!(tokens("0x1F")[0], TokenOf::IntegerConstant(31));
    assert_eq!(tokens("0o17")[0], TokenOf::IntegerConstant(15));
    assert_eq!(tokens("0b101")[0], TokenOf::IntegerConstant(5));
    assert_eq!(tokens("1_000")[0], TokenOf::IntegerConstant(1000));
    assert_eq!(tokens("9223372036854775807")[0], TokenOf::IntegerConstant(i64::MAX));
    assert_eq!(tokens("-9223372036854775808")[0], TokenOf::IntegerConstant(i64::MIN));
    assert_eq!(tokens("9223372036854775808")[0], TokenOf::FloatConstant(s("9223372036854775808")));
    assert_eq!(tokens("3.14")[0], TokenOf::FloatConstant(s("3.14")));
    assert_eq!(tokens("1e10")[0], TokenOf::FloatConstant(s("1e10")));
    assert_eq!(tokens("2e+3")[0], TokenOf::FloatConstant(s("2e+3")));
    assert_eq!(tokens("1.5e-3")[0], TokenOf::FloatConstant(s("1.5e-3")));
    assert_eq!(tokens("1. ")[0], TokenOf::FloatConstant(s("1.0")));
}

#[test]
fn lex_number_followed_by_other_tokens() {
    assert_eq!(
        tokens("123abc"),
        vec![TokenOf::IntegerConstant(123), TokenOf::Identifier(s("abc")), TokenOf::EOF]
    );
    assert_eq!(
        tokens("1.abs"),
        vec![TokenOf::IntegerConstant(1), TokenOf::Period, TokenOf::Identifier(s("abs")), TokenOf::EOF]
    );
    assert_eq!(
        tokens("1..3"),
        vec![
            TokenOf::IntegerConstant(1),
            TokenOf::ExclusiveRange,
            TokenOf::IntegerConstant(3),
            TokenOf::EOF
        ]
    );
    assert_eq!(
        tokens("0b102"),
        vec![TokenOf::IntegerConstant(2), TokenOf::IntegerConstant(2), TokenOf::EOF]
    );
}

#[test]
fn lex_malformed_numbers() {
    assert_eq!(
        tokens("0xZ"),
        vec![
            TokenOf::LexError(LexErrorOf::MalformedNumber(s(""))),
            TokenOf::Identifier(s("Z")),
            TokenOf::EOF
        ]
    );
    assert_eq!(
        tokens("0xFFFFFFFFFFFFFFFFF")[0],
        TokenOf::LexError(LexErrorOf::MalformedNumber(s("FFFFFFFFFFFFFFFFF")))
    );
    assert_eq!(tokens("0xFFFFFFFFFFFFFFFF")[0], TokenOf::IntegerConstant(-1));
}

#[test]
fn lex_unary_and_binary_minus() {
    let r = lex("-5");
    assert_eq!(r[0], (TokenOf::IntegerConstant(-5), Position::new(1, 1)));
    assert_eq!(
        tokens("x-5"),
        vec![TokenOf::Identifier(s("x")), TokenOf::Minus, TokenOf::IntegerConstant(5), TokenOf::EOF]
    );
    assert_eq!(
        tokens("x = -y"),
        vec![
            TokenOf::Identifier(s("x")),
            TokenOf::Equals,
            TokenOf::UnaryMinus,
            TokenOf::Identifier(s("y")),
            TokenOf::EOF
        ]
    );
    assert_eq!(tokens("+1")[0], TokenOf::UnaryPlus);
    assert_eq!(tokens("1+1")[1], TokenOf::Plus);
}

#[test]
fn lex_symbols() {
    assert_eq!(tokens("a != b")[1], TokenOf::NotEqualsTo);
    assert_eq!(tokens("x !in y")[1], TokenOf::NotIn);
    assert_eq!(
        tokens("!inx"),
        vec![TokenOf::Bang, TokenOf::Identifier(s("inx")), TokenOf::EOF]
    );
    assert_eq!(tokens("#{")[0], TokenOf::MapStart);
    assert_eq!(tokens("..=")[0], TokenOf::InclusiveRange);
    assert_eq!(tokens("**=")[0], TokenOf::PowerOfAssign);
    assert_eq!(tokens("?.")[0], TokenOf::Elvis);
    assert_eq!(tokens("?[")[0], TokenOf::QuestionBracket);
    assert_eq!(tokens("??")[0], TokenOf::DoubleQuestion);
    assert_eq!(tokens("=>")[0], TokenOf::DoubleArrow);
    assert_eq!(tokens("()")[0], TokenOf::Unit);
    assert_eq!(tokens("::")[0], TokenOf::DoubleColon);
    assert_eq!(tokens("<<=")[0], TokenOf::LeftShiftAssign);
    assert_eq!(tokens(">>")[0], TokenOf::RightShift);
    assert_eq!(tokens("_")[0], TokenOf::Underscore);
}

#[test]
fn lex_improper_and_reserved_symbols() {
    assert_eq!(
        tokens("===")[0],
        TokenOf::LexError(LexErrorOf::ImproperSymbol(
            s("==="),
            s("'===' is not a valid operator. This is not JavaScript! Should it be '=='?")
        ))
    );
    assert_eq!(
        tokens("->")[0],
        TokenOf::LexError(LexErrorOf::ImproperSymbol(
            s("->"),
            s("'->' is not a valid symbol. This is not C or C++!")
        ))
    );
    assert_eq!(
        tokens("# {")[0],
        TokenOf::LexError(LexErrorOf::ImproperSymbol(
            s("# {"),
            s("'#' is not a valid symbol. Should it be '#{'?")
        ))
    );
    assert_eq!(tokens("var")[0], TokenOf::Reserved(s("var")));
    assert_eq!(tokens("@")[0], TokenOf::Reserved(s("@")));
}

#[test]
fn lex_custom_and_disabled_keywords() {
    let e = Engine {
        custom_keywords: vec![s("foo"), s("==="), s("while")],
        disabled_symbols: vec![s("if"), s("var"), s("while")],
        max_string_size: 0,
    };
    let mut it = e.lex_raw(&["foo === if var while"]);
    let r: Vec<Token> = collect(&mut it).into_iter().map(|(t, _)| t).collect();
    assert_eq!(
        r,
        vec![
            TokenOf::Custom(s("foo")),
            TokenOf::Custom(s("===")),
            TokenOf::Reserved(s("if")),
            TokenOf::LexError(LexErrorOf::ImproperSymbol(s("var"), s("reserved keyword 'var' is disabled"))),
            TokenOf::Custom(s("while")),
            TokenOf::EOF,
        ]
    );
}

#[test]
fn lex_identifiers() {
    assert_eq!(tokens("αβ")[0], TokenOf::LexError(LexErrorOf::UnexpectedInput(s("α"))));
    assert_eq!(
        tokens("aé"),
        vec![TokenOf::Identifier(s("a")), TokenOf::LexError(LexErrorOf::UnexpectedInput(s("é"))), TokenOf::EOF]
    );
    assert_eq!(tokens("_x1")[0], TokenOf::Identifier(s("_x1")));
    assert_eq!(tokens("_1")[0], TokenOf::LexError(LexErrorOf::MalformedIdentifier(s("_1"))));
    assert_eq!(tokens("fn")[0], TokenOf::Fn);
    assert_eq!(tokens("¿")[0], TokenOf::LexError(LexErrorOf::UnexpectedInput(s("¿"))));
}

#[test]
fn lex_strings() {
    assert_eq!(tokens("\"hello\\nworld\"")[0], TokenOf::StringConstant(s("hello\nworld")));
    assert_eq!(tokens("\"\\x41\\u00e9\"")[0], TokenOf::StringConstant(s("Aé")));
    assert_eq!(tokens("\"a\"\"b\"")[0], TokenOf::StringConstant(s("a\"b")));
    assert_eq!(
        tokens("\"\\q\"")[0],
        TokenOf::LexError(LexErrorOf::MalformedEscapeSequence(s("\\q")))
    );
    assert_eq!(
        tokens("\"\\xZZ\"")[0],
        TokenOf::LexError(LexErrorOf::MalformedEscapeSequence(s("\\xZ")))
    );
    let r = lex("\"abc");
    assert_eq!(r[0], (TokenOf::LexError(LexErrorOf::UnterminatedString), Position::new(1, 1)));
}

#[test]
fn lex_string_too_long() {
    let e = Engine { custom_keywords: Vec::new(), disabled_symbols: Vec::new(), max_string_size: 3 };
    let mut it = e.lex_raw(&["\"abcd\""]);
    let r = collect(&mut it);
    assert_eq!(r[0], (TokenOf::LexError(LexErrorOf::StringTooLong(3)), Position::new(1, 1)));
    let mut it2 = e.lex_raw(&["\"abc\""]);
    assert_eq!(it2.next().unwrap().0, TokenOf::StringConstant(s("abc")));
}

#[test]
fn lex_chars() {
    assert_eq!(lex("'a'")[0], (TokenOf::CharConstant('a'), Position::new(1, 1)));
    assert_eq!(tokens("'\\t'")[0], TokenOf::CharConstant('\t'));
    assert_eq!(tokens("'ab'")[0], TokenOf::LexError(LexErrorOf::MalformedChar(s("ab"))));
    let r = lex("''");
    assert_eq!(r[0], (TokenOf::LexError(LexErrorOf::MalformedChar(s(""))), Position::new(1, 1)));
    assert_eq!(r[1], (TokenOf::LexError(LexErrorOf::UnterminatedString), Position::new(1, 2)));
}

#[test]
fn lex_raw_strings() {
    assert_eq!(lex("#\"a\"b\"#")[0], (TokenOf::StringConstant(s("a\"b")), Position::new(1, 1)));
    assert_eq!(tokens("##\"x\"#y\"##")[0], TokenOf::StringConstant(s("x\"#y")));
    assert_eq!(
        tokens("##x")[0],
        TokenOf::LexError(LexErrorOf::UnexpectedInput(s("x")))
    );
}

#[test]
fn lex_verbatim_and_interpolated_strings() {
    let e = engine();
    let mut it = e.lex_raw(&["`a${x}b`"]);
    assert_eq!(it.next().unwrap(), (TokenOf::InterpolatedString(s("a")), Position::new(1, 1)));
    assert_eq!(it.next().unwrap().0, TokenOf::LeftBrace);
    assert_eq!(it.next().unwrap().0, TokenOf::Identifier(s("x")));
    assert_eq!(it.next().unwrap().0, TokenOf::RightBrace);
    it.state.tokenizer_control.is_within_text = true;
    assert_eq!(it.next().unwrap(), (TokenOf::StringConstant(s("b")), Position::new(1, 7)));
    assert_eq!(it.next().unwrap().0, TokenOf::EOF);
}

#[test]
fn lex_unterminated_verbatim_string_is_error() {
    let r = lex("`abc");
    assert_eq!(r[0], (TokenOf::LexError(LexErrorOf::UnterminatedString), Position::new(1, 1)));
    assert_eq!(r[1].0, TokenOf::EOF);
}

#[test]
fn lex_verbatim_string_over_lines() {
    let r = lex("`\nab\ncd`");
    assert_eq!(r[0], (TokenOf::StringConstant(s("ab\ncd")), Position::new(1, 1)));
}

#[test]
fn lex_comments_skipped() {
    let r = lex("// hi\n1");
    assert_eq!(r[0], (TokenOf::IntegerConstant(1), Position::new(2, 1)));
    let r = lex("/* a /* b */ c */ 1");
    assert_eq!(r[0], (TokenOf::IntegerConstant(1), Position::new(1, 19)));
    let r = lex("/* open");
    assert_eq!(r[0].0, TokenOf::EOF);
}

#[test]
fn lex_comments_included() {
    let e = engine();
    let mut it = e.lex_raw(&["// hi\n/* a */1"]);
    it.state.include_comments = true;
    assert_eq!(it.next().unwrap(), (TokenOf::Comment(s("// hi")), Position::new(1, 1)));
    assert_eq!(it.next().unwrap(), (TokenOf::Comment(s("/* a */")), Position::new(2, 1)));
    assert_eq!(it.next().unwrap(), (TokenOf::IntegerConstant(1), Position::new(2, 8)));
}

#[test]
fn lex_char_mode() {
    let e = engine();
    let mut it = e.lex_raw(&["ab"]);
    it.state.tokenizer_control.in_char_mode = true;
    assert_eq!(it.next().unwrap(), (TokenOf::UnprocessedRawChar('a'), Position::new(1, 0)));
    assert!(!it.state.tokenizer_control.in_char_mode);
    assert_eq!(it.next().unwrap(), (TokenOf::Identifier(s("b")), Position::new(1, 2)));
}

#[test]
fn lex_compressed_script() {
    let e = engine();
    let mut it = e.lex_raw(&["let  x =\n 1 ;"]);
    it.state.tokenizer_control.compressed = Some(String::new());
    it.state.last_token = Some(String::new());
    let r = collect(&mut it);
    assert_eq!(r.len(), 6);
    assert_eq!(it.state.tokenizer_control.compressed, Some(s("let x=1;")));
}

#[test]
fn lex_positions_across_lines() {
    let r = lex("a\n  b");
    assert_eq!(r[0], (TokenOf::Identifier(s("a")), Position::new(1, 1)));
    assert_eq!(r[1], (TokenOf::Identifier(s("b")), Position::new(2, 3)));
}

#[test]
fn lex_char_mode_while_compressing_without_token_text() {
    let e = engine();
    let mut it = e.lex_raw(&["a\nb"]);
    it.state.tokenizer_control.compressed = Some(s("x"));
    it.state.tokenizer_control.in_char_mode = true;
    assert_eq!(it.next().unwrap(), (TokenOf::UnprocessedRawChar('a'), Position::new(1, 0)));
    assert_eq!(it.state.tokenizer_control.compressed, Some(s("xa")));
    assert!(!it.state.tokenizer_control.in_char_mode);
    assert_eq!(it.pos, Position::new(1, 1));
    it.state.tokenizer_control.in_char_mode = true;
    assert_eq!(it.next().unwrap(), (TokenOf::UnprocessedRawChar('\n'), Position::new(1, 1)));
    assert_eq!(it.pos, Position::new(2, 0));
    assert_eq!(it.state.tokenizer_control.compressed, Some(s("xa\n")));
    assert_eq!(it.state.last_token, None);
}

#[test]
fn lex_end_of_file_kept_while_compressing() {
    let e = engine();
    let mut it = e.lex_raw(&[""]);
    it.state.tokenizer_control.compressed = Some(s("done"));
    for _ in 0..3 {
        assert_eq!(it.next().unwrap().0, TokenOf::EOF);
        assert_eq!(it.state.tokenizer_control.compressed, Some(s("done")));
    }
}

#[test]
fn lex_end_of_file_not_passed_to_mapper() {
    let e = engine();
    let mut it = e.lex_raw(&["x"]);
    let to_eof = |_t: Token, _p: Position, _s: &rhai_tokenizer::state::TokenizeState| TokenOf::Identifier(s("seen"));
    assert_eq!(it.next_with_map(&to_eof).unwrap().0, TokenOf::Identifier(s("seen")));
    assert_eq!(it.next_with_map(&to_eof).unwrap().0, TokenOf::EOF);
    assert_eq!(it.next_with_map(&to_eof).unwrap().0, TokenOf::EOF);
}

#[test]
fn lex_custom_keyword_translated() {
    let e = Engine { custom_keywords: vec![s("exec"), s("|")], disabled_symbols: vec![s("|")], max_string_size: 0 };
    let r = {
        let mut it = e.lex_raw(&["exec | x"]);
        collect(&mut it).into_iter().map(|(t, _)| t).collect::<Vec<Token>>()
    };
    assert_eq!(r, vec![TokenOf::Custom(s("exec")), TokenOf::Custom(s("|")), TokenOf::Identifier(s("x")), TokenOf::EOF]);
}
