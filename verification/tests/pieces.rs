use rhai_tokenizer::engine::Engine;
use rhai_tokenizer::error::LexErrorOf;
use rhai_tokenizer::identifiers::{is_doc_comment, is_valid_function_name, is_valid_identifier};
use rhai_tokenizer::keywords::is_reserved_keyword_or_symbol;
use rhai_tokenizer::lexer::scan_block_comment;
use rhai_tokenizer::position::Position;
use rhai_tokenizer::state::{TokenizeState, TokenizerControlBlock};
use rhai_tokenizer::stream::{InputStream, MultiInputsStream};
use rhai_tokenizer::strings::{parse_raw_string_literal, parse_string_literal};
use rhai_tokenizer::token::{Token, TokenOf};
use rhai_tokenizer::tokenize::get_next_token;
use rhai_tokenizer::chars::{
    is_binary_digit, is_hex_digit, is_id_continue, is_id_first_alphabetic, is_numeric_digit,
    is_octal_digit,
};

fn s(t: &str) -> String {
    t.to_string()
}

fn state() -> TokenizeState {
    TokenizeState {
        max_string_len: None,
        next_token_cannot_be_unary: false,
        tokenizer_control: TokenizerControlBlock::new(),
        comment_level: 0,
        include_comments: false,
        is_within_text_terminated_by: None,
        last_token: None,
    }
}

#[test]
fn control_block_starts_clear() {
    let c = TokenizerControlBlock::new();
    assert!(!c.is_within_text);
    assert!(!c.in_char_mode);
    assert_eq!(c.compressed, None);
}

#[test]
fn positions_move() {
    let mut p = Position::new(3, 4);
    assert_eq!(p.line(), Some(3));
    assert_eq!(p.position(), Some(4));
    p.advance();
    assert_eq!(p, Position::new(3, 5));
    p.rewind();
    assert_eq!(p, Position::new(3, 4));
    p.new_line();
    assert_eq!(p, Position::new(4, 0));
    assert!(p.is_beginning_of_line());
    assert_eq!(p.position(), None);
    assert!(Position::none().is_none());
    assert_eq!(Position::none().line(), None);
    let mut q = Position::new(1, u16::MAX);
    q.advance();
    assert_eq!(q, Position::new(1, u16::MAX));
}

#[test]
fn stream_reads_joined_inputs_and_takes_back_characters() {
    let mut st = MultiInputsStream::new(&["ab", "", "c"]);
    assert_eq!(st.peek_next(), Some('a'));
    assert_eq!(st.get_next(), Some('a'));
    assert_eq!(st.get_next(), Some('b'));
    st.unget('y');
    st.unget('x');
    assert_eq!(st.get_next(), Some('x'));
    assert_eq!(st.get_next(), Some('y'));
    assert_eq!(st.get_next(), Some('c'));
    assert_eq!(st.get_next(), None);
    assert_eq!(st.peek_next(), None);
}

#[test]
fn digit_classes() {
    assert!(is_hex_digit('f') && is_hex_digit('F') && is_hex_digit('9') && !is_hex_digit('g'));
    assert!(is_numeric_digit('0') && !is_numeric_digit('a'));
    assert!(is_octal_digit('7') && !is_octal_digit('8'));
    assert!(is_binary_digit('1') && !is_binary_digit('2'));
    assert!(is_id_first_alphabetic('a') && !is_id_first_alphabetic('é') && !is_id_first_alphabetic('_'));
    assert!(is_id_continue('_') && is_id_continue('1') && !is_id_continue('-') && !is_id_continue('β'));
}

#[test]
fn token_classification() {
    assert!(TokenOf::<String>::PlusAssign.is_op_assignment());
    assert!(!TokenOf::<String>::Plus.is_op_assignment());
    assert_eq!(TokenOf::<String>::PlusAssign.get_base_op_from_assignment(), Some(TokenOf::Plus));
    assert_eq!(TokenOf::<String>::XOrAssign.get_base_op_from_assignment(), Some(TokenOf::XOr));
    assert_eq!(TokenOf::<String>::Plus.get_base_op_from_assignment(), None);
    assert!(TokenOf::<String>::Ampersand.has_op_assignment());
    assert_eq!(TokenOf::<String>::Pipe.convert_to_op_assignment(), Some(TokenOf::OrAssign));
    assert_eq!(TokenOf::<String>::Comma.convert_to_op_assignment(), None);
    assert_eq!(TokenOf::<String>::Plus.precedence(), Some(150));
    assert_eq!(TokenOf::<String>::PowerOf.precedence(), Some(190));
    assert_eq!(TokenOf::<String>::Identifier(s("x")).precedence(), None);
    assert!(TokenOf::<String>::PowerOf.is_bind_right());
    assert!(!TokenOf::<String>::Plus.is_bind_right());
    assert!(TokenOf::<String>::LeftBrace.is_next_unary());
    assert!(!TokenOf::<String>::RightParen.is_next_unary());
    assert!(!TokenOf::<String>::Identifier(s("x")).is_next_unary());
    assert!(TokenOf::<String>::If.is_standard_keyword());
    assert!(!TokenOf::<String>::Plus.is_standard_keyword());
    assert!(TokenOf::<String>::Plus.is_standard_symbol());
    assert!(TokenOf::<String>::Reserved(s("var")).is_reserved());
    assert!(TokenOf::<String>::Custom(s("x")).is_custom());
    assert!(TokenOf::<String>::Plus.is_literal());
    assert!(!TokenOf::<String>::IntegerConstant(1).is_literal());
    assert_eq!(TokenOf::<String>::NotIn.literal_syntax(), "!in");
    assert_eq!(TokenOf::<String>::Unit.literal_syntax(), "()");
    assert_eq!(TokenOf::<String>::Fn.literal_syntax(), "fn");
}

#[test]
fn token_texts() {
    assert_eq!(TokenOf::<String>::IntegerConstant(-42).to_text(), "-42");
    assert_eq!(TokenOf::<String>::StringConstant(s("hi")).to_text(), "\"hi\"");
    assert_eq!(TokenOf::<String>::InterpolatedString(s("hi")).to_text(), "string");
    assert_eq!(TokenOf::<String>::CharConstant('x').to_text(), "x");
    assert_eq!(TokenOf::<String>::EOF.to_text(), "{EOF}");
    assert_eq!(TokenOf::<String>::PlusAssign.to_text(), "+=");
    assert_eq!(TokenOf::<String>::LexError(LexErrorOf::UnexpectedInput(s("?"))).to_text(), "Unexpected '?'");
}

#[test]
fn error_texts() {
    assert_eq!(LexErrorOf::<String>::UnterminatedString.to_text(), "Open string is not terminated");
    assert_eq!(LexErrorOf::<String>::StringTooLong(10).to_text(), "String is too long (max 10)");
    assert_eq!(
        LexErrorOf::ImproperSymbol(s("a"), s("")).to_text(),
        "Invalid symbol encountered: 'a'"
    );
    assert_eq!(LexErrorOf::ImproperSymbol(s("a"), s("msg")).to_text(), "msg");
    assert_eq!(LexErrorOf::MalformedNumber(s("0x")).to_text(), "Invalid number: '0x'");
}

#[test]
fn lookup_symbols() {
    assert_eq!(Token::lookup_symbol_from_syntax("+="), Some(TokenOf::PlusAssign));
    assert_eq!(Token::lookup_symbol_from_syntax("+"), Some(TokenOf::Plus));
    assert_eq!(Token::lookup_symbol_from_syntax("fn"), Some(TokenOf::Fn));
    assert_eq!(Token::lookup_symbol_from_syntax("continue"), Some(TokenOf::Continue));
    assert_eq!(Token::lookup_symbol_from_syntax("foo"), None);
    assert_eq!(Token::lookup_symbol_from_syntax(""), None);
}

#[test]
fn reserved_keywords() {
    assert_eq!(is_reserved_keyword_or_symbol("print"), (true, true, false));
    assert_eq!(is_reserved_keyword_or_symbol("curry"), (true, true, true));
    assert_eq!(is_reserved_keyword_or_symbol("var"), (true, false, false));
    assert_eq!(is_reserved_keyword_or_symbol("===" ), (true, false, false));
    assert_eq!(is_reserved_keyword_or_symbol("foo"), (false, false, false));
    assert_eq!(is_reserved_keyword_or_symbol("if"), (false, false, false));
}

#[test]
fn identifiers_and_function_names() {
    assert!(is_valid_identifier("_x1"));
    assert!(is_valid_identifier("__a"));
    assert!(!is_valid_identifier("αβ"));
    assert!(!is_valid_identifier("xβ"));
    assert!(!is_valid_identifier("_"));
    assert!(!is_valid_identifier("1x"));
    assert!(!is_valid_identifier("x-y"));
    assert!(!is_valid_identifier(""));
    assert!(is_valid_function_name("foo"));
    assert!(!is_valid_function_name("if"));
    assert!(!is_valid_function_name("print"));
    assert!(!is_valid_function_name("1x"));
}

#[test]
fn doc_comments() {
    assert!(is_doc_comment("/// x"));
    assert!(!is_doc_comment("//// x"));
    assert!(is_doc_comment("/** x"));
    assert!(!is_doc_comment("/*** x"));
    assert!(!is_doc_comment("// x"));
    assert!(!is_doc_comment(""));
}

#[test]
fn string_literal_direct() {
    let mut stream = MultiInputsStream::new(&["abc\" rest"]);
    let mut st = state();
    let mut pos = Position::new(1, 1);
    let r = parse_string_literal(&mut stream, &mut st, &mut pos, '"', false, true, false);
    assert_eq!(r, Ok((s("abc"), false, Position::new(1, 2))));
    assert_eq!(pos, Position::new(1, 5));
    assert_eq!(st.is_within_text_terminated_by, None);
    assert_eq!(stream.get_next(), Some(' '));
}

#[test]
fn string_literal_line_continuation() {
    let mut stream = MultiInputsStream::new(&["ab\\\n   cd\""]);
    let mut st = state();
    let mut pos = Position::new(1, 1);
    let r = parse_string_literal(&mut stream, &mut st, &mut pos, '"', false, true, false);
    assert_eq!(r, Ok((s("ab  cd"), false, Position::new(1, 2))));
}

#[test]
fn string_literal_open_at_end() {
    let mut stream = MultiInputsStream::new(&["ab"]);
    let mut st = state();
    let mut pos = Position::new(1, 1);
    let r = parse_string_literal(&mut stream, &mut st, &mut pos, '`', true, false, true);
    assert_eq!(r, Ok((s("ab"), false, Position::new(1, 2))));
    assert_eq!(st.is_within_text_terminated_by, Some(s("`")));
}

#[test]
fn raw_string_literal_direct() {
    let mut stream = MultiInputsStream::new(&["#\"a\"#\"##"]);
    let mut st = state();
    let mut pos = Position::new(1, 1);
    let r = parse_raw_string_literal(&mut stream, &mut st, &mut pos, 0);
    assert_eq!(r, Ok((s("a\"#"), Position::new(1, 4))));
    assert_eq!(st.is_within_text_terminated_by, None);
    assert_eq!(stream.get_next(), None);
}

#[test]
fn block_comment_direct() {
    let mut stream = MultiInputsStream::new(&["a /* b */ */ c"]);
    let mut pos = Position::new(1, 2);
    let mut comment = Some(String::new());
    let level = scan_block_comment(&mut stream, 1, &mut pos, &mut comment);
    assert_eq!(level, 0);
    assert_eq!(comment, Some(s("a /* b */ */")));
    assert_eq!(pos, Position::new(1, 14));
    assert_eq!(stream.get_next(), Some(' '));
    let mut stream2 = MultiInputsStream::new(&["x\ny"]);
    let mut pos2 = Position::new(1, 2);
    let mut none = None;
    assert_eq!(scan_block_comment(&mut stream2, 2, &mut pos2, &mut none), 2);
    assert_eq!(pos2, Position::new(2, 1));
}

#[test]
fn next_token_direct_records_unary() {
    let mut stream = MultiInputsStream::new(&["x -1"]);
    let mut st = state();
    let mut pos = Position::new(1, 0);
    assert_eq!(get_next_token(&mut stream, &mut st, &mut pos), (TokenOf::Identifier(s("x")), Position::new(1, 1)));
    assert!(st.next_token_cannot_be_unary);
    assert_eq!(get_next_token(&mut stream, &mut st, &mut pos), (TokenOf::Minus, Position::new(1, 3)));
    assert!(!st.next_token_cannot_be_unary);
    assert_eq!(get_next_token(&mut stream, &mut st, &mut pos), (TokenOf::IntegerConstant(1), Position::new(1, 4)));
    assert_eq!(get_next_token(&mut stream, &mut st, &mut pos), (TokenOf::EOF, Position::new(1, 5)));
}

#[test]
fn next_token_inside_open_comment() {
    let mut stream = MultiInputsStream::new(&["still */ 7"]);
    let mut st = state();
    st.comment_level = 1;
    let mut pos = Position::new(1, 0);
    assert_eq!(get_next_token(&mut stream, &mut st, &mut pos), (TokenOf::IntegerConstant(7), Position::new(1, 10)));
    assert_eq!(st.comment_level, 0);
}

#[test]
fn token_mapper_applies() {
    let e = Engine { custom_keywords: Vec::new(), disabled_symbols: Vec::new(), max_string_size: 0 };
    let mut it = e.lex_raw(&["x + y"]);
    let rename = |t: Token, _p: Position, _s: &TokenizeState| match t {
        TokenOf::Identifier(n) if n == "x" => TokenOf::Identifier(s("z")),
        other => other,
    };
    assert_eq!(it.next_with_map(&rename).unwrap(), (TokenOf::Identifier(s("z")), Position::new(1, 1)));
    assert_eq!(it.next_with_map(&rename).unwrap().0, TokenOf::Plus);
    assert_eq!(it.next_with_map(&rename).unwrap().0, TokenOf::Identifier(s("y")));
    assert_eq!(it.next_with_map(&rename).unwrap().0, TokenOf::EOF);
}

fn read_string(
    src: &str,
    term: char,
    verbatim: bool,
    cont: bool,
    interp: bool,
) -> (Result<(String, bool, Position), (LexErrorOf<String>, Position)>, Option<String>, Option<char>) {
    let mut stream = MultiInputsStream::new(&[src]);
    let mut st = state();
    let mut pos = Position::new(1, 1);
    let r = parse_string_literal(&mut stream, &mut st, &mut pos, term, verbatim, cont, interp);
    (r, st.is_within_text_terminated_by, stream.get_next())
}

fn read_raw(src: &str, hash_count: usize) -> (Result<(String, Position), (LexErrorOf<String>, Position)>, Option<String>) {
    let mut stream = MultiInputsStream::new(&[src]);
    let mut st = state();
    let mut pos = Position::new(1, 1);
    let r = parse_raw_string_literal(&mut stream, &mut st, &mut pos, hash_count);
    (r, st.is_within_text_terminated_by)
}

#[test]
fn string_literal_table_rows() {
    let (r, within, _) = read_string("hello\"", '"', false, true, false);
    assert_eq!(r.map(|(t, i, _)| (t, i)), Ok((s("hello"), false)));
    assert_eq!(within, None);
    let (r, within, _) = read_string("hello\n", '"', false, true, false);
    assert_eq!(r, Err((LexErrorOf::UnterminatedString, Position::new(1, 1))));
    assert_eq!(within, None);
    let (r, within, _) = read_string("hello", '"', false, true, false);
    assert_eq!(r, Err((LexErrorOf::UnterminatedString, Position::new(1, 1))));
    assert_eq!(within, None);
    let (r, within, _) = read_string("hello\\", '"', false, true, false);
    assert_eq!(r.map(|(t, i, _)| (t, i)), Ok((s("hello"), false)));
    assert_eq!(within, Some(s("\"")));
    let (r, within, _) = read_string("hello`", '`', true, false, true);
    assert_eq!(r.map(|(t, i, _)| (t, i)), Ok((s("hello"), false)));
    assert_eq!(within, None);
    let (r, within, _) = read_string("hello\n", '`', true, false, true);
    assert_eq!(r.map(|(t, i, _)| (t, i)), Ok((s("hello\n"), false)));
    assert_eq!(within, Some(s("`")));
    let (r, within, next) = read_string("hello ${x}", '`', true, false, true);
    assert_eq!(r.map(|(t, i, _)| (t, i)), Ok((s("hello "), true)));
    assert_eq!(within, None);
    assert_eq!(next, Some('{'));
    let (r, within, _) = read_string(" hello", '`', true, false, true);
    assert_eq!(r.map(|(t, i, _)| (t, i)), Ok((s(" hello"), false)));
    assert_eq!(within, Some(s("`")));
}

#[test]
fn string_line_continuation_then_new_line_at_end() {
    let (r, within, next) = read_string("hello\\\n", '"', false, true, false);
    assert_eq!(r.map(|(t, i, _)| (t, i)), Ok((s("hello"), false)));
    assert_eq!(within, Some(s("\"")));
    assert_eq!(next, None);
}

#[test]
fn string_too_long_is_error_at_start() {
    let mut stream = MultiInputsStream::new(&["abcd\""]);
    let mut st = state();
    st.max_string_len = Some(3);
    let mut pos = Position::new(1, 1);
    let r = parse_string_literal(&mut stream, &mut st, &mut pos, '"', false, true, false);
    assert_eq!(r, Err((LexErrorOf::StringTooLong(3), Position::new(1, 1))));
    let mut stream = MultiInputsStream::new(&["abc\""]);
    let mut st = state();
    st.max_string_len = Some(3);
    let mut pos = Position::new(1, 1);
    let r = parse_string_literal(&mut stream, &mut st, &mut pos, '"', false, true, false);
    assert_eq!(r.map(|(t, _, _)| t), Ok(s("abc")));
}

#[test]
fn string_tracks_text_read() {
    let mut stream = MultiInputsStream::new(&["a\\nb\" x"]);
    let mut st = state();
    st.last_token = Some(String::new());
    let mut pos = Position::new(1, 1);
    let r = parse_string_literal(&mut stream, &mut st, &mut pos, '"', false, true, false);
    assert_eq!(r.map(|(t, _, _)| t), Ok(s("a\nb")));
    assert_eq!(st.last_token, Some(s("\"a\\nb\"")));
    assert_eq!(stream.get_next(), Some(' '));
    assert_eq!(stream.get_next(), Some('x'));
    let mut stream = MultiInputsStream::new(&["ab\ncd"]);
    let mut st = state();
    st.last_token = Some(String::new());
    let mut pos = Position::new(1, 1);
    let r = parse_string_literal(&mut stream, &mut st, &mut pos, '"', false, true, false);
    assert!(r.is_err());
    assert_eq!(st.last_token, Some(s("\"ab\n")));
}

#[test]
fn raw_string_table_rows() {
    let (r, within) = read_raw("\"hello\"#", 0);
    assert_eq!(r.map(|(t, _)| t), Ok(s("hello")));
    assert_eq!(within, None);
    let (r, within) = read_raw("\"hello", 0);
    assert_eq!(r.map(|(t, _)| t), Ok(s("hello")));
    assert_eq!(within, Some(s("#")));
    let (r, within) = read_raw("###\"hello", 0);
    assert_eq!(r.map(|(t, _)| t), Ok(s("hello")));
    assert_eq!(within, Some(s("####")));
    let (r, within) = read_raw("\"\"hello\"\"#", 0);
    assert_eq!(r.map(|(t, _)| t), Ok(s("\"hello\"")));
    assert_eq!(within, None);
    let (r, within) = read_raw("#\"hello #\"# world\"##", 0);
    assert_eq!(r.map(|(t, _)| t), Ok(s("hello #\"# world")));
    assert_eq!(within, None);
    let (r, _) = read_raw("\"\\x52\"#", 0);
    assert_eq!(r.map(|(t, _)| t), Ok(s("\\x52")));
}

#[test]
fn raw_string_pending_quote_at_end_is_error() {
    let (r, within) = read_raw("\" \"hello\" \"", 0);
    assert_eq!(r, Err((LexErrorOf::UnterminatedString, Position::new(1, 1))));
    assert_eq!(within, None);
}

#[test]
fn raw_string_round_trip_leaves_rest() {
    let mut stream = MultiInputsStream::new(&["\"a\"# b\"##tail"]);
    let mut st = state();
    let mut pos = Position::new(1, 1);
    let r = parse_raw_string_literal(&mut stream, &mut st, &mut pos, 2);
    assert_eq!(r.map(|(t, _)| t), Ok(s("\"a\"# b")));
    assert_eq!(st.is_within_text_terminated_by, None);
    assert_eq!(stream.get_next(), Some('t'));
}

#[test]
fn raw_string_bad_opening_keeps_state() {
    let mut stream = MultiInputsStream::new(&["##x"]);
    let mut st = state();
    st.last_token = Some(s("#"));
    let mut pos = Position::new(1, 1);
    let r = parse_raw_string_literal(&mut stream, &mut st, &mut pos, 0);
    assert_eq!(r, Err((LexErrorOf::UnexpectedInput(s("x")), Position::new(1, 1))));
    assert_eq!(st.is_within_text_terminated_by, None);
    assert_eq!(st.last_token, Some(s("#")));
    let mut stream = MultiInputsStream::new(&["##"]);
    let mut st = state();
    let mut pos = Position::new(1, 1);
    let r = parse_raw_string_literal(&mut stream, &mut st, &mut pos, 0);
    assert_eq!(r, Err((LexErrorOf::UnterminatedString, Position::new(1, 1))));
    assert_eq!(st.is_within_text_terminated_by, None);
}

#[test]
fn raw_string_too_long() {
    let mut stream = MultiInputsStream::new(&["\"abcd\"#"]);
    let mut st = state();
    st.max_string_len = Some(3);
    let mut pos = Position::new(1, 1);
    let r = parse_raw_string_literal(&mut stream, &mut st, &mut pos, 0);
    assert_eq!(r, Err((LexErrorOf::StringTooLong(3), Position::new(1, 1))));
}

#[test]
fn block_comment_level_counts_nesting() {
    let mut stream = MultiInputsStream::new(&["/* /* */ x"]);
    let mut pos = Position::new(1, 3);
    let mut none = None;
    assert_eq!(scan_block_comment(&mut stream, 1, &mut pos, &mut none), 2);
    let mut stream = MultiInputsStream::new(&["*/ */ */ y"]);
    let mut pos = Position::new(1, 3);
    let mut none = None;
    assert_eq!(scan_block_comment(&mut stream, 3, &mut pos, &mut none), 0);
    assert_eq!(stream.get_next(), Some(' '));
}

#[test]
fn stream_yields_all_then_none() {
    let mut st = MultiInputsStream::new(&["ab", "", "c"]);
    let mut got = Vec::new();
    for _ in 0..6 {
        got.push(st.get_next());
    }
    assert_eq!(got, vec![Some('a'), Some('b'), Some('c'), None, None, None]);
}

#[test]
fn block_comment_appends_what_it_reads() {
    let mut stream = MultiInputsStream::new(&[" x */ y"]);
    let mut pos = Position::new(1, 3);
    let mut comment = Some(s("/*"));
    assert_eq!(scan_block_comment(&mut stream, 1, &mut pos, &mut comment), 0);
    assert_eq!(comment, Some(s("/* x */")));
    assert_eq!(stream.get_next(), Some(' '));
    let mut stream = MultiInputsStream::new(&[" open"]);
    let mut pos = Position::new(1, 3);
    let mut comment = Some(s("/*"));
    assert_eq!(scan_block_comment(&mut stream, 1, &mut pos, &mut comment), 1);
    assert_eq!(comment, Some(s("/* open")));
    assert_eq!(stream.get_next(), None);
}
