//! The tokenizer proper: reading the next token from a character stream.
use vstd::prelude::*;
use crate::position::{Position, advanced, advanced_by, next_line};
use crate::token::{Token, TokenOf, SpecToken};
use crate::stream::{InputStream, room_kept};
use crate::chars::{
    id_start, id_continue, is_id_continue, is_id_first_alphabetic, is_numeric_digit_spec,
    is_hex_digit_spec, is_octal_digit_spec, is_binary_digit_spec, is_numeric_digit, is_hex_digit,
    is_octal_digit, is_binary_digit,
};
use crate::error::LexErrorOf;
use crate::numbers::{parse_unsigned, parse_signed, is_float_text, parse_unsigned_chars, parse_signed_chars, is_float_text_chars};
use crate::strings::first_of;
use crate::state::{opt_text, reset_last, push_last, push_last_token};
use crate::text::{string_push_str, string_from_chars};

verus! {

/// A reserved symbol token.
pub open spec fn rsv(s: &str) -> SpecToken {
    TokenOf::Reserved(s@)
}

/// A string with the text of a string slice.
pub(crate) fn text_of(s: &str) -> (r: String)
    ensures
        r@ == s@,
{
    let mut r = String::new();
    string_push_str(&mut r, s);
    assert(r@ =~= s@);
    r
}

/// The symbol that starts with the character `c` (already read), followed by `rest`, and how many
/// characters of `rest` it takes; `None` when `c` starts no symbol.  `unary_ok` tells whether a
/// `+` or `-` here is a unary operator.
pub open spec fn symbol_step(c: char, rest: Seq<char>, unary_ok: bool) -> Option<(SpecToken, nat)> {
    let cc = if rest.len() > 0 { rest[0] } else { '\0' };
    let c3 = first_of(rest.drop_first());
    if c == '{' {
        Some((TokenOf::LeftBrace, 0))
    } else if c == '}' {
        Some((TokenOf::RightBrace, 0))
    } else if c == '(' {
        if cc == ')' {
            Some((TokenOf::Unit, 1))
        } else if cc == '*' {
            Some((rsv("(*"), 1))
        } else {
            Some((TokenOf::LeftParen, 0))
        }
    } else if c == ')' {
        Some((TokenOf::RightParen, 0))
    } else if c == '[' {
        Some((TokenOf::LeftBracket, 0))
    } else if c == ']' {
        Some((TokenOf::RightBracket, 0))
    } else if c == '#' {
        if cc == '{' {
            Some((TokenOf::MapStart, 1))
        } else if cc == '!' {
            Some((rsv("#!"), 0))
        } else if cc == ' ' {
            if c3 == Some('{') {
                Some((rsv("# {"), 2))
            } else {
                Some((rsv("#"), 1))
            }
        } else {
            Some((rsv("#"), 0))
        }
    } else if c == '+' {
        if cc == '=' {
            Some((TokenOf::PlusAssign, 1))
        } else if cc == '+' {
            Some((rsv("++"), 1))
        } else if unary_ok {
            Some((TokenOf::UnaryPlus, 0))
        } else {
            Some((TokenOf::Plus, 0))
        }
    } else if c == '-' {
        if cc == '=' {
            Some((TokenOf::MinusAssign, 1))
        } else if cc == '>' {
            Some((rsv("->"), 1))
        } else if cc == '-' {
            Some((rsv("--"), 1))
        } else if unary_ok {
            Some((TokenOf::UnaryMinus, 0))
        } else {
            Some((TokenOf::Minus, 0))
        }
    } else if c == '*' {
        if cc == ')' {
            Some((rsv("*)"), 1))
        } else if cc == '=' {
            Some((TokenOf::MultiplyAssign, 1))
        } else if cc == '*' {
            if c3 == Some('=') {
                Some((TokenOf::PowerOfAssign, 2))
            } else {
                Some((TokenOf::PowerOf, 1))
            }
        } else {
            Some((TokenOf::Multiply, 0))
        }
    } else if c == '/' {
        if cc == '=' {
            Some((TokenOf::DivideAssign, 1))
        } else {
            Some((TokenOf::Divide, 0))
        }
    } else if c == ';' {
        Some((TokenOf::SemiColon, 0))
    } else if c == ',' {
        Some((TokenOf::Comma, 0))
    } else if c == '.' {
        if cc == '.' {
            if c3 == Some('.') {
                Some((rsv("..."), 2))
            } else if c3 == Some('=') {
                Some((TokenOf::InclusiveRange, 2))
            } else {
                Some((TokenOf::ExclusiveRange, 1))
            }
        } else {
            Some((TokenOf::Period, 0))
        }
    } else if c == '=' {
        if cc == '=' {
            if c3 == Some('=') {
                Some((rsv("==="), 2))
            } else {
                Some((TokenOf::EqualsTo, 1))
            }
        } else if cc == '>' {
            Some((TokenOf::DoubleArrow, 1))
        } else {
            Some((TokenOf::Equals, 0))
        }
    } else if c == ':' {
        if cc == ':' {
            if c3 == Some('<') {
                Some((rsv("::<"), 2))
            } else {
                Some((TokenOf::DoubleColon, 1))
            }
        } else if cc == '=' {
            Some((rsv(":="), 1))
        } else if cc == ';' {
            Some((rsv(":;"), 1))
        } else {
            Some((TokenOf::Colon, 0))
        }
    } else if c == '<' {
        if cc == '=' {
            Some((TokenOf::LessThanEqualsTo, 1))
        } else if cc == '-' {
            Some((rsv("<-"), 1))
        } else if cc == '<' {
            if c3 == Some('=') {
                Some((TokenOf::LeftShiftAssign, 2))
            } else {
                Some((TokenOf::LeftShift, 1))
            }
        } else if cc == '|' {
            Some((rsv("<|"), 1))
        } else {
            Some((TokenOf::LessThan, 0))
        }
    } else if c == '>' {
        if cc == '=' {
            Some((TokenOf::GreaterThanEqualsTo, 1))
        } else if cc == '>' {
            if c3 == Some('=') {
                Some((TokenOf::RightShiftAssign, 2))
            } else {
                Some((TokenOf::RightShift, 1))
            }
        } else {
            Some((TokenOf::GreaterThan, 0))
        }
    } else if c == '!' {
        if cc == 'i' {
            if c3 == Some('n') && !(rest.len() > 2 && id_continue(rest[2])) {
                Some((TokenOf::NotIn, 2))
            } else {
                Some((TokenOf::Bang, 0))
            }
        } else if cc == '=' {
            if c3 == Some('=') {
                Some((rsv("!=="), 2))
            } else {
                Some((TokenOf::NotEqualsTo, 1))
            }
        } else if cc == '.' {
            Some((rsv("!."), 1))
        } else {
            Some((TokenOf::Bang, 0))
        }
    } else if c == '|' {
        if cc == '|' {
            Some((TokenOf::Or, 1))
        } else if cc == '=' {
            Some((TokenOf::OrAssign, 1))
        } else if cc == '>' {
            Some((rsv("|>"), 1))
        } else {
            Some((TokenOf::Pipe, 0))
        }
    } else if c == '&' {
        if cc == '&' {
            Some((TokenOf::And, 1))
        } else if cc == '=' {
            Some((TokenOf::AndAssign, 1))
        } else {
            Some((TokenOf::Ampersand, 0))
        }
    } else if c == '^' {
        if cc == '=' {
            Some((TokenOf::XOrAssign, 1))
        } else {
            Some((TokenOf::XOr, 0))
        }
    } else if c == '~' {
        Some((rsv("~"), 0))
    } else if c == '%' {
        if cc == '=' {
            Some((TokenOf::ModuloAssign, 1))
        } else {
            Some((TokenOf::Modulo, 0))
        }
    } else if c == '@' {
        Some((rsv("@"), 0))
    } else if c == '$' {
        Some((rsv("$"), 0))
    } else if c == '?' {
        if cc == '.' {
            Some((TokenOf::Elvis, 1))
        } else if cc == '?' {
            Some((TokenOf::DoubleQuestion, 1))
        } else if cc == '[' {
            Some((TokenOf::QuestionBracket, 1))
        } else {
            Some((rsv("?"), 0))
        }
    } else {
        None
    }
}


/// Reads the rest of a symbol that starts with the character `c` (already read, with the
/// position moved past it), as `symbol_step` says.
pub(crate) fn lex_symbol<S: InputStream + ?Sized>(
    stream: &mut S,
    pos: &mut Position,
    c: char,
    unary_ok: bool,
) -> (r: Option<Token>)
    requires
        old(pos).line >= 1,
        old(stream).room() >= 1,
    ensures
        final(pos).line >= 1,
        match symbol_step(c, old(stream).remaining(), unary_ok) {
            Some((t, k)) => {
                &&& r matches Some(tok)
                &&& tok@ == t
                &&& k <= old(stream).remaining().len()
                &&& final(stream).remaining() == old(stream).remaining().skip(k as int)
                &&& *final(pos) == advanced_by(*old(pos), k)
            },
            None => {
                &&& r is None
                &&& final(stream).remaining() == old(stream).remaining()
                &&& *final(pos) == *old(pos)
            },
        },
{
    let ghost r0 = stream.remaining();
    let ghost p0 = *pos;
    proof {
        assert(r0.skip(0) =~= r0);
        if r0.len() > 0 {
            assert(r0.skip(1) =~= r0.drop_first());
        }
        if r0.len() > 1 {
            assert(r0.skip(2) =~= r0.drop_first().drop_first());
        }
        assert(advanced_by(p0, 1) == advanced(p0)) by {
            reveal_with_fuel(advanced_by, 2);
        }
        assert(advanced_by(p0, 2) == advanced(advanced(p0))) by {
            reveal_with_fuel(advanced_by, 3);
        }
    }
    let cc = match stream.peek_next() {
        Some(x) => x,
        None => '\0',
    };
    if c == '{' {
        Some(TokenOf::LeftBrace)
    } else if c == '}' {
        Some(TokenOf::RightBrace)
    } else if c == '(' {
        if cc == ')' {
            stream.eat_next_and_advance(pos);
            Some(TokenOf::Unit)
        } else if cc == '*' {
            stream.eat_next_and_advance(pos);
            Some(TokenOf::Reserved(text_of("(*")))
        } else {
            Some(TokenOf::LeftParen)
        }
    } else if c == ')' {
        Some(TokenOf::RightParen)
    } else if c == '[' {
        Some(TokenOf::LeftBracket)
    } else if c == ']' {
        Some(TokenOf::RightBracket)
    } else if c == '#' {
        if cc == '{' {
            stream.eat_next_and_advance(pos);
            Some(TokenOf::MapStart)
        } else if cc == '!' {
            Some(TokenOf::Reserved(text_of("#!")))
        } else if cc == ' ' {
            stream.eat_next_and_advance(pos);
            if stream.peek_next() == Some('{') {
                stream.eat_next_and_advance(pos);
                Some(TokenOf::Reserved(text_of("# {")))
            } else {
                Some(TokenOf::Reserved(text_of("#")))
            }
        } else {
            Some(TokenOf::Reserved(text_of("#")))
        }
    } else if c == '+' {
        if cc == '=' {
            stream.eat_next_and_advance(pos);
            Some(TokenOf::PlusAssign)
        } else if cc == '+' {
            stream.eat_next_and_advance(pos);
            Some(TokenOf::Reserved(text_of("++")))
        } else if unary_ok {
            Some(TokenOf::UnaryPlus)
        } else {
            Some(TokenOf::Plus)
        }
    } else if c == '-' {
        if cc == '=' {
            stream.eat_next_and_advance(pos);
            Some(TokenOf::MinusAssign)
        } else if cc == '>' {
            stream.eat_next_and_advance(pos);
            Some(TokenOf::Reserved(text_of("->")))
        } else if cc == '-' {
            stream.eat_next_and_advance(pos);
            Some(TokenOf::Reserved(text_of("--")))
        } else if unary_ok {
            Some(TokenOf::UnaryMinus)
        } else {
            Some(TokenOf::Minus)
        }
    } else if c == '*' {
        if cc == ')' {
            stream.eat_next_and_advance(pos);
            Some(TokenOf::Reserved(text_of("*)")))
        } else if cc == '=' {
            stream.eat_next_and_advance(pos);
            Some(TokenOf::MultiplyAssign)
        } else if cc == '*' {
            stream.eat_next_and_advance(pos);
            if stream.peek_next() == Some('=') {
                stream.eat_next_and_advance(pos);
                Some(TokenOf::PowerOfAssign)
            } else {
                Some(TokenOf::PowerOf)
            }
        } else {
            Some(TokenOf::Multiply)
        }
    } else if c == '/' {
        if cc == '=' {
            stream.eat_next_and_advance(pos);
            Some(TokenOf::DivideAssign)
        } else {
            Some(TokenOf::Divide)
        }
    } else if c == ';' {
        Some(TokenOf::SemiColon)
    } else if c == ',' {
        Some(TokenOf::Comma)
    } else if c == '.' {
        if cc == '.' {
            stream.eat_next_and_advance(pos);
            let c3 = stream.peek_next();
            if c3 == Some('.') {
                stream.eat_next_and_advance(pos);
                Some(TokenOf::Reserved(text_of("...")))
            } else if c3 == Some('=') {
                stream.eat_next_and_advance(pos);
                Some(TokenOf::InclusiveRange)
            } else {
                Some(TokenOf::ExclusiveRange)
            }
        } else {
            Some(TokenOf::Period)
        }
    } else if c == '=' {
        if cc == '=' {
            stream.eat_next_and_advance(pos);
            if stream.peek_next() == Some('=') {
                stream.eat_next_and_advance(pos);
                Some(TokenOf::Reserved(text_of("===")))
            } else {
                Some(TokenOf::EqualsTo)
            }
        } else if cc == '>' {
            stream.eat_next_and_advance(pos);
            Some(TokenOf::DoubleArrow)
        } else {
            Some(TokenOf::Equals)
        }
    } else if c == ':' {
        if cc == ':' {
            stream.eat_next_and_advance(pos);
            if stream.peek_next() == Some('<') {
                stream.eat_next_and_advance(pos);
                Some(TokenOf::Reserved(text_of("::<")))
            } else {
                Some(TokenOf::DoubleColon)
            }
        } else if cc == '=' {
            stream.eat_next_and_advance(pos);
            Some(TokenOf::Reserved(text_of(":=")))
        } else if cc == ';' {
            stream.eat_next_and_advance(pos);
            Some(TokenOf::Reserved(text_of(":;")))
        } else {
            Some(TokenOf::Colon)
        }
    } else if c == '<' {
        if cc == '=' {
            stream.eat_next_and_advance(pos);
            Some(TokenOf::LessThanEqualsTo)
        } else if cc == '-' {
            stream.eat_next_and_advance(pos);
            Some(TokenOf::Reserved(text_of("<-")))
        } else if cc == '<' {
            stream.eat_next_and_advance(pos);
            if stream.peek_next() == Some('=') {
                stream.eat_next_and_advance(pos);
                Some(TokenOf::LeftShiftAssign)
            } else {
                Some(TokenOf::LeftShift)
            }
        } else if cc == '|' {
            stream.eat_next_and_advance(pos);
            Some(TokenOf::Reserved(text_of("<|")))
        } else {
            Some(TokenOf::LessThan)
        }
    } else if c == '>' {
        if cc == '=' {
            stream.eat_next_and_advance(pos);
            Some(TokenOf::GreaterThanEqualsTo)
        } else if cc == '>' {
            stream.eat_next_and_advance(pos);
            if stream.peek_next() == Some('=') {
                stream.eat_next_and_advance(pos);
                Some(TokenOf::RightShiftAssign)
            } else {
                Some(TokenOf::RightShift)
            }
        } else {
            Some(TokenOf::GreaterThan)
        }
    } else if c == '!' {
        if cc == 'i' {
            stream.get_next();
            if stream.peek_next() == Some('n') {
                stream.get_next();
                let after = stream.peek_next();
                let continues = match after {
                    Some(x) => is_id_continue(x),
                    None => false,
                };
                if continues {
                    stream.unget('n');
                    stream.unget('i');
                    assert(stream.remaining() =~= r0);
                    Some(TokenOf::Bang)
                } else {
                    pos.advance();
                    pos.advance();
                    Some(TokenOf::NotIn)
                }
            } else {
                stream.unget('i');
                assert(stream.remaining() =~= r0);
                Some(TokenOf::Bang)
            }
        } else if cc == '=' {
            stream.eat_next_and_advance(pos);
            if stream.peek_next() == Some('=') {
                stream.eat_next_and_advance(pos);
                Some(TokenOf::Reserved(text_of("!==")))
            } else {
                Some(TokenOf::NotEqualsTo)
            }
        } else if cc == '.' {
            stream.eat_next_and_advance(pos);
            Some(TokenOf::Reserved(text_of("!.")))
        } else {
            Some(TokenOf::Bang)
        }
    } else if c == '|' {
        if cc == '|' {
            stream.eat_next_and_advance(pos);
            Some(TokenOf::Or)
        } else if cc == '=' {
            stream.eat_next_and_advance(pos);
            Some(TokenOf::OrAssign)
        } else if cc == '>' {
            stream.eat_next_and_advance(pos);
            Some(TokenOf::Reserved(text_of("|>")))
        } else {
            Some(TokenOf::Pipe)
        }
    } else if c == '&' {
        if cc == '&' {
            stream.eat_next_and_advance(pos);
            Some(TokenOf::And)
        } else if cc == '=' {
            stream.eat_next_and_advance(pos);
            Some(TokenOf::AndAssign)
        } else {
            Some(TokenOf::Ampersand)
        }
    } else if c == '^' {
        if cc == '=' {
            stream.eat_next_and_advance(pos);
            Some(TokenOf::XOrAssign)
        } else {
            Some(TokenOf::XOr)
        }
    } else if c == '~' {
        Some(TokenOf::Reserved(text_of("~")))
    } else if c == '%' {
        if cc == '=' {
            stream.eat_next_and_advance(pos);
            Some(TokenOf::ModuloAssign)
        } else {
            Some(TokenOf::Modulo)
        }
    } else if c == '@' {
        Some(TokenOf::Reserved(text_of("@")))
    } else if c == '$' {
        Some(TokenOf::Reserved(text_of("$")))
    } else if c == '?' {
        if cc == '.' {
            stream.eat_next_and_advance(pos);
            Some(TokenOf::Elvis)
        } else if cc == '?' {
            stream.eat_next_and_advance(pos);
            Some(TokenOf::DoubleQuestion)
        } else if cc == '[' {
            stream.eat_next_and_advance(pos);
            Some(TokenOf::QuestionBracket)
        } else {
            Some(TokenOf::Reserved(text_of("?")))
        }
    } else {
        None
    }
}


/// Where the scan of a number stands: the input not yet read, the position, the text so far,
/// the radix (for `0x`, `0o` and `0b` numbers) and whether a point or an exponent has been
/// seen.
pub struct NumScan {
    pub input: Seq<char>,
    pub pos: Position,
    pub result: Seq<char>,
    pub radix: Option<u32>,
    pub has_period: bool,
    pub has_e: bool,
}

/// Is `c` a digit of a number in the given radix (decimal when there is none)?
pub open spec fn valid_digit(radix: Option<u32>, c: char) -> bool {
    match radix {
        None => is_numeric_digit_spec(c),
        Some(r) => if r == 16 {
            is_hex_digit_spec(c)
        } else if r == 8 {
            is_octal_digit_spec(c)
        } else {
            is_binary_digit_spec(c)
        },
    }
}

/// The radix that a letter after a leading `0` selects.
pub open spec fn radix_of(c: char) -> u32 {
    if c == 'x' || c == 'X' {
        16
    } else if c == 'o' || c == 'O' {
        8
    } else {
        2
    }
}

/// The rest of the scan of a number whose first digit is `first`.
pub open spec fn num_loop(n: NumScan, first: char) -> NumScan
    decreases n.input.len(),
{
    if n.input.len() == 0 {
        n
    } else {
        let nc = n.input[0];
        let after = n.input.drop_first();
        let eaten = NumScan { input: after, pos: advanced(n.pos), ..n };
        if nc == '_' {
            num_loop(eaten, first)
        } else if valid_digit(n.radix, nc) {
            num_loop(NumScan { result: n.result.push(nc), ..eaten }, first)
        } else if nc == '.' && !n.has_period && n.radix is None {
            match first_of(after) {
                Some(d) => if '0' <= d && d <= '9' {
                    num_loop(NumScan { result: n.result.push('.'), has_period: true, ..eaten }, first)
                } else if d == '_' || d == '.' {
                    n
                } else if !id_start(d) {
                    num_loop(
                        NumScan { result: n.result.push('.').push('0'), has_period: true, ..eaten },
                        first,
                    )
                } else {
                    n
                },
                None => n,
            }
        } else if (nc == 'e' || nc == 'E') && !n.has_e && n.radix is None {
            match first_of(after) {
                Some(d) => if '0' <= d && d <= '9' {
                    num_loop(
                        NumScan { result: n.result.push('e'), has_e: true, has_period: true, ..eaten },
                        first,
                    )
                } else if d == '+' || d == '-' {
                    num_loop(
                        NumScan {
                            input: after.drop_first(),
                            pos: advanced(advanced(n.pos)),
                            result: n.result.push('e').push(d),
                            has_e: true,
                            has_period: true,
                            ..n
                        },
                        first,
                    )
                } else {
                    n
                },
                None => n,
            }
        } else if (nc == 'x' || nc == 'o' || nc == 'b' || nc == 'X' || nc == 'O' || nc == 'B')
            && first == '0' && n.result.len() <= 1 {
            num_loop(NumScan { result: n.result.push(nc), radix: Some(radix_of(nc)), ..eaten }, first)
        } else {
            n
        }
    }
}

/// The token of the number text `text` read in the given radix: an integer, a floating-point
/// number, or a malformed number.
pub open spec fn number_token(text: Seq<char>, radix: Option<u32>) -> SpecToken {
    match radix {
        Some(r) => {
            let digits = text.skip(2);
            match parse_unsigned(digits, r as nat) {
                Some(v) => TokenOf::IntegerConstant(v as i64),
                None => TokenOf::LexError(LexErrorOf::MalformedNumber(digits)),
            }
        },
        None => match parse_signed(text) {
            Some(v) => TokenOf::IntegerConstant(v),
            None => if is_float_text(text) {
                TokenOf::FloatConstant(text)
            } else {
                TokenOf::LexError(LexErrorOf::MalformedNumber(text))
            },
        },
    }
}

/// The scan of a number starting with the digit `c` (already read), preceded by a `-` read at
/// `negated` if there is one; the scan's text is the number's text without that sign.
pub open spec fn number_scan(c: char, input: Seq<char>, pos: Position) -> NumScan {
    num_loop(
        NumScan { input, pos, result: seq![c], radix: None, has_period: false, has_e: false },
        c,
    )
}

/// The text of a scanned number, with its sign.
pub open spec fn number_text(n: NumScan, negated: Option<Position>) -> Seq<char> {
    if negated is Some {
        seq!['-'] + n.result
    } else {
        n.result
    }
}

fn valid_digit_of(radix: Option<u32>, c: char) -> (r: bool)
    ensures
        r == valid_digit(radix, c),
{
    match radix {
        None => is_numeric_digit(c),
        Some(r) => if r == 16 {
            is_hex_digit(c)
        } else if r == 8 {
            is_octal_digit(c)
        } else {
            is_binary_digit(c)
        },
    }
}

/// The characters of `s` from index `start` on.
pub(crate) fn chars_from(s: &[char], start: usize) -> (v: Vec<char>)
    requires
        start <= s@.len(),
    ensures
        v@ == s@.skip(start as int),
{
    let mut v: Vec<char> = Vec::new();
    let mut i = start;
    while i < s.len()
        invariant
            start <= i <= s@.len(),
            v@ == s@.subrange(start as int, i as int),
        decreases s.len() - i,
    {
        v.push(s[i]);
        i = i + 1;
        assert(v@ =~= s@.subrange(start as int, i as int));
    }
    assert(v@ =~= s@.skip(start as int));
    v
}

/// The token of a number's text (see `number_token`).
pub fn number_token_of(text: &[char], radix: Option<u32>) -> (t: Token)
    requires
        radix is Some ==> text@.len() >= 2 && (radix->0 == 16 || radix->0 == 8 || radix->0 == 2),
    ensures
        t@ == number_token(text@, radix),
{
    match radix {
        Some(r) => {
            let digits = chars_from(text, 2);
            match parse_unsigned_chars(digits.as_slice(), r) {
                Some(v) => TokenOf::IntegerConstant(v as i64),
                None => TokenOf::LexError(LexErrorOf::MalformedNumber(string_from_chars(digits.as_slice()))),
            }
        },
        None => match parse_signed_chars(text) {
            Some(v) => TokenOf::IntegerConstant(v),
            None => if is_float_text_chars(text) {
                TokenOf::FloatConstant(string_from_chars(text))
            } else {
                TokenOf::LexError(LexErrorOf::MalformedNumber(string_from_chars(text)))
            },
        },
    }
}


/// The scan state that the variables of `lex_number` stand for.
pub open spec fn num_scan_of(
    input: Seq<char>,
    pos: Position,
    result: Seq<char>,
    radix: Option<u32>,
    has_period: bool,
    has_e: bool,
) -> NumScan {
    NumScan { input, pos, result, radix, has_period, has_e }
}

/// Reads a number whose first digit `c` has already been read (with the position moved past
/// it).  `negated` is the position of a `-` read just before the number, if any.  Gives the
/// number's token and position, and sets the current token text (if tracked) to the number's
/// text.
pub(crate) fn lex_number<S: InputStream + ?Sized>(
    stream: &mut S,
    pos: &mut Position,
    last: &mut Option<String>,
    c: char,
    negated: Option<Position>,
    start_pos: Position,
) -> (r: (Token, Position))
    requires
        old(pos).line >= 1,
        old(stream).room() >= 1,
    ensures
        ({
            let n = number_scan(c, old(stream).remaining(), *old(pos));
            &&& final(stream).remaining() == n.input
            &&& *final(pos) == n.pos
            &&& r.0@ == number_token(number_text(n, negated), n.radix)
            &&& opt_text(*final(last)) == reset_last(opt_text(*old(last)), number_text(n, negated))
        }),
        r.1 == (match negated {
            Some(p) => p,
            None => start_pos,
        }),
        final(stream).room() >= 1,
        final(pos).line >= 1,
        final(stream).remaining().len() <= old(stream).remaining().len(),
{
    let mut result: Vec<char> = Vec::new();
    result.push(c);
    let mut radix: Option<u32> = None;
    let mut has_period = false;
    let mut has_e = false;
    let ghost init = num_scan_of(stream.remaining(), *pos, result@, radix, has_period, has_e);
    assert(init == NumScan {
        input: old(stream).remaining(),
        pos: *old(pos),
        result: seq![c],
        radix: None,
        has_period: false,
        has_e: false,
    });
    loop
        invariant_except_break
            num_loop(num_scan_of(stream.remaining(), *pos, result@, radix, has_period, has_e), c)
                == num_loop(init, c),
        invariant
            init == (NumScan {
                input: old(stream).remaining(),
                pos: *old(pos),
                result: seq![c],
                radix: None,
                has_period: false,
                has_e: false,
            }),
            pos.line >= 1,
            stream.room() >= 1,
            result@.len() >= 1,
            radix is Some ==> result@.len() >= 2 && (radix->0 == 16 || radix->0 == 8 || radix->0 == 2),
            stream.remaining().len() <= old(stream).remaining().len(),
        ensures
            num_loop(init, c) == num_scan_of(stream.remaining(), *pos, result@, radix, has_period, has_e),
            pos.line >= 1,
            stream.room() >= 1,
            result@.len() >= 1,
            radix is Some ==> result@.len() >= 2 && (radix->0 == 16 || radix->0 == 8 || radix->0 == 2),
            stream.remaining().len() <= old(stream).remaining().len(),
        decreases stream.remaining().len(),
    {
        let ghost cur = num_scan_of(stream.remaining(), *pos, result@, radix, has_period, has_e);
        let next = stream.peek_next();
        let nc = match next {
            Some(x) => x,
            None => {
                break ;
            },
        };
        if nc == '_' {
            stream.eat_next_and_advance(pos);
        } else if valid_digit_of(radix, nc) {
            result.push(nc);
            stream.eat_next_and_advance(pos);
        } else if nc == '.' && !has_period && radix.is_none() {
            stream.get_next();
            let ghost after = stream.remaining();
            match stream.peek_next() {
                Some(d) => {
                    if '0' <= d && d <= '9' {
                        result.push('.');
                        pos.advance();
                        has_period = true;
                    } else if d == '_' || d == '.' {
                        stream.unget('.');
                        assert(stream.remaining() =~= cur.input);
                        break ;
                    } else if !is_id_first_alphabetic(d) {
                        result.push('.');
                        pos.advance();
                        result.push('0');
                        has_period = true;
                    } else {
                        stream.unget('.');
                        assert(stream.remaining() =~= cur.input);
                        break ;
                    }
                },
                None => {
                    stream.unget('.');
                    assert(stream.remaining() =~= cur.input);
                    break ;
                },
            }
        } else if (nc == 'e' || nc == 'E') && !has_e && radix.is_none() {
            stream.get_next();
            match stream.peek_next() {
                Some(d) => {
                    if '0' <= d && d <= '9' {
                        result.push('e');
                        pos.advance();
                        has_e = true;
                        has_period = true;
                    } else if d == '+' || d == '-' {
                        result.push('e');
                        pos.advance();
                        stream.get_next();
                        result.push(d);
                        pos.advance();
                        has_e = true;
                        has_period = true;
                    } else {
                        stream.unget(nc);
                        assert(stream.remaining() =~= cur.input);
                        break ;
                    }
                },
                None => {
                    stream.unget(nc);
                    assert(stream.remaining() =~= cur.input);
                    break ;
                },
            }
        } else if (nc == 'x' || nc == 'o' || nc == 'b' || nc == 'X' || nc == 'O' || nc == 'B') && c
            == '0' && result.len() <= 1 {
            result.push(nc);
            stream.eat_next_and_advance(pos);
            radix = Some(
                if nc == 'x' || nc == 'X' {
                    16
                } else if nc == 'o' || nc == 'O' {
                    8
                } else {
                    2
                },
            );
        } else {
            break ;
        }
    }
    let ghost n = num_scan_of(stream.remaining(), *pos, result@, radix, has_period, has_e);
    let (text, num_pos) = match negated {
        Some(p) => {
            let mut t: Vec<char> = Vec::new();
            t.push('-');
            let mut i: usize = 0;
            while i < result.len()
                invariant
                    i <= result@.len(),
                    t@ == seq!['-'] + result@.take(i as int),
                decreases result.len() - i,
            {
                t.push(result[i]);
                i = i + 1;
                assert(t@ =~= seq!['-'] + result@.take(i as int));
            }
            assert(result@.take(result@.len() as int) =~= result@);
            (t, p)
        },
        None => (result, start_pos),
    };
    assert(text@ == number_text(n, negated));
    if last.is_some() {
        *last = Some(string_from_chars(text.as_slice()));
    }
    let token = number_token_of(text.as_slice(), radix);
    (token, num_pos)
}


/// Where the scan of a block comment stands: the input not yet read, the position, the text of
/// the comment (when it is collected) and the nesting level.
pub struct CommentScan {
    pub input: Seq<char>,
    pub pos: Position,
    pub text: Option<Seq<char>>,
    pub level: int,
}

/// The rest of a block comment: reads until the nesting level drops to zero or the input ends.
/// A `/*` opens a nested comment and a `*/` closes one.
pub open spec fn block_loop(s: CommentScan) -> CommentScan
    decreases s.input.len(),
{
    if s.input.len() == 0 {
        s
    } else {
        let c = s.input[0];
        let rest = s.input.drop_first();
        let p1 = advanced(s.pos);
        let t1 = push_last(s.text, c);
        let s2 = if c == '/' && first_of(rest) == Some('*') {
            CommentScan {
                input: rest.drop_first(),
                pos: advanced(p1),
                text: push_last(t1, '*'),
                level: s.level + 1,
            }
        } else if c == '*' && first_of(rest) == Some('/') {
            CommentScan {
                input: rest.drop_first(),
                pos: advanced(p1),
                text: push_last(t1, '/'),
                level: s.level - 1,
            }
        } else if c == '\n' {
            CommentScan { input: rest, pos: next_line(p1), text: t1, level: s.level }
        } else {
            CommentScan { input: rest, pos: p1, text: t1, level: s.level }
        };
        if s2.level == 0 {
            s2
        } else {
            block_loop(s2)
        }
    }
}

/// Does the input start with `*/`?
pub open spec fn starts_closing(s: Seq<char>) -> bool {
    s.len() >= 2 && s[0] == '*' && s[1] == '/'
}

/// Scan for a block comment until the end, at nesting level `level`; appends what is read to
/// `comment` if there is one, and gives the level reached: zero at the end of the comment, more
/// if the input ended first.
pub fn scan_block_comment<S: InputStream + ?Sized>(
    stream: &mut S,
    level: usize,
    pos: &mut Position,
    comment: &mut Option<String>,
) -> (r: usize)
    requires
        old(pos).line >= 1,
        level + old(stream).remaining().len() <= usize::MAX,
        level == 0 ==> !starts_closing(old(stream).remaining()),
    ensures
        ({
            let b = block_loop(
                CommentScan {
                    input: old(stream).remaining(),
                    pos: *old(pos),
                    text: opt_text(*old(comment)),
                    level: level as int,
                },
            );
            &&& final(stream).remaining() == b.input
            &&& *final(pos) == b.pos
            &&& opt_text(*final(comment)) == b.text
            &&& r == b.level
        }),
        r + final(stream).remaining().len() <= level + old(stream).remaining().len(),
        final(pos).line >= 1,
        room_kept(old(stream).room(), final(stream).room()),
{
    let mut level = level;
    let ghost init = CommentScan {
        input: stream.remaining(),
        pos: *pos,
        text: opt_text(*comment),
        level: level as int,
    };
    loop
        invariant_except_break
            block_loop(
                CommentScan {
                    input: stream.remaining(),
                    pos: *pos,
                    text: opt_text(*comment),
                    level: level as int,
                },
            ) == block_loop(init),
            level > 0 || (level == init.level && stream.remaining() == old(stream).remaining()),
        invariant
            init == (CommentScan {
                input: old(stream).remaining(),
                pos: *old(pos),
                text: opt_text(*old(comment)),
                level: init.level,
            }),
            level + stream.remaining().len() <= init.level + old(stream).remaining().len(),
            init.level + old(stream).remaining().len() <= usize::MAX,
            init.level == 0 ==> !starts_closing(old(stream).remaining()),
            pos.line >= 1,
            room_kept(old(stream).room(), stream.room()),
        ensures
            block_loop(init) == (CommentScan {
                input: stream.remaining(),
                pos: *pos,
                text: opt_text(*comment),
                level: level as int,
            }),
            level + stream.remaining().len() <= init.level + old(stream).remaining().len(),
            pos.line >= 1,
            room_kept(old(stream).room(), stream.room()),
        decreases stream.remaining().len(),
    {
        let ghost r0 = stream.remaining();
        let got = stream.get_next();
        let c = match got {
            Some(c) => c,
            None => {
                break ;
            },
        };
        pos.advance();
        push_last_token(comment, c);
        if c == '/' {
            if stream.peek_next() == Some('*') {
                stream.eat_next_and_advance(pos);
                push_last_token(comment, '*');
                level = level + 1;
            }
        } else if c == '*' {
            if stream.peek_next() == Some('/') {
                stream.eat_next_and_advance(pos);
                push_last_token(comment, '/');
                level = level - 1;
            }
        } else if c == '\n' {
            pos.new_line();
        }
        if level == 0 {
            break ;
        }
    }
    level
}

} // verus!
