//! Recognition of keywords, symbols and reserved words.
use vstd::prelude::*;
use crate::token::{Token, TokenOf, SpecToken, opt_token_view};
use crate::text::chars_of_str;

verus! {

/// The symbol or keyword token whose syntax is `s`, if any.
///
/// Every token with a fixed syntax (see `syntax_of`) is listed here except the unary `+` and
/// `-`, which share their syntax with the binary operators.
pub open spec fn symbol_from_syntax(s: Seq<char>) -> Option<SpecToken> {
    if s.len() == 1 {
        symbol_of_length_1(s)
    }
    else if s.len() == 2 {
        symbol_of_length_2(s)
    }
    else if s.len() == 3 {
        symbol_of_length_3(s)
    }
    else if s.len() == 4 {
        symbol_of_length_4(s)
    }
    else if s.len() == 5 {
        symbol_of_length_5(s)
    }
    else if s.len() == 6 {
        symbol_of_length_6(s)
    }
    else if s.len() == 7 {
        symbol_of_length_7(s)
    }
    else if s.len() == 8 {
        symbol_of_length_8(s)
    }
    else {
        None
    }
}

/// The symbol or keyword token of length 1 whose syntax is `s` (of that length), if any.
pub open spec fn symbol_of_length_1(s: Seq<char>) -> Option<SpecToken> {
    if s[0] == '>' {
        Some(TokenOf::GreaterThan)
    }
    else if s[0] == ')' {
        Some(TokenOf::RightParen)
    }
    else if s[0] == '=' {
        Some(TokenOf::Equals)
    }
    else if s[0] == '<' {
        Some(TokenOf::LessThan)
    }
    else if s[0] == '.' {
        Some(TokenOf::Period)
    }
    else if s[0] == '*' {
        Some(TokenOf::Multiply)
    }
    else if s[0] == '+' {
        Some(TokenOf::Plus)
    }
    else if s[0] == '}' {
        Some(TokenOf::RightBrace)
    }
    else if s[0] == ';' {
        Some(TokenOf::SemiColon)
    }
    else if s[0] == '/' {
        Some(TokenOf::Divide)
    }
    else if s[0] == '{' {
        Some(TokenOf::LeftBrace)
    }
    else if s[0] == '|' {
        Some(TokenOf::Pipe)
    }
    else if s[0] == ':' {
        Some(TokenOf::Colon)
    }
    else if s[0] == '(' {
        Some(TokenOf::LeftParen)
    }
    else if s[0] == '^' {
        Some(TokenOf::XOr)
    }
    else if s[0] == '_' {
        Some(TokenOf::Underscore)
    }
    else if s[0] == '-' {
        Some(TokenOf::Minus)
    }
    else if s[0] == ']' {
        Some(TokenOf::RightBracket)
    }
    else if s[0] == '&' {
        Some(TokenOf::Ampersand)
    }
    else if s[0] == '%' {
        Some(TokenOf::Modulo)
    }
    else if s[0] == '!' {
        Some(TokenOf::Bang)
    }
    else if s[0] == '[' {
        Some(TokenOf::LeftBracket)
    }
    else if s[0] == ',' {
        Some(TokenOf::Comma)
    }
    else {
        None
    }
}

fn symbol_of_length_1_exec(s: &[char]) -> (r: Option<Token>)
    requires
        s@.len() == 1,
    ensures
        opt_token_view(r) == symbol_of_length_1(s@),
{
    if s[0] == '>' {
        assert(s@ =~= seq!['>']);
        return Some(TokenOf::GreaterThan);
    } else if s[0] == ')' {
        assert(s@ =~= seq![')']);
        return Some(TokenOf::RightParen);
    } else if s[0] == '=' {
        assert(s@ =~= seq!['=']);
        return Some(TokenOf::Equals);
    } else if s[0] == '<' {
        assert(s@ =~= seq!['<']);
        return Some(TokenOf::LessThan);
    } else if s[0] == '.' {
        assert(s@ =~= seq!['.']);
        return Some(TokenOf::Period);
    } else if s[0] == '*' {
        assert(s@ =~= seq!['*']);
        return Some(TokenOf::Multiply);
    } else if s[0] == '+' {
        assert(s@ =~= seq!['+']);
        return Some(TokenOf::Plus);
    } else if s[0] == '}' {
        assert(s@ =~= seq!['}']);
        return Some(TokenOf::RightBrace);
    } else if s[0] == ';' {
        assert(s@ =~= seq![';']);
        return Some(TokenOf::SemiColon);
    } else if s[0] == '/' {
        assert(s@ =~= seq!['/']);
        return Some(TokenOf::Divide);
    } else if s[0] == '{' {
        assert(s@ =~= seq!['{']);
        return Some(TokenOf::LeftBrace);
    } else if s[0] == '|' {
        assert(s@ =~= seq!['|']);
        return Some(TokenOf::Pipe);
    } else if s[0] == ':' {
        assert(s@ =~= seq![':']);
        return Some(TokenOf::Colon);
    } else if s[0] == '(' {
        assert(s@ =~= seq!['(']);
        return Some(TokenOf::LeftParen);
    } else if s[0] == '^' {
        assert(s@ =~= seq!['^']);
        return Some(TokenOf::XOr);
    } else if s[0] == '_' {
        assert(s@ =~= seq!['_']);
        return Some(TokenOf::Underscore);
    } else if s[0] == '-' {
        assert(s@ =~= seq!['-']);
        return Some(TokenOf::Minus);
    } else if s[0] == ']' {
        assert(s@ =~= seq![']']);
        return Some(TokenOf::RightBracket);
    } else if s[0] == '&' {
        assert(s@ =~= seq!['&']);
        return Some(TokenOf::Ampersand);
    } else if s[0] == '%' {
        assert(s@ =~= seq!['%']);
        return Some(TokenOf::Modulo);
    } else if s[0] == '!' {
        assert(s@ =~= seq!['!']);
        return Some(TokenOf::Bang);
    } else if s[0] == '[' {
        assert(s@ =~= seq!['[']);
        return Some(TokenOf::LeftBracket);
    } else if s[0] == ',' {
        assert(s@ =~= seq![',']);
        return Some(TokenOf::Comma);
    }
    None
}

/// The symbol or keyword token of length 2 whose syntax is `s` (of that length), if any.
pub open spec fn symbol_of_length_2(s: Seq<char>) -> Option<SpecToken> {
    if s[0] == '>' && s[1] == '=' {
        Some(TokenOf::GreaterThanEqualsTo)
    }
    else if s[0] == '=' && s[1] == '=' {
        Some(TokenOf::EqualsTo)
    }
    else if s[0] == '<' && s[1] == '=' {
        Some(TokenOf::LessThanEqualsTo)
    }
    else if s[0] == '<' && s[1] == '<' {
        Some(TokenOf::LeftShift)
    }
    else if s[0] == '*' && s[1] == '=' {
        Some(TokenOf::MultiplyAssign)
    }
    else if s[0] == '+' && s[1] == '=' {
        Some(TokenOf::PlusAssign)
    }
    else if s[0] == '>' && s[1] == '>' {
        Some(TokenOf::RightShift)
    }
    else if s[0] == '=' && s[1] == '>' {
        Some(TokenOf::DoubleArrow)
    }
    else if s[0] == '/' && s[1] == '=' {
        Some(TokenOf::DivideAssign)
    }
    else if s[0] == '*' && s[1] == '*' {
        Some(TokenOf::PowerOf)
    }
    else if s[0] == '|' && s[1] == '=' {
        Some(TokenOf::OrAssign)
    }
    else if s[0] == '.' && s[1] == '.' {
        Some(TokenOf::ExclusiveRange)
    }
    else if s[0] == 'f' && s[1] == 'n' {
        Some(TokenOf::Fn)
    }
    else if s[0] == '?' && s[1] == '.' {
        Some(TokenOf::Elvis)
    }
    else if s[0] == 'i' && s[1] == 'n' {
        Some(TokenOf::In)
    }
    else if s[0] == '|' && s[1] == '|' {
        Some(TokenOf::Or)
    }
    else if s[0] == '^' && s[1] == '=' {
        Some(TokenOf::XOrAssign)
    }
    else if s[0] == ':' && s[1] == ':' {
        Some(TokenOf::DoubleColon)
    }
    else if s[0] == '-' && s[1] == '=' {
        Some(TokenOf::MinusAssign)
    }
    else if s[0] == '(' && s[1] == ')' {
        Some(TokenOf::Unit)
    }
    else if s[0] == '&' && s[1] == '=' {
        Some(TokenOf::AndAssign)
    }
    else if s[0] == '%' && s[1] == '=' {
        Some(TokenOf::ModuloAssign)
    }
    else if s[0] == '!' && s[1] == '=' {
        Some(TokenOf::NotEqualsTo)
    }
    else if s[0] == 'i' && s[1] == 'f' {
        Some(TokenOf::If)
    }
    else if s[0] == 'd' && s[1] == 'o' {
        Some(TokenOf::Do)
    }
    else if s[0] == 'a' && s[1] == 's' {
        Some(TokenOf::As)
    }
    else if s[0] == '?' && s[1] == '[' {
        Some(TokenOf::QuestionBracket)
    }
    else if s[0] == '?' && s[1] == '?' {
        Some(TokenOf::DoubleQuestion)
    }
    else if s[0] == '&' && s[1] == '&' {
        Some(TokenOf::And)
    }
    else if s[0] == '#' && s[1] == '{' {
        Some(TokenOf::MapStart)
    }
    else {
        None
    }
}

fn symbol_of_length_2_exec(s: &[char]) -> (r: Option<Token>)
    requires
        s@.len() == 2,
    ensures
        opt_token_view(r) == symbol_of_length_2(s@),
{
    if s[0] == '>' && s[1] == '=' {
        assert(s@ =~= seq!['>', '=']);
        return Some(TokenOf::GreaterThanEqualsTo);
    } else if s[0] == '=' && s[1] == '=' {
        assert(s@ =~= seq!['=', '=']);
        return Some(TokenOf::EqualsTo);
    } else if s[0] == '<' && s[1] == '=' {
        assert(s@ =~= seq!['<', '=']);
        return Some(TokenOf::LessThanEqualsTo);
    } else if s[0] == '<' && s[1] == '<' {
        assert(s@ =~= seq!['<', '<']);
        return Some(TokenOf::LeftShift);
    } else if s[0] == '*' && s[1] == '=' {
        assert(s@ =~= seq!['*', '=']);
        return Some(TokenOf::MultiplyAssign);
    } else if s[0] == '+' && s[1] == '=' {
        assert(s@ =~= seq!['+', '=']);
        return Some(TokenOf::PlusAssign);
    } else if s[0] == '>' && s[1] == '>' {
        assert(s@ =~= seq!['>', '>']);
        return Some(TokenOf::RightShift);
    } else if s[0] == '=' && s[1] == '>' {
        assert(s@ =~= seq!['=', '>']);
        return Some(TokenOf::DoubleArrow);
    } else if s[0] == '/' && s[1] == '=' {
        assert(s@ =~= seq!['/', '=']);
        return Some(TokenOf::DivideAssign);
    } else if s[0] == '*' && s[1] == '*' {
        assert(s@ =~= seq!['*', '*']);
        return Some(TokenOf::PowerOf);
    } else if s[0] == '|' && s[1] == '=' {
        assert(s@ =~= seq!['|', '=']);
        return Some(TokenOf::OrAssign);
    } else if s[0] == '.' && s[1] == '.' {
        assert(s@ =~= seq!['.', '.']);
        return Some(TokenOf::ExclusiveRange);
    } else if s[0] == 'f' && s[1] == 'n' {
        assert(s@ =~= seq!['f', 'n']);
        return Some(TokenOf::Fn);
    } else if s[0] == '?' && s[1] == '.' {
        assert(s@ =~= seq!['?', '.']);
        return Some(TokenOf::Elvis);
    } else if s[0] == 'i' && s[1] == 'n' {
        assert(s@ =~= seq!['i', 'n']);
        return Some(TokenOf::In);
    } else if s[0] == '|' && s[1] == '|' {
        assert(s@ =~= seq!['|', '|']);
        return Some(TokenOf::Or);
    } else if s[0] == '^' && s[1] == '=' {
        assert(s@ =~= seq!['^', '=']);
        return Some(TokenOf::XOrAssign);
    } else if s[0] == ':' && s[1] == ':' {
        assert(s@ =~= seq![':', ':']);
        return Some(TokenOf::DoubleColon);
    } else if s[0] == '-' && s[1] == '=' {
        assert(s@ =~= seq!['-', '=']);
        return Some(TokenOf::MinusAssign);
    } else if s[0] == '(' && s[1] == ')' {
        assert(s@ =~= seq!['(', ')']);
        return Some(TokenOf::Unit);
    } else if s[0] == '&' && s[1] == '=' {
        assert(s@ =~= seq!['&', '=']);
        return Some(TokenOf::AndAssign);
    } else if s[0] == '%' && s[1] == '=' {
        assert(s@ =~= seq!['%', '=']);
        return Some(TokenOf::ModuloAssign);
    } else if s[0] == '!' && s[1] == '=' {
        assert(s@ =~= seq!['!', '=']);
        return Some(TokenOf::NotEqualsTo);
    } else if s[0] == 'i' && s[1] == 'f' {
        assert(s@ =~= seq!['i', 'f']);
        return Some(TokenOf::If);
    } else if s[0] == 'd' && s[1] == 'o' {
        assert(s@ =~= seq!['d', 'o']);
        return Some(TokenOf::Do);
    } else if s[0] == 'a' && s[1] == 's' {
        assert(s@ =~= seq!['a', 's']);
        return Some(TokenOf::As);
    } else if s[0] == '?' && s[1] == '[' {
        assert(s@ =~= seq!['?', '[']);
        return Some(TokenOf::QuestionBracket);
    } else if s[0] == '?' && s[1] == '?' {
        assert(s@ =~= seq!['?', '?']);
        return Some(TokenOf::DoubleQuestion);
    } else if s[0] == '&' && s[1] == '&' {
        assert(s@ =~= seq!['&', '&']);
        return Some(TokenOf::And);
    } else if s[0] == '#' && s[1] == '{' {
        assert(s@ =~= seq!['#', '{']);
        return Some(TokenOf::MapStart);
    }
    None
}

/// The symbol or keyword token of length 3 whose syntax is `s` (of that length), if any.
pub open spec fn symbol_of_length_3(s: Seq<char>) -> Option<SpecToken> {
    if s[0] == 'f' && s[1] == 'o' && s[2] == 'r' {
        Some(TokenOf::For)
    }
    else if s[0] == '<' && s[1] == '<' && s[2] == '=' {
        Some(TokenOf::LeftShiftAssign)
    }
    else if s[0] == 'l' && s[1] == 'e' && s[2] == 't' {
        Some(TokenOf::Let)
    }
    else if s[0] == '>' && s[1] == '>' && s[2] == '=' {
        Some(TokenOf::RightShiftAssign)
    }
    else if s[0] == '*' && s[1] == '*' && s[2] == '=' {
        Some(TokenOf::PowerOfAssign)
    }
    else if s[0] == '.' && s[1] == '.' && s[2] == '=' {
        Some(TokenOf::InclusiveRange)
    }
    else if s[0] == 't' && s[1] == 'r' && s[2] == 'y' {
        Some(TokenOf::Try)
    }
    else if s[0] == '!' && s[1] == 'i' && s[2] == 'n' {
        Some(TokenOf::NotIn)
    }
    else {
        None
    }
}

fn symbol_of_length_3_exec(s: &[char]) -> (r: Option<Token>)
    requires
        s@.len() == 3,
    ensures
        opt_token_view(r) == symbol_of_length_3(s@),
{
    if s[0] == 'f' && s[1] == 'o' && s[2] == 'r' {
        assert(s@ =~= seq!['f', 'o', 'r']);
        return Some(TokenOf::For);
    } else if s[0] == '<' && s[1] == '<' && s[2] == '=' {
        assert(s@ =~= seq!['<', '<', '=']);
        return Some(TokenOf::LeftShiftAssign);
    } else if s[0] == 'l' && s[1] == 'e' && s[2] == 't' {
        assert(s@ =~= seq!['l', 'e', 't']);
        return Some(TokenOf::Let);
    } else if s[0] == '>' && s[1] == '>' && s[2] == '=' {
        assert(s@ =~= seq!['>', '>', '=']);
        return Some(TokenOf::RightShiftAssign);
    } else if s[0] == '*' && s[1] == '*' && s[2] == '=' {
        assert(s@ =~= seq!['*', '*', '=']);
        return Some(TokenOf::PowerOfAssign);
    } else if s[0] == '.' && s[1] == '.' && s[2] == '=' {
        assert(s@ =~= seq!['.', '.', '=']);
        return Some(TokenOf::InclusiveRange);
    } else if s[0] == 't' && s[1] == 'r' && s[2] == 'y' {
        assert(s@ =~= seq!['t', 'r', 'y']);
        return Some(TokenOf::Try);
    } else if s[0] == '!' && s[1] == 'i' && s[2] == 'n' {
        assert(s@ =~= seq!['!', 'i', 'n']);
        return Some(TokenOf::NotIn);
    }
    None
}

/// The symbol or keyword token of length 4 whose syntax is `s` (of that length), if any.
pub open spec fn symbol_of_length_4(s: Seq<char>) -> Option<SpecToken> {
    if s[0] == 'l' && s[1] == 'o' && s[2] == 'o' && s[3] == 'p' {
        Some(TokenOf::Loop)
    }
    else if s[0] == 'e' && s[1] == 'l' && s[2] == 's' && s[3] == 'e' {
        Some(TokenOf::Else)
    }
    else if s[0] == 't' && s[1] == 'r' && s[2] == 'u' && s[3] == 'e' {
        Some(TokenOf::True)
    }
    else {
        None
    }
}

fn symbol_of_length_4_exec(s: &[char]) -> (r: Option<Token>)
    requires
        s@.len() == 4,
    ensures
        opt_token_view(r) == symbol_of_length_4(s@),
{
    if s[0] == 'l' && s[1] == 'o' && s[2] == 'o' && s[3] == 'p' {
        assert(s@ =~= seq!['l', 'o', 'o', 'p']);
        return Some(TokenOf::Loop);
    } else if s[0] == 'e' && s[1] == 'l' && s[2] == 's' && s[3] == 'e' {
        assert(s@ =~= seq!['e', 'l', 's', 'e']);
        return Some(TokenOf::Else);
    } else if s[0] == 't' && s[1] == 'r' && s[2] == 'u' && s[3] == 'e' {
        assert(s@ =~= seq!['t', 'r', 'u', 'e']);
        return Some(TokenOf::True);
    }
    None
}

/// The symbol or keyword token of length 5 whose syntax is `s` (of that length), if any.
pub open spec fn symbol_of_length_5(s: Seq<char>) -> Option<SpecToken> {
    if s[0] == 'c' && s[1] == 'o' && s[2] == 'n' && s[3] == 's' && s[4] == 't' {
        Some(TokenOf::Const)
    }
    else if s[0] == 'c' && s[1] == 'a' && s[2] == 't' && s[3] == 'c' && s[4] == 'h' {
        Some(TokenOf::Catch)
    }
    else if s[0] == 'f' && s[1] == 'a' && s[2] == 'l' && s[3] == 's' && s[4] == 'e' {
        Some(TokenOf::False)
    }
    else if s[0] == 'w' && s[1] == 'h' && s[2] == 'i' && s[3] == 'l' && s[4] == 'e' {
        Some(TokenOf::While)
    }
    else if s[0] == 't' && s[1] == 'h' && s[2] == 'r' && s[3] == 'o' && s[4] == 'w' {
        Some(TokenOf::Throw)
    }
    else if s[0] == 'u' && s[1] == 'n' && s[2] == 't' && s[3] == 'i' && s[4] == 'l' {
        Some(TokenOf::Until)
    }
    else if s[0] == 'b' && s[1] == 'r' && s[2] == 'e' && s[3] == 'a' && s[4] == 'k' {
        Some(TokenOf::Break)
    }
    else {
        None
    }
}

fn symbol_of_length_5_exec(s: &[char]) -> (r: Option<Token>)
    requires
        s@.len() == 5,
    ensures
        opt_token_view(r) == symbol_of_length_5(s@),
{
    if s[0] == 'c' && s[1] == 'o' && s[2] == 'n' && s[3] == 's' && s[4] == 't' {
        assert(s@ =~= seq!['c', 'o', 'n', 's', 't']);
        return Some(TokenOf::Const);
    } else if s[0] == 'c' && s[1] == 'a' && s[2] == 't' && s[3] == 'c' && s[4] == 'h' {
        assert(s@ =~= seq!['c', 'a', 't', 'c', 'h']);
        return Some(TokenOf::Catch);
    } else if s[0] == 'f' && s[1] == 'a' && s[2] == 'l' && s[3] == 's' && s[4] == 'e' {
        assert(s@ =~= seq!['f', 'a', 'l', 's', 'e']);
        return Some(TokenOf::False);
    } else if s[0] == 'w' && s[1] == 'h' && s[2] == 'i' && s[3] == 'l' && s[4] == 'e' {
        assert(s@ =~= seq!['w', 'h', 'i', 'l', 'e']);
        return Some(TokenOf::While);
    } else if s[0] == 't' && s[1] == 'h' && s[2] == 'r' && s[3] == 'o' && s[4] == 'w' {
        assert(s@ =~= seq!['t', 'h', 'r', 'o', 'w']);
        return Some(TokenOf::Throw);
    } else if s[0] == 'u' && s[1] == 'n' && s[2] == 't' && s[3] == 'i' && s[4] == 'l' {
        assert(s@ =~= seq!['u', 'n', 't', 'i', 'l']);
        return Some(TokenOf::Until);
    } else if s[0] == 'b' && s[1] == 'r' && s[2] == 'e' && s[3] == 'a' && s[4] == 'k' {
        assert(s@ =~= seq!['b', 'r', 'e', 'a', 'k']);
        return Some(TokenOf::Break);
    }
    None
}

/// The symbol or keyword token of length 6 whose syntax is `s` (of that length), if any.
pub open spec fn symbol_of_length_6(s: Seq<char>) -> Option<SpecToken> {
    if s[0] == 's' && s[1] == 'w' && s[2] == 'i' && s[3] == 't' && s[4] == 'c' && s[5] == 'h' {
        Some(TokenOf::Switch)
    }
    else if s[0] == 'r' && s[1] == 'e' && s[2] == 't' && s[3] == 'u' && s[4] == 'r' && s[5] == 'n' {
        Some(TokenOf::Return)
    }
    else if s[0] == 'i' && s[1] == 'm' && s[2] == 'p' && s[3] == 'o' && s[4] == 'r' && s[5] == 't' {
        Some(TokenOf::Import)
    }
    else if s[0] == 'e' && s[1] == 'x' && s[2] == 'p' && s[3] == 'o' && s[4] == 'r' && s[5] == 't' {
        Some(TokenOf::Export)
    }
    else {
        None
    }
}

fn symbol_of_length_6_exec(s: &[char]) -> (r: Option<Token>)
    requires
        s@.len() == 6,
    ensures
        opt_token_view(r) == symbol_of_length_6(s@),
{
    if s[0] == 's' && s[1] == 'w' && s[2] == 'i' && s[3] == 't' && s[4] == 'c' && s[5] == 'h' {
        assert(s@ =~= seq!['s', 'w', 'i', 't', 'c', 'h']);
        return Some(TokenOf::Switch);
    } else if s[0] == 'r' && s[1] == 'e' && s[2] == 't' && s[3] == 'u' && s[4] == 'r' && s[5] == 'n' {
        assert(s@ =~= seq!['r', 'e', 't', 'u', 'r', 'n']);
        return Some(TokenOf::Return);
    } else if s[0] == 'i' && s[1] == 'm' && s[2] == 'p' && s[3] == 'o' && s[4] == 'r' && s[5] == 't' {
        assert(s@ =~= seq!['i', 'm', 'p', 'o', 'r', 't']);
        return Some(TokenOf::Import);
    } else if s[0] == 'e' && s[1] == 'x' && s[2] == 'p' && s[3] == 'o' && s[4] == 'r' && s[5] == 't' {
        assert(s@ =~= seq!['e', 'x', 'p', 'o', 'r', 't']);
        return Some(TokenOf::Export);
    }
    None
}

/// The symbol or keyword token of length 7 whose syntax is `s` (of that length), if any.
pub open spec fn symbol_of_length_7(s: Seq<char>) -> Option<SpecToken> {
    if s[0] == 'p' && s[1] == 'r' && s[2] == 'i' && s[3] == 'v' && s[4] == 'a' && s[5] == 't' && s[6] == 'e' {
        Some(TokenOf::Private)
    }
    else {
        None
    }
}

fn symbol_of_length_7_exec(s: &[char]) -> (r: Option<Token>)
    requires
        s@.len() == 7,
    ensures
        opt_token_view(r) == symbol_of_length_7(s@),
{
    if s[0] == 'p' && s[1] == 'r' && s[2] == 'i' && s[3] == 'v' && s[4] == 'a' && s[5] == 't' && s[6] == 'e' {
        assert(s@ =~= seq!['p', 'r', 'i', 'v', 'a', 't', 'e']);
        return Some(TokenOf::Private);
    }
    None
}

/// The symbol or keyword token of length 8 whose syntax is `s` (of that length), if any.
pub open spec fn symbol_of_length_8(s: Seq<char>) -> Option<SpecToken> {
    if s[0] == 'c' && s[1] == 'o' && s[2] == 'n' && s[3] == 't' && s[4] == 'i' && s[5] == 'n' && s[6] == 'u' && s[7] == 'e' {
        Some(TokenOf::Continue)
    }
    else {
        None
    }
}

fn symbol_of_length_8_exec(s: &[char]) -> (r: Option<Token>)
    requires
        s@.len() == 8,
    ensures
        opt_token_view(r) == symbol_of_length_8(s@),
{
    if s[0] == 'c' && s[1] == 'o' && s[2] == 'n' && s[3] == 't' && s[4] == 'i' && s[5] == 'n' && s[6] == 'u' && s[7] == 'e' {
        assert(s@ =~= seq!['c', 'o', 'n', 't', 'i', 'n', 'u', 'e']);
        return Some(TokenOf::Continue);
    }
    None
}

/// The symbol or keyword token whose syntax is the character sequence `s`, if any.
pub fn symbol_from_chars(s: &[char]) -> (r: Option<Token>)
    ensures
        opt_token_view(r) == symbol_from_syntax(s@),
{
    let n = s.len();
    if n == 1 {
        symbol_of_length_1_exec(s)
    } else if n == 2 {
        symbol_of_length_2_exec(s)
    } else if n == 3 {
        symbol_of_length_3_exec(s)
    } else if n == 4 {
        symbol_of_length_4_exec(s)
    } else if n == 5 {
        symbol_of_length_5_exec(s)
    } else if n == 6 {
        symbol_of_length_6_exec(s)
    } else if n == 7 {
        symbol_of_length_7_exec(s)
    } else if n == 8 {
        symbol_of_length_8_exec(s)
    } else {
        None
    }
}

/// Is `s` a reserved keyword or symbol; can it be called as a function; can it be called in
/// method-call style?
pub open spec fn reserved_info(s: Seq<char>) -> (bool, bool, bool) {
    if s.len() == 1 && s[0] == '?' {
        (true, false, false)
    }
    else if s.len() == 3 && s[0] == 'u' && s[1] == 's' && s[2] == 'e' {
        (true, false, false)
    }
    else if s.len() == 4 && s[0] == 'c' && s[1] == 'a' && s[2] == 's' && s[3] == 'e' {
        (true, false, false)
    }
    else if s.len() == 5 && s[0] == 'a' && s[1] == 's' && s[2] == 'y' && s[3] == 'n' && s[4] == 'c' {
        (true, false, false)
    }
    else if s.len() == 6 && s[0] == 'p' && s[1] == 'u' && s[2] == 'b' && s[3] == 'l' && s[4] == 'i' && s[5] == 'c' {
        (true, false, false)
    }
    else if s.len() == 7 && s[0] == 'p' && s[1] == 'a' && s[2] == 'c' && s[3] == 'k' && s[4] == 'a' && s[5] == 'g' && s[6] == 'e' {
        (true, false, false)
    }
    else if s.len() == 5 && s[0] == 's' && s[1] == 'u' && s[2] == 'p' && s[3] == 'e' && s[4] == 'r' {
        (true, false, false)
    }
    else if s.len() == 1 && s[0] == '#' {
        (true, false, false)
    }
    else if s.len() == 3 && s[0] == 'v' && s[1] == 'a' && s[2] == 'r' {
        (true, false, false)
    }
    else if s.len() == 9 && s[0] == 'p' && s[1] == 'r' && s[2] == 'o' && s[3] == 't' && s[4] == 'e' && s[5] == 'c' && s[6] == 't' && s[7] == 'e' && s[8] == 'd' {
        (true, false, false)
    }
    else if s.len() == 5 && s[0] == 's' && s[1] == 'p' && s[2] == 'a' && s[3] == 'w' && s[4] == 'n' {
        (true, false, false)
    }
    else if s.len() == 6 && s[0] == 's' && s[1] == 'h' && s[2] == 'a' && s[3] == 'r' && s[4] == 'e' && s[5] == 'd' {
        (true, false, false)
    }
    else if s.len() == 2 && s[0] == 'i' && s[1] == 's' {
        (true, false, false)
    }
    else if s.len() == 3 && s[0] == '=' && s[1] == '=' && s[2] == '=' {
        (true, false, false)
    }
    else if s.len() == 4 && s[0] == 's' && s[1] == 'y' && s[2] == 'n' && s[3] == 'c' {
        (true, false, false)
    }
    else if s.len() == 5 && s[0] == 'c' && s[1] == 'u' && s[2] == 'r' && s[3] == 'r' && s[4] == 'y' {
        (true, true, true)
    }
    else if s.len() == 6 && s[0] == 's' && s[1] == 't' && s[2] == 'a' && s[3] == 't' && s[4] == 'i' && s[5] == 'c' {
        (true, false, false)
    }
    else if s.len() == 7 && s[0] == 'd' && s[1] == 'e' && s[2] == 'f' && s[3] == 'a' && s[4] == 'u' && s[5] == 'l' && s[6] == 't' {
        (true, false, false)
    }
    else if s.len() == 3 && s[0] == '!' && s[1] == '=' && s[2] == '=' {
        (true, false, false)
    }
    else if s.len() == 9 && s[0] == 'i' && s[1] == 's' && s[2] == '_' && s[3] == 's' && s[4] == 'h' && s[5] == 'a' && s[6] == 'r' && s[7] == 'e' && s[8] == 'd' {
        (true, true, true)
    }
    else if s.len() == 5 && s[0] == 'p' && s[1] == 'r' && s[2] == 'i' && s[3] == 'n' && s[4] == 't' {
        (true, true, false)
    }
    else if s.len() == 2 && s[0] == '#' && s[1] == '!' {
        (true, false, false)
    }
    else if s.len() == 4 && s[0] == 't' && s[1] == 'h' && s[2] == 'i' && s[3] == 's' {
        (true, false, false)
    }
    else if s.len() == 10 && s[0] == 'i' && s[1] == 's' && s[2] == '_' && s[3] == 'd' && s[4] == 'e' && s[5] == 'f' && s[6] == '_' && s[7] == 'v' && s[8] == 'a' && s[9] == 'r' {
        (true, true, false)
    }
    else if s.len() == 6 && s[0] == 't' && s[1] == 'h' && s[2] == 'r' && s[3] == 'e' && s[4] == 'a' && s[5] == 'd' {
        (true, false, false)
    }
    else if s.len() == 9 && s[0] == 'i' && s[1] == 's' && s[2] == '_' && s[3] == 'd' && s[4] == 'e' && s[5] == 'f' && s[6] == '_' && s[7] == 'f' && s[8] == 'n' {
        (true, true, false)
    }
    else if s.len() == 5 && s[0] == 'y' && s[1] == 'i' && s[2] == 'e' && s[3] == 'l' && s[4] == 'd' {
        (true, false, false)
    }
    else if s.len() == 3 && s[0] == 'n' && s[1] == 'e' && s[2] == 'w' {
        (true, false, false)
    }
    else if s.len() == 4 && s[0] == 'c' && s[1] == 'a' && s[2] == 'l' && s[3] == 'l' {
        (true, true, true)
    }
    else if s.len() == 5 && s[0] == 'm' && s[1] == 'a' && s[2] == 't' && s[3] == 'c' && s[4] == 'h' {
        (true, false, false)
    }
    else if s.len() == 1 && s[0] == '~' {
        (true, false, false)
    }
    else if s.len() == 2 && s[0] == '!' && s[1] == '.' {
        (true, false, false)
    }
    else if s.len() == 4 && s[0] == 'e' && s[1] == 'v' && s[2] == 'a' && s[3] == 'l' {
        (true, true, false)
    }
    else if s.len() == 5 && s[0] == 'a' && s[1] == 'w' && s[2] == 'a' && s[3] == 'i' && s[4] == 't' {
        (true, false, false)
    }
    else if s.len() == 2 && s[0] == ':' && s[1] == '=' {
        (true, false, false)
    }
    else if s.len() == 3 && s[0] == '.' && s[1] == '.' && s[2] == '.' {
        (true, false, false)
    }
    else if s.len() == 4 && s[0] == 'n' && s[1] == 'u' && s[2] == 'l' && s[3] == 'l' {
        (true, false, false)
    }
    else if s.len() == 5 && s[0] == 'd' && s[1] == 'e' && s[2] == 'b' && s[3] == 'u' && s[4] == 'g' {
        (true, true, false)
    }
    else if s.len() == 1 && s[0] == '@' {
        (true, false, false)
    }
    else if s.len() == 7 && s[0] == 't' && s[1] == 'y' && s[2] == 'p' && s[3] == 'e' && s[4] == '_' && s[5] == 'o' && s[6] == 'f' {
        (true, true, true)
    }
    else if s.len() == 4 && s[0] == 'w' && s[1] == 'i' && s[2] == 't' && s[3] == 'h' {
        (true, false, false)
    }
    else if s.len() == 2 && s[0] == '<' && s[1] == '-' {
        (true, false, false)
    }
    else if s.len() == 4 && s[0] == 'v' && s[1] == 'o' && s[2] == 'i' && s[3] == 'd' {
        (true, false, false)
    }
    else if s.len() == 2 && s[0] == '-' && s[1] == '-' {
        (true, false, false)
    }
    else if s.len() == 3 && s[0] == 'n' && s[1] == 'i' && s[2] == 'l' {
        (true, false, false)
    }
    else if s.len() == 2 && s[0] == '<' && s[1] == '|' {
        (true, false, false)
    }
    else if s.len() == 1 && s[0] == '$' {
        (true, false, false)
    }
    else if s.len() == 2 && s[0] == '-' && s[1] == '>' {
        (true, false, false)
    }
    else if s.len() == 2 && s[0] == '|' && s[1] == '>' {
        (true, false, false)
    }
    else if s.len() == 6 && s[0] == 'm' && s[1] == 'o' && s[2] == 'd' && s[3] == 'u' && s[4] == 'l' && s[5] == 'e' {
        (true, false, false)
    }
    else if s.len() == 2 && s[0] == 'F' && s[1] == 'n' {
        (true, true, false)
    }
    else if s.len() == 3 && s[0] == ':' && s[1] == ':' && s[2] == '<' {
        (true, false, false)
    }
    else if s.len() == 2 && s[0] == '+' && s[1] == '+' {
        (true, false, false)
    }
    else if s.len() == 2 && s[0] == ':' && s[1] == ';' {
        (true, false, false)
    }
    else if s.len() == 2 && s[0] == '*' && s[1] == ')' {
        (true, false, false)
    }
    else if s.len() == 2 && s[0] == '(' && s[1] == '*' {
        (true, false, false)
    }
    else if s.len() == 2 && s[0] == 'g' && s[1] == 'o' {
        (true, false, false)
    }
    else if s.len() == 4 && s[0] == 'g' && s[1] == 'o' && s[2] == 't' && s[3] == 'o' {
        (true, false, false)
    }
    else {
        (false, false, false)
    }
}

/// Is the character sequence `s` a reserved keyword or symbol (see `reserved_info`)?
pub fn reserved_info_of_chars(s: &[char]) -> (r: (bool, bool, bool))
    ensures
        r == reserved_info(s@),
{
    let n = s.len();
    if n == 1 {
        if s[0] == '?' {
            assert(s@ =~= seq!['?']);
            return (true, false, false);
        } else if s[0] == '#' {
            assert(s@ =~= seq!['#']);
            return (true, false, false);
        } else if s[0] == '~' {
            assert(s@ =~= seq!['~']);
            return (true, false, false);
        } else if s[0] == '@' {
            assert(s@ =~= seq!['@']);
            return (true, false, false);
        } else if s[0] == '$' {
            assert(s@ =~= seq!['$']);
            return (true, false, false);
        }
    } else if n == 2 {
        if s[0] == 'i' && s[1] == 's' {
            assert(s@ =~= seq!['i', 's']);
            return (true, false, false);
        } else if s[0] == '#' && s[1] == '!' {
            assert(s@ =~= seq!['#', '!']);
            return (true, false, false);
        } else if s[0] == '!' && s[1] == '.' {
            assert(s@ =~= seq!['!', '.']);
            return (true, false, false);
        } else if s[0] == ':' && s[1] == '=' {
            assert(s@ =~= seq![':', '=']);
            return (true, false, false);
        } else if s[0] == '<' && s[1] == '-' {
            assert(s@ =~= seq!['<', '-']);
            return (true, false, false);
        } else if s[0] == '-' && s[1] == '-' {
            assert(s@ =~= seq!['-', '-']);
            return (true, false, false);
        } else if s[0] == '<' && s[1] == '|' {
            assert(s@ =~= seq!['<', '|']);
            return (true, false, false);
        } else if s[0] == '-' && s[1] == '>' {
            assert(s@ =~= seq!['-', '>']);
            return (true, false, false);
        } else if s[0] == '|' && s[1] == '>' {
            assert(s@ =~= seq!['|', '>']);
            return (true, false, false);
        } else if s[0] == 'F' && s[1] == 'n' {
            assert(s@ =~= seq!['F', 'n']);
            return (true, true, false);
        } else if s[0] == '+' && s[1] == '+' {
            assert(s@ =~= seq!['+', '+']);
            return (true, false, false);
        } else if s[0] == ':' && s[1] == ';' {
            assert(s@ =~= seq![':', ';']);
            return (true, false, false);
        } else if s[0] == '*' && s[1] == ')' {
            assert(s@ =~= seq!['*', ')']);
            return (true, false, false);
        } else if s[0] == '(' && s[1] == '*' {
            assert(s@ =~= seq!['(', '*']);
            return (true, false, false);
        } else if s[0] == 'g' && s[1] == 'o' {
            assert(s@ =~= seq!['g', 'o']);
            return (true, false, false);
        }
    } else if n == 3 {
        if s[0] == 'u' && s[1] == 's' && s[2] == 'e' {
            assert(s@ =~= seq!['u', 's', 'e']);
            return (true, false, false);
        } else if s[0] == 'v' && s[1] == 'a' && s[2] == 'r' {
            assert(s@ =~= seq!['v', 'a', 'r']);
            return (true, false, false);
        } else if s[0] == '=' && s[1] == '=' && s[2] == '=' {
            assert(s@ =~= seq!['=', '=', '=']);
            return (true, false, false);
        } else if s[0] == '!' && s[1] == '=' && s[2] == '=' {
            assert(s@ =~= seq!['!', '=', '=']);
            return (true, false, false);
        } else if s[0] == 'n' && s[1] == 'e' && s[2] == 'w' {
            assert(s@ =~= seq!['n', 'e', 'w']);
            return (true, false, false);
        } else if s[0] == '.' && s[1] == '.' && s[2] == '.' {
            assert(s@ =~= seq!['.', '.', '.']);
            return (true, false, false);
        } else if s[0] == 'n' && s[1] == 'i' && s[2] == 'l' {
            assert(s@ =~= seq!['n', 'i', 'l']);
            return (true, false, false);
        } else if s[0] == ':' && s[1] == ':' && s[2] == '<' {
            assert(s@ =~= seq![':', ':', '<']);
            return (true, false, false);
        }
    } else if n == 4 {
        if s[0] == 'c' && s[1] == 'a' && s[2] == 's' && s[3] == 'e' {
            assert(s@ =~= seq!['c', 'a', 's', 'e']);
            return (true, false, false);
        } else if s[0] == 's' && s[1] == 'y' && s[2] == 'n' && s[3] == 'c' {
            assert(s@ =~= seq!['s', 'y', 'n', 'c']);
            return (true, false, false);
        } else if s[0] == 't' && s[1] == 'h' && s[2] == 'i' && s[3] == 's' {
            assert(s@ =~= seq!['t', 'h', 'i', 's']);
            return (true, false, false);
        } else if s[0] == 'c' && s[1] == 'a' && s[2] == 'l' && s[3] == 'l' {
            assert(s@ =~= seq!['c', 'a', 'l', 'l']);
            return (true, true, true);
        } else if s[0] == 'e' && s[1] == 'v' && s[2] == 'a' && s[3] == 'l' {
            assert(s@ =~= seq!['e', 'v', 'a', 'l']);
            return (true, true, false);
        } else if s[0] == 'n' && s[1] == 'u' && s[2] == 'l' && s[3] == 'l' {
            assert(s@ =~= seq!['n', 'u', 'l', 'l']);
            return (true, false, false);
        } else if s[0] == 'w' && s[1] == 'i' && s[2] == 't' && s[3] == 'h' {
            assert(s@ =~= seq!['w', 'i', 't', 'h']);
            return (true, false, false);
        } else if s[0] == 'v' && s[1] == 'o' && s[2] == 'i' && s[3] == 'd' {
            assert(s@ =~= seq!['v', 'o', 'i', 'd']);
            return (true, false, false);
        } else if s[0] == 'g' && s[1] == 'o' && s[2] == 't' && s[3] == 'o' {
            assert(s@ =~= seq!['g', 'o', 't', 'o']);
            return (true, false, false);
        }
    } else if n == 5 {
        if s[0] == 'a' && s[1] == 's' && s[2] == 'y' && s[3] == 'n' && s[4] == 'c' {
            assert(s@ =~= seq!['a', 's', 'y', 'n', 'c']);
            return (true, false, false);
        } else if s[0] == 's' && s[1] == 'u' && s[2] == 'p' && s[3] == 'e' && s[4] == 'r' {
            assert(s@ =~= seq!['s', 'u', 'p', 'e', 'r']);
            return (true, false, false);
        } else if s[0] == 's' && s[1] == 'p' && s[2] == 'a' && s[3] == 'w' && s[4] == 'n' {
            assert(s@ =~= seq!['s', 'p', 'a', 'w', 'n']);
            return (true, false, false);
        } else if s[0] == 'c' && s[1] == 'u' && s[2] == 'r' && s[3] == 'r' && s[4] == 'y' {
            assert(s@ =~= seq!['c', 'u', 'r', 'r', 'y']);
            return (true, true, true);
        } else if s[0] == 'p' && s[1] == 'r' && s[2] == 'i' && s[3] == 'n' && s[4] == 't' {
            assert(s@ =~= seq!['p', 'r', 'i', 'n', 't']);
            return (true, true, false);
        } else if s[0] == 'y' && s[1] == 'i' && s[2] == 'e' && s[3] == 'l' && s[4] == 'd' {
            assert(s@ =~= seq!['y', 'i', 'e', 'l', 'd']);
            return (true, false, false);
        } else if s[0] == 'm' && s[1] == 'a' && s[2] == 't' && s[3] == 'c' && s[4] == 'h' {
            assert(s@ =~= seq!['m', 'a', 't', 'c', 'h']);
            return (true, false, false);
        } else if s[0] == 'a' && s[1] == 'w' && s[2] == 'a' && s[3] == 'i' && s[4] == 't' {
            assert(s@ =~= seq!['a', 'w', 'a', 'i', 't']);
            return (true, false, false);
        } else if s[0] == 'd' && s[1] == 'e' && s[2] == 'b' && s[3] == 'u' && s[4] == 'g' {
            assert(s@ =~= seq!['d', 'e', 'b', 'u', 'g']);
            return (true, true, false);
        }
    } else if n == 6 {
        if s[0] == 'p' && s[1] == 'u' && s[2] == 'b' && s[3] == 'l' && s[4] == 'i' && s[5] == 'c' {
            assert(s@ =~= seq!['p', 'u', 'b', 'l', 'i', 'c']);
            return (true, false, false);
        } else if s[0] == 's' && s[1] == 'h' && s[2] == 'a' && s[3] == 'r' && s[4] == 'e' && s[5] == 'd' {
            assert(s@ =~= seq!['s', 'h', 'a', 'r', 'e', 'd']);
            return (true, false, false);
        } else if s[0] == 's' && s[1] == 't' && s[2] == 'a' && s[3] == 't' && s[4] == 'i' && s[5] == 'c' {
            assert(s@ =~= seq!['s', 't', 'a', 't', 'i', 'c']);
            return (true, false, false);
        } else if s[0] == 't' && s[1] == 'h' && s[2] == 'r' && s[3] == 'e' && s[4] == 'a' && s[5] == 'd' {
            assert(s@ =~= seq!['t', 'h', 'r', 'e', 'a', 'd']);
            return (true, false, false);
        } else if s[0] == 'm' && s[1] == 'o' && s[2] == 'd' && s[3] == 'u' && s[4] == 'l' && s[5] == 'e' {
            assert(s@ =~= seq!['m', 'o', 'd', 'u', 'l', 'e']);
            return (true, false, false);
        }
    } else if n == 7 {
        if s[0] == 'p' && s[1] == 'a' && s[2] == 'c' && s[3] == 'k' && s[4] == 'a' && s[5] == 'g' && s[6] == 'e' {
            assert(s@ =~= seq!['p', 'a', 'c', 'k', 'a', 'g', 'e']);
            return (true, false, false);
        } else if s[0] == 'd' && s[1] == 'e' && s[2] == 'f' && s[3] == 'a' && s[4] == 'u' && s[5] == 'l' && s[6] == 't' {
            assert(s@ =~= seq!['d', 'e', 'f', 'a', 'u', 'l', 't']);
            return (true, false, false);
        } else if s[0] == 't' && s[1] == 'y' && s[2] == 'p' && s[3] == 'e' && s[4] == '_' && s[5] == 'o' && s[6] == 'f' {
            assert(s@ =~= seq!['t', 'y', 'p', 'e', '_', 'o', 'f']);
            return (true, true, true);
        }
    } else if n == 9 {
        if s[0] == 'p' && s[1] == 'r' && s[2] == 'o' && s[3] == 't' && s[4] == 'e' && s[5] == 'c' && s[6] == 't' && s[7] == 'e' && s[8] == 'd' {
            assert(s@ =~= seq!['p', 'r', 'o', 't', 'e', 'c', 't', 'e', 'd']);
            return (true, false, false);
        } else if s[0] == 'i' && s[1] == 's' && s[2] == '_' && s[3] == 's' && s[4] == 'h' && s[5] == 'a' && s[6] == 'r' && s[7] == 'e' && s[8] == 'd' {
            assert(s@ =~= seq!['i', 's', '_', 's', 'h', 'a', 'r', 'e', 'd']);
            return (true, true, true);
        } else if s[0] == 'i' && s[1] == 's' && s[2] == '_' && s[3] == 'd' && s[4] == 'e' && s[5] == 'f' && s[6] == '_' && s[7] == 'f' && s[8] == 'n' {
            assert(s@ =~= seq!['i', 's', '_', 'd', 'e', 'f', '_', 'f', 'n']);
            return (true, true, false);
        }
    } else if n == 10 {
        if s[0] == 'i' && s[1] == 's' && s[2] == '_' && s[3] == 'd' && s[4] == 'e' && s[5] == 'f' && s[6] == '_' && s[7] == 'v' && s[8] == 'a' && s[9] == 'r' {
            assert(s@ =~= seq!['i', 's', '_', 'd', 'e', 'f', '_', 'v', 'a', 'r']);
            return (true, true, false);
        }
    }
    (false, false, false)
}

impl TokenOf<String> {
    /// Reverse lookup a symbol token from a piece of syntax.
    pub fn lookup_symbol_from_syntax(syntax: &str) -> (r: Option<Token>)
        ensures
            opt_token_view(r) == symbol_from_syntax(syntax@),
    {
        let chars = chars_of_str(syntax);
        symbol_from_chars(chars.as_slice())
    }
}

/// Is a piece of syntax a reserved keyword or reserved symbol?
///
/// The first `bool` tells whether it is a reserved keyword or symbol; the second whether the
/// keyword can be called normally as a function; the third whether it can be called in
/// method-call style.
pub fn is_reserved_keyword_or_symbol(syntax: &str) -> (r: (bool, bool, bool))
    ensures
        r == reserved_info(syntax@),
{
    let chars = chars_of_str(syntax);
    reserved_info_of_chars(chars.as_slice())
}

} // verus!
