//! Tokens of the Rhai language.
use vstd::prelude::*;
use crate::error::LexErrorOf;
use crate::text::{i64_text, string_push, string_push_str, int_text, char_to_string};

verus! {

/// A Rhai language token, generic over the type of the text it carries.
///
/// `Token` (text held in `String`s) is what the tokenizer produces; `SpecToken` (text held as
/// sequences of characters) is its mathematical model.
#[derive(Debug, PartialEq, Clone, Hash)]
pub enum TokenOf<S> {
    /// An `INT` constant.
    IntegerConstant(i64),
    /// A floating-point constant, held as its text (the value is that text read as a `f64`).
    FloatConstant(S),
    /// An identifier.
    Identifier(S),
    /// A character constant.
    CharConstant(char),
    /// A string constant.
    StringConstant(S),
    /// An interpolated string.
    InterpolatedString(S),
    /// `{`
    LeftBrace,
    /// `}`
    RightBrace,
    /// `(`
    LeftParen,
    /// `)`
    RightParen,
    /// `[`
    LeftBracket,
    /// `]`
    RightBracket,
    /// `()`
    Unit,
    /// `+`
    Plus,
    /// `+` (unary)
    UnaryPlus,
    /// `-`
    Minus,
    /// `-` (unary)
    UnaryMinus,
    /// `*`
    Multiply,
    /// `/`
    Divide,
    /// `%`
    Modulo,
    /// `**`
    PowerOf,
    /// `<<`
    LeftShift,
    /// `>>`
    RightShift,
    /// `;`
    SemiColon,
    /// `:`
    Colon,
    /// `::`
    DoubleColon,
    /// `=>`
    DoubleArrow,
    /// `_`
    Underscore,
    /// `,`
    Comma,
    /// `.`
    Period,
    /// `?.`
    Elvis,
    /// `??`
    DoubleQuestion,
    /// `?[`
    QuestionBracket,
    /// `..`
    ExclusiveRange,
    /// `..=`
    InclusiveRange,
    /// `#{`
    MapStart,
    /// `=`
    Equals,
    /// `true`
    True,
    /// `false`
    False,
    /// `let`
    Let,
    /// `const`
    Const,
    /// `if`
    If,
    /// `else`
    Else,
    /// `switch`
    Switch,
    /// `do`
    Do,
    /// `while`
    While,
    /// `until`
    Until,
    /// `loop`
    Loop,
    /// `for`
    For,
    /// `in`
    In,
    /// `!in`
    NotIn,
    /// `<`
    LessThan,
    /// `>`
    GreaterThan,
    /// `<=`
    LessThanEqualsTo,
    /// `>=`
    GreaterThanEqualsTo,
    /// `==`
    EqualsTo,
    /// `!=`
    NotEqualsTo,
    /// `!`
    Bang,
    /// `|`
    Pipe,
    /// `||`
    Or,
    /// `^`
    XOr,
    /// `&`
    Ampersand,
    /// `&&`
    And,
    /// `fn`
    Fn,
    /// `continue`
    Continue,
    /// `break`
    Break,
    /// `return`
    Return,
    /// `throw`
    Throw,
    /// `try`
    Try,
    /// `catch`
    Catch,
    /// `+=`
    PlusAssign,
    /// `-=`
    MinusAssign,
    /// `*=`
    MultiplyAssign,
    /// `/=`
    DivideAssign,
    /// `<<=`
    LeftShiftAssign,
    /// `>>=`
    RightShiftAssign,
    /// `&=`
    AndAssign,
    /// `|=`
    OrAssign,
    /// `^=`
    XOrAssign,
    /// `%=`
    ModuloAssign,
    /// `**=`
    PowerOfAssign,
    /// `private`
    Private,
    /// `import`
    Import,
    /// `export`
    Export,
    /// `as`
    As,
    /// A lexer error.
    LexError(LexErrorOf<S>),
    /// A comment block.
    Comment(S),
    /// A reserved symbol.
    Reserved(S),
    /// A custom keyword.
    Custom(S),
    /// A single character from the input stream, unprocessed.
    UnprocessedRawChar(char),
    /// End of the input stream.
    /// Used as a placeholder for the end of input.
    EOF,
}

/// The tokens that the tokenizer produces.
pub type Token = TokenOf<String>;

/// The mathematical model of a token.
pub type SpecToken = TokenOf<Seq<char>>;

impl View for TokenOf<String> {
    type V = SpecToken;

    open spec fn view(&self) -> SpecToken {
        match self {
            TokenOf::IntegerConstant(x) => TokenOf::IntegerConstant(*x),
            TokenOf::FloatConstant(s) => TokenOf::FloatConstant(s@),
            TokenOf::Identifier(s) => TokenOf::Identifier(s@),
            TokenOf::CharConstant(x) => TokenOf::CharConstant(*x),
            TokenOf::StringConstant(s) => TokenOf::StringConstant(s@),
            TokenOf::InterpolatedString(s) => TokenOf::InterpolatedString(s@),
            TokenOf::LeftBrace => TokenOf::LeftBrace,
            TokenOf::RightBrace => TokenOf::RightBrace,
            TokenOf::LeftParen => TokenOf::LeftParen,
            TokenOf::RightParen => TokenOf::RightParen,
            TokenOf::LeftBracket => TokenOf::LeftBracket,
            TokenOf::RightBracket => TokenOf::RightBracket,
            TokenOf::Unit => TokenOf::Unit,
            TokenOf::Plus => TokenOf::Plus,
            TokenOf::UnaryPlus => TokenOf::UnaryPlus,
            TokenOf::Minus => TokenOf::Minus,
            TokenOf::UnaryMinus => TokenOf::UnaryMinus,
            TokenOf::Multiply => TokenOf::Multiply,
            TokenOf::Divide => TokenOf::Divide,
            TokenOf::Modulo => TokenOf::Modulo,
            TokenOf::PowerOf => TokenOf::PowerOf,
            TokenOf::LeftShift => TokenOf::LeftShift,
            TokenOf::RightShift => TokenOf::RightShift,
            TokenOf::SemiColon => TokenOf::SemiColon,
            TokenOf::Colon => TokenOf::Colon,
            TokenOf::DoubleColon => TokenOf::DoubleColon,
            TokenOf::DoubleArrow => TokenOf::DoubleArrow,
            TokenOf::Underscore => TokenOf::Underscore,
            TokenOf::Comma => TokenOf::Comma,
            TokenOf::Period => TokenOf::Period,
            TokenOf::Elvis => TokenOf::Elvis,
            TokenOf::DoubleQuestion => TokenOf::DoubleQuestion,
            TokenOf::QuestionBracket => TokenOf::QuestionBracket,
            TokenOf::ExclusiveRange => TokenOf::ExclusiveRange,
            TokenOf::InclusiveRange => TokenOf::InclusiveRange,
            TokenOf::MapStart => TokenOf::MapStart,
            TokenOf::Equals => TokenOf::Equals,
            TokenOf::True => TokenOf::True,
            TokenOf::False => TokenOf::False,
            TokenOf::Let => TokenOf::Let,
            TokenOf::Const => TokenOf::Const,
            TokenOf::If => TokenOf::If,
            TokenOf::Else => TokenOf::Else,
            TokenOf::Switch => TokenOf::Switch,
            TokenOf::Do => TokenOf::Do,
            TokenOf::While => TokenOf::While,
            TokenOf::Until => TokenOf::Until,
            TokenOf::Loop => TokenOf::Loop,
            TokenOf::For => TokenOf::For,
            TokenOf::In => TokenOf::In,
            TokenOf::NotIn => TokenOf::NotIn,
            TokenOf::LessThan => TokenOf::LessThan,
            TokenOf::GreaterThan => TokenOf::GreaterThan,
            TokenOf::LessThanEqualsTo => TokenOf::LessThanEqualsTo,
            TokenOf::GreaterThanEqualsTo => TokenOf::GreaterThanEqualsTo,
            TokenOf::EqualsTo => TokenOf::EqualsTo,
            TokenOf::NotEqualsTo => TokenOf::NotEqualsTo,
            TokenOf::Bang => TokenOf::Bang,
            TokenOf::Pipe => TokenOf::Pipe,
            TokenOf::Or => TokenOf::Or,
            TokenOf::XOr => TokenOf::XOr,
            TokenOf::Ampersand => TokenOf::Ampersand,
            TokenOf::And => TokenOf::And,
            TokenOf::Fn => TokenOf::Fn,
            TokenOf::Continue => TokenOf::Continue,
            TokenOf::Break => TokenOf::Break,
            TokenOf::Return => TokenOf::Return,
            TokenOf::Throw => TokenOf::Throw,
            TokenOf::Try => TokenOf::Try,
            TokenOf::Catch => TokenOf::Catch,
            TokenOf::PlusAssign => TokenOf::PlusAssign,
            TokenOf::MinusAssign => TokenOf::MinusAssign,
            TokenOf::MultiplyAssign => TokenOf::MultiplyAssign,
            TokenOf::DivideAssign => TokenOf::DivideAssign,
            TokenOf::LeftShiftAssign => TokenOf::LeftShiftAssign,
            TokenOf::RightShiftAssign => TokenOf::RightShiftAssign,
            TokenOf::AndAssign => TokenOf::AndAssign,
            TokenOf::OrAssign => TokenOf::OrAssign,
            TokenOf::XOrAssign => TokenOf::XOrAssign,
            TokenOf::ModuloAssign => TokenOf::ModuloAssign,
            TokenOf::PowerOfAssign => TokenOf::PowerOfAssign,
            TokenOf::Private => TokenOf::Private,
            TokenOf::Import => TokenOf::Import,
            TokenOf::Export => TokenOf::Export,
            TokenOf::As => TokenOf::As,
            TokenOf::LexError(e) => TokenOf::LexError(e@),
            TokenOf::Comment(s) => TokenOf::Comment(s@),
            TokenOf::Reserved(s) => TokenOf::Reserved(s@),
            TokenOf::Custom(s) => TokenOf::Custom(s@),
            TokenOf::UnprocessedRawChar(x) => TokenOf::UnprocessedRawChar(*x),
            TokenOf::EOF => TokenOf::EOF,
        }
    }
}

/// Does the token stand for a fixed piece of syntax (a symbol or a keyword)?
pub open spec fn has_syntax(t: SpecToken) -> bool {
    match t {
        TokenOf::LeftBrace
        | TokenOf::RightBrace
        | TokenOf::LeftParen
        | TokenOf::RightParen
        | TokenOf::LeftBracket
        | TokenOf::RightBracket
        | TokenOf::Unit
        | TokenOf::Plus
        | TokenOf::UnaryPlus
        | TokenOf::Minus
        | TokenOf::UnaryMinus
        | TokenOf::Multiply
        | TokenOf::Divide
        | TokenOf::Modulo
        | TokenOf::PowerOf
        | TokenOf::LeftShift
        | TokenOf::RightShift
        | TokenOf::SemiColon
        | TokenOf::Colon
        | TokenOf::DoubleColon
        | TokenOf::DoubleArrow
        | TokenOf::Underscore
        | TokenOf::Comma
        | TokenOf::Period
        | TokenOf::Elvis
        | TokenOf::DoubleQuestion
        | TokenOf::QuestionBracket
        | TokenOf::ExclusiveRange
        | TokenOf::InclusiveRange
        | TokenOf::MapStart
        | TokenOf::Equals
        | TokenOf::True
        | TokenOf::False
        | TokenOf::Let
        | TokenOf::Const
        | TokenOf::If
        | TokenOf::Else
        | TokenOf::Switch
        | TokenOf::Do
        | TokenOf::While
        | TokenOf::Until
        | TokenOf::Loop
        | TokenOf::For
        | TokenOf::In
        | TokenOf::NotIn
        | TokenOf::LessThan
        | TokenOf::GreaterThan
        | TokenOf::LessThanEqualsTo
        | TokenOf::GreaterThanEqualsTo
        | TokenOf::EqualsTo
        | TokenOf::NotEqualsTo
        | TokenOf::Bang
        | TokenOf::Pipe
        | TokenOf::Or
        | TokenOf::XOr
        | TokenOf::Ampersand
        | TokenOf::And
        | TokenOf::Fn
        | TokenOf::Continue
        | TokenOf::Break
        | TokenOf::Return
        | TokenOf::Throw
        | TokenOf::Try
        | TokenOf::Catch
        | TokenOf::PlusAssign
        | TokenOf::MinusAssign
        | TokenOf::MultiplyAssign
        | TokenOf::DivideAssign
        | TokenOf::LeftShiftAssign
        | TokenOf::RightShiftAssign
        | TokenOf::AndAssign
        | TokenOf::OrAssign
        | TokenOf::XOrAssign
        | TokenOf::ModuloAssign
        | TokenOf::PowerOfAssign
        | TokenOf::Private
        | TokenOf::Import
        | TokenOf::Export
        | TokenOf::As => true,
        _ => false,
    }
}

/// The fixed syntax of a symbol or keyword token (empty for other tokens).
pub open spec fn syntax_of(t: SpecToken) -> Seq<char> {
    match t {
        TokenOf::LeftBrace => seq!['{'],
        TokenOf::RightBrace => seq!['}'],
        TokenOf::LeftParen => seq!['('],
        TokenOf::RightParen => seq![')'],
        TokenOf::LeftBracket => seq!['['],
        TokenOf::RightBracket => seq![']'],
        TokenOf::Unit => seq!['(', ')'],
        TokenOf::Plus => seq!['+'],
        TokenOf::UnaryPlus => seq!['+'],
        TokenOf::Minus => seq!['-'],
        TokenOf::UnaryMinus => seq!['-'],
        TokenOf::Multiply => seq!['*'],
        TokenOf::Divide => seq!['/'],
        TokenOf::Modulo => seq!['%'],
        TokenOf::PowerOf => seq!['*', '*'],
        TokenOf::LeftShift => seq!['<', '<'],
        TokenOf::RightShift => seq!['>', '>'],
        TokenOf::SemiColon => seq![';'],
        TokenOf::Colon => seq![':'],
        TokenOf::DoubleColon => seq![':', ':'],
        TokenOf::DoubleArrow => seq!['=', '>'],
        TokenOf::Underscore => seq!['_'],
        TokenOf::Comma => seq![','],
        TokenOf::Period => seq!['.'],
        TokenOf::Elvis => seq!['?', '.'],
        TokenOf::DoubleQuestion => seq!['?', '?'],
        TokenOf::QuestionBracket => seq!['?', '['],
        TokenOf::ExclusiveRange => seq!['.', '.'],
        TokenOf::InclusiveRange => seq!['.', '.', '='],
        TokenOf::MapStart => seq!['#', '{'],
        TokenOf::Equals => seq!['='],
        TokenOf::True => seq!['t', 'r', 'u', 'e'],
        TokenOf::False => seq!['f', 'a', 'l', 's', 'e'],
        TokenOf::Let => seq!['l', 'e', 't'],
        TokenOf::Const => seq!['c', 'o', 'n', 's', 't'],
        TokenOf::If => seq!['i', 'f'],
        TokenOf::Else => seq!['e', 'l', 's', 'e'],
        TokenOf::Switch => seq!['s', 'w', 'i', 't', 'c', 'h'],
        TokenOf::Do => seq!['d', 'o'],
        TokenOf::While => seq!['w', 'h', 'i', 'l', 'e'],
        TokenOf::Until => seq!['u', 'n', 't', 'i', 'l'],
        TokenOf::Loop => seq!['l', 'o', 'o', 'p'],
        TokenOf::For => seq!['f', 'o', 'r'],
        TokenOf::In => seq!['i', 'n'],
        TokenOf::NotIn => seq!['!', 'i', 'n'],
        TokenOf::LessThan => seq!['<'],
        TokenOf::GreaterThan => seq!['>'],
        TokenOf::LessThanEqualsTo => seq!['<', '='],
        TokenOf::GreaterThanEqualsTo => seq!['>', '='],
        TokenOf::EqualsTo => seq!['=', '='],
        TokenOf::NotEqualsTo => seq!['!', '='],
        TokenOf::Bang => seq!['!'],
        TokenOf::Pipe => seq!['|'],
        TokenOf::Or => seq!['|', '|'],
        TokenOf::XOr => seq!['^'],
        TokenOf::Ampersand => seq!['&'],
        TokenOf::And => seq!['&', '&'],
        TokenOf::Fn => seq!['f', 'n'],
        TokenOf::Continue => seq!['c', 'o', 'n', 't', 'i', 'n', 'u', 'e'],
        TokenOf::Break => seq!['b', 'r', 'e', 'a', 'k'],
        TokenOf::Return => seq!['r', 'e', 't', 'u', 'r', 'n'],
        TokenOf::Throw => seq!['t', 'h', 'r', 'o', 'w'],
        TokenOf::Try => seq!['t', 'r', 'y'],
        TokenOf::Catch => seq!['c', 'a', 't', 'c', 'h'],
        TokenOf::PlusAssign => seq!['+', '='],
        TokenOf::MinusAssign => seq!['-', '='],
        TokenOf::MultiplyAssign => seq!['*', '='],
        TokenOf::DivideAssign => seq!['/', '='],
        TokenOf::LeftShiftAssign => seq!['<', '<', '='],
        TokenOf::RightShiftAssign => seq!['>', '>', '='],
        TokenOf::AndAssign => seq!['&', '='],
        TokenOf::OrAssign => seq!['|', '='],
        TokenOf::XOrAssign => seq!['^', '='],
        TokenOf::ModuloAssign => seq!['%', '='],
        TokenOf::PowerOfAssign => seq!['*', '*', '='],
        TokenOf::Private => seq!['p', 'r', 'i', 'v', 'a', 't', 'e'],
        TokenOf::Import => seq!['i', 'm', 'p', 'o', 'r', 't'],
        TokenOf::Export => seq!['e', 'x', 'p', 'o', 'r', 't'],
        TokenOf::As => seq!['a', 's'],
        _ => seq![],
    }
}

/// Is the token a literal symbol (anything but text-carrying tokens and the end of input)?
pub open spec fn is_literal_spec(t: SpecToken) -> bool {
    match t {
        TokenOf::LeftBrace
        | TokenOf::RightBrace
        | TokenOf::LeftParen
        | TokenOf::RightParen
        | TokenOf::LeftBracket
        | TokenOf::RightBracket
        | TokenOf::Unit
        | TokenOf::Plus
        | TokenOf::UnaryPlus
        | TokenOf::Minus
        | TokenOf::UnaryMinus
        | TokenOf::Multiply
        | TokenOf::Divide
        | TokenOf::Modulo
        | TokenOf::PowerOf
        | TokenOf::LeftShift
        | TokenOf::RightShift
        | TokenOf::SemiColon
        | TokenOf::Colon
        | TokenOf::DoubleColon
        | TokenOf::DoubleArrow
        | TokenOf::Underscore
        | TokenOf::Comma
        | TokenOf::Period
        | TokenOf::Elvis
        | TokenOf::DoubleQuestion
        | TokenOf::QuestionBracket
        | TokenOf::ExclusiveRange
        | TokenOf::InclusiveRange
        | TokenOf::MapStart
        | TokenOf::Equals
        | TokenOf::True
        | TokenOf::False
        | TokenOf::Let
        | TokenOf::Const
        | TokenOf::If
        | TokenOf::Else
        | TokenOf::Switch
        | TokenOf::Do
        | TokenOf::While
        | TokenOf::Until
        | TokenOf::Loop
        | TokenOf::For
        | TokenOf::In
        | TokenOf::NotIn
        | TokenOf::LessThan
        | TokenOf::GreaterThan
        | TokenOf::LessThanEqualsTo
        | TokenOf::GreaterThanEqualsTo
        | TokenOf::EqualsTo
        | TokenOf::NotEqualsTo
        | TokenOf::Bang
        | TokenOf::Pipe
        | TokenOf::Or
        | TokenOf::XOr
        | TokenOf::Ampersand
        | TokenOf::And
        | TokenOf::Fn
        | TokenOf::Continue
        | TokenOf::Break
        | TokenOf::Return
        | TokenOf::Throw
        | TokenOf::Try
        | TokenOf::Catch
        | TokenOf::PlusAssign
        | TokenOf::MinusAssign
        | TokenOf::MultiplyAssign
        | TokenOf::DivideAssign
        | TokenOf::LeftShiftAssign
        | TokenOf::RightShiftAssign
        | TokenOf::AndAssign
        | TokenOf::OrAssign
        | TokenOf::XOrAssign
        | TokenOf::ModuloAssign
        | TokenOf::PowerOfAssign
        | TokenOf::Private
        | TokenOf::Import
        | TokenOf::Export
        | TokenOf::As
        | TokenOf::UnprocessedRawChar(..) => true,
        _ => false,
    }
}

/// Is the token an op-assignment operator?
pub open spec fn is_op_assignment_spec(t: SpecToken) -> bool {
    match t {
        TokenOf::PlusAssign
        | TokenOf::MinusAssign
        | TokenOf::MultiplyAssign
        | TokenOf::DivideAssign
        | TokenOf::LeftShiftAssign
        | TokenOf::RightShiftAssign
        | TokenOf::ModuloAssign
        | TokenOf::PowerOfAssign
        | TokenOf::AndAssign
        | TokenOf::OrAssign
        | TokenOf::XOrAssign => true,
        _ => false,
    }
}

/// Has the token a corresponding op-assignment operator?
pub open spec fn has_op_assignment_spec(t: SpecToken) -> bool {
    match t {
        TokenOf::Plus
        | TokenOf::Minus
        | TokenOf::Multiply
        | TokenOf::Divide
        | TokenOf::LeftShift
        | TokenOf::RightShift
        | TokenOf::Modulo
        | TokenOf::PowerOf
        | TokenOf::Ampersand
        | TokenOf::Pipe
        | TokenOf::XOr => true,
        _ => false,
    }
}

/// The operator of an op-assignment operator.
pub open spec fn base_op_spec(t: SpecToken) -> Option<SpecToken> {
    match t {
        TokenOf::PlusAssign => Some(TokenOf::Plus),
        TokenOf::MinusAssign => Some(TokenOf::Minus),
        TokenOf::MultiplyAssign => Some(TokenOf::Multiply),
        TokenOf::DivideAssign => Some(TokenOf::Divide),
        TokenOf::LeftShiftAssign => Some(TokenOf::LeftShift),
        TokenOf::RightShiftAssign => Some(TokenOf::RightShift),
        TokenOf::ModuloAssign => Some(TokenOf::Modulo),
        TokenOf::PowerOfAssign => Some(TokenOf::PowerOf),
        TokenOf::AndAssign => Some(TokenOf::Ampersand),
        TokenOf::OrAssign => Some(TokenOf::Pipe),
        TokenOf::XOrAssign => Some(TokenOf::XOr),
        _ => None,
    }
}

/// The op-assignment operator of an operator.
pub open spec fn op_assignment_spec(t: SpecToken) -> Option<SpecToken> {
    match t {
        TokenOf::Plus => Some(TokenOf::PlusAssign),
        TokenOf::Minus => Some(TokenOf::MinusAssign),
        TokenOf::Multiply => Some(TokenOf::MultiplyAssign),
        TokenOf::Divide => Some(TokenOf::DivideAssign),
        TokenOf::LeftShift => Some(TokenOf::LeftShiftAssign),
        TokenOf::RightShift => Some(TokenOf::RightShiftAssign),
        TokenOf::Modulo => Some(TokenOf::ModuloAssign),
        TokenOf::PowerOf => Some(TokenOf::PowerOfAssign),
        TokenOf::Ampersand => Some(TokenOf::AndAssign),
        TokenOf::Pipe => Some(TokenOf::OrAssign),
        TokenOf::XOr => Some(TokenOf::XOrAssign),
        _ => None,
    }
}

/// If another operator follows this token, is it probably a unary operator?
pub open spec fn is_next_unary_spec(t: SpecToken) -> bool {
    match t {
        TokenOf::SemiColon
        | TokenOf::Colon
        | TokenOf::Comma
        | TokenOf::DoubleQuestion
        | TokenOf::ExclusiveRange
        | TokenOf::InclusiveRange
        | TokenOf::LeftBrace
        | TokenOf::LeftParen
        | TokenOf::LeftBracket
        | TokenOf::Plus
        | TokenOf::PlusAssign
        | TokenOf::UnaryPlus
        | TokenOf::Minus
        | TokenOf::MinusAssign
        | TokenOf::UnaryMinus
        | TokenOf::Multiply
        | TokenOf::MultiplyAssign
        | TokenOf::Divide
        | TokenOf::DivideAssign
        | TokenOf::Modulo
        | TokenOf::ModuloAssign
        | TokenOf::PowerOf
        | TokenOf::PowerOfAssign
        | TokenOf::LeftShift
        | TokenOf::LeftShiftAssign
        | TokenOf::RightShift
        | TokenOf::RightShiftAssign
        | TokenOf::Equals
        | TokenOf::EqualsTo
        | TokenOf::NotEqualsTo
        | TokenOf::LessThan
        | TokenOf::GreaterThan
        | TokenOf::Bang
        | TokenOf::LessThanEqualsTo
        | TokenOf::GreaterThanEqualsTo
        | TokenOf::Pipe
        | TokenOf::Ampersand
        | TokenOf::If
        | TokenOf::While
        | TokenOf::Until
        | TokenOf::In
        | TokenOf::NotIn
        | TokenOf::And
        | TokenOf::AndAssign
        | TokenOf::Or
        | TokenOf::OrAssign
        | TokenOf::XOr
        | TokenOf::XOrAssign
        | TokenOf::Return
        | TokenOf::Throw
        | TokenOf::QuestionBracket
        | TokenOf::LexError(..) => true,
        _ => false,
    }
}

/// The precedence number of a binary operator token (0 for other tokens).
pub open spec fn precedence_spec(t: SpecToken) -> u8 {
    match t {
        TokenOf::Or | TokenOf::XOr | TokenOf::Pipe => 30,
        TokenOf::And | TokenOf::Ampersand => 60,
        TokenOf::EqualsTo | TokenOf::NotEqualsTo => 90,
        TokenOf::In | TokenOf::NotIn => 110,
        TokenOf::LessThan | TokenOf::LessThanEqualsTo | TokenOf::GreaterThan | TokenOf::GreaterThanEqualsTo => 130,
        TokenOf::DoubleQuestion => 135,
        TokenOf::ExclusiveRange | TokenOf::InclusiveRange => 140,
        TokenOf::Plus | TokenOf::Minus => 150,
        TokenOf::Divide | TokenOf::Multiply | TokenOf::Modulo => 180,
        TokenOf::PowerOf => 190,
        TokenOf::LeftShift | TokenOf::RightShift => 210,
        _ => 0,
    }
}

/// Is the token a standard symbol of the language?
pub open spec fn is_standard_symbol_spec(t: SpecToken) -> bool {
    match t {
        TokenOf::LeftBrace
        | TokenOf::RightBrace
        | TokenOf::LeftParen
        | TokenOf::RightParen
        | TokenOf::LeftBracket
        | TokenOf::RightBracket
        | TokenOf::Plus
        | TokenOf::UnaryPlus
        | TokenOf::Minus
        | TokenOf::UnaryMinus
        | TokenOf::Multiply
        | TokenOf::Divide
        | TokenOf::Modulo
        | TokenOf::PowerOf
        | TokenOf::LeftShift
        | TokenOf::RightShift
        | TokenOf::SemiColon
        | TokenOf::Colon
        | TokenOf::DoubleColon
        | TokenOf::Comma
        | TokenOf::Period
        | TokenOf::DoubleQuestion
        | TokenOf::ExclusiveRange
        | TokenOf::InclusiveRange
        | TokenOf::MapStart
        | TokenOf::Equals
        | TokenOf::LessThan
        | TokenOf::GreaterThan
        | TokenOf::LessThanEqualsTo
        | TokenOf::GreaterThanEqualsTo
        | TokenOf::EqualsTo
        | TokenOf::NotEqualsTo
        | TokenOf::Bang
        | TokenOf::Pipe
        | TokenOf::Or
        | TokenOf::XOr
        | TokenOf::Ampersand
        | TokenOf::And
        | TokenOf::PlusAssign
        | TokenOf::MinusAssign
        | TokenOf::MultiplyAssign
        | TokenOf::DivideAssign
        | TokenOf::LeftShiftAssign
        | TokenOf::RightShiftAssign
        | TokenOf::AndAssign
        | TokenOf::OrAssign
        | TokenOf::XOrAssign
        | TokenOf::ModuloAssign
        | TokenOf::PowerOfAssign
        | TokenOf::Elvis
        | TokenOf::QuestionBracket => true,
        _ => false,
    }
}

/// Is the token a standard keyword of the language?
pub open spec fn is_standard_keyword_spec(t: SpecToken) -> bool {
    match t {
        TokenOf::Fn
        | TokenOf::Private
        | TokenOf::Import
        | TokenOf::Export
        | TokenOf::As
        | TokenOf::True
        | TokenOf::False
        | TokenOf::Let
        | TokenOf::Const
        | TokenOf::If
        | TokenOf::Else
        | TokenOf::Do
        | TokenOf::While
        | TokenOf::Until
        | TokenOf::Loop
        | TokenOf::For
        | TokenOf::In
        | TokenOf::Continue
        | TokenOf::Break
        | TokenOf::Return
        | TokenOf::Throw
        | TokenOf::Try
        | TokenOf::Catch => true,
        _ => false,
    }
}

/// The model of an optional token.
pub open spec fn opt_token_view(o: Option<Token>) -> Option<SpecToken> {
    match o {
        Some(t) => Some(t@),
        None => None,
    }
}

/// The text of a token, as the tokenizer writes it back out.
pub open spec fn token_text(t: SpecToken) -> Seq<char> {
    match t {
        TokenOf::IntegerConstant(i) => int_text(i as int),
        TokenOf::FloatConstant(s) => s,
        TokenOf::StringConstant(s) => seq!['"'] + s + seq!['"'],
        TokenOf::InterpolatedString(_) => seq!['s', 't', 'r', 'i', 'n', 'g'],
        TokenOf::CharConstant(c) => seq![c],
        TokenOf::Identifier(s) => s,
        TokenOf::Reserved(s) => s,
        TokenOf::Custom(s) => s,
        TokenOf::UnprocessedRawChar(c) => seq![c],
        TokenOf::LexError(e) => crate::error::error_text(e),
        TokenOf::Comment(s) => s,
        TokenOf::EOF => seq!['{', 'E', 'O', 'F', '}'],
        _ => syntax_of(t),
    }
}

impl TokenOf<String> {
    /// Is the token a literal symbol?
    pub fn is_literal(&self) -> (r: bool)
        ensures
            r == is_literal_spec(self@),
    {
        match self {
            TokenOf::IntegerConstant(..)
            | TokenOf::FloatConstant(..)
            | TokenOf::StringConstant(..)
            | TokenOf::InterpolatedString(..)
            | TokenOf::CharConstant(..)
            | TokenOf::Identifier(..)
            | TokenOf::Reserved(..)
            | TokenOf::Custom(..)
            | TokenOf::LexError(..)
            | TokenOf::Comment(..)
            | TokenOf::EOF => false,
            _ => true,
        }
    }

    /// Does the token stand for a fixed symbol or keyword (one with a literal syntax)?
    pub fn has_literal_syntax(&self) -> (r: bool)
        ensures
            r == has_syntax(self@),
    {
        self.is_literal() && !matches!(self, TokenOf::UnprocessedRawChar(_))
    }

    /// The literal syntax of the token.  The token must stand for a fixed symbol or keyword:
    /// every literal symbol but a raw character, whose text is no fixed `'static` string (the
    /// match over the tokens has no arm for it and panics).
    pub fn literal_syntax(&self) -> (r: &'static str)
        requires
            has_syntax(self@),
        ensures
            r@ == syntax_of(self@),
    {
        match self {
            TokenOf::LeftBrace => {
                proof {
                    reveal_strlit("{");
                }
                "{"
            },
            TokenOf::RightBrace => {
                proof {
                    reveal_strlit("}");
                }
                "}"
            },
            TokenOf::LeftParen => {
                proof {
                    reveal_strlit("(");
                }
                "("
            },
            TokenOf::RightParen => {
                proof {
                    reveal_strlit(")");
                }
                ")"
            },
            TokenOf::LeftBracket => {
                proof {
                    reveal_strlit("[");
                }
                "["
            },
            TokenOf::RightBracket => {
                proof {
                    reveal_strlit("]");
                }
                "]"
            },
            TokenOf::Unit => {
                proof {
                    reveal_strlit("()");
                }
                "()"
            },
            TokenOf::Plus => {
                proof {
                    reveal_strlit("+");
                }
                "+"
            },
            TokenOf::UnaryPlus => {
                proof {
                    reveal_strlit("+");
                }
                "+"
            },
            TokenOf::Minus => {
                proof {
                    reveal_strlit("-");
                }
                "-"
            },
            TokenOf::UnaryMinus => {
                proof {
                    reveal_strlit("-");
                }
                "-"
            },
            TokenOf::Multiply => {
                proof {
                    reveal_strlit("*");
                }
                "*"
            },
            TokenOf::Divide => {
                proof {
                    reveal_strlit("/");
                }
                "/"
            },
            TokenOf::Modulo => {
                proof {
                    reveal_strlit("%");
                }
                "%"
            },
            TokenOf::PowerOf => {
                proof {
                    reveal_strlit("**");
                }
                "**"
            },
            TokenOf::LeftShift => {
                proof {
                    reveal_strlit("<<");
                }
                "<<"
            },
            TokenOf::RightShift => {
                proof {
                    reveal_strlit(">>");
                }
                ">>"
            },
            TokenOf::SemiColon => {
                proof {
                    reveal_strlit(";");
                }
                ";"
            },
            TokenOf::Colon => {
                proof {
                    reveal_strlit(":");
                }
                ":"
            },
            TokenOf::DoubleColon => {
                proof {
                    reveal_strlit("::");
                }
                "::"
            },
            TokenOf::DoubleArrow => {
                proof {
                    reveal_strlit("=>");
                }
                "=>"
            },
            TokenOf::Underscore => {
                proof {
                    reveal_strlit("_");
                }
                "_"
            },
            TokenOf::Comma => {
                proof {
                    reveal_strlit(",");
                }
                ","
            },
            TokenOf::Period => {
                proof {
                    reveal_strlit(".");
                }
                "."
            },
            TokenOf::Elvis => {
                proof {
                    reveal_strlit("?.");
                }
                "?."
            },
            TokenOf::DoubleQuestion => {
                proof {
                    reveal_strlit("??");
                }
                "??"
            },
            TokenOf::QuestionBracket => {
                proof {
                    reveal_strlit("?[");
                }
                "?["
            },
            TokenOf::ExclusiveRange => {
                proof {
                    reveal_strlit("..");
                }
                ".."
            },
            TokenOf::InclusiveRange => {
                proof {
                    reveal_strlit("..=");
                }
                "..="
            },
            TokenOf::MapStart => {
                proof {
                    reveal_strlit("#{");
                }
                "#{"
            },
            TokenOf::Equals => {
                proof {
                    reveal_strlit("=");
                }
                "="
            },
            TokenOf::True => {
                proof {
                    reveal_strlit("true");
                }
                "true"
            },
            TokenOf::False => {
                proof {
                    reveal_strlit("false");
                }
                "false"
            },
            TokenOf::Let => {
                proof {
                    reveal_strlit("let");
                }
                "let"
            },
            TokenOf::Const => {
                proof {
                    reveal_strlit("const");
                }
                "const"
            },
            TokenOf::If => {
                proof {
                    reveal_strlit("if");
                }
                "if"
            },
            TokenOf::Else => {
                proof {
                    reveal_strlit("else");
                }
                "else"
            },
            TokenOf::Switch => {
                proof {
                    reveal_strlit("switch");
                }
                "switch"
            },
            TokenOf::Do => {
                proof {
                    reveal_strlit("do");
                }
                "do"
            },
            TokenOf::While => {
                proof {
                    reveal_strlit("while");
                }
                "while"
            },
            TokenOf::Until => {
                proof {
                    reveal_strlit("until");
                }
                "until"
            },
            TokenOf::Loop => {
                proof {
                    reveal_strlit("loop");
                }
                "loop"
            },
            TokenOf::For => {
                proof {
                    reveal_strlit("for");
                }
                "for"
            },
            TokenOf::In => {
                proof {
                    reveal_strlit("in");
                }
                "in"
            },
            TokenOf::NotIn => {
                proof {
                    reveal_strlit("!in");
                }
                "!in"
            },
            TokenOf::LessThan => {
                proof {
                    reveal_strlit("<");
                }
                "<"
            },
            TokenOf::GreaterThan => {
                proof {
                    reveal_strlit(">");
                }
                ">"
            },
            TokenOf::LessThanEqualsTo => {
                proof {
                    reveal_strlit("<=");
                }
                "<="
            },
            TokenOf::GreaterThanEqualsTo => {
                proof {
                    reveal_strlit(">=");
                }
                ">="
            },
            TokenOf::EqualsTo => {
                proof {
                    reveal_strlit("==");
                }
                "=="
            },
            TokenOf::NotEqualsTo => {
                proof {
                    reveal_strlit("!=");
                }
                "!="
            },
            TokenOf::Bang => {
                proof {
                    reveal_strlit("!");
                }
                "!"
            },
            TokenOf::Pipe => {
                proof {
                    reveal_strlit("|");
                }
                "|"
            },
            TokenOf::Or => {
                proof {
                    reveal_strlit("||");
                }
                "||"
            },
            TokenOf::XOr => {
                proof {
                    reveal_strlit("^");
                }
                "^"
            },
            TokenOf::Ampersand => {
                proof {
                    reveal_strlit("&");
                }
                "&"
            },
            TokenOf::And => {
                proof {
                    reveal_strlit("&&");
                }
                "&&"
            },
            TokenOf::Fn => {
                proof {
                    reveal_strlit("fn");
                }
                "fn"
            },
            TokenOf::Continue => {
                proof {
                    reveal_strlit("continue");
                }
                "continue"
            },
            TokenOf::Break => {
                proof {
                    reveal_strlit("break");
                }
                "break"
            },
            TokenOf::Return => {
                proof {
                    reveal_strlit("return");
                }
                "return"
            },
            TokenOf::Throw => {
                proof {
                    reveal_strlit("throw");
                }
                "throw"
            },
            TokenOf::Try => {
                proof {
                    reveal_strlit("try");
                }
                "try"
            },
            TokenOf::Catch => {
                proof {
                    reveal_strlit("catch");
                }
                "catch"
            },
            TokenOf::PlusAssign => {
                proof {
                    reveal_strlit("+=");
                }
                "+="
            },
            TokenOf::MinusAssign => {
                proof {
                    reveal_strlit("-=");
                }
                "-="
            },
            TokenOf::MultiplyAssign => {
                proof {
                    reveal_strlit("*=");
                }
                "*="
            },
            TokenOf::DivideAssign => {
                proof {
                    reveal_strlit("/=");
                }
                "/="
            },
            TokenOf::LeftShiftAssign => {
                proof {
                    reveal_strlit("<<=");
                }
                "<<="
            },
            TokenOf::RightShiftAssign => {
                proof {
                    reveal_strlit(">>=");
                }
                ">>="
            },
            TokenOf::AndAssign => {
                proof {
                    reveal_strlit("&=");
                }
                "&="
            },
            TokenOf::OrAssign => {
                proof {
                    reveal_strlit("|=");
                }
                "|="
            },
            TokenOf::XOrAssign => {
                proof {
                    reveal_strlit("^=");
                }
                "^="
            },
            TokenOf::ModuloAssign => {
                proof {
                    reveal_strlit("%=");
                }
                "%="
            },
            TokenOf::PowerOfAssign => {
                proof {
                    reveal_strlit("**=");
                }
                "**="
            },
            TokenOf::Private => {
                proof {
                    reveal_strlit("private");
                }
                "private"
            },
            TokenOf::Import => {
                proof {
                    reveal_strlit("import");
                }
                "import"
            },
            TokenOf::Export => {
                proof {
                    reveal_strlit("export");
                }
                "export"
            },
            TokenOf::As => {
                proof {
                    reveal_strlit("as");
                }
                "as"
            },
            _ => {
                proof {
                    reveal_strlit("");
                }
                ""
            },
        }
    }

    /// Is this token an op-assignment operator?
    pub fn is_op_assignment(&self) -> (r: bool)
        ensures
            r == is_op_assignment_spec(self@),
    {
        match self {
            TokenOf::PlusAssign
            | TokenOf::MinusAssign
            | TokenOf::MultiplyAssign
            | TokenOf::DivideAssign
            | TokenOf::LeftShiftAssign
            | TokenOf::RightShiftAssign
            | TokenOf::ModuloAssign
            | TokenOf::PowerOfAssign
            | TokenOf::AndAssign
            | TokenOf::OrAssign
            | TokenOf::XOrAssign => true,
            _ => false,
        }
    }

    /// The corresponding operator of the token if it is an op-assignment operator.
    pub fn get_base_op_from_assignment(&self) -> (r: Option<Token>)
        ensures
            opt_token_view(r) == base_op_spec(self@),
    {
        match self {
            TokenOf::PlusAssign => Some(TokenOf::Plus),
            TokenOf::MinusAssign => Some(TokenOf::Minus),
            TokenOf::MultiplyAssign => Some(TokenOf::Multiply),
            TokenOf::DivideAssign => Some(TokenOf::Divide),
            TokenOf::LeftShiftAssign => Some(TokenOf::LeftShift),
            TokenOf::RightShiftAssign => Some(TokenOf::RightShift),
            TokenOf::ModuloAssign => Some(TokenOf::Modulo),
            TokenOf::PowerOfAssign => Some(TokenOf::PowerOf),
            TokenOf::AndAssign => Some(TokenOf::Ampersand),
            TokenOf::OrAssign => Some(TokenOf::Pipe),
            TokenOf::XOrAssign => Some(TokenOf::XOr),
            _ => None,
        }
    }

    /// Has this token a corresponding op-assignment operator?
    pub fn has_op_assignment(&self) -> (r: bool)
        ensures
            r == has_op_assignment_spec(self@),
    {
        match self {
            TokenOf::Plus
            | TokenOf::Minus
            | TokenOf::Multiply
            | TokenOf::Divide
            | TokenOf::LeftShift
            | TokenOf::RightShift
            | TokenOf::Modulo
            | TokenOf::PowerOf
            | TokenOf::Ampersand
            | TokenOf::Pipe
            | TokenOf::XOr => true,
            _ => false,
        }
    }

    /// The corresponding op-assignment operator of the token.
    pub fn convert_to_op_assignment(&self) -> (r: Option<Token>)
        ensures
            opt_token_view(r) == op_assignment_spec(self@),
    {
        match self {
            TokenOf::Plus => Some(TokenOf::PlusAssign),
            TokenOf::Minus => Some(TokenOf::MinusAssign),
            TokenOf::Multiply => Some(TokenOf::MultiplyAssign),
            TokenOf::Divide => Some(TokenOf::DivideAssign),
            TokenOf::LeftShift => Some(TokenOf::LeftShiftAssign),
            TokenOf::RightShift => Some(TokenOf::RightShiftAssign),
            TokenOf::Modulo => Some(TokenOf::ModuloAssign),
            TokenOf::PowerOf => Some(TokenOf::PowerOfAssign),
            TokenOf::Ampersand => Some(TokenOf::AndAssign),
            TokenOf::Pipe => Some(TokenOf::OrAssign),
            TokenOf::XOr => Some(TokenOf::XOrAssign),
            _ => None,
        }
    }

    /// If another operator is after this token, is it probably a unary operator?
    pub fn is_next_unary(&self) -> (r: bool)
        ensures
            r == is_next_unary_spec(self@),
    {
        match self {
            TokenOf::SemiColon
            | TokenOf::Colon
            | TokenOf::Comma
            | TokenOf::DoubleQuestion
            | TokenOf::ExclusiveRange
            | TokenOf::InclusiveRange
            | TokenOf::LeftBrace
            | TokenOf::LeftParen
            | TokenOf::LeftBracket
            | TokenOf::Plus
            | TokenOf::PlusAssign
            | TokenOf::UnaryPlus
            | TokenOf::Minus
            | TokenOf::MinusAssign
            | TokenOf::UnaryMinus
            | TokenOf::Multiply
            | TokenOf::MultiplyAssign
            | TokenOf::Divide
            | TokenOf::DivideAssign
            | TokenOf::Modulo
            | TokenOf::ModuloAssign
            | TokenOf::PowerOf
            | TokenOf::PowerOfAssign
            | TokenOf::LeftShift
            | TokenOf::LeftShiftAssign
            | TokenOf::RightShift
            | TokenOf::RightShiftAssign
            | TokenOf::Equals
            | TokenOf::EqualsTo
            | TokenOf::NotEqualsTo
            | TokenOf::LessThan
            | TokenOf::GreaterThan
            | TokenOf::Bang
            | TokenOf::LessThanEqualsTo
            | TokenOf::GreaterThanEqualsTo
            | TokenOf::Pipe
            | TokenOf::Ampersand
            | TokenOf::If
            | TokenOf::While
            | TokenOf::Until
            | TokenOf::In
            | TokenOf::NotIn
            | TokenOf::And
            | TokenOf::AndAssign
            | TokenOf::Or
            | TokenOf::OrAssign
            | TokenOf::XOr
            | TokenOf::XOrAssign
            | TokenOf::Return
            | TokenOf::Throw
            | TokenOf::QuestionBracket
            | TokenOf::LexError(..) => true,
            _ => false,
        }
    }

    /// The precedence number of the token (`None` for tokens that are not binary operators).
    pub fn precedence(&self) -> (r: Option<u8>)
        ensures
            r == (if precedence_spec(self@) == 0 {
                None
            } else {
                Some(precedence_spec(self@))
            }),
    {
        let p: u8 = match self {
            TokenOf::Or | TokenOf::XOr | TokenOf::Pipe => 30,
            TokenOf::And | TokenOf::Ampersand => 60,
            TokenOf::EqualsTo | TokenOf::NotEqualsTo => 90,
            TokenOf::In | TokenOf::NotIn => 110,
            TokenOf::LessThan | TokenOf::LessThanEqualsTo | TokenOf::GreaterThan | TokenOf::GreaterThanEqualsTo => 130,
            TokenOf::DoubleQuestion => 135,
            TokenOf::ExclusiveRange | TokenOf::InclusiveRange => 140,
            TokenOf::Plus | TokenOf::Minus => 150,
            TokenOf::Divide | TokenOf::Multiply | TokenOf::Modulo => 180,
            TokenOf::PowerOf => 190,
            TokenOf::LeftShift | TokenOf::RightShift => 210,
            _ => 0,
        };
        if p == 0 {
            None
        } else {
            Some(p)
        }
    }

    /// Does an expression bind to the right (instead of left)?
    pub fn is_bind_right(&self) -> (r: bool)
        ensures
            r == (self@ is PowerOf),
    {
        match self {
            TokenOf::PowerOf => true,
            _ => false,
        }
    }

    /// Is this token a standard symbol used in the language?
    pub fn is_standard_symbol(&self) -> (r: bool)
        ensures
            r == is_standard_symbol_spec(self@),
    {
        match self {
            TokenOf::LeftBrace
            | TokenOf::RightBrace
            | TokenOf::LeftParen
            | TokenOf::RightParen
            | TokenOf::LeftBracket
            | TokenOf::RightBracket
            | TokenOf::Plus
            | TokenOf::UnaryPlus
            | TokenOf::Minus
            | TokenOf::UnaryMinus
            | TokenOf::Multiply
            | TokenOf::Divide
            | TokenOf::Modulo
            | TokenOf::PowerOf
            | TokenOf::LeftShift
            | TokenOf::RightShift
            | TokenOf::SemiColon
            | TokenOf::Colon
            | TokenOf::DoubleColon
            | TokenOf::Comma
            | TokenOf::Period
            | TokenOf::DoubleQuestion
            | TokenOf::ExclusiveRange
            | TokenOf::InclusiveRange
            | TokenOf::MapStart
            | TokenOf::Equals
            | TokenOf::LessThan
            | TokenOf::GreaterThan
            | TokenOf::LessThanEqualsTo
            | TokenOf::GreaterThanEqualsTo
            | TokenOf::EqualsTo
            | TokenOf::NotEqualsTo
            | TokenOf::Bang
            | TokenOf::Pipe
            | TokenOf::Or
            | TokenOf::XOr
            | TokenOf::Ampersand
            | TokenOf::And
            | TokenOf::PlusAssign
            | TokenOf::MinusAssign
            | TokenOf::MultiplyAssign
            | TokenOf::DivideAssign
            | TokenOf::LeftShiftAssign
            | TokenOf::RightShiftAssign
            | TokenOf::AndAssign
            | TokenOf::OrAssign
            | TokenOf::XOrAssign
            | TokenOf::ModuloAssign
            | TokenOf::PowerOfAssign
            | TokenOf::Elvis
            | TokenOf::QuestionBracket => true,
            _ => false,
        }
    }

    /// Is this token a standard keyword?
    pub fn is_standard_keyword(&self) -> (r: bool)
        ensures
            r == is_standard_keyword_spec(self@),
    {
        match self {
            TokenOf::Fn
            | TokenOf::Private
            | TokenOf::Import
            | TokenOf::Export
            | TokenOf::As
            | TokenOf::True
            | TokenOf::False
            | TokenOf::Let
            | TokenOf::Const
            | TokenOf::If
            | TokenOf::Else
            | TokenOf::Do
            | TokenOf::While
            | TokenOf::Until
            | TokenOf::Loop
            | TokenOf::For
            | TokenOf::In
            | TokenOf::Continue
            | TokenOf::Break
            | TokenOf::Return
            | TokenOf::Throw
            | TokenOf::Try
            | TokenOf::Catch => true,
            _ => false,
        }
    }

    /// Is this token a reserved keyword or symbol?
    pub fn is_reserved(&self) -> (r: bool)
        ensures
            r == (self@ is Reserved),
    {
        match self {
            TokenOf::Reserved(..) => true,
            _ => false,
        }
    }

    /// Is this token a custom keyword?
    pub fn is_custom(&self) -> (r: bool)
        ensures
            r == (self@ is Custom),
    {
        match self {
            TokenOf::Custom(..) => true,
            _ => false,
        }
    }

    /// The text of the token, as it is written back out.
    pub fn to_text(&self) -> (r: String)
        ensures
            r@ == token_text(self@),
    {
        match self {
            TokenOf::IntegerConstant(i) => i64_text(*i),
            TokenOf::FloatConstant(s) => s.clone(),
            TokenOf::StringConstant(s) => {
                let mut r = String::new();
                string_push(&mut r, '"');
                string_push_str(&mut r, s.as_str());
                string_push(&mut r, '"');
                assert(r@ =~= seq!['"'] + s@ + seq!['"']);
                r
            },
            TokenOf::InterpolatedString(..) => {
                let mut r = String::new();
                string_push(&mut r, 's');
                string_push(&mut r, 't');
                string_push(&mut r, 'r');
                string_push(&mut r, 'i');
                string_push(&mut r, 'n');
                string_push(&mut r, 'g');
                assert(r@ =~= seq!['s', 't', 'r', 'i', 'n', 'g']);
                r
            },
            TokenOf::CharConstant(c) => char_to_string(*c),
            TokenOf::Identifier(s) => s.clone(),
            TokenOf::Reserved(s) => s.clone(),
            TokenOf::Custom(s) => s.clone(),
            TokenOf::UnprocessedRawChar(c) => char_to_string(*c),
            TokenOf::LexError(e) => e.to_text(),
            TokenOf::Comment(s) => s.clone(),
            TokenOf::EOF => {
                let mut r = String::new();
                string_push(&mut r, '{');
                string_push(&mut r, 'E');
                string_push(&mut r, 'O');
                string_push(&mut r, 'F');
                string_push(&mut r, '}');
                assert(r@ =~= seq!['{', 'E', 'O', 'F', '}']);
                r
            },
            _ => {
                let mut r = String::new();
                string_push_str(&mut r, self.literal_syntax());
                assert(r@ =~= syntax_of(self@));
                r
            },
        }
    }
}

} // verus!
