//! Properties of the operator and reserved-word tables: how operators group, where a `-` is a
//! sign, and which reserved words are callable.
use vstd::prelude::*;
use crate::token::{SpecToken, TokenOf, precedence_spec, is_next_unary_spec, is_op_assignment_spec};
use crate::keywords::reserved_info;
use crate::position::{Position, advanced};
use crate::tokenize::{LexScan, LexConfig, LexOutcome, next_token};
use crate::text::int_text;
use crate::laws::law_integer_text_read_back;

verus! {

/// Operators group in the usual order, from the loosest to the tightest: `||` `^` `|`; `&&`
/// `&`; `==` `!=`; `in` `!in`; `<` `<=` `>` `>=`; `??`; `..` `..=`; `+` `-`; `*` `/` `%`; `**`;
/// `<<` `>>`.  Operators of one line bind alike, each line binds tighter than the one before,
/// and every token that is no binary operator has no precedence (zero).
pub proof fn law_precedence_order(t: SpecToken)
    ensures
        precedence_spec(TokenOf::Or) == precedence_spec(TokenOf::XOr),
        precedence_spec(TokenOf::XOr) == precedence_spec(TokenOf::Pipe),
        0 < precedence_spec(TokenOf::Or),
        precedence_spec(TokenOf::Or) < precedence_spec(TokenOf::And),
        precedence_spec(TokenOf::And) == precedence_spec(TokenOf::Ampersand),
        precedence_spec(TokenOf::And) < precedence_spec(TokenOf::EqualsTo),
        precedence_spec(TokenOf::EqualsTo) == precedence_spec(TokenOf::NotEqualsTo),
        precedence_spec(TokenOf::EqualsTo) < precedence_spec(TokenOf::In),
        precedence_spec(TokenOf::In) == precedence_spec(TokenOf::NotIn),
        precedence_spec(TokenOf::In) < precedence_spec(TokenOf::LessThan),
        precedence_spec(TokenOf::LessThan) == precedence_spec(TokenOf::LessThanEqualsTo),
        precedence_spec(TokenOf::LessThan) == precedence_spec(TokenOf::GreaterThan),
        precedence_spec(TokenOf::LessThan) == precedence_spec(TokenOf::GreaterThanEqualsTo),
        precedence_spec(TokenOf::LessThan) < precedence_spec(TokenOf::DoubleQuestion),
        precedence_spec(TokenOf::DoubleQuestion) < precedence_spec(TokenOf::ExclusiveRange),
        precedence_spec(TokenOf::ExclusiveRange) == precedence_spec(TokenOf::InclusiveRange),
        precedence_spec(TokenOf::ExclusiveRange) < precedence_spec(TokenOf::Plus),
        precedence_spec(TokenOf::Plus) == precedence_spec(TokenOf::Minus),
        precedence_spec(TokenOf::Plus) < precedence_spec(TokenOf::Multiply),
        precedence_spec(TokenOf::Multiply) == precedence_spec(TokenOf::Divide),
        precedence_spec(TokenOf::Multiply) == precedence_spec(TokenOf::Modulo),
        precedence_spec(TokenOf::Multiply) < precedence_spec(TokenOf::PowerOf),
        precedence_spec(TokenOf::PowerOf) < precedence_spec(TokenOf::LeftShift),
        precedence_spec(TokenOf::LeftShift) == precedence_spec(TokenOf::RightShift),
        !(t is Or || t is XOr || t is Pipe || t is And || t is Ampersand || t is EqualsTo
            || t is NotEqualsTo || t is In || t is NotIn || t is LessThan || t is LessThanEqualsTo
            || t is GreaterThan || t is GreaterThanEqualsTo || t is DoubleQuestion
            || t is ExclusiveRange || t is InclusiveRange || t is Plus || t is Minus
            || t is Multiply || t is Divide || t is Modulo || t is PowerOf || t is LeftShift
            || t is RightShift) ==> precedence_spec(t) == 0,
{
}

/// Is `t` a token after which an operand starts: an opening bracket, a separator, an operator
/// (binary, op-assignment, assignment or prefix), or a keyword followed by an expression?
pub open spec fn operand_follows(t: SpecToken) -> bool {
    ||| t is LeftParen || t is LeftBracket || t is LeftBrace || t is QuestionBracket
    ||| t is Comma || t is SemiColon || t is Colon
    ||| precedence_spec(t) > 0
    ||| is_op_assignment_spec(t)
    ||| t is Equals || t is Bang || t is UnaryPlus || t is UnaryMinus
    ||| t is If || t is While || t is Until || t is Return || t is Throw
}

/// After a token that an operand follows, a `-` is a sign: such a token leaves the next `-`
/// unary, so that a negative integer written after it is read as that integer.  After an
/// operand (a name, a constant, or a closing bracket) a `-` is the binary minus.
pub proof fn law_minus_after_operator_is_sign(t: SpecToken, i: i64, pos: Position, cfg: LexConfig)
    requires
        operand_follows(t),
        cfg.unary_ok == is_next_unary_spec(t),
    ensures
        is_next_unary_spec(t),
        next_token(
            LexScan { input: int_text(i as int), pos, negated: None, level: 0, within: None, last: None },
            cfg,
        ) matches LexOutcome::Token(r, p, s2) && r == TokenOf::<Seq<char>>::IntegerConstant(i)
            && p == advanced(pos) && s2.input.len() == 0,
{
    law_integer_text_read_back(i, pos, cfg);
}

/// After an operand a `-` is binary: no name, constant or closing bracket lets the next `-` be
/// a sign.
pub proof fn law_minus_after_operand_is_binary(t: SpecToken)
    requires
        t is Identifier || t is IntegerConstant || t is FloatConstant || t is StringConstant
            || t is CharConstant || t is InterpolatedString || t is True || t is False
            || t is RightParen || t is RightBracket || t is RightBrace || t is Custom
            || t is Reserved || t is Period || t is Elvis,
    ensures
        !is_next_unary_spec(t),
{
}

/// The reserved words that can be called as functions are exactly `curry`, `is_shared`,
/// `print`, `is_def_var`, `is_def_fn`, `call`, `eval`, `debug`, `type_of` and `Fn`; of these,
/// exactly `curry`, `is_shared`, `call` and `type_of` can also be called in method-call style.
#[verifier::spinoff_prover]
pub proof fn law_callable_reserved_words(s: Seq<char>)
    ensures
        reserved_info(s).1 <==> (s == seq!['c', 'u', 'r', 'r', 'y'] || s == seq![
            'i',
            's',
            '_',
            's',
            'h',
            'a',
            'r',
            'e',
            'd',
        ] || s == seq!['p', 'r', 'i', 'n', 't'] || s == seq![
            'i',
            's',
            '_',
            'd',
            'e',
            'f',
            '_',
            'v',
            'a',
            'r',
        ] || s == seq!['i', 's', '_', 'd', 'e', 'f', '_', 'f', 'n'] || s == seq!['c', 'a', 'l', 'l']
            || s == seq!['e', 'v', 'a', 'l'] || s == seq!['d', 'e', 'b', 'u', 'g'] || s == seq![
            't',
            'y',
            'p',
            'e',
            '_',
            'o',
            'f',
        ] || s == seq!['F', 'n']),
        reserved_info(s).2 <==> (s == seq!['c', 'u', 'r', 'r', 'y'] || s == seq![
            'i',
            's',
            '_',
            's',
            'h',
            'a',
            'r',
            'e',
            'd',
        ] || s == seq!['c', 'a', 'l', 'l'] || s == seq!['t', 'y', 'p', 'e', '_', 'o', 'f']),
        reserved_info(s).1 ==> reserved_info(s).0,
{
    if s.len() == 5 && s[0] == 'c' && s[1] == 'u' && s[2] == 'r' && s[3] == 'r' && s[4] == 'y' {
        assert(s =~= seq!['c', 'u', 'r', 'r', 'y']);
    }
    if s == seq!['c', 'u', 'r', 'r', 'y'] {
        assert(s.len() == 5 && s[0] == 'c' && s[1] == 'u' && s[2] == 'r' && s[3] == 'r' && s[4] == 'y');
    }
    if s.len() == 9 && s[0] == 'i' && s[1] == 's' && s[2] == '_' && s[3] == 's' && s[4] == 'h' && s[5] == 'a' && s[6] == 'r' && s[7] == 'e' && s[8] == 'd' {
        assert(s =~= seq!['i', 's', '_', 's', 'h', 'a', 'r', 'e', 'd']);
    }
    if s == seq!['i', 's', '_', 's', 'h', 'a', 'r', 'e', 'd'] {
        assert(s.len() == 9 && s[0] == 'i' && s[1] == 's' && s[2] == '_' && s[3] == 's' && s[4] == 'h' && s[5] == 'a' && s[6] == 'r' && s[7] == 'e' && s[8] == 'd');
    }
    if s.len() == 5 && s[0] == 'p' && s[1] == 'r' && s[2] == 'i' && s[3] == 'n' && s[4] == 't' {
        assert(s =~= seq!['p', 'r', 'i', 'n', 't']);
    }
    if s == seq!['p', 'r', 'i', 'n', 't'] {
        assert(s.len() == 5 && s[0] == 'p' && s[1] == 'r' && s[2] == 'i' && s[3] == 'n' && s[4] == 't');
    }
    if s.len() == 10 && s[0] == 'i' && s[1] == 's' && s[2] == '_' && s[3] == 'd' && s[4] == 'e' && s[5] == 'f' && s[6] == '_' && s[7] == 'v' && s[8] == 'a' && s[9] == 'r' {
        assert(s =~= seq!['i', 's', '_', 'd', 'e', 'f', '_', 'v', 'a', 'r']);
    }
    if s == seq!['i', 's', '_', 'd', 'e', 'f', '_', 'v', 'a', 'r'] {
        assert(s.len() == 10 && s[0] == 'i' && s[1] == 's' && s[2] == '_' && s[3] == 'd' && s[4] == 'e' && s[5] == 'f' && s[6] == '_' && s[7] == 'v' && s[8] == 'a' && s[9] == 'r');
    }
    if s.len() == 9 && s[0] == 'i' && s[1] == 's' && s[2] == '_' && s[3] == 'd' && s[4] == 'e' && s[5] == 'f' && s[6] == '_' && s[7] == 'f' && s[8] == 'n' {
        assert(s =~= seq!['i', 's', '_', 'd', 'e', 'f', '_', 'f', 'n']);
    }
    if s == seq!['i', 's', '_', 'd', 'e', 'f', '_', 'f', 'n'] {
        assert(s.len() == 9 && s[0] == 'i' && s[1] == 's' && s[2] == '_' && s[3] == 'd' && s[4] == 'e' && s[5] == 'f' && s[6] == '_' && s[7] == 'f' && s[8] == 'n');
    }
    if s.len() == 4 && s[0] == 'c' && s[1] == 'a' && s[2] == 'l' && s[3] == 'l' {
        assert(s =~= seq!['c', 'a', 'l', 'l']);
    }
    if s == seq!['c', 'a', 'l', 'l'] {
        assert(s.len() == 4 && s[0] == 'c' && s[1] == 'a' && s[2] == 'l' && s[3] == 'l');
    }
    if s.len() == 4 && s[0] == 'e' && s[1] == 'v' && s[2] == 'a' && s[3] == 'l' {
        assert(s =~= seq!['e', 'v', 'a', 'l']);
    }
    if s == seq!['e', 'v', 'a', 'l'] {
        assert(s.len() == 4 && s[0] == 'e' && s[1] == 'v' && s[2] == 'a' && s[3] == 'l');
    }
    if s.len() == 5 && s[0] == 'd' && s[1] == 'e' && s[2] == 'b' && s[3] == 'u' && s[4] == 'g' {
        assert(s =~= seq!['d', 'e', 'b', 'u', 'g']);
    }
    if s == seq!['d', 'e', 'b', 'u', 'g'] {
        assert(s.len() == 5 && s[0] == 'd' && s[1] == 'e' && s[2] == 'b' && s[3] == 'u' && s[4] == 'g');
    }
    if s.len() == 7 && s[0] == 't' && s[1] == 'y' && s[2] == 'p' && s[3] == 'e' && s[4] == '_' && s[5] == 'o' && s[6] == 'f' {
        assert(s =~= seq!['t', 'y', 'p', 'e', '_', 'o', 'f']);
    }
    if s == seq!['t', 'y', 'p', 'e', '_', 'o', 'f'] {
        assert(s.len() == 7 && s[0] == 't' && s[1] == 'y' && s[2] == 'p' && s[3] == 'e' && s[4] == '_' && s[5] == 'o' && s[6] == 'f');
    }
    if s.len() == 2 && s[0] == 'F' && s[1] == 'n' {
        assert(s =~= seq!['F', 'n']);
    }
    if s == seq!['F', 'n'] {
        assert(s.len() == 2 && s[0] == 'F' && s[1] == 'n');
    }
}

/// The reserved keywords and symbols are exactly these: `?`, `use`, `case`, `async`, `public`, `package`, `super`, `#`, `var`, `protected`, `spawn`, `shared`, `is`, `===`, `sync`, `curry`, `static`, `default`, `!==`, `is_shared`, `print`, `#!`, `this`, `is_def_var`, `thread`, `is_def_fn`, `yield`, `new`, `call`, `match`, `~`, `!.`, `eval`, `await`, `:=`, `...`, `null`, `debug`, `@`, `type_of`, `with`, `<-`, `void`, `--`, `nil`, `<|`, `$`, `->`, `|>`, `module`, `Fn`, `::<`, `++`, `:;`, `*)`, `(*`, `go`, `goto`.  No other text is reserved.
#[verifier::rlimit(50)]
#[verifier::spinoff_prover]
pub proof fn law_reserved_words(s: Seq<char>)
    ensures
        reserved_info(s).0 <==> (s == seq!['?'] || s == seq!['u', 's', 'e'] || s == seq!['c', 'a', 's', 'e'] || s == seq!['a', 's', 'y', 'n', 'c'] || s == seq!['p', 'u', 'b', 'l', 'i', 'c'] || s == seq!['p', 'a', 'c', 'k', 'a', 'g', 'e'] || s == seq!['s', 'u', 'p', 'e', 'r'] || s == seq!['#'] || s == seq!['v', 'a', 'r'] || s == seq!['p', 'r', 'o', 't', 'e', 'c', 't', 'e', 'd'] || s == seq!['s', 'p', 'a', 'w', 'n'] || s == seq!['s', 'h', 'a', 'r', 'e', 'd'] || s == seq!['i', 's'] || s == seq!['=', '=', '='] || s == seq!['s', 'y', 'n', 'c'] || s == seq!['c', 'u', 'r', 'r', 'y'] || s == seq!['s', 't', 'a', 't', 'i', 'c'] || s == seq!['d', 'e', 'f', 'a', 'u', 'l', 't'] || s == seq!['!', '=', '='] || s == seq!['i', 's', '_', 's', 'h', 'a', 'r', 'e', 'd'] || s == seq!['p', 'r', 'i', 'n', 't'] || s == seq!['#', '!'] || s == seq!['t', 'h', 'i', 's'] || s == seq!['i', 's', '_', 'd', 'e', 'f', '_', 'v', 'a', 'r'] || s == seq!['t', 'h', 'r', 'e', 'a', 'd'] || s == seq!['i', 's', '_', 'd', 'e', 'f', '_', 'f', 'n'] || s == seq!['y', 'i', 'e', 'l', 'd'] || s == seq!['n', 'e', 'w'] || s == seq!['c', 'a', 'l', 'l'] || s == seq!['m', 'a', 't', 'c', 'h'] || s == seq!['~'] || s == seq!['!', '.'] || s == seq!['e', 'v', 'a', 'l'] || s == seq!['a', 'w', 'a', 'i', 't'] || s == seq![':', '='] || s == seq!['.', '.', '.'] || s == seq!['n', 'u', 'l', 'l'] || s == seq!['d', 'e', 'b', 'u', 'g'] || s == seq!['@'] || s == seq!['t', 'y', 'p', 'e', '_', 'o', 'f'] || s == seq!['w', 'i', 't', 'h'] || s == seq!['<', '-'] || s == seq!['v', 'o', 'i', 'd'] || s == seq!['-', '-'] || s == seq!['n', 'i', 'l'] || s == seq!['<', '|'] || s == seq!['$'] || s == seq!['-', '>'] || s == seq!['|', '>'] || s == seq!['m', 'o', 'd', 'u', 'l', 'e'] || s == seq!['F', 'n'] || s == seq![':', ':', '<'] || s == seq!['+', '+'] || s == seq![':', ';'] || s == seq!['*', ')'] || s == seq!['(', '*'] || s == seq!['g', 'o'] || s == seq!['g', 'o', 't', 'o']),
{
    if s.len() == 1 && s[0] == '?' {
        assert(s =~= seq!['?']);
    }
    if s == seq!['?'] {
        assert(s.len() == 1 && s[0] == '?');
    }
    if s.len() == 3 && s[0] == 'u' && s[1] == 's' && s[2] == 'e' {
        assert(s =~= seq!['u', 's', 'e']);
    }
    if s == seq!['u', 's', 'e'] {
        assert(s.len() == 3 && s[0] == 'u' && s[1] == 's' && s[2] == 'e');
    }
    if s.len() == 4 && s[0] == 'c' && s[1] == 'a' && s[2] == 's' && s[3] == 'e' {
        assert(s =~= seq!['c', 'a', 's', 'e']);
    }
    if s == seq!['c', 'a', 's', 'e'] {
        assert(s.len() == 4 && s[0] == 'c' && s[1] == 'a' && s[2] == 's' && s[3] == 'e');
    }
    if s.len() == 5 && s[0] == 'a' && s[1] == 's' && s[2] == 'y' && s[3] == 'n' && s[4] == 'c' {
        assert(s =~= seq!['a', 's', 'y', 'n', 'c']);
    }
    if s == seq!['a', 's', 'y', 'n', 'c'] {
        assert(s.len() == 5 && s[0] == 'a' && s[1] == 's' && s[2] == 'y' && s[3] == 'n' && s[4] == 'c');
    }
    if s.len() == 6 && s[0] == 'p' && s[1] == 'u' && s[2] == 'b' && s[3] == 'l' && s[4] == 'i' && s[5] == 'c' {
        assert(s =~= seq!['p', 'u', 'b', 'l', 'i', 'c']);
    }
    if s == seq!['p', 'u', 'b', 'l', 'i', 'c'] {
        assert(s.len() == 6 && s[0] == 'p' && s[1] == 'u' && s[2] == 'b' && s[3] == 'l' && s[4] == 'i' && s[5] == 'c');
    }
    if s.len() == 7 && s[0] == 'p' && s[1] == 'a' && s[2] == 'c' && s[3] == 'k' && s[4] == 'a' && s[5] == 'g' && s[6] == 'e' {
        assert(s =~= seq!['p', 'a', 'c', 'k', 'a', 'g', 'e']);
    }
    if s == seq!['p', 'a', 'c', 'k', 'a', 'g', 'e'] {
        assert(s.len() == 7 && s[0] == 'p' && s[1] == 'a' && s[2] == 'c' && s[3] == 'k' && s[4] == 'a' && s[5] == 'g' && s[6] == 'e');
    }
    if s.len() == 5 && s[0] == 's' && s[1] == 'u' && s[2] == 'p' && s[3] == 'e' && s[4] == 'r' {
        assert(s =~= seq!['s', 'u', 'p', 'e', 'r']);
    }
    if s == seq!['s', 'u', 'p', 'e', 'r'] {
        assert(s.len() == 5 && s[0] == 's' && s[1] == 'u' && s[2] == 'p' && s[3] == 'e' && s[4] == 'r');
    }
    if s.len() == 1 && s[0] == '#' {
        assert(s =~= seq!['#']);
    }
    if s == seq!['#'] {
        assert(s.len() == 1 && s[0] == '#');
    }
    if s.len() == 3 && s[0] == 'v' && s[1] == 'a' && s[2] == 'r' {
        assert(s =~= seq!['v', 'a', 'r']);
    }
    if s == seq!['v', 'a', 'r'] {
        assert(s.len() == 3 && s[0] == 'v' && s[1] == 'a' && s[2] == 'r');
    }
    if s.len() == 9 && s[0] == 'p' && s[1] == 'r' && s[2] == 'o' && s[3] == 't' && s[4] == 'e' && s[5] == 'c' && s[6] == 't' && s[7] == 'e' && s[8] == 'd' {
        assert(s =~= seq!['p', 'r', 'o', 't', 'e', 'c', 't', 'e', 'd']);
    }
    if s == seq!['p', 'r', 'o', 't', 'e', 'c', 't', 'e', 'd'] {
        assert(s.len() == 9 && s[0] == 'p' && s[1] == 'r' && s[2] == 'o' && s[3] == 't' && s[4] == 'e' && s[5] == 'c' && s[6] == 't' && s[7] == 'e' && s[8] == 'd');
    }
    if s.len() == 5 && s[0] == 's' && s[1] == 'p' && s[2] == 'a' && s[3] == 'w' && s[4] == 'n' {
        assert(s =~= seq!['s', 'p', 'a', 'w', 'n']);
    }
    if s == seq!['s', 'p', 'a', 'w', 'n'] {
        assert(s.len() == 5 && s[0] == 's' && s[1] == 'p' && s[2] == 'a' && s[3] == 'w' && s[4] == 'n');
    }
    if s.len() == 6 && s[0] == 's' && s[1] == 'h' && s[2] == 'a' && s[3] == 'r' && s[4] == 'e' && s[5] == 'd' {
        assert(s =~= seq!['s', 'h', 'a', 'r', 'e', 'd']);
    }
    if s == seq!['s', 'h', 'a', 'r', 'e', 'd'] {
        assert(s.len() == 6 && s[0] == 's' && s[1] == 'h' && s[2] == 'a' && s[3] == 'r' && s[4] == 'e' && s[5] == 'd');
    }
    if s.len() == 2 && s[0] == 'i' && s[1] == 's' {
        assert(s =~= seq!['i', 's']);
    }
    if s == seq!['i', 's'] {
        assert(s.len() == 2 && s[0] == 'i' && s[1] == 's');
    }
    if s.len() == 3 && s[0] == '=' && s[1] == '=' && s[2] == '=' {
        assert(s =~= seq!['=', '=', '=']);
    }
    if s == seq!['=', '=', '='] {
        assert(s.len() == 3 && s[0] == '=' && s[1] == '=' && s[2] == '=');
    }
    if s.len() == 4 && s[0] == 's' && s[1] == 'y' && s[2] == 'n' && s[3] == 'c' {
        assert(s =~= seq!['s', 'y', 'n', 'c']);
    }
    if s == seq!['s', 'y', 'n', 'c'] {
        assert(s.len() == 4 && s[0] == 's' && s[1] == 'y' && s[2] == 'n' && s[3] == 'c');
    }
    if s.len() == 5 && s[0] == 'c' && s[1] == 'u' && s[2] == 'r' && s[3] == 'r' && s[4] == 'y' {
        assert(s =~= seq!['c', 'u', 'r', 'r', 'y']);
    }
    if s == seq!['c', 'u', 'r', 'r', 'y'] {
        assert(s.len() == 5 && s[0] == 'c' && s[1] == 'u' && s[2] == 'r' && s[3] == 'r' && s[4] == 'y');
    }
    if s.len() == 6 && s[0] == 's' && s[1] == 't' && s[2] == 'a' && s[3] == 't' && s[4] == 'i' && s[5] == 'c' {
        assert(s =~= seq!['s', 't', 'a', 't', 'i', 'c']);
    }
    if s == seq!['s', 't', 'a', 't', 'i', 'c'] {
        assert(s.len() == 6 && s[0] == 's' && s[1] == 't' && s[2] == 'a' && s[3] == 't' && s[4] == 'i' && s[5] == 'c');
    }
    if s.len() == 7 && s[0] == 'd' && s[1] == 'e' && s[2] == 'f' && s[3] == 'a' && s[4] == 'u' && s[5] == 'l' && s[6] == 't' {
        assert(s =~= seq!['d', 'e', 'f', 'a', 'u', 'l', 't']);
    }
    if s == seq!['d', 'e', 'f', 'a', 'u', 'l', 't'] {
        assert(s.len() == 7 && s[0] == 'd' && s[1] == 'e' && s[2] == 'f' && s[3] == 'a' && s[4] == 'u' && s[5] == 'l' && s[6] == 't');
    }
    if s.len() == 3 && s[0] == '!' && s[1] == '=' && s[2] == '=' {
        assert(s =~= seq!['!', '=', '=']);
    }
    if s == seq!['!', '=', '='] {
        assert(s.len() == 3 && s[0] == '!' && s[1] == '=' && s[2] == '=');
    }
    if s.len() == 9 && s[0] == 'i' && s[1] == 's' && s[2] == '_' && s[3] == 's' && s[4] == 'h' && s[5] == 'a' && s[6] == 'r' && s[7] == 'e' && s[8] == 'd' {
        assert(s =~= seq!['i', 's', '_', 's', 'h', 'a', 'r', 'e', 'd']);
    }
    if s == seq!['i', 's', '_', 's', 'h', 'a', 'r', 'e', 'd'] {
        assert(s.len() == 9 && s[0] == 'i' && s[1] == 's' && s[2] == '_' && s[3] == 's' && s[4] == 'h' && s[5] == 'a' && s[6] == 'r' && s[7] == 'e' && s[8] == 'd');
    }
    if s.len() == 5 && s[0] == 'p' && s[1] == 'r' && s[2] == 'i' && s[3] == 'n' && s[4] == 't' {
        assert(s =~= seq!['p', 'r', 'i', 'n', 't']);
    }
    if s == seq!['p', 'r', 'i', 'n', 't'] {
        assert(s.len() == 5 && s[0] == 'p' && s[1] == 'r' && s[2] == 'i' && s[3] == 'n' && s[4] == 't');
    }
    if s.len() == 2 && s[0] == '#' && s[1] == '!' {
        assert(s =~= seq!['#', '!']);
    }
    if s == seq!['#', '!'] {
        assert(s.len() == 2 && s[0] == '#' && s[1] == '!');
    }
    if s.len() == 4 && s[0] == 't' && s[1] == 'h' && s[2] == 'i' && s[3] == 's' {
        assert(s =~= seq!['t', 'h', 'i', 's']);
    }
    if s == seq!['t', 'h', 'i', 's'] {
        assert(s.len() == 4 && s[0] == 't' && s[1] == 'h' && s[2] == 'i' && s[3] == 's');
    }
    if s.len() == 10 && s[0] == 'i' && s[1] == 's' && s[2] == '_' && s[3] == 'd' && s[4] == 'e' && s[5] == 'f' && s[6] == '_' && s[7] == 'v' && s[8] == 'a' && s[9] == 'r' {
        assert(s =~= seq!['i', 's', '_', 'd', 'e', 'f', '_', 'v', 'a', 'r']);
    }
    if s == seq!['i', 's', '_', 'd', 'e', 'f', '_', 'v', 'a', 'r'] {
        assert(s.len() == 10 && s[0] == 'i' && s[1] == 's' && s[2] == '_' && s[3] == 'd' && s[4] == 'e' && s[5] == 'f' && s[6] == '_' && s[7] == 'v' && s[8] == 'a' && s[9] == 'r');
    }
    if s.len() == 6 && s[0] == 't' && s[1] == 'h' && s[2] == 'r' && s[3] == 'e' && s[4] == 'a' && s[5] == 'd' {
        assert(s =~= seq!['t', 'h', 'r', 'e', 'a', 'd']);
    }
    if s == seq!['t', 'h', 'r', 'e', 'a', 'd'] {
        assert(s.len() == 6 && s[0] == 't' && s[1] == 'h' && s[2] == 'r' && s[3] == 'e' && s[4] == 'a' && s[5] == 'd');
    }
    if s.len() == 9 && s[0] == 'i' && s[1] == 's' && s[2] == '_' && s[3] == 'd' && s[4] == 'e' && s[5] == 'f' && s[6] == '_' && s[7] == 'f' && s[8] == 'n' {
        assert(s =~= seq!['i', 's', '_', 'd', 'e', 'f', '_', 'f', 'n']);
    }
    if s == seq!['i', 's', '_', 'd', 'e', 'f', '_', 'f', 'n'] {
        assert(s.len() == 9 && s[0] == 'i' && s[1] == 's' && s[2] == '_' && s[3] == 'd' && s[4] == 'e' && s[5] == 'f' && s[6] == '_' && s[7] == 'f' && s[8] == 'n');
    }
    if s.len() == 5 && s[0] == 'y' && s[1] == 'i' && s[2] == 'e' && s[3] == 'l' && s[4] == 'd' {
        assert(s =~= seq!['y', 'i', 'e', 'l', 'd']);
    }
    if s == seq!['y', 'i', 'e', 'l', 'd'] {
        assert(s.len() == 5 && s[0] == 'y' && s[1] == 'i' && s[2] == 'e' && s[3] == 'l' && s[4] == 'd');
    }
    if s.len() == 3 && s[0] == 'n' && s[1] == 'e' && s[2] == 'w' {
        assert(s =~= seq!['n', 'e', 'w']);
    }
    if s == seq!['n', 'e', 'w'] {
        assert(s.len() == 3 && s[0] == 'n' && s[1] == 'e' && s[2] == 'w');
    }
    if s.len() == 4 && s[0] == 'c' && s[1] == 'a' && s[2] == 'l' && s[3] == 'l' {
        assert(s =~= seq!['c', 'a', 'l', 'l']);
    }
    if s == seq!['c', 'a', 'l', 'l'] {
        assert(s.len() == 4 && s[0] == 'c' && s[1] == 'a' && s[2] == 'l' && s[3] == 'l');
    }
    if s.len() == 5 && s[0] == 'm' && s[1] == 'a' && s[2] == 't' && s[3] == 'c' && s[4] == 'h' {
        assert(s =~= seq!['m', 'a', 't', 'c', 'h']);
    }
    if s == seq!['m', 'a', 't', 'c', 'h'] {
        assert(s.len() == 5 && s[0] == 'm' && s[1] == 'a' && s[2] == 't' && s[3] == 'c' && s[4] == 'h');
    }
    if s.len() == 1 && s[0] == '~' {
        assert(s =~= seq!['~']);
    }
    if s == seq!['~'] {
        assert(s.len() == 1 && s[0] == '~');
    }
    if s.len() == 2 && s[0] == '!' && s[1] == '.' {
        assert(s =~= seq!['!', '.']);
    }
    if s == seq!['!', '.'] {
        assert(s.len() == 2 && s[0] == '!' && s[1] == '.');
    }
    if s.len() == 4 && s[0] == 'e' && s[1] == 'v' && s[2] == 'a' && s[3] == 'l' {
        assert(s =~= seq!['e', 'v', 'a', 'l']);
    }
    if s == seq!['e', 'v', 'a', 'l'] {
        assert(s.len() == 4 && s[0] == 'e' && s[1] == 'v' && s[2] == 'a' && s[3] == 'l');
    }
    if s.len() == 5 && s[0] == 'a' && s[1] == 'w' && s[2] == 'a' && s[3] == 'i' && s[4] == 't' {
        assert(s =~= seq!['a', 'w', 'a', 'i', 't']);
    }
    if s == seq!['a', 'w', 'a', 'i', 't'] {
        assert(s.len() == 5 && s[0] == 'a' && s[1] == 'w' && s[2] == 'a' && s[3] == 'i' && s[4] == 't');
    }
    if s.len() == 2 && s[0] == ':' && s[1] == '=' {
        assert(s =~= seq![':', '=']);
    }
    if s == seq![':', '='] {
        assert(s.len() == 2 && s[0] == ':' && s[1] == '=');
    }
    if s.len() == 3 && s[0] == '.' && s[1] == '.' && s[2] == '.' {
        assert(s =~= seq!['.', '.', '.']);
    }
    if s == seq!['.', '.', '.'] {
        assert(s.len() == 3 && s[0] == '.' && s[1] == '.' && s[2] == '.');
    }
    if s.len() == 4 && s[0] == 'n' && s[1] == 'u' && s[2] == 'l' && s[3] == 'l' {
        assert(s =~= seq!['n', 'u', 'l', 'l']);
    }
    if s == seq!['n', 'u', 'l', 'l'] {
        assert(s.len() == 4 && s[0] == 'n' && s[1] == 'u' && s[2] == 'l' && s[3] == 'l');
    }
    if s.len() == 5 && s[0] == 'd' && s[1] == 'e' && s[2] == 'b' && s[3] == 'u' && s[4] == 'g' {
        assert(s =~= seq!['d', 'e', 'b', 'u', 'g']);
    }
    if s == seq!['d', 'e', 'b', 'u', 'g'] {
        assert(s.len() == 5 && s[0] == 'd' && s[1] == 'e' && s[2] == 'b' && s[3] == 'u' && s[4] == 'g');
    }
    if s.len() == 1 && s[0] == '@' {
        assert(s =~= seq!['@']);
    }
    if s == seq!['@'] {
        assert(s.len() == 1 && s[0] == '@');
    }
    if s.len() == 7 && s[0] == 't' && s[1] == 'y' && s[2] == 'p' && s[3] == 'e' && s[4] == '_' && s[5] == 'o' && s[6] == 'f' {
        assert(s =~= seq!['t', 'y', 'p', 'e', '_', 'o', 'f']);
    }
    if s == seq!['t', 'y', 'p', 'e', '_', 'o', 'f'] {
        assert(s.len() == 7 && s[0] == 't' && s[1] == 'y' && s[2] == 'p' && s[3] == 'e' && s[4] == '_' && s[5] == 'o' && s[6] == 'f');
    }
    if s.len() == 4 && s[0] == 'w' && s[1] == 'i' && s[2] == 't' && s[3] == 'h' {
        assert(s =~= seq!['w', 'i', 't', 'h']);
    }
    if s == seq!['w', 'i', 't', 'h'] {
        assert(s.len() == 4 && s[0] == 'w' && s[1] == 'i' && s[2] == 't' && s[3] == 'h');
    }
    if s.len() == 2 && s[0] == '<' && s[1] == '-' {
        assert(s =~= seq!['<', '-']);
    }
    if s == seq!['<', '-'] {
        assert(s.len() == 2 && s[0] == '<' && s[1] == '-');
    }
    if s.len() == 4 && s[0] == 'v' && s[1] == 'o' && s[2] == 'i' && s[3] == 'd' {
        assert(s =~= seq!['v', 'o', 'i', 'd']);
    }
    if s == seq!['v', 'o', 'i', 'd'] {
        assert(s.len() == 4 && s[0] == 'v' && s[1] == 'o' && s[2] == 'i' && s[3] == 'd');
    }
    if s.len() == 2 && s[0] == '-' && s[1] == '-' {
        assert(s =~= seq!['-', '-']);
    }
    if s == seq!['-', '-'] {
        assert(s.len() == 2 && s[0] == '-' && s[1] == '-');
    }
    if s.len() == 3 && s[0] == 'n' && s[1] == 'i' && s[2] == 'l' {
        assert(s =~= seq!['n', 'i', 'l']);
    }
    if s == seq!['n', 'i', 'l'] {
        assert(s.len() == 3 && s[0] == 'n' && s[1] == 'i' && s[2] == 'l');
    }
    if s.len() == 2 && s[0] == '<' && s[1] == '|' {
        assert(s =~= seq!['<', '|']);
    }
    if s == seq!['<', '|'] {
        assert(s.len() == 2 && s[0] == '<' && s[1] == '|');
    }
    if s.len() == 1 && s[0] == '$' {
        assert(s =~= seq!['$']);
    }
    if s == seq!['$'] {
        assert(s.len() == 1 && s[0] == '$');
    }
    if s.len() == 2 && s[0] == '-' && s[1] == '>' {
        assert(s =~= seq!['-', '>']);
    }
    if s == seq!['-', '>'] {
        assert(s.len() == 2 && s[0] == '-' && s[1] == '>');
    }
    if s.len() == 2 && s[0] == '|' && s[1] == '>' {
        assert(s =~= seq!['|', '>']);
    }
    if s == seq!['|', '>'] {
        assert(s.len() == 2 && s[0] == '|' && s[1] == '>');
    }
    if s.len() == 6 && s[0] == 'm' && s[1] == 'o' && s[2] == 'd' && s[3] == 'u' && s[4] == 'l' && s[5] == 'e' {
        assert(s =~= seq!['m', 'o', 'd', 'u', 'l', 'e']);
    }
    if s == seq!['m', 'o', 'd', 'u', 'l', 'e'] {
        assert(s.len() == 6 && s[0] == 'm' && s[1] == 'o' && s[2] == 'd' && s[3] == 'u' && s[4] == 'l' && s[5] == 'e');
    }
    if s.len() == 2 && s[0] == 'F' && s[1] == 'n' {
        assert(s =~= seq!['F', 'n']);
    }
    if s == seq!['F', 'n'] {
        assert(s.len() == 2 && s[0] == 'F' && s[1] == 'n');
    }
    if s.len() == 3 && s[0] == ':' && s[1] == ':' && s[2] == '<' {
        assert(s =~= seq![':', ':', '<']);
    }
    if s == seq![':', ':', '<'] {
        assert(s.len() == 3 && s[0] == ':' && s[1] == ':' && s[2] == '<');
    }
    if s.len() == 2 && s[0] == '+' && s[1] == '+' {
        assert(s =~= seq!['+', '+']);
    }
    if s == seq!['+', '+'] {
        assert(s.len() == 2 && s[0] == '+' && s[1] == '+');
    }
    if s.len() == 2 && s[0] == ':' && s[1] == ';' {
        assert(s =~= seq![':', ';']);
    }
    if s == seq![':', ';'] {
        assert(s.len() == 2 && s[0] == ':' && s[1] == ';');
    }
    if s.len() == 2 && s[0] == '*' && s[1] == ')' {
        assert(s =~= seq!['*', ')']);
    }
    if s == seq!['*', ')'] {
        assert(s.len() == 2 && s[0] == '*' && s[1] == ')');
    }
    if s.len() == 2 && s[0] == '(' && s[1] == '*' {
        assert(s =~= seq!['(', '*']);
    }
    if s == seq!['(', '*'] {
        assert(s.len() == 2 && s[0] == '(' && s[1] == '*');
    }
    if s.len() == 2 && s[0] == 'g' && s[1] == 'o' {
        assert(s =~= seq!['g', 'o']);
    }
    if s == seq!['g', 'o'] {
        assert(s.len() == 2 && s[0] == 'g' && s[1] == 'o');
    }
    if s.len() == 4 && s[0] == 'g' && s[1] == 'o' && s[2] == 't' && s[3] == 'o' {
        assert(s =~= seq!['g', 'o', 't', 'o']);
    }
    if s == seq!['g', 'o', 't', 'o'] {
        assert(s.len() == 4 && s[0] == 'g' && s[1] == 'o' && s[2] == 't' && s[3] == 'o');
    }
}

} // verus!
