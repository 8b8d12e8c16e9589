//! Properties of the tokenizer that span several of its functions.
use vstd::prelude::*;
use crate::token::{
    Token,
    SpecToken, TokenOf, has_syntax, syntax_of, is_op_assignment_spec, has_op_assignment_spec,
    base_op_spec, op_assignment_spec, is_standard_symbol_spec, is_standard_keyword_spec,
};
use crate::keywords::{symbol_from_syntax, reserved_info};
use crate::position::{Position, advanced, advanced_by, next_line, rewound};
use crate::state::push_last;
use crate::strings::{
    HexOutcome, hex_escape,
    string_literal, raw_string_literal, leading_hashes,
    StrScan, StrParams, StrOutcome, StrStep, HexScan, RawScan, RawOutcome, str_loop, raw_loop,
    str_char_step, first_of, too_long, hex_len, hashes, lemma_hex_escape_input, pow16,
};
use crate::tokenize::{
    LexScan, LexConfig, LexOutcome, LexStep, next_token, resume, starts_literal, starts_comment,
    lex_loop, lex_step, lemma_step_shrinks, lemma_literal_no_panic, lemma_char_nonempty,
    backtick_skip, within_named, comment_init,
};
use crate::lexer::{block_loop, CommentScan, NumScan, num_loop, valid_digit, radix_of};
use crate::text::{nat_digits, digit_char, int_text};
use crate::numbers::{digit_value, digits_value, all_digits, parse_signed, parse_unsigned, digit_run, is_exponent, is_decimal_number, is_float_text};
use crate::lexer::{number_scan, number_token, number_text};
use crate::tokenize::number_step;
use crate::engine::{compressed_after, map_token, Engine, TokenIterator};
use crate::state::TokenizeState;
use crate::error::LexErrorOf;
use vstd::utf8::encode_utf8;
use crate::identifiers::{id_run, word_text, identifier_token, leading_underscores, ident_char, is_valid_identifier_spec};
use crate::chars::{id_start, id_continue};
use crate::lexer::symbol_step;
use crate::chars::{is_numeric_digit_spec, hex_value, is_scalar_value};
use crate::state::reset_last;

verus! {

/// Looking up the syntax of a symbol or keyword gives the token back; only the unary `+` and
/// `-` share their syntax with the binary operators, and come back as those.
pub proof fn law_lookup_inverts_syntax(t: SpecToken)
    requires
        has_syntax(t),
    ensures
        t != TokenOf::<Seq<char>>::UnaryPlus && t != TokenOf::<Seq<char>>::UnaryMinus
            ==> symbol_from_syntax(syntax_of(t)) == Some(t),
        t == TokenOf::<Seq<char>>::UnaryPlus ==> symbol_from_syntax(syntax_of(t)) == Some(
            TokenOf::<Seq<char>>::Plus,
        ),
        t == TokenOf::<Seq<char>>::UnaryMinus ==> symbol_from_syntax(syntax_of(t)) == Some(
            TokenOf::<Seq<char>>::Minus,
        ),
{
}

/// A token found by looking up a piece of syntax is a symbol or keyword with that syntax.
pub proof fn law_lookup_sound(s: Seq<char>)
    ensures
        symbol_from_syntax(s) matches Some(t) ==> has_syntax(t) && syntax_of(t) == s,
{
}

/// Every operator with an op-assignment form comes back from that form, and every
/// op-assignment operator comes from its operator.
pub proof fn law_op_assignment_round_trip(t: SpecToken)
    ensures
        has_op_assignment_spec(t) ==> (op_assignment_spec(t) matches Some(a) && is_op_assignment_spec(a)
            && base_op_spec(a) == Some(t)),
        is_op_assignment_spec(t) ==> (base_op_spec(t) matches Some(b) && has_op_assignment_spec(b)
            && op_assignment_spec(b) == Some(t)),
        has_op_assignment_spec(t) == (op_assignment_spec(t) is Some),
        is_op_assignment_spec(t) == (base_op_spec(t) is Some),
{
}

/// A reserved keyword callable in method-call style is callable as a function, and one
/// callable as a function is reserved.
pub proof fn law_reserved_flags(s: Seq<char>)
    ensures
        reserved_info(s).2 ==> reserved_info(s).1,
        reserved_info(s).1 ==> reserved_info(s).0,
{
}

/// No reserved keyword or symbol is a standard symbol or keyword.
pub proof fn law_reserved_not_standard(s: Seq<char>)
    ensures
        reserved_info(s).0 ==> symbol_from_syntax(s) is None,
{
}


/// A string literal scan that ends with the "within text" marker still set has read all of its
/// input: an unterminated string is returned without error only at the end of the input.
pub proof fn law_open_string_only_at_end(s: StrScan, p: StrParams)
    ensures
        str_loop(s, p) matches StrOutcome::Ended(r, _) ==> (r.within is Some ==> r.input.len() == 0),
    decreases s.input.len(),
{
    if s.input.len() > 0 {
        let c = s.input[0];
        let s1 = StrScan {
            input: s.input.drop_first(),
            pos: advanced(s.pos),
            last: push_last(s.last, c),
            continued: false,
            ..s
        };
        if !(p.interp && c == '$' && !s.escape && first_of(s1.input) == Some('{')) && !too_long(
            s.result,
            p.max,
        ) && !(c == p.term && !s.escape && first_of(s1.input) != Some(p.term)) {
            let s2 = if c == p.term && !s.escape {
                StrScan {
                    input: s1.input.drop_first(),
                    pos: advanced(s1.pos),
                    last: push_last(s1.last, p.term),
                    ..s1
                }
            } else {
                s1
            };
            let s3 = if s2.first_char.line == 0 && s2.first_char.pos == 0 {
                StrScan { first_char: s2.pos, ..s2 }
            } else {
                s2
            };
            if let StrStep::Next(s4) = str_char_step(c, s3, p) {
                if (c == 'x' || c == 'u' || c == 'U') && s3.escape {
                    lemma_hex_escape_input(
                        HexScan { input: s3.input, pos: s3.pos, last: s3.last, seq: seq!['\\', c], val: 0 },
                        hex_len(c),
                    );
                }
                law_open_string_only_at_end(s4, p);
            }
        }
    }
}

/// A raw string scan that ends with the "within text" marker still set has read all of its
/// input: an unterminated raw string is returned without error only at the end of the input.
pub proof fn law_open_raw_string_only_at_end(s: RawScan, hash_count: nat, max: Option<usize>, start: Position)
    ensures
        raw_loop(s, hash_count, max, start) matches RawOutcome::Ended(r) ==> (r.within is Some
            ==> r.input.len() == 0),
    decreases s.input.len(),
{
    if s.input.len() > 0 {
        let c = s.input[0];
        let s1 = RawScan { input: s.input.drop_first(), pos: advanced(s.pos), ..s };
        if !(c == '#' && s.seen is Some && s.seen->0 + 1 == hash_count) {
            let s2 = match s.seen {
                None => if c == '"' {
                    RawScan { seen: Some(0), ..s1 }
                } else if c == '\n' {
                    RawScan { result: s1.result.push('\n'), pos: next_line(s1.pos), ..s1 }
                } else {
                    RawScan { result: s1.result.push(c), ..s1 }
                },
                Some(k) => if c == '"' {
                    RawScan { result: s1.result.push('"') + hashes(k), seen: Some(0), ..s1 }
                } else if c == '#' {
                    RawScan { seen: Some(k + 1), ..s1 }
                } else {
                    RawScan { result: (s1.result.push('"') + hashes(k)).push(c), seen: None, ..s1 }
                },
            };
            if !too_long(s2.result, max) {
                let s3 = if s2.first_char.line == 0 && s2.first_char.pos == 0 {
                    RawScan { first_char: s2.pos, ..s2 }
                } else {
                    s2
                };
                law_open_raw_string_only_at_end(s3, hash_count, max, start);
            }
        }
    }
}

/// At the end of the input, with no comment or string left open, the next token is the end of
/// file, one position further on.
pub proof fn law_end_of_input(s: LexScan, cfg: LexConfig)
    requires
        s.input.len() == 0,
        s.level <= 0,
        s.within is None,
    ensures
        next_token(s, cfg) matches LexOutcome::Token(t, p, _) && t == TokenOf::<Seq<char>>::EOF && p
            == advanced(s.pos),
{
    reveal(resume);
}


/// A symbol at the start of the input, with nothing open before it, is read as `symbol_step`
/// says.
proof fn lemma_reads_symbol(s: Seq<char>, pos: Position, cfg: LexConfig)
    requires
        s.len() > 0,
        !is_numeric_digit_spec(s[0]),
        !starts_literal(s[0], first_of(s.drop_first())),
        !(s[0] == '-' && cfg.unary_ok && s.len() > 1 && is_numeric_digit_spec(s[1])),
        !starts_comment(s[0], first_of(s.drop_first())),
        symbol_step(s[0], s.drop_first(), cfg.unary_ok) is Some,
    ensures
        ({
            let (t, k) = symbol_step(s[0], s.drop_first(), cfg.unary_ok)->0;
            next_token(
                LexScan { input: s, pos, negated: None, level: 0, within: None, last: None },
                cfg,
            ) == LexOutcome::Token(
                t,
                advanced(pos),
                LexScan {
                    input: s.drop_first().skip(k as int),
                    pos: advanced_by(advanced(pos), k),
                    negated: None,
                    level: 0,
                    within: None,
                    last: None,
                },
            )
        }),
{
    reveal(resume);
    assert(reset_last(None, seq![]) == None::<Seq<char>>);
}

/// The symbols of one group are read back from their texts.
proof fn lemma_symbols_read_back_0(t: SpecToken, pos: Position, cfg: LexConfig)
    requires
        t == TokenOf::<Seq<char>>::LeftBrace || t == TokenOf::<Seq<char>>::RightBrace || t == TokenOf::<Seq<char>>::LeftParen || t == TokenOf::<Seq<char>>::RightParen || t == TokenOf::<Seq<char>>::LeftBracket || t == TokenOf::<Seq<char>>::RightBracket || t == TokenOf::<Seq<char>>::Plus || t == TokenOf::<Seq<char>>::Minus || t == TokenOf::<Seq<char>>::Multiply || t == TokenOf::<Seq<char>>::Divide,
        (t == TokenOf::<Seq<char>>::Plus || t == TokenOf::<Seq<char>>::Minus) ==> !cfg.unary_ok,
    ensures
        next_token(
            LexScan { input: syntax_of(t), pos, negated: None, level: 0, within: None, last: None },
            cfg,
        ) matches LexOutcome::Token(t2, p, s2) && t2 == t && p == advanced(pos) && s2.input.len()
            == 0,
{
    lemma_reads_symbol(syntax_of(t), pos, cfg);
}

/// The symbols of one group are read back from their texts.
proof fn lemma_symbols_read_back_1(t: SpecToken, pos: Position, cfg: LexConfig)
    requires
        t == TokenOf::<Seq<char>>::Modulo || t == TokenOf::<Seq<char>>::PowerOf || t == TokenOf::<Seq<char>>::LeftShift || t == TokenOf::<Seq<char>>::RightShift || t == TokenOf::<Seq<char>>::SemiColon || t == TokenOf::<Seq<char>>::Colon || t == TokenOf::<Seq<char>>::DoubleColon || t == TokenOf::<Seq<char>>::Comma || t == TokenOf::<Seq<char>>::Period || t == TokenOf::<Seq<char>>::DoubleQuestion,
        (t == TokenOf::<Seq<char>>::Plus || t == TokenOf::<Seq<char>>::Minus) ==> !cfg.unary_ok,
    ensures
        next_token(
            LexScan { input: syntax_of(t), pos, negated: None, level: 0, within: None, last: None },
            cfg,
        ) matches LexOutcome::Token(t2, p, s2) && t2 == t && p == advanced(pos) && s2.input.len()
            == 0,
{
    lemma_reads_symbol(syntax_of(t), pos, cfg);
}

/// The symbols of one group are read back from their texts.
proof fn lemma_symbols_read_back_2(t: SpecToken, pos: Position, cfg: LexConfig)
    requires
        t == TokenOf::<Seq<char>>::ExclusiveRange || t == TokenOf::<Seq<char>>::InclusiveRange || t == TokenOf::<Seq<char>>::MapStart || t == TokenOf::<Seq<char>>::Equals || t == TokenOf::<Seq<char>>::LessThan || t == TokenOf::<Seq<char>>::GreaterThan || t == TokenOf::<Seq<char>>::LessThanEqualsTo || t == TokenOf::<Seq<char>>::GreaterThanEqualsTo || t == TokenOf::<Seq<char>>::EqualsTo || t == TokenOf::<Seq<char>>::NotEqualsTo,
        (t == TokenOf::<Seq<char>>::Plus || t == TokenOf::<Seq<char>>::Minus) ==> !cfg.unary_ok,
    ensures
        next_token(
            LexScan { input: syntax_of(t), pos, negated: None, level: 0, within: None, last: None },
            cfg,
        ) matches LexOutcome::Token(t2, p, s2) && t2 == t && p == advanced(pos) && s2.input.len()
            == 0,
{
    lemma_reads_symbol(syntax_of(t), pos, cfg);
}

/// The symbols of one group are read back from their texts.
proof fn lemma_symbols_read_back_3(t: SpecToken, pos: Position, cfg: LexConfig)
    requires
        t == TokenOf::<Seq<char>>::Bang || t == TokenOf::<Seq<char>>::Pipe || t == TokenOf::<Seq<char>>::Or || t == TokenOf::<Seq<char>>::XOr || t == TokenOf::<Seq<char>>::Ampersand || t == TokenOf::<Seq<char>>::And || t == TokenOf::<Seq<char>>::PlusAssign || t == TokenOf::<Seq<char>>::MinusAssign || t == TokenOf::<Seq<char>>::MultiplyAssign || t == TokenOf::<Seq<char>>::DivideAssign,
        (t == TokenOf::<Seq<char>>::Plus || t == TokenOf::<Seq<char>>::Minus) ==> !cfg.unary_ok,
    ensures
        next_token(
            LexScan { input: syntax_of(t), pos, negated: None, level: 0, within: None, last: None },
            cfg,
        ) matches LexOutcome::Token(t2, p, s2) && t2 == t && p == advanced(pos) && s2.input.len()
            == 0,
{
    lemma_reads_symbol(syntax_of(t), pos, cfg);
}

/// The symbols of one group are read back from their texts.
proof fn lemma_symbols_read_back_4(t: SpecToken, pos: Position, cfg: LexConfig)
    requires
        t == TokenOf::<Seq<char>>::LeftShiftAssign || t == TokenOf::<Seq<char>>::RightShiftAssign || t == TokenOf::<Seq<char>>::AndAssign || t == TokenOf::<Seq<char>>::OrAssign || t == TokenOf::<Seq<char>>::XOrAssign || t == TokenOf::<Seq<char>>::ModuloAssign || t == TokenOf::<Seq<char>>::PowerOfAssign || t == TokenOf::<Seq<char>>::Elvis || t == TokenOf::<Seq<char>>::QuestionBracket,
        (t == TokenOf::<Seq<char>>::Plus || t == TokenOf::<Seq<char>>::Minus) ==> !cfg.unary_ok,
    ensures
        next_token(
            LexScan { input: syntax_of(t), pos, negated: None, level: 0, within: None, last: None },
            cfg,
        ) matches LexOutcome::Token(t2, p, s2) && t2 == t && p == advanced(pos) && s2.input.len()
            == 0,
{
    lemma_reads_symbol(syntax_of(t), pos, cfg);
}

/// Reading the text of a standard symbol gives the symbol back (a `+` or `-` where no unary
/// operator may stand): the text that a symbol is shown by means the symbol again.
pub proof fn law_symbol_text_read_back(t: SpecToken, pos: Position, cfg: LexConfig)
    requires
        is_standard_symbol_spec(t),
        t != TokenOf::<Seq<char>>::UnaryPlus,
        t != TokenOf::<Seq<char>>::UnaryMinus,
        (t == TokenOf::<Seq<char>>::Plus || t == TokenOf::<Seq<char>>::Minus) ==> !cfg.unary_ok,
    ensures
        next_token(
            LexScan { input: syntax_of(t), pos, negated: None, level: 0, within: None, last: None },
            cfg,
        ) matches LexOutcome::Token(t2, p, s2) && t2 == t && p == advanced(pos) && s2.input.len()
            == 0,
{
    if t == TokenOf::<Seq<char>>::LeftBrace || t == TokenOf::<Seq<char>>::RightBrace || t == TokenOf::<Seq<char>>::LeftParen || t == TokenOf::<Seq<char>>::RightParen || t == TokenOf::<Seq<char>>::LeftBracket || t == TokenOf::<Seq<char>>::RightBracket || t == TokenOf::<Seq<char>>::Plus || t == TokenOf::<Seq<char>>::Minus || t == TokenOf::<Seq<char>>::Multiply || t == TokenOf::<Seq<char>>::Divide {
        lemma_symbols_read_back_0(t, pos, cfg);
    }
    if t == TokenOf::<Seq<char>>::Modulo || t == TokenOf::<Seq<char>>::PowerOf || t == TokenOf::<Seq<char>>::LeftShift || t == TokenOf::<Seq<char>>::RightShift || t == TokenOf::<Seq<char>>::SemiColon || t == TokenOf::<Seq<char>>::Colon || t == TokenOf::<Seq<char>>::DoubleColon || t == TokenOf::<Seq<char>>::Comma || t == TokenOf::<Seq<char>>::Period || t == TokenOf::<Seq<char>>::DoubleQuestion {
        lemma_symbols_read_back_1(t, pos, cfg);
    }
    if t == TokenOf::<Seq<char>>::ExclusiveRange || t == TokenOf::<Seq<char>>::InclusiveRange || t == TokenOf::<Seq<char>>::MapStart || t == TokenOf::<Seq<char>>::Equals || t == TokenOf::<Seq<char>>::LessThan || t == TokenOf::<Seq<char>>::GreaterThan || t == TokenOf::<Seq<char>>::LessThanEqualsTo || t == TokenOf::<Seq<char>>::GreaterThanEqualsTo || t == TokenOf::<Seq<char>>::EqualsTo || t == TokenOf::<Seq<char>>::NotEqualsTo {
        lemma_symbols_read_back_2(t, pos, cfg);
    }
    if t == TokenOf::<Seq<char>>::Bang || t == TokenOf::<Seq<char>>::Pipe || t == TokenOf::<Seq<char>>::Or || t == TokenOf::<Seq<char>>::XOr || t == TokenOf::<Seq<char>>::Ampersand || t == TokenOf::<Seq<char>>::And || t == TokenOf::<Seq<char>>::PlusAssign || t == TokenOf::<Seq<char>>::MinusAssign || t == TokenOf::<Seq<char>>::MultiplyAssign || t == TokenOf::<Seq<char>>::DivideAssign {
        lemma_symbols_read_back_3(t, pos, cfg);
    }
    if t == TokenOf::<Seq<char>>::LeftShiftAssign || t == TokenOf::<Seq<char>>::RightShiftAssign || t == TokenOf::<Seq<char>>::AndAssign || t == TokenOf::<Seq<char>>::OrAssign || t == TokenOf::<Seq<char>>::XOrAssign || t == TokenOf::<Seq<char>>::ModuloAssign || t == TokenOf::<Seq<char>>::PowerOfAssign || t == TokenOf::<Seq<char>>::Elvis || t == TokenOf::<Seq<char>>::QuestionBracket {
        lemma_symbols_read_back_4(t, pos, cfg);
    }
}


/// Reading characters until a token is found never panics.
proof fn lemma_lex_loop_no_panic(s: LexScan, cfg: LexConfig)
    ensures
        !(lex_loop(s, cfg) is Panicked),
    decreases s.input.len(),
{
    if s.input.len() > 0 {
        let c = s.input[0];
        let rest = s.input.drop_first();
        let pos1 = advanced(s.pos);
        if c == '"' {
            lemma_literal_no_panic(rest, pos1, s.last, '"', false, true, false, cfg.max);
        } else if c == '`' {
            let (i2, p2) = backtick_skip(rest, pos1);
            lemma_literal_no_panic(i2, p2, s.last, '`', true, false, true, cfg.max);
        } else if c == '\'' && first_of(rest) != Some('\'') {
            lemma_literal_no_panic(rest, pos1, s.last, '\'', false, false, false, cfg.max);
            lemma_char_nonempty(rest, pos1, s.last, cfg.max);
        }
        if let LexStep::Continue(s2) = lex_step(s, cfg) {
            lemma_step_shrinks(s, cfg);
            lemma_lex_loop_no_panic(s2, cfg);
        }
    }
}

/// Reading a token never panics, whatever the input, as long as the "within text" marker, if
/// set, names a closing text.
pub proof fn law_reading_never_panics(s: LexScan, cfg: LexConfig)
    requires
        within_named(s.within),
    ensures
        next_token(s, cfg) is Token,
{
    reveal(resume);
    let s0 = LexScan { last: reset_last(s.last, seq![]), negated: None, ..s };
    let r = if s0.level > 0 {
        let b = block_loop(
            CommentScan {
                input: s0.input,
                pos: s0.pos,
                text: comment_init(cfg, seq![]),
                level: s0.level,
            },
        );
        LexScan { input: b.input, pos: b.pos, level: b.level, ..s0 }
    } else {
        s0
    };
    match r.within {
        Some(w) => {
            lemma_literal_no_panic(r.input, r.pos, r.last, w[0], true, false, true, cfg.max);
        },
        None => {
            lemma_lex_loop_no_panic(r, cfg);
        },
    }
}


/// Moving back one character undoes moving on by one, short of the last column.
pub proof fn law_rewind_undoes_advance(p: Position)
    requires
        p.pos < u16::MAX,
    ensures
        rewound(advanced(p)) == p,
{
}


/// A decimal digit character has its digit's value.
proof fn lemma_digit_char(d: nat)
    requires
        d < 10,
    ensures
        '0' <= digit_char(d) <= '9',
        digit_value(digit_char(d), 10) == Some(d),
{
}

/// The decimal digits of a number are decimal digits, at least one, with the number's value.
proof fn lemma_nat_digits(n: nat)
    ensures
        nat_digits(n).len() > 0,
        all_digits(nat_digits(n)),
        digits_value(nat_digits(n), 10) == Some(n),
    decreases n,
{
    if n < 10 {
        lemma_digit_char(n);
        assert(nat_digits(n).drop_last() =~= Seq::<char>::empty());
        assert(digits_value(Seq::<char>::empty(), 10) == Some(0nat));
        assert(0 * 10 + n == n);
    } else {
        lemma_nat_digits(n / 10);
        lemma_digit_char(n % 10);
        let s = nat_digits(n / 10);
        assert(nat_digits(n).drop_last() =~= s);
        assert(nat_digits(n).last() == digit_char(n % 10));
        vstd::arithmetic::div_mod::lemma_fundamental_div_mod(n as int, 10);
        assert((n / 10) * 10 + n % 10 == n) by (nonlinear_arith)
            requires
                n == 10 * (n / 10) + (n % 10),
        ;
        assert(all_digits(nat_digits(n))) by {
            assert forall|i: int| 0 <= i < nat_digits(n).len() implies '0' <= #[trigger] nat_digits(
                n,
            )[i] && nat_digits(n)[i] <= '9' by {
                if i < s.len() {
                    assert(nat_digits(n)[i] == s[i]);
                }
            }
        }
    }
}

/// A number scan over decimal digits reads them all.
proof fn lemma_num_loop_digits(n: NumScan, first: char)
    requires
        all_digits(n.input),
        n.radix is None,
    ensures
        num_loop(n, first).input.len() == 0,
        num_loop(n, first).result == n.result + n.input,
        num_loop(n, first).radix is None,
    decreases n.input.len(),
{
    if n.input.len() == 0 {
        assert(n.result + n.input =~= n.result);
    } else {
        let nc = n.input[0];
        let eaten = NumScan {
            input: n.input.drop_first(),
            pos: advanced(n.pos),
            result: n.result.push(nc),
            ..n
        };
        assert(all_digits(eaten.input)) by {
            assert forall|i: int| 0 <= i < eaten.input.len() implies '0' <= #[trigger] eaten.input[i]
                && eaten.input[i] <= '9' by {
                assert(eaten.input[i] == n.input[i + 1]);
            }
        }
        lemma_num_loop_digits(eaten, first);
        assert(n.result.push(nc) + n.input.drop_first() =~= n.result + n.input);
    }
}

/// Reading the decimal text of an integer gives the integer back (a negative one where a unary
/// operator may stand): the text that an integer is shown by means the integer again.
pub proof fn law_integer_text_read_back(i: i64, pos: Position, cfg: LexConfig)
    requires
        i >= 0 || cfg.unary_ok,
    ensures
        next_token(
            LexScan { input: int_text(i as int), pos, negated: None, level: 0, within: None, last: None },
            cfg,
        ) matches LexOutcome::Token(t, p, s2) && t == TokenOf::<Seq<char>>::IntegerConstant(i)
            && p == advanced(pos) && s2.input.len() == 0,
{
    reveal(resume);
    let m: nat = if i >= 0 {
        i as nat
    } else {
        (-(i as int)) as nat
    };
    let digits = nat_digits(m);
    lemma_nat_digits(m);
    let c = digits[0];
    let rest = digits.drop_first();
    assert(all_digits(rest)) by {
        assert forall|k: int| 0 <= k < rest.len() implies '0' <= #[trigger] rest[k] && rest[k] <= '9' by {
            assert(rest[k] == digits[k + 1]);
        }
    }
    assert(seq![c] + rest =~= digits);
    if i >= 0 {
        let n0 = NumScan {
            input: rest,
            pos: advanced(pos),
            result: seq![c],
            radix: None,
            has_period: false,
            has_e: false,
        };
        lemma_num_loop_digits(n0, c);
        assert(int_text(i as int) == digits);
        assert('0' <= c <= '9');
        let s0 = LexScan { input: digits, pos, negated: None, level: 0, within: None, last: None };
        let n = number_scan(c, rest, advanced(pos));
        assert(n.result == digits);
        assert(parse_signed(digits) == Some(i));
        assert(number_token(digits, None) == TokenOf::<Seq<char>>::IntegerConstant(i));
        assert(lex_step(s0, cfg) == number_step(c, LexScan { input: rest, pos: advanced(pos), ..s0 }));
        assert(lex_loop(s0, cfg) == LexOutcome::Token(
            TokenOf::<Seq<char>>::IntegerConstant(i),
            advanced(pos),
            LexScan { input: n.input, pos: n.pos, last: None, ..s0 },
        ));
        assert(reset_last(None, seq![]) == None::<Seq<char>>);
        assert(next_token(s0, cfg) == lex_loop(s0, cfg));
    } else {
        let input = int_text(i as int);
        assert(input == seq!['-'] + digits);
        assert(input.drop_first() =~= digits);
        let n0 = NumScan {
            input: rest,
            pos: advanced(advanced(pos)),
            result: seq![c],
            radix: None,
            has_period: false,
            has_e: false,
        };
        lemma_num_loop_digits(n0, c);
        assert('0' <= c <= '9');
        let s0 = LexScan { input, pos, negated: None, level: 0, within: None, last: None };
        let s1 = LexScan { input: digits, pos: advanced(pos), negated: Some(advanced(pos)), ..s0 };
        assert(input[0] == '-');
        assert(input.drop_first()[0] == c);
        assert(lex_step(s0, cfg) == LexStep::Continue(s1));
        let n = number_scan(c, rest, advanced(advanced(pos)));
        assert(n.result == digits);
        let text = seq!['-'] + digits;
        assert(number_text(n, Some(advanced(pos))) == text);
        assert(text.drop_first() =~= digits);
        assert(parse_signed(text) == Some(i));
        assert(lex_step(s1, cfg) == number_step(c, LexScan { input: rest, pos: advanced(advanced(pos)), ..s1 }));
        assert(lex_loop(s1, cfg) == LexOutcome::Token(
            TokenOf::<Seq<char>>::IntegerConstant(i),
            advanced(pos),
            LexScan { input: n.input, pos: n.pos, last: None, ..s1 },
        ));
        assert(lex_loop(s0, cfg) == lex_loop(s1, cfg));
        assert(reset_last(None, seq![]) == None::<Seq<char>>);
        assert(next_token(s0, cfg) == lex_loop(s0, cfg));
    }
}

/// Compressing a script only ever appends to it: what was compressed before stays as it was.
pub proof fn law_compression_only_appends(c: Seq<char>, last: Seq<char>, t: SpecToken, within: bool)
    ensures
        compressed_after(c, last, t, within).len() >= c.len(),
        compressed_after(c, last, t, within).take(c.len() as int) == c,
{
    let r = compressed_after(c, last, t, within);
    assert(r.take(c.len() as int) =~= c);
}

/// A run of characters that all continue a word is read whole.
proof fn lemma_id_run_all(s: Seq<char>)
    requires
        forall|i: int| 0 <= i < s.len() ==> id_continue(#[trigger] s[i]),
    ensures
        id_run(s) == s.len(),
    decreases s.len(),
{
    if s.len() > 0 {
        let r = s.drop_first();
        assert forall|i: int| 0 <= i < r.len() implies id_continue(#[trigger] r[i]) by {
            assert(r[i] == s[i + 1]);
        }
        lemma_id_run_all(r);
    }
}

/// A word at the start of the input, with nothing open before it, is read whole and made a
/// token as `identifier_token` says.
proof fn lemma_reads_word(s: Seq<char>, pos: Position, cfg: LexConfig)
    requires
        s.len() > 0,
        id_start(s[0]),
        forall|i: int| 1 <= i < s.len() ==> id_continue(#[trigger] s[i]),
        !is_numeric_digit_spec(s[0]),
        !starts_literal(s[0], first_of(s.drop_first())),
        s[0] != '-',
        !starts_comment(s[0], first_of(s.drop_first())),
        symbol_step(s[0], s.drop_first(), cfg.unary_ok) is None,
    ensures
        next_token(
            LexScan { input: s, pos, negated: None, level: 0, within: None, last: None },
            cfg,
        ) matches LexOutcome::Token(t, p, s2) && t == identifier_token(s) && p == advanced(pos)
            && s2.input.len() == 0,
{
    reveal(resume);
    let rest = s.drop_first();
    assert forall|i: int| 0 <= i < rest.len() implies id_continue(#[trigger] rest[i]) by {
        assert(rest[i] == s[i + 1]);
    }
    lemma_id_run_all(rest);
    assert(word_text(s[0], rest) =~= s);
    assert(reset_last(None, seq![]) == None::<Seq<char>>);
}

/// The keywords of one group are read back from their texts.
proof fn lemma_keywords_read_back_0(t: SpecToken, pos: Position, cfg: LexConfig)
    requires
        t == TokenOf::<Seq<char>>::Fn || t == TokenOf::<Seq<char>>::Private || t == TokenOf::<Seq<char>>::Import || t == TokenOf::<Seq<char>>::Export || t == TokenOf::<Seq<char>>::As || t == TokenOf::<Seq<char>>::True || t == TokenOf::<Seq<char>>::False || t == TokenOf::<Seq<char>>::Let,
        id_start(syntax_of(t)[0]),
        forall|i: int| 1 <= i < syntax_of(t).len() ==> id_continue(#[trigger] syntax_of(t)[i]),
    ensures
        next_token(
            LexScan { input: syntax_of(t), pos, negated: None, level: 0, within: None, last: None },
            cfg,
        ) matches LexOutcome::Token(t2, p, s2) && t2 == t && p == advanced(pos) && s2.input.len()
            == 0,
{
    law_lookup_inverts_syntax(t);
    lemma_reads_word(syntax_of(t), pos, cfg);
}

/// The keywords of one group are read back from their texts.
proof fn lemma_keywords_read_back_1(t: SpecToken, pos: Position, cfg: LexConfig)
    requires
        t == TokenOf::<Seq<char>>::Const || t == TokenOf::<Seq<char>>::If || t == TokenOf::<Seq<char>>::Else || t == TokenOf::<Seq<char>>::Do || t == TokenOf::<Seq<char>>::While || t == TokenOf::<Seq<char>>::Until || t == TokenOf::<Seq<char>>::Loop || t == TokenOf::<Seq<char>>::For,
        id_start(syntax_of(t)[0]),
        forall|i: int| 1 <= i < syntax_of(t).len() ==> id_continue(#[trigger] syntax_of(t)[i]),
    ensures
        next_token(
            LexScan { input: syntax_of(t), pos, negated: None, level: 0, within: None, last: None },
            cfg,
        ) matches LexOutcome::Token(t2, p, s2) && t2 == t && p == advanced(pos) && s2.input.len()
            == 0,
{
    law_lookup_inverts_syntax(t);
    lemma_reads_word(syntax_of(t), pos, cfg);
}

/// The keywords of one group are read back from their texts.
proof fn lemma_keywords_read_back_2(t: SpecToken, pos: Position, cfg: LexConfig)
    requires
        t == TokenOf::<Seq<char>>::In || t == TokenOf::<Seq<char>>::Continue || t == TokenOf::<Seq<char>>::Break || t == TokenOf::<Seq<char>>::Return || t == TokenOf::<Seq<char>>::Throw || t == TokenOf::<Seq<char>>::Try || t == TokenOf::<Seq<char>>::Catch,
        id_start(syntax_of(t)[0]),
        forall|i: int| 1 <= i < syntax_of(t).len() ==> id_continue(#[trigger] syntax_of(t)[i]),
    ensures
        next_token(
            LexScan { input: syntax_of(t), pos, negated: None, level: 0, within: None, last: None },
            cfg,
        ) matches LexOutcome::Token(t2, p, s2) && t2 == t && p == advanced(pos) && s2.input.len()
            == 0,
{
    law_lookup_inverts_syntax(t);
    lemma_reads_word(syntax_of(t), pos, cfg);
}

/// The text of a standard keyword is a word of ASCII letters.
proof fn lemma_keyword_letters(t: SpecToken)
    requires
        is_standard_keyword_spec(t),
    ensures
        syntax_of(t).len() > 0,
        id_start(syntax_of(t)[0]),
        forall|i: int| 1 <= i < syntax_of(t).len() ==> id_continue(#[trigger] syntax_of(t)[i]),
{
    assert forall|i: int| 1 <= i < syntax_of(t).len() implies id_continue(#[trigger] syntax_of(t)[i]) by {
        let s = syntax_of(t);
        assert(0 <= i < s.len());
    }
}

/// Reading the text of a standard keyword gives the keyword back.
pub proof fn law_keyword_text_read_back(t: SpecToken, pos: Position, cfg: LexConfig)
    requires
        is_standard_keyword_spec(t),
    ensures
        next_token(
            LexScan { input: syntax_of(t), pos, negated: None, level: 0, within: None, last: None },
            cfg,
        ) matches LexOutcome::Token(t2, p, s2) && t2 == t && p == advanced(pos) && s2.input.len()
            == 0,
{
    lemma_keyword_letters(t);
    if t == TokenOf::<Seq<char>>::Fn || t == TokenOf::<Seq<char>>::Private || t == TokenOf::<Seq<char>>::Import || t == TokenOf::<Seq<char>>::Export || t == TokenOf::<Seq<char>>::As || t == TokenOf::<Seq<char>>::True || t == TokenOf::<Seq<char>>::False || t == TokenOf::<Seq<char>>::Let {
        lemma_keywords_read_back_0(t, pos, cfg);
    }
    if t == TokenOf::<Seq<char>>::Const || t == TokenOf::<Seq<char>>::If || t == TokenOf::<Seq<char>>::Else || t == TokenOf::<Seq<char>>::Do || t == TokenOf::<Seq<char>>::While || t == TokenOf::<Seq<char>>::Until || t == TokenOf::<Seq<char>>::Loop || t == TokenOf::<Seq<char>>::For {
        lemma_keywords_read_back_1(t, pos, cfg);
    }
    if t == TokenOf::<Seq<char>>::In || t == TokenOf::<Seq<char>>::Continue || t == TokenOf::<Seq<char>>::Break || t == TokenOf::<Seq<char>>::Return || t == TokenOf::<Seq<char>>::Throw || t == TokenOf::<Seq<char>>::Try || t == TokenOf::<Seq<char>>::Catch {
        lemma_keywords_read_back_2(t, pos, cfg);
    }
}

/// Every string text returned without error fits in the maximum length.
pub proof fn law_string_within_limit(
    input: Seq<char>,
    pos: Position,
    last: Option<Seq<char>>,
    term: char,
    verbatim: bool,
    cont: bool,
    interp: bool,
    max: Option<usize>,
)
    ensures
        string_literal(input, pos, last, term, verbatim, cont, interp, max) matches StrOutcome::Ended(
            r,
            _,
        ) ==> !too_long(r.result, max),
{
}

/// A raw string scan that starts within the maximum length ends, if without error, within it.
proof fn lemma_raw_loop_within_limit(s: RawScan, hash_count: nat, max: Option<usize>, start: Position)
    requires
        !too_long(s.result, max),
    ensures
        raw_loop(s, hash_count, max, start) matches RawOutcome::Ended(r) ==> !too_long(r.result, max),
    decreases s.input.len(),
{
    if s.input.len() > 0 {
        let c = s.input[0];
        let s1 = RawScan { input: s.input.drop_first(), pos: advanced(s.pos), ..s };
        if !(c == '#' && s.seen is Some && s.seen->0 + 1 == hash_count) {
            let s2 = match s.seen {
                None => if c == '"' {
                    RawScan { seen: Some(0), ..s1 }
                } else if c == '\n' {
                    RawScan { result: s1.result.push('\n'), pos: next_line(s1.pos), ..s1 }
                } else {
                    RawScan { result: s1.result.push(c), ..s1 }
                },
                Some(k) => if c == '"' {
                    RawScan { result: s1.result.push('"') + hashes(k), seen: Some(0), ..s1 }
                } else if c == '#' {
                    RawScan { seen: Some(k + 1), ..s1 }
                } else {
                    RawScan { result: (s1.result.push('"') + hashes(k)).push(c), seen: None, ..s1 }
                },
            };
            if !too_long(s2.result, max) {
                let s3 = if s2.first_char.line == 0 && s2.first_char.pos == 0 {
                    RawScan { first_char: s2.pos, ..s2 }
                } else {
                    s2
                };
                lemma_raw_loop_within_limit(s3, hash_count, max, start);
            }
        }
    }
}

/// Every raw string text returned without error fits in the maximum length.
pub proof fn law_raw_string_within_limit(
    input: Seq<char>,
    pos: Position,
    within: Option<Seq<char>>,
    last: Option<Seq<char>>,
    hash_count: nat,
    max: Option<usize>,
)
    ensures
        raw_string_literal(input, pos, within, last, hash_count, max) matches RawOutcome::Ended(r)
            ==> !too_long(r.result, max),
{
    let k = leading_hashes(input);
    let opening = if hash_count == 0 { k + 1 } else { hash_count };
    let rest = if hash_count == 0 { input.skip(k as int) } else { input };
    let pos1 = if hash_count == 0 { advanced_by(pos, k) } else { pos };
    let here = RawScan {
        input: rest,
        pos: pos1,
        result: seq![],
        seen: None,
        first_char: Position { line: 0, pos: 0 },
        within,
        last,
    };
    assert(encode_utf8(Seq::<char>::empty()) =~= Seq::<u8>::empty());
    if !(hash_count == 0 && rest.len() == 0) && !(hash_count == 0 && rest[0] != '"') {
        let body = if hash_count == 0 { rest.drop_first() } else { rest };
        let pos2 = if hash_count == 0 { advanced(pos1) } else { pos1 };
        let init = RawScan {
            input: body,
            pos: pos2,
            within: Some(hashes(opening)),
            last: reset_last(last, hashes(opening).push('"')),
            ..here
        };
        lemma_raw_loop_within_limit(init, opening, max, pos);
    }
}

/// A raw string whose opening is not a run of `#` followed by `"` is an error at its start, and
/// leaves the "within text" marker and the current token text as they were: an unexpected
/// character, or an unterminated string when the input ends first.
pub proof fn law_bad_raw_opening_keeps_state(
    input: Seq<char>,
    pos: Position,
    within: Option<Seq<char>>,
    last: Option<Seq<char>>,
    max: Option<usize>,
)
    requires
        input.skip(leading_hashes(input) as int).len() == 0 || input.skip(
            leading_hashes(input) as int,
        )[0] != '"',
    ensures
        raw_string_literal(input, pos, within, last, 0, max) matches RawOutcome::Failed(e, p, r) && p
            == pos && r.within == within && r.last == last && (if input.skip(
            leading_hashes(input) as int,
        ).len() == 0 {
            e == LexErrorOf::<Seq<char>>::UnterminatedString
        } else {
            e == LexErrorOf::<Seq<char>>::UnexpectedInput(
                seq![input.skip(leading_hashes(input) as int)[0]],
            )
        }),
{
}

/// The engine's custom keywords and symbols are translated into custom tokens: an identifier, a
/// reserved word or a standard keyword or symbol whose text is custom becomes a custom token
/// with that text; an end of file stays as it is.
pub proof fn law_custom_keywords_translated(e: &Engine, t: SpecToken)
    ensures
        t matches TokenOf::Identifier(s) ==> (e.is_custom_spec(s) ==> map_token(e, t)
            == TokenOf::<Seq<char>>::Custom(s)),
        t matches TokenOf::Reserved(s) ==> (e.is_custom_spec(s) ==> map_token(e, t)
            == TokenOf::<Seq<char>>::Custom(s)),
        has_syntax(t) && e.is_custom_spec(syntax_of(t)) ==> map_token(e, t)
            == TokenOf::<Seq<char>>::Custom(syntax_of(t)),
        map_token(e, TokenOf::<Seq<char>>::EOF) == TokenOf::<Seq<char>>::EOF,
{
}

/// A call of `next` that reads an end of file returns it as it is: neither the engine's
/// keywords nor the token mapper see it, and the compressed script is left alone.
pub proof fn law_end_of_file_not_mapped<'a>(
    before: TokenIterator<'a>,
    after: TokenIterator<'a>,
    t: Token,
    p: Position,
    mapped: spec_fn(SpecToken, Position, TokenizeState, Token) -> bool,
)
    requires
        before.next_spec(&after, t, p, mapped),
        before.reads_token(),
        before.token_read() is EOF,
    ensures
        t@ == TokenOf::<Seq<char>>::EOF,
        after.state.tokenizer_control.compressed == before.state.tokenizer_control.compressed,
{
}

/// How much a text changes the block comment nesting: each `/*` opens one more level and each
/// `*/` closes one, the text read from left to right in pairs.
pub open spec fn nesting_change(t: Seq<char>) -> int
    decreases t.len(),
{
    if t.len() == 0 {
        0
    } else if t.len() >= 2 && t[0] == '/' && t[1] == '*' {
        1 + nesting_change(t.skip(2))
    } else if t.len() >= 2 && t[0] == '*' && t[1] == '/' {
        -1 + nesting_change(t.skip(2))
    } else {
        nesting_change(t.drop_first())
    }
}

/// The level that a block comment scan reaches is the level it started at, plus the comments
/// opened, minus the comments closed, in the text it read; the input left follows that text.
pub proof fn law_comment_level_counts_nesting(s: CommentScan)
    ensures
        ({
            let b = block_loop(s);
            let n = s.input.len() - b.input.len();
            &&& 0 <= n <= s.input.len()
            &&& s.input == s.input.take(n) + b.input
            &&& b.level == s.level + nesting_change(s.input.take(n))
        }),
    decreases s.input.len(),
{
    if s.input.len() == 0 {
        assert(s.input.take(0) =~= Seq::<char>::empty());
        assert(s.input =~= s.input.take(0) + s.input);
    } else {
        let c = s.input[0];
        let rest = s.input.drop_first();
        let p1 = advanced(s.pos);
        let t1 = push_last(s.text, c);
        let pair = (c == '/' && first_of(rest) == Some('*')) || (c == '*' && first_of(rest) == Some('/'));
        let k: int = if pair { 2 } else { 1 };
        let s2 = if c == '/' && first_of(rest) == Some('*') {
            CommentScan {
                input: rest.drop_first(),
                pos: advanced(p1),
                text: push_last(t1, '*'),
                level: s.level + 1,
            }
        } else if c == '*' && first_of(rest) == Some('/') {
            CommentScan {
                input: rest.drop_first(),
                pos: advanced(p1),
                text: push_last(t1, '/'),
                level: s.level - 1,
            }
        } else if c == '\n' {
            CommentScan { input: rest, pos: next_line(p1), text: t1, level: s.level }
        } else {
            CommentScan { input: rest, pos: p1, text: t1, level: s.level }
        };
        assert(s2.input =~= s.input.skip(k));
        let head = s.input.take(k);
        assert(s.input =~= head + s2.input);
        assert(nesting_change(head) == s2.level - s.level) by {
            reveal_with_fuel(nesting_change, 2);
            assert(head[0] == c);
            if pair {
                assert(head[1] == rest[0]);
                assert(head.skip(2) =~= Seq::<char>::empty());
            } else {
                assert(head.drop_first() =~= Seq::<char>::empty());
            }
        }
        if s2.level == 0 {
            assert(s.input =~= head + s2.input);
        } else {
            law_comment_level_counts_nesting(s2);
            let b = block_loop(s2);
            let n2 = s2.input.len() - b.input.len();
            let mid = s2.input.take(n2);
            let n = s.input.len() - b.input.len();
            assert(s.input.take(n) =~= head + mid);
            assert(s2.input == mid + b.input);
            assert(s.input =~= head + (mid + b.input));
            assert(s.input =~= head + mid + b.input);
            assert(nesting_change(head + mid) == nesting_change(head) + nesting_change(mid)) by {
                if pair {
                    assert((head + mid).skip(2) =~= mid);
                } else {
                    assert((head + mid).drop_first() =~= mid);
                    if mid.len() > 0 {
                        assert((head + mid)[1] == mid[0]);
                        assert(mid[0] == s.input[1]);
                    }
                }
            }
        }
    }
}

/// A tracked text with `t` appended to it.
pub open spec fn appended(last: Option<Seq<char>>, t: Seq<char>) -> Option<Seq<char>> {
    match last {
        Some(l) => Some(l + t),
        None => None,
    }
}

/// Going from `input` and the tracked text `last` to `input2` and `last2` reads a prefix of
/// `input` and appends just that prefix to the tracked text.
pub open spec fn read_on(
    input: Seq<char>,
    last: Option<Seq<char>>,
    input2: Seq<char>,
    last2: Option<Seq<char>>,
) -> bool {
    let k = input.len() - input2.len();
    &&& 0 <= k <= input.len()
    &&& input == input.take(k) + input2
    &&& last2 == appended(last, input.take(k))
}

proof fn lemma_read_on_refl(input: Seq<char>, last: Option<Seq<char>>)
    ensures
        read_on(input, last, input, last),
{
    assert(input.take(0) =~= Seq::<char>::empty());
    assert(input =~= input.take(0) + input);
    if let Some(l) = last {
        assert(l + input.take(0) =~= l);
    }
}

proof fn lemma_read_on_step(input: Seq<char>, last: Option<Seq<char>>)
    requires
        input.len() > 0,
    ensures
        read_on(input, last, input.drop_first(), push_last(last, input[0])),
{
    assert(input.take(1) =~= seq![input[0]]);
    assert(input =~= input.take(1) + input.drop_first());
    if let Some(l) = last {
        assert(l + input.take(1) =~= l.push(input[0]));
    }
}

proof fn lemma_read_on_trans(
    a: Seq<char>,
    la: Option<Seq<char>>,
    b: Seq<char>,
    lb: Option<Seq<char>>,
    c: Seq<char>,
    lc: Option<Seq<char>>,
)
    requires
        read_on(a, la, b, lb),
        read_on(b, lb, c, lc),
    ensures
        read_on(a, la, c, lc),
{
    let k1 = a.len() - b.len();
    let k2 = b.len() - c.len();
    let k = a.len() - c.len();
    assert(a.take(k) =~= a.take(k1) + b.take(k2)) by {
        assert(a =~= a.take(k1) + (b.take(k2) + c));
    }
    assert(a =~= a.take(k) + c);
    if let Some(l) = la {
        assert(l + a.take(k1) + b.take(k2) =~= l + a.take(k));
    }
}

/// Reading the digits of an escape appends what it reads to the tracked text.
proof fn lemma_hex_escape_reads(h: HexScan, n: nat)
    ensures
        match hex_escape(h, n) {
            HexOutcome::Value(h2) => read_on(h.input, h.last, h2.input, h2.last),
            HexOutcome::Bad(h2) => read_on(h.input, h.last, h2.input, h2.last),
        },
    decreases n,
{
    if n == 0 || h.input.len() == 0 {
        lemma_read_on_refl(h.input, h.last);
    } else {
        let c = h.input[0];
        let h1 = HexScan {
            input: h.input.drop_first(),
            pos: advanced(h.pos),
            last: push_last(h.last, c),
            seq: h.seq.push(c),
            val: h.val,
        };
        lemma_read_on_step(h.input, h.last);
        if let Some(d) = hex_value(c) {
            let h3 = HexScan { val: h1.val * 16 + d, ..h1 };
            lemma_hex_escape_reads(h3, (n - 1) as nat);
            match hex_escape(h3, (n - 1) as nat) {
                HexOutcome::Value(h2) => lemma_read_on_trans(h.input, h.last, h1.input, h1.last, h2.input, h2.last),
                HexOutcome::Bad(h2) => lemma_read_on_trans(h.input, h.last, h1.input, h1.last, h2.input, h2.last),
            }
        }
    }
}

/// A string literal scan appends every character it reads to the tracked text.
proof fn lemma_str_loop_reads(s: StrScan, p: StrParams)
    ensures
        match str_loop(s, p) {
            StrOutcome::Ended(r, _) => read_on(s.input, s.last, r.input, r.last),
            StrOutcome::Failed(_, _, r) => read_on(s.input, s.last, r.input, r.last),
            StrOutcome::Panicked => true,
        },
    decreases s.input.len(),
{
    if s.input.len() == 0 {
        lemma_read_on_refl(s.input, s.last);
    } else {
        let c = s.input[0];
        let s1 = StrScan {
            input: s.input.drop_first(),
            pos: advanced(s.pos),
            last: push_last(s.last, c),
            continued: false,
            ..s
        };
        lemma_read_on_step(s.input, s.last);
        if !(p.interp && c == '$' && !s.escape && first_of(s1.input) == Some('{')) && !too_long(
            s.result,
            p.max,
        ) && !(c == p.term && !s.escape && first_of(s1.input) != Some(p.term)) {
            let s2 = if c == p.term && !s.escape {
                StrScan {
                    input: s1.input.drop_first(),
                    pos: advanced(s1.pos),
                    last: push_last(s1.last, p.term),
                    ..s1
                }
            } else {
                s1
            };
            if c == p.term && !s.escape {
                lemma_read_on_step(s1.input, s1.last);
                lemma_read_on_trans(s.input, s.last, s1.input, s1.last, s2.input, s2.last);
            }
            let s3 = if s2.first_char.line == 0 && s2.first_char.pos == 0 {
                StrScan { first_char: s2.pos, ..s2 }
            } else {
                s2
            };
            let h0 = HexScan { input: s3.input, pos: s3.pos, last: s3.last, seq: seq!['\\', c], val: 0 };
            if (c == 'x' || c == 'u' || c == 'U') && s3.escape {
                lemma_hex_escape_input(h0, hex_len(c));
                lemma_hex_escape_reads(h0, hex_len(c));
            } else {
                lemma_read_on_refl(s3.input, s3.last);
            }
            match str_char_step(c, s3, p) {
                StrStep::Next(s4) => {
                    assert(read_on(s3.input, s3.last, s4.input, s4.last));
                    lemma_read_on_trans(s.input, s.last, s3.input, s3.last, s4.input, s4.last);
                    lemma_str_loop_reads(s4, p);
                    match str_loop(s4, p) {
                        StrOutcome::Ended(r, _) => lemma_read_on_trans(s.input, s.last, s4.input, s4.last, r.input, r.last),
                        StrOutcome::Failed(_, _, r) => lemma_read_on_trans(s.input, s.last, s4.input, s4.last, r.input, r.last),
                        StrOutcome::Panicked => {},
                    }
                },
                StrStep::Stop(_, _, s4) => {
                    assert(read_on(s3.input, s3.last, s4.input, s4.last));
                    lemma_read_on_trans(s.input, s.last, s3.input, s3.last, s4.input, s4.last);
                },
                StrStep::Panic => {},
            }
        }
    }
}

/// The text tracked for a string literal, when it is tracked, ends up as the opening quote
/// followed by every character that reading the literal consumed, whether it ends with the text
/// or with an error; the input left follows what was consumed.
pub proof fn law_string_tracks_read_text(
    input: Seq<char>,
    pos: Position,
    last: Option<Seq<char>>,
    term: char,
    verbatim: bool,
    cont: bool,
    interp: bool,
    max: Option<usize>,
)
    ensures
        match string_literal(input, pos, last, term, verbatim, cont, interp, max) {
            StrOutcome::Ended(r, _) => read_on(input, reset_last(last, seq![term]), r.input, r.last),
            StrOutcome::Failed(_, _, r) => read_on(input, reset_last(last, seq![term]), r.input, r.last),
            StrOutcome::Panicked => true,
        },
{
    let p = StrParams { term, verbatim, cont, interp, max, start: pos };
    let init = StrScan {
        input,
        pos,
        result: seq![],
        escape: false,
        first_char: Position { line: 0, pos: 0 },
        skip_space_until: 0,
        continued: false,
        within: Some(seq![term]),
        last: reset_last(last, seq![term]),
    };
    lemma_str_loop_reads(init, p);
}

/// Does a `"` at index `i` of `u`, followed by `n` `#` characters inside `u`, close a raw string
/// opened with `n` `#` characters?
pub open spec fn closes_at(u: Seq<char>, i: int, n: nat) -> bool {
    &&& 0 <= i
    &&& i + n < u.len()
    &&& u[i] == '"'
    &&& forall|j: int| i < j <= i + n ==> #[trigger] u[j] == '#'
}

/// The text of a `"` and the `#` characters seen after it that wait for the rest of a closing.
pub open spec fn pending(seen: Option<nat>) -> Seq<char> {
    match seen {
        Some(k) => seq!['"'] + hashes(k),
        None => seq![],
    }
}

/// Reading the last `#` characters of a closing ends a raw string there.
proof fn lemma_raw_closing(sc: RawScan, i: nat, n: nat, rest: Seq<char>, start: Position)
    requires
        sc.seen == Some(i),
        i < n,
        sc.input == hashes((n - i) as nat) + rest,
    ensures
        raw_loop(sc, n, None, start) matches RawOutcome::Ended(r) && r.result == sc.result
            && r.input == rest && r.within is None,
    decreases n - i,
{
    assert(sc.input[0] == '#');
    let s1 = RawScan { input: sc.input.drop_first(), pos: advanced(sc.pos), ..sc };
    if i + 1 == n {
        assert(s1.input =~= rest);
    } else {
        let s2 = RawScan { seen: Some((i + 1) as nat), ..s1 };
        let s3 = if s2.first_char.line == 0 && s2.first_char.pos == 0 {
            RawScan { first_char: s2.pos, ..s2 }
        } else {
            s2
        };
        assert(s1.input =~= hashes((n - (i + 1)) as nat) + rest);
        lemma_raw_closing(s3, (i + 1) as nat, n, rest, start);
    }
}

/// Reading a raw string body `t` that holds no closing, then its closing, gives the body after
/// what was read before, and leaves the input that follows the closing.
proof fn lemma_raw_body(sc: RawScan, t: Seq<char>, rest: Seq<char>, n: nat, start: Position)
    requires
        n >= 1,
        sc.input == t + seq!['"'] + hashes(n) + rest,
        sc.seen matches Some(k) ==> k < n,
        forall|i: int| !closes_at(pending(sc.seen) + t, i, n),
    ensures
        raw_loop(sc, n, None, start) matches RawOutcome::Ended(r) && r.result == sc.result + pending(
            sc.seen,
        ) + t && r.input == rest && r.within is None,
    decreases t.len(),
{
    let c = sc.input[0];
    let s1 = RawScan { input: sc.input.drop_first(), pos: advanced(sc.pos), ..sc };
    if t.len() == 0 {
        assert(c == '"');
        let s2 = match sc.seen {
            None => RawScan { seen: Some(0), ..s1 },
            Some(k) => RawScan { result: s1.result.push('"') + hashes(k), seen: Some(0), ..s1 },
        };
        let s3 = if s2.first_char.line == 0 && s2.first_char.pos == 0 {
            RawScan { first_char: s2.pos, ..s2 }
        } else {
            s2
        };
        assert(s1.input =~= hashes(n) + rest);
        lemma_raw_closing(s3, 0, n, rest, start);
        assert(sc.result + pending(sc.seen) + t =~= s3.result);
    } else {
        let u = pending(sc.seen) + t;
        let t2 = t.drop_first();
        assert(c == t[0]);
        assert(s1.input =~= t2 + seq!['"'] + hashes(n) + rest);
        if let Some(k) = sc.seen {
            if c == '#' && k + 1 == n {
                assert(closes_at(u, 0, n)) by {
                    assert forall|j: int| 0 < j <= 0 + n implies #[trigger] u[j] == '#' by {
                        if j <= k {
                            assert(u[j] == hashes(k)[j - 1]);
                        } else {
                            assert(u[j] == t[0]);
                        }
                    }
                }
                assert(false);
            }
        }
        let s2 = match sc.seen {
            None => if c == '"' {
                RawScan { seen: Some(0), ..s1 }
            } else if c == '\n' {
                RawScan { result: s1.result.push('\n'), pos: next_line(s1.pos), ..s1 }
            } else {
                RawScan { result: s1.result.push(c), ..s1 }
            },
            Some(k) => if c == '"' {
                RawScan { result: s1.result.push('"') + hashes(k), seen: Some(0), ..s1 }
            } else if c == '#' {
                RawScan { seen: Some(k + 1), ..s1 }
            } else {
                RawScan { result: (s1.result.push('"') + hashes(k)).push(c), seen: None, ..s1 }
            },
        };
        let s3 = if s2.first_char.line == 0 && s2.first_char.pos == 0 {
            RawScan { first_char: s2.pos, ..s2 }
        } else {
            s2
        };
        let u2 = pending(s3.seen) + t2;
        // The text still to come after this step is what was still to come before, from some
        // point on, so it holds no closing either.
        let d: int = u.len() - u2.len();
        assert(0 <= d);
        assert(u2 =~= u.skip(d)) by {
            match sc.seen {
                None => {
                    if c == '"' {
                        assert(u2 =~= t);
                    } else {
                        assert(u2 =~= t2);
                    }
                },
                Some(k) => {
                    if c == '"' {
                        assert(u2 =~= seq!['"'] + t2);
                    } else if c == '#' {
                        assert(hashes(k + 1) =~= hashes(k).push('#'));
                        assert(u2 =~= u);
                    } else {
                        assert(u2 =~= t2);
                    }
                },
            }
        }
        assert forall|i: int| !closes_at(u2, i, n) by {
            if closes_at(u2, i, n) {
                assert forall|j: int| i + d < j <= i + d + n implies #[trigger] u[j] == '#' by {
                    assert(u[j] == u2[j - d]);
                }
                assert(closes_at(u, i + d, n));
            }
        }
        assert(sc.result + u =~= s3.result + u2) by {
            match sc.seen {
                None => {
                    if c == '"' {
                    } else {
                    }
                },
                Some(k) => {
                    if c == '#' {
                        assert(hashes(k + 1) =~= hashes(k).push('#'));
                    }
                },
            }
        }
        if let Some(k) = s3.seen {
            if k >= n {
                assert(closes_at(u2, 0, n)) by {
                    assert forall|j: int| 0 < j <= 0 + n implies #[trigger] u2[j] == '#' by {
                        assert(u2[j] == hashes(k)[j - 1]);
                    }
                }
            }
        }
        lemma_raw_body(s3, t2, rest, n, start);
    }
}

/// Raw quoting a text and reading it back gives the text: a body that holds no `"` followed by
/// `n` `#` characters, closed by `"` and `n` `#` characters (the opening having been read), is
/// read as that body, leaves nothing open, and leaves the input after the closing unread.
pub proof fn law_raw_string_round_trip(
    body: Seq<char>,
    n: nat,
    rest: Seq<char>,
    pos: Position,
    within: Option<Seq<char>>,
    last: Option<Seq<char>>,
)
    requires
        n >= 1,
        forall|i: int| !closes_at(body, i, n),
    ensures
        raw_string_literal(body + seq!['"'] + hashes(n) + rest, pos, within, last, n, None) matches RawOutcome::Ended(
            r,
        ) && r.result == body && r.input == rest && r.within is None,
{
    let input = body + seq!['"'] + hashes(n) + rest;
    let init = RawScan {
        input,
        pos,
        result: seq![],
        seen: None,
        first_char: Position { line: 0, pos: 0 },
        within: Some(hashes(n)),
        last: reset_last(last, hashes(n).push('"')),
    };
    assert(pending(None) + body =~= body);
    lemma_raw_body(init, body, rest, n, pos);
    assert(Seq::<char>::empty() + pending(None) + body =~= body);
}

/// One call of `get_next` as its contract fixes it, over the characters that remain before and
/// after it and what it returns: the first remaining character, dropped from the stream; or,
/// when nothing remains, `None`, with the stream left as it was.
pub open spec fn reads_one(before: Seq<char>, after: Seq<char>, r: Option<char>) -> bool {
    &&& before.len() == 0 ==> r is None && after == before
    &&& before.len() > 0 ==> r == Some(before[0]) && after == before.drop_first()
}

/// After `k` reads of a run, what remains is what remained at the start less its first `k`
/// characters (all of them, once `k` is past the end).
proof fn lemma_run_remaining(runs: Seq<Seq<char>>, results: Seq<Option<char>>, k: int)
    requires
        runs.len() == results.len() + 1,
        forall|i: int| 0 <= i < results.len() ==> #[trigger] reads_one(runs[i], runs[i + 1], results[i]),
        0 <= k <= results.len(),
    ensures
        runs[k] == runs[0].skip(if k < runs[0].len() { k } else { runs[0].len() as int }),
    decreases k,
{
    if k == 0 {
        assert(runs[0].skip(0) =~= runs[0]);
    } else {
        lemma_run_remaining(runs, results, k - 1);
        let j = k - 1;
        assert(reads_one(runs[j], runs[j + 1], results[j]));
        if j < runs[0].len() {
            assert(runs[k - 1].drop_first() =~= runs[0].skip(k));
        }
    }
}

/// Over a whole run of reads, an input stream yields every character that remained at the start,
/// in order, and then `None` on every later call: `runs[i]` is what remains before the `i`-th
/// call of `get_next` (and `runs[i + 1]` after it), `results[i]` what that call returned.
pub proof fn law_stream_yields_all_then_none(runs: Seq<Seq<char>>, results: Seq<Option<char>>)
    requires
        runs.len() == results.len() + 1,
        forall|i: int| 0 <= i < results.len() ==> #[trigger] reads_one(runs[i], runs[i + 1], results[i]),
    ensures
        forall|i: int|
            0 <= i < results.len() ==> #[trigger] results[i] == if i < runs[0].len() {
                Some(runs[0][i])
            } else {
                None::<char>
            },
        results.len() >= runs[0].len() ==> runs[results.len() as int].len() == 0,
{
    assert forall|i: int| 0 <= i < results.len() implies #[trigger] results[i] == if i < runs[0].len() {
        Some(runs[0][i])
    } else {
        None::<char>
    } by {
        lemma_run_remaining(runs, results, i);
        assert(reads_one(runs[i], runs[i + 1], results[i]));
    }
    lemma_run_remaining(runs, results, results.len() as int);
}

/// A block comment scan appends to the comment text, when one is kept, exactly the characters it
/// read; it stops either just after the `*/` that brings the level to zero or at the end of the
/// input, where the level is left as it stands.
pub proof fn law_comment_text_and_stop(s: CommentScan)
    ensures
        ({
            let b = block_loop(s);
            let n = s.input.len() - b.input.len();
            &&& s.input == s.input.take(n) + b.input
            &&& s.text matches Some(t) ==> b.text == Some(t + s.input.take(n))
            &&& s.text is None ==> b.text is None
            &&& b.level != 0 ==> b.input.len() == 0
            &&& s.level >= 1 && b.level == 0 ==> n >= 2 && s.input[n - 2] == '*' && s.input[n - 1]
                == '/'
        }),
    decreases s.input.len(),
{
    law_comment_level_counts_nesting(s);
    if s.input.len() > 0 {
        let c = s.input[0];
        let rest = s.input.drop_first();
        let p1 = advanced(s.pos);
        let t1 = push_last(s.text, c);
        let pair = (c == '/' && first_of(rest) == Some('*')) || (c == '*' && first_of(rest) == Some('/'));
        let k: int = if pair { 2 } else { 1 };
        let s2 = if c == '/' && first_of(rest) == Some('*') {
            CommentScan {
                input: rest.drop_first(),
                pos: advanced(p1),
                text: push_last(t1, '*'),
                level: s.level + 1,
            }
        } else if c == '*' && first_of(rest) == Some('/') {
            CommentScan {
                input: rest.drop_first(),
                pos: advanced(p1),
                text: push_last(t1, '/'),
                level: s.level - 1,
            }
        } else if c == '\n' {
            CommentScan { input: rest, pos: next_line(p1), text: t1, level: s.level }
        } else {
            CommentScan { input: rest, pos: p1, text: t1, level: s.level }
        };
        let head = s.input.take(k);
        assert(s2.input =~= s.input.skip(k));
        if let Some(t) = s.text {
            assert(s2.text->0 =~= t + head);
        }
        if s2.level == 0 {
            if s.level >= 1 {
                assert(pair && c == '*');
            }
        } else {
            law_comment_text_and_stop(s2);
            let b = block_loop(s2);
            let n2 = s2.input.len() - b.input.len();
            let mid = s2.input.take(n2);
            let n = s.input.len() - b.input.len();
            assert(s.input.take(n) =~= head + mid);
            if let Some(t) = s.text {
                assert(t + s.input.take(n) =~= (t + head) + mid);
            }
            if s.level >= 1 && b.level == 0 {
                assert(s2.level >= 1);
                assert(s.input[n - 2] == s2.input[n2 - 2]);
                assert(s.input[n - 1] == s2.input[n2 - 1]);
            }
        }
    }
}

/// The number of leading digits of a run of digits followed by a non-digit is the run's length.
proof fn lemma_digit_run_prefix(a: Seq<char>, x: Seq<char>)
    requires
        all_digits(a),
        x.len() > 0,
        !('0' <= x[0] && x[0] <= '9'),
    ensures
        digit_run(a + x) == a.len(),
    decreases a.len(),
{
    if a.len() == 0 {
        assert(a + x =~= x);
    } else {
        assert(all_digits(a.drop_first())) by {
            assert forall|i: int| 0 <= i < a.drop_first().len() implies '0' <= #[trigger] a.drop_first()[i]
                && a.drop_first()[i] <= '9' by {
                assert(a.drop_first()[i] == a[i + 1]);
            }
        }
        lemma_digit_run_prefix(a.drop_first(), x);
        assert((a + x).drop_first() =~= a.drop_first() + x);
    }
}

/// A text holding a character that is no decimal digit has no decimal value.
proof fn lemma_digits_value_non_digit(s: Seq<char>, k: int)
    requires
        0 <= k < s.len(),
        !('0' <= s[k] && s[k] <= '9'),
    ensures
        digits_value(s, 10) is None,
    decreases s.len(),
{
    if k == s.len() - 1 {
        assert(digit_value(s.last(), 10) is None);
    } else {
        assert(s.drop_last()[k] == s[k]);
        lemma_digits_value_non_digit(s.drop_last(), k);
    }
}

/// A number scan reads a run of decimal digits and then goes on with what follows them.
proof fn lemma_num_loop_digits_then(n: NumScan, first: char, ds: Seq<char>, rest: Seq<char>)
    requires
        n.input == ds + rest,
        all_digits(ds),
        n.radix is None,
    ensures
        num_loop(n, first) == num_loop(
            NumScan { input: rest, pos: advanced_by(n.pos, ds.len()), result: n.result + ds, ..n },
            first,
        ),
    decreases ds.len(),
{
    if ds.len() == 0 {
        assert(n.input =~= rest);
        assert(n.result + ds =~= n.result);
    } else {
        let nc = n.input[0];
        assert(nc == ds[0]);
        let eaten = NumScan {
            input: n.input.drop_first(),
            pos: advanced(n.pos),
            result: n.result.push(nc),
            ..n
        };
        let ds2 = ds.drop_first();
        assert(all_digits(ds2)) by {
            assert forall|i: int| 0 <= i < ds2.len() implies '0' <= #[trigger] ds2[i] && ds2[i] <= '9' by {
                assert(ds2[i] == ds[i + 1]);
            }
        }
        assert(eaten.input =~= ds2 + rest);
        lemma_num_loop_digits_then(eaten, first, ds2, rest);
        assert(n.result.push(nc) + ds2 =~= n.result + ds);
        lemma_advanced_by_first(n.pos, ds.len());
    }
}

/// Moving on by `k + 1` columns is moving on by one, then by `k`.
proof fn lemma_advanced_by_first(p: Position, n: nat)
    requires
        n > 0,
    ensures
        advanced_by(advanced(p), (n - 1) as nat) == advanced_by(p, n),
    decreases n,
{
    if n > 1 {
        lemma_advanced_by_first(p, (n - 1) as nat);
        assert(advanced_by(advanced(p), (n - 1) as nat) == advanced(
            advanced_by(advanced(p), (n - 2) as nat),
        ));
        assert(advanced_by(p, n) == advanced(advanced_by(p, (n - 1) as nat)));
    } else {
        assert(advanced_by(p, 1) == advanced(advanced_by(p, 0)));
    }
}

/// A decimal number written with an exponent is read whole as a floating-point number, whichever
/// case its exponent marker has: digits `a`, `e` or `E`, and digits `b` give the floating-point
/// constant `a`, `e`, `b` at the first position, and nothing of the input is left.
#[verifier::spinoff_prover]
pub proof fn law_float_exponent_read_back(
    a: Seq<char>,
    m: char,
    b: Seq<char>,
    pos: Position,
    cfg: LexConfig,
)
    requires
        a.len() > 0,
        all_digits(a),
        b.len() > 0,
        all_digits(b),
        m == 'e' || m == 'E',
    ensures
        next_token(
            LexScan { input: a + seq![m] + b, pos, negated: None, level: 0, within: None, last: None },
            cfg,
        ) matches LexOutcome::Token(t, p, s2) && t == TokenOf::<Seq<char>>::FloatConstant(
            a + seq!['e'] + b,
        ) && p == advanced(pos) && s2.input.len() == 0,
{
    reveal(resume);
    let input = a + seq![m] + b;
    let c = a[0];
    let ds = a.drop_first();
    assert(all_digits(ds)) by {
        assert forall|i: int| 0 <= i < ds.len() implies '0' <= #[trigger] ds[i] && ds[i] <= '9' by {
            assert(ds[i] == a[i + 1]);
        }
    }
    let tail = seq![m] + b;
    assert(input.drop_first() =~= ds + tail);
    assert(input[0] == c);
    assert('0' <= c <= '9');
    let n0 = NumScan {
        input: ds + tail,
        pos: advanced(pos),
        result: seq![c],
        radix: None,
        has_period: false,
        has_e: false,
    };
    lemma_num_loop_digits_then(n0, c, ds, tail);
    assert(seq![c] + ds =~= a);
    let n1 = NumScan { input: tail, pos: advanced_by(advanced(pos), ds.len()), result: a, ..n0 };
    assert(tail[0] == m);
    assert(tail.drop_first() =~= b);
    assert(first_of(tail.drop_first()) == Some(b[0]));
    assert('0' <= b[0] <= '9');
    let n2 = NumScan {
        input: b,
        pos: advanced(n1.pos),
        result: a.push('e'),
        has_e: true,
        has_period: true,
        ..n1
    };
    assert(num_loop(n1, c) == num_loop(n2, c));
    lemma_num_loop_digits(n2, c);
    let text = a + seq!['e'] + b;
    assert(a.push('e') + b =~= text);
    let n = number_scan(c, ds + tail, advanced(pos));
    assert(n.result == text);
    assert(n.input.len() == 0);
    assert(n.radix is None);
    // not an integer: the `e` is no digit
    assert(text[a.len() as int] == 'e');
    lemma_digits_value_non_digit(text, a.len() as int);
    assert(!(text[0] == '-' || text[0] == '+'));
    assert(parse_signed(text) is None);
    // a decimal number with an exponent
    let after = seq!['e'] + b;
    assert(text =~= a + after);
    lemma_digit_run_prefix(a, after);
    assert(text.skip(a.len() as int) =~= after);
    assert(after.drop_first() =~= b);
    assert(is_exponent(after));
    assert(is_decimal_number(text));
    assert(is_float_text(text));
    assert(number_token(text, None) == TokenOf::<Seq<char>>::FloatConstant(text));
    let s0 = LexScan { input, pos, negated: None, level: 0, within: None, last: None };
    assert(lex_step(s0, cfg) == number_step(c, LexScan { input: ds + tail, pos: advanced(pos), ..s0 }));
    assert(lex_loop(s0, cfg) == LexOutcome::Token(
        TokenOf::<Seq<char>>::FloatConstant(text),
        advanced(pos),
        LexScan { input: n.input, pos: n.pos, last: None, ..s0 },
    ));
    assert(reset_last(None, seq![]) == None::<Seq<char>>);
    assert(next_token(s0, cfg) == lex_loop(s0, cfg));
}

/// How a quoted string literal writes the character `c`: `\`, `"`, a line feed, a carriage
/// return and a tab as the escapes `\\`, `\"`, `\n`, `\r` and `\t`; any other character as
/// itself.
pub open spec fn escaped_char(c: char) -> Seq<char> {
    if c == '\\' {
        seq!['\\', '\\']
    } else if c == '"' {
        seq!['\\', '"']
    } else if c == '\n' {
        seq!['\\', 'n']
    } else if c == '\r' {
        seq!['\\', 'r']
    } else if c == '\t' {
        seq!['\\', 't']
    } else {
        seq![c]
    }
}

/// How a quoted string literal writes the text `t`, character by character.
pub open spec fn escaped_text(t: Seq<char>) -> Seq<char>
    decreases t.len(),
{
    if t.len() == 0 {
        seq![]
    } else {
        escaped_char(t[0]) + escaped_text(t.drop_first())
    }
}

/// The scan state after the character `c` at the head of `s` is read, before it is interpreted
/// (as `str_loop` takes it, for a character that neither ends nor interpolates the literal).
pub open spec fn read_head(s: StrScan) -> StrScan {
    let s1 = StrScan {
        input: s.input.drop_first(),
        pos: advanced(s.pos),
        last: push_last(s.last, s.input[0]),
        continued: false,
        ..s
    };
    if s1.first_char.line == 0 && s1.first_char.pos == 0 {
        StrScan { first_char: s1.pos, ..s1 }
    } else {
        s1
    }
}

/// Reading the escaped form of a text, closed by `"`, adds the text itself to the string read
/// so far, and stops just after the closing quote.
#[verifier::spinoff_prover]
proof fn lemma_escaped_loop(s: StrScan, p: StrParams, t: Seq<char>, rest: Seq<char>)
    requires
        p.term == '"',
        !p.verbatim,
        !p.interp,
        p.max is None,
        !s.escape,
        s.skip_space_until == 0,
        s.input == escaped_text(t) + seq!['"'] + rest,
        rest.len() == 0 || rest[0] != '"',
    ensures
        str_loop(s, p) matches StrOutcome::Ended(r, false) && r.result == s.result + t && r.input
            == rest && r.within is None,
    decreases t.len(),
{
    if t.len() == 0 {
        assert(s.input =~= seq!['"'] + rest);
        assert(s.input.drop_first() =~= rest);
        assert(s.result + t =~= s.result);
    } else {
        let c0 = t[0];
        let e = escaped_char(c0);
        let t2 = t.drop_first();
        let more = escaped_text(t2) + seq!['"'] + rest;
        assert(s.input =~= e + more);
        if e.len() == 1 {
            assert(s.input[0] == c0);
            assert(s.input.drop_first() =~= more);
            let s3 = read_head(s);
            let s4 = StrScan { escape: false, result: s3.result.push(c0), skip_space_until: 0, ..s3 };
            assert(str_char_step(c0, s3, p) == StrStep::Next(s4));
            assert(str_loop(s, p) == str_loop(s4, p));
            lemma_escaped_loop(s4, p, t2, rest);
            assert(s.result.push(c0) + t2 =~= s.result + t);
        } else {
            let d = e[1];
            assert(s.input[0] == '\\');
            assert(s.input.drop_first() =~= seq![d] + more);
            let s3 = read_head(s);
            let sa = StrScan { escape: true, ..s3 };
            assert(str_char_step('\\', s3, p) == StrStep::Next(sa));
            assert(str_loop(s, p) == str_loop(sa, p));
            assert(sa.input[0] == d);
            assert(sa.input.drop_first() =~= more);
            let sb = read_head(sa);
            let sc = StrScan { escape: false, result: sb.result.push(c0), ..sb };
            assert(str_char_step(d, sb, p) == StrStep::Next(sc));
            assert(str_loop(sa, p) == str_loop(sc, p));
            lemma_escaped_loop(sc, p, t2, rest);
            assert(s.result.push(c0) + t2 =~= s.result + t);
        }
    }
}

/// Reading back a text written as a quoted string literal gives the text: each escape stands
/// for the one character it was written for, the literal ends at its closing quote, and the
/// input after that quote is left unread.
pub proof fn law_string_escape_round_trip(
    t: Seq<char>,
    rest: Seq<char>,
    pos: Position,
    last: Option<Seq<char>>,
    cont: bool,
)
    requires
        rest.len() == 0 || rest[0] != '"',
    ensures
        string_literal(escaped_text(t) + seq!['"'] + rest, pos, last, '"', false, cont, false, None)
            matches StrOutcome::Ended(r, false) && r.result == t && r.input == rest && r.within is None,
{
    let p = StrParams { term: '"', verbatim: false, cont, interp: false, max: None, start: pos };
    let init = StrScan {
        input: escaped_text(t) + seq!['"'] + rest,
        pos,
        result: seq![],
        escape: false,
        first_char: Position { line: 0, pos: 0 },
        skip_space_until: 0,
        continued: false,
        within: Some(seq!['"']),
        last: reset_last(last, seq!['"']),
    };
    lemma_escaped_loop(init, p, t, rest);
    assert(Seq::<char>::empty() + t =~= t);
}

/// A run made only of decimal digits is all leading digits.
proof fn lemma_digit_run_all(a: Seq<char>)
    requires
        all_digits(a),
    ensures
        digit_run(a) == a.len(),
    decreases a.len(),
{
    if a.len() > 0 {
        assert(all_digits(a.drop_first())) by {
            assert forall|i: int| 0 <= i < a.drop_first().len() implies '0' <= #[trigger] a.drop_first()[i]
                && a.drop_first()[i] <= '9' by {
                assert(a.drop_first()[i] == a[i + 1]);
            }
        }
        lemma_digit_run_all(a.drop_first());
    }
}

/// A decimal number written with a fraction is read whole as a floating-point number: digits
/// `a`, a point and digits `b` give the floating-point constant `a`, `.`, `b` at the first
/// position, and nothing of the input is left.
#[verifier::spinoff_prover]
pub proof fn law_float_fraction_read_back(a: Seq<char>, b: Seq<char>, pos: Position, cfg: LexConfig)
    requires
        a.len() > 0,
        all_digits(a),
        b.len() > 0,
        all_digits(b),
    ensures
        next_token(
            LexScan { input: a + seq!['.'] + b, pos, negated: None, level: 0, within: None, last: None },
            cfg,
        ) matches LexOutcome::Token(t, p, s2) && t == TokenOf::<Seq<char>>::FloatConstant(
            a + seq!['.'] + b,
        ) && p == advanced(pos) && s2.input.len() == 0,
{
    reveal(resume);
    let text = a + seq!['.'] + b;
    let c = a[0];
    let ds = a.drop_first();
    assert(all_digits(ds)) by {
        assert forall|i: int| 0 <= i < ds.len() implies '0' <= #[trigger] ds[i] && ds[i] <= '9' by {
            assert(ds[i] == a[i + 1]);
        }
    }
    let tail = seq!['.'] + b;
    assert(text.drop_first() =~= ds + tail);
    assert(text[0] == c);
    assert('0' <= c <= '9');
    let n0 = NumScan {
        input: ds + tail,
        pos: advanced(pos),
        result: seq![c],
        radix: None,
        has_period: false,
        has_e: false,
    };
    lemma_num_loop_digits_then(n0, c, ds, tail);
    assert(seq![c] + ds =~= a);
    let n1 = NumScan { input: tail, pos: advanced_by(advanced(pos), ds.len()), result: a, ..n0 };
    assert(tail[0] == '.');
    assert(tail.drop_first() =~= b);
    assert(first_of(tail.drop_first()) == Some(b[0]));
    assert('0' <= b[0] <= '9');
    let n2 = NumScan { input: b, pos: advanced(n1.pos), result: a.push('.'), has_period: true, ..n1 };
    assert(num_loop(n1, c) == num_loop(n2, c));
    lemma_num_loop_digits(n2, c);
    assert(a.push('.') + b =~= text);
    let n = number_scan(c, ds + tail, advanced(pos));
    assert(n.result == text);
    assert(text[a.len() as int] == '.');
    lemma_digits_value_non_digit(text, a.len() as int);
    assert(parse_signed(text) is None);
    lemma_digit_run_prefix(a, tail);
    assert(text =~= a + tail);
    assert(text.skip(a.len() as int) =~= tail);
    lemma_digit_run_all(b);
    assert(b.skip(b.len() as int) =~= Seq::<char>::empty());
    assert(is_decimal_number(text));
    assert(is_float_text(text));
    let s0 = LexScan { input: text, pos, negated: None, level: 0, within: None, last: None };
    assert(lex_step(s0, cfg) == number_step(c, LexScan { input: ds + tail, pos: advanced(pos), ..s0 }));
    assert(lex_loop(s0, cfg) == LexOutcome::Token(
        TokenOf::<Seq<char>>::FloatConstant(text),
        advanced(pos),
        LexScan { input: n.input, pos: n.pos, last: None, ..s0 },
    ));
    assert(reset_last(None, seq![]) == None::<Seq<char>>);
    assert(next_token(s0, cfg) == lex_loop(s0, cfg));
}

/// The hexadecimal digit (`0`-`9`, `a`-`f`) of a value below 16.
pub open spec fn hex_digit_char(d: nat) -> char {
    if d < 10 {
        ((d + '0' as u32) as u32) as char
    } else {
        ((d - 10 + 'a' as u32) as u32) as char
    }
}

/// The `n` hexadecimal digits of `v`, most significant first.
pub open spec fn hex_digits(v: nat, n: nat) -> Seq<char>
    decreases n,
{
    if n == 0 {
        seq![]
    } else {
        seq![hex_digit_char(v / pow16((n - 1) as nat))] + hex_digits(v % pow16((n - 1) as nat), (n - 1) as nat)
    }
}

proof fn lemma_hex_digit_char(d: nat)
    requires
        d < 16,
    ensures
        hex_value(hex_digit_char(d)) == Some(d as u32),
{
}

proof fn lemma_pow16_pos(n: nat)
    ensures
        pow16(n) > 0,
    decreases n,
{
    if n > 0 {
        lemma_pow16_pos((n - 1) as nat);
    }
}

/// Reading the `n` hexadecimal digits of `v` adds `v` to the value read so far, shifted by `n`
/// digits, and leaves the input after them.
proof fn lemma_hex_digits_read(h: HexScan, v: nat, n: nat, r: Seq<char>)
    requires
        v < pow16(n),
        h.input == hex_digits(v, n) + r,
    ensures
        hex_escape(h, n) matches HexOutcome::Value(h2) && h2.val == h.val * pow16(n) + v
            && h2.input == r,
    decreases n,
{
    if n == 0 {
        assert(h.input =~= r);
    } else {
        let m = (n - 1) as nat;
        let big = pow16(m);
        lemma_pow16_pos(m);
        let d = v / big;
        let low = v % big;
        vstd::arithmetic::div_mod::lemma_fundamental_div_mod(v as int, big as int);
        assert(d < 16) by (nonlinear_arith)
            requires
                v < 16 * big,
                big > 0,
                d == v / big,
        ;
        lemma_hex_digit_char(d);
        let c = h.input[0];
        assert(c == hex_digit_char(d));
        let h1 = HexScan {
            input: h.input.drop_first(),
            pos: advanced(h.pos),
            last: push_last(h.last, c),
            seq: h.seq.push(c),
            val: h.val * 16 + d,
        };
        assert(h1.input =~= hex_digits(low, m) + r);
        assert(low < big);
        lemma_hex_digits_read(h1, low, m, r);
        assert((h.val * 16 + d) * big + low == h.val * (16 * big) + v) by (nonlinear_arith)
            requires
                v == big * d + low,
        ;
    }
}

/// A `\x`, `\u` or `\U` escape holding the hexadecimal digits of a character stands for that
/// character: reading back `\` and the escape letter, then the `n` digits of `ch`'s code (two
/// for `x`, four for `u`, eight for `U`), closed by `"`, gives the text holding `ch` alone.
#[verifier::spinoff_prover]
pub proof fn law_hex_escape_read_back(
    k: char,
    n: nat,
    ch: char,
    rest: Seq<char>,
    pos: Position,
    last: Option<Seq<char>>,
    cont: bool,
)
    requires
        (k == 'x' && n == 2) || (k == 'u' && n == 4) || (k == 'U' && n == 8),
        (ch as u32) < pow16(n),
        rest.len() == 0 || rest[0] != '"',
    ensures
        string_literal(
            seq!['\\', k] + hex_digits(ch as nat, n) + seq!['"'] + rest,
            pos,
            last,
            '"',
            false,
            cont,
            false,
            None,
        ) matches StrOutcome::Ended(r, false) && r.result == seq![ch] && r.input == rest,
{
    assert(hex_len(k) == n);
    let digits = hex_digits(ch as nat, n);
    let input = seq!['\\', k] + digits + seq!['"'] + rest;
    let p = StrParams { term: '"', verbatim: false, cont, interp: false, max: None, start: pos };
    let s = StrScan {
        input,
        pos,
        result: seq![],
        escape: false,
        first_char: Position { line: 0, pos: 0 },
        skip_space_until: 0,
        continued: false,
        within: Some(seq!['"']),
        last: reset_last(last, seq!['"']),
    };
    assert(input[0] == '\\');
    let s3 = read_head(s);
    let sa = StrScan { escape: true, ..s3 };
    assert(str_char_step('\\', s3, p) == StrStep::Next(sa));
    assert(str_loop(s, p) == str_loop(sa, p));
    assert(sa.input =~= seq![k] + (digits + seq!['"'] + rest));
    assert(sa.input[0] == k);
    let sb = read_head(sa);
    assert(sb.input =~= digits + (seq!['"'] + rest));
    let h0 = HexScan { input: sb.input, pos: sb.pos, last: sb.last, seq: seq!['\\', k], val: 0 };
    lemma_hex_digits_read(h0, ch as nat, n, seq!['"'] + rest);
    assert(hex_len(k) == n);
    let h = hex_escape(h0, n)->Value_0;
    assert(h.val == h0.val * pow16(n) + ch as nat);
    assert(h0.val * pow16(n) == 0) by (nonlinear_arith)
        requires
            h0.val == 0,
    ;
    assert(h.val == ch as nat);
    assert(is_scalar_value(ch as u32));
    let sc = StrScan {
        input: h.input,
        pos: h.pos,
        last: h.last,
        escape: false,
        result: sb.result.push((h.val as u32) as char),
        ..sb
    };
    assert(str_char_step(k, sb, p) == StrStep::Next(sc));
    assert(str_loop(sa, p) == str_loop(sc, p));
    assert(sc.input =~= escaped_text(seq![]) + seq!['"'] + rest);
    lemma_escaped_loop(sc, p, seq![], rest);
    assert(((ch as nat) as u32) as char == ch);
    assert(sc.result + Seq::<char>::empty() =~= seq![ch]);
}

/// Is `c` an ASCII letter?
pub open spec fn ascii_letter(c: char) -> bool {
    ('a' <= c && c <= 'z') || ('A' <= c && c <= 'Z')
}

/// A word of ASCII letters, digits and `_` that starts with a letter, and is neither a keyword
/// or symbol nor reserved, is read back as an identifier with that name, whole.
pub proof fn law_identifier_read_back(s: Seq<char>, pos: Position, cfg: LexConfig)
    requires
        s.len() > 0,
        ascii_letter(s[0]),
        forall|i: int| 1 <= i < s.len() ==> ascii_letter(#[trigger] s[i]) || ('0' <= s[i] && s[i] <= '9')
            || s[i] == '_',
        symbol_from_syntax(s) is None,
        !reserved_info(s).0,
    ensures
        next_token(
            LexScan { input: s, pos, negated: None, level: 0, within: None, last: None },
            cfg,
        ) matches LexOutcome::Token(t, p, s2) && t == TokenOf::<Seq<char>>::Identifier(s) && p
            == advanced(pos) && s2.input.len() == 0,
{
    assert forall|i: int| 1 <= i < s.len() implies id_continue(#[trigger] s[i]) by {
        assert(ascii_letter(s[i]) || ('0' <= s[i] && s[i] <= '9') || s[i] == '_');
    }
    lemma_reads_word(s, pos, cfg);
    assert(leading_underscores(s) == 0);
    assert forall|j: int| 0 < j < s.len() implies ident_char(#[trigger] s[j]) by {
        assert(ascii_letter(s[j]) || ('0' <= s[j] && s[j] <= '9') || s[j] == '_');
    }
    assert(is_valid_identifier_spec(s));
}

/// The digits of `v` in base `r` (2 to 16), most significant first, with lower-case letters for
/// the digits from ten on.
pub open spec fn radix_digits(v: nat, r: nat) -> Seq<char>
    decreases v,
{
    if r < 2 || v < r {
        seq![hex_digit_char(v)]
    } else {
        proof {
            vstd::arithmetic::div_mod::lemma_div_decreases(v as int, r as int);
        }
        radix_digits(v / r, r).push(hex_digit_char(v % r))
    }
}

/// The digits of a value in base 2, 8 or 16 are digits of that base and have that value.
proof fn lemma_radix_digits(v: nat, r: nat)
    requires
        r == 2 || r == 8 || r == 16,
    ensures
        radix_digits(v, r).len() > 0,
        digits_value(radix_digits(v, r), r) == Some(v),
        forall|i: int| 0 <= i < radix_digits(v, r).len() ==> valid_digit(Some(r as u32), #[trigger] radix_digits(v, r)[i]),
    decreases v,
{
    if v < r {
        lemma_hex_digit_char(v);
        let s = radix_digits(v, r);
        assert(s.drop_last() =~= Seq::<char>::empty());
        assert(digits_value(Seq::<char>::empty(), r) == Some(0nat));
        assert(0 * r + v == v) by (nonlinear_arith);
    } else {
        vstd::arithmetic::div_mod::lemma_div_decreases(v as int, r as int);
        lemma_radix_digits(v / r, r);
        let d = v % r;
        vstd::arithmetic::div_mod::lemma_fundamental_div_mod(v as int, r as int);
        assert(d < r) by (nonlinear_arith)
            requires
                d == v % r,
                r > 0,
        ;
        lemma_hex_digit_char(d);
        let s0 = radix_digits(v / r, r);
        let s = radix_digits(v, r);
        assert(s.drop_last() =~= s0);
        assert((v / r) * r + d == v) by (nonlinear_arith)
            requires
                v == r * (v / r) + d,
        ;
        assert forall|i: int| 0 <= i < s.len() implies valid_digit(Some(r as u32), #[trigger] s[i]) by {
            if i < s0.len() {
                assert(s[i] == s0[i]);
            }
        }
    }
}

/// A number scan over digits valid in its radix reads them all.
proof fn lemma_num_loop_valid_digits(n: NumScan, first: char)
    requires
        forall|i: int| 0 <= i < n.input.len() ==> valid_digit(n.radix, #[trigger] n.input[i]),
    ensures
        num_loop(n, first).input.len() == 0,
        num_loop(n, first).result == n.result + n.input,
        num_loop(n, first).radix == n.radix,
    decreases n.input.len(),
{
    if n.input.len() == 0 {
        assert(n.result + n.input =~= n.result);
    } else {
        let nc = n.input[0];
        assert(valid_digit(n.radix, nc));
        let eaten = NumScan {
            input: n.input.drop_first(),
            pos: advanced(n.pos),
            result: n.result.push(nc),
            ..n
        };
        assert forall|i: int| 0 <= i < eaten.input.len() implies valid_digit(eaten.radix, #[trigger] eaten.input[i]) by {
            assert(eaten.input[i] == n.input[i + 1]);
        }
        lemma_num_loop_valid_digits(eaten, first);
        assert(n.result.push(nc) + n.input.drop_first() =~= n.result + n.input);
    }
}

/// An integer written in hexadecimal (`0x`), octal (`0o`) or binary (`0b`), with the prefix
/// letter in either case, is read back as that integer (taken as a signed 64-bit integer, as
/// the tokenizer keeps integers), whole.
#[verifier::spinoff_prover]
pub proof fn law_radix_integer_read_back(l: char, r: nat, v: u64, pos: Position, cfg: LexConfig)
    requires
        ((l == 'x' || l == 'X') && r == 16) || ((l == 'o' || l == 'O') && r == 8) || ((l == 'b'
            || l == 'B') && r == 2),
    ensures
        next_token(
            LexScan {
                input: seq!['0', l] + radix_digits(v as nat, r),
                pos,
                negated: None,
                level: 0,
                within: None,
                last: None,
            },
            cfg,
        ) matches LexOutcome::Token(t, p, s2) && t == TokenOf::<Seq<char>>::IntegerConstant(v as i64)
            && p == advanced(pos) && s2.input.len() == 0,
{
    reveal(resume);
    let ds = radix_digits(v as nat, r);
    lemma_radix_digits(v as nat, r);
    let text = seq!['0', l] + ds;
    assert(text[0] == '0');
    assert(text.drop_first() =~= seq![l] + ds);
    let n0 = NumScan {
        input: seq![l] + ds,
        pos: advanced(pos),
        result: seq!['0'],
        radix: None,
        has_period: false,
        has_e: false,
    };
    assert(n0.input[0] == l);
    assert(n0.input.drop_first() =~= ds);
    assert(radix_of(l) == r);
    let n1 = NumScan {
        input: ds,
        pos: advanced(advanced(pos)),
        result: seq!['0', l],
        radix: Some(r as u32),
        ..n0
    };
    assert(seq!['0'].push(l) =~= seq!['0', l]);
    assert(num_loop(n0, '0') == num_loop(n1, '0'));
    lemma_num_loop_valid_digits(n1, '0');
    let n = number_scan('0', seq![l] + ds, advanced(pos));
    assert(n.result == text);
    assert(n.radix == Some(r as u32));
    assert(text.skip(2) =~= ds);
    assert(parse_unsigned(ds, r) == Some(v));
    assert(number_token(text, Some(r as u32)) == TokenOf::<Seq<char>>::IntegerConstant(v as i64));
    let s0 = LexScan { input: text, pos, negated: None, level: 0, within: None, last: None };
    assert(lex_step(s0, cfg) == number_step('0', LexScan { input: seq![l] + ds, pos: advanced(pos), ..s0 }));
    assert(lex_loop(s0, cfg) == LexOutcome::Token(
        TokenOf::<Seq<char>>::IntegerConstant(v as i64),
        advanced(pos),
        LexScan { input: n.input, pos: n.pos, last: None, ..s0 },
    ));
    assert(reset_last(None, seq![]) == None::<Seq<char>>);
    assert(next_token(s0, cfg) == lex_loop(s0, cfg));
}

/// A quoted string literal written by escaping a text is read as a string token holding that
/// text, and the whole literal is read: `"`, the escaped text, `"`.
#[verifier::spinoff_prover]
pub proof fn law_string_token_read_back(t: Seq<char>, pos: Position, cfg: LexConfig)
    requires
        cfg.max is None,
    ensures
        next_token(
            LexScan {
                input: seq!['"'] + escaped_text(t) + seq!['"'],
                pos,
                negated: None,
                level: 0,
                within: None,
                last: None,
            },
            cfg,
        ) matches LexOutcome::Token(r, p, s2) && r == TokenOf::<Seq<char>>::StringConstant(t) && p
            == advanced(pos) && s2.input.len() == 0 && s2.within is None,
{
    reveal(resume);
    let input = seq!['"'] + escaped_text(t) + seq!['"'];
    assert(input[0] == '"');
    assert(input.drop_first() =~= escaped_text(t) + seq!['"'] + Seq::<char>::empty());
    law_string_escape_round_trip(t, Seq::<char>::empty(), advanced(pos), None, true);
    assert(reset_last(None, seq![]) == None::<Seq<char>>);
}

/// A character literal holding one plain character (no `\`, `'` or line feed) is read as that
/// character, whole: `'`, the character, `'`.
#[verifier::spinoff_prover]
pub proof fn law_char_token_read_back(c: char, pos: Position, cfg: LexConfig)
    requires
        cfg.max is None,
        c != '\\',
        c != '\'',
        c != '\n',
    ensures
        next_token(
            LexScan { input: seq!['\'', c, '\''], pos, negated: None, level: 0, within: None, last: None },
            cfg,
        ) matches LexOutcome::Token(r, p, s2) && r == TokenOf::<Seq<char>>::CharConstant(c) && p
            == advanced(pos) && s2.input.len() == 0,
{
    reveal(resume);
    let input = seq!['\'', c, '\''];
    let rest = seq![c, '\''];
    assert(input.drop_first() =~= rest);
    let p = StrParams { term: '\'', verbatim: false, cont: false, interp: false, max: None, start: advanced(pos) };
    let s = StrScan {
        input: rest,
        pos: advanced(pos),
        result: seq![],
        escape: false,
        first_char: Position { line: 0, pos: 0 },
        skip_space_until: 0,
        continued: false,
        within: Some(seq!['\'']),
        last: reset_last(None, seq!['\'']),
    };
    let s3 = read_head(s);
    assert(s.input.drop_first() =~= seq!['\'']);
    let s4 = StrScan { escape: false, result: s3.result.push(c), skip_space_until: 0, ..s3 };
    assert(str_char_step(c, s3, p) == StrStep::Next(s4));
    assert(str_loop(s, p) == str_loop(s4, p));
    assert(s4.input.drop_first() =~= Seq::<char>::empty());
    assert(s4.result =~= seq![c]);
    assert(reset_last(None, seq![]) == None::<Seq<char>>);
}

} // verus!
