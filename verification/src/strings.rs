//! String literals: quoted strings (with escapes, line continuations and interpolation) and
//! raw strings.
use vstd::prelude::*;
use vstd::utf8::encode_utf8;
use crate::position::{Position, advanced, advanced_by, next_line, rewound};
use crate::error::{LexError, LexErrorOf, SpecLexError};
use crate::state::{TokenizeState, opt_text, push_last, reset_last, push_last_token};
use crate::stream::InputStream;
use crate::chars::{hex_value, is_scalar_value, is_whitespace_spec, is_whitespace, hex_digit_value, char_from_u32};
use crate::text::{string_push, char_to_string};

verus! {

/// The first character of a sequence, if any.
pub open spec fn first_of(s: Seq<char>) -> Option<char> {
    if s.len() > 0 {
        Some(s[0])
    } else {
        None
    }
}

/// Is a text longer (in UTF-8 bytes) than the maximum, if there is one?
pub open spec fn too_long(text: Seq<char>, max: Option<usize>) -> bool {
    match max {
        Some(m) => encode_utf8(text).len() > m,
        None => false,
    }
}

/// Where a string literal scan stands: the input not yet read, the position, the text so far,
/// whether a `\` escape has begun, the position of the first character of the text, the column
/// up to which whitespace is skipped after a line continuation, whether the last character read
/// ended a line continuation, and the tokenizer's "within text" marker and current token text.
pub struct StrScan {
    pub input: Seq<char>,
    pub pos: Position,
    pub result: Seq<char>,
    pub escape: bool,
    pub first_char: Position,
    pub skip_space_until: int,
    pub continued: bool,
    pub within: Option<Seq<char>>,
    pub last: Option<Seq<char>>,
}

/// How a string literal is read: the terminating character, whether the text is taken
/// verbatim (no escapes, new-lines kept), whether a `\` at the end of a line continues the
/// string, whether `${` starts an interpolation, the maximum length, and where the literal
/// started.
pub struct StrParams {
    pub term: char,
    pub verbatim: bool,
    pub cont: bool,
    pub interp: bool,
    pub max: Option<usize>,
    pub start: Position,
}

/// The end of a string literal scan: ended (with whether an interpolation `${` ended it),
/// failed with an error at a position, or a panic of the scan.
pub enum StrOutcome {
    Ended(StrScan, bool),
    Failed(SpecLexError, Position, StrScan),
    Panicked,
}

/// Where the reading of the hexadecimal digits of an escape stands.
pub struct HexScan {
    pub input: Seq<char>,
    pub pos: Position,
    pub last: Option<Seq<char>>,
    pub seq: Seq<char>,
    pub val: int,
}

/// The end of reading the digits of an escape: a value, or a malformed escape.
pub enum HexOutcome {
    Value(HexScan),
    Bad(HexScan),
}

/// Reads `n` more hexadecimal digits of an escape sequence.
pub open spec fn hex_escape(h: HexScan, n: nat) -> HexOutcome
    decreases n,
{
    if n == 0 {
        HexOutcome::Value(h)
    } else if h.input.len() == 0 {
        HexOutcome::Bad(h)
    } else {
        let c = h.input[0];
        let h1 = HexScan {
            input: h.input.drop_first(),
            pos: advanced(h.pos),
            last: push_last(h.last, c),
            seq: h.seq.push(c),
            val: h.val,
        };
        match hex_value(c) {
            None => HexOutcome::Bad(h1),
            Some(d) => hex_escape(HexScan { val: h1.val * 16 + d, ..h1 }, (n - 1) as nat),
        }
    }
}

/// The input left after reading the digits of an escape is a suffix of the input before.
pub proof fn lemma_hex_escape_input(h: HexScan, n: nat)
    ensures
        ({
            let o = hex_escape(h, n);
            match o {
                HexOutcome::Value(h2) => h2.input.len() <= h.input.len(),
                HexOutcome::Bad(h2) => h2.input.len() <= h.input.len(),
            }
        }),
    decreases n,
{
    if n > 0 && h.input.len() > 0 {
        let c = h.input[0];
        let h1 = HexScan {
            input: h.input.drop_first(),
            pos: advanced(h.pos),
            last: push_last(h.last, c),
            seq: h.seq.push(c),
            val: h.val,
        };
        if let Some(d) = hex_value(c) {
            lemma_hex_escape_input(HexScan { val: h1.val * 16 + d, ..h1 }, (n - 1) as nat);
        }
    }
}

/// The number of hexadecimal digits of a `\x`, `\u` or `\U` escape.
pub open spec fn hex_len(c: char) -> nat {
    if c == 'x' {
        2
    } else if c == 'u' {
        4
    } else {
        8
    }
}

/// One step of a string literal scan: what the character `c` (already read) does to the scan.
pub enum StrStep {
    Next(StrScan),
    Stop(SpecLexError, Position, StrScan),
    Panic,
}

/// What a character of a string literal does, once it is neither an interpolation, nor the end
/// of the literal.
pub open spec fn str_char_step(c: char, s: StrScan, p: StrParams) -> StrStep {
    if c == '\r' && first_of(s.input) == Some('\n') {
        StrStep::Next(s)
    } else if c == 'r' && s.escape {
        StrStep::Next(StrScan { escape: false, result: s.result.push('\r'), ..s })
    } else if c == 'n' && s.escape {
        StrStep::Next(StrScan { escape: false, result: s.result.push('\n'), ..s })
    } else if c == '\\' && !p.verbatim && !s.escape {
        StrStep::Next(StrScan { escape: true, ..s })
    } else if c == '\\' && s.escape {
        StrStep::Next(StrScan { escape: false, result: s.result.push('\\'), ..s })
    } else if c == 't' && s.escape {
        StrStep::Next(StrScan { escape: false, result: s.result.push('\t'), ..s })
    } else if (c == 'x' || c == 'u' || c == 'U') && s.escape {
        let h0 = HexScan { input: s.input, pos: s.pos, last: s.last, seq: seq!['\\', c], val: 0 };
        match hex_escape(h0, hex_len(c)) {
            HexOutcome::Bad(h) => StrStep::Stop(
                LexErrorOf::MalformedEscapeSequence(h.seq),
                h.pos,
                StrScan { input: h.input, pos: h.pos, last: h.last, escape: false, ..s },
            ),
            HexOutcome::Value(h) => if 0 <= h.val <= u32::MAX && is_scalar_value(h.val as u32) {
                StrStep::Next(
                    StrScan {
                        input: h.input,
                        pos: h.pos,
                        last: h.last,
                        escape: false,
                        result: s.result.push((h.val as u32) as char),
                        ..s
                    },
                )
            } else {
                StrStep::Stop(
                    LexErrorOf::MalformedEscapeSequence(h.seq),
                    h.pos,
                    StrScan { input: h.input, pos: h.pos, last: h.last, escape: false, ..s },
                )
            },
        }
    } else if c == '\n' && p.verbatim {
        StrStep::Next(StrScan { pos: next_line(s.pos), result: s.result.push('\n'), ..s })
    } else if c == '\n' && p.cont && s.escape {
        if p.start.pos == 0 {
            StrStep::Panic
        } else {
            StrStep::Next(
                StrScan {
                    escape: false,
                    pos: next_line(s.pos),
                    skip_space_until: p.start.pos + 1,
                    continued: true,
                    ..s
                },
            )
        }
    } else if c == '\n' {
        StrStep::Stop(
            LexErrorOf::UnterminatedString,
            p.start,
            StrScan { pos: rewound(s.pos), within: None, ..s },
        )
    } else if c == p.term && s.escape {
        StrStep::Next(StrScan { escape: false, result: s.result.push(p.term), ..s })
    } else if s.escape {
        StrStep::Stop(LexErrorOf::MalformedEscapeSequence(seq!['\\', c]), s.pos, s)
    } else if is_whitespace_spec(c) && s.pos.pos < s.skip_space_until {
        StrStep::Next(s)
    } else {
        StrStep::Next(StrScan { escape: false, result: s.result.push(c), skip_space_until: 0, ..s })
    }
}

/// The rest of a string literal scan, from the scan state `s`.
pub open spec fn str_loop(s: StrScan, p: StrParams) -> StrOutcome
    decreases s.input.len(),
{
    if s.input.len() == 0 {
        let s1 = StrScan { pos: advanced(s.pos), ..s };
        if p.verbatim || (p.cont && (s.escape || s.continued)) {
            StrOutcome::Ended(s1, false)
        } else {
            StrOutcome::Failed(LexErrorOf::UnterminatedString, p.start, StrScan { within: None, ..s1 })
        }
    } else {
        let c = s.input[0];
        let s1 = StrScan {
            input: s.input.drop_first(),
            pos: advanced(s.pos),
            last: push_last(s.last, c),
            continued: false,
            ..s
        };
        if p.interp && c == '$' && !s.escape && first_of(s1.input) == Some('{') {
            StrOutcome::Ended(StrScan { within: None, ..s1 }, true)
        } else if too_long(s.result, p.max) {
            StrOutcome::Failed(LexErrorOf::StringTooLong(p.max->0), p.start, s1)
        } else if c == p.term && !s.escape && first_of(s1.input) != Some(p.term) {
            StrOutcome::Ended(StrScan { within: None, ..s1 }, false)
        } else {
            let s2 = if c == p.term && !s.escape {
                StrScan {
                    input: s1.input.drop_first(),
                    pos: advanced(s1.pos),
                    last: push_last(s1.last, p.term),
                    ..s1
                }
            } else {
                s1
            };
            let s3 = if s2.first_char.line == 0 && s2.first_char.pos == 0 {
                StrScan { first_char: s2.pos, ..s2 }
            } else {
                s2
            };
            match str_char_step(c, s3, p) {
                StrStep::Next(s4) => {
                    proof {
                        if (c == 'x' || c == 'u' || c == 'U') && s3.escape {
                            lemma_hex_escape_input(
                                HexScan {
                                    input: s3.input,
                                    pos: s3.pos,
                                    last: s3.last,
                                    seq: seq!['\\', c],
                                    val: 0,
                                },
                                hex_len(c),
                            );
                        }
                    }
                    str_loop(s4, p)
                },
                StrStep::Stop(e, ep, s4) => StrOutcome::Failed(e, ep, s4),
                StrStep::Panic => StrOutcome::Panicked,
            }
        }
    }
}

/// A string literal read from `input` at `pos`, ended by `term` (the opening quote has already
/// been read).
pub open spec fn string_literal(
    input: Seq<char>,
    pos: Position,
    last: Option<Seq<char>>,
    term: char,
    verbatim: bool,
    cont: bool,
    interp: bool,
    max: Option<usize>,
) -> StrOutcome {
    let p = StrParams { term, verbatim, cont, interp, max, start: pos };
    let init = StrScan {
        input,
        pos,
        result: seq![],
        escape: false,
        first_char: Position { line: 0, pos: 0 },
        skip_space_until: 0,
        continued: false,
        within: Some(seq![term]),
        last: reset_last(last, seq![term]),
    };
    match str_loop(init, p) {
        StrOutcome::Ended(s, i) => if too_long(s.result, max) {
            StrOutcome::Failed(LexErrorOf::StringTooLong(max->0), pos, s)
        } else {
            StrOutcome::Ended(s, i)
        },
        o => o,
    }
}

/// The tokenizer settings that reading a literal leaves alone (whether the current token text
/// is tracked among them).
pub open spec fn same_settings(a: TokenizeState, b: TokenizeState) -> bool {
    &&& (a.last_token is Some) == (b.last_token is Some)
    &&& a.max_string_len == b.max_string_len
    &&& a.next_token_cannot_be_unary == b.next_token_cannot_be_unary
    &&& a.tokenizer_control == b.tokenizer_control
    &&& a.comment_level == b.comment_level
    &&& a.include_comments == b.include_comments
}

/// Does the result of reading a string literal, and the state it leaves, agree with `o`?
pub open spec fn string_result_is(
    o: StrOutcome,
    res: Result<(String, bool, Position), (LexError, Position)>,
    input: Seq<char>,
    pos: Position,
    within: Option<Seq<char>>,
    last: Option<Seq<char>>,
) -> bool {
    match o {
        StrOutcome::Ended(s, i) => {
            &&& res matches Ok((t, interpolated, fc))
            &&& t@ == s.result && interpolated == i && fc == s.first_char
            &&& input == s.input && pos == s.pos && within == s.within && last == s.last
        },
        StrOutcome::Failed(e, ep, s) => {
            &&& res matches Err((err, p))
            &&& err@ == e && p == ep
            &&& input == s.input && pos == s.pos && within == s.within && last == s.last
        },
        StrOutcome::Panicked => false,
    }
}


/// `16` to the power `n`.
pub open spec fn pow16(n: nat) -> nat
    decreases n,
{
    if n == 0 {
        1
    } else {
        16 * pow16((n - 1) as nat)
    }
}

/// Reads the hexadecimal digits of a `\x`, `\u` or `\U` escape sequence (its letter `c` has
/// already been read) and gives the character it stands for.
fn read_hex_escape<S: InputStream + ?Sized>(
    stream: &mut S,
    pos: &mut Position,
    last: &mut Option<String>,
    c: char,
) -> (res: Result<char, (LexError, Position)>)
    requires
        old(pos).line >= 1,
        c == 'x' || c == 'u' || c == 'U',
    ensures
        final(pos).line >= 1,
        (*final(last) is Some) == (*old(last) is Some),
        final(stream).remaining().len() <= old(stream).remaining().len(),
        ({
            let h0 = HexScan {
                input: old(stream).remaining(),
                pos: *old(pos),
                last: opt_text(*old(last)),
                seq: seq!['\\', c],
                val: 0,
            };
            match hex_escape(h0, hex_len(c)) {
                HexOutcome::Bad(h) => {
                    &&& res matches Err((e, p))
                    &&& e@ == LexErrorOf::MalformedEscapeSequence(h.seq) && p == h.pos
                    &&& final(stream).remaining() == h.input && *final(pos) == h.pos
                    &&& opt_text(*final(last)) == h.last
                },
                HexOutcome::Value(h) => {
                    &&& final(stream).remaining() == h.input && *final(pos) == h.pos
                    &&& opt_text(*final(last)) == h.last
                    &&& if 0 <= h.val <= u32::MAX && is_scalar_value(h.val as u32) {
                        res == Ok::<char, (LexError, Position)>((h.val as u32) as char)
                    } else {
                        &&& res matches Err((e, p))
                        &&& e@ == LexErrorOf::MalformedEscapeSequence(h.seq) && p == h.pos
                    }
                },
            }
        }),
{
    let mut seq: Vec<char> = Vec::new();
    seq.push('\\');
    seq.push(c);
    let len: usize = if c == 'x' {
        2
    } else if c == 'u' {
        4
    } else {
        8
    };
    let ghost h0 = HexScan {
        input: stream.remaining(),
        pos: *pos,
        last: opt_text(*last),
        seq: seq@,
        val: 0,
    };
    assert(seq@ =~= seq!['\\', c]);
    let mut out_val: u32 = 0;
    let mut i: usize = 0;
    assert(pow16(0) == 1);
    proof {
        lemma_hex_escape_input(h0, len as nat);
    }
    while i < len
        invariant
            len == hex_len(c),
            i <= len,
            stream.remaining().len() <= old(stream).remaining().len(),
            h0 == (HexScan {
                input: old(stream).remaining(),
                pos: *old(pos),
                last: opt_text(*old(last)),
                seq: seq!['\\', c],
                val: 0,
            }),
            pos.line >= 1,
            (*last is Some) == (*old(last) is Some),
            (out_val as nat) < pow16(i as nat),
            hex_escape(
                HexScan {
                    input: stream.remaining(),
                    pos: *pos,
                    last: opt_text(*last),
                    seq: seq@,
                    val: out_val as int,
                },
                (len - i) as nat,
            ) == hex_escape(h0, len as nat),
        decreases len - i,
    {
        let ghost hc = HexScan {
            input: stream.remaining(),
            pos: *pos,
            last: opt_text(*last),
            seq: seq@,
            val: out_val as int,
        };
        let got = stream.get_next();
        let d = match got {
            Some(d) => d,
            None => {
                assert(hex_escape(hc, (len - i) as nat) == HexOutcome::Bad(hc));
                return Err((LexErrorOf::MalformedEscapeSequence(crate::text::string_from_chars(seq.as_slice())), *pos));
            },
        };
        pos.advance();
        seq.push(d);
        push_last_token(last, d);
        assert(pow16((i + 1) as nat) == 16 * pow16(i as nat));
        assert(pow16(8) == 4294967296) by {
            reveal_with_fuel(pow16, 9);
        }
        assert(pow16(i as nat) <= pow16(7)) by {
            lemma_pow16_mono(i as nat, 7);
        }
        assert(pow16(7) == 268435456) by {
            reveal_with_fuel(pow16, 8);
        }
        match hex_digit_value(d) {
            Some(v) => {
                out_val = out_val * 16 + v;
            },
            None => {
                let ghost h1 = HexScan {
                    input: stream.remaining(),
                    pos: *pos,
                    last: opt_text(*last),
                    seq: seq@,
                    val: hc.val,
                };
                assert(hex_escape(hc, (len - i) as nat) == HexOutcome::Bad(h1));
                return Err((LexErrorOf::MalformedEscapeSequence(crate::text::string_from_chars(seq.as_slice())), *pos));
            },
        }
        i = i + 1;
    }
    let ghost hf = HexScan {
        input: stream.remaining(),
        pos: *pos,
        last: opt_text(*last),
        seq: seq@,
        val: out_val as int,
    };
    assert(hex_escape(hf, 0) == HexOutcome::Value(hf));
    match char_from_u32(out_val) {
        Some(ch) => {
            proof {
                vstd::utf8::char_u32_cast(ch, out_val);
            }
            Ok(ch)
        },
        None => Err((LexErrorOf::MalformedEscapeSequence(crate::text::string_from_chars(seq.as_slice())), *pos)),
    }
}

/// Powers of 16 grow.
pub proof fn lemma_pow16_mono(a: nat, b: nat)
    requires
        a <= b,
    ensures
        pow16(a) <= pow16(b),
    decreases b,
{
    if a < b {
        lemma_pow16_mono(a, (b - 1) as nat);
    }
}


/// The scan state that the variables of `parse_string_literal` stand for.
pub open spec fn scan_of(
    input: Seq<char>,
    pos: Position,
    result: Seq<char>,
    escape: bool,
    first_char: Position,
    skip_space_until: usize,
    continued: bool,
    state: TokenizeState,
) -> StrScan {
    StrScan {
        input,
        pos,
        result,
        escape,
        first_char,
        skip_space_until: skip_space_until as int,
        continued,
        within: opt_text(state.is_within_text_terminated_by),
        last: opt_text(state.last_token),
    }
}

/// Parse a string literal ended by a specified termination character.
///
/// Returns the parsed string, whether the string is terminated by an interpolation `${`, and
/// the position of its first character.
///
/// No error is returned for an unterminated literal string (verbatim) at the end of the
/// input, nor for an unterminated normal string with a line continuation (and its new-line) at
/// the end of the input: this allows a script to be parsed line by line.  Any time a string is returned with
/// `state.is_within_text_terminated_by` set to `Some(_)` is one of these conditions.
pub fn parse_string_literal<S: InputStream + ?Sized>(
    stream: &mut S,
    state: &mut TokenizeState,
    pos: &mut Position,
    termination_char: char,
    verbatim: bool,
    allow_line_continuation: bool,
    allow_interpolation: bool,
) -> (res: Result<(String, bool, Position), (LexError, Position)>)
    requires
        old(pos).line >= 1,
        !(string_literal(
            old(stream).remaining(),
            *old(pos),
            opt_text(old(state).last_token),
            termination_char,
            verbatim,
            allow_line_continuation,
            allow_interpolation,
            old(state).max_string_len,
        ) is Panicked),
    ensures
        string_result_is(
            string_literal(
                old(stream).remaining(),
                *old(pos),
                opt_text(old(state).last_token),
                termination_char,
                verbatim,
                allow_line_continuation,
                allow_interpolation,
                old(state).max_string_len,
            ),
            res,
            final(stream).remaining(),
            *final(pos),
            opt_text(final(state).is_within_text_terminated_by),
            opt_text(final(state).last_token),
        ),
        same_settings(*old(state), *final(state)),
        final(pos).line >= 1,
        final(stream).remaining().len() <= old(stream).remaining().len(),
{
    let ghost p = StrParams {
        term: termination_char,
        verbatim,
        cont: allow_line_continuation,
        interp: allow_interpolation,
        max: state.max_string_len,
        start: *pos,
    };
    let mut result = String::new();
    let mut escape = false;
    let start = *pos;
    let mut first_char = Position::none();
    let mut interpolated = false;
    let mut skip_space_until: usize = 0;
    let mut continued = false;

    state.is_within_text_terminated_by = Some(char_to_string(termination_char));
    crate::state::reset_last_token_char(&mut state.last_token, termination_char);
    let ghost init = scan_of(
        stream.remaining(),
        *pos,
        result@,
        escape,
        first_char,
        skip_space_until,
        continued,
        *state,
    );

    loop
        invariant_except_break
            str_loop(
                scan_of(
                    stream.remaining(),
                    *pos,
                    result@,
                    escape,
                    first_char,
                    skip_space_until,
                    continued,
                    *state,
                ),
                p,
            ) == str_loop(init, p),
            !interpolated,
        invariant
            p == (StrParams {
                term: termination_char,
                verbatim,
                cont: allow_line_continuation,
                interp: allow_interpolation,
                max: old(state).max_string_len,
                start: *old(pos),
            }),
            start == *old(pos),
            pos.line >= 1,
            stream.remaining().len() <= old(stream).remaining().len(),
            same_settings(*old(state), *state),
            !(str_loop(init, p) is Panicked),
            init == (StrScan {
                input: old(stream).remaining(),
                pos: *old(pos),
                result: seq![],
                escape: false,
                first_char: Position { line: 0, pos: 0 },
                skip_space_until: 0,
                continued: false,
                within: Some(seq![termination_char]),
                last: reset_last(opt_text(old(state).last_token), seq![termination_char]),
            }),
        ensures
            str_loop(init, p) == StrOutcome::Ended(
                scan_of(
                    stream.remaining(),
                    *pos,
                    result@,
                    escape,
                    first_char,
                    skip_space_until,
                    continued,
                    *state,
                ),
                interpolated,
            ),
            pos.line >= 1,
            stream.remaining().len() <= old(stream).remaining().len(),
            same_settings(*old(state), *state),
        decreases stream.remaining().len(),
    {
        let ghost s0 = scan_of(
            stream.remaining(),
            *pos,
            result@,
            escape,
            first_char,
            skip_space_until,
            continued,
            *state,
        );
        let got = stream.get_next();
        let next_char = match got {
            Some(ch) => {
                pos.advance();
                ch
            },
            None => {
                if verbatim || (allow_line_continuation && (escape || continued)) {
                    pos.advance();
                    assert(str_loop(s0, p) == StrOutcome::Ended(StrScan { pos: *pos, ..s0 }, false));
                    break ;
                }
                pos.advance();
                state.is_within_text_terminated_by = None;
                return Err((LexErrorOf::UnterminatedString, start));
            },
        };
        push_last_token(&mut state.last_token, next_char);
        continued = false;

        // String interpolation?
        if allow_interpolation && next_char == '$' && !escape {
            let after = stream.peek_next();
            if after == Some('{') {
                interpolated = true;
                state.is_within_text_terminated_by = None;
                break ;
            }
        }
        // Check string length
        if let Some(max) = state.max_string_len {
            if crate::text::string_len(&result) > max {
                return Err((LexErrorOf::StringTooLong(max), start));
            }
        }
        // Close wrapper
        if termination_char == next_char && !escape {
            let after = stream.peek_next();
            if after == Some(termination_char) {
                // Double wrapper
                stream.eat_next_and_advance(pos);
                push_last_token(&mut state.last_token, termination_char);
            } else {
                state.is_within_text_terminated_by = None;
                assert(str_loop(s0, p) == StrOutcome::Ended(
                    scan_of(
                        stream.remaining(),
                        *pos,
                        result@,
                        escape,
                        first_char,
                        skip_space_until,
                        continued,
                        *state,
                    ),
                    false,
                ));
                break ;
            }
        }
        if first_char.is_none() {
            first_char = *pos;
        }
        let ghost s3 = scan_of(
            stream.remaining(),
            *pos,
            result@,
            escape,
            first_char,
            skip_space_until,
            continued,
            *state,
        );
        assert(str_loop(s0, p) == match str_char_step(next_char, s3, p) {
            StrStep::Next(s4) => str_loop(s4, p),
            StrStep::Stop(e, ep, s4) => StrOutcome::Failed(e, ep, s4),
            StrStep::Panic => StrOutcome::Panicked,
        });
        let step = string_char_step(
            stream,
            pos,
            &mut state.last_token,
            &mut state.is_within_text_terminated_by,
            &mut result,
            &mut escape,
            &mut skip_space_until,
            &mut continued,
            next_char,
            start,
            termination_char,
            verbatim,
            allow_line_continuation,
            allow_interpolation,
            state.max_string_len,
            Ghost(first_char),
        );
        if let Err(e) = step {
            return Err(e);
        }
    }

    // Check string length
    if let Some(max) = state.max_string_len {
        if crate::text::string_len(&result) > max {
            return Err((LexErrorOf::StringTooLong(max), start));
        }
    }
    Ok((result, interpolated, first_char))
}


/// What one character of a string literal does (see `str_char_step`).
fn string_char_step<S: InputStream + ?Sized>(
    stream: &mut S,
    pos: &mut Position,
    last: &mut Option<String>,
    within: &mut Option<String>,
    result: &mut String,
    escape: &mut bool,
    skip_space_until: &mut usize,
    continued: &mut bool,
    next_char: char,
    start: Position,
    termination_char: char,
    verbatim: bool,
    allow_line_continuation: bool,
    allow_interpolation: bool,
    max_string_len: Option<usize>,
    Ghost(fc): Ghost<Position>,
) -> (res: Result<(), (LexError, Position)>)
    requires
        old(pos).line >= 1,
        old(pos).pos >= 1,
        !(str_char_step(
            next_char,
            StrScan {
                input: old(stream).remaining(),
                pos: *old(pos),
                result: old(result)@,
                escape: *old(escape),
                first_char: fc,
                skip_space_until: *old(skip_space_until) as int,
                continued: *old(continued),
                within: opt_text(*old(within)),
                last: opt_text(*old(last)),
            },
            StrParams {
                term: termination_char,
                verbatim,
                cont: allow_line_continuation,
                interp: allow_interpolation,
                max: max_string_len,
                start,
            },
        ) is Panic),
    ensures
        final(pos).line >= 1,
        final(stream).remaining().len() <= old(stream).remaining().len(),
        (*final(last) is Some) == (*old(last) is Some),
        ({
            let s = StrScan {
                input: old(stream).remaining(),
                pos: *old(pos),
                result: old(result)@,
                escape: *old(escape),
                first_char: fc,
                skip_space_until: *old(skip_space_until) as int,
                continued: *old(continued),
                within: opt_text(*old(within)),
                last: opt_text(*old(last)),
            };
            let s2 = StrScan {
                input: final(stream).remaining(),
                pos: *final(pos),
                result: final(result)@,
                escape: *final(escape),
                first_char: fc,
                skip_space_until: *final(skip_space_until) as int,
                continued: *final(continued),
                within: opt_text(*final(within)),
                last: opt_text(*final(last)),
            };
            let p = StrParams {
                term: termination_char,
                verbatim,
                cont: allow_line_continuation,
                interp: allow_interpolation,
                max: max_string_len,
                start,
            };
            match str_char_step(next_char, s, p) {
                StrStep::Next(s4) => res is Ok && s4 == s2,
                StrStep::Stop(e, ep, s4) => res matches Err((err, q)) && err@ == e && q == ep && s4 == s2,
                StrStep::Panic => false,
            }
        }),
{
    let after = stream.peek_next();
    if next_char == '\r' && after == Some('\n') {
        // \r - ignore if followed by \n
    } else if next_char == 'r' && *escape {
        *escape = false;
        string_push(result, '\r');
    } else if next_char == 'n' && *escape {
        *escape = false;
        string_push(result, '\n');
    } else if next_char == '\\' && !verbatim && !*escape {
        *escape = true;
    } else if next_char == '\\' && *escape {
        *escape = false;
        string_push(result, '\\');
    } else if next_char == 't' && *escape {
        *escape = false;
        string_push(result, '\t');
    } else if (next_char == 'x' || next_char == 'u' || next_char == 'U') && *escape {
        // \x??, \u????, \U????????
        *escape = false;
        match read_hex_escape(stream, pos, last, next_char) {
            Ok(ch) => string_push(result, ch),
            Err(e) => {
                return Err(e);
            },
        }
    } else if next_char == '\n' && verbatim {
        // LF - Verbatim
        pos.new_line();
        string_push(result, '\n');
    } else if next_char == '\n' && allow_line_continuation && *escape {
        // LF - Line continuation
        *escape = false;
        pos.new_line();
        *skip_space_until = start.pos as usize + 1;
        *continued = true;
    } else if next_char == '\n' {
        // LF - Unterminated string
        pos.rewind();
        *within = None;
        return Err((LexErrorOf::UnterminatedString, start));
    } else if next_char == termination_char && *escape {
        // \{termination_char} - escaped termination character
        *escape = false;
        string_push(result, termination_char);
    } else if *escape {
        // Unknown escape sequence
        let mut text = String::new();
        string_push(&mut text, '\\');
        string_push(&mut text, next_char);
        assert(text@ =~= seq!['\\', next_char]);
        return Err((LexErrorOf::MalformedEscapeSequence(text), *pos));
    } else if is_whitespace(next_char) && (pos.pos as usize) < *skip_space_until {
        // Whitespace to skip
    } else {
        // All other characters
        *escape = false;
        string_push(result, next_char);
        *skip_space_until = 0;
    }
    Ok(())
}


/// `n` copies of `#`.
pub open spec fn hashes(n: nat) -> Seq<char> {
    Seq::new(n, |i: int| '#')
}

/// The number of `#` characters at the start of `s`.
pub open spec fn leading_hashes(s: Seq<char>) -> nat
    decreases s.len(),
{
    if s.len() > 0 && s[0] == '#' {
        1 + leading_hashes(s.drop_first())
    } else {
        0
    }
}

/// Where a raw string scan stands: the input not yet read, the position, the text so far, how
/// many `#` have been seen after a `"` (if a `"` has been seen), the position of the first
/// character, and the tokenizer's "within text" marker and current token text.
pub struct RawScan {
    pub input: Seq<char>,
    pub pos: Position,
    pub result: Seq<char>,
    pub seen: Option<nat>,
    pub first_char: Position,
    pub within: Option<Seq<char>>,
    pub last: Option<Seq<char>>,
}

/// The end of a raw string scan.
pub enum RawOutcome {
    Ended(RawScan),
    Failed(SpecLexError, Position, RawScan),
}

/// The rest of the body of a raw string closed by `"` and `hash_count` `#` characters.  At the
/// end of the input the string is left open, unless a `"` is still waiting for its `#`
/// characters: that is an unterminated string.
pub open spec fn raw_loop(s: RawScan, hash_count: nat, max: Option<usize>, start: Position) -> RawOutcome
    decreases s.input.len(),
{
    if s.input.len() == 0 {
        if s.seen is Some {
            RawOutcome::Failed(LexErrorOf::UnterminatedString, start, RawScan { within: None, ..s })
        } else {
            RawOutcome::Ended(s)
        }
    } else {
        let c = s.input[0];
        let s1 = RawScan { input: s.input.drop_first(), pos: advanced(s.pos), ..s };
        if c == '#' && s.seen is Some && s.seen->0 + 1 == hash_count {
            RawOutcome::Ended(RawScan { within: None, ..s1 })
        } else {
            let s2 = match s.seen {
                None => if c == '"' {
                    RawScan { seen: Some(0), ..s1 }
                } else if c == '\n' {
                    RawScan { result: s1.result.push('\n'), pos: next_line(s1.pos), ..s1 }
                } else {
                    RawScan { result: s1.result.push(c), ..s1 }
                },
                Some(k) => if c == '"' {
                    RawScan { result: s1.result.push('"') + hashes(k), seen: Some(0), ..s1 }
                } else if c == '#' {
                    RawScan { seen: Some(k + 1), ..s1 }
                } else {
                    RawScan { result: (s1.result.push('"') + hashes(k)).push(c), seen: None, ..s1 }
                },
            };
            if too_long(s2.result, max) {
                RawOutcome::Failed(LexErrorOf::StringTooLong(max->0), start, s2)
            } else {
                let s3 = if s2.first_char.line == 0 && s2.first_char.pos == 0 {
                    RawScan { first_char: s2.pos, ..s2 }
                } else {
                    s2
                };
                raw_loop(s3, hash_count, max, start)
            }
        }
    }
}

/// A raw string read from `input` at `pos`.  With `hash_count` zero, the opening `#` has been
/// read and the rest of the opening (more `#` and a `"`) is read first; otherwise the opening
/// has been read and had `hash_count` `#` characters.
pub open spec fn raw_string_literal(
    input: Seq<char>,
    pos: Position,
    within: Option<Seq<char>>,
    last: Option<Seq<char>>,
    hash_count: nat,
    max: Option<usize>,
) -> RawOutcome {
    let k = leading_hashes(input);
    let opening = if hash_count == 0 { k + 1 } else { hash_count };
    let rest = if hash_count == 0 { input.skip(k as int) } else { input };
    let pos1 = if hash_count == 0 { advanced_by(pos, k) } else { pos };
    let here = RawScan {
        input: rest,
        pos: pos1,
        result: seq![],
        seen: None,
        first_char: Position { line: 0, pos: 0 },
        within,
        last,
    };
    if hash_count == 0 && rest.len() == 0 {
        RawOutcome::Failed(LexErrorOf::UnterminatedString, pos, here)
    } else if hash_count == 0 && rest[0] != '"' {
        RawOutcome::Failed(
            LexErrorOf::UnexpectedInput(seq![rest[0]]),
            pos,
            RawScan { input: rest.drop_first(), ..here },
        )
    } else {
        let body = if hash_count == 0 { rest.drop_first() } else { rest };
        let pos2 = if hash_count == 0 { advanced(pos1) } else { pos1 };
        let init = RawScan {
            input: body,
            pos: pos2,
            within: Some(hashes(opening)),
            last: reset_last(last, hashes(opening).push('"')),
            ..here
        };
        raw_loop(init, opening, max, pos)
    }
}

/// Does the result of reading a raw string, and the state it leaves, agree with `o`?
pub open spec fn raw_result_is(
    o: RawOutcome,
    res: Result<(String, Position), (LexError, Position)>,
    input: Seq<char>,
    pos: Position,
    within: Option<Seq<char>>,
    last: Option<Seq<char>>,
) -> bool {
    match o {
        RawOutcome::Ended(s) => {
            &&& res matches Ok((t, fc))
            &&& t@ == s.result && fc == s.first_char
            &&& input == s.input && pos == s.pos && within == s.within && last == s.last
        },
        RawOutcome::Failed(e, ep, s) => {
            &&& res matches Err((err, p))
            &&& err@ == e && p == ep
            &&& input == s.input && pos == s.pos && within == s.within && last == s.last
        },
    }
}


/// Appends `n` copies of `#` to a string.
fn push_hashes(s: &mut String, n: usize)
    ensures
        final(s)@ == old(s)@ + hashes(n as nat),
{
    let mut i: usize = 0;
    while i < n
        invariant
            i <= n,
            s@ == old(s)@ + hashes(i as nat),
        decreases n - i,
    {
        string_push(s, '#');
        i = i + 1;
        assert(s@ =~= old(s)@ + hashes(i as nat));
    }
}

proof fn lemma_leading_hashes_skip(s: Seq<char>, n: nat)
    requires
        n < s.len(),
        s[n as int] == '#',
        leading_hashes(s) == n + leading_hashes(s.skip(n as int)),
    ensures
        leading_hashes(s) == n + 1 + leading_hashes(s.skip((n + 1) as int)),
{
    assert(s.skip(n as int).drop_first() =~= s.skip((n + 1) as int));
}

/// Parse a raw string literal.
///
/// Raw string literals do not process any escapes.  They start with the character `#`
/// repeated any number of times, then finally a `"`.  The body can contain any sequence of
/// characters; it is terminated only by another `"` followed by the same number of `#`
/// characters.  With `hash_count` zero, the first `#` has been read and the rest of the opening
/// is read here; otherwise the whole opening, with `hash_count` `#`, has been read.
///
/// Returns the parsed string and the position of its first character.  No error is returned
/// for an unterminated raw string at the end of the input (this allows a script to be parsed
/// line by line); `state.is_within_text_terminated_by` is then left as `Some(_)`.  A `"` at the
/// end of the input that still waits for its closing `#` characters is an unterminated string.
pub fn parse_raw_string_literal<S: InputStream + ?Sized>(
    stream: &mut S,
    state: &mut TokenizeState,
    pos: &mut Position,
    hash_count: usize,
) -> (res: Result<(String, Position), (LexError, Position)>)
    requires
        old(pos).line >= 1,
        old(stream).remaining().len() < usize::MAX,
    ensures
        raw_result_is(
            raw_string_literal(
                old(stream).remaining(),
                *old(pos),
                opt_text(old(state).is_within_text_terminated_by),
                opt_text(old(state).last_token),
                hash_count as nat,
                old(state).max_string_len,
            ),
            res,
            final(stream).remaining(),
            *final(pos),
            opt_text(final(state).is_within_text_terminated_by),
            opt_text(final(state).last_token),
        ),
        same_settings(*old(state), *final(state)),
        final(pos).line >= 1,
        final(stream).remaining().len() <= old(stream).remaining().len(),
{
    let start = *pos;
    let mut first_char = Position::none();
    let mut needed = hash_count;
    let ghost input0 = stream.remaining();

    if needed == 0 {
        // Count the number of '#'s; the first one is already consumed
        needed = 1;
        loop
            invariant
                1 <= needed,
                needed - 1 <= input0.len(),
                input0 == old(stream).remaining(),
                input0.len() < usize::MAX,
                stream.remaining() == input0.skip(needed - 1),
                *pos == advanced_by(*old(pos), (needed - 1) as nat),
                leading_hashes(input0) == needed - 1 + leading_hashes(stream.remaining()),
                pos.line >= 1,
            ensures
                leading_hashes(stream.remaining()) == 0,
            decreases stream.remaining().len(),
        {
            let next = stream.peek_next();
            if next != Some('#') {
                break ;
            }
            proof {
                lemma_leading_hashes_skip(input0, (needed - 1) as nat);
            }
            stream.eat_next_and_advance(pos);
            needed = needed + 1;
            assert(stream.remaining() =~= input0.skip(needed - 1));
        }
        // Match '"'
        let got = stream.get_next();
        match got {
            Some('"') => pos.advance(),
            Some(c) => {
                return Err((LexErrorOf::UnexpectedInput(char_to_string(c)), start));
            },
            None => {
                return Err((LexErrorOf::UnterminatedString, start));
            },
        }
    }
    let mut collect = String::new();
    push_hashes(&mut collect, needed);
    if state.last_token.is_some() {
        let mut t = String::new();
        push_hashes(&mut t, needed);
        string_push(&mut t, '"');
        state.last_token = Some(t);
    }
    state.is_within_text_terminated_by = Some(collect);
    let ghost init = RawScan {
        input: stream.remaining(),
        pos: *pos,
        result: seq![],
        seen: None,
        first_char: Position { line: 0, pos: 0 },
        within: opt_text(state.is_within_text_terminated_by),
        last: opt_text(state.last_token),
    };
    assert(raw_string_literal(
        old(stream).remaining(),
        *old(pos),
        opt_text(old(state).is_within_text_terminated_by),
        opt_text(old(state).last_token),
        hash_count as nat,
        old(state).max_string_len,
    ) == raw_loop(init, needed as nat, state.max_string_len, start));

    // Counts the number of '#' characters seen after a quotation mark.
    let mut seen_hashes: Option<usize> = None;
    let mut result = String::new();

    loop
        invariant_except_break
            raw_loop(
                RawScan {
                    input: stream.remaining(),
                    pos: *pos,
                    result: result@,
                    seen: match seen_hashes {
                        Some(k) => Some(k as nat),
                        None => None,
                    },
                    first_char,
                    within: opt_text(state.is_within_text_terminated_by),
                    last: opt_text(state.last_token),
                },
                needed as nat,
                state.max_string_len,
                start,
            ) == raw_loop(init, needed as nat, state.max_string_len, start),
        invariant
            raw_string_literal(
                old(stream).remaining(),
                *old(pos),
                opt_text(old(state).is_within_text_terminated_by),
                opt_text(old(state).last_token),
                hash_count as nat,
                old(state).max_string_len,
            ) == raw_loop(init, needed as nat, state.max_string_len, start),
            needed >= 1,
            seen_hashes matches Some(k) ==> k < needed,
            pos.line >= 1,
            stream.remaining().len() <= old(stream).remaining().len(),
            same_settings(*old(state), *state),
            start == *old(pos),
        ensures
            raw_loop(init, needed as nat, state.max_string_len, start) == RawOutcome::Ended(
                RawScan {
                    input: stream.remaining(),
                    pos: *pos,
                    result: result@,
                    seen: match seen_hashes {
                        Some(k) => Some(k as nat),
                        None => None,
                    },
                    first_char,
                    within: opt_text(state.is_within_text_terminated_by),
                    last: opt_text(state.last_token),
                },
            ),
            pos.line >= 1,
            stream.remaining().len() <= old(stream).remaining().len(),
            same_settings(*old(state), *state),
        decreases stream.remaining().len(),
    {
        let ghost s0 = RawScan {
            input: stream.remaining(),
            pos: *pos,
            result: result@,
            seen: match seen_hashes {
                Some(k) => Some(k as nat),
                None => None,
            },
            first_char,
            within: opt_text(state.is_within_text_terminated_by),
            last: opt_text(state.last_token),
        };
        let got = stream.get_next();
        let next_char = match got {
            Some(c) => c,
            None => {
                if seen_hashes.is_some() {
                    // A quote without its closing hashes at the end of the input
                    state.is_within_text_terminated_by = None;
                    return Err((LexErrorOf::UnterminatedString, start));
                }
                break ;
            },
        };
        pos.advance();
        match seen_hashes {
            None => {
                if next_char == '"' {
                    // Begin attempt to close string
                    seen_hashes = Some(0);
                } else if next_char == '\n' {
                    // New line
                    string_push(&mut result, '\n');
                    pos.new_line();
                } else {
                    // Normal new character seen
                    string_push(&mut result, next_char);
                }
            },
            Some(count) => {
                if next_char == '"' {
                    // Restart attempt to close string
                    string_push(&mut result, '"');
                    push_hashes(&mut result, count);
                    seen_hashes = Some(0);
                } else if next_char == '#' {
                    // Continue attempt to close string
                    if count + 1 == needed {
                        state.is_within_text_terminated_by = None;
                        break ;
                    }
                    seen_hashes = Some(count + 1);
                } else {
                    // Fail to close the string - add previous quote and hashes
                    string_push(&mut result, '"');
                    push_hashes(&mut result, count);
                    string_push(&mut result, next_char);
                    seen_hashes = None;
                }
            },
        }
        // Check string length
        if let Some(max) = state.max_string_len {
            if crate::text::string_len(&result) > max {
                assert(raw_loop(s0, needed as nat, state.max_string_len, start)
                    == RawOutcome::Failed(
                    LexErrorOf::StringTooLong(max),
                    start,
                    RawScan {
                        input: stream.remaining(),
                        pos: *pos,
                        result: result@,
                        seen: match seen_hashes {
                            Some(k) => Some(k as nat),
                            None => None,
                        },
                        first_char,
                        within: opt_text(state.is_within_text_terminated_by),
                        last: opt_text(state.last_token),
                    },
                ));
                return Err((LexErrorOf::StringTooLong(max), start));
            }
        }
        if first_char.is_none() {
            first_char = *pos;
        }
    }

    Ok((result, first_char))
}


/// A string literal scan whose start is not at the beginning of a line, or that takes no line
/// continuation, never panics.
pub proof fn lemma_str_loop_no_panic(s: StrScan, p: StrParams)
    requires
        p.start.pos != 0 || !p.cont,
    ensures
        !(str_loop(s, p) is Panicked),
    decreases s.input.len(),
{
    if s.input.len() > 0 {
        let c = s.input[0];
        let s1 = StrScan {
            input: s.input.drop_first(),
            pos: advanced(s.pos),
            last: push_last(s.last, c),
            continued: false,
            ..s
        };
        if !(p.interp && c == '$' && !s.escape && first_of(s1.input) == Some('{')) && !too_long(
            s.result,
            p.max,
        ) && !(c == p.term && !s.escape && first_of(s1.input) != Some(p.term)) {
            let s2 = if c == p.term && !s.escape {
                StrScan {
                    input: s1.input.drop_first(),
                    pos: advanced(s1.pos),
                    last: push_last(s1.last, p.term),
                    ..s1
                }
            } else {
                s1
            };
            let s3 = if s2.first_char.line == 0 && s2.first_char.pos == 0 {
                StrScan { first_char: s2.pos, ..s2 }
            } else {
                s2
            };
            if let StrStep::Next(s4) = str_char_step(c, s3, p) {
                if (c == 'x' || c == 'u' || c == 'U') && s3.escape {
                    lemma_hex_escape_input(
                        HexScan { input: s3.input, pos: s3.pos, last: s3.last, seq: seq!['\\', c], val: 0 },
                        hex_len(c),
                    );
                }
                lemma_str_loop_no_panic(s4, p);
            }
        }
    }
}

/// A string literal scan leaves the "within text" marker as it was, or clears it.
pub proof fn lemma_str_loop_within(s: StrScan, p: StrParams)
    ensures
        match str_loop(s, p) {
            StrOutcome::Ended(r, _) => r.within is None || r.within == s.within,
            StrOutcome::Failed(_, _, r) => r.within is None || r.within == s.within,
            StrOutcome::Panicked => true,
        },
    decreases s.input.len(),
{
    if s.input.len() > 0 {
        let c = s.input[0];
        let s1 = StrScan {
            input: s.input.drop_first(),
            pos: advanced(s.pos),
            last: push_last(s.last, c),
            continued: false,
            ..s
        };
        if !(p.interp && c == '$' && !s.escape && first_of(s1.input) == Some('{')) && !too_long(
            s.result,
            p.max,
        ) && !(c == p.term && !s.escape && first_of(s1.input) != Some(p.term)) {
            let s2 = if c == p.term && !s.escape {
                StrScan {
                    input: s1.input.drop_first(),
                    pos: advanced(s1.pos),
                    last: push_last(s1.last, p.term),
                    ..s1
                }
            } else {
                s1
            };
            let s3 = if s2.first_char.line == 0 && s2.first_char.pos == 0 {
                StrScan { first_char: s2.pos, ..s2 }
            } else {
                s2
            };
            if let StrStep::Next(s4) = str_char_step(c, s3, p) {
                if (c == 'x' || c == 'u' || c == 'U') && s3.escape {
                    lemma_hex_escape_input(
                        HexScan { input: s3.input, pos: s3.pos, last: s3.last, seq: seq!['\\', c], val: 0 },
                        hex_len(c),
                    );
                }
                lemma_str_loop_within(s4, p);
            }
        }
    }
}

/// A character literal (plain, ended by `'`) that does not begin with its closing quote has
/// at least one character when it ends.
pub proof fn lemma_char_literal_nonempty(s: StrScan, p: StrParams)
    requires
        p.term == '\'',
        !p.verbatim,
        !p.cont,
        !p.interp,
        s.skip_space_until == 0,
        s.result.len() > 0 || s.escape || first_of(s.input) != Some(p.term),
    ensures
        str_loop(s, p) matches StrOutcome::Ended(r, _) ==> r.result.len() > 0,
    decreases s.input.len(),
{
    if s.input.len() > 0 {
        let c = s.input[0];
        let s1 = StrScan {
            input: s.input.drop_first(),
            pos: advanced(s.pos),
            last: push_last(s.last, c),
            continued: false,
            ..s
        };
        if !(p.interp && c == '$' && !s.escape && first_of(s1.input) == Some('{')) && !too_long(
            s.result,
            p.max,
        ) && !(c == p.term && !s.escape && first_of(s1.input) != Some(p.term)) {
            let s2 = if c == p.term && !s.escape {
                StrScan {
                    input: s1.input.drop_first(),
                    pos: advanced(s1.pos),
                    last: push_last(s1.last, p.term),
                    ..s1
                }
            } else {
                s1
            };
            let s3 = if s2.first_char.line == 0 && s2.first_char.pos == 0 {
                StrScan { first_char: s2.pos, ..s2 }
            } else {
                s2
            };
            if let StrStep::Next(s4) = str_char_step(c, s3, p) {
                if (c == 'x' || c == 'u' || c == 'U') && s3.escape {
                    lemma_hex_escape_input(
                        HexScan { input: s3.input, pos: s3.pos, last: s3.last, seq: seq!['\\', c], val: 0 },
                        hex_len(c),
                    );
                }
                assert(s4.skip_space_until == 0);
                assert(s4.result.len() > 0 || s4.escape || first_of(s4.input) != Some(p.term));
                lemma_char_literal_nonempty(s4, p);
            }
        }
    }
}

/// A raw string scan leaves the "within text" marker as it was, or clears it.
pub proof fn lemma_raw_loop_within(s: RawScan, hash_count: nat, max: Option<usize>, start: Position)
    ensures
        match raw_loop(s, hash_count, max, start) {
            RawOutcome::Ended(r) => r.within is None || r.within == s.within,
            RawOutcome::Failed(_, _, r) => r.within is None || r.within == s.within,
        },
    decreases s.input.len(),
{
    if s.input.len() > 0 {
        let c = s.input[0];
        let s1 = RawScan { input: s.input.drop_first(), pos: advanced(s.pos), ..s };
        if !(c == '#' && s.seen is Some && s.seen->0 + 1 == hash_count) {
            let s2 = match s.seen {
                None => if c == '"' {
                    RawScan { seen: Some(0), ..s1 }
                } else if c == '\n' {
                    RawScan { result: s1.result.push('\n'), pos: next_line(s1.pos), ..s1 }
                } else {
                    RawScan { result: s1.result.push(c), ..s1 }
                },
                Some(k) => if c == '"' {
                    RawScan { result: s1.result.push('"') + hashes(k), seen: Some(0), ..s1 }
                } else if c == '#' {
                    RawScan { seen: Some(k + 1), ..s1 }
                } else {
                    RawScan { result: (s1.result.push('"') + hashes(k)).push(c), seen: None, ..s1 }
                },
            };
            if !too_long(s2.result, max) {
                let s3 = if s2.first_char.line == 0 && s2.first_char.pos == 0 {
                    RawScan { first_char: s2.pos, ..s2 }
                } else {
                    s2
                };
                lemma_raw_loop_within(s3, hash_count, max, start);
            }
        }
    }
}



} // verus!
