//! Reading one token after another: the tokenizer's main step.
use vstd::prelude::*;
use vstd::utf8::encode_utf8;
use crate::position::{Position, advanced, advanced_by, next_line};
use crate::token::{Token, TokenOf, SpecToken, is_next_unary_spec};
use crate::error::{LexErrorOf, SpecLexError};
use crate::chars::{id_start, is_numeric_digit_spec, is_ascii_whitespace_spec};
use crate::strings::{
    first_of, string_literal, raw_string_literal, StrOutcome, RawOutcome, StrScan, StrParams,
};
use crate::lexer::{symbol_step, number_scan, number_text, number_token, block_loop, CommentScan};
use crate::identifiers::{id_run, word_text, identifier_token, parse_identifier_token};
use crate::state::{TokenizeState, opt_text, push_last, reset_last, push_last_token};
use crate::stream::InputStream;
use crate::strings::{
    parse_string_literal, parse_raw_string_literal, lemma_str_loop_no_panic,
    lemma_char_literal_nonempty, lemma_str_loop_within, lemma_raw_loop_within, leading_hashes,
    hashes, RawScan,
};
use crate::lexer::{lex_number, lex_symbol, scan_block_comment, text_of};
use crate::chars::{is_numeric_digit, is_ascii_whitespace, is_id_first_alphabetic};
use crate::text::{chars_of_str, char_to_string, string_len};

verus! {

/// The rest of a line comment: reads up to the end of the line (which is consumed), appending
/// the characters to the comment text if it is collected.  Gives the input left, the position
/// and the text.
pub open spec fn line_loop(input: Seq<char>, pos: Position, text: Option<Seq<char>>) -> (
    Seq<char>,
    Position,
    Option<Seq<char>>,
)
    decreases input.len(),
{
    if input.len() == 0 {
        (input, pos, text)
    } else {
        let c = input[0];
        let rest = input.drop_first();
        if c == '\r' {
            if first_of(rest) == Some('\n') {
                (rest.drop_first(), next_line(advanced(pos)), text)
            } else {
                (rest, next_line(pos), text)
            }
        } else if c == '\n' {
            (rest, next_line(pos), text)
        } else {
            line_loop(rest, advanced(pos), push_last(text, c))
        }
    }
}

/// What is skipped after the opening back-tick of a verbatim string: a line break right after
/// it (`\r\n`, `\r` or `\n`), which moves to the next line.
pub open spec fn backtick_skip(input: Seq<char>, pos: Position) -> (Seq<char>, Position) {
    if first_of(input) == Some('\r') {
        let rest = input.drop_first();
        if first_of(rest) == Some('\n') {
            (rest.drop_first(), next_line(advanced(advanced(pos))))
        } else {
            (rest, next_line(advanced(pos)))
        }
    } else if first_of(input) == Some('\n') {
        (input.drop_first(), next_line(advanced(pos)))
    } else {
        (input, pos)
    }
}

/// Where the reading of a token stands: the input not yet read, the position, the position of
/// a `-` read just before a number (if any), the block comment nesting level, the "within text"
/// marker and the current token text (when tracked).
pub struct LexScan {
    pub input: Seq<char>,
    pub pos: Position,
    pub negated: Option<Position>,
    pub level: int,
    pub within: Option<Seq<char>>,
    pub last: Option<Seq<char>>,
}

/// What the reading of a token depends on besides the input: may the next `+` or `-` be
/// unary, are comments returned as tokens, and the maximum length of a string.
pub struct LexConfig {
    pub unary_ok: bool,
    pub include_comments: bool,
    pub max: Option<usize>,
}

/// The end of reading a token: the token, its position and where the reading stands after it;
/// or a panic of the reading.
pub enum LexOutcome {
    Token(SpecToken, Position, LexScan),
    Panicked,
}

/// One step of reading a token: it ends, or goes on from a new scan state.
pub enum LexStep {
    Finish(LexOutcome),
    Continue(LexScan),
}

/// The kind of a quoted literal: a normal string, a verbatim (back-tick) string, or a
/// character.
pub enum QuoteKind {
    Plain,
    Verbatim,
    Char,
}

/// The token of a quoted literal, from the outcome of its scan.  The token stands at `at`, or
/// at the literal's first character if `at` is `None`.
pub open spec fn quoted_outcome(o: StrOutcome, s: LexScan, at: Option<Position>, kind: QuoteKind) -> LexOutcome {
    match o {
        StrOutcome::Ended(r, interpolated) => {
            let s2 = LexScan { input: r.input, pos: r.pos, within: r.within, last: r.last, ..s };
            let p = match at {
                Some(a) => a,
                None => r.first_char,
            };
            match kind {
                QuoteKind::Plain => LexOutcome::Token(TokenOf::StringConstant(r.result), p, s2),
                QuoteKind::Verbatim => LexOutcome::Token(
                    if interpolated {
                        TokenOf::InterpolatedString(r.result)
                    } else {
                        TokenOf::StringConstant(r.result)
                    },
                    p,
                    s2,
                ),
                QuoteKind::Char => if r.result.len() == 1 {
                    LexOutcome::Token(TokenOf::CharConstant(r.result[0]), p, s2)
                } else if r.result.len() == 0 {
                    LexOutcome::Panicked
                } else {
                    LexOutcome::Token(TokenOf::LexError(LexErrorOf::MalformedChar(r.result)), p, s2)
                },
            }
        },
        StrOutcome::Failed(e, ep, r) => LexOutcome::Token(
            TokenOf::LexError(e),
            ep,
            LexScan { input: r.input, pos: r.pos, within: r.within, last: r.last, ..s },
        ),
        StrOutcome::Panicked => LexOutcome::Panicked,
    }
}

/// The token of a raw string, from the outcome of its scan.  The token stands at `at`, or at
/// the string's first character if `at` is `None`.
pub open spec fn raw_outcome(o: RawOutcome, s: LexScan, at: Option<Position>) -> LexOutcome {
    match o {
        RawOutcome::Ended(r) => LexOutcome::Token(
            TokenOf::StringConstant(r.result),
            match at {
                Some(a) => a,
                None => r.first_char,
            },
            LexScan { input: r.input, pos: r.pos, within: r.within, last: r.last, ..s },
        ),
        RawOutcome::Failed(e, ep, r) => LexOutcome::Token(
            TokenOf::LexError(e),
            ep,
            LexScan { input: r.input, pos: r.pos, within: r.within, last: r.last, ..s },
        ),
    }
}

/// The comment text collected when comments are returned as tokens, starting with `start`.
pub open spec fn comment_init(cfg: LexConfig, start: Seq<char>) -> Option<Seq<char>> {
    if cfg.include_comments {
        Some(start)
    } else {
        None
    }
}

/// Does the character `c`, followed by `cc`, start a literal: a string, a verbatim string, a raw
/// string or a character?
pub open spec fn starts_literal(c: char, cc: Option<char>) -> bool {
    c == '"' || c == '`' || (c == '#' && (cc == Some('"') || cc == Some('#'))) || c == '\''
}

/// Does the character `c`, followed by `cc`, start a comment?
pub open spec fn starts_comment(c: char, cc: Option<char>) -> bool {
    c == '/' && (cc == Some('/') || cc == Some('*'))
}

/// Reading a number whose first digit `c` has been read, leaving the scan `s1`.
pub open spec fn number_step(c: char, s1: LexScan) -> LexStep {
    let n = number_scan(c, s1.input, s1.pos);
    let text = number_text(n, s1.negated);
    LexStep::Finish(
        LexOutcome::Token(
            number_token(text, n.radix),
            match s1.negated {
                Some(p) => p,
                None => s1.pos,
            },
            LexScan { input: n.input, pos: n.pos, last: reset_last(s1.last, text), ..s1 },
        ),
    )
}

/// Reading a literal whose first character `c` has been read, leaving the scan `s1`.
pub open spec fn literal_step(c: char, s1: LexScan, cfg: LexConfig) -> LexStep {
    let rest = s1.input;
    let pos1 = s1.pos;
    let cc = first_of(rest);
    if c == '"' {
        LexStep::Finish(
            quoted_outcome(
                string_literal(rest, pos1, s1.last, '"', false, true, false, cfg.max),
                s1,
                Some(pos1),
                QuoteKind::Plain,
            ),
        )
    } else if c == '`' {
        let (i2, p2) = backtick_skip(rest, pos1);
        LexStep::Finish(
            quoted_outcome(
                string_literal(i2, p2, s1.last, '`', true, false, true, cfg.max),
                s1,
                Some(pos1),
                QuoteKind::Verbatim,
            ),
        )
    } else if c == '#' {
        LexStep::Finish(
            raw_outcome(raw_string_literal(rest, pos1, s1.within, s1.last, 0, cfg.max), s1, Some(pos1)),
        )
    } else if cc == Some('\'') {
        LexStep::Finish(
            LexOutcome::Token(TokenOf::LexError(LexErrorOf::MalformedChar(seq![])), pos1, s1),
        )
    } else {
        LexStep::Finish(
            quoted_outcome(
                string_literal(rest, pos1, s1.last, '\'', false, false, false, cfg.max),
                s1,
                Some(pos1),
                QuoteKind::Char,
            ),
        )
    }
}

/// Reading a comment whose first `/` has been read, leaving the scan `s1`; the comment is a
/// token only when comments are returned as tokens.
pub open spec fn comment_step(s1: LexScan, cfg: LexConfig) -> LexStep {
    let rest = s1.input;
    let pos1 = s1.pos;
    if first_of(rest) == Some('/') {
        let (i2, p2, text) = line_loop(
            rest.drop_first(),
            advanced(pos1),
            comment_init(cfg, seq!['/', '/']),
        );
        let s2 = LexScan { input: i2, pos: p2, ..s1 };
        match text {
            Some(t) => LexStep::Finish(LexOutcome::Token(TokenOf::Comment(t), pos1, s2)),
            None => LexStep::Continue(s2),
        }
    } else {
        let b = block_loop(
            CommentScan {
                input: rest.drop_first(),
                pos: advanced(pos1),
                text: comment_init(cfg, seq!['/', '*']),
                level: s1.level + 1,
            },
        );
        let s2 = LexScan { input: b.input, pos: b.pos, level: b.level, ..s1 };
        match b.text {
            Some(t) => LexStep::Finish(LexOutcome::Token(TokenOf::Comment(t), pos1, s2)),
            None => LexStep::Continue(s2),
        }
    }
}

/// Reading a symbol, a word, or white space, whose first character `c` has been read, leaving
/// the scan `s1`.
pub open spec fn other_step(c: char, s1: LexScan, cfg: LexConfig) -> LexStep {
    let rest = s1.input;
    let pos1 = s1.pos;
    match symbol_step(c, rest, cfg.unary_ok) {
        Some((t, k)) => LexStep::Finish(
            LexOutcome::Token(
                t,
                pos1,
                LexScan { input: rest.skip(k as int), pos: advanced_by(pos1, k), ..s1 },
            ),
        ),
        None => if id_start(c) || c == '_' {
            let k = id_run(rest);
            let text = word_text(c, rest);
            LexStep::Finish(
                LexOutcome::Token(
                    identifier_token(text),
                    pos1,
                    LexScan {
                        input: rest.skip(k as int),
                        pos: advanced_by(pos1, k),
                        last: reset_last(s1.last, text),
                        ..s1
                    },
                ),
            )
        } else if c == '\n' {
            LexStep::Continue(LexScan { pos: next_line(pos1), ..s1 })
        } else if is_ascii_whitespace_spec(c) {
            LexStep::Continue(s1)
        } else {
            LexStep::Finish(
                LexOutcome::Token(TokenOf::LexError(LexErrorOf::UnexpectedInput(seq![c])), pos1, s1),
            )
        },
    }
}

/// One step of reading a token from a non-empty input: reads one character and what follows
/// it as far as needed.  A `-` just before a digit, where a unary operator may stand, is kept
/// as the sign of the number that follows.
pub open spec fn lex_step(s: LexScan, cfg: LexConfig) -> LexStep
    recommends
        s.input.len() > 0,
{
    let c = s.input[0];
    let s1 = LexScan { input: s.input.drop_first(), pos: advanced(s.pos), ..s };
    let cc = first_of(s1.input);
    if is_numeric_digit_spec(c) {
        number_step(c, s1)
    } else if starts_literal(c, cc) {
        literal_step(c, s1, cfg)
    } else if c == '-' && cfg.unary_ok && s1.input.len() > 0 && is_numeric_digit_spec(s1.input[0]) {
        LexStep::Continue(LexScan { negated: Some(s1.pos), ..s1 })
    } else if starts_comment(c, cc) {
        comment_step(s1, cfg)
    } else {
        other_step(c, s1, cfg)
    }
}

/// The input left after a line comment is no longer than the input before it.
pub proof fn lemma_line_loop_shrinks(input: Seq<char>, pos: Position, text: Option<Seq<char>>)
    ensures
        line_loop(input, pos, text).0.len() <= input.len(),
    decreases input.len(),
{
    if input.len() > 0 {
        lemma_line_loop_shrinks(input.drop_first(), advanced(pos), push_last(text, input[0]));
    }
}

/// The input left after a block comment is no longer than the input before it, and its text
/// is collected if it was collected before.
pub proof fn lemma_block_loop_shrinks(s: CommentScan)
    ensures
        block_loop(s).input.len() <= s.input.len(),
        (block_loop(s).text is Some) == (s.text is Some),
    decreases s.input.len(),
{
    if s.input.len() > 0 {
        let c = s.input[0];
        let rest = s.input.drop_first();
        let p1 = advanced(s.pos);
        let t1 = push_last(s.text, c);
        let s2 = if c == '/' && first_of(rest) == Some('*') {
            CommentScan {
                input: rest.drop_first(),
                pos: advanced(p1),
                text: push_last(t1, '*'),
                level: s.level + 1,
            }
        } else if c == '*' && first_of(rest) == Some('/') {
            CommentScan {
                input: rest.drop_first(),
                pos: advanced(p1),
                text: push_last(t1, '/'),
                level: s.level - 1,
            }
        } else if c == '\n' {
            CommentScan { input: rest, pos: next_line(p1), text: t1, level: s.level }
        } else {
            CommentScan { input: rest, pos: p1, text: t1, level: s.level }
        };
        if s2.level != 0 {
            lemma_block_loop_shrinks(s2);
        }
    }
}

/// A step that goes on has read at least one character.
pub proof fn lemma_step_shrinks(s: LexScan, cfg: LexConfig)
    requires
        s.input.len() > 0,
    ensures
        lex_step(s, cfg) matches LexStep::Continue(s2) ==> s2.input.len() < s.input.len(),
{
    let c = s.input[0];
    let rest = s.input.drop_first();
    let pos1 = advanced(s.pos);
    if c == '/' && first_of(rest) == Some('/') {
        lemma_line_loop_shrinks(rest.drop_first(), advanced(pos1), comment_init(cfg, seq!['/', '/']));
    }
    if c == '/' && first_of(rest) == Some('*') {
        lemma_block_loop_shrinks(
            CommentScan {
                input: rest.drop_first(),
                pos: advanced(pos1),
                text: comment_init(cfg, seq!['/', '*']),
                level: s.level + 1,
            },
        );
    }
}

/// Reads characters until a token is found.  At the end of the input the token is the end of
/// file, one position further on.
pub open spec fn lex_loop(s: LexScan, cfg: LexConfig) -> LexOutcome
    decreases s.input.len(),
{
    if s.input.len() == 0 {
        let p = advanced(s.pos);
        LexOutcome::Token(TokenOf::EOF, p, LexScan { pos: p, ..s })
    } else {
        match lex_step(s, cfg) {
            LexStep::Finish(o) => o,
            LexStep::Continue(s2) => {
                proof {
                    lemma_step_shrinks(s, cfg);
                }
                lex_loop(s2, cfg)
            },
        }
    }
}

/// Reads the next token, after what an earlier token left open: the rest of the text of an
/// interpolated or unterminated string, if the "within text" marker is set.
#[verifier::opaque]
pub open spec fn resume(s: LexScan, cfg: LexConfig) -> LexOutcome {
    match s.within {
        Some(w) => {
            let s1 = LexScan { within: None, ..s };
            if w.len() > 0 && w[0] == '#' {
                raw_outcome(
                    raw_string_literal(s.input, s.pos, None, s.last, encode_utf8(w).len(), cfg.max),
                    s1,
                    None,
                )
            } else if w.len() == 0 {
                LexOutcome::Panicked
            } else {
                quoted_outcome(
                    string_literal(s.input, s.pos, s.last, w[0], true, false, true, cfg.max),
                    s1,
                    None,
                    QuoteKind::Verbatim,
                )
            }
        },
        None => lex_loop(s, cfg),
    }
}

/// Reads the next token: first the rest of a block comment left open (if the nesting level is
/// positive), then what `resume` reads.  The current token text, if tracked, starts empty.
pub open spec fn next_token(s: LexScan, cfg: LexConfig) -> LexOutcome {
    let s0 = LexScan { last: reset_last(s.last, seq![]), negated: None, ..s };
    if s0.level > 0 {
        let b = block_loop(
            CommentScan {
                input: s0.input,
                pos: s0.pos,
                text: comment_init(cfg, seq![]),
                level: s0.level,
            },
        );
        let s1 = LexScan { input: b.input, pos: b.pos, level: b.level, ..s0 };
        if cfg.include_comments {
            LexOutcome::Token(TokenOf::Comment(b.text->0), s0.pos, s1)
        } else if b.level > 0 {
            LexOutcome::Token(TokenOf::EOF, b.pos, s1)
        } else {
            resume(s1, cfg)
        }
    } else {
        resume(s0, cfg)
    }
}


/// Reads the rest of a line comment (see `line_loop`).
fn scan_line_comment<S: InputStream + ?Sized>(
    stream: &mut S,
    pos: &mut Position,
    comment: &mut Option<String>,
)
    requires
        old(pos).line >= 1,
    ensures
        (final(stream).remaining(), *final(pos), opt_text(*final(comment))) == line_loop(
            old(stream).remaining(),
            *old(pos),
            opt_text(*old(comment)),
        ),
        final(pos).line >= 1,
        final(stream).remaining().len() <= old(stream).remaining().len(),
{
    let ghost init = (stream.remaining(), *pos, opt_text(*comment));
    loop
        invariant_except_break
            line_loop(stream.remaining(), *pos, opt_text(*comment)) == line_loop(
                init.0,
                init.1,
                init.2,
            ),
        invariant
            init == (old(stream).remaining(), *old(pos), opt_text(*old(comment))),
            pos.line >= 1,
            stream.remaining().len() <= old(stream).remaining().len(),
        ensures
            line_loop(init.0, init.1, init.2) == (stream.remaining(), *pos, opt_text(*comment)),
            pos.line >= 1,
            stream.remaining().len() <= old(stream).remaining().len(),
        decreases stream.remaining().len(),
    {
        let got = stream.get_next();
        let c = match got {
            Some(c) => c,
            None => {
                break ;
            },
        };
        if c == '\r' {
            if stream.peek_next() == Some('\n') {
                stream.eat_next_and_advance(pos);
            }
            pos.new_line();
            break ;
        }
        if c == '\n' {
            pos.new_line();
            break ;
        }
        push_last_token(comment, c);
        pos.advance();
    }
}

/// The reading state that the tokenizer's variables stand for.
pub open spec fn scan_state(
    input: Seq<char>,
    pos: Position,
    negated: Option<Position>,
    state: TokenizeState,
) -> LexScan {
    LexScan {
        input,
        pos,
        negated,
        level: state.comment_level as int,
        within: opt_text(state.is_within_text_terminated_by),
        last: opt_text(state.last_token),
    }
}

/// The settings of the tokenizer that the reading of a token depends on.
pub open spec fn config(state: TokenizeState) -> LexConfig {
    LexConfig {
        unary_ok: !state.next_token_cannot_be_unary,
        include_comments: state.include_comments,
        max: state.max_string_len,
    }
}

/// A string literal that starts past the beginning of a line, or takes no line continuation,
/// never panics.
pub proof fn lemma_literal_no_panic(
    input: Seq<char>,
    pos: Position,
    last: Option<Seq<char>>,
    term: char,
    verbatim: bool,
    cont: bool,
    interp: bool,
    max: Option<usize>,
)
    requires
        pos.pos != 0 || !cont,
    ensures
        !(string_literal(input, pos, last, term, verbatim, cont, interp, max) is Panicked),
{
    let p = StrParams { term, verbatim, cont, interp, max, start: pos };
    let init = StrScan {
        input,
        pos,
        result: seq![],
        escape: false,
        first_char: Position { line: 0, pos: 0 },
        skip_space_until: 0,
        continued: false,
        within: Some(seq![term]),
        last: reset_last(last, seq![term]),
    };
    lemma_str_loop_no_panic(init, p);
}

/// A character literal that does not start with its closing quote has a character when it
/// ends.
pub proof fn lemma_char_nonempty(input: Seq<char>, pos: Position, last: Option<Seq<char>>, max: Option<usize>)
    requires
        first_of(input) != Some('\''),
    ensures
        string_literal(input, pos, last, '\'', false, false, false, max) matches StrOutcome::Ended(r, _)
            ==> r.result.len() > 0,
{
    let p = StrParams { term: '\'', verbatim: false, cont: false, interp: false, max, start: pos };
    let init = StrScan {
        input,
        pos,
        result: seq![],
        escape: false,
        first_char: Position { line: 0, pos: 0 },
        skip_space_until: 0,
        continued: false,
        within: Some(seq!['\'']),
        last: reset_last(last, seq!['\'']),
    };
    lemma_char_literal_nonempty(init, p);
}

/// A "within text" marker that names its closing text: none, or a non-empty text that starts
/// with an ASCII character.
pub open spec fn within_ok(w: Option<Seq<char>>) -> bool {
    match w {
        Some(t) => t.len() > 0 && (t[0] as u32) < 0x80,
        None => true,
    }
}

/// A "within text" marker that names its closing text: none, or a non-empty text.
pub open spec fn within_named(w: Option<Seq<char>>) -> bool {
    match w {
        Some(t) => t.len() > 0,
        None => true,
    }
}

/// The outcome of a string literal scan leaves the "within text" marker cleared, or naming the
/// closing character.
proof fn lemma_literal_within(
    input: Seq<char>,
    pos: Position,
    last: Option<Seq<char>>,
    term: char,
    verbatim: bool,
    cont: bool,
    interp: bool,
    max: Option<usize>,
)
    ensures
        match string_literal(input, pos, last, term, verbatim, cont, interp, max) {
            StrOutcome::Ended(r, _) => r.within is None || r.within == Some(seq![term]),
            StrOutcome::Failed(_, _, r) => r.within is None || r.within == Some(seq![term]),
            StrOutcome::Panicked => true,
        },
{
    let p = StrParams { term, verbatim, cont, interp, max, start: pos };
    let init = StrScan {
        input,
        pos,
        result: seq![],
        escape: false,
        first_char: Position { line: 0, pos: 0 },
        skip_space_until: 0,
        continued: false,
        within: Some(seq![term]),
        last: reset_last(last, seq![term]),
    };
    lemma_str_loop_within(init, p);
}

/// The outcome of a raw string scan leaves a proper "within text" marker.
proof fn lemma_raw_within(
    input: Seq<char>,
    pos: Position,
    within: Option<Seq<char>>,
    last: Option<Seq<char>>,
    hash_count: nat,
    max: Option<usize>,
)
    requires
        within_ok(within),
    ensures
        match raw_string_literal(input, pos, within, last, hash_count, max) {
            RawOutcome::Ended(r) => within_ok(r.within),
            RawOutcome::Failed(_, _, r) => within_ok(r.within),
        },
{
    let k = leading_hashes(input);
    let opening = if hash_count == 0 { k + 1 } else { hash_count };
    let rest = if hash_count == 0 { input.skip(k as int) } else { input };
    let pos1 = if hash_count == 0 { advanced_by(pos, k) } else { pos };
    let here = RawScan {
        input: rest,
        pos: pos1,
        result: seq![],
        seen: None,
        first_char: Position { line: 0, pos: 0 },
        within,
        last,
    };
    if !(hash_count == 0 && rest.len() == 0) && !(hash_count == 0 && rest[0] != '"') {
        let body = if hash_count == 0 { rest.drop_first() } else { rest };
        let pos2 = if hash_count == 0 { advanced(pos1) } else { pos1 };
        let init = RawScan {
            input: body,
            pos: pos2,
            within: Some(hashes(opening)),
            last: reset_last(last, hashes(opening).push('"')),
            ..here
        };
        lemma_raw_loop_within(init, opening, max, pos);
    }
}

/// What one step of the tokenizer found.
enum Stepped {
    /// The input ended before any character.
    End,
    /// A token, at a position.
    Found(Token, Position),
    /// Nothing yet; go on, with the position of a `-` read just before a number, if any.
    Again(Option<Position>),
}

/// The tokenizer settings that reading one token leaves alone (whether the current token text
/// is tracked among them).
pub open spec fn same_config(a: TokenizeState, b: TokenizeState) -> bool {
    &&& (a.last_token is Some) == (b.last_token is Some)
    &&& a.max_string_len == b.max_string_len
    &&& a.next_token_cannot_be_unary == b.next_token_cannot_be_unary
    &&& a.tokenizer_control == b.tokenizer_control
    &&& a.include_comments == b.include_comments
}

/// Reads a literal whose first character `c` has been read (see `literal_step`).
fn lex_literal<S: InputStream + ?Sized>(
    stream: &mut S,
    state: &mut TokenizeState,
    pos: &mut Position,
    c: char,
    negated: Option<Position>,
) -> (r: (Token, Position))
    requires
        old(pos).line >= 1,
        old(pos).pos >= 1,
        old(stream).remaining().len() < usize::MAX,
        starts_literal(c, first_of(old(stream).remaining())),
        old(state).is_within_text_terminated_by is None,
    ensures
        final(pos).line >= 1,
        within_ok(opt_text(final(state).is_within_text_terminated_by)),
        same_config(*old(state), *final(state)),
        final(state).comment_level == old(state).comment_level,
        final(stream).remaining().len() <= old(stream).remaining().len(),
        literal_step(c, scan_state(old(stream).remaining(), *old(pos), negated, *old(state)), config(*old(state)))
            == LexStep::Finish(
            LexOutcome::Token(
                r.0@,
                r.1,
                scan_state(final(stream).remaining(), *final(pos), negated, *final(state)),
            ),
        ),
{
    let start_pos = *pos;
    let ghost rest = stream.remaining();
    let cc = stream.peek_next();
    if c == '"' {
        proof {
            lemma_literal_no_panic(rest, start_pos, opt_text(state.last_token), '"', false, true, false, state.max_string_len);
            lemma_literal_within(rest, start_pos, opt_text(state.last_token), '"', false, true, false, state.max_string_len);
        }
        let res = parse_string_literal(stream, state, pos, c, false, true, false);
        return match res {
            Ok((text, _, _)) => (TokenOf::StringConstant(text), start_pos),
            Err((e, ep)) => (TokenOf::LexError(e), ep),
        };
    }
    if c == '`' {
        match cc {
            Some('\r') => {
                stream.eat_next_and_advance(pos);
                if stream.peek_next() == Some('\n') {
                    stream.eat_next_and_advance(pos);
                }
                pos.new_line();
            },
            Some('\n') => {
                stream.eat_next_and_advance(pos);
                pos.new_line();
            },
            _ => {},
        }
        proof {
            lemma_literal_no_panic(stream.remaining(), *pos, opt_text(state.last_token), '`', true, false, true, state.max_string_len);
            lemma_literal_within(stream.remaining(), *pos, opt_text(state.last_token), '`', true, false, true, state.max_string_len);
        }
        let res = parse_string_literal(stream, state, pos, c, true, false, true);
        return match res {
            Ok((text, interpolated, _)) => if interpolated {
                (TokenOf::InterpolatedString(text), start_pos)
            } else {
                (TokenOf::StringConstant(text), start_pos)
            },
            Err((e, ep)) => (TokenOf::LexError(e), ep),
        };
    }
    if c == '#' {
        proof {
            lemma_raw_within(rest, start_pos, opt_text(state.is_within_text_terminated_by), opt_text(state.last_token), 0, state.max_string_len);
        }
        let res = parse_raw_string_literal(stream, state, pos, 0);
        return match res {
            Ok((text, _)) => (TokenOf::StringConstant(text), start_pos),
            Err((e, ep)) => (TokenOf::LexError(e), ep),
        };
    }
    if cc == Some('\'') {
        return (TokenOf::LexError(LexErrorOf::MalformedChar(String::new())), start_pos);
    }
    proof {
        lemma_char_nonempty(rest, start_pos, opt_text(state.last_token), state.max_string_len);
        lemma_literal_no_panic(rest, start_pos, opt_text(state.last_token), '\'', false, false, false, state.max_string_len);
        lemma_literal_within(rest, start_pos, opt_text(state.last_token), '\'', false, false, false, state.max_string_len);
    }
    let res = parse_string_literal(stream, state, pos, c, false, false, false);
    match res {
        Ok((text, _, _)) => {
            let chars = chars_of_str(text.as_str());
            if chars.len() == 1 {
                (TokenOf::CharConstant(chars[0]), start_pos)
            } else {
                (TokenOf::LexError(LexErrorOf::MalformedChar(text)), start_pos)
            }
        },
        Err((e, ep)) => (TokenOf::LexError(e), ep),
    }
}

/// Reads a comment whose first `/` has been read (see `comment_step`); gives the comment, if it
/// is a token.
fn lex_comment<S: InputStream + ?Sized>(
    stream: &mut S,
    state: &mut TokenizeState,
    pos: &mut Position,
    negated: Option<Position>,
) -> (r: Option<Token>)
    requires
        old(pos).line >= 1,
        old(state).comment_level + 1 + old(stream).remaining().len() <= usize::MAX,
        starts_comment('/', first_of(old(stream).remaining())),
    ensures
        final(pos).line >= 1,
        final(state).is_within_text_terminated_by == old(state).is_within_text_terminated_by,
        same_config(*old(state), *final(state)),
        final(state).comment_level + final(stream).remaining().len() <= old(state).comment_level
            + old(stream).remaining().len(),
        ({
            let s2 = scan_state(final(stream).remaining(), *final(pos), negated, *final(state));
            comment_step(scan_state(old(stream).remaining(), *old(pos), negated, *old(state)), config(*old(state)))
                == match r {
                Some(t) => LexStep::Finish(LexOutcome::Token(t@, *old(pos), s2)),
                None => LexStep::Continue(s2),
            }
        }),
{
    let cc = stream.peek_next();
    if cc == Some('/') {
        stream.eat_next_and_advance(pos);
        let mut comment: Option<String> = if state.include_comments {
            Some(text_of("//"))
        } else {
            None
        };
        proof {
            reveal_strlit("//");
            assert("//"@ =~= seq!['/', '/']);
        }
        scan_line_comment(stream, pos, &mut comment);
        match comment {
            Some(t) => Some(TokenOf::Comment(t)),
            None => None,
        }
    } else {
        state.comment_level = state.comment_level + 1;
        stream.eat_next_and_advance(pos);
        let mut comment: Option<String> = if state.include_comments {
            Some(text_of("/*"))
        } else {
            None
        };
        proof {
            reveal_strlit("/*");
            assert("/*"@ =~= seq!['/', '*']);
        }
        state.comment_level = scan_block_comment(stream, state.comment_level, pos, &mut comment);
        match comment {
            Some(t) => Some(TokenOf::Comment(t)),
            None => None,
        }
    }
}

/// Reads a symbol, a word, or white space whose first character `c` has been read (see
/// `other_step`); gives the token, if there is one.
fn lex_other<S: InputStream + ?Sized>(
    stream: &mut S,
    state: &mut TokenizeState,
    pos: &mut Position,
    c: char,
    negated: Option<Position>,
) -> (r: Option<Token>)
    requires
        old(pos).line >= 1,
        old(stream).room() >= 1,
    ensures
        final(pos).line >= 1,
        final(state).is_within_text_terminated_by == old(state).is_within_text_terminated_by,
        same_config(*old(state), *final(state)),
        final(state).comment_level == old(state).comment_level,
        final(stream).remaining().len() <= old(stream).remaining().len(),
        ({
            let s2 = scan_state(final(stream).remaining(), *final(pos), negated, *final(state));
            other_step(c, scan_state(old(stream).remaining(), *old(pos), negated, *old(state)), config(*old(state)))
                == match r {
                Some(t) => LexStep::Finish(LexOutcome::Token(t@, *old(pos), s2)),
                None => LexStep::Continue(s2),
            }
        }),
{
    let start_pos = *pos;
    let ghost rest = stream.remaining();
    match lex_symbol(stream, pos, c, !state.next_token_cannot_be_unary) {
        Some(t) => {
            let ghost pair = symbol_step(c, rest, !state.next_token_cannot_be_unary)->0;
            let ghost k = pair.1;
            assert(k <= rest.len());
            assert(stream.remaining() == rest.skip(k as int));
            return Some(t);
        },
        None => {},
    }
    if is_id_first_alphabetic(c) || c == '_' {
        let (t, _) = parse_identifier_token(stream, &mut state.last_token, pos, start_pos, c);
        return Some(t);
    }
    if c == '\n' {
        pos.new_line();
        return None;
    }
    if is_ascii_whitespace(c) {
        return None;
    }
    Some(TokenOf::LexError(LexErrorOf::UnexpectedInput(char_to_string(c))))
}

/// One step of reading a token (see `lex_step`).
fn lex_one<S: InputStream + ?Sized>(
    stream: &mut S,
    state: &mut TokenizeState,
    pos: &mut Position,
    negated: Option<Position>,
) -> (r: Stepped)
    requires
        old(pos).line >= 1,
        old(state).comment_level + old(stream).remaining().len() < usize::MAX,
        old(state).is_within_text_terminated_by is None,
    ensures
        final(pos).line >= 1,
        within_ok(opt_text(final(state).is_within_text_terminated_by)),
        !(r is Found) ==> final(state).is_within_text_terminated_by is None,
        same_config(*old(state), *final(state)),
        final(state).comment_level + final(stream).remaining().len() <= old(state).comment_level
            + old(stream).remaining().len(),
        ({
            let s = scan_state(old(stream).remaining(), *old(pos), negated, *old(state));
            let cfg = config(*old(state));
            match r {
                Stepped::End => s.input.len() == 0 && *final(pos) == *old(pos) && final(stream).remaining()
                    == old(stream).remaining() && *final(state) == *old(state),
                Stepped::Found(t, p) => s.input.len() > 0 && lex_step(s, cfg) == LexStep::Finish(
                    LexOutcome::Token(
                        t@,
                        p,
                        scan_state(final(stream).remaining(), *final(pos), negated, *final(state)),
                    ),
                ),
                Stepped::Again(n) => s.input.len() > 0 && lex_step(s, cfg) == LexStep::Continue(
                    scan_state(final(stream).remaining(), *final(pos), n, *final(state)),
                ),
            }
        }),
{
    let got = stream.get_next();
    let c = match got {
        Some(c) => c,
        None => {
            return Stepped::End;
        },
    };
    pos.advance();
    let start_pos = *pos;
    let cc = stream.peek_next();
    if is_numeric_digit(c) {
        let (t, p) = lex_number(stream, pos, &mut state.last_token, c, negated, start_pos);
        return Stepped::Found(t, p);
    }
    if c == '"' || c == '`' || (c == '#' && (cc == Some('"') || cc == Some('#'))) || c == '\'' {
        let (t, p) = lex_literal(stream, state, pos, c, negated);
        return Stepped::Found(t, p);
    }
    if c == '-' && !state.next_token_cannot_be_unary {
        if let Some(d) = cc {
            if is_numeric_digit(d) {
                return Stepped::Again(Some(start_pos));
            }
        }
    }
    if c == '/' && (cc == Some('/') || cc == Some('*')) {
        return match lex_comment(stream, state, pos, negated) {
            Some(t) => Stepped::Found(t, start_pos),
            None => Stepped::Again(negated),
        };
    }
    match lex_other(stream, state, pos, c, negated) {
        Some(t) => Stepped::Found(t, start_pos),
        None => Stepped::Again(negated),
    }
}

/// Does the outcome give the token `t` at `p`, with the tokenizer left as the other arguments
/// say?
pub open spec fn outcome_is(
    o: LexOutcome,
    t: SpecToken,
    p: Position,
    input: Seq<char>,
    pos: Position,
    state: TokenizeState,
) -> bool {
    &&& o matches LexOutcome::Token(t2, p2, s2)
    &&& t2 == t && p2 == p
    &&& s2.input == input && s2.pos == pos
    &&& s2.level == state.comment_level as int
    &&& s2.within == opt_text(state.is_within_text_terminated_by)
    &&& s2.last == opt_text(state.last_token)
}

/// Reads characters until a token is found (see `lex_loop`).
fn lex_from<S: InputStream + ?Sized>(
    stream: &mut S,
    state: &mut TokenizeState,
    pos: &mut Position,
) -> (r: (Token, Position))
    requires
        old(pos).line >= 1,
        old(state).comment_level + old(stream).remaining().len() < usize::MAX,
        old(state).is_within_text_terminated_by is None,
    ensures
        outcome_is(
            lex_loop(scan_state(old(stream).remaining(), *old(pos), None, *old(state)), config(*old(state))),
            r.0@,
            r.1,
            final(stream).remaining(),
            *final(pos),
            *final(state),
        ),
        final(pos).line >= 1,
        within_ok(opt_text(final(state).is_within_text_terminated_by)),
        same_config(*old(state), *final(state)),
        final(state).comment_level + final(stream).remaining().len() <= old(state).comment_level
            + old(stream).remaining().len(),
{
    let mut negated: Option<Position> = None;
    let ghost cfg = config(*state);
    let ghost init = scan_state(stream.remaining(), *pos, None, *state);
    loop
        invariant
            lex_loop(scan_state(stream.remaining(), *pos, negated, *state), cfg) == lex_loop(init, cfg),
            init == scan_state(old(stream).remaining(), *old(pos), None, *old(state)),
            cfg == config(*old(state)),
            pos.line >= 1,
            state.is_within_text_terminated_by is None,
            same_config(*old(state), *state),
            state.comment_level + stream.remaining().len() <= old(state).comment_level
                + old(stream).remaining().len(),
            old(state).comment_level + old(stream).remaining().len() < usize::MAX,
        decreases stream.remaining().len(),
    {
        let ghost cur = scan_state(stream.remaining(), *pos, negated, *state);
        match lex_one(stream, state, pos, negated) {
            Stepped::End => {
                pos.advance();
                return (TokenOf::EOF, *pos);
            },
            Stepped::Found(t, p) => {
                return (t, p);
            },
            Stepped::Again(n) => {
                proof {
                    lemma_step_shrinks(cur, cfg);
                }
                negated = n;
            },
        }
    }
}

/// Reads the next token, after the rest of an open block comment (see `resume`).
fn lex_resume<S: InputStream + ?Sized>(
    stream: &mut S,
    state: &mut TokenizeState,
    pos: &mut Position,
) -> (r: (Token, Position))
    requires
        old(pos).line >= 1,
        old(state).comment_level + old(stream).remaining().len() < usize::MAX,
        within_named(opt_text(old(state).is_within_text_terminated_by)),
    ensures
        outcome_is(
            resume(scan_state(old(stream).remaining(), *old(pos), None, *old(state)), config(*old(state))),
            r.0@,
            r.1,
            final(stream).remaining(),
            *final(pos),
            *final(state),
        ),
        final(pos).line >= 1,
        within_named(opt_text(final(state).is_within_text_terminated_by)),
        within_ok(opt_text(old(state).is_within_text_terminated_by)) ==> within_ok(
            opt_text(final(state).is_within_text_terminated_by),
        ),
        same_config(*old(state), *final(state)),
        final(state).comment_level + final(stream).remaining().len() <= old(state).comment_level
            + old(stream).remaining().len(),
{
    reveal(resume);
    // Within text?
    match state.is_within_text_terminated_by.take() {
        Some(w) => {
            let chars = chars_of_str(w.as_str());
            if chars[0] == '#' {
                let n = string_len(&w);
                proof {
                    lemma_raw_within(stream.remaining(), *pos, None, opt_text(state.last_token), n as nat, state.max_string_len);
                }
                return match parse_raw_string_literal(stream, state, pos, n) {
                    Ok((text, first_pos)) => (TokenOf::StringConstant(text), first_pos),
                    Err((e, ep)) => (TokenOf::LexError(e), ep),
                };
            } else {
                let c = chars[0];
                proof {
                    lemma_literal_no_panic(stream.remaining(), *pos, opt_text(state.last_token), c, true, false, true, state.max_string_len);
                    lemma_literal_within(stream.remaining(), *pos, opt_text(state.last_token), c, true, false, true, state.max_string_len);
                }
                return match parse_string_literal(stream, state, pos, c, true, false, true) {
                    Ok((text, interpolated, first_pos)) => if interpolated {
                        (TokenOf::InterpolatedString(text), first_pos)
                    } else {
                        (TokenOf::StringConstant(text), first_pos)
                    },
                    Err((e, ep)) => (TokenOf::LexError(e), ep),
                };
            }
        },
        None => {},
    }
    lex_from(stream, state, pos)
}

/// Get the next token (see `next_token`).
fn get_next_token_inner<S: InputStream + ?Sized>(
    stream: &mut S,
    state: &mut TokenizeState,
    pos: &mut Position,
) -> (r: (Token, Position))
    requires
        old(pos).line >= 1,
        old(state).comment_level + old(stream).remaining().len() < usize::MAX,
        within_named(opt_text(old(state).is_within_text_terminated_by)),
    ensures
        outcome_is(
            next_token(scan_state(old(stream).remaining(), *old(pos), None, *old(state)), config(*old(state))),
            r.0@,
            r.1,
            final(stream).remaining(),
            *final(pos),
            *final(state),
        ),
        final(pos).line >= 1,
        within_named(opt_text(final(state).is_within_text_terminated_by)),
        within_ok(opt_text(old(state).is_within_text_terminated_by)) ==> within_ok(
            opt_text(final(state).is_within_text_terminated_by),
        ),
        same_config(*old(state), *final(state)),
        final(state).comment_level + final(stream).remaining().len() <= old(state).comment_level
            + old(stream).remaining().len(),
{
    if state.last_token.is_some() {
        state.last_token = Some(String::new());
    }
    let ghost s0 = scan_state(stream.remaining(), *pos, None, *state);
    assert(s0 == LexScan {
        last: reset_last(opt_text(old(state).last_token), seq![]),
        negated: None,
        ..scan_state(old(stream).remaining(), *old(pos), None, *old(state))
    });
    // Still inside a comment?
    if state.comment_level > 0 {
        let start_pos = *pos;
        let mut comment: Option<String> = if state.include_comments {
            Some(String::new())
        } else {
            None
        };
        proof {
            lemma_block_loop_shrinks(
                CommentScan {
                    input: stream.remaining(),
                    pos: *pos,
                    text: opt_text(comment),
                    level: state.comment_level as int,
                },
            );
        }
        state.comment_level = scan_block_comment(stream, state.comment_level, pos, &mut comment);
        if state.include_comments {
            let text = match comment {
                Some(t) => t,
                None => String::new(),
            };
            return (TokenOf::Comment(text), start_pos);
        }
        // Reached EOF without ending comment block?
        if state.comment_level > 0 {
            return (TokenOf::EOF, *pos);
        }
    }
    lex_resume(stream, state, pos)
}

/// Get the next token from the input stream, with its position; records whether a unary
/// operator may come next.
pub fn get_next_token<S: InputStream + ?Sized>(
    stream: &mut S,
    state: &mut TokenizeState,
    pos: &mut Position,
) -> (r: (Token, Position))
    requires
        old(pos).line >= 1,
        old(state).comment_level + old(stream).remaining().len() < usize::MAX,
        within_named(opt_text(old(state).is_within_text_terminated_by)),
    ensures
        outcome_is(
            next_token(scan_state(old(stream).remaining(), *old(pos), None, *old(state)), config(*old(state))),
            r.0@,
            r.1,
            final(stream).remaining(),
            *final(pos),
            *final(state),
        ),
        final(state).next_token_cannot_be_unary == !is_next_unary_spec(r.0@),
        final(state).max_string_len == old(state).max_string_len,
        final(state).tokenizer_control == old(state).tokenizer_control,
        final(state).include_comments == old(state).include_comments,
        (final(state).last_token is Some) == (old(state).last_token is Some),
        final(pos).line >= 1,
        within_named(opt_text(final(state).is_within_text_terminated_by)),
        within_ok(opt_text(old(state).is_within_text_terminated_by)) ==> within_ok(
            opt_text(final(state).is_within_text_terminated_by),
        ),
        final(state).comment_level + final(stream).remaining().len() <= old(state).comment_level
            + old(stream).remaining().len(),
{
    let result = get_next_token_inner(stream, state, pos);
    state.next_token_cannot_be_unary = !result.0.is_next_unary();
    result
}

} // verus!
