//! The engine settings that the tokenizer reads, and the token iterator.
use vstd::prelude::*;
use crate::position::{Position, advanced, next_line};
use crate::token::{Token, TokenOf, SpecToken, has_syntax, syntax_of, is_next_unary_spec, token_text};
use crate::error::LexErrorOf;
use crate::state::{TokenizeState, TokenizerControlBlock, opt_text};
use crate::stream::{InputStream, MultiInputsStream, joined};
use crate::tokenize::{
    get_next_token, next_token, scan_state, config, within_named, LexScan, LexOutcome,
};
use crate::identifiers::{is_valid_identifier, is_valid_identifier_spec};
use crate::chars::{id_start, id_continue, is_id_first_alphabetic, is_id_continue};
use crate::text::{chars_of_str, chars_eq, string_push, string_push_str, string_from_chars};
use crate::lexer::text_of;

verus! {

/// The settings of a scripting engine that the tokenizer reads.
pub struct Engine {
    /// Custom keywords and symbols.
    pub custom_keywords: Vec<String>,
    /// Keywords and symbols that are disabled.
    pub disabled_symbols: Vec<String>,
    /// The maximum length of a string, in UTF-8 bytes; zero for no limit.
    pub max_string_size: usize,
}

/// Is `s` one of the texts of `v`?
pub open spec fn has_text(v: Seq<String>, s: Seq<char>) -> bool {
    exists|i: int| 0 <= i < v.len() && #[trigger] v[i]@ == s
}

/// Is `s` one of the texts of `v`?
fn contains_text(v: &Vec<String>, s: &str) -> (r: bool)
    ensures
        r == has_text(v@, s@),
{
    let target = chars_of_str(s);
    let mut i: usize = 0;
    while i < v.len()
        invariant
            i <= v@.len(),
            target@ == s@,
            forall|j: int| 0 <= j < i ==> #[trigger] v@[j]@ != s@,
        decreases v.len() - i,
    {
        let item = chars_of_str(v[i].as_str());
        if chars_eq(item.as_slice(), target.as_slice()) {
            return true;
        }
        i = i + 1;
    }
    false
}

impl Engine {
    /// Is `s` a custom keyword or symbol?
    pub open spec fn is_custom_spec(&self, s: Seq<char>) -> bool {
        has_text(self.custom_keywords@, s)
    }

    /// Is the keyword or symbol `s` disabled?
    pub open spec fn is_disabled_spec(&self, s: Seq<char>) -> bool {
        has_text(self.disabled_symbols@, s)
    }

    /// Is `s` a custom keyword or symbol?
    pub fn is_custom_keyword(&self, s: &str) -> (r: bool)
        ensures
            r == self.is_custom_spec(s@),
    {
        contains_text(&self.custom_keywords, s)
    }

    /// Is a particular keyword or symbol disabled?
    pub fn is_symbol_disabled(&self, s: &str) -> (r: bool)
        ensures
            r == self.is_disabled_spec(s@),
    {
        contains_text(&self.disabled_symbols, s)
    }

    /// The maximum length of a string, in UTF-8 bytes (zero for no limit).
    pub fn max_string_size(&self) -> (r: usize)
        ensures
            r == self.max_string_size,
    {
        self.max_string_size
    }

    /// Tokenize the input texts, joined together.
    pub fn lex_raw<'a>(&'a self, inputs: &[&str]) -> (r: TokenIterator<'a>)
        requires
            joined(inputs@.map_values(|s: &str| s@)).len() < usize::MAX,
        ensures
            r.engine == self,
            r.wf(),
            r.stream.remaining() == joined(inputs@.map_values(|s: &str| s@)),
            r.pos == (Position { line: 1, pos: 0 }),
            r.state.max_string_len == (if self.max_string_size == 0 {
                None
            } else {
                Some(self.max_string_size)
            }),
            !r.state.next_token_cannot_be_unary,
            !r.state.tokenizer_control.is_within_text,
            !r.state.tokenizer_control.in_char_mode,
            r.state.tokenizer_control.compressed is None,
            r.state.comment_level == 0,
            !r.state.include_comments,
            r.state.is_within_text_terminated_by is None,
            r.state.last_token is None,
    {
        let max = self.max_string_size();
        TokenIterator {
            engine: self,
            state: TokenizeState {
                max_string_len: if max == 0 {
                    None
                } else {
                    Some(max)
                },
                next_token_cannot_be_unary: false,
                tokenizer_control: TokenizerControlBlock::new(),
                comment_level: 0,
                include_comments: false,
                is_within_text_terminated_by: None,
                last_token: None,
            },
            pos: Position::new(1, 0),
            stream: MultiInputsStream::new(inputs),
        }
    }
}

/// An iterator on a token stream.
pub struct TokenIterator<'a> {
    /// The engine whose settings apply.
    pub engine: &'a Engine,
    /// Current state.
    pub state: TokenizeState,
    /// Current position.
    pub pos: Position,
    /// Input character stream.
    pub stream: MultiInputsStream,
}


/// The description of an improper symbol (one from another language), if `s` is one.
pub open spec fn improper_message(s: Seq<char>) -> Option<Seq<char>> {
    if s == "==="@ {
        Some("'===' is not a valid operator. This is not JavaScript! Should it be '=='?"@)
    } else if s == "!=="@ {
        Some("'!==' is not a valid operator. This is not JavaScript! Should it be '!='?"@)
    } else if s == "->"@ {
        Some("'->' is not a valid symbol. This is not C or C++!"@)
    } else if s == "<-"@ {
        Some("'<-' is not a valid symbol. This is not Go! Should it be '<='?"@)
    } else if s == ":="@ {
        Some("':=' is not a valid assignment operator. This is not Go or Pascal! Should it be simply '='?"@)
    } else if s == ":;"@ {
        Some("':;' is not a valid symbol. Should it be '::'?"@)
    } else if s == "::<"@ {
        Some("'::<>' is not a valid symbol. This is not Rust! Should it be '::'?"@)
    } else if s == "(*"@ || s == "*)"@ {
        Some("'(* .. *)' is not a valid comment format. This is not Pascal! Should it be '/* .. */'?"@)
    } else if s == "# {"@ {
        Some("'#' is not a valid symbol. Should it be '#{'?"@)
    } else {
        None
    }
}

/// The description of a disabled reserved keyword or symbol.
pub open spec fn disabled_message(s: Seq<char>) -> Seq<char> {
    "reserved "@ + (if is_valid_identifier_spec(s) {
        "keyword"@
    } else {
        "symbol"@
    }) + " '"@ + s + "' is disabled"@
}

/// What the engine's custom and disabled keywords and symbols make of a token: a custom
/// keyword or symbol becomes a custom token; an improper or disabled reserved symbol becomes an
/// error; a disabled keyword or symbol becomes reserved.
pub open spec fn map_token(e: &Engine, t: SpecToken) -> SpecToken {
    match t {
        TokenOf::Reserved(s) => if e.is_custom_spec(s) {
            TokenOf::Custom(s)
        } else if improper_message(s) is Some {
            TokenOf::LexError(LexErrorOf::ImproperSymbol(s, improper_message(s)->0))
        } else if e.is_disabled_spec(s) {
            TokenOf::LexError(LexErrorOf::ImproperSymbol(s, disabled_message(s)))
        } else {
            TokenOf::Reserved(s)
        },
        TokenOf::Identifier(s) => if e.is_custom_spec(s) {
            TokenOf::Custom(s)
        } else {
            TokenOf::Identifier(s)
        },
        _ => if has_syntax(t) && e.is_custom_spec(syntax_of(t)) {
            TokenOf::Custom(syntax_of(t))
        } else if has_syntax(t) && e.is_disabled_spec(syntax_of(t)) {
            TokenOf::Reserved(syntax_of(t))
        } else {
            t
        },
    }
}

/// May `c` stand in a word (an identifier or keyword)?
pub open spec fn word_char(c: char) -> bool {
    c == '_' || id_start(c) || id_continue(c)
}

/// Appends the text of a token to a compressed script, with a space between two words.
pub open spec fn join_compressed(c: Seq<char>, buf: Seq<char>) -> Seq<char> {
    if buf.len() > 0 && c.len() > 0 && word_char(buf[0]) && word_char(c.last()) {
        c + seq![' '] + buf
    } else {
        c + buf
    }
}

/// The compressed script after a token `t` whose text, as read, is `last`: the token's
/// display when nothing was read as its text; the rest of a string's text after its opening
/// character when the string continues an interpolated one; else the text as read.
pub open spec fn compressed_after(c: Seq<char>, last: Seq<char>, t: SpecToken, within: bool) -> Seq<char> {
    if last.len() == 0 {
        join_compressed(c, token_text(t))
    } else if within && (t is StringConstant || t is InterpolatedString) {
        c + last.drop_first()
    } else {
        join_compressed(c, last)
    }
}

/// Is the text the one of the string slice?
fn is_text(s: &[char], t: &str) -> (r: bool)
    ensures
        r == (s@ == t@),
{
    let tc = chars_of_str(t);
    chars_eq(s, tc.as_slice())
}

/// The description of an improper symbol (see `improper_message`).
fn improper_message_of(s: &[char]) -> (r: Option<String>)
    ensures
        match r {
            Some(m) => improper_message(s@) == Some(m@),
            None => improper_message(s@) is None,
        },
{
    if is_text(s, "===") {
        Some(text_of("'===' is not a valid operator. This is not JavaScript! Should it be '=='?"))
    } else if is_text(s, "!==") {
        Some(text_of("'!==' is not a valid operator. This is not JavaScript! Should it be '!='?"))
    } else if is_text(s, "->") {
        Some(text_of("'->' is not a valid symbol. This is not C or C++!"))
    } else if is_text(s, "<-") {
        Some(text_of("'<-' is not a valid symbol. This is not Go! Should it be '<='?"))
    } else if is_text(s, ":=") {
        Some(
            text_of(
                "':=' is not a valid assignment operator. This is not Go or Pascal! Should it be simply '='?",
            ),
        )
    } else if is_text(s, ":;") {
        Some(text_of("':;' is not a valid symbol. Should it be '::'?"))
    } else if is_text(s, "::<") {
        Some(text_of("'::<>' is not a valid symbol. This is not Rust! Should it be '::'?"))
    } else if is_text(s, "(*") || is_text(s, "*)") {
        Some(
            text_of(
                "'(* .. *)' is not a valid comment format. This is not Pascal! Should it be '/* .. */'?",
            ),
        )
    } else if is_text(s, "# {") {
        Some(text_of("'#' is not a valid symbol. Should it be '#{'?"))
    } else {
        None
    }
}

impl Engine {
    /// What the engine's custom and disabled keywords and symbols make of a token (see
    /// `map_token`).
    pub fn map_token(&self, t: Token) -> (r: Token)
        ensures
            r@ == map_token(self, t@),
    {
        match t {
            TokenOf::Reserved(s) => {
                if self.is_custom_keyword(s.as_str()) {
                    return TokenOf::Custom(s);
                }
                let chars = chars_of_str(s.as_str());
                match improper_message_of(chars.as_slice()) {
                    Some(m) => {
                        return TokenOf::LexError(LexErrorOf::ImproperSymbol(s, m));
                    },
                    None => {},
                }
                if self.is_symbol_disabled(s.as_str()) {
                    let mut msg = text_of("reserved ");
                    if is_valid_identifier(s.as_str()) {
                        string_push_str(&mut msg, "keyword");
                    } else {
                        string_push_str(&mut msg, "symbol");
                    }
                    string_push_str(&mut msg, " '");
                    string_push_str(&mut msg, s.as_str());
                    string_push_str(&mut msg, "' is disabled");
                    proof {
                        assert(msg@ =~= disabled_message(s@));
                    }
                    return TokenOf::LexError(LexErrorOf::ImproperSymbol(s, msg));
                }
                TokenOf::Reserved(s)
            },
            TokenOf::Identifier(s) => {
                if self.is_custom_keyword(s.as_str()) {
                    TokenOf::Custom(s)
                } else {
                    TokenOf::Identifier(s)
                }
            },
            _ => {
                if t.has_literal_syntax() {
                    let syntax = t.literal_syntax();
                    if self.is_custom_keyword(syntax) {
                        return TokenOf::Custom(text_of(syntax));
                    }
                    if self.is_symbol_disabled(syntax) {
                        return TokenOf::Reserved(text_of(syntax));
                    }
                }
                t
            },
        }
    }
}

/// Appends `buf` to a compressed script (see `join_compressed`).
fn join_into(compressed: &mut String, buf: &String)
    ensures
        final(compressed)@ == join_compressed(old(compressed)@, buf@),
{
    let b = chars_of_str(buf.as_str());
    let c = chars_of_str(compressed.as_str());
    if b.len() > 0 && c.len() > 0 {
        let cur = b[0];
        if cur == '_' || is_id_first_alphabetic(cur) || is_id_continue(cur) {
            let prev = c[c.len() - 1];
            if prev == '_' || is_id_first_alphabetic(prev) || is_id_continue(prev) {
                string_push(compressed, ' ');
            }
        }
    }
    string_push_str(compressed, buf.as_str());
    assert(final(compressed)@ =~= join_compressed(old(compressed)@, buf@));
}

/// Appends a token to a compressed script (see `compressed_after`).
fn compress_token(compressed: &mut String, last: &String, token: &Token, within: bool)
    ensures
        final(compressed)@ == compressed_after(old(compressed)@, last@, token@, within),
{
    let lc = chars_of_str(last.as_str());
    if lc.len() == 0 {
        let buf = token.to_text();
        join_into(compressed, &buf);
    } else if within && (matches!(token, TokenOf::StringConstant(_)) || matches!(token, TokenOf::InterpolatedString(_))) {
        let rest = crate::lexer::chars_from(lc.as_slice(), 1);
        let tail = string_from_chars(rest.as_slice());
        string_push_str(compressed, tail.as_str());
        assert(lc@.skip(1) =~= last@.drop_first());
    } else {
        join_into(compressed, last);
    }
}

impl<'a> TokenIterator<'a> {
    /// The iterator can read on: its position names a line, the comment nesting level and the
    /// input left fit in `usize`, and the "within text" marker names a closing text.
    pub open spec fn wf(&self) -> bool {
        &&& self.pos.line >= 1
        &&& self.state.comment_level + self.stream.remaining().len() < usize::MAX
        &&& within_named(opt_text(self.state.is_within_text_terminated_by))
    }

    /// The "within text" marker that a call of `next` starts reading with.
    pub open spec fn within_start(&self) -> Option<Seq<char>> {
        if self.state.tokenizer_control.is_within_text {
            Some(seq!['`'])
        } else {
            opt_text(self.state.is_within_text_terminated_by)
        }
    }

    /// Where a call of `next` that reads a token starts reading from.
    pub open spec fn start_scan(&self) -> LexScan {
        LexScan {
            input: self.stream.remaining(),
            pos: self.pos,
            negated: None,
            level: self.state.comment_level as int,
            within: self.within_start(),
            last: opt_text(self.state.last_token),
        }
    }

    /// Does a call of `next` read a token (rather than a raw character)?
    pub open spec fn reads_token(&self) -> bool {
        !(self.state.tokenizer_control.in_char_mode && self.stream.remaining().len() > 0)
    }

    /// The token that a call of `next` reads, before the engine and the mapper see it.
    pub open spec fn token_read(&self) -> SpecToken {
        next_token(self.start_scan(), config(self.state))->0
    }

    /// The text read for the token that a call of `next` reads, if it is tracked.
    pub open spec fn text_read(&self) -> Option<Seq<char>> {
        next_token(self.start_scan(), config(self.state))->2.last
    }

    /// Does a call of `next` pass the token it reads on (to the engine's keywords, the mapper and
    /// the compressed script): it reads a token, neither an end of file nor a string left
    /// unterminated at the end of the input?
    pub open spec fn passes_token(&self) -> bool {
        &&& self.reads_token()
        &&& !(self.token_read() is EOF)
        &&& !(self.token_read() is StringConstant && next_token(self.start_scan(), config(self.state))->2.within is Some)
    }

    /// Would the compressed script, collecting a string token `t` read on from an interpolated
    /// string, have to drop a first character of the text read that is not one byte long?
    pub open spec fn splits_text_head(&self, t: SpecToken) -> bool {
        &&& self.within_start() is Some
        &&& (t is StringConstant || t is InterpolatedString)
        &&& self.text_read() matches Some(l)
        &&& l.len() > 0
        &&& (l[0] as u32) >= 0x80
    }

    /// What a call of `next` (with a token mapper whose results `mapped` allows) does:
    /// `self` is the iterator before the call and `after` the iterator after it; `t` and `p`
    /// are the token and position returned.
    pub open spec fn next_spec(
        &self,
        after: &Self,
        t: Token,
        p: Position,
        mapped: spec_fn(SpecToken, Position, TokenizeState, Token) -> bool,
    ) -> bool {
        let old_st = self.state;
        let ctl = old_st.tokenizer_control;
        let new_st = after.state;
        let within0 = if ctl.is_within_text {
            Some(seq!['`'])
        } else {
            opt_text(old_st.is_within_text_terminated_by)
        };
        let input = self.stream.remaining();
        &&& !new_st.tokenizer_control.is_within_text
        &&& !new_st.tokenizer_control.in_char_mode
        &&& new_st.max_string_len == old_st.max_string_len
        &&& new_st.include_comments == old_st.include_comments
        &&& if ctl.in_char_mode && input.len() > 0 {
            let ch = input[0];
            &&& t@ == TokenOf::<Seq<char>>::UnprocessedRawChar(ch)
            &&& p == self.pos
            &&& after.stream.remaining() == input.drop_first()
            &&& after.pos == if ch == '\n' {
                next_line(self.pos)
            } else {
                advanced(self.pos)
            }
            &&& opt_text(new_st.tokenizer_control.compressed) == crate::state::push_last(
                opt_text(ctl.compressed),
                ch,
            )
            &&& opt_text(new_st.is_within_text_terminated_by) == within0
            &&& new_st.last_token == old_st.last_token
            &&& new_st.comment_level == old_st.comment_level
            &&& new_st.next_token_cannot_be_unary == old_st.next_token_cannot_be_unary
        } else {
            let s = LexScan {
                input,
                pos: self.pos,
                negated: None,
                level: old_st.comment_level as int,
                within: within0,
                last: opt_text(old_st.last_token),
            };
            &&& next_token(s, config(old_st)) matches LexOutcome::Token(t0, p0, s2)
            &&& after.stream.remaining() == s2.input
            &&& after.pos == s2.pos
            &&& new_st.comment_level == s2.level
            &&& opt_text(new_st.last_token) == s2.last
            &&& new_st.next_token_cannot_be_unary == !is_next_unary_spec(t0)
            &&& p == p0
            &&& if t0 is EOF {
                &&& t@ == t0
                &&& opt_text(new_st.is_within_text_terminated_by) == s2.within
                &&& new_st.tokenizer_control.compressed == ctl.compressed
            } else if t0 is StringConstant && s2.within is Some {
                &&& t@ == TokenOf::<Seq<char>>::LexError(LexErrorOf::UnterminatedString)
                &&& new_st.is_within_text_terminated_by is None
                &&& new_st.tokenizer_control.compressed == ctl.compressed
            } else {
                &&& mapped(
                    map_token(self.engine, t0),
                    p0,
                    TokenizeState {
                        tokenizer_control: TokenizerControlBlock {
                            compressed: ctl.compressed,
                            ..new_st.tokenizer_control
                        },
                        ..new_st
                    },
                    t,
                )
                &&& opt_text(new_st.is_within_text_terminated_by) == s2.within
                &&& opt_text(new_st.tokenizer_control.compressed) == match opt_text(ctl.compressed) {
                    Some(c) => if t@ is EOF {
                        Some(c)
                    } else {
                        Some(compressed_after(c, s2.last->0, t@, within0 is Some))
                    },
                    None => None,
                }
            }
        }
    }

    /// The next token and its position.  In character mode (set by the tokenizer control
    /// block), the next character of the input is given as a raw character instead.  A string
    /// left unterminated at the end of the input is an error; an end of file is returned as
    /// it is; any other token is passed through the engine's custom and disabled keywords and
    /// symbols, and added to the compressed script if one is being collected.
    pub fn next(&mut self) -> (r: Option<(Token, Position)>)
        requires
            old(self).wf(),
            old(self).state.tokenizer_control.compressed is Some && old(self).passes_token() ==> {
                &&& old(self).state.last_token is Some
                &&& !old(self).splits_text_head(old(self).token_read())
            },
        ensures
            final(self).wf(),
            final(self).engine == old(self).engine,
            r matches Some((t, p)) && old(self).next_spec(
                &*final(self),
                t,
                p,
                |tin: SpecToken, q: Position, st: TokenizeState, t2: Token| t2@ == tin,
            ),
    {
        self.next_with_map(&keep_token)
    }

    /// The next token and its position, as `next` gives them, but with every token that `next`
    /// passes through the engine's keywords and symbols also passed through `mapper` (with its
    /// position and the tokenizer state), before it is added to the compressed script.
    pub fn next_with_map<F: Fn(Token, Position, &TokenizeState) -> Token>(&mut self, mapper: &F) -> (r: Option<(Token, Position)>)
        requires
            old(self).wf(),
            old(self).state.tokenizer_control.compressed is Some && old(self).passes_token() ==> forall|
                x: Token,
                q: Position,
                st: TokenizeState,
                t: Token,
            |
                x@ == map_token(old(self).engine, old(self).token_read()) && #[trigger] call_ensures(
                    *mapper,
                    (x, q, &st),
                    t,
                ) && !(t is EOF) ==> {
                    &&& old(self).state.last_token is Some
                    &&& !old(self).splits_text_head(t@)
                },
            forall|t: Token, q: Position, st: TokenizeState| call_requires(*mapper, (t, q, &st)),
        ensures
            final(self).wf(),
            final(self).engine == old(self).engine,
            r matches Some((t, p)) && old(self).next_spec(
                &*final(self),
                t,
                p,
                |tin: SpecToken, q: Position, st: TokenizeState, t2: Token|
                    exists|x: Token| x@ == tin && call_ensures(*mapper, (x, q, &st), t2),
            ),
    {
        if self.state.tokenizer_control.is_within_text {
            // Switch to text mode terminated by back-tick
            self.state.is_within_text_terminated_by = Some(text_of("`"));
            proof {
                reveal_strlit("`");
                assert("`"@ =~= seq!['`']);
            }
            self.state.tokenizer_control.is_within_text = false;
        }
        let char_mode = self.state.tokenizer_control.in_char_mode;
        self.state.tokenizer_control.in_char_mode = false;
        let within_interpolated = self.state.is_within_text_terminated_by.is_some();
        let compress_script = self.state.tokenizer_control.compressed.is_some();
        if char_mode {
            match self.stream.get_next() {
                Some(ch) => {
                    let pos = self.pos;
                    if ch == '\n' {
                        self.pos.new_line();
                    } else {
                        self.pos.advance();
                    }
                    if compress_script {
                        crate::state::push_last_token(&mut self.state.tokenizer_control.compressed, ch);
                    }
                    return Some((TokenOf::UnprocessedRawChar(ch), pos));
                },
                None => {},
            }
        }
        let ghost s0 = scan_state(self.stream.remaining(), self.pos, None, self.state);
        let ghost cfg = config(self.state);
        let (token, pos) = get_next_token(&mut self.stream, &mut self.state, &mut self.pos);
        if matches!(token, TokenOf::EOF) {
            return Some((token, pos));
        }
        if matches!(token, TokenOf::StringConstant(_)) && self.state.is_within_text_terminated_by.is_some() {
            self.state.is_within_text_terminated_by = None;
            return Some((TokenOf::LexError(LexErrorOf::UnterminatedString), pos));
        }
        let token = self.engine.map_token(token);
        let token = mapper(token, pos, &self.state);
        if compress_script && !matches!(token, TokenOf::EOF) {
            if let Some(mut compressed) = self.state.tokenizer_control.compressed.take() {
                match &self.state.last_token {
                    Some(last) => compress_token(&mut compressed, last, &token, within_interpolated),
                    None => {},
                }
                self.state.tokenizer_control.compressed = Some(compressed);
            }
        }
        Some((token, pos))
    }
}

/// A token mapper that keeps every token as it is.
fn keep_token(t: Token, _pos: Position, _state: &TokenizeState) -> (r: Token)
    ensures
        r == t,
{
    t
}

} // verus!
