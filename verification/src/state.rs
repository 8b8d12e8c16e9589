//! The state of the tokenizer between tokens.
use vstd::prelude::*;

verus! {

/// Commands to control the tokenizer from outside.
#[derive(Debug, Clone, PartialEq, Eq, Default, Hash)]
pub struct TokenizerControlBlock {
    /// Is the current tokenizer position within an interpolated text string?
    ///
    /// This flag allows switching the tokenizer back to _text_ parsing after an interpolation
    /// stream.
    pub is_within_text: bool,
    /// Return the next character in the input stream instead of the next token?
    pub in_char_mode: bool,
    /// Whitespace-compressed version of the script (if any).
    ///
    /// Set to `Some` in order to collect a compressed script.
    pub compressed: Option<String>,
}

impl TokenizerControlBlock {
    /// Create a new `TokenizerControlBlock`.
    pub fn new() -> (r: Self)
        ensures
            !r.is_within_text,
            !r.in_char_mode,
            r.compressed is None,
    {
        TokenizerControlBlock { is_within_text: false, in_char_mode: false, compressed: None }
    }
}

/// State of the tokenizer.
#[derive(Debug, Clone, PartialEq, Eq, Default)]
pub struct TokenizeState {
    /// Maximum length of a string (in bytes), if any.
    pub max_string_len: Option<usize>,
    /// Can the next token be a unary operator?
    pub next_token_cannot_be_unary: bool,
    /// Commands that control the tokenizer from outside.
    pub tokenizer_control: TokenizerControlBlock,
    /// Is the tokenizer currently inside a block comment?
    pub comment_level: usize,
    /// Include comments?
    pub include_comments: bool,
    /// Is the current tokenizer position within the text stream of an interpolated string?
    pub is_within_text_terminated_by: Option<String>,
    /// Textual syntax of the current token, if any.
    ///
    /// Set to `Some` to begin tracking this information.
    pub last_token: Option<String>,
}

/// The model of an optional string.
pub open spec fn opt_text(o: Option<String>) -> Option<Seq<char>> {
    match o {
        Some(s) => Some(s@),
        None => None,
    }
}

/// Appends a character to an optional text, if there is one.
pub open spec fn push_last(last: Option<Seq<char>>, c: char) -> Option<Seq<char>> {
    match last {
        Some(l) => Some(l.push(c)),
        None => None,
    }
}

/// Replaces an optional text by `t`, if there is one.
pub open spec fn reset_last(last: Option<Seq<char>>, t: Seq<char>) -> Option<Seq<char>> {
    match last {
        Some(_) => Some(t),
        None => None,
    }
}

/// Appends a character to the textual syntax of the current token, if it is being tracked.
pub fn push_last_token(last: &mut Option<String>, c: char)
    ensures
        opt_text(*final(last)) == push_last(opt_text(*old(last)), c),
{
    if let Some(mut s) = last.take() {
        crate::text::string_push(&mut s, c);
        *last = Some(s);
    }
}

/// Replaces the textual syntax of the current token by one character, if it is being tracked.
pub fn reset_last_token_char(last: &mut Option<String>, c: char)
    ensures
        opt_text(*final(last)) == reset_last(opt_text(*old(last)), seq![c]),
{
    if last.is_some() {
        *last = Some(crate::text::char_to_string(c));
    }
}

} // verus!
