//! Errors found while tokenizing a script.
use vstd::prelude::*;
use crate::text::{string_push_str, push_nat_digits, nat_digits};

verus! {

/// An error found while tokenizing a script, generic over the type of the text it carries.
#[derive(Debug, PartialEq, Eq, Clone, Hash)]
pub enum LexErrorOf<S> {
    /// An unexpected symbol is encountered.
    UnexpectedInput(S),
    /// A string literal is not terminated before a new-line or EOF.
    UnterminatedString,
    /// An identifier or string literal is longer than the maximum allowed length.
    StringTooLong(usize),
    /// An string/character/numeric escape sequence is in an invalid format.
    MalformedEscapeSequence(S),
    /// An numeric literal is in an invalid format.
    MalformedNumber(S),
    /// An character literal is in an invalid format.
    MalformedChar(S),
    /// An identifier is in an invalid format.
    MalformedIdentifier(S),
    /// Bad symbol encountered: the symbol and a description.
    ImproperSymbol(S, S),
}

/// An error found while tokenizing a script.
pub type LexError = LexErrorOf<String>;

/// The model of a lexing error.
pub type SpecLexError = LexErrorOf<Seq<char>>;

impl View for LexErrorOf<String> {
    type V = SpecLexError;

    open spec fn view(&self) -> SpecLexError {
        match self {
            LexErrorOf::UnexpectedInput(s) => LexErrorOf::UnexpectedInput(s@),
            LexErrorOf::UnterminatedString => LexErrorOf::UnterminatedString,
            LexErrorOf::StringTooLong(n) => LexErrorOf::StringTooLong(*n),
            LexErrorOf::MalformedEscapeSequence(s) => LexErrorOf::MalformedEscapeSequence(s@),
            LexErrorOf::MalformedNumber(s) => LexErrorOf::MalformedNumber(s@),
            LexErrorOf::MalformedChar(s) => LexErrorOf::MalformedChar(s@),
            LexErrorOf::MalformedIdentifier(s) => LexErrorOf::MalformedIdentifier(s@),
            LexErrorOf::ImproperSymbol(s, d) => LexErrorOf::ImproperSymbol(s@, d@),
        }
    }
}

/// The message of a lexing error.
pub open spec fn error_text(e: SpecLexError) -> Seq<char> {
    match e {
        LexErrorOf::UnexpectedInput(s) => "Unexpected '"@ + s + "'"@,
        LexErrorOf::MalformedEscapeSequence(s) => "Invalid escape sequence: '"@ + s + "'"@,
        LexErrorOf::MalformedNumber(s) => "Invalid number: '"@ + s + "'"@,
        LexErrorOf::MalformedChar(s) => "Invalid character: '"@ + s + "'"@,
        LexErrorOf::MalformedIdentifier(s) => "Variable name is not proper: '"@ + s + "'"@,
        LexErrorOf::UnterminatedString => "Open string is not terminated"@,
        LexErrorOf::StringTooLong(max) => "String is too long (max "@ + nat_digits(max as nat)
            + ")"@,
        LexErrorOf::ImproperSymbol(s, d) => if d.len() == 0 {
            "Invalid symbol encountered: '"@ + s + "'"@
        } else {
            d
        },
    }
}

fn quoted(prefix: &str, s: &String) -> (r: String)
    ensures
        r@ == prefix@ + s@ + "'"@,
{
    let mut r = String::new();
    string_push_str(&mut r, prefix);
    string_push_str(&mut r, s.as_str());
    string_push_str(&mut r, "'");
    assert(r@ =~= prefix@ + s@ + "'"@);
    r
}

impl LexErrorOf<String> {
    /// The message of the error.
    pub fn to_text(&self) -> (r: String)
        ensures
            r@ == error_text(self@),
    {
        match self {
            LexErrorOf::UnexpectedInput(s) => quoted("Unexpected '", s),
            LexErrorOf::MalformedEscapeSequence(s) => quoted("Invalid escape sequence: '", s),
            LexErrorOf::MalformedNumber(s) => quoted("Invalid number: '", s),
            LexErrorOf::MalformedChar(s) => quoted("Invalid character: '", s),
            LexErrorOf::MalformedIdentifier(s) => quoted("Variable name is not proper: '", s),
            LexErrorOf::UnterminatedString => {
                let mut r = String::new();
                string_push_str(&mut r, "Open string is not terminated");
                assert(r@ =~= "Open string is not terminated"@);
                r
            },
            LexErrorOf::StringTooLong(max) => {
                let mut r = String::new();
                string_push_str(&mut r, "String is too long (max ");
                push_nat_digits(&mut r, *max as u64);
                string_push_str(&mut r, ")");
                assert(r@ =~= "String is too long (max "@ + nat_digits(*max as nat) + ")"@);
                r
            },
            LexErrorOf::ImproperSymbol(s, d) => {
                if d.as_str().is_empty() {
                    quoted("Invalid symbol encountered: '", s)
                } else {
                    d.clone()
                }
            },
        }
    }
}

} // verus!
