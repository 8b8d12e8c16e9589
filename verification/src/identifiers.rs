//! Identifiers, function names and comments.
use vstd::prelude::*;
use crate::position::{Position, advanced_by};
use crate::token::{Token, TokenOf, SpecToken};
use crate::error::LexErrorOf;
use crate::stream::{InputStream, room_kept};
use crate::chars::{id_start, id_continue, is_id_first_alphabetic, is_id_continue};
use crate::keywords::{symbol_from_syntax, reserved_info, symbol_from_chars, reserved_info_of_chars};
use crate::state::{opt_text, reset_last};
use crate::text::{chars_of_str, string_from_chars};

verus! {

/// Is `c` an ASCII letter or digit?
pub open spec fn is_ascii_alphanumeric_spec(c: char) -> bool {
    ('a' <= c && c <= 'z') || ('A' <= c && c <= 'Z') || ('0' <= c && c <= '9')
}

/// May `c` stand in an identifier after its first letter?
pub open spec fn ident_char(c: char) -> bool {
    c == '_' || id_start(c) || is_ascii_alphanumeric_spec(c)
}

/// The number of `_` characters at the start of `s`.
pub open spec fn leading_underscores(s: Seq<char>) -> nat
    decreases s.len(),
{
    if s.len() > 0 && s[0] == '_' {
        1 + leading_underscores(s.drop_first())
    } else {
        0
    }
}

/// Is `s` a valid identifier: any number of `_`, then a letter that may start an identifier,
/// then only `_`, such letters or ASCII letters and digits?
pub open spec fn is_valid_identifier_spec(s: Seq<char>) -> bool {
    let u = leading_underscores(s);
    &&& u < s.len()
    &&& id_start(s[u as int])
    &&& forall|j: int| u < j < s.len() ==> ident_char(#[trigger] s[j])
}

/// Is `s` a valid name for a function defined by a script: a valid identifier that is neither
/// reserved nor a keyword or symbol?
pub open spec fn is_valid_function_name_spec(s: Seq<char>) -> bool {
    &&& is_valid_identifier_spec(s)
    &&& !reserved_info(s).0
    &&& symbol_from_syntax(s) is None
}

/// Where leading underscores end, given that the first `i` characters are underscores.
proof fn lemma_leading_underscores(s: Seq<char>, i: int)
    requires
        0 <= i <= s.len(),
        forall|j: int| 0 <= j < i ==> s[j] == '_',
    ensures
        leading_underscores(s) >= i,
        i < s.len() && s[i] != '_' ==> leading_underscores(s) == i,
        i == s.len() ==> leading_underscores(s) == i,
    decreases i,
{
    if i > 0 {
        lemma_leading_underscores(s.drop_first(), i - 1);
    }
}

/// Is a text string a valid identifier?
pub fn is_valid_identifier(name: &str) -> (r: bool)
    ensures
        r == is_valid_identifier_spec(name@),
{
    let chars = chars_of_str(name);
    is_valid_identifier_chars(chars.as_slice())
}

/// Is a character sequence a valid identifier?
pub fn is_valid_identifier_chars(s: &[char]) -> (r: bool)
    ensures
        r == is_valid_identifier_spec(s@),
{
    let mut first_alphabetic = false;
    let ghost mut u: int = 0;
    let mut i: usize = 0;
    while i < s.len()
        invariant
            i <= s@.len(),
            !first_alphabetic ==> forall|j: int| 0 <= j < i ==> s@[j] == '_',
            first_alphabetic ==> {
                &&& 0 <= u < i
                &&& leading_underscores(s@) == u
                &&& id_start(s@[u])
                &&& forall|j: int| u < j < i ==> ident_char(#[trigger] s@[j])
            },
        decreases s.len() - i,
    {
        let ch = s[i];
        if ch == '_' {
        } else if is_id_first_alphabetic(ch) {
            if !first_alphabetic {
                proof {
                    lemma_leading_underscores(s@, i as int);
                    u = i as int;
                }
            }
            first_alphabetic = true;
        } else if !first_alphabetic {
            proof {
                lemma_leading_underscores(s@, i as int);
            }
            return false;
        } else if ('a' <= ch && ch <= 'z') || ('A' <= ch && ch <= 'Z') || ('0' <= ch && ch <= '9') {
        } else {
            assert(!ident_char(s@[i as int]));
            return false;
        }
        i = i + 1;
    }
    proof {
        if !first_alphabetic {
            lemma_leading_underscores(s@, i as int);
        }
    }
    first_alphabetic
}

/// Is a text string a valid script-defined function name?
pub fn is_valid_function_name(name: &str) -> (r: bool)
    ensures
        r == is_valid_function_name_spec(name@),
{
    let chars = chars_of_str(name);
    is_valid_identifier_chars(chars.as_slice()) && !reserved_info_of_chars(chars.as_slice()).0
        && symbol_from_chars(chars.as_slice()).is_none()
}

/// Does `s` begin with `p`?
pub open spec fn starts_with(s: Seq<char>, p: Seq<char>) -> bool {
    p.len() <= s.len() && s.take(p.len() as int) == p
}

/// Is a comment a documentation comment: `///` but not `////`, or `/**` but not `/***`?
pub open spec fn is_doc_comment_spec(c: Seq<char>) -> bool {
    (starts_with(c, seq!['/', '/', '/']) && !starts_with(c, seq!['/', '/', '/', '/']))
        || (starts_with(c, seq!['/', '*', '*']) && !starts_with(c, seq!['/', '*', '*', '*']))
}

/// Does the character slice begin with `n` slashes or stars as `p` lists them?
fn chars_start_with(s: &[char], p: &[char]) -> (r: bool)
    ensures
        r == starts_with(s@, p@),
{
    if p.len() > s.len() {
        return false;
    }
    let mut i: usize = 0;
    while i < p.len()
        invariant
            p@.len() <= s@.len(),
            i <= p@.len(),
            forall|j: int| 0 <= j < i ==> s@[j] == p@[j],
        decreases p.len() - i,
    {
        if s[i] != p[i] {
            assert(s@.take(p@.len() as int)[i as int] != p@[i as int]);
            return false;
        }
        i = i + 1;
    }
    assert(s@.take(p@.len() as int) =~= p@);
    true
}

/// Test if the comment block is a doc-comment.
pub fn is_doc_comment(comment: &str) -> (r: bool)
    ensures
        r == is_doc_comment_spec(comment@),
{
    let c = chars_of_str(comment);
    let three_slashes = ['/', '/', '/'];
    let four_slashes = ['/', '/', '/', '/'];
    let slash_stars = ['/', '*', '*'];
    let slash_three_stars = ['/', '*', '*', '*'];
    assert(three_slashes@ == seq!['/', '/', '/']);
    assert(four_slashes@ == seq!['/', '/', '/', '/']);
    assert(slash_stars@ == seq!['/', '*', '*']);
    assert(slash_three_stars@ == seq!['/', '*', '*', '*']);
    (chars_start_with(c.as_slice(), three_slashes.as_slice()) && !chars_start_with(
        c.as_slice(),
        four_slashes.as_slice(),
    )) || (chars_start_with(c.as_slice(), slash_stars.as_slice()) && !chars_start_with(
        c.as_slice(),
        slash_three_stars.as_slice(),
    ))
}

/// The number of characters at the start of `s` that may continue an identifier.
pub open spec fn id_run(s: Seq<char>) -> nat
    decreases s.len(),
{
    if s.len() > 0 && id_continue(s[0]) {
        1 + id_run(s.drop_first())
    } else {
        0
    }
}

/// The token of a word read as an identifier: a keyword or symbol, a reserved word, a
/// malformed identifier, or an identifier.
pub open spec fn identifier_token(text: Seq<char>) -> SpecToken {
    match symbol_from_syntax(text) {
        Some(t) => t,
        None => if reserved_info(text).0 {
            TokenOf::Reserved(text)
        } else if !is_valid_identifier_spec(text) {
            TokenOf::LexError(LexErrorOf::MalformedIdentifier(text))
        } else {
            TokenOf::Identifier(text)
        },
    }
}

/// The text of a word that starts with `first` (already read) and goes on in `input`.
pub open spec fn word_text(first: char, input: Seq<char>) -> Seq<char> {
    seq![first] + input.take(id_run(input) as int)
}

proof fn lemma_id_run_step(s: Seq<char>, i: int)
    requires
        0 <= i < s.len(),
        forall|j: int| 0 <= j < i ==> id_continue(#[trigger] s[j]),
        id_run(s) == i + id_run(s.skip(i)),
        id_continue(s[i]),
    ensures
        id_run(s) == i + 1 + id_run(s.skip(i + 1)),
{
    assert(s.skip(i).drop_first() =~= s.skip(i + 1));
}

/// Get the next token, parsing it as an identifier whose first character `first_char` has
/// already been read.  Sets the current token text (if tracked) to the word.
pub fn parse_identifier_token<S: InputStream + ?Sized>(
    stream: &mut S,
    last: &mut Option<String>,
    pos: &mut Position,
    start_pos: Position,
    first_char: char,
) -> (r: (Token, Position))
    requires
        old(pos).line >= 1,
    ensures
        ({
            let k = id_run(old(stream).remaining());
            let text = word_text(first_char, old(stream).remaining());
            &&& final(stream).remaining() == old(stream).remaining().skip(k as int)
            &&& *final(pos) == advanced_by(*old(pos), k)
            &&& r.0@ == identifier_token(text)
            &&& opt_text(*final(last)) == reset_last(opt_text(*old(last)), text)
        }),
        r.1 == start_pos,
        final(pos).line >= 1,
        final(stream).remaining().len() <= old(stream).remaining().len(),
        room_kept(old(stream).room(), final(stream).room()),
{
    let mut identifier: Vec<char> = Vec::new();
    identifier.push(first_char);
    let ghost input0 = stream.remaining();
    let ghost mut n: int = 0;
    assert(input0.skip(0) =~= input0);
    loop
        invariant
            input0 == old(stream).remaining(),
            0 <= n <= input0.len(),
            stream.remaining() == input0.skip(n),
            *pos == advanced_by(*old(pos), n as nat),
            pos.line >= 1,
            forall|j: int| 0 <= j < n ==> id_continue(#[trigger] input0[j]),
            id_run(input0) == n + id_run(stream.remaining()),
            identifier@ == seq![first_char] + input0.take(n as int),
            room_kept(old(stream).room(), stream.room()),
        ensures
            id_run(stream.remaining()) == 0,
        decreases stream.remaining().len(),
    {
        let next = stream.peek_next();
        match next {
            Some(x) => {
                if is_id_continue(x) {
                    proof {
                        lemma_id_run_step(input0, n as int);
                    }
                    stream.eat_next_and_advance(pos);
                    identifier.push(x);
                    proof {
                        n = n + 1;
                    }
                    assert(stream.remaining() =~= input0.skip(n as int));
                    assert(identifier@ =~= seq![first_char] + input0.take(n as int));
                } else {
                    break ;
                }
            },
            None => {
                break ;
            },
        }
    }
    if last.is_some() {
        *last = Some(string_from_chars(identifier.as_slice()));
    }
    let ghost text = identifier@;
    if let Some(token) = symbol_from_chars(identifier.as_slice()) {
        return (token, start_pos);
    }
    if reserved_info_of_chars(identifier.as_slice()).0 {
        return (TokenOf::Reserved(string_from_chars(identifier.as_slice())), start_pos);
    }
    if !is_valid_identifier_chars(identifier.as_slice()) {
        return (
            TokenOf::LexError(LexErrorOf::MalformedIdentifier(string_from_chars(identifier.as_slice()))),
            start_pos,
        );
    }
    (TokenOf::Identifier(string_from_chars(identifier.as_slice())), start_pos)
}

} // verus!
