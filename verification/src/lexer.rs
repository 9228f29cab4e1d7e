//! The lexer: turns source text into a stream of [`Token`]s, one call of
//! [`Lexer::next`] at a time.
//!
//! The whole scanning discipline is written down once, as the spec function
//! [`scan_token`] over the source's characters; `next` is proved to follow
//! it exactly. A few quirks of that discipline are deliberate: a one- or
//! two-character comparison token also consumes the character peeked after
//! it, an unterminated string yields `Token::Invalid` after consuming the
//! rest of the input, and a character that starts no token ends the stream.

use vstd::prelude::*;
use vstd::string::StrSliceExecFns;

use crate::strutil::fetch_string_slice;
use crate::token::{token_view, Lexeme, Token};

verus! {

/// Whether a character has the Unicode `Alphabetic` property, as
/// `char::is_alphabetic` decides it: a function of the character alone.
pub uninterp spec fn is_alpha(c: char) -> bool;

/// Whether a character is alphanumeric, as `char::is_alphanumeric` decides
/// it: a function of the character alone.
pub uninterp spec fn is_alnum(c: char) -> bool;

/// Relies on `char::is_alphabetic`: whether the character has the Unicode
/// `Alphabetic` property.
#[verifier::external_body]
fn char_is_alphabetic(c: char) -> (r: bool)
    ensures
        r == is_alpha(c),
{
    c.is_alphabetic()
}

/// Relies on `char::is_alphanumeric`: whether the character is alphabetic
/// or numeric under the corresponding Unicode properties.
#[verifier::external_body]
fn char_is_alphanumeric(c: char) -> (r: bool)
    ensures
        r == is_alnum(c),
{
    c.is_alphanumeric()
}

/// Relies on `str`'s `PartialEq`: character-for-character equality of the
/// two slices.
#[verifier::external_body]
fn str_eq(a: &str, b: &str) -> (r: bool)
    ensures
        r == (a@ == b@),
{
    a == b
}

/// A decimal digit.
pub open spec fn is_digit(c: char) -> bool {
    48 <= c as u32 <= 57
}

/// A decimal digit, decided exactly as [`is_digit`] says.
fn char_is_digit(c: char) -> (r: bool)
    ensures
        r == is_digit(c),
{
    let u = c as u32;
    48 <= u && u <= 57
}

/// The first position at or after `i` holding something other than a space,
/// or the end of the input.
pub open spec fn skip_spaces(src: Seq<char>, i: nat) -> nat
    decreases src.len() - i,
{
    if i >= src.len() {
        i
    } else if src[i as int] == ' ' {
        skip_spaces(src, i + 1)
    } else {
        i
    }
}

/// The first position at or after `i` holding a character that cannot
/// continue an identifier (neither alphanumeric nor an underscore), or the
/// end of the input.
pub open spec fn ident_end(src: Seq<char>, i: nat) -> nat
    decreases src.len() - i,
{
    if i >= src.len() {
        i
    } else if is_alnum(src[i as int]) || src[i as int] == '_' {
        ident_end(src, i + 1)
    } else {
        i
    }
}

/// The first position at or after `i` holding a character that cannot
/// continue a number literal (not a digit, underscore or dot), or the end
/// of the input.
pub open spec fn number_end(src: Seq<char>, i: nat) -> nat
    decreases src.len() - i,
{
    if i >= src.len() {
        i
    } else if is_digit(src[i as int]) || src[i as int] == '_' || src[i as int] == '.' {
        number_end(src, i + 1)
    } else {
        i
    }
}

/// The position of the first `quote` at or after `i`, if any.
pub open spec fn string_close(src: Seq<char>, i: nat, quote: char) -> Option<nat>
    decreases src.len() - i,
{
    if i >= src.len() {
        None
    } else if src[i as int] == quote {
        Some(i)
    } else {
        string_close(src, i + 1, quote)
    }
}

/// The token a lone character yields, for the characters that are tokens by
/// themselves.
pub open spec fn single_char_lexeme(c: char) -> Option<Lexeme> {
    if c == '{' {
        Some(Lexeme::LBracket)
    } else if c == '}' {
        Some(Lexeme::RBracket)
    } else if c == '(' {
        Some(Lexeme::LParen)
    } else if c == ')' {
        Some(Lexeme::RParen)
    } else if c == '[' {
        Some(Lexeme::LSquare)
    } else if c == ']' {
        Some(Lexeme::RSquare)
    } else if c == ',' {
        Some(Lexeme::Comma)
    } else if c == '.' {
        Some(Lexeme::Dot)
    } else if c == '-' {
        Some(Lexeme::Minus)
    } else if c == '+' {
        Some(Lexeme::Plus)
    } else if c == '/' {
        Some(Lexeme::Slash)
    } else if c == '*' {
        Some(Lexeme::Star)
    } else if c == ':' {
        Some(Lexeme::Colon)
    } else if c == '\n' {
        Some(Lexeme::Eol)
    } else {
        None
    }
}

/// The keyword a word stands for, or an identifier when it is none.
pub open spec fn keyword_or_ident(word: Seq<char>) -> Lexeme {
    if word == "if"@ {
        Lexeme::If
    } else if word == "else"@ {
        Lexeme::Else
    } else if word == "fn"@ {
        Lexeme::Func
    } else if word == "for"@ {
        Lexeme::For
    } else if word == "while"@ {
        Lexeme::While
    } else if word == "let"@ {
        Lexeme::Let
    } else if word == "return"@ {
        Lexeme::Return
    } else if word == "nil"@ {
        Lexeme::Nil
    } else if word == "true"@ {
        Lexeme::True
    } else if word == "false"@ {
        Lexeme::False
    } else if word == "print"@ {
        Lexeme::Print
    } else {
        Lexeme::Ident(word)
    }
}

/// The position after the peeked character is consumed: one further, except
/// at the end of the input, where consuming is a no-op.
pub open spec fn consume_peek(src: Seq<char>, p: nat) -> nat {
    if p < src.len() {
        p + 1
    } else {
        p
    }
}

/// What scanning one token starting with `c` at position `start` (already
/// consumed; the scanner stands at `start + 1`) yields: the token, if any,
/// and the position after it.
pub open spec fn scan_long(src: Seq<char>, start: nat, c: char) -> (Option<Lexeme>, nat)
    recommends
        start < src.len(),
        c == src[start as int],
{
    let p = start + 1;
    let c_next: char = if p < src.len() {
        src[p as int]
    } else {
        '\0'
    };
    if c == '!' {
        if c_next == '=' {
            (Some(Lexeme::BangEqual), consume_peek(src, p))
        } else if is_alpha(c_next) {
            (Some(Lexeme::Bang), consume_peek(src, p))
        } else {
            (None, p)
        }
    } else if c == '=' {
        if c_next == '=' {
            (Some(Lexeme::EqualEqual), consume_peek(src, p))
        } else {
            (Some(Lexeme::Equal), consume_peek(src, p))
        }
    } else if c == '>' {
        if c_next == '=' {
            (Some(Lexeme::GreaterEqual), consume_peek(src, p))
        } else {
            (Some(Lexeme::Greater), consume_peek(src, p))
        }
    } else if c == '<' {
        if c_next == '=' {
            (Some(Lexeme::LessEqual), consume_peek(src, p))
        } else {
            (Some(Lexeme::Less), consume_peek(src, p))
        }
    } else if c == '&' {
        if c_next == '&' {
            (Some(Lexeme::And), consume_peek(src, p))
        } else {
            (None, p)
        }
    } else if c == '|' {
        if c_next == '|' {
            (Some(Lexeme::Or), consume_peek(src, p))
        } else {
            (None, p)
        }
    } else if c == '"' || c == '\'' {
        match string_close(src, p, c) {
            Some(endq) => (
                Some(Lexeme::StrLit(src.subrange(start as int, endq as int + 1))),
                endq + 1,
            ),
            None => (Some(Lexeme::Invalid), src.len()),
        }
    } else if is_alpha(c) {
        let e = ident_end(src, p);
        (Some(keyword_or_ident(src.subrange(start as int, e as int))), e)
    } else if is_digit(c) {
        let e = number_end(src, p);
        (Some(Lexeme::Num(src.subrange(start as int, e as int))), e)
    } else {
        (None, p)
    }
}

/// The whole scanning discipline: from position `pos`, skip spaces, then
/// either the input is exhausted (no token), or the character there is a
/// token by itself, or scanning continues by [`scan_long`]. The second
/// component is the position the scanner stands at afterwards.
pub open spec fn scan_token(src: Seq<char>, pos: nat) -> (Option<Lexeme>, nat)
    recommends
        pos <= src.len(),
{
    let i = skip_spaces(src, pos);
    if i >= src.len() {
        (None, i)
    } else {
        let c = src[i as int];
        match single_char_lexeme(c) {
            Some(l) => (Some(l), i + 1),
            None => scan_long(src, i, c),
        }
    }
}

/// The lexer: a borrowed source text and the index (in characters) of the
/// next character to examine.
pub struct Lexer<'a> {
    source: &'a str,
    pos: usize,
}

impl<'a> Lexer<'a> {
    /// The source text being scanned, as characters.
    pub closed spec fn src(&self) -> Seq<char> {
        self.source@
    }

    /// The index, in characters, of the next character to examine.
    pub closed spec fn position(&self) -> int {
        self.pos as int
    }

    /// Well-formedness: the position lies within the source.
    pub open spec fn wf(&self) -> bool {
        0 <= self.position() <= self.src().len()
    }

    /// A lexer standing at the beginning of `input`.
    pub fn new(input: &'a str) -> (lx: Lexer<'a>)
        ensures
            lx.wf(),
            lx.src() == input@,
            lx.position() == 0,
    {
        Lexer { source: input, pos: 0 }
    }

    /// Scans the next token, exactly as [`scan_token`] says: the same token
    /// (or none) and the same new position.
    pub fn next(&mut self) -> (r: Option<Token<'a>>)
        requires
            old(self).wf(),
        ensures
            final(self).wf(),
            final(self).src() == old(self).src(),
            ({
                let (lx, p) = scan_token(old(self).src(), old(self).position() as nat);
                &&& final(self).position() == p
                &&& match r {
                    Some(t) => lx == Some(token_view(t)),
                    None => lx is None,
                }
            }),
    {
        let ghost src = self.source@;
        let ghost pos0 = self.pos as nat;
        let n = self.source.unicode_len();
        while self.pos < n && self.source.get_char(self.pos) == ' '
            invariant
                self.source@ == src,
                n == src.len(),
                self.pos <= n,
                skip_spaces(src, pos0) == skip_spaces(src, self.pos as nat),
            decreases n - self.pos,
        {
            self.pos = self.pos + 1;
        }
        proof {
            assert(skip_spaces(src, self.pos as nat) == self.pos as nat);
        }
        if self.pos >= n {
            return None;
        }
        let c = self.source.get_char(self.pos);
        match self.single_char_token(c) {
            Some(t) => {
                self.pos = self.pos + 1;
                return Some(t);
            },
            None => {},
        }
        let start = self.pos;
        self.pos = self.pos + 1;
        proof {
            assert(scan_token(src, pos0) == scan_long(src, start as nat, c));
        }
        let c_next: char = if self.pos < n {
            self.source.get_char(self.pos)
        } else {
            '\0'
        };
        if c == '!' {
            if c_next == '=' {
                if self.pos < n {
                    self.pos = self.pos + 1;
                }
                return Some(Token::BangEqual);
            } else if char_is_alphabetic(c_next) {
                if self.pos < n {
                    self.pos = self.pos + 1;
                }
                return Some(Token::Bang);
            } else {
                return None;
            }
        }
        if c == '=' {
            let t = if c_next == '=' {
                Token::EqualEqual
            } else {
                Token::Equal
            };
            if self.pos < n {
                self.pos = self.pos + 1;
            }
            return Some(t);
        }
        if c == '>' {
            let t = if c_next == '=' {
                Token::GreaterEqual
            } else {
                Token::Greater
            };
            if self.pos < n {
                self.pos = self.pos + 1;
            }
            return Some(t);
        }
        if c == '<' {
            let t = if c_next == '=' {
                Token::LessEqual
            } else {
                Token::Less
            };
            if self.pos < n {
                self.pos = self.pos + 1;
            }
            return Some(t);
        }
        if c == '&' {
            if c_next == '&' {
                if self.pos < n {
                    self.pos = self.pos + 1;
                }
                return Some(Token::And);
            }
            return None;
        }
        if c == '|' {
            if c_next == '|' {
                if self.pos < n {
                    self.pos = self.pos + 1;
                }
                return Some(Token::Or);
            }
            return None;
        }
        if c == '"' || c == '\'' {
            while self.pos < n
                invariant
                    old(self).src() == src,
                    old(self).position() == pos0,
                    self.source@ == src,
                    n == src.len(),
                    start < n,
                    c == src[start as int],
                    c == '"' || c == '\'',
                    scan_token(src, pos0) == scan_long(src, start as nat, c),
                    start + 1 <= self.pos <= n,
                    string_close(src, (start + 1) as nat, c) == string_close(
                        src,
                        self.pos as nat,
                        c,
                    ),
                decreases n - self.pos,
            {
                let ch = self.source.get_char(self.pos);
                if ch == c {
                    proof {
                        assert(string_close(src, self.pos as nat, c) == Some(self.pos as nat));
                    }
                    let endq = self.pos;
                    self.pos = self.pos + 1;
                    match fetch_string_slice(self.source, start, endq) {
                        Some(content) => {
                            return Some(Token::String(content));
                        },
                        None => {
                            return None;
                        },
                    }
                }
                self.pos = self.pos + 1;
            }
            return Some(Token::Invalid);
        }
        if char_is_alphabetic(c) {
            loop
                invariant
                    self.source@ == src,
                    n == src.len(),
                    start + 1 <= self.pos <= n,
                    ident_end(src, (start + 1) as nat) == ident_end(src, self.pos as nat),
                ensures
                    self.source@ == src,
                    start + 1 <= self.pos <= n,
                    self.pos as nat == ident_end(src, (start + 1) as nat),
                decreases n - self.pos,
            {
                if self.pos >= n {
                    break;
                }
                let ch = self.source.get_char(self.pos);
                if !(char_is_alphanumeric(ch) || ch == '_') {
                    break;
                }
                self.pos = self.pos + 1;
            }
            let word = match fetch_string_slice(self.source, start, self.pos - 1) {
                Some(w) => w,
                None => "",
            };
            if str_eq(word, "if") {
                return Some(Token::If);
            }
            if str_eq(word, "else") {
                return Some(Token::Else);
            }
            if str_eq(word, "fn") {
                return Some(Token::Func);
            }
            if str_eq(word, "for") {
                return Some(Token::For);
            }
            if str_eq(word, "while") {
                return Some(Token::While);
            }
            if str_eq(word, "let") {
                return Some(Token::Let);
            }
            if str_eq(word, "return") {
                return Some(Token::Return);
            }
            if str_eq(word, "nil") {
                return Some(Token::Nil);
            }
            if str_eq(word, "true") {
                return Some(Token::True);
            }
            if str_eq(word, "false") {
                return Some(Token::False);
            }
            if str_eq(word, "print") {
                return Some(Token::Print);
            }
            return Some(Token::Identifier(word));
        }
        if char_is_digit(c) {
            loop
                invariant
                    self.source@ == src,
                    n == src.len(),
                    start + 1 <= self.pos <= n,
                    number_end(src, (start + 1) as nat) == number_end(src, self.pos as nat),
                ensures
                    self.source@ == src,
                    start + 1 <= self.pos <= n,
                    self.pos as nat == number_end(src, (start + 1) as nat),
                decreases n - self.pos,
            {
                if self.pos >= n {
                    break;
                }
                let ch = self.source.get_char(self.pos);
                if !(char_is_digit(ch) || ch == '_' || ch == '.') {
                    break;
                }
                self.pos = self.pos + 1;
            }
            let numstr = self.source.substring_char(start, self.pos);
            return Some(Token::Number(numstr));
        }
        None
    }

    /// The token `c` yields by itself, exactly as [`single_char_lexeme`]
    /// says.
    fn single_char_token(&self, c: char) -> (r: Option<Token<'a>>)
        ensures
            match r {
                Some(t) => single_char_lexeme(c) == Some(token_view(t)),
                None => single_char_lexeme(c) is None,
            },
    {
        match c {
            '{' => Some(Token::LeftBracket),
            '}' => Some(Token::RightBracket),
            '(' => Some(Token::LeftParen),
            ')' => Some(Token::RightParen),
            '[' => Some(Token::LeftSquareBracket),
            ']' => Some(Token::RightSquareBracket),
            ',' => Some(Token::Comma),
            '.' => Some(Token::Dot),
            '-' => Some(Token::Minus),
            '+' => Some(Token::Plus),
            '/' => Some(Token::Slash),
            '*' => Some(Token::Star),
            ':' => Some(Token::Colon),
            '\n' => Some(Token::EOL),
            _ => None,
        }
    }
}

} // verus!
