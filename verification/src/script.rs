//! The lexer of scripts.
//!
//! A script is cleaned before it is read: comments and empty lines are
//! removed, and the line feeds that are left become semicolons. Words may
//! stand in double or in single quotes; a bare word ends at white space or
//! at one of the symbols `;`, `=`, `\`, `'`, `"`, `&`, `$`, `@`, `|`, `>`,
//! `<`. A name starts with a letter and ends with a letter or a digit.
//! Semicolons that follow each other count as one.

use vstd::prelude::*;
use crate::error::{Error, ErrorKind, ErrorView, error_of};
use crate::text::{
    chars_of,
    is_digit,
    is_digit_char,
    is_whitespace,
    is_whitespace_char,
    parse_usize,
    parsed_usize,
};
use crate::token::{Token, TokenView, token_views};
use crate::utils::{
    kept_lines,
    lines_of,
    remove_comment,
    remove_empty_line,
    replace_line_with_semicolon,
    uncommented,
    with_semicolons,
};

verus! {

/// Whether `c` is a letter.
///
/// This names what `char::is_alphabetic` returns for `c`.
pub uninterp spec fn is_alphabetic_char(c: char) -> bool;

/// Whether `c` is a letter or a number.
///
/// This names what `char::is_alphanumeric` returns for `c`.
pub uninterp spec fn is_alphanumeric_char(c: char) -> bool;

/// Trusted: `char::is_alphabetic` of the standard library, which looks the
/// character up in the Unicode tables and depends on nothing else.
#[verifier::external_body]
fn is_alphabetic(c: char) -> (r: bool)
    ensures
        r == is_alphabetic_char(c),
{
    c.is_alphabetic()
}

/// Trusted: `char::is_alphanumeric` of the standard library, which looks
/// the character up in the Unicode tables and depends on nothing else.
#[verifier::external_body]
fn is_alphanumeric(c: char) -> (r: bool)
    ensures
        r == is_alphanumeric_char(c),
{
    c.is_alphanumeric()
}

/// Whether `c` is one of the symbols that end a bare word.
pub open spec fn is_symbol_char(c: char) -> bool {
    c == ';' || c == '=' || c == '\\' || c == '\'' || c == '"' || c == '&' || c == '$' || c == '@'
        || c == '|' || c == '>' || c == '<'
}

/// What a run of characters is made of.
#[derive(Debug, Clone, Copy, PartialEq, Eq)]
pub enum Run {
    /// Anything but a double quote.
    Double,
    /// Anything but a single quote.
    Single,
    /// Anything but white space and the symbols.
    Bare,
}

impl Run {
    /// Whether `c` belongs to a run of this kind.
    pub open spec fn takes(self, c: char) -> bool {
        match self {
            Run::Double => c != '"',
            Run::Single => c != '\'',
            Run::Bare => !is_symbol_char(c) && !is_whitespace_char(c),
        }
    }

    /// Whether `c` belongs to a run of this kind.
    pub fn accepts(self, c: char) -> (r: bool)
        ensures
            r == self.takes(c),
    {
        match self {
            Run::Double => c != '"',
            Run::Single => c != '\'',
            Run::Bare => !(c == ';' || c == '=' || c == '\\' || c == '\'' || c == '"' || c == '&'
                || c == '$' || c == '@' || c == '|' || c == '>' || c == '<') && !is_whitespace(c),
        }
    }
}

/// Where the run that starts at `from` ends: the first index that holds a
/// character that does not belong to it, or the length of the input.
pub open spec fn run_end(input: Seq<char>, from: int, run: Run) -> int
    decreases input.len() - from,
{
    if from < 0 || from >= input.len() {
        input.len() as int
    } else if !run.takes(input[from]) {
        from
    } else {
        run_end(input, from + 1, run)
    }
}

/// The first index from `from` on that holds no white space, or the length
/// of the input.
pub open spec fn start_from(input: Seq<char>, from: int) -> int
    decreases input.len() - from,
{
    if from < 0 || from >= input.len() {
        input.len() as int
    } else if !is_whitespace_char(input[from]) {
        from
    } else {
        start_from(input, from + 1)
    }
}

/// The scans stay within the input and do not go back, and a run that
/// starts with a character of its kind is not empty.
pub proof fn lemma_runs(input: Seq<char>, from: int, run: Run)
    requires
        0 <= from <= input.len(),
    ensures
        from <= run_end(input, from, run) <= input.len(),
        from <= start_from(input, from) <= input.len(),
        from < input.len() && run.takes(input[from]) ==> run_end(input, from, run) > from,
        run_end(input, from, run) < input.len() ==> !run.takes(
            input[run_end(input, from, run)],
        ),
        start_from(input, from) < input.len() ==> !is_whitespace_char(
            input[start_from(input, from)],
        ),
    decreases input.len() - from,
{
    if from < input.len() {
        lemma_runs(input, from + 1, run);
    }
}

/// What a reader gives: a value, nothing (`Ok(None)`), or a refusal with
/// its message; and the position after it.
pub struct Reading<T> {
    pub value: Result<Option<T>, Seq<char>>,
    pub position: int,
}

/// A word read at `at`. In quotes it runs up to the closing quote, which
/// has to be there. Bare, it runs up to the next white space or symbol, and
/// an empty one is nothing. A refusal, and nothing, leave the position as
/// it is.
pub open spec fn string_at(input: Seq<char>, at: int) -> Reading<Seq<char>> {
    if at < 0 || at >= input.len() {
        Reading { value: Ok(None), position: at }
    } else if input[at] == '"' {
        let e = run_end(input, at + 1, Run::Double);
        if e < input.len() {
            Reading { value: Ok(Some(input.subrange(at + 1, e))), position: e + 1 }
        } else {
            Reading { value: Err("double quote error"@), position: at }
        }
    } else if input[at] == '\'' {
        let e = run_end(input, at + 1, Run::Single);
        if e < input.len() {
            Reading { value: Ok(Some(input.subrange(at + 1, e))), position: e + 1 }
        } else {
            Reading { value: Err("single quote error"@), position: at }
        }
    } else {
        let e = run_end(input, at, Run::Bare);
        if e <= at {
            Reading { value: Ok(None), position: at }
        } else {
            Reading { value: Ok(Some(input.subrange(at, e))), position: e }
        }
    }
}

/// A number read at `at`: a bare run that starts with a digit and is an
/// unsigned number that fits. A refusal leaves the position as it is.
pub open spec fn number_at(input: Seq<char>, at: int) -> Reading<usize> {
    if at < 0 || at >= input.len() {
        Reading { value: Ok(None), position: at }
    } else if !is_digit_char(input[at]) {
        Reading { value: Err("invalid number"@), position: at }
    } else {
        let e = run_end(input, at, Run::Bare);
        match parsed_usize(input.subrange(at, e)) {
            Some(n) => Reading { value: Ok(Some(n)), position: e },
            None => Reading { value: Err("invalid number"@), position: at },
        }
    }
}

/// A name read at `at`: a `$` and the bare run behind it, which has to
/// start with a letter and end with a letter or a digit. A refusal leaves
/// the position as it is.
pub open spec fn ident_at(input: Seq<char>, at: int) -> Reading<Seq<char>> {
    if at < 0 || at >= input.len() {
        Reading { value: Ok(None), position: at }
    } else if input[at] != '$' {
        Reading { value: Err("invalid identifier"@), position: at }
    } else {
        let e = run_end(input, at + 1, Run::Bare);
        if e <= at + 1 || !is_alphabetic_char(input[at + 1]) || !is_alphanumeric_char(
            input[e - 1],
        ) {
            Reading { value: Err("invalid identifier"@), position: at }
        } else {
            Reading { value: Ok(Some(input.subrange(at + 1, e))), position: e }
        }
    }
}

/// A descriptor read at `at`: an `@` and the bare run behind it, which has
/// to be an unsigned number that fits. A refusal leaves the position as it
/// is.
pub open spec fn fd_at(input: Seq<char>, at: int) -> Reading<usize> {
    if at < 0 || at >= input.len() {
        Reading { value: Ok(None), position: at }
    } else if input[at] != '@' {
        Reading { value: Err("invalid file descriptor"@), position: at }
    } else {
        let e = run_end(input, at + 1, Run::Bare);
        match parsed_usize(input.subrange(at + 1, if e > at {
            e
        } else {
            at + 1
        })) {
            Some(n) => Reading { value: Ok(Some(n)), position: e },
            None => Reading { value: Err("invalid file descriptor"@), position: at },
        }
    }
}

/// What reading one token gives: the token or the error, and the position
/// after it.
pub struct Lexed {
    pub token: Result<TokenView, ErrorView>,
    pub position: int,
}

/// A lexer error with the given message.
pub open spec fn lexer_error(message: Seq<char>) -> ErrorView {
    error_of(ErrorKind::LexerError, message)
}

/// What a `$` or an `@` that starts no name and no descriptor is read as:
/// the sign as a word where white space or nothing follows it, and an
/// error otherwise.
pub open spec fn lone_sign(input: Seq<char>, at: int, sign: char, message: Seq<char>) -> Lexed {
    if at + 1 < input.len() && !is_whitespace_char(input[at + 1]) {
        Lexed { token: Err(lexer_error(message)), position: at }
    } else {
        Lexed { token: Ok(TokenView::String(seq![sign])), position: at + 1 }
    }
}

/// The token of a word read at `at`, where `refusal` is the message of the
/// error for a word that is refused.
pub open spec fn word_token(input: Seq<char>, at: int, refusal: Option<Seq<char>>) -> Lexed {
    let r = string_at(input, at);
    match r.value {
        Ok(Some(s)) => Lexed { token: Ok(TokenView::String(s)), position: r.position },
        Ok(None) => Lexed { token: Ok(TokenView::EOF), position: r.position },
        Err(e) => Lexed {
            token: Err(
                lexer_error(
                    match refusal {
                        Some(m) => m,
                        None => e,
                    },
                ),
            ),
            position: r.position,
        },
    }
}

/// The token that starts at the first character from `from` on that is no
/// white space; the end of the input where there is none, and where no
/// token starts there.
pub open spec fn token_at(input: Seq<char>, from: int) -> Lexed {
    let at = start_from(input, from);
    if at < 0 || at >= input.len() {
        Lexed { token: Ok(TokenView::EOF), position: at }
    } else {
        let c = input[at];
        if c == ';' {
            Lexed { token: Ok(TokenView::Semicolon), position: at + 1 }
        } else if c == '=' {
            Lexed { token: Ok(TokenView::Assign), position: at + 1 }
        } else if c == '&' {
            Lexed { token: Ok(TokenView::Ampersand), position: at + 1 }
        } else if c == '|' {
            Lexed { token: Ok(TokenView::Pipe), position: at + 1 }
        } else if c == '>' {
            Lexed { token: Ok(TokenView::Gt), position: at + 1 }
        } else if c == '<' {
            Lexed { token: Ok(TokenView::Lt), position: at + 1 }
        } else if c == '@' {
            let r = fd_at(input, at);
            match r.value {
                Ok(Some(fd)) => Lexed { token: Ok(TokenView::FD(fd as i32)), position: r.position },
                Ok(None) => Lexed { token: Ok(TokenView::EOF), position: r.position },
                Err(e) => lone_sign(input, at, '@', e),
            }
        } else if c == '$' {
            let r = ident_at(input, at);
            match r.value {
                Ok(Some(s)) => Lexed { token: Ok(TokenView::Ident(s)), position: r.position },
                Ok(None) => Lexed { token: Ok(TokenView::EOF), position: r.position },
                Err(e) => lone_sign(input, at, '$', e),
            }
        } else if c == '"' || c == '\'' {
            word_token(input, at, None)
        } else if is_digit_char(c) {
            let r = number_at(input, at);
            match r.value {
                Ok(Some(n)) => Lexed { token: Ok(TokenView::Number(n)), position: r.position },
                Ok(None) => Lexed { token: Ok(TokenView::EOF), position: r.position },
                Err(e) => word_token(input, at, Some(e)),
            }
        } else {
            word_token(input, at, None)
        }
    }
}

/// The tokens with `t` added; a semicolon that follows a semicolon is left
/// out.
pub open spec fn added(done: Seq<TokenView>, t: TokenView) -> Seq<TokenView> {
    if t == TokenView::Semicolon && done.len() > 0 && done.last() == TokenView::Semicolon {
        done
    } else {
        done.push(t)
    }
}

/// The tokens from `from` on, after the tokens `done`: up to and with the
/// end of the input, or the first error.
pub open spec fn lexed(input: Seq<char>, from: int, done: Seq<TokenView>) -> Result<
    Seq<TokenView>,
    ErrorView,
>
    decreases input.len() - from,
{
    let next = token_at(input, from);
    match next.token {
        Err(e) => Err(e),
        Ok(TokenView::EOF) => Ok(done.push(TokenView::EOF)),
        Ok(t) => if from < next.position <= input.len() {
            lexed(input, next.position, added(done, t))
        } else {
            Ok(added(done, t))
        },
    }
}

/// The text of a script as it is read: without comments and empty lines,
/// and with semicolons for line feeds.
pub open spec fn cleaned(source: Seq<char>) -> Seq<char> {
    with_semicolons(kept_lines(lines_of(uncommented(source, false))))
}

#[derive(Debug)]
pub struct Lexer {
    source: Vec<char>,
    position: usize,
}

pub struct LexerView {
    pub source: Seq<char>,
    pub position: int,
}

impl View for Lexer {
    type V = LexerView;

    closed spec fn view(&self) -> LexerView {
        LexerView { source: self.source@, position: self.position as int }
    }
}

/// Whether `r` is what the reading `expected` says.
pub open spec fn reads<T>(r: Result<Option<T>, String>, expected: Reading<T>) -> bool {
    match expected.value {
        Ok(v) => r == Ok::<Option<T>, String>(v),
        Err(e) => r is Err && r->Err_0@ == e,
    }
}

/// Whether `r` is the text that the reading `expected` says.
pub open spec fn reads_text(r: Result<Option<String>, String>, expected: Reading<Seq<char>>) -> bool {
    match expected.value {
        Ok(Some(s)) => r is Ok && r->Ok_0 is Some && r->Ok_0->0@ == s,
        Ok(None) => r is Ok && r->Ok_0 is None,
        Err(e) => r is Err && r->Err_0@ == e,
    }
}

impl Lexer {
    /// The invariant of a lexer: its position is within the source or at
    /// its end.
    pub open spec fn wf(&self) -> bool {
        0 <= self@.position <= self@.source.len()
    }

    /// A lexer at the start of the cleaned text of `source`.
    pub fn new(source: &str) -> (r: Lexer)
        ensures
            r.wf(),
            r@ == (LexerView { source: cleaned(source@), position: 0 }),
    {
        let bare = remove_comment(source);
        let filled = remove_empty_line(bare.as_str());
        let joined = replace_line_with_semicolon(filled.as_str());
        Lexer { source: chars_of(joined.as_str()), position: 0 }
    }

    /// The character at the position.
    pub fn current_char(&self) -> (r: Option<char>)
        ensures
            r == (if 0 <= self@.position < self@.source.len() {
                Some(self@.source[self@.position])
            } else {
                None
            }),
    {
        if self.position < self.source.len() {
            Some(self.source[self.position])
        } else {
            None
        }
    }

    /// The character behind the position.
    pub fn peek_char(&self) -> (r: Option<char>)
        ensures
            r == (if 0 <= self@.position + 1 < self@.source.len() {
                Some(self@.source[self@.position + 1])
            } else {
                None
            }),
    {
        if self.position < self.source.len() && self.source.len() - self.position > 1 {
            Some(self.source[self.position + 1])
        } else {
            None
        }
    }

    /// Moves the position one further, but not past the end of the source.
    pub fn advance(&mut self)
        requires
            old(self).wf(),
        ensures
            final(self).wf(),
            final(self)@.source == old(self)@.source,
            final(self)@.position == (if old(self)@.position < old(self)@.source.len() {
                old(self)@.position + 1
            } else {
                old(self)@.position
            }),
    {
        if self.position < self.source.len() {
            self.position = self.position + 1;
        }
    }

    /// Reads the run of the given kind that starts at the position, and
    /// returns its characters and the character behind it.
    pub fn read_while(&mut self, run: Run) -> (r: (Vec<char>, Option<char>))
        requires
            old(self).wf(),
        ensures
            final(self).wf(),
            final(self)@.source == old(self)@.source,
            final(self)@.position == run_end(old(self)@.source, old(self)@.position, run),
            r.0@ == old(self)@.source.subrange(old(self)@.position, final(self)@.position),
            r.1 == (if final(self)@.position < final(self)@.source.len() {
                Some(final(self)@.source[final(self)@.position])
            } else {
                None
            }),
    {
        let mut result: Vec<char> = Vec::new();
        let ghost start = self.position as int;
        let ghost source = self.source@;
        assert(result@ =~= source.subrange(start, start));
        while self.position < self.source.len() && run.accepts(self.source[self.position])
            invariant
                self.source@ == source,
                0 <= start <= self.position <= source.len(),
                run_end(source, start, run) == run_end(source, self.position as int, run),
                result@ == source.subrange(start, self.position as int),
            decreases source.len() - self.position,
        {
            result.push(self.source[self.position]);
            assert(source.subrange(start, self.position + 1) =~= source.subrange(
                start,
                self.position as int,
            ).push(source[self.position as int]));
            self.position = self.position + 1;
        }
        let next = self.current_char();
        (result, next)
    }

    /// Reads a word at the position.
    pub fn read_string(&mut self) -> (r: Result<Option<String>, String>)
        requires
            old(self).wf(),
        ensures
            final(self).wf(),
            final(self)@.source == old(self)@.source,
            final(self)@.position == string_at(old(self)@.source, old(self)@.position).position,
            reads_text(r, string_at(old(self)@.source, old(self)@.position)),
    {
        let start = self.position;
        let current = match self.current_char() {
            Some(c) => c,
            None => {
                return Ok(None);
            },
        };
        proof {
            lemma_runs(self.source@, start as int, Run::Bare);
            lemma_runs(self.source@, start + 1, Run::Double);
            lemma_runs(self.source@, start + 1, Run::Single);
        }
        if current == '"' {
            self.advance();
            let (string, end_char) = self.read_while(Run::Double);
            if end_char.is_none() {
                self.position = start;
                return Err(String::from_str("double quote error"));
            }
            self.advance();
            Ok(Some(crate::text::string_of(string.as_slice())))
        } else if current == '\'' {
            self.advance();
            let (string, end_char) = self.read_while(Run::Single);
            if end_char.is_none() {
                self.position = start;
                return Err(String::from_str("single quote error"));
            }
            self.advance();
            Ok(Some(crate::text::string_of(string.as_slice())))
        } else {
            let (string, _) = self.read_while(Run::Bare);
            if string.len() == 0 {
                self.position = start;
                return Ok(None);
            }
            Ok(Some(crate::text::string_of(string.as_slice())))
        }
    }

    /// Reads a number at the position.
    pub fn read_number(&mut self) -> (r: Result<Option<usize>, String>)
        requires
            old(self).wf(),
        ensures
            final(self).wf(),
            final(self)@.source == old(self)@.source,
            final(self)@.position == number_at(old(self)@.source, old(self)@.position).position,
            reads(r, number_at(old(self)@.source, old(self)@.position)),
    {
        let start = self.position;
        match self.current_char() {
            Some(c) => {
                if !is_digit(c) {
                    return Err(String::from_str("invalid number"));
                }
            },
            None => {
                return Ok(None);
            },
        }
        let (string, _) = self.read_while(Run::Bare);
        match parse_usize(string.as_slice()) {
            Some(number) => Ok(Some(number)),
            None => {
                self.position = start;
                Err(String::from_str("invalid number"))
            },
        }
    }

    /// Reads a name at the position.
    pub fn read_ident(&mut self) -> (r: Result<Option<String>, String>)
        requires
            old(self).wf(),
        ensures
            final(self).wf(),
            final(self)@.source == old(self)@.source,
            final(self)@.position == ident_at(old(self)@.source, old(self)@.position).position,
            reads_text(r, ident_at(old(self)@.source, old(self)@.position)),
    {
        let start = self.position;
        match self.current_char() {
            Some(c) => {
                if c != '$' {
                    return Err(String::from_str("invalid identifier"));
                }
            },
            None => {
                return Ok(None);
            },
        }
        self.advance();
        proof {
            lemma_runs(self.source@, start + 1, Run::Bare);
        }
        let (string, _) = self.read_while(Run::Bare);
        if string.len() == 0 {
            self.position = start;
            return Err(String::from_str("invalid identifier"));
        }
        if !is_alphabetic(string[0]) || !is_alphanumeric(string[string.len() - 1]) {
            self.position = start;
            return Err(String::from_str("invalid identifier"));
        }
        Ok(Some(crate::text::string_of(string.as_slice())))
    }

    /// Reads a descriptor at the position.
    pub fn read_fd(&mut self) -> (r: Result<Option<usize>, String>)
        requires
            old(self).wf(),
        ensures
            final(self).wf(),
            final(self)@.source == old(self)@.source,
            final(self)@.position == fd_at(old(self)@.source, old(self)@.position).position,
            reads(r, fd_at(old(self)@.source, old(self)@.position)),
    {
        let start = self.position;
        match self.current_char() {
            Some(c) => {
                if c != '@' {
                    return Err(String::from_str("invalid file descriptor"));
                }
            },
            None => {
                return Ok(None);
            },
        }
        self.advance();
        proof {
            lemma_runs(self.source@, start + 1, Run::Bare);
        }
        let (string, _) = self.read_while(Run::Bare);
        match parse_usize(string.as_slice()) {
            Some(number) => Ok(Some(number)),
            None => {
                self.position = start;
                Err(String::from_str("invalid file descriptor"))
            },
        }
    }

    /// Reads a `$` or an `@` that starts no name and no descriptor.
    fn read_lone_sign(&mut self, sign: char, message: String) -> (r: Result<Token, Error>)
        requires
            old(self).wf(),
            old(self)@.position < old(self)@.source.len(),
        ensures
            final(self).wf(),
            final(self)@.source == old(self)@.source,
            final(self)@.position == lone_sign(
                old(self)@.source,
                old(self)@.position,
                sign,
                message@,
            ).position,
            match lone_sign(old(self)@.source, old(self)@.position, sign, message@).token {
                Ok(t) => r is Ok && r->Ok_0@ == t,
                Err(e) => r is Err && r->Err_0@ == e,
            },
    {
        let blank_follows = match self.peek_char() {
            Some(c) => is_whitespace(c),
            None => true,
        };
        if blank_follows {
            self.advance();
            let mut s = String::new();
            crate::text::push_char(&mut s, sign);
            assert(s@ =~= seq![sign]);
            Ok(Token::String(s))
        } else {
            Err(Error::new(ErrorKind::LexerError, message.as_str()))
        }
    }

    /// Reads a word as a token.
    fn read_word(&mut self, refusal: Option<String>) -> (r: Result<Token, Error>)
        requires
            old(self).wf(),
        ensures
            final(self).wf(),
            final(self)@.source == old(self)@.source,
            final(self)@.position == word_token(
                old(self)@.source,
                old(self)@.position,
                match refusal {
                    Some(m) => Some(m@),
                    None => None,
                },
            ).position,
            match word_token(
                old(self)@.source,
                old(self)@.position,
                match refusal {
                    Some(m) => Some(m@),
                    None => None,
                },
            ).token {
                Ok(t) => r is Ok && r->Ok_0@ == t,
                Err(e) => r is Err && r->Err_0@ == e,
            },
    {
        match self.read_string() {
            Ok(Some(string)) => Ok(Token::String(string)),
            Ok(None) => Ok(Token::EOF),
            Err(e) => {
                let message = match refusal {
                    Some(m) => m,
                    None => e,
                };
                Err(Error::new(ErrorKind::LexerError, message.as_str()))
            },
        }
    }

    /// Reads the next token.
    pub fn read(&mut self) -> (r: Result<Token, Error>)
        requires
            old(self).wf(),
        ensures
            final(self).wf(),
            final(self)@.source == old(self)@.source,
            final(self)@.position == token_at(old(self)@.source, old(self)@.position).position,
            match token_at(old(self)@.source, old(self)@.position).token {
                Ok(t) => r is Ok && r->Ok_0@ == t,
                Err(e) => r is Err && r->Err_0@ == e,
            },
    {
        let ghost source = self.source@;
        let ghost from = self.position as int;
        while self.position < self.source.len() && is_whitespace(self.source[self.position])
            invariant
                self.wf(),
                self.source@ == source,
                start_from(source, from) == start_from(source, self.position as int),
            decreases self.source@.len() - self.position,
        {
            self.position = self.position + 1;
        }
        let c = match self.current_char() {
            Some(c) => c,
            None => {
                return Ok(Token::EOF);
            },
        };
        if c == ';' {
            self.advance();
            Ok(Token::Semicolon)
        } else if c == '=' {
            self.advance();
            Ok(Token::Assign)
        } else if c == '&' {
            self.advance();
            Ok(Token::Ampersand)
        } else if c == '|' {
            self.advance();
            Ok(Token::Pipe)
        } else if c == '>' {
            self.advance();
            Ok(Token::Gt)
        } else if c == '<' {
            self.advance();
            Ok(Token::Lt)
        } else if c == '@' {
            match self.read_fd() {
                Ok(Some(fd)) => Ok(Token::FD(#[verifier::truncate] (fd as i32))),
                Ok(None) => Ok(Token::EOF),
                Err(e) => self.read_lone_sign('@', e),
            }
        } else if c == '$' {
            match self.read_ident() {
                Ok(Some(ident)) => Ok(Token::Ident(ident)),
                Ok(None) => Ok(Token::EOF),
                Err(e) => self.read_lone_sign('$', e),
            }
        } else if c == '"' || c == '\'' {
            self.read_word(None)
        } else if is_digit(c) {
            match self.read_number() {
                Ok(Some(number)) => Ok(Token::Number(number)),
                Ok(None) => Ok(Token::EOF),
                Err(e) => self.read_word(Some(e)),
            }
        } else {
            self.read_word(None)
        }
    }

    /// Reads the tokens that are left, up to and with the end of the
    /// input.
    pub fn tokenize(&mut self) -> (r: Result<Vec<Token>, Error>)
        requires
            old(self).wf(),
        ensures
            final(self).wf(),
            final(self)@.source == old(self)@.source,
            match lexed(old(self)@.source, old(self)@.position, Seq::empty()) {
                Ok(tokens) => r is Ok && token_views(r->Ok_0@) == tokens,
                Err(e) => r is Err && r->Err_0@ == e,
            },
    {
        let mut tokens: Vec<Token> = Vec::new();
        let ghost source = self.source@;
        let ghost start = self.position as int;
        assert(token_views(tokens@) =~= Seq::<TokenView>::empty());
        loop
            invariant
                self.wf(),
                self.source@ == source,
                source == old(self)@.source,
                start == old(self)@.position,
                lexed(source, start, Seq::empty()) == lexed(
                    source,
                    self.position as int,
                    token_views(tokens@),
                ),
            decreases self.source@.len() - self.position,
        {
            let ghost before = token_views(tokens@);
            let ghost at = self.position as int;
            proof {
                lemma_token_moves_on(source, at);
            }
            let token = match self.read() {
                Ok(token) => token,
                Err(e) => {
                    return Err(e);
                },
            };
            let is_semicolon = match &token {
                Token::Semicolon => true,
                _ => false,
            };
            let done = match &token {
                Token::EOF => true,
                _ => false,
            };
            let repeated = is_semicolon && tokens.len() > 0 && match &tokens[tokens.len() - 1] {
                Token::Semicolon => true,
                _ => false,
            };
            assert(tokens@.len() > 0 ==> before.last() == tokens@.last()@);
            if !repeated {
                let ghost view = token@;
                tokens.push(token);
                assert(token_views(tokens@) =~= before.push(view));
            }
            if done {
                return Ok(tokens);
            }
        }
    }
}

/// Reading a token that is not the end of the input moves the position
/// on, and never past the end.
pub proof fn lemma_token_moves_on(input: Seq<char>, from: int)
    requires
        0 <= from <= input.len(),
    ensures
        from <= token_at(input, from).position <= input.len(),
        token_at(input, from).token matches Ok(t) && t != TokenView::EOF ==> from < token_at(
            input,
            from,
        ).position,
{
    lemma_runs(input, from, Run::Bare);
    let at = start_from(input, from);
    if at < input.len() {
        lemma_runs(input, at, Run::Bare);
        lemma_runs(input, at + 1, Run::Bare);
        lemma_runs(input, at + 1, Run::Double);
        lemma_runs(input, at + 1, Run::Single);
    }
}

} // verus!
