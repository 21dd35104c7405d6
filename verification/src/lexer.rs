//! The lexer: from the characters of a command line to its tokens.
//!
//! Line feeds count as semicolons. White space separates tokens. `;`, `|`,
//! `=`, `>`, `<` and `&` are tokens of their own. `$name` is a name and
//! `@n` a descriptor, each running up to the next white space. A run of
//! digits up to the next white space is a number. Anything else is a word:
//! in double quotes up to the closing quote, or bare up to the next white
//! space or one of `;`, `|`, `>`, `<`, `&`, `$`. A bare word that reads as
//! a signed number is refused.

use vstd::prelude::*;
use crate::error::{Error, ErrorKind, ErrorView, error_of};
use crate::text::{
    chars_of,
    is_digit,
    is_digit_char,
    is_isize,
    is_isize_text,
    is_whitespace,
    is_whitespace_char,
    parse_i32,
    parse_usize,
    parsed_i32,
    parsed_usize,
    string_of_range,
};
use crate::token::{Token, TokenView, token_views};
use crate::utils::{replace_line_with_semicolon, with_semicolons};
use vstd::slice::slice_subrange;

verus! {

/// The first index from `from` on that holds white space, or the length of
/// the input.
pub open spec fn space_from(input: Seq<char>, from: int) -> int
    decreases input.len() - from,
{
    if from < 0 || from >= input.len() {
        input.len() as int
    } else if is_whitespace_char(input[from]) {
        from
    } else {
        space_from(input, from + 1)
    }
}

/// The first index from `from` on that holds no white space, or the length
/// of the input.
pub open spec fn token_from(input: Seq<char>, from: int) -> int
    decreases input.len() - from,
{
    if from < 0 || from >= input.len() {
        input.len() as int
    } else if !is_whitespace_char(input[from]) {
        from
    } else {
        token_from(input, from + 1)
    }
}

/// Whether `c` ends a bare word.
pub open spec fn ends_word(c: char) -> bool {
    is_whitespace_char(c) || c == ';' || c == '|' || c == '>' || c == '<' || c == '&' || c == '$'
}

/// The first index from `from` on that ends a bare word, or the length of
/// the input.
pub open spec fn word_end(input: Seq<char>, from: int) -> int
    decreases input.len() - from,
{
    if from < 0 || from >= input.len() {
        input.len() as int
    } else if ends_word(input[from]) {
        from
    } else {
        word_end(input, from + 1)
    }
}

/// The first index from `from` on that holds a double quote, or the length
/// of the input.
pub open spec fn quote_from(input: Seq<char>, from: int) -> int
    decreases input.len() - from,
{
    if from < 0 || from >= input.len() {
        input.len() as int
    } else if input[from] == '"' {
        from
    } else {
        quote_from(input, from + 1)
    }
}

/// The four scans stay within the input and do not go back.
pub proof fn lemma_scans(input: Seq<char>, from: int)
    requires
        0 <= from <= input.len(),
    ensures
        from <= space_from(input, from) <= input.len(),
        from <= token_from(input, from) <= input.len(),
        from <= word_end(input, from) <= input.len(),
        from <= quote_from(input, from) <= input.len(),
        from < input.len() && !is_whitespace_char(input[from]) ==> space_from(input, from) > from,
        from < input.len() && !ends_word(input[from]) ==> word_end(input, from) > from,
    decreases input.len() - from,
{
    if from < input.len() {
        lemma_scans(input, from + 1);
    }
}

/// What a reader gives: the value, where it succeeds, and the position
/// after it.
pub struct Reading<T> {
    pub value: Option<T>,
    pub position: int,
}

/// A word read at `at`. In double quotes it runs up to the closing quote;
/// where that is missing, it runs to the end and loses its last
/// character. Bare, it runs up to the end of the word and is refused where
/// it reads as a signed number. A refusal leaves the position as it is.
pub open spec fn string_at(input: Seq<char>, at: int) -> Reading<Seq<char>> {
    if at < 0 || at >= input.len() {
        Reading { value: None, position: at }
    } else if input[at] == '"' {
        let q = quote_from(input, at + 1);
        if q < input.len() {
            Reading { value: Some(input.subrange(at + 1, q)), position: q + 1 }
        } else if at + 1 <= input.len() - 1 {
            Reading {
                value: Some(input.subrange(at + 1, input.len() - 1)),
                position: input.len() as int,
            }
        } else {
            Reading { value: None, position: at }
        }
    } else {
        let e = word_end(input, at);
        if is_isize_text(input.subrange(at, e)) {
            Reading { value: None, position: at }
        } else {
            Reading { value: Some(input.subrange(at, e)), position: e }
        }
    }
}

/// A name read at `at`: a `$` and what follows it up to the next white
/// space. A `$` with nothing behind it is refused, and is passed over.
pub open spec fn ident_at(input: Seq<char>, at: int) -> Reading<Seq<char>> {
    if at < 0 || at >= input.len() || input[at] != '$' {
        Reading { value: None, position: at }
    } else {
        let e = space_from(input, at);
        if e <= at + 1 {
            Reading { value: None, position: at + 1 }
        } else {
            Reading { value: Some(input.subrange(at + 1, e)), position: e }
        }
    }
}

/// A number read at `at`: what stands there up to the next white space,
/// if it is an unsigned number that fits. A refusal leaves the position as
/// it is.
pub open spec fn number_at(input: Seq<char>, at: int) -> Reading<usize> {
    if at < 0 || at > input.len() {
        Reading { value: None, position: at }
    } else {
        let e = space_from(input, at);
        match parsed_usize(input.subrange(at, e)) {
            Some(n) => Reading { value: Some(n), position: e },
            None => Reading { value: None, position: at },
        }
    }
}

/// A descriptor read at `at`: an `@` and what follows it up to the next
/// white space, if that is a number that fits. A refusal leaves the
/// position as it is.
pub open spec fn fd_at(input: Seq<char>, at: int) -> Reading<i32> {
    if at < 0 || at >= input.len() || input[at] != '@' {
        Reading { value: None, position: at }
    } else {
        let e = space_from(input, at);
        match parsed_i32(input.subrange(at + 1, e)) {
            Some(n) => Reading { value: Some(n), position: e },
            None => Reading { value: None, position: at },
        }
    }
}

/// The error for what is no token.
pub open spec fn invalid_token() -> ErrorView {
    error_of(ErrorKind::LexerError, "Invalid token"@)
}

/// The position one further, but not past the end of the input.
pub open spec fn step_within(input: Seq<char>, position: int) -> int {
    if position < input.len() {
        position + 1
    } else {
        input.len() as int
    }
}

/// What reading one token gives: the token or the error, and the position
/// after it.
pub struct Lexed {
    pub token: Result<TokenView, ErrorView>,
    pub position: int,
}

/// The token that starts at the first character from `from` on that is no
/// white space; the end of the input where there is none.
pub open spec fn token_at(input: Seq<char>, from: int) -> Lexed {
    let at = token_from(input, from);
    if at < 0 || at >= input.len() {
        Lexed { token: Ok(TokenView::EOF), position: at }
    } else {
        let c = input[at];
        if c == ';' {
            Lexed { token: Ok(TokenView::Semicolon), position: at + 1 }
        } else if c == '|' {
            Lexed { token: Ok(TokenView::Pipe), position: at + 1 }
        } else if c == '=' {
            Lexed { token: Ok(TokenView::Assign), position: at + 1 }
        } else if c == '>' {
            Lexed { token: Ok(TokenView::Gt), position: at + 1 }
        } else if c == '<' {
            Lexed { token: Ok(TokenView::Lt), position: at + 1 }
        } else if c == '&' {
            Lexed { token: Ok(TokenView::Ampersand), position: at + 1 }
        } else if c == '$' {
            let r = ident_at(input, at);
            Lexed {
                token: Ok(
                    match r.value {
                        Some(s) => TokenView::Ident(s),
                        None => TokenView::Dollar,
                    },
                ),
                position: step_within(input, r.position),
            }
        } else if c == '@' {
            let r = fd_at(input, at);
            Lexed {
                token: Ok(
                    match r.value {
                        Some(n) => TokenView::FD(n),
                        None => TokenView::String(seq!['@']),
                    },
                ),
                position: step_within(input, r.position),
            }
        } else if is_digit_char(c) && number_at(input, at).value is Some {
            Lexed {
                token: Ok(TokenView::Number(number_at(input, at).value->0)),
                position: number_at(input, at).position,
            }
        } else {
            let r = string_at(input, at);
            match r.value {
                Some(s) => Lexed { token: Ok(TokenView::String(s)), position: r.position },
                None => Lexed { token: Err(invalid_token()), position: at },
            }
        }
    }
}

/// The tokens from `from` on, after the tokens `done`: up to and with the
/// end of the input, or the first error.
pub open spec fn lexed(input: Seq<char>, from: int, done: Seq<TokenView>) -> Result<
    Seq<TokenView>,
    ErrorView,
>
    decreases input.len() - from,
{
    let next = token_at(input, from);
    match next.token {
        Err(e) => Err(e),
        Ok(TokenView::EOF) => Ok(done.push(TokenView::EOF)),
        Ok(t) => if from < next.position <= input.len() {
            lexed(input, next.position, done.push(t))
        } else {
            Ok(done.push(t))
        },
    }
}

#[derive(Debug)]
pub struct Lexer {
    input: Vec<char>,
    position: usize,
    is_eof: bool,
}

pub struct LexerView {
    pub input: Seq<char>,
    pub position: int,
    pub is_eof: bool,
}

impl View for Lexer {
    type V = LexerView;

    closed spec fn view(&self) -> LexerView {
        LexerView { input: self.input@, position: self.position as int, is_eof: self.is_eof }
    }
}

/// Whether `r` is what the reading `expected` says.
pub open spec fn reads_string(r: Result<String, ()>, expected: Reading<Seq<char>>) -> bool {
    match expected.value {
        Some(s) => r is Ok && r->Ok_0@ == s,
        None => r is Err,
    }
}

impl Lexer {
    /// The invariant of a lexer: its position is within the input or at
    /// its end.
    pub open spec fn wf(&self) -> bool {
        0 <= self@.position <= self@.input.len()
    }

    /// What a new lexer for `input` is: at the start, with line feeds
    /// read as semicolons.
    pub open spec fn new_view(input: Seq<char>) -> LexerView {
        LexerView { input: with_semicolons(input), position: 0, is_eof: false }
    }

    /// A lexer at the start of `input`, with line feeds read as
    /// semicolons.
    pub fn new(input: &str) -> (r: Lexer)
        ensures
            r.wf(),
            r@ == Lexer::new_view(input@),
    {
        let text = replace_line_with_semicolon(input);
        Lexer { input: chars_of(text.as_str()), position: 0, is_eof: false }
    }

    /// The text `input[from..to]`.
    fn text(&self, from: usize, to: usize) -> (r: String)
        requires
            from <= to <= self@.input.len(),
        ensures
            r@ == self@.input.subrange(from as int, to as int),
    {
        string_of_range(self.input.as_slice(), from, to)
    }

    /// The first index from `from` on that holds white space.
    fn find_space(&self, from: usize) -> (r: usize)
        requires
            from <= self@.input.len(),
        ensures
            r == space_from(self@.input, from as int),
            from <= r <= self@.input.len(),
    {
        let mut i: usize = from;
        while i < self.input.len() && !is_whitespace(self.input[i])
            invariant
                from <= i <= self.input@.len(),
                space_from(self.input@, from as int) == space_from(self.input@, i as int),
            decreases self.input@.len() - i,
        {
            i = i + 1;
        }
        i
    }

    /// The first index from `from` on that ends a bare word.
    fn find_word_end(&self, from: usize) -> (r: usize)
        requires
            from <= self@.input.len(),
        ensures
            r == word_end(self@.input, from as int),
            from <= r <= self@.input.len(),
    {
        let mut i: usize = from;
        while i < self.input.len() && !(is_whitespace(self.input[i]) || self.input[i] == ';'
            || self.input[i] == '|' || self.input[i] == '>' || self.input[i] == '<'
            || self.input[i] == '&' || self.input[i] == '$')
            invariant
                from <= i <= self.input@.len(),
                word_end(self.input@, from as int) == word_end(self.input@, i as int),
            decreases self.input@.len() - i,
        {
            i = i + 1;
        }
        i
    }

    /// The first index from `from` on that holds a double quote.
    fn find_quote(&self, from: usize) -> (r: usize)
        requires
            from <= self@.input.len(),
        ensures
            r == quote_from(self@.input, from as int),
            from <= r <= self@.input.len(),
    {
        let mut i: usize = from;
        while i < self.input.len() && self.input[i] != '"'
            invariant
                from <= i <= self.input@.len(),
                quote_from(self.input@, from as int) == quote_from(self.input@, i as int),
            decreases self.input@.len() - i,
        {
            i = i + 1;
        }
        i
    }

    /// Reads a word at the position.
    pub fn read_string(&mut self) -> (r: Result<String, ()>)
        requires
            old(self).wf(),
        ensures
            final(self).wf(),
            reads_string(r, string_at(old(self)@.input, old(self)@.position)),
            final(self)@ == (LexerView {
                position: string_at(old(self)@.input, old(self)@.position).position,
                ..old(self)@
            }),
    {
        let at = self.position;
        let n = self.input.len();
        if at >= n {
            return Err(());
        }
        if self.input[at] == '"' {
            let q = self.find_quote(at + 1);
            if q < n {
                self.position = q + 1;
                Ok(self.text(at + 1, q))
            } else if at + 1 <= n - 1 {
                self.position = n;
                Ok(self.text(at + 1, n - 1))
            } else {
                Err(())
            }
        } else {
            let e = self.find_word_end(at);
            let part = slice_subrange(self.input.as_slice(), at, e);
            if is_isize(part) {
                Err(())
            } else {
                self.position = e;
                Ok(self.text(at, e))
            }
        }
    }

    /// Reads a name at the position.
    pub fn read_ident(&mut self) -> (r: Result<String, ()>)
        requires
            old(self).wf(),
        ensures
            final(self).wf(),
            reads_string(r, ident_at(old(self)@.input, old(self)@.position)),
            final(self)@ == (LexerView {
                position: ident_at(old(self)@.input, old(self)@.position).position,
                ..old(self)@
            }),
    {
        let at = self.position;
        if at >= self.input.len() || self.input[at] != '$' {
            return Err(());
        }
        let e = self.find_space(at);
        if e <= at + 1 {
            self.position = at + 1;
            return Err(());
        }
        self.position = e;
        Ok(self.text(at + 1, e))
    }

    /// Reads a number at the position.
    pub fn read_number(&mut self) -> (r: Result<usize, ()>)
        requires
            old(self).wf(),
        ensures
            final(self).wf(),
            match number_at(old(self)@.input, old(self)@.position).value {
                Some(n) => r == Ok::<usize, ()>(n),
                None => r is Err,
            },
            final(self)@ == (LexerView {
                position: number_at(old(self)@.input, old(self)@.position).position,
                ..old(self)@
            }),
    {
        let at = self.position;
        let e = self.find_space(at);
        let part = slice_subrange(self.input.as_slice(), at, e);
        match parse_usize(part) {
            Some(n) => {
                self.position = e;
                Ok(n)
            },
            None => Err(()),
        }
    }

    /// Reads a descriptor at the position.
    pub fn read_fd(&mut self) -> (r: Result<i32, ()>)
        requires
            old(self).wf(),
        ensures
            final(self).wf(),
            match fd_at(old(self)@.input, old(self)@.position).value {
                Some(n) => r == Ok::<i32, ()>(n),
                None => r is Err,
            },
            final(self)@ == (LexerView {
                position: fd_at(old(self)@.input, old(self)@.position).position,
                ..old(self)@
            }),
    {
        let at = self.position;
        if at >= self.input.len() || self.input[at] != '@' {
            return Err(());
        }
        let e = self.find_space(at);
        proof {
            lemma_scans(self.input@, at as int);
        }
        let part = slice_subrange(self.input.as_slice(), at + 1, e);
        match parse_i32(part) {
            Some(n) => {
                self.position = e;
                Ok(n)
            },
            None => Err(()),
        }
    }

    /// Moves the position one further, but not past the end of the input.
    fn step(&mut self)
        requires
            old(self).wf(),
        ensures
            final(self).wf(),
            final(self)@ == (LexerView {
                position: step_within(old(self)@.input, old(self)@.position),
                ..old(self)@
            }),
    {
        if self.position < self.input.len() {
            self.position = self.position + 1;
        }
    }

    /// Reads the next token: passes over white space and reads the token
    /// that starts there.
    pub fn read_token(&mut self) -> (r: Result<Token, Error>)
        requires
            old(self).wf(),
        ensures
            final(self).wf(),
            match token_at(old(self)@.input, old(self)@.position).token {
                Ok(t) => r is Ok && r->Ok_0@ == t,
                Err(e) => r is Err && r->Err_0@ == e,
            },
            final(self)@ == (LexerView {
                position: token_at(old(self)@.input, old(self)@.position).position,
                ..old(self)@
            }),
    {
        let ghost input = self.input@;
        let ghost from = self.position as int;
        while self.position < self.input.len() && is_whitespace(self.input[self.position])
            invariant
                self.wf(),
                self.input@ == input,
                self.is_eof == old(self).is_eof,
                token_from(input, from) == token_from(input, self.position as int),
            decreases self.input@.len() - self.position,
        {
            self.position = self.position + 1;
        }
        let at = self.position;
        if at >= self.input.len() {
            return Ok(Token::EOF);
        }
        let c = self.input[at];
        if c == ';' {
            self.position = at + 1;
            Ok(Token::Semicolon)
        } else if c == '|' {
            self.position = at + 1;
            Ok(Token::Pipe)
        } else if c == '=' {
            self.position = at + 1;
            Ok(Token::Assign)
        } else if c == '>' {
            self.position = at + 1;
            Ok(Token::Gt)
        } else if c == '<' {
            self.position = at + 1;
            Ok(Token::Lt)
        } else if c == '&' {
            self.position = at + 1;
            Ok(Token::Ampersand)
        } else if c == '$' {
            let token = match self.read_ident() {
                Ok(ident) => Token::Ident(ident),
                Err(_) => Token::Dollar,
            };
            self.step();
            Ok(token)
        } else if c == '@' {
            let token = match self.read_fd() {
                Ok(fd) => Token::FD(fd),
                Err(_) => {
                    let s = String::from_str("@");
                    proof {
                        reveal_strlit("@");
                        assert(s@ =~= seq!['@']);
                    }
                    Token::String(s)
                },
            };
            self.step();
            Ok(token)
        } else {
            if is_digit(c) {
                match self.read_number() {
                    Ok(number) => {
                        return Ok(Token::Number(number));
                    },
                    Err(_) => {},
                }
            }
            match self.read_string() {
                Ok(string) => Ok(Token::String(string)),
                Err(_) => Err(Error::new(ErrorKind::LexerError, "Invalid token")),
            }
        }
    }

    /// Reads the tokens that are left, up to and with the end of the
    /// input. A lexer that has reached the end gives no token.
    pub fn tokenize(&mut self) -> (r: Result<Vec<Token>, Error>)
        requires
            old(self).wf(),
        ensures
            final(self).wf(),
            final(self)@.input == old(self)@.input,
            old(self)@.is_eof ==> r is Ok && r->Ok_0@.len() == 0 && final(self)@ == old(self)@,
            !old(self)@.is_eof ==> match lexed(
                old(self)@.input,
                old(self)@.position,
                Seq::empty(),
            ) {
                Ok(tokens) => r is Ok && token_views(r->Ok_0@) == tokens && final(self)@.is_eof,
                Err(e) => r is Err && r->Err_0@ == e,
            },
    {
        let mut tokens: Vec<Token> = Vec::new();
        if self.is_eof {
            return Ok(tokens);
        }
        let ghost input = self.input@;
        let ghost start = self.position as int;
        assert(token_views(tokens@) =~= Seq::<TokenView>::empty());
        loop
            invariant
                self.wf(),
                self.input@ == input,
                input == old(self)@.input,
                start == old(self)@.position,
                !old(self)@.is_eof,
                !self.is_eof,
                lexed(input, start, Seq::empty()) == lexed(
                    input,
                    self.position as int,
                    token_views(tokens@),
                ),
            decreases self.input@.len() - self.position,
        {
            let ghost before = token_views(tokens@);
            let ghost at = self.position as int;
            proof {
                lemma_token_moves_on(input, at);
            }
            let token = match self.read_token() {
                Ok(token) => token,
                Err(e) => {
                    return Err(e);
                },
            };
            let done = match &token {
                Token::EOF => true,
                _ => false,
            };
            let ghost view = token@;
            tokens.push(token);
            assert(token_views(tokens@) =~= before.push(view));
            if done {
                self.is_eof = true;
                return Ok(tokens);
            }
        }
    }

    /// The next token, for a caller that takes the tokens one by one:
    /// `None` at the end of the input and ever after. An error ends the
    /// input too, and is answered with the end-of-input token.
    pub fn next(&mut self) -> (r: Option<Token>)
        requires
            old(self).wf(),
        ensures
            final(self).wf(),
            final(self)@.input == old(self)@.input,
            old(self)@.is_eof ==> r is None && final(self)@ == old(self)@,
            !old(self)@.is_eof ==> match token_at(old(self)@.input, old(self)@.position).token {
                Ok(TokenView::EOF) => r is None && final(self)@.is_eof,
                Ok(t) => r is Some && r->0@ == t && !final(self)@.is_eof,
                Err(_) => r is Some && r->0@ == TokenView::EOF && final(self)@.is_eof,
            },
    {
        if self.is_eof {
            return None;
        }
        match self.read_token() {
            Ok(Token::EOF) => {
                self.is_eof = true;
                None
            },
            Ok(token) => Some(token),
            Err(_) => {
                self.is_eof = true;
                Some(Token::EOF)
            },
        }
    }
}

/// Reading a token that is not the end of the input moves the position
/// on, and never past the end.
pub proof fn lemma_token_moves_on(input: Seq<char>, from: int)
    requires
        0 <= from <= input.len(),
    ensures
        from <= token_at(input, from).position <= input.len(),
        token_at(input, from).token matches Ok(t) && t != TokenView::EOF ==> from < token_at(
            input,
            from,
        ).position,
{
    lemma_scans(input, from);
    let at = token_from(input, from);
    if at < input.len() {
        lemma_token_starts(input, from);
        lemma_scans(input, at);
        lemma_scans(input, at + 1);
    }
}

/// The character at which a token starts is no white space.
pub proof fn lemma_token_starts(input: Seq<char>, from: int)
    requires
        0 <= from <= input.len(),
    ensures
        token_from(input, from) < input.len() ==> !is_whitespace_char(
            input[token_from(input, from)],
        ),
    decreases input.len() - from,
{
    if from < input.len() && is_whitespace_char(input[from]) {
        lemma_token_starts(input, from + 1);
    }
}

} // verus!
