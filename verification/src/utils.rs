//! Helpers of the front end: cutting token lists at a separator, and
//! cleaning the text of a script before it is lexed.

use vstd::prelude::*;
use crate::text::{chars_of, is_whitespace, is_whitespace_char, push_char};
use crate::token::{Token, TokenView, token_views};

verus! {

/// The index of the first element of `s` that equals `x`, or the length of
/// `s` where there is none.
pub open spec fn position_of<A>(s: Seq<A>, x: A) -> int
    decreases s.len(),
{
    if s.len() == 0 {
        0
    } else if s[0] == x {
        0
    } else {
        1 + position_of(s.drop_first(), x)
    }
}

/// `position_of` gives the first occurrence: nothing before it equals `x`,
/// and it is the length of `s` exactly when `x` does not occur.
pub proof fn lemma_position_of<A>(s: Seq<A>, x: A)
    ensures
        0 <= position_of(s, x) <= s.len(),
        position_of(s, x) < s.len() ==> s[position_of(s, x)] == x,
        forall|i: int| 0 <= i < position_of(s, x) ==> s[i] != x,
        position_of(s, x) == s.len() <==> !s.contains(x),
    decreases s.len(),
{
    if s.len() > 0 && s[0] != x {
        let rest = s.drop_first();
        lemma_position_of(rest, x);
        assert forall|i: int| 0 <= i < position_of(s, x) implies s[i] != x by {
            if i > 0 {
                assert(rest[i - 1] == s[i]);
            }
        }
        if rest.contains(x) {
            let j = choose|j: int| 0 <= j < rest.len() && rest[j] == x;
            assert(s[j + 1] == x);
        }
        if s.contains(x) {
            let j = choose|j: int| 0 <= j < s.len() && s[j] == x;
            assert(rest[j - 1] == x);
        }
    }
}

/// What is left of `tokens` before the first `place`: everything where
/// `place` does not occur.
pub open spec fn before(tokens: Seq<TokenView>, place: TokenView) -> Seq<TokenView> {
    tokens.take(position_of(tokens, place))
}

/// What is right of the first `place` in `tokens`: nothing where `place`
/// does not occur.
pub open spec fn after(tokens: Seq<TokenView>, place: TokenView) -> Seq<TokenView> {
    if position_of(tokens, place) < tokens.len() {
        tokens.skip(position_of(tokens, place) + 1)
    } else {
        Seq::empty()
    }
}

/// The pieces that `tokens` falls into when it is cut at each `place`. A
/// `place` at the very end leaves no empty piece behind it.
pub open spec fn pieces(tokens: Seq<TokenView>, place: TokenView) -> Seq<Seq<TokenView>>
    decreases tokens.len(),
{
    if after(tokens, place).len() == 0 {
        seq![before(tokens, place)]
    } else if after(tokens, place).len() < tokens.len() {
        seq![before(tokens, place)] + pieces(after(tokens, place), place)
    } else {
        seq![before(tokens, place)]
    }
}

/// The views of a sequence of token lists.
pub open spec fn piece_views(s: Seq<Vec<Token>>) -> Seq<Seq<TokenView>> {
    s.map_values(|v: Vec<Token>| token_views(v@))
}

/// A copy of the tokens `tokens[from..to]`.
pub fn copy_tokens(tokens: &[Token], from: usize, to: usize) -> (r: Vec<Token>)
    requires
        from <= to <= tokens@.len(),
    ensures
        token_views(r@) == token_views(tokens@).subrange(from as int, to as int),
{
    let mut r: Vec<Token> = Vec::new();
    let mut i: usize = from;
    while i < to
        invariant
            from <= i <= to <= tokens@.len(),
            r@.len() == i - from,
            forall|j: int| 0 <= j < r@.len() ==> r@[j]@ == tokens@[from + j]@,
        decreases to - i,
    {
        r.push(tokens[i].clone());
        i = i + 1;
    }
    assert(token_views(r@) =~= token_views(tokens@).subrange(from as int, to as int));
    r
}

/// The index of the first token that is `place`, or the number of tokens
/// where there is none.
pub fn find_token(place: &Token, tokens: &[Token]) -> (r: usize)
    ensures
        r == position_of(token_views(tokens@), place@),
{
    let ghost views = token_views(tokens@);
    let mut i: usize = 0;
    assert(views.skip(0) == views);
    while i < tokens.len()
        invariant
            i <= tokens@.len(),
            views == token_views(tokens@),
            position_of(views, place@) == i + position_of(views.skip(i as int), place@),
        decreases tokens@.len() - i,
    {
        let ghost rest = views.skip(i as int);
        assert(rest[0] == tokens@[i as int]@);
        if tokens[i].same(place) {
            return i;
        }
        assert(rest.drop_first() == views.skip(i + 1));
        i = i + 1;
    }
    assert(views.skip(i as int).len() == 0);
    i
}

/// Cuts `tokens` at the first `place`: what is before it, and what is
/// after it. The `place` itself is left out. Where it does not occur,
/// everything is on the left.
pub fn split(place: &Token, tokens: &[Token]) -> (r: (Vec<Token>, Vec<Token>))
    ensures
        token_views(r.0@) == before(token_views(tokens@), place@),
        token_views(r.1@) == after(token_views(tokens@), place@),
{
    let at = find_token(place, tokens);
    proof {
        lemma_position_of(token_views(tokens@), place@);
    }
    let left = copy_tokens(tokens, 0, at);
    if at < tokens.len() {
        let right = copy_tokens(tokens, at + 1, tokens.len());
        (left, right)
    } else {
        let right: Vec<Token> = Vec::new();
        assert(token_views(right@) =~= Seq::<TokenView>::empty());
        (left, right)
    }
}

/// Cuts `tokens` at every `place`.
pub fn recursion_split(place: &Token, tokens: &[Token]) -> (r: Vec<Vec<Token>>)
    ensures
        piece_views(r@) == pieces(token_views(tokens@), place@),
    decreases tokens@.len(),
{
    let (left, right) = split(place, tokens);
    proof {
        lemma_position_of(token_views(tokens@), place@);
    }
    let mut result: Vec<Vec<Token>> = Vec::new();
    result.push(left);
    if right.len() == 0 {
        assert(piece_views(result@) =~= seq![before(token_views(tokens@), place@)]);
    } else {
        let ghost head = piece_views(result@);
        assert(token_views(right@).len() == right@.len());
        assert(right@.len() < tokens@.len());
        let mut rest = recursion_split(place, right.as_slice());
        let ghost tail = piece_views(rest@);
        result.append(&mut rest);
        assert(piece_views(result@) =~= head + tail);
        assert(head =~= seq![before(token_views(tokens@), place@)]);
    }
    result
}

/// There is at least one piece, the first piece is what stands before the
/// first separator, and no piece holds the separator.
pub proof fn lemma_pieces_cover(tokens: Seq<TokenView>, place: TokenView)
    ensures
        pieces(tokens, place).len() >= 1,
        pieces(tokens, place)[0] == before(tokens, place),
        forall|i: int|
            0 <= i < pieces(tokens, place).len() ==> !(#[trigger] pieces(tokens, place)[i]).contains(
                place,
            ),
    decreases tokens.len(),
{
    lemma_position_of(tokens, place);
    let b = before(tokens, place);
    assert(!b.contains(place)) by {
        if b.contains(place) {
            let j = choose|j: int| 0 <= j < b.len() && b[j] == place;
            assert(tokens[j] == place);
        }
    }
    if after(tokens, place).len() != 0 && after(tokens, place).len() < tokens.len() {
        lemma_pieces_cover(after(tokens, place), place);
        let rest = pieces(after(tokens, place), place);
        assert forall|i: int| 0 <= i < pieces(tokens, place).len() implies !(
        #[trigger] pieces(tokens, place)[i]).contains(place) by {
            if i > 0 {
                assert(pieces(tokens, place)[i] == rest[i - 1]);
            }
        }
    }
}

/// The text without its comments. A comment starts at `#` and runs up to
/// the next line break or semicolon, which belongs to it.
pub open spec fn uncommented(s: Seq<char>, in_comment: bool) -> Seq<char>
    decreases s.len(),
{
    if s.len() == 0 {
        Seq::empty()
    } else {
        let c = s[0];
        let hidden = in_comment || c == '#';
        let ends = c == '\n' || c == '\r' || c == ';';
        let rest = uncommented(s.drop_first(), hidden && !ends);
        if hidden {
            rest
        } else {
            seq![c] + rest
        }
    }
}

/// Removes the comments from a script.
pub fn remove_comment(input: &str) -> (r: String)
    ensures
        r@ == uncommented(input@, false),
{
    let chars = chars_of(input);
    let mut result = String::new();
    let mut is_comment = false;
    let mut i: usize = 0;
    assert(chars@.skip(0) == chars@);
    while i < chars.len()
        invariant
            i <= chars@.len(),
            chars@ == input@,
            uncommented(input@, false) == result@ + uncommented(chars@.skip(i as int), is_comment),
        decreases chars@.len() - i,
    {
        let c = chars[i];
        let ghost rest = chars@.skip(i as int);
        assert(rest[0] == c);
        assert(rest.drop_first() == chars@.skip(i + 1));
        if c == '#' {
            is_comment = true;
        }
        if !is_comment {
            let ghost before = result@;
            push_char(&mut result, c);
            assert(before + (seq![c] + uncommented(chars@.skip(i + 1), false)) =~= result@
                + uncommented(chars@.skip(i + 1), false));
        }
        if c == '\n' || c == '\r' || c == ';' {
            is_comment = false;
        }
        i = i + 1;
    }
    assert(result@ + Seq::<char>::empty() =~= result@);
    result
}

/// A line without the carriage return at its end, if it has one.
pub open spec fn without_cr(line: Seq<char>) -> Seq<char> {
    if line.len() > 0 && line.last() == '\r' {
        line.drop_last()
    } else {
        line
    }
}

/// The lines of a text. A line ends at a line feed; the line feed, and a
/// carriage return just before it, are not part of the line. What follows
/// the last line feed is a line if it is not empty.
pub open spec fn lines_of(s: Seq<char>) -> Seq<Seq<char>>
    decreases s.len(),
{
    let p = position_of(s, '\n');
    if s.len() == 0 {
        Seq::empty()
    } else if 0 <= p < s.len() {
        seq![without_cr(s.take(p))] + lines_of(s.skip(p + 1))
    } else {
        seq![s]
    }
}

/// The lines of a text.
pub fn lines(input: &str) -> (r: Vec<String>)
    ensures
        crate::text::string_views(r@) == lines_of(input@),
{
    let chars = chars_of(input);
    let mut r: Vec<String> = Vec::new();
    let mut start: usize = 0;
    assert(chars@.skip(0) == chars@);
    assert(crate::text::string_views(r@) + lines_of(chars@) =~= lines_of(chars@));
    while start < chars.len()
        invariant
            start <= chars@.len(),
            chars@ == input@,
            lines_of(input@) == crate::text::string_views(r@) + lines_of(
                chars@.skip(start as int),
            ),
        decreases chars@.len() - start,
    {
        let end = find_feed(&chars, start);
        let has_feed = end < chars.len();
        let line_end: usize = if has_feed && end > start && chars[end - 1] == '\r' {
            end - 1
        } else {
            end
        };
        let next: usize = if has_feed {
            end + 1
        } else {
            end
        };
        let ghost line = chars@.subrange(start as int, line_end as int);
        let ghost tail = lines_of(chars@.skip(next as int));
        let ghost before = crate::text::string_views(r@);
        proof {
            lemma_first_line(chars@, start as int, end as int);
            let whole = chars@.subrange(start as int, end as int);
            if has_feed {
                assert(without_cr(whole) =~= line);
            } else {
                assert(chars@.skip(next as int) =~= Seq::<char>::empty());
                assert(tail =~= Seq::<Seq<char>>::empty());
                assert(seq![line] + tail =~= seq![line]);
            }
            assert(lines_of(chars@.skip(start as int)) == seq![line] + tail);
        }
        r.push(crate::text::string_of_range(chars.as_slice(), start, line_end));
        assert(crate::text::string_views(r@) + tail =~= before + (seq![line] + tail));
        start = next;
    }
    assert(chars@.skip(start as int) =~= Seq::<char>::empty());
    assert(crate::text::string_views(r@) + Seq::<Seq<char>>::empty() =~= crate::text::string_views(
        r@,
    ));
    r
}

/// Whether a line holds white space only.
pub open spec fn is_blank(line: Seq<char>) -> bool {
    forall|i: int| 0 <= i < line.len() ==> is_whitespace_char(#[trigger] line[i])
}

/// The lines that are not blank, each followed by a line feed.
pub open spec fn kept_lines(lines: Seq<Seq<char>>) -> Seq<char>
    decreases lines.len(),
{
    if lines.len() == 0 {
        Seq::empty()
    } else if is_blank(lines[0]) {
        kept_lines(lines.drop_first())
    } else {
        lines[0] + seq!['\n'] + kept_lines(lines.drop_first())
    }
}

/// Whether `chars[from..to]` holds white space only.
fn blank_range(chars: &Vec<char>, from: usize, to: usize) -> (r: bool)
    requires
        from <= to <= chars@.len(),
    ensures
        r == is_blank(chars@.subrange(from as int, to as int)),
{
    let ghost line = chars@.subrange(from as int, to as int);
    let mut i: usize = from;
    while i < to
        invariant
            from <= i <= to <= chars@.len(),
            line == chars@.subrange(from as int, to as int),
            forall|j: int| 0 <= j < i - from ==> is_whitespace_char(#[trigger] line[j]),
        decreases to - i,
    {
        if !is_whitespace(chars[i]) {
            assert(line[i - from] == chars@[i as int]);
            return false;
        }
        assert(line[i - from] == chars@[i as int]);
        i = i + 1;
    }
    true
}

/// Where the line that starts at `start` ends: the index of the next line
/// feed, or the length of the text.
fn find_feed(chars: &Vec<char>, start: usize) -> (end: usize)
    requires
        start <= chars@.len(),
    ensures
        start <= end <= chars@.len(),
        end - start == position_of(chars@.skip(start as int), '\n'),
{
    let ghost rest = chars@.skip(start as int);
    let mut end: usize = start;
    assert(rest.skip(0) == rest);
    while end < chars.len() && chars[end] != '\n'
        invariant
            start <= end <= chars@.len(),
            rest == chars@.skip(start as int),
            position_of(rest, '\n') == (end - start) + position_of(rest.skip(end - start), '\n'),
        decreases chars@.len() - end,
    {
        let ghost tail = rest.skip(end - start);
        assert(tail[0] == chars@[end as int]);
        assert(tail.drop_first() == rest.skip(end - start + 1));
        end = end + 1;
    }
    proof {
        let tail = rest.skip(end - start);
        if end < chars@.len() {
            assert(tail[0] == chars@[end as int]);
        }
    }
    end
}

/// The first line of what is left of a text from `start` on, and the lines
/// after it.
proof fn lemma_first_line(s: Seq<char>, start: int, end: int)
    requires
        0 <= start < s.len(),
        start <= end <= s.len(),
        end - start == position_of(s.skip(start), '\n'),
    ensures
        end < s.len() ==> lines_of(s.skip(start)) == seq![without_cr(s.subrange(start, end))]
            + lines_of(s.skip(end + 1)),
        end == s.len() ==> lines_of(s.skip(start)) == seq![s.subrange(start, end)],
{
    let rest = s.skip(start);
    assert(rest.take(end - start) =~= s.subrange(start, end));
    if end < s.len() {
        assert(rest.skip(end - start + 1) =~= s.skip(end + 1));
    } else {
        assert(rest =~= s.subrange(start, end));
    }
}

/// What a first line adds to the lines that are kept.
proof fn lemma_kept_first(line: Seq<char>, rest: Seq<Seq<char>>)
    ensures
        kept_lines(seq![line] + rest) == if is_blank(line) {
            kept_lines(rest)
        } else {
            line + seq!['\n'] + kept_lines(rest)
        },
{
    let all = seq![line] + rest;
    assert(all[0] == line);
    assert(all.drop_first() =~= rest);
}

/// Appends the characters `chars[from..to]` to `result`.
fn push_range(result: &mut String, chars: &Vec<char>, from: usize, to: usize)
    requires
        from <= to <= chars@.len(),
    ensures
        final(result)@ == old(result)@ + chars@.subrange(from as int, to as int),
{
    let mut i: usize = from;
    assert(result@ =~= old(result)@ + chars@.subrange(from as int, from as int));
    while i < to
        invariant
            from <= i <= to <= chars@.len(),
            result@ == old(result)@ + chars@.subrange(from as int, i as int),
        decreases to - i,
    {
        push_char(result, chars[i]);
        assert(chars@.subrange(from as int, i + 1) =~= chars@.subrange(from as int, i as int).push(
            chars@[i as int],
        ));
        i = i + 1;
    }
}

/// Removes the lines that hold white space only, and ends every line that
/// is left with a line feed.
pub fn remove_empty_line(input: &str) -> (r: String)
    ensures
        r@ == kept_lines(lines_of(input@)),
{
    let chars = chars_of(input);
    let mut result = String::new();
    let mut start: usize = 0;
    assert(chars@.skip(0) == chars@);
    assert(result@ + kept_lines(lines_of(chars@)) =~= kept_lines(lines_of(chars@)));
    while start < chars.len()
        invariant
            start <= chars@.len(),
            chars@ == input@,
            kept_lines(lines_of(input@)) == result@ + kept_lines(
                lines_of(chars@.skip(start as int)),
            ),
        decreases chars@.len() - start,
    {
        let end = find_feed(&chars, start);
        let has_feed = end < chars.len();
        let line_end: usize = if has_feed && end > start && chars[end - 1] == '\r' {
            end - 1
        } else {
            end
        };
        let next: usize = if has_feed {
            end + 1
        } else {
            end
        };
        let ghost line = chars@.subrange(start as int, line_end as int);
        let ghost tail = lines_of(chars@.skip(next as int));
        proof {
            lemma_first_line(chars@, start as int, end as int);
            let whole = chars@.subrange(start as int, end as int);
            if has_feed {
                assert(without_cr(whole) =~= line);
            } else {
                assert(chars@.skip(next as int) =~= Seq::<char>::empty());
                assert(tail =~= Seq::<Seq<char>>::empty());
                assert(seq![line] + tail =~= seq![line]);
            }
            assert(lines_of(chars@.skip(start as int)) == seq![line] + tail);
            lemma_kept_first(line, tail);
        }
        let ghost before = result@;
        if !blank_range(&chars, start, line_end) {
            push_range(&mut result, &chars, start, line_end);
            push_char(&mut result, '\n');
            assert(result@ + kept_lines(tail) =~= before + (line + seq!['\n'] + kept_lines(tail)));
        }
        start = next;
    }
    assert(chars@.skip(start as int) =~= Seq::<char>::empty());
    assert(result@ + Seq::<char>::empty() =~= result@);
    result
}

/// The text with every line feed replaced by a semicolon.
pub open spec fn with_semicolons(s: Seq<char>) -> Seq<char> {
    s.map_values(
        |c: char|
            if c == '\n' {
                ';'
            } else {
                c
            },
    )
}

/// Replaces every line feed by a semicolon.
pub fn replace_line_with_semicolon(input: &str) -> (r: String)
    ensures
        r@ == with_semicolons(input@),
{
    let chars = chars_of(input);
    let mut result = String::new();
    let mut i: usize = 0;
    while i < chars.len()
        invariant
            i <= chars@.len(),
            chars@ == input@,
            result@ == with_semicolons(chars@.take(i as int)),
        decreases chars@.len() - i,
    {
        let c = chars[i];
        let ghost before = result@;
        if c == '\n' {
            push_char(&mut result, ';');
        } else {
            push_char(&mut result, c);
        }
        assert(with_semicolons(chars@.take(i + 1)) =~= with_semicolons(chars@.take(i as int)).push(
            if c == '\n' {
                ';'
            } else {
                c
            },
        ));
        i = i + 1;
    }
    assert(chars@.take(chars@.len() as int) == chars@);
    result
}

} // verus!
