//! The prompt: a template in which `\u`, `\s`, `\S`, `\v`, `\w` and `\W`
//! stand for the user, the shell, its full name, its version, the current
//! directory and its full path.

use vstd::prelude::*;
use crate::text::{chars_of, push_char};

verus! {

/// What the placeholders of a prompt stand for at the moment.
#[derive(Debug)]
pub struct Context {
    /// The name of the user.
    pub user_name: String,
    /// The last part of the current directory.
    pub current_directory: String,
    /// The full path of the current directory.
    pub current_directory_full: String,
}

/// The text `s` with every `\` followed by `letter` replaced by `to`. The
/// text is read from left to right, and what has been put in is not read
/// again.
pub open spec fn expanded(s: Seq<char>, letter: char, to: Seq<char>) -> Seq<char>
    decreases s.len(),
{
    if s.len() == 0 {
        Seq::empty()
    } else if s.len() >= 2 && s[0] == '\\' && s[1] == letter {
        to + expanded(s.skip(2), letter, to)
    } else {
        seq![s[0]] + expanded(s.skip(1), letter, to)
    }
}

/// The prompt of a template: the six placeholders are replaced one after
/// the other, in the order `\u`, `\s`, `\S`, `\v`, `\w`, `\W`.
pub open spec fn decoded(
    source: Seq<char>,
    user: Seq<char>,
    directory: Seq<char>,
    directory_full: Seq<char>,
) -> Seq<char> {
    let a = expanded(source, 'u', user);
    let b = expanded(a, 's', "fsh"@);
    let c = expanded(b, 'S', "FlatShell"@);
    let d = expanded(c, 'v', "0.0.1"@);
    let e = expanded(d, 'w', directory);
    expanded(e, 'W', directory_full)
}

/// Replaces every `\` followed by `letter`.
fn expand(s: &str, letter: char, to: &str) -> (r: String)
    ensures
        r@ == expanded(s@, letter, to@),
{
    let chars = chars_of(s);
    let mut r = String::new();
    let mut i: usize = 0;
    assert(chars@.skip(0) == chars@);
    assert(r@ + expanded(chars@, letter, to@) =~= expanded(chars@, letter, to@));
    while i < chars.len()
        invariant
            i <= chars@.len(),
            chars@ == s@,
            expanded(s@, letter, to@) == r@ + expanded(chars@.skip(i as int), letter, to@),
        decreases chars@.len() - i,
    {
        let ghost rest = chars@.skip(i as int);
        let ghost before = r@;
        assert(rest[0] == chars@[i as int]);
        if chars.len() - i >= 2 && chars[i] == '\\' && chars[i + 1] == letter {
            assert(rest[1] == chars@[i + 1]);
            assert(rest.skip(2) =~= chars@.skip(i + 2));
            r.append(to);
            assert(r@ + expanded(chars@.skip(i + 2), letter, to@) =~= before + (to@ + expanded(
                chars@.skip(i + 2),
                letter,
                to@,
            )));
            i = i + 2;
        } else {
            assert(rest.len() >= 2 ==> rest[1] == chars@[i + 1]);
            assert(rest.skip(1) =~= chars@.skip(i + 1));
            push_char(&mut r, chars[i]);
            assert(r@ + expanded(chars@.skip(i + 1), letter, to@) =~= before + (seq![
                chars@[i as int],
            ] + expanded(chars@.skip(i + 1), letter, to@)));
            i = i + 1;
        }
    }
    assert(r@ + Seq::<char>::empty() =~= r@);
    r
}

/// Replaces the placeholders of a template.
pub fn decode(source: &str, context: &Context) -> (r: String)
    ensures
        r@ == decoded(
            source@,
            context.user_name@,
            context.current_directory@,
            context.current_directory_full@,
        ),
{
    let a = expand(source, 'u', context.user_name.as_str());
    let b = expand(a.as_str(), 's', "fsh");
    let c = expand(b.as_str(), 'S', "FlatShell");
    let d = expand(c.as_str(), 'v', "0.0.1");
    let e = expand(d.as_str(), 'w', context.current_directory.as_str());
    expand(e.as_str(), 'W', context.current_directory_full.as_str())
}

/// The prompt of a template.
pub fn prompt(source: &str, context: &Context) -> (r: String)
    ensures
        r@ == decoded(
            source@,
            context.user_name@,
            context.current_directory@,
            context.current_directory_full@,
        ),
{
    decode(source, context)
}

/// A template without a backslash is its own prompt.
pub proof fn lemma_plain_template(s: Seq<char>, letter: char, to: Seq<char>)
    requires
        !s.contains('\\'),
    ensures
        expanded(s, letter, to) == s,
    decreases s.len(),
{
    if s.len() > 0 {
        assert(s[0] != '\\');
        let rest = s.skip(1);
        assert forall|c: char| rest.contains(c) implies s.contains(c) by {
            let j = choose|j: int| 0 <= j < rest.len() && rest[j] == c;
            assert(s[j + 1] == c);
        }
        lemma_plain_template(rest, letter, to);
        assert(seq![s[0]] + rest =~= s);
    }
}

} // verus!
