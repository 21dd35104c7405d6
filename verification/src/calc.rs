//! A calculator for integer expressions with `+`, `-`, `*`, `/` and
//! parentheses: the text is cut into tokens, the tokens are put into
//! postfix order, and the postfix form is evaluated on a stack.
//!
//! A number is a run of ASCII digits. Whatever cannot be computed (a
//! malformed expression, a number that does not fit, a division by zero,
//! an overflow) is answered with the placeholder error.

use vstd::prelude::*;
use crate::error::{Error, ErrorView};
use crate::lite_parser::dummy_error;
use crate::text::{
    all_digits,
    chars_of,
    is_digit,
    is_digit_char,
    is_whitespace,
    is_whitespace_char,
    parse_i32,
    parsed_i32,
    push_char,
    string_views,
};

verus! {

/// Whether `c` is an operator or a parenthesis.
pub open spec fn is_operator_char(c: char) -> bool {
    c == '+' || c == '-' || c == '*' || c == '/' || c == '(' || c == ')'
}

/// The tokens that are complete when the text ends: those before, and the
/// number that was being read, if there is one.
pub open spec fn flushed(tokens: Seq<Seq<char>>, buffer: Seq<char>) -> Seq<Seq<char>> {
    if buffer.len() > 0 {
        tokens.push(buffer)
    } else {
        tokens
    }
}

/// The tokens of the text from `i` on, after the tokens `tokens` and the
/// digits `buffer` of a number that is being read. White space is passed
/// over and does not end a number. A character that is no digit, no
/// operator and no parenthesis is an error.
pub open spec fn tokenized(s: Seq<char>, i: int, tokens: Seq<Seq<char>>, buffer: Seq<char>) -> Result<
    Seq<Seq<char>>,
    ErrorView,
>
    decreases s.len() - i,
{
    if i < 0 || i >= s.len() {
        Ok(flushed(tokens, buffer))
    } else if is_whitespace_char(s[i]) {
        tokenized(s, i + 1, tokens, buffer)
    } else if is_digit_char(s[i]) {
        tokenized(s, i + 1, tokens, buffer.push(s[i]))
    } else if is_operator_char(s[i]) {
        tokenized(s, i + 1, flushed(tokens, buffer).push(seq![s[i]]), Seq::empty())
    } else {
        Err(dummy_error())
    }
}

/// Whether `r` is the list of strings that `expected` says, or its error.
pub open spec fn agrees_on_strings(
    r: Result<Vec<String>, Error>,
    expected: Result<Seq<Seq<char>>, ErrorView>,
) -> bool {
    match expected {
        Ok(v) => r is Ok && string_views(r->Ok_0@) == v,
        Err(e) => r is Err && r->Err_0@ == e,
    }
}

/// Cuts an expression into numbers, operators and parentheses.
pub fn pre_process(input: &str) -> (r: Result<Vec<String>, Error>)
    ensures
        agrees_on_strings(r, tokenized(input@, 0, Seq::empty(), Seq::empty())),
{
    let chars = chars_of(input);
    let mut tokens: Vec<String> = Vec::new();
    let mut buffer = String::new();
    let mut i: usize = 0;
    assert(string_views(tokens@) =~= Seq::<Seq<char>>::empty());
    while i < chars.len()
        invariant
            i <= chars@.len(),
            chars@ == input@,
            tokenized(input@, 0, Seq::empty(), Seq::empty()) == tokenized(
                input@,
                i as int,
                string_views(tokens@),
                buffer@,
            ),
        decreases chars@.len() - i,
    {
        let c = chars[i];
        if is_whitespace(c) {
        } else if is_digit(c) {
            push_char(&mut buffer, c);
        } else if c == '+' || c == '-' || c == '*' || c == '/' || c == '(' || c == ')' {
            let ghost before = string_views(tokens@);
            let ghost number = buffer@;
            if !buffer.as_str().is_empty() {
                tokens.push(buffer);
                buffer = String::new();
            }
            let mut symbol = String::new();
            push_char(&mut symbol, c);
            assert(symbol@ =~= seq![c]);
            tokens.push(symbol);
            assert(string_views(tokens@) =~= flushed(before, number).push(seq![c]));
            assert(buffer@ =~= Seq::<char>::empty());
        } else {
            return Err(Error::dummy());
        }
        i = i + 1;
    }
    let ghost before = string_views(tokens@);
    let ghost number = buffer@;
    if !buffer.as_str().is_empty() {
        tokens.push(buffer);
    }
    assert(string_views(tokens@) =~= flushed(before, number));
    Ok(tokens)
}

/// `(`.
pub open spec fn open_paren() -> Seq<char> {
    seq!['(']
}

/// Whether `t` is `*` or `/`.
pub open spec fn is_product(t: Seq<char>) -> bool {
    t == seq!['*'] || t == seq!['/']
}

/// Whether `t` is `+` or `-`.
pub open spec fn is_sum(t: Seq<char>) -> bool {
    t == seq!['+'] || t == seq!['-']
}

/// The stack and the output after a `)`: what lies above the nearest `(`
/// goes to the output, top first, and that `(` is dropped.
pub open spec fn closed_paren(stack: Seq<Seq<char>>, output: Seq<Seq<char>>) -> (
    Seq<Seq<char>>,
    Seq<Seq<char>>,
)
    decreases stack.len(),
{
    if stack.len() == 0 {
        (stack, output)
    } else if stack.last() == open_paren() {
        (stack.drop_last(), output)
    } else {
        closed_paren(stack.drop_last(), output.push(stack.last()))
    }
}

/// The stack and the output before a `+` or `-` is pushed: what lies above
/// the nearest `(` goes to the output, top first.
pub open spec fn yielded_to_sum(stack: Seq<Seq<char>>, output: Seq<Seq<char>>) -> (
    Seq<Seq<char>>,
    Seq<Seq<char>>,
)
    decreases stack.len(),
{
    if stack.len() == 0 || stack.last() == open_paren() {
        (stack, output)
    } else {
        yielded_to_sum(stack.drop_last(), output.push(stack.last()))
    }
}

/// The stack and the output before a `*` or `/` is pushed: the `*` and `/`
/// on top of the stack go to the output, top first.
pub open spec fn yielded_to_product(stack: Seq<Seq<char>>, output: Seq<Seq<char>>) -> (
    Seq<Seq<char>>,
    Seq<Seq<char>>,
)
    decreases stack.len(),
{
    if stack.len() > 0 && is_product(stack.last()) {
        yielded_to_product(stack.drop_last(), output.push(stack.last()))
    } else {
        (stack, output)
    }
}

/// The output after the last token: what is left on the stack goes to the
/// output, top first.
pub open spec fn emptied(stack: Seq<Seq<char>>, output: Seq<Seq<char>>) -> Seq<Seq<char>>
    decreases stack.len(),
{
    if stack.len() == 0 {
        output
    } else {
        emptied(stack.drop_last(), output.push(stack.last()))
    }
}

/// The postfix form of the tokens from `i` on, with the output and the
/// operator stack of the tokens before.
pub open spec fn postfix(
    tokens: Seq<Seq<char>>,
    i: int,
    output: Seq<Seq<char>>,
    stack: Seq<Seq<char>>,
) -> Result<Seq<Seq<char>>, ErrorView>
    decreases tokens.len() - i,
{
    if i < 0 || i >= tokens.len() {
        Ok(emptied(stack, output))
    } else {
        let t = tokens[i];
        if all_digits(t) {
            postfix(tokens, i + 1, output.push(t), stack)
        } else if t == open_paren() {
            postfix(tokens, i + 1, output, stack.push(t))
        } else if t == seq![')'] {
            postfix(tokens, i + 1, closed_paren(stack, output).1, closed_paren(stack, output).0)
        } else if is_sum(t) {
            postfix(
                tokens,
                i + 1,
                yielded_to_sum(stack, output).1,
                yielded_to_sum(stack, output).0.push(t),
            )
        } else if is_product(t) {
            postfix(
                tokens,
                i + 1,
                yielded_to_product(stack, output).1,
                yielded_to_product(stack, output).0.push(t),
            )
        } else {
            Err(dummy_error())
        }
    }
}

/// Whether a token is exactly the character `c`.
fn is_symbol(token: &String, c: char) -> (r: bool)
    ensures
        r == (token@ == seq![c]),
{
    let s = token.as_str();
    let r = s.unicode_len() == 1 && s.get_char(0) == c;
    assert(r ==> token@ =~= seq![c]);
    r
}

/// Whether a token is made of ASCII digits only.
fn is_number(token: &String) -> (r: bool)
    ensures
        r == all_digits(token@),
{
    let chars = chars_of(token.as_str());
    let mut i: usize = 0;
    while i < chars.len()
        invariant
            i <= chars@.len(),
            chars@ == token@,
            forall|j: int| 0 <= j < i ==> is_digit_char(#[trigger] chars@[j]),
        decreases chars@.len() - i,
    {
        if !is_digit(chars[i]) {
            return false;
        }
        i = i + 1;
    }
    true
}

/// Moves the top of the stack to the output.
fn move_top(stack: &mut Vec<String>, output: &mut Vec<String>)
    requires
        old(stack)@.len() > 0,
    ensures
        final(stack)@.len() == old(stack)@.len() - 1,
        string_views(final(stack)@) == string_views(old(stack)@).drop_last(),
        string_views(final(output)@) == string_views(old(output)@).push(
            string_views(old(stack)@).last(),
        ),
{
    let top = stack.pop().unwrap();
    output.push(top);
    assert(string_views(stack@) =~= string_views(old(stack)@).drop_last());
    assert(string_views(output@) =~= string_views(old(output)@).push(
        string_views(old(stack)@).last(),
    ));
}

/// Puts the tokens of an expression into postfix order.
pub fn shunting_yard(tokens: Vec<String>) -> (r: Result<Vec<String>, Error>)
    ensures
        agrees_on_strings(r, postfix(string_views(tokens@), 0, Seq::empty(), Seq::empty())),
{
    let ghost views = string_views(tokens@);
    let mut output: Vec<String> = Vec::new();
    let mut stack: Vec<String> = Vec::new();
    let mut i: usize = 0;
    assert(string_views(output@) =~= Seq::<Seq<char>>::empty());
    assert(string_views(stack@) =~= Seq::<Seq<char>>::empty());
    while i < tokens.len()
        invariant
            i <= tokens@.len(),
            views == string_views(tokens@),
            postfix(views, 0, Seq::empty(), Seq::empty()) == postfix(
                views,
                i as int,
                string_views(output@),
                string_views(stack@),
            ),
        decreases tokens@.len() - i,
    {
        let token = tokens[i].clone();
        assert(views[i as int] == token@);
        let ghost out0 = string_views(output@);
        let ghost st0 = string_views(stack@);
        if is_number(&token) {
            output.push(token);
            assert(string_views(output@) =~= out0.push(views[i as int]));
        } else if is_symbol(&token, '(') {
            stack.push(token);
            assert(string_views(stack@) =~= st0.push(views[i as int]));
        } else if is_symbol(&token, ')') {
            let mut found = false;
            while !found && stack.len() > 0
                invariant
                    !found ==> closed_paren(st0, out0) == closed_paren(
                        string_views(stack@),
                        string_views(output@),
                    ),
                    found ==> closed_paren(st0, out0) == (
                        string_views(stack@),
                        string_views(output@),
                    ),
                decreases stack@.len() + if found {
                    0int
                } else {
                    1int
                },
            {
                assert(string_views(stack@).last() == stack@.last()@);
                if is_symbol(&stack[stack.len() - 1], '(') {
                    let ghost before = string_views(stack@);
                    let _ = stack.pop();
                    assert(string_views(stack@) =~= before.drop_last());
                    found = true;
                } else {
                    move_top(&mut stack, &mut output);
                }
            }
        } else if is_symbol(&token, '+') || is_symbol(&token, '-') {
            while stack.len() > 0 && !is_symbol(&stack[stack.len() - 1], '(')
                invariant
                    yielded_to_sum(st0, out0) == yielded_to_sum(
                        string_views(stack@),
                        string_views(output@),
                    ),
                    stack@.len() > 0 ==> string_views(stack@).last() == stack@.last()@,
                decreases stack@.len(),
            {
                move_top(&mut stack, &mut output);
                assert(stack@.len() > 0 ==> string_views(stack@).last() == stack@.last()@);
            }
            let ghost st1 = string_views(stack@);
            stack.push(token);
            assert(string_views(stack@) =~= st1.push(views[i as int]));
        } else if is_symbol(&token, '*') || is_symbol(&token, '/') {
            while stack.len() > 0 && (is_symbol(&stack[stack.len() - 1], '*') || is_symbol(
                &stack[stack.len() - 1],
                '/',
            ))
                invariant
                    yielded_to_product(st0, out0) == yielded_to_product(
                        string_views(stack@),
                        string_views(output@),
                    ),
                    stack@.len() > 0 ==> string_views(stack@).last() == stack@.last()@,
                decreases stack@.len(),
            {
                move_top(&mut stack, &mut output);
                assert(stack@.len() > 0 ==> string_views(stack@).last() == stack@.last()@);
            }
            let ghost st1 = string_views(stack@);
            stack.push(token);
            assert(string_views(stack@) =~= st1.push(views[i as int]));
        } else {
            return Err(Error::dummy());
        }
        i = i + 1;
    }
    let ghost out0 = string_views(output@);
    let ghost st0 = string_views(stack@);
    while stack.len() > 0
        invariant
            emptied(st0, out0) == emptied(string_views(stack@), string_views(output@)),
        decreases stack@.len(),
    {
        move_top(&mut stack, &mut output);
    }
    Ok(output)
}

/// The quotient of `a` by `b`, rounded towards zero.
pub open spec fn quotient(a: int, b: int) -> int
    recommends
        b != 0,
{
    if a >= 0 && b > 0 {
        a / b
    } else if a < 0 && b > 0 {
        -((-a) / b)
    } else if a >= 0 && b < 0 {
        -(a / (-b))
    } else {
        (-a) / (-b)
    }
}

/// The result of the operator `op` on `left` and `right`, where it can be
/// computed and fits.
pub open spec fn applied(op: Seq<char>, left: i32, right: i32) -> Option<i32> {
    let value: Option<int> = if op == seq!['+'] {
        Some(left + right)
    } else if op == seq!['-'] {
        Some(left - right)
    } else if op == seq!['*'] {
        Some(left * right)
    } else if op == seq!['/'] && right != 0 {
        Some(quotient(left as int, right as int))
    } else {
        None
    };
    match value {
        Some(v) => if i32::MIN <= v <= i32::MAX {
            Some(v as i32)
        } else {
            None
        },
        None => None,
    }
}

/// The value of the postfix tokens from `i` on, with the stack of the
/// tokens before. A number is pushed. An operator takes its right operand
/// and then its left one from the stack and pushes the result. The value
/// is what is on top of the stack at the end.
pub open spec fn computed(tokens: Seq<Seq<char>>, i: int, stack: Seq<i32>) -> Result<i32, ErrorView>
    decreases tokens.len() - i,
{
    if i < 0 || i >= tokens.len() {
        if stack.len() > 0 {
            Ok(stack.last())
        } else {
            Err(dummy_error())
        }
    } else {
        let t = tokens[i];
        if all_digits(t) {
            match parsed_i32(t) {
                Some(n) => computed(tokens, i + 1, stack.push(n)),
                None => Err(dummy_error()),
            }
        } else if stack.len() < 2 {
            Err(dummy_error())
        } else {
            match applied(t, stack[stack.len() - 2], stack.last()) {
                Some(v) => computed(tokens, i + 1, stack.drop_last().drop_last().push(v)),
                None => Err(dummy_error()),
            }
        }
    }
}

/// Divides, rounding towards zero.
fn divide(left: i32, right: i32) -> (r: Option<i32>)
    ensures
        r == applied(seq!['/'], left, right),
{
    proof {
        let op = seq!['/'];
        assert(op[0] == '/');
        assert(op != seq!['+'] && op != seq!['-'] && op != seq!['*']) by {
            assert(seq!['+'][0] == '+');
            assert(seq!['-'][0] == '-');
            assert(seq!['*'][0] == '*');
        }
    }
    if right == 0 {
        return None;
    }
    let a: i64 = left as i64;
    let b: i64 = right as i64;
    let ghost x = a as int;
    let ghost y = b as int;
    let q: i64 = if a >= 0 && b > 0 {
        assert(0 <= x / y <= x) by (nonlinear_arith)
            requires
                x >= 0,
                y > 0,
        ;
        a / b
    } else if a < 0 && b > 0 {
        assert(0 <= (-x) / y <= -x) by (nonlinear_arith)
            requires
                -x >= 0,
                y > 0,
        ;
        -((-a) / b)
    } else if a >= 0 && b < 0 {
        assert(0 <= x / (-y) <= x) by (nonlinear_arith)
            requires
                x >= 0,
                -y > 0,
        ;
        -(a / (-b))
    } else {
        assert(0 <= (-x) / (-y) <= -x) by (nonlinear_arith)
            requires
                -x >= 0,
                -y > 0,
        ;
        (-a) / (-b)
    };
    assert(q == quotient(x, y));
    if q > 0x7fff_ffff {
        None
    } else {
        Some(q as i32)
    }
}

/// Applies an operator.
fn apply(op: &String, left: i32, right: i32) -> (r: Option<i32>)
    ensures
        r == applied(op@, left, right),
{
    if is_symbol(op, '+') {
        left.checked_add(right)
    } else if is_symbol(op, '-') {
        left.checked_sub(right)
    } else if is_symbol(op, '*') {
        left.checked_mul(right)
    } else if is_symbol(op, '/') {
        divide(left, right)
    } else {
        None
    }
}

/// Evaluates an expression in postfix order.
pub fn calculate(tokens: Vec<String>) -> (r: Result<i32, Error>)
    ensures
        agrees_on_value(r, computed(string_views(tokens@), 0, Seq::empty())),
{
    let ghost views = string_views(tokens@);
    let mut stack: Vec<i32> = Vec::new();
    let mut i: usize = 0;
    while i < tokens.len()
        invariant
            i <= tokens@.len(),
            views == string_views(tokens@),
            computed(views, 0, Seq::empty()) == computed(views, i as int, stack@),
        decreases tokens@.len() - i,
    {
        assert(views[i as int] == tokens@[i as int]@);
        if is_number(&tokens[i]) {
            let chars = chars_of(tokens[i].as_str());
            match parse_i32(chars.as_slice()) {
                Some(n) => {
                    stack.push(n);
                },
                None => {
                    return Err(Error::dummy());
                },
            }
        } else {
            if stack.len() < 2 {
                return Err(Error::dummy());
            }
            let ghost before = stack@;
            let right = stack.pop().unwrap();
            let left = stack.pop().unwrap();
            match apply(&tokens[i], left, right) {
                Some(v) => {
                    stack.push(v);
                    assert(stack@ =~= before.drop_last().drop_last().push(v));
                },
                None => {
                    return Err(Error::dummy());
                },
            }
        }
        i = i + 1;
    }
    match stack.pop() {
        Some(v) => Ok(v),
        None => Err(Error::dummy()),
    }
}

/// Whether `r` is the number that `expected` says, or its error.
pub open spec fn agrees_on_value(r: Result<i32, Error>, expected: Result<i32, ErrorView>) -> bool {
    match expected {
        Ok(v) => r == Ok::<i32, Error>(v),
        Err(e) => r is Err && r->Err_0@ == e,
    }
}

/// The value of an expression: its tokens, in postfix order, evaluated.
pub open spec fn value_of(input: Seq<char>) -> Result<i32, ErrorView> {
    match tokenized(input, 0, Seq::empty(), Seq::empty()) {
        Err(e) => Err(e),
        Ok(tokens) => match postfix(tokens, 0, Seq::empty(), Seq::empty()) {
            Err(e) => Err(e),
            Ok(ordered) => computed(ordered, 0, Seq::empty()),
        },
    }
}

/// Evaluates an integer expression.
pub fn eval(input: &str) -> (r: Result<i32, Error>)
    ensures
        agrees_on_value(r, value_of(input@)),
{
    let tokens = match pre_process(input) {
        Ok(tokens) => tokens,
        Err(e) => {
            return Err(e);
        },
    };
    let ordered = match shunting_yard(tokens) {
        Ok(ordered) => ordered,
        Err(e) => {
            return Err(e);
        },
    };
    calculate(ordered)
}

} // verus!
