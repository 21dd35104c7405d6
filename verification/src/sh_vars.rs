//! The shell's variables: a map from names to values.
//!
//! The entries are kept in the order in which their names first came, and
//! no name occurs twice.

use vstd::prelude::*;
use crate::error::{Error, ErrorKind, error_of};
use crate::text::{
    chars_of,
    is_whitespace,
    is_whitespace_char,
    reversed,
    string_of_range,
    string_views,
};
use crate::utils::{lines, lines_of, position_of};

verus! {

/// The names of a list of entries, in order.
pub open spec fn names_of(items: Seq<(String, String)>) -> Seq<Seq<char>> {
    items.map_values(|p: (String, String)| p.0@)
}

/// The values of a list of entries, in order.
pub open spec fn values_of(items: Seq<(String, String)>) -> Seq<Seq<char>> {
    items.map_values(|p: (String, String)| p.1@)
}

/// The map that a list of entries with distinct names stands for.
pub open spec fn map_of(items: Seq<(String, String)>) -> Map<Seq<char>, Seq<char>> {
    Map::new(
        |k: Seq<char>| names_of(items).contains(k),
        |k: Seq<char>| values_of(items)[names_of(items).index_of(k)],
    )
}

/// The map `base` after each pair of `items` has been set in turn, a later
/// pair replacing an earlier one of the same name.
pub open spec fn inherited(base: Map<Seq<char>, Seq<char>>, items: Seq<(String, String)>) -> Map<
    Seq<char>,
    Seq<char>,
>
    decreases items.len(),
{
    if items.len() == 0 {
        base
    } else {
        inherited(base, items.drop_last()).insert(items.last().0@, items.last().1@)
    }
}

/// Whether `names` lists the names of `m`, each once.
pub open spec fn lists_names(names: Seq<Seq<char>>, m: Map<Seq<char>, Seq<char>>) -> bool {
    &&& names.no_duplicates()
    &&& forall|k: Seq<char>| names.contains(k) <==> m.dom().contains(k)
}

/// The message of the error for a name that is not set.
pub open spec fn missing_key(key: Seq<char>) -> Seq<char> {
    "The key '"@ + key + "' does not exist"@
}

proof fn lemma_entry(items: Seq<(String, String)>, i: int)
    requires
        names_of(items).no_duplicates(),
        0 <= i < items.len(),
    ensures
        map_of(items).dom().contains(items[i].0@),
        map_of(items)[items[i].0@] == items[i].1@,
        names_of(items).index_of(items[i].0@) == i,
{
    let names = names_of(items);
    assert(names[i] == items[i].0@);
    assert(names.contains(items[i].0@));
    let j = names.index_of(items[i].0@);
    assert(0 <= j < names.len() && names[j] == names[i]);
    assert(j == i);
}

proof fn lemma_size(items: Seq<(String, String)>)
    requires
        names_of(items).no_duplicates(),
    ensures
        map_of(items).dom().finite(),
        map_of(items).dom().len() == items.len(),
{
    let names = names_of(items);
    assert(map_of(items).dom() =~= names.to_set());
    names.unique_seq_to_set();
    vstd::seq_lib::seq_to_set_is_finite(names);
}

#[derive(Debug)]
pub struct ShVars {
    items: Vec<(String, String)>,
}

impl View for ShVars {
    type V = Map<Seq<char>, Seq<char>>;

    closed spec fn view(&self) -> Map<Seq<char>, Seq<char>> {
        map_of(self.items@)
    }
}

impl ShVars {
    /// The invariant of the store: no name occurs twice.
    pub closed spec fn wf(self) -> bool {
        names_of(self.items@).no_duplicates()
    }

    /// The names in the order in which they are stored.
    pub closed spec fn order(self) -> Seq<Seq<char>> {
        names_of(self.items@)
    }

    /// No variables.
    pub fn new() -> (r: ShVars)
        ensures
            r.wf(),
            r@ == Map::<Seq<char>, Seq<char>>::empty(),
    {
        let r = ShVars { items: Vec::new() };
        assert(r@ =~= Map::<Seq<char>, Seq<char>>::empty());
        r
    }

    /// Where `key` is stored, if it is set.
    fn position(&self, key: &String) -> (r: Option<usize>)
        ensures
            match r {
                Some(i) => i < self.items@.len() && self.items@[i as int].0@ == key@,
                None => !names_of(self.items@).contains(key@),
            },
    {
        let mut i: usize = 0;
        while i < self.items.len()
            invariant
                i <= self.items@.len(),
                forall|j: int| 0 <= j < i ==> names_of(self.items@)[j] != key@,
            decreases self.items@.len() - i,
        {
            if self.items[i].0 == *key {
                return Some(i);
            }
            i = i + 1;
        }
        None
    }

    /// The value of `key`; `NotFound` where it is not set.
    pub fn get(&self, key: &str) -> (r: Result<&str, Error>)
        requires
            self.wf(),
        ensures
            self@.dom().contains(key@) ==> r is Ok && r->Ok_0@ == self@[key@],
            !self@.dom().contains(key@) ==> r is Err && r->Err_0@ == error_of(
                ErrorKind::NotFound,
                missing_key(key@),
            ),
    {
        let k = String::from_str(key);
        match self.position(&k) {
            Some(i) => {
                proof {
                    lemma_entry(self.items@, i as int);
                }
                Ok(self.items[i].1.as_str())
            },
            None => {
                let mut m = String::from_str("The key '");
                m.append(key);
                m.append("' does not exist");
                Err(Error::new(ErrorKind::NotFound, m.as_str()))
            },
        }
    }

    /// Sets `key` to `value`, replacing what it was set to.
    pub fn insert(&mut self, key: String, value: String)
        requires
            old(self).wf(),
        ensures
            final(self).wf(),
            final(self)@ == old(self)@.insert(key@, value@),
    {
        let ghost before = self.items@;
        match self.position(&key) {
            Some(i) => {
                let ghost k = key@;
                let ghost v = value@;
                self.items.set(i, (key, value));
                proof {
                    let after = self.items@;
                    assert(names_of(after) =~= names_of(before));
                    assert(values_of(after) =~= values_of(before).update(i as int, v));
                    lemma_entry(before, i as int);
                    assert(names_of(before).index_of(k) == i);
                    assert(map_of(after) =~= map_of(before).insert(k, v));
                }
            },
            None => {
                let ghost k = key@;
                let ghost v = value@;
                self.items.push((key, value));
                proof {
                    let after = self.items@;
                    assert(names_of(after) =~= names_of(before).push(k));
                    assert(values_of(after) =~= values_of(before).push(v));
                    assert(names_of(after).no_duplicates());
                    lemma_entry(after, before.len() as int);
                    assert forall|x: Seq<char>| names_of(before).contains(x) implies map_of(
                        after,
                    )[x] == map_of(before)[x] by {
                        let j = names_of(before).index_of(x);
                        lemma_entry(after, j);
                        lemma_entry(before, j);
                    }
                    assert forall|x: Seq<char>|
                        map_of(after).dom().contains(x) <==> map_of(before).insert(
                            k,
                            v,
                        ).dom().contains(x) by {
                        if names_of(after).contains(x) {
                            let j = names_of(after).index_of(x);
                            if j < before.len() {
                                assert(names_of(before)[j] == x);
                            }
                        }
                        if names_of(before).contains(x) {
                            let j = names_of(before).index_of(x);
                            assert(names_of(after)[j] == x);
                        }
                        if x == k {
                            assert(names_of(after)[before.len() as int] == x);
                        }
                    }
                    assert(map_of(after) =~= map_of(before).insert(k, v));
                }
            },
        }
    }

    /// Sets `key` to `value`, replacing what it was set to.
    pub fn set(&mut self, key: &str, value: &str)
        requires
            old(self).wf(),
        ensures
            final(self).wf(),
            final(self)@ == old(self)@.insert(key@, value@),
    {
        self.insert(String::from_str(key), String::from_str(value));
    }

    /// Removes `key`; nothing changes where it is not set.
    pub fn remove(&mut self, key: &str)
        requires
            old(self).wf(),
        ensures
            final(self).wf(),
            final(self)@ == old(self)@.remove(key@),
    {
        let ghost before = self.items@;
        let k = String::from_str(key);
        match self.position(&k) {
            Some(i) => {
                self.items.remove(i);
                proof {
                    let after = self.items@;
                    assert(names_of(after) =~= names_of(before).remove(i as int));
                    assert(values_of(after) =~= values_of(before).remove(i as int));
                    assert(names_of(after).no_duplicates());
                    assert(names_of(before)[i as int] == key@);
                    assert forall|x: Seq<char>| names_of(after).contains(x) implies names_of(
                        before,
                    ).contains(x) && x != key@ by {
                        let j = names_of(after).index_of(x);
                        assert(names_of(after)[j] == x);
                        if j < i {
                            assert(names_of(before)[j] == x);
                        } else {
                            assert(names_of(before)[j + 1] == x);
                        }
                    }
                    assert forall|x: Seq<char>|
                        names_of(before).contains(x) && x != key@ implies names_of(
                        after,
                    ).contains(x) by {
                        let j = names_of(before).index_of(x);
                        assert(names_of(before)[j] == x);
                        if j < i {
                            assert(names_of(after)[j] == x);
                        } else {
                            assert(names_of(after)[j - 1] == x);
                        }
                    }
                    assert forall|x: Seq<char>| map_of(after).dom().contains(x) implies map_of(
                        after,
                    )[x] == map_of(before)[x] by {
                        let j = names_of(after).index_of(x);
                        lemma_entry(after, j);
                        if j < i {
                            lemma_entry(before, j);
                        } else {
                            lemma_entry(before, j + 1);
                        }
                    }
                    assert(map_of(after) =~= map_of(before).remove(key@));
                }
            },
            None => {
                assert(map_of(before) =~= map_of(before).remove(key@));
            },
        }
    }

    /// Removes `key`; nothing changes where it is not set.
    pub fn unset(&mut self, key: &str)
        requires
            old(self).wf(),
        ensures
            final(self).wf(),
            final(self)@ == old(self)@.remove(key@),
    {
        self.remove(key);
    }

    /// Whether `key` is set.
    pub fn contains(&self, key: &str) -> (r: bool)
        ensures
            r == self@.dom().contains(key@),
    {
        let k = String::from_str(key);
        match self.position(&k) {
            Some(i) => {
                assert(names_of(self.items@)[i as int] == key@);
                true
            },
            None => false,
        }
    }

    /// The number of variables.
    pub fn len(&self) -> (r: usize)
        requires
            self.wf(),
        ensures
            self@.dom().finite(),
            r == self@.dom().len(),
    {
        proof {
            lemma_size(self.items@);
        }
        self.items.len()
    }

    pub fn is_empty(&self) -> (r: bool)
        requires
            self.wf(),
        ensures
            r == (self@ == Map::<Seq<char>, Seq<char>>::empty()),
    {
        proof {
            lemma_size(self.items@);
            if self.items@.len() == 0 {
                assert(self@ =~= Map::<Seq<char>, Seq<char>>::empty());
            }
        }
        self.items.len() == 0
    }

    /// Removes every variable.
    pub fn clear(&mut self)
        ensures
            final(self).wf(),
            final(self)@ == Map::<Seq<char>, Seq<char>>::empty(),
    {
        self.items.clear();
        assert(self@ =~= Map::<Seq<char>, Seq<char>>::empty());
    }

    /// The names, each once, in the order in which they are stored.
    pub fn keys(&self) -> (r: Vec<&String>)
        requires
            self.wf(),
        ensures
            r@.map_values(|s: &String| s@) == self.order(),
            lists_names(self.order(), self@),
    {
        let mut r: Vec<&String> = Vec::new();
        for i in 0..self.items.len()
            invariant
                r@.len() == i,
                forall|j: int| 0 <= j < i ==> r@[j]@ == self.items@[j].0@,
        {
            r.push(&self.items[i].0);
        }
        assert(r@.map_values(|s: &String| s@) =~= self.order());
        r
    }

    /// The values, in the order of their names.
    pub fn values(&self) -> (r: Vec<&String>)
        requires
            self.wf(),
        ensures
            r@.len() == self.order().len(),
            forall|i: int| 0 <= i < r@.len() ==> r@[i]@ == self@[self.order()[i]],
            lists_names(self.order(), self@),
    {
        let mut r: Vec<&String> = Vec::new();
        for i in 0..self.items.len()
            invariant
                r@.len() == i,
                names_of(self.items@).no_duplicates(),
                forall|j: int| 0 <= j < i ==> r@[j]@ == self@[self.order()[j]],
        {
            proof {
                lemma_entry(self.items@, i as int);
            }
            r.push(&self.items[i].1);
        }
        r
    }

    /// The variables as pairs of name and value, in the order in which they
    /// are stored.
    pub fn entries(&self) -> (r: Vec<(&String, &String)>)
        requires
            self.wf(),
        ensures
            r@.len() == self.order().len(),
            forall|i: int|
                0 <= i < r@.len() ==> r@[i].0@ == self.order()[i] && r@[i].1@ == self@[self.order()[i]],
            lists_names(self.order(), self@),
    {
        let mut r: Vec<(&String, &String)> = Vec::new();
        for i in 0..self.items.len()
            invariant
                r@.len() == i,
                names_of(self.items@).no_duplicates(),
                forall|j: int|
                    0 <= j < i ==> r@[j].0@ == self.order()[j] && r@[j].1@ == self@[self.order()[j]],
        {
            proof {
                lemma_entry(self.items@, i as int);
            }
            r.push((&self.items[i].0, &self.items[i].1));
        }
        r
    }

    /// The variables that a list of pairs sets, a later pair replacing an
    /// earlier one of the same name.
    pub fn from_pairs(pairs: Vec<(String, String)>) -> (r: ShVars)
        ensures
            r.wf(),
            r@ == inherited(Map::empty(), pairs@),
    {
        let mut r = ShVars::new();
        r.inherit(pairs);
        r
    }

    /// Sets every pair of `vars` in turn, as `insert` would.
    pub fn inherit(&mut self, vars: Vec<(String, String)>)
        requires
            old(self).wf(),
        ensures
            final(self).wf(),
            final(self)@ == inherited(old(self)@, vars@),
    {
        let ghost all = vars@;
        let mut rest = reversed(vars);
        while rest.len() > 0
            invariant
                rest@.len() <= all.len(),
                rest@ == all.reverse().take(rest@.len() as int),
                self.wf(),
                self@ == inherited(old(self)@, all.take(all.len() - rest@.len())),
            decreases rest@.len(),
        {
            let ghost n = all.len() - rest@.len();
            let p = rest.pop().unwrap();
            assert(p == all[n]);
            assert(all.take(n + 1).drop_last() == all.take(n));
            assert(all.take(n + 1).last() == p);
            self.insert(p.0, p.1);
        }
        assert(all.take(all.len() as int) == all);
    }
}

impl Clone for ShVars {
    fn clone(&self) -> (r: ShVars)
        ensures
            self.wf() ==> r.wf(),
            r@ == self@,
    {
        let mut items: Vec<(String, String)> = Vec::new();
        for i in 0..self.items.len()
            invariant
                items@.len() == i,
                forall|j: int|
                    0 <= j < i ==> items@[j].0@ == self.items@[j].0@ && items@[j].1@
                        == self.items@[j].1@,
        {
            items.push((self.items[i].0.clone(), self.items[i].1.clone()));
        }
        proof {
            assert(names_of(items@) =~= names_of(self.items@));
            assert(values_of(items@) =~= values_of(self.items@));
        }
        let r = ShVars { items };
        assert(r@ =~= self@);
        r
    }
}


/// The text without the white space at its start.
pub open spec fn trim_start(s: Seq<char>) -> Seq<char>
    decreases s.len(),
{
    if s.len() > 0 && is_whitespace_char(s[0]) {
        trim_start(s.drop_first())
    } else {
        s
    }
}

/// The text without the white space at its end.
pub open spec fn trim_end(s: Seq<char>) -> Seq<char>
    decreases s.len(),
{
    if s.len() > 0 && is_whitespace_char(s.last()) {
        trim_end(s.drop_last())
    } else {
        s
    }
}

/// The text without the white space at its start and at its end.
pub open spec fn trimmed(s: Seq<char>) -> Seq<char> {
    trim_end(trim_start(s))
}

/// The variable that a line of a variables file sets: the name is what
/// stands before the first `=`, the value what stands between the first
/// `=` and the second, or the end of the line; both without the white
/// space around them. A line without `=` sets nothing.
pub open spec fn entry_of(line: Seq<char>) -> Option<(Seq<char>, Seq<char>)> {
    let p = position_of(line, '=');
    if p >= line.len() {
        None
    } else {
        let rest = line.skip(p + 1);
        Some((trimmed(line.take(p)), trimmed(rest.take(position_of(rest, '=')))))
    }
}

/// The variables that the lines from `i` on set, on top of `vars`.
pub open spec fn loaded(lines: Seq<Seq<char>>, i: int, vars: Map<Seq<char>, Seq<char>>) -> Map<
    Seq<char>,
    Seq<char>,
>
    decreases lines.len() - i,
{
    if i < 0 || i >= lines.len() {
        vars
    } else {
        match entry_of(lines[i]) {
            Some((key, value)) => loaded(lines, i + 1, vars.insert(key, value)),
            None => loaded(lines, i + 1, vars),
        }
    }
}

/// One line of a listing: `name=value` and a line feed.
pub open spec fn listed(name: Seq<char>, value: Seq<char>) -> Seq<char> {
    name + seq!['='] + value + seq!['\n']
}

/// The lines of the variables `names`, each followed by `gap`.
pub open spec fn listing_of(
    names: Seq<Seq<char>>,
    vars: Map<Seq<char>, Seq<char>>,
    gap: Seq<char>,
) -> Seq<char>
    decreases names.len(),
{
    if names.len() == 0 {
        Seq::empty()
    } else {
        listing_of(names.drop_last(), vars, gap) + listed(names.last(), vars[names.last()]) + gap
    }
}

/// The index of the first character from `from` on that is `c`, as an
/// offset from `from`.
fn find_char(chars: &Vec<char>, from: usize, c: char) -> (r: usize)
    requires
        from <= chars@.len(),
    ensures
        from + r <= chars@.len(),
        r == position_of(chars@.skip(from as int), c),
{
    let ghost rest = chars@.skip(from as int);
    let mut i: usize = from;
    assert(rest.skip(0) == rest);
    while i < chars.len() && chars[i] != c
        invariant
            from <= i <= chars@.len(),
            rest == chars@.skip(from as int),
            position_of(rest, c) == (i - from) + position_of(rest.skip(i - from), c),
        decreases chars@.len() - i,
    {
        let ghost tail = rest.skip(i - from);
        assert(tail[0] == chars@[i as int]);
        assert(tail.drop_first() == rest.skip(i - from + 1));
        i = i + 1;
    }
    proof {
        let tail = rest.skip(i - from);
        if i < chars@.len() {
            assert(tail[0] == chars@[i as int]);
        }
    }
    i - from
}

/// The text `chars[from..to]` without the white space around it.
fn trim_range(chars: &Vec<char>, from: usize, to: usize) -> (r: String)
    requires
        from <= to <= chars@.len(),
    ensures
        r@ == trimmed(chars@.subrange(from as int, to as int)),
{
    let ghost whole = chars@.subrange(from as int, to as int);
    let mut a: usize = from;
    while a < to && is_whitespace(chars[a])
        invariant
            from <= a <= to <= chars@.len(),
            trim_start(whole) == trim_start(chars@.subrange(a as int, to as int)),
        decreases to - a,
    {
        let ghost cur = chars@.subrange(a as int, to as int);
        assert(cur[0] == chars@[a as int]);
        assert(cur.drop_first() =~= chars@.subrange(a + 1, to as int));
        a = a + 1;
    }
    proof {
        let cur = chars@.subrange(a as int, to as int);
        if a < to {
            assert(cur[0] == chars@[a as int]);
        }
        assert(trim_start(whole) == cur);
    }
    let mut b: usize = to;
    while b > a && is_whitespace(chars[b - 1])
        invariant
            a <= b <= to <= chars@.len(),
            trimmed(whole) == trim_end(chars@.subrange(a as int, b as int)),
        decreases b - a,
    {
        let ghost cur = chars@.subrange(a as int, b as int);
        assert(cur.last() == chars@[b - 1]);
        assert(cur.drop_last() =~= chars@.subrange(a as int, b - 1));
        b = b - 1;
    }
    proof {
        let cur = chars@.subrange(a as int, b as int);
        if b > a {
            assert(cur.last() == chars@[b - 1]);
        }
    }
    string_of_range(chars.as_slice(), a, b)
}

impl ShVars {
    /// The variables that the text of a variables file sets, one
    /// `name=value` on a line.
    pub fn from_text(text: &str) -> (r: ShVars)
        ensures
            r.wf(),
            r@ == loaded(lines_of(text@), 0, Map::empty()),
    {
        let all = lines(text);
        let ghost views = string_views(all@);
        let mut r = ShVars::new();
        let mut i: usize = 0;
        while i < all.len()
            invariant
                i <= all@.len(),
                views == string_views(all@),
                views == lines_of(text@),
                r.wf(),
                loaded(views, 0, Map::empty()) == loaded(views, i as int, r@),
            decreases all@.len() - i,
        {
            assert(views[i as int] == all@[i as int]@);
            let chars = chars_of(all[i].as_str());
            let p = find_char(&chars, 0, '=');
            assert(chars@.skip(0) == chars@);
            if p < chars.len() {
                let q = find_char(&chars, p + 1, '=');
                let key = trim_range(&chars, 0, p);
                let value = trim_range(&chars, p + 1, p + 1 + q);
                proof {
                    let rest = chars@.skip(p + 1);
                    assert(chars@.take(p as int) =~= chars@.subrange(0, p as int));
                    assert(rest.take(q as int) =~= chars@.subrange(p + 1, p + 1 + q));
                }
                r.insert(key, value);
            }
            i = i + 1;
        }
        r
    }

    /// The text of a listing of the variables, in the order in which they
    /// are stored, each as `name=value` on a line followed by `gap`.
    fn listing(&self, gap: &str) -> (r: String)
        requires
            self.wf(),
        ensures
            r@ == listing_of(self.order(), self@, gap@),
    {
        let mut r = String::new();
        let ghost names = self.order();
        assert(names.take(0) =~= Seq::<Seq<char>>::empty());
        for i in 0..self.items.len()
            invariant
                self.wf(),
                names == self.order(),
                r@ == listing_of(names.take(i as int), self@, gap@),
        {
            proof {
                lemma_entry(self.items@, i as int);
                let t = names.take(i + 1);
                assert(t.drop_last() =~= names.take(i as int));
                assert(t.last() == self.items@[i as int].0@);
                reveal_strlit("=");
                reveal_strlit("\n");
                assert("="@ =~= seq!['=']);
                assert("\n"@ =~= seq!['\n']);
            }
            let ghost before = r@;
            r.append(self.items[i].0.as_str());
            r.append("=");
            r.append(self.items[i].1.as_str());
            r.append("\n");
            r.append(gap);
            assert(r@ =~= before + listed(self.items@[i as int].0@, self.items@[i as int].1@)
                + gap@);
        }
        assert(names.take(names.len() as int) =~= names);
        r
    }

    /// The text of the variables file: each variable as `name=value` on a
    /// line, followed by an empty line.
    pub fn to_text(&self) -> (r: String)
        requires
            self.wf(),
        ensures
            r@ == listing_of(self.order(), self@, seq!['\n']),
            lists_names(self.order(), self@),
    {
        proof {
            reveal_strlit("\n");
            assert("\n"@ =~= seq!['\n']);
            self.lemma_order();
        }
        self.listing("\n")
    }

    /// The variables as they are printed: each as `name=value` on a line.
    pub fn print(&self) -> (r: String)
        requires
            self.wf(),
        ensures
            r@ == listing_of(self.order(), self@, Seq::empty()),
            lists_names(self.order(), self@),
    {
        proof {
            reveal_strlit("");
            assert(""@ =~= Seq::<char>::empty());
            self.lemma_order();
        }
        self.listing("")
    }

    /// The stored order lists the names of the variables, each once.
    pub proof fn lemma_order(self)
        requires
            self.wf(),
        ensures
            lists_names(self.order(), self@),
    {
    }
}

} // verus!
