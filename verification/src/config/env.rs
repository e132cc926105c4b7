//! Environment variable references in configuration text: `${NAME}` is
//! replaced by the variable's value. Reading the environment is left to
//! the caller, which hands over the values of the names referenced.

use vstd::prelude::*;
use crate::data::table::Table;
use crate::data::text::{append, push_char};

verus! {

/// The characters before the first `}`; the whole text when there is none.
pub open spec fn before_close(s: Seq<char>) -> Seq<char>
    decreases s.len(),
{
    if s.len() == 0 || s[0] == '}' {
        Seq::empty()
    } else {
        seq![s[0]] + before_close(s.drop_first())
    }
}

/// The text opens a reference `${NAME}` that a `}` closes.
pub open spec fn opens_reference(s: Seq<char>) -> bool {
    s.len() >= 2 && s[0] == '$' && s[1] == '{' && before_close(s.skip(2)).len() < s.len() - 2
}

/// The text with each reference `${NAME}` to a variable that `vars` holds
/// replaced by its value; other references, and an opening `${` that no
/// `}` closes, stay as they are.
pub open spec fn substituted(s: Seq<char>, vars: Map<Seq<char>, Seq<char>>) -> Seq<char>
    decreases s.len(),
{
    if s.len() == 0 {
        s
    } else if opens_reference(s) {
        let name = before_close(s.skip(2));
        let whole = name.len() + 3;
        (if vars.contains_key(name) {
            vars[name]
        } else {
            s.take(whole as int)
        }) + substituted(s.skip(whole as int), vars)
    } else {
        seq![s[0]] + substituted(s.drop_first(), vars)
    }
}

/// The names that the text's references `${NAME}` give, in order.
pub open spec fn referenced_names(s: Seq<char>) -> Seq<Seq<char>>
    decreases s.len(),
{
    if s.len() == 0 {
        Seq::empty()
    } else if opens_reference(s) {
        let name = before_close(s.skip(2));
        seq![name] + referenced_names(s.skip(name.len() + 3int))
    } else {
        referenced_names(s.drop_first())
    }
}

/// The characters of a text.
fn chars(s: &str) -> (r: Vec<char>)
    ensures
        r@ == s@,
{
    let ghost text = s@;
    let mut out: Vec<char> = Vec::new();
    for c in it: s.chars()
        invariant
            it.seq() == text,
            out@ == text.take(it.index() as int),
    {
        let ghost k = it.index() as int;
        assert(text.take(k + 1) =~= text.take(k).push(c));
        out.push(c);
    }
    assert(text.take(text.len() as int) =~= text);
    out
}

/// The position of the first `}` at or after `start`, if any; the
/// characters before it are those `before_close` gives.
fn find_close(c: &Vec<char>, start: usize) -> (r: Option<usize>)
    requires
        start <= c@.len(),
    ensures
        match r {
            Some(j) => start <= j < c@.len() && before_close(c@.skip(start as int)) == c@.subrange(
                start as int,
                j as int,
            ),
            None => before_close(c@.skip(start as int)) == c@.skip(start as int),
        },
{
    let mut j: usize = start;
    while j < c.len()
        invariant
            start <= j <= c@.len(),
            before_close(c@.skip(start as int)) == c@.subrange(start as int, j as int) + before_close(
                c@.skip(j as int),
            ),
        decreases c@.len() - j,
    {
        if c[j] == '}' {
            assert(c@.subrange(start as int, j as int) + Seq::<char>::empty() =~= c@.subrange(start as int, j as int));
            return Some(j);
        }
        assert(c@.skip(j as int).drop_first() =~= c@.skip(j + 1));
        assert(c@.subrange(start as int, j as int) + seq![c@[j as int]] =~= c@.subrange(start as int, j + 1));
        j = j + 1;
    }
    assert(c@.subrange(start as int, c@.len() as int) =~= c@.skip(start as int));
    assert(c@.subrange(start as int, j as int) + Seq::<char>::empty() =~= c@.subrange(start as int, j as int));
    None
}

/// The text of the characters from `a` up to `b`.
fn text_of(c: &Vec<char>, a: usize, b: usize) -> (r: String)
    requires
        a <= b <= c@.len(),
    ensures
        r@ == c@.subrange(a as int, b as int),
{
    let mut out = String::new();
    let mut i: usize = a;
    while i < b
        invariant
            a <= i <= b <= c@.len(),
            out@ == c@.subrange(a as int, i as int),
        decreases b - i,
    {
        push_char(&mut out, c[i]);
        assert(c@.subrange(a as int, i + 1) =~= c@.subrange(a as int, i as int).push(c@[i as int]));
        i = i + 1;
    }
    out
}

/// Facts about the text at position `i` when it opens a reference closed
/// at `j`, or opens none.
proof fn lemma_reference_at(c: Seq<char>, i: int, close: Option<int>)
    requires
        0 <= i < c.len(),
        match close {
            Some(j) => i + 2 <= j < c.len() && c[i] == '$' && c[i + 1] == '{' && before_close(c.skip(i + 2))
                == c.subrange(i + 2, j),
            None => !(i + 1 < c.len() && c[i] == '$' && c[i + 1] == '{' && before_close(c.skip(i + 2)).len() < c.len()
                - i - 2),
        },
    ensures
        match close {
            Some(j) => opens_reference(c.skip(i)) && before_close(c.skip(i).skip(2)) == c.subrange(i + 2, j)
                && c.skip(i).skip(j - i + 1) == c.skip(j + 1) && c.skip(i).take(j - i + 1) == c.subrange(i, j + 1),
            None => !opens_reference(c.skip(i)) && c.skip(i).drop_first() == c.skip(i + 1),
        },
{
    if i + 2 <= c.len() {
        assert(c.skip(i).skip(2) =~= c.skip(i + 2));
    }
    assert(c.skip(i).drop_first() =~= c.skip(i + 1));
    match close {
        Some(j) => {
            assert(c.skip(i).skip(j - i + 1) =~= c.skip(j + 1));
            assert(c.skip(i).take(j - i + 1) =~= c.subrange(i, j + 1));
        },
        None => {},
    }
}

/// Replaces each reference `${NAME}` to a variable that `vars` holds with
/// its value; other references, and an unclosed `${`, stay as they are.
pub fn substitute_env(text: &str, vars: &Table<String>) -> (r: String)
    ensures
        r@ == substituted(text@, vars@),
{
    let c = chars(text);
    let ghost m = vars@;
    let mut out = String::new();
    let mut i: usize = 0;
    assert(c@.skip(0) =~= c@);
    while i < c.len()
        invariant
            i <= c@.len(),
            c@ == text@,
            m == vars@,
            substituted(c@, m) == out@ + substituted(c@.skip(i as int), m),
        decreases c@.len() - i,
    {
        let ghost s = c@.skip(i as int);
        let close = if i + 1 < c.len() && c[i] == '$' && c[i + 1] == '{' {
            find_close(&c, i + 2)
        } else {
            None
        };
        match close {
            Some(j) => {
                proof {
                    lemma_reference_at(c@, i as int, Some(j as int));
                }
                let name = text_of(&c, i + 2, j);
                let ghost before = out@;
                match vars.get(name.as_str()) {
                    Some(v) => {
                        append(&mut out, v.as_str());
                    },
                    None => {
                        let whole = text_of(&c, i, j + 1);
                        append(&mut out, whole.as_str());
                    },
                }
                assert(substituted(s, m) == (if m.contains_key(name@) {
                    m[name@]
                } else {
                    s.take(name@.len() + 3int)
                }) + substituted(c@.skip(j + 1), m));
                assert(before + (out@.skip(before.len() as int)) =~= out@);
                i = j + 1;
            },
            None => {
                proof {
                    if i + 1 < c@.len() && c@[i as int] == '$' && c@[i + 1] == '{' {
                        assert(before_close(c@.skip(i + 2)) == c@.skip(i + 2));
                    }
                    lemma_reference_at(c@, i as int, None);
                }
                let ghost before = out@;
                push_char(&mut out, c[i]);
                assert(substituted(s, m) == seq![c@[i as int]] + substituted(c@.skip(i + 1), m));
                assert(out@ =~= before + seq![c@[i as int]]);
                i = i + 1;
            },
        }
    }
    assert(substituted(c@.skip(c@.len() as int), m) =~= Seq::<char>::empty());
    assert(out@ + Seq::<char>::empty() =~= out@);
    out
}

/// The names that a text's references `${NAME}` give, in order.
pub fn env_references(text: &str) -> (r: Vec<String>)
    ensures
        r@.map_values(|s: String| s@) == referenced_names(text@),
{
    let c = chars(text);
    let mut out: Vec<String> = Vec::new();
    let mut i: usize = 0;
    assert(c@.skip(0) =~= c@);
    while i < c.len()
        invariant
            i <= c@.len(),
            c@ == text@,
            referenced_names(c@) == out@.map_values(|s: String| s@) + referenced_names(c@.skip(i as int)),
        decreases c@.len() - i,
    {
        let ghost s = c@.skip(i as int);
        let close = if i + 1 < c.len() && c[i] == '$' && c[i + 1] == '{' {
            find_close(&c, i + 2)
        } else {
            None
        };
        match close {
            Some(j) => {
                proof {
                    lemma_reference_at(c@, i as int, Some(j as int));
                }
                let name = text_of(&c, i + 2, j);
                let ghost before = out@.map_values(|s: String| s@);
                out.push(name);
                assert(out@.map_values(|s: String| s@) =~= before.push(c@.subrange(i + 2, j as int)));
                assert(referenced_names(s) == seq![c@.subrange(i + 2, j as int)] + referenced_names(c@.skip(j + 1)));
                assert(before + (seq![c@.subrange(i + 2, j as int)] + referenced_names(c@.skip(j + 1))) =~= before.push(
                    c@.subrange(i + 2, j as int),
                ) + referenced_names(c@.skip(j + 1)));
                i = j + 1;
            },
            None => {
                proof {
                    if i + 1 < c@.len() && c@[i as int] == '$' && c@[i + 1] == '{' {
                        assert(before_close(c@.skip(i + 2)) == c@.skip(i + 2));
                    }
                    lemma_reference_at(c@, i as int, None);
                }
                i = i + 1;
            },
        }
    }
    assert(referenced_names(c@.skip(c@.len() as int)) =~= Seq::<Seq<char>>::empty());
    assert(out@.map_values(|s: String| s@) + Seq::<Seq<char>>::empty() =~= out@.map_values(|s: String| s@));
    out
}

} // verus!
