//! Quoted text literals and bracketed lists of them.
use vstd::prelude::*;

use crate::text::chars_of;

verus! {

/// A space or a tab.
pub open spec fn is_space(c: char) -> bool {
    c == ' ' || c == '\t'
}

/// The first position at or after `i` that holds no space or tab.
pub open spec fn skip_ws(s: Seq<char>, i: int) -> int
    decreases s.len() - i,
{
    if 0 <= i < s.len() && is_space(s[i]) {
        skip_ws(s, i + 1)
    } else {
        i
    }
}

/// The rest of a text literal from `i`, up to and including its closing
/// quote: the characters it stands for, with `\\` and `\"` unescaped, and
/// the position after the quote.
pub open spec fn text_body(s: Seq<char>, i: int) -> Option<(Seq<char>, int)>
    decreases s.len() - i,
{
    if i < 0 || i >= s.len() {
        None
    } else if s[i] == '"' {
        Some((Seq::empty(), i + 1))
    } else if s[i] == '\\' {
        if i + 1 < s.len() && (s[i + 1] == '\\' || s[i + 1] == '"') {
            match text_body(s, i + 2) {
                Some((t, e)) => Some((seq![s[i + 1]] + t, e)),
                None => None,
            }
        } else {
            None
        }
    } else {
        match text_body(s, i + 1) {
            Some((t, e)) => Some((seq![s[i]] + t, e)),
            None => None,
        }
    }
}

/// A text literal starting at `i`: what it stands for and the position after it.
pub open spec fn spec_text(s: Seq<char>, i: int) -> Option<(Seq<char>, int)> {
    if 0 <= i < s.len() && s[i] == '"' {
        text_body(s, i + 1)
    } else {
        None
    }
}

/// The rest of an array after an element at `i`: further elements, each
/// after a comma, then the closing bracket.
pub open spec fn array_rest(s: Seq<char>, i: int) -> Option<(Seq<Seq<char>>, int)>
    decreases s.len() - i,
{
    let j = skip_ws(s, i);
    if 0 <= j < s.len() && s[j] == ']' {
        Some((Seq::empty(), j + 1))
    } else if 0 <= j < s.len() && s[j] == ',' {
        match spec_text(s, skip_ws(s, j + 1)) {
            Some((t, e)) => if i < e <= s.len() {
                match array_rest(s, e) {
                    Some((ts, f)) => Some((seq![t] + ts, f)),
                    None => None,
                }
            } else {
                None
            },
            None => None,
        }
    } else {
        None
    }
}

/// An array starting at `i`: its elements and the position after it.
pub open spec fn spec_array(s: Seq<char>, i: int) -> Option<(Seq<Seq<char>>, int)> {
    if 0 <= i < s.len() && s[i] == '[' {
        let j = skip_ws(s, i + 1);
        if 0 <= j < s.len() && s[j] == ']' {
            Some((Seq::empty(), j + 1))
        } else {
            match spec_text(s, j) {
                Some((t, e)) => match array_rest(s, e) {
                    Some((ts, f)) => Some((seq![t] + ts, f)),
                    None => None,
                },
                None => None,
            }
        }
    } else {
        None
    }
}

/// A text literal, unescaped.
#[derive(Debug)]
pub struct Text(pub String);

/// A list of text literals.
#[derive(Debug)]
pub struct Array(pub Vec<String>);

/// Skips spaces and tabs from `i`.
pub fn skip_spaces(c: &Vec<char>, i: usize) -> (r: usize)
    requires
        i <= c.len(),
    ensures
        r == skip_ws(c@, i as int),
        i <= r <= c.len(),
{
    let mut j = i;
    while j < c.len() && (c[j] == ' ' || c[j] == '\t')
        invariant
            i <= j <= c.len(),
            skip_ws(c@, i as int) == skip_ws(c@, j as int),
        decreases c.len() - j,
    {
        j = j + 1;
    }
    j
}

/// Reads a text literal at `pos` of `s`, whose characters are `c`. On
/// failure, the position where it went wrong.
pub fn text_at(s: &str, c: &Vec<char>, pos: usize) -> (r: Result<(Text, usize), usize>)
    requires
        c@ == s@,
        pos <= c.len(),
    ensures
        match r {
            Ok((t, e)) => spec_text(c@, pos as int) == Some((t.0@, e as int)) && pos < e <= c.len(),
            Err(p) => spec_text(c@, pos as int) is None && p <= c.len(),
        },
{
    if pos >= c.len() || c[pos] != '"' {
        return Err(pos);
    }
    let mut out = String::new();
    let mut i: usize = pos + 1;
    while i < c.len() && c[i] != '"'
        invariant
            c@ == s@,
            pos < i <= c.len(),
            match text_body(c@, i as int) {
                Some((t, e)) => text_body(c@, pos + 1) == Some((out@ + t, e)),
                None => text_body(c@, pos + 1) is None,
            },
        decreases c.len() - i,
    {
        if c[i] == '\\' {
            if i + 1 < c.len() && (c[i + 1] == '\\' || c[i + 1] == '"') {
                out.append(s.substring_char(i + 1, i + 2));
                proof {
                    assert(s@.subrange(i + 1, i + 2) =~= seq![c@[i + 1]]);
                    let ghost o = out@;
                    match text_body(c@, i + 2) {
                        Some((t, e)) => {
                            assert(o + t =~= (o.drop_last() + (seq![c@[i + 1]] + t)));
                        },
                        None => {},
                    }
                }
                i = i + 2;
            } else {
                return Err(i);
            }
        } else {
            out.append(s.substring_char(i, i + 1));
            proof {
                assert(s@.subrange(i as int, i + 1) =~= seq![c@[i as int]]);
                let ghost o = out@;
                match text_body(c@, i + 1) {
                    Some((t, e)) => {
                        assert(o + t =~= (o.drop_last() + (seq![c@[i as int]] + t)));
                    },
                    None => {},
                }
            }
            i = i + 1;
        }
    }
    if i >= c.len() {
        return Err(i);
    }
    proof {
        assert(out@ + Seq::<char>::empty() =~= out@);
    }
    Ok((Text(out), i + 1))
}

/// Reads a text literal at the start of `input`: the rest of the input and
/// the text, or the position where it went wrong.
pub fn text<'a>(input: &'a str) -> (r: Result<(&'a str, Text), usize>)
    ensures
        match r {
            Ok((rest, x)) => spec_text(input@, 0) == Some((x.0@, input@.len() - rest@.len()))
                && rest@ == input@.subrange(input@.len() - rest@.len(), input@.len() as int),
            Err(p) => spec_text(input@, 0) is None && p <= input@.len(),
        },
{
    let c = chars_of(input);
    let (x, e) = text_at(input, &c, 0)?;
    Ok((input.substring_char(e, c.len()), x))
}

/// Reads an array at `pos` of `s`, whose characters are `c`. On failure,
/// the position where it went wrong.
pub fn array_at(s: &str, c: &Vec<char>, pos: usize) -> (r: Result<(Array, usize), usize>)
    requires
        c@ == s@,
        pos <= c.len(),
    ensures
        match r {
            Ok((a, e)) => spec_array(c@, pos as int) == Some((crate::ast::views(a.0@), e as int)) && pos < e <= c.len(),
            Err(p) => spec_array(c@, pos as int) is None && p <= c.len(),
        },
{
    if pos >= c.len() || c[pos] != '[' {
        return Err(pos);
    }
    let j = skip_spaces(c, pos + 1);
    if j < c.len() && c[j] == ']' {
        let items: Vec<String> = Vec::new();
        proof {
            assert(crate::ast::views(items@) =~= Seq::<Seq<char>>::empty());
        }
        return Ok((Array(items), j + 1));
    }
    let (first, mut i) = text_at(s, c, j)?;
    let mut items: Vec<String> = Vec::new();
    items.push(first.0);
    proof {
        assert(crate::ast::views(items@) =~= seq![first.0@]);
    }
    loop
        invariant
            c@ == s@,
            pos < i <= c.len(),
            match array_rest(c@, i as int) {
                Some((ts, f)) => spec_array(c@, pos as int) == Some((crate::ast::views(items@) + ts, f)),
                None => spec_array(c@, pos as int) is None,
            },
        decreases c.len() - i,
    {
        let k = skip_spaces(c, i);
        if k < c.len() && c[k] == ']' {
            proof {
                assert(crate::ast::views(items@) + Seq::<Seq<char>>::empty() =~= crate::ast::views(items@));
            }
            return Ok((Array(items), k + 1));
        }
        if k >= c.len() || c[k] != ',' {
            return Err(k);
        }
        let m = skip_spaces(c, k + 1);
        let (t, e) = text_at(s, c, m)?;
        let ghost before = items@;
        items.push(t.0);
        proof {
            assert(crate::ast::views(items@) =~= crate::ast::views(before).push(t.0@));
            match array_rest(c@, e as int) {
                Some((ts, f)) => {
                    assert(crate::ast::views(before) + (seq![t.0@] + ts) =~= crate::ast::views(items@) + ts);
                },
                None => {},
            }
        }
        i = e;
    }
}

/// Reads an array at the start of `input`: the rest of the input and the
/// elements, or the position where it went wrong.
pub fn array<'a>(input: &'a str) -> (r: Result<(&'a str, Array), usize>)
    ensures
        match r {
            Ok((rest, x)) => spec_array(input@, 0) == Some((crate::ast::views(x.0@), input@.len() - rest@.len()))
                && rest@ == input@.subrange(input@.len() - rest@.len(), input@.len() as int),
            Err(p) => spec_array(input@, 0) is None && p <= input@.len(),
        },
{
    let c = chars_of(input);
    let (x, e) = array_at(input, &c, 0)?;
    Ok((input.substring_char(e, c.len()), x))
}

} // verus!
