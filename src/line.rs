use crate::text::{chars_of, string_of, trim_bounds, trimmed};
use vstd::prelude::*;

verus! {

/// How the value of an assignment was quoted. Only `Double`-quoted values
/// take part in substitution.
#[derive(Clone, Copy, Debug, PartialEq, Eq, Structural)]
pub enum Quote {
    Bare,
    Single,
    Double,
}

/// One `key=value` assignment: the key trimmed, the value trimmed and
/// stripped of its enclosing quotes.
#[derive(Clone, Debug)]
pub struct KeyVal {
    pub k: String,
    pub v: String,
    pub q: Quote,
}

impl View for KeyVal {
    type V = (Seq<char>, Seq<char>, Quote);

    open spec fn view(&self) -> (Seq<char>, Seq<char>, Quote) {
        (self.k@, self.v@, self.q)
    }
}

/// One classified line of a definitions file.
///
/// Classification never fails: a line without `=`, or with an empty key,
/// is `Malformed` and carries no data, like a comment or a blank line.
#[derive(Clone, Debug)]
pub enum Line {
    Comment,
    Blank,
    Malformed,
    KeyVal(KeyVal),
}

/// The mathematical counterpart of [`Line`].
pub enum LineModel {
    Comment,
    Blank,
    Malformed,
    KeyVal(Seq<char>, Seq<char>, Quote),
}

impl View for Line {
    type V = LineModel;

    open spec fn view(&self) -> LineModel {
        match self {
            Line::Comment => LineModel::Comment,
            Line::Blank => LineModel::Blank,
            Line::Malformed => LineModel::Malformed,
            Line::KeyVal(kv) => LineModel::KeyVal(kv.k@, kv.v@, kv.q),
        }
    }
}

/// The first index at or after `i` where `s` holds `c`, or -1.
pub open spec fn index_from(s: Seq<char>, c: char, i: int) -> int
    decreases s.len() - i,
{
    if i < 0 || i >= s.len() {
        -1
    } else if s[i] == c {
        i
    } else {
        index_from(s, c, i + 1)
    }
}

/// A value with its enclosing quotes stripped, and how it was quoted.
pub open spec fn unquote(v: Seq<char>) -> (Seq<char>, Quote) {
    if v.len() >= 2 && v[0] == '"' && v.last() == '"' {
        (v.subrange(1, v.len() - 1), Quote::Double)
    } else if v.len() >= 2 && v[0] == '\'' && v.last() == '\'' {
        (v.subrange(1, v.len() - 1), Quote::Single)
    } else {
        (v, Quote::Bare)
    }
}

/// The classification of one line of text (without its line ending).
pub open spec fn classify(s: Seq<char>) -> LineModel {
    let t = trimmed(s);
    if t.len() == 0 {
        LineModel::Blank
    } else if t[0] == '#' {
        LineModel::Comment
    } else {
        let e = index_from(s, '=', 0);
        if e < 0 {
            LineModel::Malformed
        } else {
            let key = trimmed(s.subrange(0, e));
            if key.len() == 0 {
                LineModel::Malformed
            } else {
                let (value, quote) = unquote(trimmed(s.subrange(e + 1, s.len() as int)));
                LineModel::KeyVal(key, value, quote)
            }
        }
    }
}

impl Line {
    /// Classifies one line of text (see `classify`).
    pub fn parse(s: &str) -> (r: Line)
        ensures
            r@ == classify(s@),
    {
        let cs = chars_of(s);
        let n = cs.len();
        assert(cs@.subrange(0, n as int) == cs@);
        let (lo, hi) = trim_bounds(&cs, 0, n);
        if lo == hi {
            return Line::Blank;
        }
        if cs[lo] == '#' {
            return Line::Comment;
        }
        let mut e: usize = 0;
        while e < n && cs[e] != '='
            invariant
                e <= n == cs@.len(),
                cs@ == s@,
                index_from(s@, '=', 0) == index_from(s@, '=', e as int),
            decreases n - e,
        {
            e = e + 1;
        }
        if e == n {
            return Line::Malformed;
        }
        let (klo, khi) = trim_bounds(&cs, 0, e);
        if klo == khi {
            return Line::Malformed;
        }
        let (vlo, vhi) = trim_bounds(&cs, e + 1, n);
        let ghost raw = cs@.subrange(vlo as int, vhi as int);
        let (vlo, vhi, q) = if vhi - vlo >= 2 && cs[vlo] == '"' && cs[vhi - 1] == '"' {
            (vlo + 1, vhi - 1, Quote::Double)
        } else if vhi - vlo >= 2 && cs[vlo] == '\'' && cs[vhi - 1] == '\'' {
            (vlo + 1, vhi - 1, Quote::Single)
        } else {
            (vlo, vhi, Quote::Bare)
        };
        assert(cs@.subrange(vlo as int, vhi as int) == unquote(raw).0);
        let k = string_of(&cs, klo, khi);
        let v = string_of(&cs, vlo, vhi);
        Line::KeyVal(KeyVal { k, v, q })
    }
}

/// Classifies one line of text, as [`Line::parse`] does.
impl<'a> From<&'a str> for Line {
    fn from(s: &'a str) -> (r: Line)
        ensures
            r@ == classify(s@),
    {
        Line::parse(s)
    }
}

impl<'a> vstd::std_specs::convert::FromSpecImpl<&'a str> for Line {
    open spec fn obeys_from_spec() -> bool {
        false
    }

    open spec fn from_spec(s: &'a str) -> Line {
        arbitrary()
    }
}

} // verus!
