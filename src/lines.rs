use crate::line::{KeyVal, Line, LineModel, Quote};
use crate::text::{alphanumeric, chars_of, is_alphanumeric, push_char, split_lines, text_lines};
use crate::var_map::{map_of, VarMap};
use vstd::prelude::*;

verus! {

/// An assignment as the engine sees it: key, value and quoting.
pub type Entry = (Seq<char>, Seq<char>, Quote);

/// The assignments among classified lines, in order; the other lines are dropped.
pub open spec fn key_vals(ls: Seq<LineModel>) -> Seq<Entry>
    decreases ls.len(),
{
    if ls.len() == 0 {
        seq![]
    } else {
        let rest = key_vals(ls.drop_last());
        match ls.last() {
            LineModel::KeyVal(k, v, q) => rest.push((k, v, q)),
            _ => rest,
        }
    }
}

/// The assignments of a whole text, each line classified in turn.
pub open spec fn text_key_vals(s: Seq<char>) -> Seq<Entry> {
    key_vals(text_lines(s).map_values(|l: Seq<char>| crate::line::classify(l)))
}

/// The key and value of each entry.
pub open spec fn pairs(es: Seq<Entry>) -> Seq<(Seq<char>, Seq<char>)> {
    es.map_values(|e: Entry| (e.0, e.1))
}

/// The plain mapping: each key to its value as written, the last
/// assignment of a key winning.
pub open spec fn plain_map(es: Seq<Entry>) -> Map<Seq<char>, Seq<char>> {
    map_of(pairs(es))
}

/// The value of a reference: its definition in `vars`, else in `env`, else
/// the empty string.
pub open spec fn resolve(
    vars: Map<Seq<char>, Seq<char>>,
    env: Map<Seq<char>, Seq<char>>,
    name: Seq<char>,
) -> Seq<char> {
    if vars.contains_key(name) {
        vars[name]
    } else if env.contains_key(name) {
        env[name]
    } else {
        seq![]
    }
}

/// A character that continues a bare `$NAME` reference.
pub open spec fn ident_char(c: char) -> bool {
    alphanumeric(c) || c == '_'
}

/// Where the substitution scanner stands.
#[derive(Clone, Copy, Debug, PartialEq, Eq, Structural)]
pub enum Scan {
    /// Copying characters to the output.
    Copying,
    /// Just past a `$`.
    Dollar,
    /// Inside `${...}`, reading the name.
    Brace,
    /// Reading the name of a bare `$NAME`.
    Bare,
}

/// The output of the scanner from position `i` of `v` on, in state `st`
/// with the name read so far.
pub open spec fn scan(
    v: Seq<char>,
    i: int,
    st: Scan,
    name: Seq<char>,
    vars: Map<Seq<char>, Seq<char>>,
    env: Map<Seq<char>, Seq<char>>,
) -> Seq<char>
    decreases v.len() - i,
{
    if i < 0 || i >= v.len() {
        match st {
            Scan::Copying => seq![],
            _ => resolve(vars, env, name),
        }
    } else {
        let c = v[i];
        match st {
            Scan::Copying => if c == '$' {
                scan(v, i + 1, Scan::Dollar, seq![], vars, env)
            } else {
                seq![c] + scan(v, i + 1, Scan::Copying, seq![], vars, env)
            },
            Scan::Dollar => if c == '{' {
                scan(v, i + 1, Scan::Brace, seq![], vars, env)
            } else {
                scan(v, i + 1, Scan::Bare, seq![c], vars, env)
            },
            Scan::Brace => if c == '}' {
                resolve(vars, env, name) + scan(v, i + 1, Scan::Copying, seq![], vars, env)
            } else {
                scan(v, i + 1, Scan::Brace, name.push(c), vars, env)
            },
            Scan::Bare => if ident_char(c) {
                scan(v, i + 1, Scan::Bare, name.push(c), vars, env)
            } else {
                resolve(vars, env, name) + seq![c] + scan(v, i + 1, Scan::Copying, seq![], vars, env)
            },
        }
    }
}

/// `v` with each `${NAME}` and `$NAME` replaced by the value of `NAME`.
pub open spec fn expanded(
    v: Seq<char>,
    vars: Map<Seq<char>, Seq<char>>,
    env: Map<Seq<char>, Seq<char>>,
) -> Seq<char> {
    scan(v, 0, Scan::Copying, seq![], vars, env)
}

/// The accumulator after the first `n` entries were processed in expand mode.
pub open spec fn expand_upto(es: Seq<Entry>, n: int, env: Map<Seq<char>, Seq<char>>) -> Map<
    Seq<char>,
    Seq<char>,
>
    decreases n,
{
    if n <= 0 || n > es.len() {
        plain_map(es)
    } else {
        let m = expand_upto(es, n - 1, env);
        let e = es[n - 1];
        if e.2 == Quote::Double {
            m.insert(e.0, expanded(e.1, m, env))
        } else {
            m
        }
    }
}

/// The expand-mode mapping: the plain mapping, then each double-quoted
/// entry in order rewritten against the accumulator and `env`.
pub open spec fn expand_map(es: Seq<Entry>, env: Map<Seq<char>, Seq<char>>) -> Map<
    Seq<char>,
    Seq<char>,
> {
    expand_upto(es, es.len() as int, env)
}

/// The value of the reference `name` (see `resolve`).
pub fn lookup(name: &String, vars: &VarMap, env: &VarMap) -> (r: String)
    ensures
        r@ == resolve(vars@, env@, name@),
{
    match vars.get(name.as_str()) {
        Some(x) => x.clone(),
        None => match env.get(name.as_str()) {
            Some(x) => x.clone(),
            None => String::new(),
        },
    }
}

/// Rewrites `value`, replacing each `${NAME}` and `$NAME` by its value
/// in `vars`, else in `env`, else by nothing. A `${` without `}` takes the
/// rest of the value as the name; the character that ends a bare name is
/// copied after its value.
pub fn expand_value(value: &str, vars: &VarMap, env: &VarMap) -> (r: String)
    ensures
        r@ == expanded(value@, vars@, env@),
{
    let cs = chars_of(value);
    let ghost v = value@;
    let n = cs.len();
    let mut out = String::new();
    let mut name = String::new();
    let mut st = Scan::Copying;
    let mut i: usize = 0;
    while i < n
        invariant
            n == cs@.len(),
            cs@ == v,
            i <= n,
            st == Scan::Copying ==> name@ == Seq::<char>::empty(),
            st == Scan::Dollar ==> name@ == Seq::<char>::empty(),
            expanded(v, vars@, env@) == out@ + scan(v, i as int, st, name@, vars@, env@),
        decreases n - i,
    {
        let c = cs[i];
        let ghost before = out@;
        let ghost rest = scan(v, i + 1, Scan::Copying, seq![], vars@, env@);
        match st {
            Scan::Copying => {
                if c == '$' {
                    st = Scan::Dollar;
                } else {
                    push_char(&mut out, c);
                    assert(before + (seq![c] + rest) == out@ + rest);
                }
            },
            Scan::Dollar => {
                if c == '{' {
                    st = Scan::Brace;
                } else {
                    push_char(&mut name, c);
                    assert(name@ == seq![c]);
                    st = Scan::Bare;
                }
            },
            Scan::Brace => {
                if c == '}' {
                    let found = lookup(&name, vars, env);
                    out.append(found.as_str());
                    assert(before + (found@ + rest) == out@ + rest);
                    name = String::new();
                    st = Scan::Copying;
                } else {
                    push_char(&mut name, c);
                }
            },
            Scan::Bare => {
                if is_alphanumeric(c) || c == '_' {
                    push_char(&mut name, c);
                } else {
                    let found = lookup(&name, vars, env);
                    out.append(found.as_str());
                    push_char(&mut out, c);
                    assert(before + (found@ + seq![c] + rest) == out@ + rest);
                    name = String::new();
                    st = Scan::Copying;
                }
            },
        }
        i = i + 1;
    }
    if st != Scan::Copying {
        let found = lookup(&name, vars, env);
        out.append(found.as_str());
    } else {
        assert(out@ + seq![] == out@);
    }
    out
}

/// The assignments of a definitions file, in order.
#[derive(Debug)]
pub struct Lines {
    lines: Vec<KeyVal>,
}

impl View for Lines {
    type V = Seq<Entry>;

    closed spec fn view(&self) -> Seq<Entry> {
        self.lines@.map_values(|kv: KeyVal| kv@)
    }
}

impl Lines {
    /// Keeps the assignments among `lines`, in order.
    pub fn new(lines: Vec<Line>) -> (r: Lines)
        ensures
            r@ == key_vals(lines@.map_values(|l: Line| l@)),
    {
        let ghost ls = lines@.map_values(|l: Line| l@);
        let mut lines = lines;
        let mut out: Vec<KeyVal> = Vec::new();
        let mut i: usize = 0;
        let n = lines.len();
        while i < n
            invariant
                n == lines@.len() == ls.len(),
                i <= n,
                forall|j: int| i <= j < n ==> (#[trigger] lines@[j])@ == ls[j],
                out@.map_values(|kv: KeyVal| kv@) == key_vals(ls.take(i as int)),
            decreases n - i,
        {
            let mut l = Line::Blank;
            lines.set_and_swap(i, &mut l);
            assert(ls.take(i + 1).drop_last() == ls.take(i as int));
            assert(ls.take(i + 1).last() == l@);
            match l {
                Line::KeyVal(kv) => {
                    let ghost prev = out@.map_values(|kv: KeyVal| kv@);
                    out.push(kv);
                    assert(out@.map_values(|kv: KeyVal| kv@) == prev.push(kv@));
                },
                _ => {},
            }
            i = i + 1;
        }
        assert(ls.take(n as int) == ls);
        Lines { lines: out }
    }

    /// Classifies each line of a text and keeps the assignments, in order.
    pub fn parse(text: &str) -> (r: Lines)
        ensures
            r@ == text_key_vals(text@),
    {
        let strs = split_lines(text);
        let ghost ts = text_lines(text@);
        let mut ls: Vec<Line> = Vec::new();
        let mut i: usize = 0;
        while i < strs.len()
            invariant
                strs@.len() == ts.len(),
                forall|k: int| 0 <= k < strs@.len() ==> #[trigger] strs@[k]@ == ts[k],
                i <= strs@.len(),
                ls@.len() == i,
                forall|k: int| 0 <= k < i ==> (#[trigger] ls@[k])@ == crate::line::classify(ts[k]),
            decreases strs@.len() - i,
        {
            let l = Line::parse(strs[i].as_str());
            ls.push(l);
            i = i + 1;
        }
        assert(ls@.map_values(|l: Line| l@) =~= ts.map_values(|l: Seq<char>| crate::line::classify(l)));
        Lines::new(ls)
    }

    /// The plain mapping of the assignments, without substitution.
    pub fn to_hash_map(&self) -> (r: VarMap)
        ensures
            r@ == plain_map(self@),
    {
        let mut r = VarMap::new();
        let mut i: usize = 0;
        while i < self.lines.len()
            invariant
                i <= self.lines@.len(),
                r@ == plain_map(self@.take(i as int)),
            decreases self.lines@.len() - i,
        {
            let kv = &self.lines[i];
            r.insert(kv.k.clone(), kv.v.clone());
            let ghost t = self@.take(i + 1);
            assert(pairs(t).drop_last() == pairs(self@.take(i as int)));
            assert(pairs(t).last() == (kv.k@, kv.v@));
            i = i + 1;
        }
        assert(self@.take(self.lines@.len() as int) == self@);
        r
    }

    /// The expand-mode mapping: the plain mapping, with each double-quoted
    /// value, in order, rewritten by `expand_value` against the mapping as
    /// it stands and `env`.
    pub fn expand(&self, env: &VarMap) -> (r: VarMap)
        ensures
            r@ == expand_map(self@, env@),
    {
        let mut vars = self.to_hash_map();
        let mut i: usize = 0;
        while i < self.lines.len()
            invariant
                i <= self.lines@.len(),
                vars@ == expand_upto(self@, i as int, env@),
            decreases self.lines@.len() - i,
        {
            let kv = &self.lines[i];
            if kv.q == Quote::Double {
                let nv = expand_value(kv.v.as_str(), &vars, env);
                vars.insert(kv.k.clone(), nv);
            }
            i = i + 1;
        }
        vars
    }
}

/// Classifies each line of a text and keeps the assignments, as [`Lines::parse`] does.
impl<'a> From<&'a str> for Lines {
    fn from(text: &'a str) -> (r: Lines)
        ensures
            r@ == text_key_vals(text@),
    {
        Lines::parse(text)
    }
}

impl<'a> vstd::std_specs::convert::FromSpecImpl<&'a str> for Lines {
    open spec fn obeys_from_spec() -> bool {
        false
    }

    open spec fn from_spec(text: &'a str) -> Lines {
        arbitrary()
    }
}

} // verus!
