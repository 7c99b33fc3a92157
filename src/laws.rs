use crate::line::{classify, index_from, unquote, LineModel, Quote};
use crate::lines::{key_vals, pairs, plain_map, Entry};
use crate::text::{back_ws, lemma_back_ws_bounds, lemma_skip_ws_bounds, skip_ws, trimmed, whitespace};
use crate::var_map::lemma_map_of_last_wins;
use vstd::prelude::*;

verus! {

/// A blank line, or one whose first non-whitespace character is `#`, is
/// never an assignment, and contributes no entry.
pub proof fn law_ignorable_lines(s: Seq<char>)
    requires
        trimmed(s).len() == 0 || trimmed(s)[0] == '#',
    ensures
        !(classify(s) is KeyVal),
        key_vals(seq![classify(s)]) == Seq::<Entry>::empty(),
{
    let ls = seq![classify(s)];
    assert(ls.drop_last() =~= Seq::<LineModel>::empty());
    assert(ls.last() == classify(s));
    assert(key_vals(ls.drop_last()) == Seq::<Entry>::empty());
}

proof fn lemma_index_from_prefix(k: Seq<char>, s: Seq<char>, i: int)
    requires
        0 <= i <= k.len() < s.len(),
        s.subrange(0, k.len() as int) == k,
        s[k.len() as int] == '=',
        forall|j: int| 0 <= j < k.len() ==> k[j] != '=',
    ensures
        index_from(s, '=', i) == k.len(),
    decreases k.len() - i,
{
    if i < k.len() {
        assert(s[i] == k[i]);
        lemma_index_from_prefix(k, s, i + 1);
    }
}

proof fn lemma_skip_ws_prefix(k: Seq<char>, s: Seq<char>, i: int)
    requires
        0 <= i <= k.len() <= s.len(),
        s.subrange(0, k.len() as int) == k,
        skip_ws(k, i) < k.len(),
    ensures
        skip_ws(s, i) == skip_ws(k, i),
    decreases k.len() - i,
{
    if i < k.len() {
        assert(s[i] == k[i]);
        if whitespace(k[i]) {
            lemma_skip_ws_prefix(k, s, i + 1);
        }
    }
}

proof fn lemma_back_ws_past(s: Seq<char>, lo: int, j: int, p: int)
    requires
        0 <= lo <= p < j <= s.len(),
        !whitespace(s[p]),
    ensures
        back_ws(s, lo, j) > p,
    decreases j - lo,
{
    if whitespace(s[j - 1]) {
        lemma_back_ws_past(s, lo, j - 1, p);
    }
}

/// The first non-whitespace character of `k + r` is that of `k`, where
/// `k` has one.
proof fn lemma_trimmed_front(k: Seq<char>, s: Seq<char>)
    requires
        k.len() <= s.len(),
        s.subrange(0, k.len() as int) == k,
        trimmed(k).len() > 0,
    ensures
        trimmed(s).len() > 0,
        trimmed(s)[0] == trimmed(k)[0],
{
    lemma_skip_ws_bounds(k, 0);
    let lo = skip_ws(k, 0);
    lemma_back_ws_bounds(k, lo, k.len() as int);
    lemma_skip_ws_prefix(k, s, 0);
    assert(s[lo] == k[lo]);
    lemma_back_ws_past(s, lo, s.len() as int, lo);
    lemma_back_ws_bounds(s, lo, s.len() as int);
}

/// The entries of two runs of lines are those of each run, in order.
pub proof fn lemma_key_vals_concat(a: Seq<LineModel>, b: Seq<LineModel>)
    ensures
        key_vals(a + b) == key_vals(a) + key_vals(b),
    decreases b.len(),
{
    if b.len() == 0 {
        assert(a + b == a);
        assert(key_vals(a) + key_vals(b) == key_vals(a));
    } else {
        assert((a + b).drop_last() == a + b.drop_last());
        assert((a + b).last() == b.last());
        lemma_key_vals_concat(a, b.drop_last());
        match b.last() {
            LineModel::KeyVal(k, v, q) => {
                assert(key_vals(a) + key_vals(b.drop_last()).push((k, v, q)) == (key_vals(a) + key_vals(b.drop_last())).push((k, v, q)));
            },
            _ => {},
        }
    }
}

/// A line `K=V` whose key holds no `=` and is neither empty nor a comment
/// once trimmed, and whose value once trimmed is not enclosed in quotes,
/// is the unquoted assignment of `V` trimmed to `K` trimmed; and wherever
/// it stands among other lines, the plain mapping maps the key to that
/// value unless a later line assigns the same key.
pub proof fn law_unquoted_assignment(
    k: Seq<char>,
    v: Seq<char>,
    earlier: Seq<LineModel>,
    later: Seq<LineModel>,
)
    requires
        forall|j: int| 0 <= j < k.len() ==> k[j] != '=',
        trimmed(k).len() > 0,
        trimmed(k)[0] != '#',
        !(trimmed(v).len() >= 2 && trimmed(v)[0] == '"' && trimmed(v).last() == '"'),
        !(trimmed(v).len() >= 2 && trimmed(v)[0] == '\'' && trimmed(v).last() == '\''),
        forall|j: int| 0 <= j < key_vals(later).len() ==> (#[trigger] key_vals(later)[j]).0 != trimmed(k),
    ensures
        classify(k + seq!['='] + v) == LineModel::KeyVal(trimmed(k), trimmed(v), Quote::Bare),
        plain_map(key_vals(earlier.push(classify(k + seq!['='] + v)) + later)).contains_key(trimmed(k)),
        plain_map(key_vals(earlier.push(classify(k + seq!['='] + v)) + later))[trimmed(k)] == trimmed(v),
{
    let s = k + seq!['='] + v;
    assert(s.subrange(0, k.len() as int) == k);
    lemma_trimmed_front(k, s);
    lemma_index_from_prefix(k, s, 0);
    assert(s.subrange(k.len() as int + 1, s.len() as int) == v);
    let t = trimmed(v);
    assert(unquote(t) == (t, Quote::Bare));
    let entry: Entry = (trimmed(k), t, Quote::Bare);
    let ls = earlier.push(classify(s));
    assert(ls.drop_last() == earlier);
    assert(key_vals(ls) == key_vals(earlier).push(entry));
    lemma_key_vals_concat(ls, later);
    let es = key_vals(ls + later);
    let i = key_vals(earlier).len() as int;
    assert(es[i] == entry);
    assert forall|j: int| i < j < es.len() implies (#[trigger] es[j]).0 != es[i].0 by {
        assert(es[j] == key_vals(later)[j - i - 1]);
    }
    law_last_assignment_wins(es, i);
}

/// Among several assignments to a key, the last one gives its value in
/// the plain mapping.
pub proof fn law_last_assignment_wins(es: Seq<Entry>, i: int)
    requires
        0 <= i < es.len(),
        forall|j: int| i < j < es.len() ==> (#[trigger] es[j]).0 != es[i].0,
    ensures
        plain_map(es).contains_key(es[i].0),
        plain_map(es)[es[i].0] == es[i].1,
{
    let ps = pairs(es);
    assert forall|j: int| i < j < ps.len() implies (#[trigger] ps[j]).0 != ps[i].0 by {
        assert(ps[j].0 == es[j].0);
    }
    lemma_map_of_last_wins(ps, i);
}

/// The plain mapping depends on the entries alone: projecting the same
/// entries again gives the same mapping.
pub proof fn law_plain_map_repeatable(a: Seq<Entry>, b: Seq<Entry>)
    requires
        a == b,
    ensures
        plain_map(a) == plain_map(b),
{
}

} // verus!
