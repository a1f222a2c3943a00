//! Splitting the option list of an address into `key[=value]` pairs.
use vstd::prelude::*;

use crate::text::chars_of;

verus! {

/// A raw option: its key and, unless the key stands bare, its still encoded value.
pub type RawOption = (Seq<char>, Option<Seq<char>>);

/// The position of the first `c` in `s`, or `s.len()` where there is none.
pub open spec fn index_of(s: Seq<char>, c: char) -> int
    decreases s.len(),
{
    if s.len() == 0 {
        0
    } else if s[0] == c {
        0
    } else {
        1 + index_of(s.drop_first(), c)
    }
}

/// One `key[=value]` segment split at its first `=`.
pub open spec fn split_pair(p: Seq<char>) -> RawOption {
    let j = index_of(p, '=');
    if j == p.len() {
        (p, None)
    } else {
        (p.subrange(0, j), Some(p.subrange(j + 1, p.len() as int)))
    }
}

/// The options of an option list, split at each `,`.
///
/// An empty list holds no option, and a `,` at the very end opens none.
pub open spec fn key_vals(s: Seq<char>) -> Seq<RawOption>
    decreases s.len(),
{
    if s.len() == 0 {
        Seq::empty()
    } else {
        let i = index_of(s, ',');
        if i < 0 || i >= s.len() {
            seq![split_pair(s)]
        } else {
            seq![split_pair(s.subrange(0, i))] + key_vals(s.subrange(i + 1, s.len() as int))
        }
    }
}

pub proof fn lemma_index_of_bounds(s: Seq<char>, c: char)
    ensures
        0 <= index_of(s, c) <= s.len(),
        index_of(s, c) < s.len() ==> s[index_of(s, c)] == c,
        forall|k: int| 0 <= k < index_of(s, c) ==> s[k] != c,
    decreases s.len(),
{
    if s.len() > 0 && s[0] != c {
        lemma_index_of_bounds(s.drop_first(), c);
        assert forall|k: int| 0 <= k < index_of(s, c) implies s[k] != c by {
            if k > 0 {
                assert(s[k] == s.drop_first()[k - 1]);
            }
        }
    }
}

/// A raw option as the tokenizer hands it out.
pub struct KeyVal {
    pub key: Vec<char>,
    pub value: Option<Vec<char>>,
}

impl View for KeyVal {
    type V = RawOption;

    open spec fn view(&self) -> RawOption {
        (
            self.key@,
            match self.value {
                Some(v) => Some(v@),
                None => None,
            },
        )
    }
}

pub open spec fn key_val_views(v: Seq<KeyVal>) -> Seq<RawOption> {
    v.map_values(|kv: KeyVal| kv@)
}

/// The position of the first `c` in `s` at or after `from`, or `s.len()`.
pub fn find_char(s: &Vec<char>, from: usize, c: char) -> (r: usize)
    requires
        from <= s.len(),
    ensures
        r == from + index_of(s@.subrange(from as int, s.len() as int), c),
{
    let n = s.len();
    let mut i = from;
    while i < n && s[i] != c
        invariant
            from <= i <= n,
            n == s.len(),
            index_of(s@.subrange(from as int, n as int), c) == (i - from) + index_of(
                s@.subrange(i as int, n as int),
                c,
            ),
        decreases n - i,
    {
        assert(s@.subrange(i as int, n as int).drop_first() =~= s@.subrange(i + 1, n as int));
        i = i + 1;
    }
    i
}

/// The characters of `s` from `from` up to `to`.
pub fn slice_chars(s: &Vec<char>, from: usize, to: usize) -> (r: Vec<char>)
    requires
        from <= to <= s.len(),
    ensures
        r@ == s@.subrange(from as int, to as int),
{
    let mut out: Vec<char> = Vec::new();
    let mut i = from;
    while i < to
        invariant
            from <= i <= to <= s.len(),
            out@ == s@.subrange(from as int, i as int),
        decreases to - i,
    {
        out.push(s[i]);
        assert(out@ =~= s@.subrange(from as int, i + 1));
        i = i + 1;
    }
    out
}

/// Whether two character sequences are equal.
pub fn chars_eq(a: &Vec<char>, b: &Vec<char>) -> (r: bool)
    ensures
        r == (a@ == b@),
{
    if a.len() != b.len() {
        return false;
    }
    let n = a.len();
    for i in 0..n
        invariant
            n == a.len() == b.len(),
            forall|k: int| 0 <= k < i ==> a@[k] == b@[k],
    {
        if a[i] != b[i] {
            return false;
        }
    }
    assert(a@ =~= b@);
    true
}

/// Whether the characters of `a` are those of the text `t`.
pub fn chars_are(a: &Vec<char>, t: &str) -> (r: bool)
    ensures
        r == (a@ == t@),
{
    chars_eq(a, &chars_of(t))
}

fn split_pair_exec(s: &Vec<char>, from: usize, to: usize) -> (r: KeyVal)
    requires
        from <= to <= s.len(),
    ensures
        r@ == split_pair(s@.subrange(from as int, to as int)),
{
    let ghost p = s@.subrange(from as int, to as int);
    let sub = slice_chars(s, from, to);
    let j = find_char(&sub, 0, '=');
    assert(sub@.subrange(0, sub@.len() as int) =~= p);
    proof {
        lemma_index_of_bounds(p, '=');
    }
    if j == sub.len() {
        KeyVal { key: sub, value: None }
    } else {
        let key = slice_chars(&sub, 0, j);
        let value = slice_chars(&sub, j + 1, sub.len());
        KeyVal { key, value: Some(value) }
    }
}

/// The options of the option list `s[from..]`.
pub fn key_vals_exec(s: &Vec<char>, from: usize) -> (r: Vec<KeyVal>)
    requires
        from <= s.len(),
    ensures
        key_val_views(r@) == key_vals(s@.subrange(from as int, s.len() as int)),
{
    let n = s.len();
    let mut out: Vec<KeyVal> = Vec::new();
    let mut pos = from;
    assert(key_val_views(out@) + key_vals(s@.subrange(from as int, n as int)) =~= key_vals(
        s@.subrange(from as int, n as int),
    ));
    while pos < n
        invariant
            from <= pos <= n,
            n == s.len(),
            key_vals(s@.subrange(from as int, n as int)) == key_val_views(out@) + key_vals(
                s@.subrange(pos as int, n as int),
            ),
        decreases n - pos,
    {
        let ghost rest = s@.subrange(pos as int, n as int);
        let i = find_char(s, pos, ',');
        proof {
            lemma_index_of_bounds(rest, ',');
        }
        let kv = split_pair_exec(s, pos, i);
        assert(rest.subrange(0, i - pos) =~= s@.subrange(pos as int, i as int));
        let ghost before = out@;
        out.push(kv);
        assert(key_val_views(out@) =~= key_val_views(before) + seq![kv@]);
        if i == n {
            assert(rest =~= s@.subrange(pos as int, i as int));
            assert(key_vals(s@.subrange(n as int, n as int)) =~= Seq::<RawOption>::empty());
            assert(key_val_views(before) + key_vals(rest) =~= key_val_views(out@) + key_vals(
                s@.subrange(n as int, n as int),
            ));
            pos = n;
        } else {
            assert(rest.subrange(i - pos + 1, rest.len() as int) =~= s@.subrange(
                i + 1,
                n as int,
            ));
            assert(key_val_views(before) + key_vals(rest) =~= key_val_views(out@) + key_vals(
                s@.subrange(i + 1, n as int),
            ));
            pos = i + 1;
        }
    }
    assert(key_vals(s@.subrange(n as int, n as int)) =~= Seq::<RawOption>::empty());
    assert(key_val_views(out@) + Seq::<RawOption>::empty() =~= key_val_views(out@));
    out
}

} // verus!
