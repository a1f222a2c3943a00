//! Building the option list of an address, the reverse of the tokenizer.
use vstd::prelude::*;

use crate::keyval::{index_of, key_vals, split_pair, RawOption};
use crate::percent::{encode_percents, encode_spec};
use crate::text::{chars_of, push_char};

verus! {

/// One option written out: a bare key, or `key=value`.
pub open spec fn pair_text(p: RawOption) -> Seq<char> {
    match p.1 {
        None => p.0,
        Some(v) => p.0 + seq!['='] + v,
    }
}

/// Options written out and joined with `,`.
pub open spec fn join(ps: Seq<RawOption>) -> Seq<char>
    decreases ps.len(),
{
    if ps.len() == 0 {
        Seq::empty()
    } else if ps.len() == 1 {
        pair_text(ps[0])
    } else {
        pair_text(ps[0]) + seq![','] + join(ps.drop_first())
    }
}

proof fn lemma_join_push(ps: Seq<RawOption>, p: RawOption)
    requires
        ps.len() > 0,
    ensures
        join(ps.push(p)) == join(ps) + seq![','] + pair_text(p),
    decreases ps.len(),
{
    if ps.len() == 1 {
        assert(ps.push(p).drop_first() =~= seq![p]);
        assert(join(seq![p]) == pair_text(p));
        assert(ps.push(p)[0] == ps[0]);
        assert(join(ps.push(p)) =~= join(ps) + seq![','] + pair_text(p));
    } else {
        assert(ps.push(p)[0] == ps[0]);
        assert(ps.push(p).drop_first() =~= ps.drop_first().push(p));
        lemma_join_push(ps.drop_first(), p);
        assert(join(ps.push(p)) =~= join(ps) + seq![','] + pair_text(p));
    }
}

/// Whether `c` does not occur in `s`.
pub open spec fn no_char(s: Seq<char>, c: char) -> bool {
    forall|i: int| 0 <= i < s.len() ==> s[i] != c
}

/// An option that the tokenizer reads back as it was written: its key holds no `,`
/// or `=`, its value no `,`, and it is not a bare empty key.
pub open spec fn writable(p: RawOption) -> bool {
    &&& no_char(p.0, ',')
    &&& no_char(p.0, '=')
    &&& (p.1 is Some ==> no_char(p.1->0, ','))
    &&& (p.0.len() > 0 || p.1 is Some)
}

pub proof fn lemma_index_of_absent(s: Seq<char>, c: char)
    requires
        no_char(s, c),
    ensures
        index_of(s, c) == s.len(),
    decreases s.len(),
{
    if s.len() > 0 {
        lemma_index_of_absent(s.drop_first(), c);
    }
}

pub proof fn lemma_index_of_at(a: Seq<char>, b: Seq<char>, c: char)
    requires
        no_char(a, c),
        b.len() > 0,
        b[0] == c,
    ensures
        index_of(a + b, c) == a.len(),
    decreases a.len(),
{
    if a.len() > 0 {
        assert((a + b).drop_first() =~= a.drop_first() + b);
        lemma_index_of_at(a.drop_first(), b, c);
    } else {
        assert(a + b =~= b);
    }
}

proof fn lemma_split_pair_text(p: RawOption)
    requires
        no_char(p.0, '='),
    ensures
        split_pair(pair_text(p)) == p,
{
    match p.1 {
        None => {
            lemma_index_of_absent(p.0, '=');
        },
        Some(v) => {
            let t = pair_text(p);
            assert(t =~= p.0 + (seq!['='] + v));
            lemma_index_of_at(p.0, seq!['='] + v, '=');
            assert(t.subrange(0, p.0.len() as int) =~= p.0);
            assert(t.subrange(p.0.len() as int + 1, t.len() as int) =~= v);
        },
    }
}

proof fn lemma_pair_text_no_comma(p: RawOption)
    requires
        writable(p),
    ensures
        no_char(pair_text(p), ','),
        pair_text(p).len() > 0,
{
    match p.1 {
        None => {},
        Some(v) => {
            let t = pair_text(p);
            assert forall|i: int| 0 <= i < t.len() implies t[i] != ',' by {
                if i < p.0.len() {
                    assert(t[i] == p.0[i]);
                } else if i > p.0.len() {
                    assert(t[i] == v[i - p.0.len() - 1]);
                }
            }
        },
    }
}

/// The tokenizer reads joined options back as they were, when each is writable.
pub proof fn lemma_key_vals_join(ps: Seq<RawOption>)
    requires
        forall|i: int| 0 <= i < ps.len() ==> writable(#[trigger] ps[i]),
    ensures
        key_vals(join(ps)) == ps,
    decreases ps.len(),
{
    if ps.len() == 0 {
        assert(key_vals(join(ps)) =~= ps);
    } else if ps.len() == 1 {
        let t = pair_text(ps[0]);
        lemma_pair_text_no_comma(ps[0]);
        lemma_index_of_absent(t, ',');
        lemma_split_pair_text(ps[0]);
        assert(key_vals(t) =~= ps);
    } else {
        let t0 = pair_text(ps[0]);
        let rest = ps.drop_first();
        let j = join(rest);
        let s = join(ps);
        lemma_pair_text_no_comma(ps[0]);
        assert(s =~= t0 + (seq![','] + j));
        lemma_index_of_at(t0, seq![','] + j, ',');
        assert(s.subrange(0, t0.len() as int) =~= t0);
        assert(s.subrange(t0.len() as int + 1, s.len() as int) =~= j);
        lemma_split_pair_text(ps[0]);
        assert forall|i: int| 0 <= i < rest.len() implies writable(#[trigger] rest[i]) by {
            assert(rest[i] == ps[i + 1]);
        }
        lemma_key_vals_join(rest);
        assert(key_vals(s) =~= seq![ps[0]] + rest);
        assert(seq![ps[0]] + rest =~= ps);
    }
}

/// An option list being written: the text so far and the options it holds.
pub struct KeyValFmt {
    out: String,
    first: bool,
    fields: Ghost<Seq<RawOption>>,
}

impl KeyValFmt {
    /// The options written so far.
    pub closed spec fn fields(&self) -> Seq<RawOption> {
        self.fields@
    }

    pub closed spec fn wf(&self) -> bool {
        &&& self.out@ == join(self.fields@)
        &&& self.first == (self.fields@.len() == 0)
    }

    /// An empty option list.
    pub fn new() -> (r: Self)
        ensures
            r.wf(),
            r.fields() == Seq::<RawOption>::empty(),
    {
        KeyValFmt { out: String::new(), first: true, fields: Ghost(Seq::empty()) }
    }

    fn push_key(&mut self, key: &Vec<char>)
        requires
            old(self).wf(),
        ensures
            final(self).out@ == (if old(self).first {
                key@
            } else {
                old(self).out@ + seq![','] + key@
            }),
            final(self).fields == old(self).fields,
            final(self).first == old(self).first,
    {
        let ghost start = if self.first {
            Seq::<char>::empty()
        } else {
            self.out@ + seq![',']
        };
        if !self.first {
            push_char(&mut self.out, ',');
        } else {
            assert(self.out@ =~= Seq::<char>::empty());
        }
        let n = key.len();
        for i in 0..n
            invariant
                n == key.len(),
                self.fields == old(self).fields,
                self.first == old(self).first,
                self.out@ == start + key@.subrange(0, i as int),
        {
            push_char(&mut self.out, key[i]);
            assert(self.out@ =~= start + key@.subrange(0, i + 1));
        }
        assert(key@.subrange(0, n as int) =~= key@);
        assert(start + key@ =~= (if old(self).first {
            key@
        } else {
            old(self).out@ + seq![','] + key@
        }));
    }

    /// Writes an option whose value is given as bytes, encoded; with no value, the
    /// key stands bare.
    pub fn push_option(&mut self, key: &Vec<char>, value: Option<&[u8]>)
        requires
            old(self).wf(),
        ensures
            final(self).wf(),
            final(self).fields() == old(self).fields().push(
                (
                    key@,
                    match value {
                        Some(v) => Some(encode_spec(v@)),
                        None => None,
                    },
                ),
            ),
    {
        let ghost p: RawOption = (
            key@,
            match value {
                Some(v) => Some(encode_spec(v@)),
                None => None,
            },
        );
        let ghost was_first = self.first;
        let ghost before = self.out@;
        self.push_key(key);
        if let Some(v) = value {
            push_char(&mut self.out, '=');
            encode_percents(&mut self.out, v);
        }
        proof {
            if was_first {
                assert(old(self).fields().push(p) =~= seq![p]);
                assert(self.out@ =~= pair_text(p));
            } else {
                lemma_join_push(old(self).fields(), p);
                assert(self.out@ =~= before + seq![','] + pair_text(p));
            }
        }
        self.fields = Ghost(self.fields@.push(p));
        self.first = false;
    }

    /// Adds `key=value` when there is a value; with no value, nothing is added.
    pub fn add(&mut self, key: &str, value: Option<&[u8]>)
        requires
            old(self).wf(),
        ensures
            final(self).wf(),
            final(self).fields() == (match value {
                Some(v) => old(self).fields().push((key@, Some(encode_spec(v@)))),
                None => old(self).fields(),
            }),
    {
        if let Some(v) = value {
            self.push_option(&chars_of(key), Some(v));
        }
    }

    /// The text of the option list.
    pub fn into_string(self) -> (r: String)
        requires
            self.wf(),
        ensures
            r@ == join(self.fields()),
    {
        self.out
    }
}

} // verus!
