//! The validated, decoded options of an address.
use vstd::prelude::*;

use crate::keyval::{chars_are, chars_eq, key_val_views, KeyVal, RawOption};
use crate::percent::{decode_percents, decode_spec};
use crate::text::string_of;
use crate::{Error, ErrorModel};

verus! {

/// A decoded option: its key and, unless the key stands bare, the bytes of its value.
pub type DecodedOption = (Seq<char>, Option<Seq<u8>>);

pub open spec fn is_hex_byte(b: u8) -> bool {
    (48 <= b <= 57) || (97 <= b <= 102) || (65 <= b <= 70)
}

/// A connection GUID: 32 hexadecimal digits.
pub open spec fn is_guid_bytes(b: Seq<u8>) -> bool {
    b.len() == 32 && forall|i: int| 0 <= i < b.len() ==> is_hex_byte(#[trigger] b[i])
}

/// The first key, in order, that repeats a key before it.
pub open spec fn first_duplicate(keys: Seq<Seq<char>>) -> Option<Seq<char>>
    decreases keys.len(),
{
    if keys.len() == 0 {
        None
    } else {
        match first_duplicate(keys.drop_last()) {
            Some(k) => Some(k),
            None => if keys.drop_last().contains(keys.last()) {
                Some(keys.last())
            } else {
                None
            },
        }
    }
}

pub open spec fn keys_of(kvs: Seq<RawOption>) -> Seq<Seq<char>> {
    kvs.map_values(|kv: RawOption| kv.0)
}

/// Decodes one option's value; a `guid` value must be a GUID.
pub open spec fn decode_option(kv: RawOption) -> Result<DecodedOption, ErrorModel> {
    match kv.1 {
        None => Ok((kv.0, None)),
        Some(v) => match decode_spec(v) {
            Err(e) => Err(ErrorModel::Encoding(e)),
            Ok(b) => if kv.0 == "guid"@ && !is_guid_bytes(b) {
                Err(ErrorModel::InvalidValue("guid"@))
            } else {
                Ok((kv.0, Some(b)))
            },
        },
    }
}

/// Decodes every option in order, stopping at the first fault.
pub open spec fn decode_options(kvs: Seq<RawOption>) -> Result<Seq<DecodedOption>, ErrorModel>
    decreases kvs.len(),
{
    if kvs.len() == 0 {
        Ok(Seq::empty())
    } else {
        match decode_options(kvs.drop_last()) {
            Err(e) => Err(e),
            Ok(d) => match decode_option(kvs.last()) {
                Err(e) => Err(e),
                Ok(o) => Ok(d.push(o)),
            },
        }
    }
}

/// What the first option with key `k` holds, if any has it.
pub open spec fn lookup(opts: Seq<DecodedOption>, k: Seq<char>) -> Option<Option<Seq<u8>>>
    decreases opts.len(),
{
    if opts.len() == 0 {
        None
    } else if opts[0].0 == k {
        Some(opts[0].1)
    } else {
        lookup(opts.drop_first(), k)
    }
}

/// The value given to key `k`, where one is.
pub open spec fn value_of(opts: Seq<DecodedOption>, k: Seq<char>) -> Option<Seq<u8>> {
    match lookup(opts, k) {
        Some(Some(v)) => Some(v),
        _ => None,
    }
}

proof fn lemma_first_duplicate_sticks(keys: Seq<Seq<char>>, i: int)
    requires
        0 <= i <= keys.len(),
        first_duplicate(keys.subrange(0, i)) is Some,
    ensures
        first_duplicate(keys) == first_duplicate(keys.subrange(0, i)),
    decreases keys.len() - i,
{
    if i < keys.len() {
        assert(keys.subrange(0, i + 1).drop_last() =~= keys.subrange(0, i));
        lemma_first_duplicate_sticks(keys, i + 1);
    } else {
        assert(keys.subrange(0, i) =~= keys);
    }
}

proof fn lemma_decode_options_sticks(kvs: Seq<RawOption>, i: int)
    requires
        0 <= i <= kvs.len(),
        decode_options(kvs.subrange(0, i)) is Err,
    ensures
        decode_options(kvs) == decode_options(kvs.subrange(0, i)),
    decreases kvs.len() - i,
{
    if i < kvs.len() {
        assert(kvs.subrange(0, i + 1).drop_last() =~= kvs.subrange(0, i));
        lemma_decode_options_sticks(kvs, i + 1);
    } else {
        assert(kvs.subrange(0, i) =~= kvs);
    }
}

/// A decoded option as the library holds it.
#[derive(Debug, PartialEq, Eq)]
pub struct Opt {
    pub key: Vec<char>,
    pub value: Option<Vec<u8>>,
}

impl View for Opt {
    type V = DecodedOption;

    open spec fn view(&self) -> DecodedOption {
        (
            self.key@,
            match self.value {
                Some(v) => Some(v@),
                None => None,
            },
        )
    }
}

pub open spec fn opt_views(v: Seq<Opt>) -> Seq<DecodedOption> {
    v.map_values(|o: Opt| o@)
}

/// Fails with the first repeated key, if there is one.
pub fn check_duplicates(kvs: &Vec<KeyVal>) -> (r: Result<(), Error>)
    ensures
        match first_duplicate(keys_of(key_val_views(kvs@))) {
            Some(k) => r is Err && r->Err_0@ == ErrorModel::DuplicateKey(k),
            None => r is Ok,
        },
{
    let ghost keys = keys_of(key_val_views(kvs@));
    let n = kvs.len();
    assert(keys.subrange(0, 0) =~= Seq::<Seq<char>>::empty());
    for j in 0..n
        invariant
            n == kvs.len(),
            keys == keys_of(key_val_views(kvs@)),
            keys.len() == n,
            first_duplicate(keys.subrange(0, j as int)) is None,
    {
        assert(keys.subrange(0, j + 1).drop_last() =~= keys.subrange(0, j as int));
        assert(keys.subrange(0, j + 1).last() == kvs@[j as int].key@);
        for i in 0..j
            invariant
                n == kvs.len(),
                j < n,
                keys == keys_of(key_val_views(kvs@)),
                keys.len() == n,
                first_duplicate(keys.subrange(0, j as int)) is None,
                forall|k: int| 0 <= k < i ==> keys[k] != keys[j as int],
        {
            if chars_eq(&kvs[i].key, &kvs[j].key) {
                assert(keys.subrange(0, j as int)[i as int] == keys[j as int]);
                assert(keys.subrange(0, j as int).contains(keys[j as int]));
                assert(keys.subrange(0, j + 1).drop_last() =~= keys.subrange(0, j as int));
                assert(keys.subrange(0, j + 1).last() == keys[j as int]);
                assert(first_duplicate(keys.subrange(0, j + 1)) == Some(keys[j as int]));
                proof {
                    lemma_first_duplicate_sticks(keys, j + 1);
                }
                return Err(Error::DuplicateKey(string_of(&kvs[j].key)));
            }
        }
        assert(!keys.subrange(0, j as int).contains(keys[j as int]));
    }
    assert(keys.subrange(0, n as int) =~= keys);
    Ok(())
}

fn is_hex_exec(b: u8) -> (r: bool)
    ensures
        r == is_hex_byte(b),
{
    (48 <= b && b <= 57) || (97 <= b && b <= 102) || (65 <= b && b <= 70)
}

/// Whether the bytes form a GUID.
pub fn is_guid(b: &Vec<u8>) -> (r: bool)
    ensures
        r == is_guid_bytes(b@),
{
    if b.len() != 32 {
        return false;
    }
    for i in 0..32
        invariant
            b.len() == 32,
            forall|k: int| 0 <= k < i ==> is_hex_byte(#[trigger] b@[k]),
    {
        if !is_hex_exec(b[i]) {
            return false;
        }
    }
    true
}

fn decode_option_exec(kv: &KeyVal) -> (r: Result<Opt, Error>)
    ensures
        result_opt(r) == decode_option(kv@),
{
    let key = kv.key.clone();
    assert(key@ == kv.key@);
    match &kv.value {
        None => Ok(Opt { key, value: None }),
        Some(v) => match decode_percents(v) {
            Err(e) => Err(Error::Encoding(e)),
            Ok(b) => {
                if chars_are(&key, "guid") && !is_guid(&b) {
                    Err(Error::InvalidValue("guid".to_owned()))
                } else {
                    Ok(Opt { key, value: Some(b) })
                }
            },
        },
    }
}

pub open spec fn result_opt(r: Result<Opt, Error>) -> Result<DecodedOption, ErrorModel> {
    match r {
        Ok(o) => Ok(o@),
        Err(e) => Err(e@),
    }
}

pub open spec fn result_opts(r: Result<Vec<Opt>, Error>) -> Result<Seq<DecodedOption>, ErrorModel> {
    match r {
        Ok(o) => Ok(opt_views(o@)),
        Err(e) => Err(e@),
    }
}

/// Decodes the value of every option, in order.
pub fn decode_all(kvs: &Vec<KeyVal>) -> (r: Result<Vec<Opt>, Error>)
    ensures
        result_opts(r) == decode_options(key_val_views(kvs@)),
{
    let ghost all = key_val_views(kvs@);
    let n = kvs.len();
    let mut out: Vec<Opt> = Vec::new();
    assert(all.subrange(0, 0) =~= Seq::<RawOption>::empty());
    assert(opt_views(out@) =~= Seq::<DecodedOption>::empty());
    for i in 0..n
        invariant
            n == kvs.len(),
            all == key_val_views(kvs@),
            all.len() == n,
            decode_options(all.subrange(0, i as int)) == Ok::<Seq<DecodedOption>, ErrorModel>(
                opt_views(out@),
            ),
    {
        assert(all.subrange(0, i + 1).drop_last() =~= all.subrange(0, i as int));
        assert(all.subrange(0, i + 1).last() == kvs@[i as int]@);
        match decode_option_exec(&kvs[i]) {
            Err(e) => {
                proof {
                    lemma_decode_options_sticks(all, i + 1);
                }
                return Err(e);
            },
            Ok(o) => {
                let ghost before = out@;
                out.push(o);
                assert(opt_views(out@) =~= opt_views(before).push(o@));
            },
        }
    }
    assert(all.subrange(0, n as int) =~= all);
    Ok(out)
}

/// The position of the first option with key `k`, if any has it.
pub fn find_key(opts: &Vec<Opt>, k: &str) -> (r: Option<usize>)
    ensures
        match r {
            Some(i) => i < opts.len() && lookup(opt_views(opts@), k@) == Some(
                opt_views(opts@)[i as int].1,
            ),
            None => lookup(opt_views(opts@), k@) is None,
        },
{
    let ghost all = opt_views(opts@);
    let n = opts.len();
    let mut i: usize = 0;
    assert(all.subrange(0, n as int) =~= all);
    while i < n
        invariant
            n == opts.len(),
            all == opt_views(opts@),
            i <= n,
            lookup(all, k@) == lookup(all.subrange(i as int, n as int), k@),
        decreases n - i,
    {
        assert(all.subrange(i as int, n as int).drop_first() =~= all.subrange(i + 1, n as int));
        if chars_are(&opts[i].key, k) {
            return Some(i);
        }
        i = i + 1;
    }
    None
}

} // verus!
