//! General facts about which addresses parsing rejects, and why.
use vstd::prelude::*;

use crate::address::{option_list, parse_spec, split_address};
use crate::fmt::{join, lemma_index_of_at, lemma_key_vals_join, pair_text, writable};
use crate::keyval::{index_of, key_vals, lemma_index_of_bounds, RawOption};
use crate::options::{decode_option, decode_options, first_duplicate, is_guid_bytes, keys_of, DecodedOption};
use crate::percent::{encode_spec, lemma_decode_encode};
use crate::round_trip::{
    lemma_encode_no_comma, lemma_first_duplicate_none, lemma_literal_heads, lemma_literals_plain,
    lemma_plain,
};
use crate::transport::transport_spec;
use crate::transport::unixexec::argv_spec;
use crate::ErrorModel;

verus! {

/// An address in which two options share a key fails with a repeated key.
pub proof fn lemma_duplicate_keys_fail(a: Seq<char>, i: int, j: int)
    requires
        split_address(a) is Some,
        0 <= i < j < key_vals(option_list(a)).len(),
        key_vals(option_list(a))[i].0 == key_vals(option_list(a))[j].0,
    ensures
        parse_spec(a) is Err,
        parse_spec(a)->Err_0 is DuplicateKey,
{
    let keys = keys_of(key_vals(option_list(a)));
    if first_duplicate(keys) is None {
        lemma_first_duplicate_none(keys);
        assert(keys[i] == keys[j]);
    }
}

/// `foo:guid=` followed by an encoded value parses exactly when the value is a GUID,
/// and fails with an invalid `guid` otherwise.
pub proof fn lemma_guid_validity(b: Seq<u8>)
    ensures
        is_guid_bytes(b) ==> parse_spec("foo:guid="@ + encode_spec(b)) is Ok && parse_spec(
            "foo:guid="@ + encode_spec(b),
        )->Ok_0.guid == Some(b),
        !is_guid_bytes(b) ==> parse_spec("foo:guid="@ + encode_spec(b)) == Err::<
            crate::address::AddressModel,
            ErrorModel,
        >(ErrorModel::InvalidValue("guid"@)),
{
    reveal_strlit("foo:guid=");
    reveal_strlit("foo");
    reveal_strlit("guid");
    lemma_literal_heads();
    lemma_literals_plain();
    let e = encode_spec(b);
    let p: RawOption = ("guid"@, Some(e));
    let a = "foo:guid="@ + e;
    assert(pair_text(p) =~= "guid"@ + seq!['='] + e);
    assert(a =~= "foo"@ + (seq![':'] + join(seq![p])));
    lemma_plain("guid"@);
    lemma_encode_no_comma(b);
    assert(writable(p));
    lemma_key_vals_join(seq![p]);
    reveal_with_fuel(crate::round_trip::plain, 4);
    assert(crate::round_trip::plain("foo"@));
    lemma_plain("foo"@);
    lemma_index_of_at("foo"@, seq![':'] + join(seq![p]), ':');
    assert(a.subrange(0, 3) =~= "foo"@);
    assert(a.subrange(4, a.len() as int) =~= join(seq![p]));
    assert(split_address(a) == Some(("foo"@, join(seq![p]))));
    let kvs = seq![p];
    assert(keys_of(kvs).drop_last() =~= Seq::<Seq<char>>::empty());
    assert(first_duplicate(Seq::<Seq<char>>::empty()) is None);
    assert(!Seq::<Seq<char>>::empty().contains(keys_of(kvs).last()));
    assert(first_duplicate(keys_of(kvs)) is None);
    lemma_decode_encode(b);
    assert(kvs.drop_last() =~= Seq::<RawOption>::empty());
    assert(decode_options(Seq::<RawOption>::empty()) == Ok::<Seq<DecodedOption>, ErrorModel>(
        Seq::<DecodedOption>::empty(),
    ));
    if is_guid_bytes(b) {
        let o: DecodedOption = ("guid"@, Some(b));
        assert(decode_option(p) == Ok::<DecodedOption, ErrorModel>(o));
        assert(Seq::<DecodedOption>::empty().push(o) =~= seq![o]);
        assert(seq![o].drop_first() =~= Seq::<DecodedOption>::empty());
    }
}

proof fn lemma_decode_options_not_missing(kvs: Seq<RawOption>)
    ensures
        decode_options(kvs) is Err ==> !(decode_options(kvs)->Err_0 is MissingTransport),
    decreases kvs.len(),
{
    if kvs.len() > 0 {
        lemma_decode_options_not_missing(kvs.drop_last());
    }
}

proof fn lemma_argv_not_missing(o: Seq<DecodedOption>)
    ensures
        argv_spec(o) is Err ==> !(argv_spec(o)->Err_0 is MissingTransport),
    decreases o.len(),
{
    if o.len() > 0 {
        lemma_argv_not_missing(o.drop_last());
    }
}

/// An address fails for want of a transport exactly when it holds no `:`.
pub proof fn lemma_missing_transport(a: Seq<char>)
    ensures
        (parse_spec(a) == Err::<crate::address::AddressModel, ErrorModel>(
            ErrorModel::MissingTransport,
        )) <==> !a.contains(':'),
{
    lemma_index_of_bounds(a, ':');
    let c = index_of(a, ':');
    if a.contains(':') {
        let k = choose|k: int| 0 <= k < a.len() && a[k] == ':';
        assert(c < a.len());
        let list = a.subrange(c + 1, a.len() as int);
        let kvs = key_vals(list);
        lemma_decode_options_not_missing(kvs);
        if decode_options(kvs) is Ok {
            let opts = decode_options(kvs)->Ok_0;
            lemma_argv_not_missing(opts);
            assert(transport_spec(a.subrange(0, c), opts) is Err ==> !(transport_spec(
                a.subrange(0, c),
                opts,
            )->Err_0 is MissingTransport));
        }
    } else {
        if c < a.len() {
            assert(a.contains(':'));
        }
    }
}

} // verus!
