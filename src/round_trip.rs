//! Writing out a parsed address and parsing it again gives the same address.
use vstd::prelude::*;
use vstd::utf8::*;

use crate::address::{
    address_options, format_spec, guid_options, lemma_decode_options_guids, lemma_value_of_guid,
    parse_spec, split_address, AddressModel,
};
use crate::fmt::{join, lemma_index_of_at, lemma_key_vals_join, no_char, writable};
use crate::keyval::{index_of, key_vals, lemma_index_of_bounds, split_pair, RawOption};
use crate::number::{dec_digits, lemma_dec_digits, parse_unsigned, unsigned_digits};
use crate::options::{
    decode_option, decode_options, first_duplicate, is_guid_bytes, keys_of, lookup, value_of,
    DecodedOption,
};
use crate::percent::{encode_byte, encode_spec, hex_digit, lemma_decode_encode};
use crate::transport::autolaunch::{
    autolaunch_options, autolaunch_spec, scope_of, scope_text, ScopeModel,
};
use crate::transport::launchd::{launchd_options, launchd_spec};
use crate::transport::nonce_tcp::{nonce_tcp_options, nonce_tcp_spec, NonceTcpModel};
use crate::transport::other::{kept, kept_options, other_options, written, OtherModel};
use crate::transport::tcp::{
    family_text, number_bytes, opt_family, opt_field, tcp_options, tcp_spec, text_bytes, TcpFamily,
    TcpModel,
};
use crate::transport::unix::{unix_options, unix_spec, UnixKindModel};
use crate::transport::unixexec::{
    argv_item, argv_options, argv_spec, has_index, is_argv, unixexec_options, unixexec_spec, ArgModel,
    UnixexecModel,
};
use crate::transport::vsock::{as_nat, vsock_options, vsock_spec, VsockModel};
use crate::transport::{
    bytes_chars, opt_text, text_of, transport_name, transport_options, transport_spec,
    TransportModel,
};

verus! {

/// Decoded options written out, each value encoded.
pub open spec fn written_all(o: Seq<DecodedOption>) -> Seq<RawOption> {
    o.map_values(|x: DecodedOption| written(x))
}

/// No two options share a key.
pub open spec fn distinct_keys(o: Seq<DecodedOption>) -> bool {
    forall|i: int, j: int| 0 <= i < j < o.len() ==> (#[trigger] o[i]).0 != (#[trigger] o[j]).0
}

/// Every `guid` option with a value holds a GUID.
pub open spec fn guids_ok(o: Seq<DecodedOption>) -> bool {
    forall|i: int|
        0 <= i < o.len() && (#[trigger] o[i]).0 == "guid"@ && o[i].1 is Some ==> is_guid_bytes(
            o[i].1->0,
        )
}

pub proof fn lemma_encode_no_comma(b: Seq<u8>)
    ensures
        no_char(encode_spec(b), ','),
    decreases b.len(),
{
    if b.len() > 0 {
        lemma_encode_no_comma(b.drop_first());
        let e = encode_byte(b[0]);
        let r = encode_spec(b.drop_first());
        assert(encode_spec(b) == e + r);
        assert(hex_digit(b[0] / 16) != ',');
        assert(hex_digit(b[0] % 16) != ',');
        assert forall|i: int| 0 <= i < e.len() + r.len() implies (e + r)[i] != ',' by {
            if i >= e.len() {
                assert((e + r)[i] == r[i - e.len()]);
            }
        }
    }
}

pub proof fn lemma_decode_written(o: Seq<DecodedOption>)
    requires
        guids_ok(o),
    ensures
        decode_options(written_all(o)) == Ok::<Seq<DecodedOption>, crate::ErrorModel>(o),
    decreases o.len(),
{
    if o.len() == 0 {
        assert(written_all(o) =~= Seq::<RawOption>::empty());
        assert(o =~= Seq::<DecodedOption>::empty());
    } else {
        let w = written_all(o);
        assert(w.drop_last() =~= written_all(o.drop_last()));
        assert forall|i: int|
            0 <= i < o.drop_last().len() && (#[trigger] o.drop_last()[i]).0 == "guid"@
                && o.drop_last()[i].1 is Some implies is_guid_bytes(o.drop_last()[i].1->0) by {
            assert(o.drop_last()[i] == o[i]);
        }
        lemma_decode_written(o.drop_last());
        let x = o.last();
        assert(w.last() == written(x));
        if let Some(b) = x.1 {
            lemma_decode_encode(b);
            assert(o[o.len() - 1] == x);
        }
        assert(decode_option(written(x)) == Ok::<DecodedOption, crate::ErrorModel>(x));
        assert(o.drop_last().push(x) =~= o);
    }
}

pub proof fn lemma_first_duplicate_distinct(keys: Seq<Seq<char>>)
    requires
        forall|i: int, j: int| 0 <= i < j < keys.len() ==> keys[i] != keys[j],
    ensures
        first_duplicate(keys) is None,
    decreases keys.len(),
{
    if keys.len() > 0 {
        let d = keys.drop_last();
        assert forall|i: int, j: int| 0 <= i < j < d.len() implies d[i] != d[j] by {
            assert(d[i] == keys[i] && d[j] == keys[j]);
        }
        lemma_first_duplicate_distinct(d);
        if d.contains(keys.last()) {
            let k = choose|k: int| 0 <= k < d.len() && d[k] == keys.last();
            assert(keys[k] == keys[keys.len() - 1]);
        }
    }
}

pub broadcast proof fn lemma_lookup_concat(a: Seq<DecodedOption>, b: Seq<DecodedOption>, k: Seq<char>)
    ensures
        #[trigger] lookup(a + b, k) == (if lookup(a, k) is Some {
            lookup(a, k)
        } else {
            lookup(b, k)
        }),
    decreases a.len(),
{
    if a.len() == 0 {
        assert(a + b =~= b);
    } else {
        assert((a + b).drop_first() =~= a.drop_first() + b);
        assert((a + b)[0] == a[0]);
        lemma_lookup_concat(a.drop_first(), b, k);
    }
}

/// Options, written out, that the tokenizer reads back and that hold no repeated key
/// decode back to themselves.
pub proof fn lemma_written_options(o: Seq<DecodedOption>)
    requires
        guids_ok(o),
        distinct_keys(o),
    ensures
        decode_options(written_all(o)) == Ok::<Seq<DecodedOption>, crate::ErrorModel>(o),
        first_duplicate(keys_of(written_all(o))) is None,
{
    lemma_decode_written(o);
    let keys = keys_of(written_all(o));
    assert forall|i: int, j: int| 0 <= i < j < keys.len() implies keys[i] != keys[j] by {
        assert(keys[i] == o[i].0 && keys[j] == o[j].0);
    }
    lemma_first_duplicate_distinct(keys);
}

/// A decoded option, written out, is writable when its key is.
pub proof fn lemma_written_writable(x: DecodedOption)
    requires
        no_char(x.0, ','),
        no_char(x.0, '='),
        x.0.len() > 0 || x.1 is Some,
    ensures
        writable(written(x)),
{
    if let Some(b) = x.1 {
        lemma_encode_no_comma(b);
    }
}

/// An optional option, present where it has a value.
pub open spec fn opt_dec(k: Seq<char>, v: Option<Seq<u8>>) -> Seq<DecodedOption> {
    match v {
        Some(b) => seq![(k, Some(b))],
        None => Seq::empty(),
    }
}

pub broadcast proof fn lemma_lookup_opt_dec(k: Seq<char>, v: Option<Seq<u8>>, key: Seq<char>)
    ensures
        #[trigger] lookup(opt_dec(k, v), key) == (if v is Some && k == key {
            Some(v)
        } else {
            None
        }),
{
    assert(lookup(Seq::<DecodedOption>::empty(), key) is None);
    if v is Some {
        assert(opt_dec(k, v).drop_first() =~= Seq::<DecodedOption>::empty());
    }
}

pub proof fn lemma_written_opt(k: Seq<char>, v: Option<Seq<u8>>)
    ensures
        written_all(opt_dec(k, v)) == opt_field(k, v),
{
    assert(written_all(opt_dec(k, v)) =~= opt_field(k, v));
}

pub proof fn lemma_written_concat(a: Seq<DecodedOption>, b: Seq<DecodedOption>)
    ensures
        written_all(a + b) == written_all(a) + written_all(b),
{
    assert(written_all(a + b) =~= written_all(a) + written_all(b));
}

/// ASCII text, encoded and read back a byte at a time, is the same text.
pub proof fn lemma_ascii_bytes(s: Seq<char>)
    requires
        is_ascii_chars(s),
    ensures
        bytes_chars(encode_utf8(s)) == s,
{
    is_ascii_chars_encode_utf8(s);
    assert forall|i: int| 0 <= i < s.len() implies bytes_chars(encode_utf8(s))[i] == s[i] by {
        assert(encode_utf8(s)[i] == s[i] as u8);
        assert((s[i] as u8) as char == s[i]);
    }
    assert(bytes_chars(encode_utf8(s)) =~= s);
}

/// Text encoded as UTF-8 reads back as the same text.
pub proof fn lemma_text_round_trip(s: Seq<char>)
    ensures
        text_of(encode_utf8(s)) == Ok::<Seq<char>, crate::ErrorModel>(s),
{
    encode_utf8_valid_utf8(s);
    encode_utf8_decode_utf8(s);
}

/// A number written in decimal reads back as the same number.
pub proof fn lemma_number_round_trip(n: nat, max: nat)
    requires
        n <= max,
    ensures
        number_bytes(Some(n)) is Some,
        parse_unsigned(bytes_chars(number_bytes(Some(n))->0), max) == Some(n),
{
    let d = dec_digits(n);
    lemma_dec_digits(n);
    let b = number_bytes(Some(n))->0;
    assert forall|i: int| 0 <= i < d.len() implies bytes_chars(b)[i] == d[i] by {
        assert(crate::number::is_digit(d[i]));
        assert((d[i] as u8) as char == d[i]);
    }
    assert(bytes_chars(b) =~= d);
    assert(unsigned_digits(d) == d);
}

/// The decoded options that write out a TCP transport.
pub open spec fn tcp_decoded(m: TcpModel) -> Seq<DecodedOption> {
    opt_dec("host"@, text_bytes(m.host)) + opt_dec("bind"@, text_bytes(m.bind)) + opt_dec(
        "port"@,
        number_bytes(
            match m.port {
                Some(p) => Some(p as nat),
                None => None,
            },
        ),
    ) + opt_dec(
        "family"@,
        match m.family {
            Some(f) => Some(encode_utf8(family_text(f))),
            None => None,
        },
    )
}

pub proof fn lemma_tcp_written(m: TcpModel)
    ensures
        written_all(tcp_decoded(m)) == tcp_options(m),
{
    assert(written_all(tcp_decoded(m)) =~= tcp_options(m));
}

pub proof fn lemma_tcp_round_trip(m: TcpModel, rest: Seq<DecodedOption>)
    requires
        lookup(rest, "host"@) is None,
        lookup(rest, "bind"@) is None,
        lookup(rest, "port"@) is None,
        lookup(rest, "family"@) is None,
    ensures
        tcp_spec(tcp_decoded(m) + rest) == Ok::<TcpModel, crate::ErrorModel>(m),
{
    broadcast use lemma_lookup_concat, lemma_lookup_opt_dec;

    reveal_strlit("host");
    reveal_strlit("bind");
    reveal_strlit("port");
    reveal_strlit("family");
    reveal_strlit("ipv4");
    reveal_strlit("ipv6");
    assert("host"@[0] == 'h' && "bind"@[0] == 'b' && "port"@[0] == 'p' && "family"@[0] == 'f');
    assert("ipv4"@[3] == '4' && "ipv6"@[3] == '6');
    let d = tcp_decoded(m) + rest;
    if let Some(h) = m.host {
        lemma_text_round_trip(h);
    }
    if let Some(h) = m.bind {
        lemma_text_round_trip(h);
    }
    if let Some(p) = m.port {
        lemma_number_round_trip(p as nat, u16::MAX as nat);
    }
    if let Some(f) = m.family {
        lemma_ascii_bytes(family_text(f));
    }
    assert(opt_text(d, "host"@) == Ok::<Option<Seq<char>>, crate::ErrorModel>(m.host));
    assert(opt_text(d, "bind"@) == Ok::<Option<Seq<char>>, crate::ErrorModel>(m.bind));
    assert(opt_family(d) == Ok::<Option<TcpFamily>, crate::ErrorModel>(m.family));
}

/// The decoded options that write out a Unix transport.
pub open spec fn unix_decoded(k: UnixKindModel) -> Seq<DecodedOption> {
    match k {
        UnixKindModel::Path(p) => seq![("path"@, Some(p))],
        UnixKindModel::Dir(p) => seq![("dir"@, Some(p))],
        UnixKindModel::Tmpdir(p) => seq![("tmpdir"@, Some(p))],
        UnixKindModel::Abstract(p) => seq![("abstract"@, Some(p))],
        UnixKindModel::Runtime => seq![("runtime"@, Some(seq![121u8, 101u8, 115u8]))],
    }
}

pub proof fn lemma_unix_round_trip(k: UnixKindModel, rest: Seq<DecodedOption>)
    requires
        lookup(rest, "path"@) is None,
        lookup(rest, "dir"@) is None,
        lookup(rest, "tmpdir"@) is None,
        lookup(rest, "abstract"@) is None,
        lookup(rest, "runtime"@) is None,
    ensures
        unix_spec(unix_decoded(k) + rest) == Ok::<UnixKindModel, crate::ErrorModel>(k),
        written_all(unix_decoded(k)) == unix_options(k),
{
    broadcast use lemma_lookup_concat;

    reveal_strlit("path");
    reveal_strlit("dir");
    reveal_strlit("tmpdir");
    reveal_strlit("abstract");
    reveal_strlit("runtime");
    reveal_strlit("yes");
    assert("path"@[0] == 'p' && "dir"@[0] == 'd' && "tmpdir"@[0] == 't' && "abstract"@[0] == 'a'
        && "runtime"@[0] == 'r');
    let u = unix_decoded(k);
    assert(u.drop_first() =~= Seq::<DecodedOption>::empty());
    assert(lookup(Seq::<DecodedOption>::empty(), "path"@) is None);
    assert(lookup(Seq::<DecodedOption>::empty(), "dir"@) is None);
    assert(lookup(Seq::<DecodedOption>::empty(), "tmpdir"@) is None);
    assert(lookup(Seq::<DecodedOption>::empty(), "abstract"@) is None);
    assert(lookup(Seq::<DecodedOption>::empty(), "runtime"@) is None);
    assert(crate::transport::bytes_chars(seq![121u8, 101u8, 115u8]) =~= "yes"@);
    assert(written_all(u) =~= unix_options(k));
}

pub proof fn lemma_launchd_round_trip(env: Seq<char>, rest: Seq<DecodedOption>)
    requires
        lookup(rest, "env"@) is None,
    ensures
        launchd_spec(seq![("env"@, Some(encode_utf8(env)))] + rest) == Ok::<
            Seq<char>,
            crate::ErrorModel,
        >(env),
        written_all(seq![("env"@, Some(encode_utf8(env)))]) == launchd_options(env),
{
    broadcast use lemma_lookup_concat;

    let u: Seq<DecodedOption> = seq![("env"@, Some(encode_utf8(env)))];
    assert(u.drop_first() =~= Seq::<DecodedOption>::empty());
    lemma_text_round_trip(env);
    assert(written_all(u) =~= launchd_options(env));
}

/// The decoded options that write out a nonce-TCP transport.
pub open spec fn nonce_tcp_decoded(m: NonceTcpModel) -> Seq<DecodedOption> {
    tcp_decoded(m.tcp) + opt_dec("noncefile"@, m.noncefile)
}

pub proof fn lemma_nonce_tcp_round_trip(m: NonceTcpModel, rest: Seq<DecodedOption>)
    requires
        lookup(rest, "host"@) is None,
        lookup(rest, "bind"@) is None,
        lookup(rest, "port"@) is None,
        lookup(rest, "family"@) is None,
        lookup(rest, "noncefile"@) is None,
    ensures
        nonce_tcp_spec(nonce_tcp_decoded(m) + rest) == Ok::<NonceTcpModel, crate::ErrorModel>(m),
        written_all(nonce_tcp_decoded(m)) == nonce_tcp_options(m),
{
    broadcast use lemma_lookup_concat, lemma_lookup_opt_dec;

    reveal_strlit("host");
    reveal_strlit("bind");
    reveal_strlit("port");
    reveal_strlit("family");
    reveal_strlit("noncefile");
    assert("host"@[0] == 'h' && "bind"@[0] == 'b' && "port"@[0] == 'p' && "family"@[0] == 'f'
        && "noncefile"@[0] == 'n');
    let n = opt_dec("noncefile"@, m.noncefile);
    assert(nonce_tcp_decoded(m) + rest =~= tcp_decoded(m.tcp) + (n + rest));
    lemma_tcp_round_trip(m.tcp, n + rest);
    assert(lookup(nonce_tcp_decoded(m) + rest, "noncefile"@) == lookup(n, "noncefile"@));
    lemma_tcp_written(m.tcp);
    lemma_written_concat(tcp_decoded(m.tcp), n);
    lemma_written_opt("noncefile"@, m.noncefile);
}

/// The decoded options that write out a VSOCK transport.
pub open spec fn vsock_decoded(m: VsockModel) -> Seq<DecodedOption> {
    opt_dec("cid"@, number_bytes(as_nat(m.cid))) + opt_dec("port"@, number_bytes(as_nat(m.port)))
}

pub proof fn lemma_vsock_round_trip(m: VsockModel, rest: Seq<DecodedOption>)
    requires
        lookup(rest, "cid"@) is None,
        lookup(rest, "port"@) is None,
    ensures
        vsock_spec(vsock_decoded(m) + rest) == Ok::<VsockModel, crate::ErrorModel>(m),
        written_all(vsock_decoded(m)) == vsock_options(m),
{
    broadcast use lemma_lookup_concat, lemma_lookup_opt_dec;

    reveal_strlit("cid");
    reveal_strlit("port");
    assert("cid"@[0] == 'c' && "port"@[0] == 'p');
    if let Some(c) = m.cid {
        lemma_number_round_trip(c as nat, u32::MAX as nat);
    }
    if let Some(p) = m.port {
        lemma_number_round_trip(p as nat, u32::MAX as nat);
    }
    assert(written_all(vsock_decoded(m)) =~= vsock_options(m));
}

/// Whether a scope reads back as itself: a scope kept as text names no known scope.
pub open spec fn scope_wf(s: Option<ScopeModel>) -> bool {
    match s {
        Some(ScopeModel::Other(t)) => t != "*install-path"@ && t != "*user"@,
        _ => true,
    }
}

/// The decoded options that write out an autolaunch transport.
pub open spec fn autolaunch_decoded(s: Option<ScopeModel>) -> Seq<DecodedOption> {
    opt_dec(
        "scope"@,
        match s {
            Some(x) => Some(encode_utf8(scope_text(x))),
            None => None,
        },
    )
}

pub proof fn lemma_autolaunch_round_trip(s: Option<ScopeModel>, rest: Seq<DecodedOption>)
    requires
        scope_wf(s),
        lookup(rest, "scope"@) is None,
    ensures
        autolaunch_spec(autolaunch_decoded(s) + rest) == Ok::<Option<ScopeModel>, crate::ErrorModel>(
            s,
        ),
        written_all(autolaunch_decoded(s)) == autolaunch_options(s),
{
    broadcast use lemma_lookup_concat, lemma_lookup_opt_dec;

    if let Some(x) = s {
        lemma_text_round_trip(scope_text(x));
        reveal_strlit("*install-path");
        reveal_strlit("*user");
        assert("*install-path"@.len() != "*user"@.len());
        assert(scope_of(scope_text(x)) == x);
    }
    assert(written_all(autolaunch_decoded(s)) =~= autolaunch_options(s));
}

/// Whether no two arguments share an index.
pub open spec fn distinct_indices(a: Seq<ArgModel>) -> bool {
    forall|i: int, j: int| 0 <= i < j < a.len() ==> (#[trigger] a[i]).0 != (#[trigger] a[j]).0
}

/// The key of argument `n`.
pub open spec fn argv_key(n: usize) -> Seq<char> {
    "argv"@ + dec_digits(n as nat)
}

/// The decoded options that write out the arguments.
pub open spec fn argv_decoded(a: Seq<ArgModel>) -> Seq<DecodedOption>
    decreases a.len(),
{
    if a.len() == 0 {
        Seq::empty()
    } else {
        argv_decoded(a.drop_last()).push((argv_key(a.last().0), Some(encode_utf8(a.last().1))))
    }
}

/// The decoded options that write out a unixexec transport.
pub open spec fn unixexec_decoded(m: UnixexecModel) -> Seq<DecodedOption> {
    seq![("path"@, Some(m.path))] + argv_decoded(m.argv)
}

proof fn lemma_argv_key(n: usize)
    ensures
        argv_key(n).len() >= 4,
        argv_key(n).subrange(0, 4) == "argv"@,
        parse_unsigned(argv_key(n).subrange(4, argv_key(n).len() as int), usize::MAX as nat)
            == Some(n as nat),
{
    reveal_strlit("argv");
    let k = argv_key(n);
    assert(k.subrange(0, 4) =~= "argv"@);
    assert(k.subrange(4, k.len() as int) =~= dec_digits(n as nat));
    lemma_dec_digits(n as nat);
    assert(unsigned_digits(dec_digits(n as nat)) == dec_digits(n as nat));
}

proof fn lemma_argv_round_trip(path: Seq<u8>, a: Seq<ArgModel>)
    requires
        distinct_indices(a),
    ensures
        argv_spec(seq![("path"@, Some(path))] + argv_decoded(a)) == Ok::<
            Seq<ArgModel>,
            crate::ErrorModel,
        >(a),
        written_all(argv_decoded(a)) == argv_options(a),
    decreases a.len(),
{
    reveal_strlit("argv");
    reveal_strlit("path");
    assert("argv"@[0] == 'a' && "path"@[0] == 'p');
    let p: DecodedOption = ("path"@, Some(path));
    if a.len() == 0 {
        assert(seq![p] + argv_decoded(a) =~= seq![p]);
        assert(seq![p].drop_last() =~= Seq::<DecodedOption>::empty());
        assert("path"@.subrange(0, 4) =~= "path"@);
        assert(!is_argv(p));
        assert(seq![p].last() == p);
        assert(argv_spec(Seq::<DecodedOption>::empty()) == Ok::<Seq<ArgModel>, crate::ErrorModel>(
            Seq::<ArgModel>::empty(),
        ));
        assert(a =~= Seq::<ArgModel>::empty());
        assert(written_all(argv_decoded(a)) =~= argv_options(a));
    } else {
        let d = a.drop_last();
        assert forall|i: int, j: int| 0 <= i < j < d.len() implies (#[trigger] d[i]).0 != (
        #[trigger] d[j]).0 by {
            assert(d[i] == a[i] && d[j] == a[j]);
        }
        lemma_argv_round_trip(path, d);
        let x = a.last();
        let item: DecodedOption = (argv_key(x.0), Some(encode_utf8(x.1)));
        let all = seq![p] + argv_decoded(a);
        assert(all =~= (seq![p] + argv_decoded(d)).push(item));
        assert(all.drop_last() =~= seq![p] + argv_decoded(d));
        assert(all.last() == item);
        lemma_argv_key(x.0);
        lemma_text_round_trip(x.1);
        assert(is_argv(item));
        assert(argv_item(item) == Ok::<Option<ArgModel>, crate::ErrorModel>(Some(x)));
        if has_index(d, x.0) {
            let i = choose|i: int| 0 <= i < d.len() && (#[trigger] d[i]).0 == x.0;
            assert(a[i] == d[i]);
            assert(false);
        }
        assert(d.push(x) =~= a);
        assert(written_all(argv_decoded(a)) =~= written_all(argv_decoded(d)).push(written(item)));
    }
}

pub proof fn lemma_unixexec_round_trip(m: UnixexecModel, g: Option<Seq<u8>>)
    requires
        distinct_indices(m.argv),
    ensures
        unixexec_spec(unixexec_decoded(m) + opt_dec("guid"@, g)) == Ok::<
            UnixexecModel,
            crate::ErrorModel,
        >(m),
        written_all(unixexec_decoded(m)) == unixexec_options(m),
{
    reveal_strlit("argv");
    reveal_strlit("guid");
    assert("argv"@[0] == 'a' && "guid"@[0] == 'g');
    lemma_argv_round_trip(m.path, m.argv);
    let u = unixexec_decoded(m);
    let all = u + opt_dec("guid"@, g);
    if let Some(b) = g {
        let x: DecodedOption = ("guid"@, Some(b));
        assert(all =~= u.push(x));
        assert(all.drop_last() =~= u);
        assert("guid"@.subrange(0, 4) =~= "guid"@);
        assert(!is_argv(x));
    } else {
        assert(all =~= u);
    }
    assert(all[0] == ("path"@, Some(m.path)));
    assert(value_of(all, "path"@) == Some(m.path));
    lemma_written_concat(seq![("path"@, Some(m.path))], argv_decoded(m.argv));
    assert(written_all(seq![("path"@, Some(m.path))]) =~= seq![("path"@, Some(encode_spec(m.path)))]);
}

proof fn lemma_kept_all(o: Seq<DecodedOption>)
    requires
        forall|i: int| 0 <= i < o.len() ==> kept(#[trigger] o[i]),
    ensures
        kept_options(o) == o,
    decreases o.len(),
{
    if o.len() > 0 {
        assert forall|i: int| 0 <= i < o.drop_last().len() implies kept(
            #[trigger] o.drop_last()[i],
        ) by {
            assert(o.drop_last()[i] == o[i]);
        }
        lemma_kept_all(o.drop_last());
        assert(kept(o[o.len() - 1]));
        assert(o.drop_last().push(o.last()) =~= o);
    } else {
        assert(o =~= Seq::<DecodedOption>::empty());
    }
}

pub proof fn lemma_other_round_trip(m: OtherModel, g: Option<Seq<u8>>)
    requires
        forall|i: int| 0 <= i < m.options.len() ==> kept(#[trigger] m.options[i]),
    ensures
        kept_options(m.options + opt_dec("guid"@, g)) == m.options,
        written_all(m.options) == other_options(m),
{
    lemma_kept_all(m.options);
    if let Some(b) = g {
        let x: DecodedOption = ("guid"@, Some(b));
        assert((m.options + opt_dec("guid"@, g)).drop_last() =~= m.options);
        assert(!kept(x));
    } else {
        assert(m.options + opt_dec("guid"@, g) =~= m.options);
    }
}

/// Text that holds no `,`, `=` or `:`.
pub open spec fn plain(s: Seq<char>) -> bool
    decreases s.len(),
{
    s.len() == 0 || (s[0] != ',' && s[0] != '=' && s[0] != ':' && plain(s.drop_first()))
}

pub proof fn lemma_plain(s: Seq<char>)
    requires
        plain(s),
    ensures
        no_char(s, ','),
        no_char(s, '='),
        no_char(s, ':'),
    decreases s.len(),
{
    if s.len() > 0 {
        lemma_plain(s.drop_first());
        assert forall|i: int| 0 < i < s.len() implies s[i] == s.drop_first()[i - 1] by {}
    }
}

pub proof fn lemma_lookup_none(a: Seq<DecodedOption>, k: Seq<char>)
    requires
        lookup(a, k) is None,
    ensures
        forall|i: int| 0 <= i < a.len() ==> (#[trigger] a[i]).0 != k,
    decreases a.len(),
{
    if a.len() > 0 {
        lemma_lookup_none(a.drop_first(), k);
        assert forall|i: int| 0 <= i < a.len() implies (#[trigger] a[i]).0 != k by {
            if i > 0 {
                assert(a[i] == a.drop_first()[i - 1]);
            }
        }
    }
}

pub proof fn lemma_distinct_append(a: Seq<DecodedOption>, k: Seq<char>, v: Option<Seq<u8>>)
    requires
        distinct_keys(a),
        lookup(a, k) is None,
    ensures
        distinct_keys(a + opt_dec(k, v)),
{
    lemma_lookup_none(a, k);
    let r = a + opt_dec(k, v);
    assert forall|i: int, j: int| 0 <= i < j < r.len() implies (#[trigger] r[i]).0 != (
    #[trigger] r[j]).0 by {
        if j < a.len() {
            assert(r[i] == a[i] && r[j] == a[j]);
        } else {
            assert(r[i] == a[i]);
            assert(r[j].0 == k);
        }
    }
}

/// A key the tokenizer reads back: no `,` or `=` in it, and not bare where empty.
pub open spec fn key_ok(x: DecodedOption) -> bool {
    no_char(x.0, ',') && no_char(x.0, '=') && (x.0.len() > 0 || x.1 is Some)
}

pub open spec fn keys_ok(o: Seq<DecodedOption>) -> bool {
    forall|i: int| 0 <= i < o.len() ==> key_ok(#[trigger] o[i])
}

proof fn lemma_keys_ok_concat(a: Seq<DecodedOption>, b: Seq<DecodedOption>)
    requires
        keys_ok(a),
        keys_ok(b),
    ensures
        keys_ok(a + b),
{
    assert forall|i: int| 0 <= i < (a + b).len() implies key_ok(#[trigger] (a + b)[i]) by {
        if i < a.len() {
            assert((a + b)[i] == a[i]);
        } else {
            assert((a + b)[i] == b[i - a.len()]);
        }
    }
}

pub proof fn lemma_literals_plain()
    ensures
        plain("path"@),
        plain("dir"@),
        plain("tmpdir"@),
        plain("abstract"@),
        plain("runtime"@),
        plain("host"@),
        plain("bind"@),
        plain("port"@),
        plain("family"@),
        plain("noncefile"@),
        plain("env"@),
        plain("scope"@),
        plain("cid"@),
        plain("guid"@),
        plain("unix"@),
        plain("launchd"@),
        plain("systemd"@),
        plain("tcp"@),
        plain("nonce-tcp"@),
        plain("unixexec"@),
        plain("autolaunch"@),
        plain("vsock"@),
        plain("argv"@),
{
    reveal_with_fuel(plain, 11);
    reveal_strlit("path");
    reveal_strlit("dir");
    reveal_strlit("tmpdir");
    reveal_strlit("abstract");
    reveal_strlit("runtime");
    reveal_strlit("host");
    reveal_strlit("bind");
    reveal_strlit("port");
    reveal_strlit("family");
    reveal_strlit("noncefile");
    reveal_strlit("env");
    reveal_strlit("scope");
    reveal_strlit("cid");
    reveal_strlit("guid");
    reveal_strlit("unix");
    reveal_strlit("launchd");
    reveal_strlit("systemd");
    reveal_strlit("tcp");
    reveal_strlit("nonce-tcp");
    reveal_strlit("unixexec");
    reveal_strlit("autolaunch");
    reveal_strlit("vsock");
    reveal_strlit("argv");
}

pub proof fn lemma_literal_heads()
    ensures
        "path"@[0] == 'p' && "dir"@[0] == 'd' && "tmpdir"@[0] == 't' && "abstract"@[0] == 'a'
            && "runtime"@[0] == 'r',
        "host"@[0] == 'h' && "bind"@[0] == 'b' && "port"@[0] == 'p' && "family"@[0] == 'f'
            && "noncefile"@[0] == 'n',
        "env"@[0] == 'e' && "scope"@[0] == 's' && "cid"@[0] == 'c' && "guid"@[0] == 'g',
        "unix"@[0] == 'u' && "launchd"@[0] == 'l' && "systemd"@[0] == 's' && "tcp"@[0] == 't'
            && "nonce-tcp"@[0] == 'n' && "unixexec"@[0] == 'u' && "autolaunch"@[0] == 'a'
            && "vsock"@[0] == 'v',
        "unix"@.len() == 4 && "unixexec"@.len() == 8,
        "argv"@[0] == 'a',
        "path"@.len() > 0 && "dir"@.len() > 0 && "tmpdir"@.len() > 0 && "abstract"@.len() > 0
            && "runtime"@.len() > 0 && "host"@.len() > 0 && "bind"@.len() > 0 && "port"@.len()
            > 0 && "family"@.len() > 0 && "noncefile"@.len() > 0 && "env"@.len() > 0
            && "scope"@.len() > 0 && "cid"@.len() > 0 && "guid"@.len() > 0,
{
    reveal_strlit("path");
    reveal_strlit("dir");
    reveal_strlit("tmpdir");
    reveal_strlit("abstract");
    reveal_strlit("runtime");
    reveal_strlit("host");
    reveal_strlit("bind");
    reveal_strlit("port");
    reveal_strlit("family");
    reveal_strlit("noncefile");
    reveal_strlit("env");
    reveal_strlit("scope");
    reveal_strlit("cid");
    reveal_strlit("guid");
    reveal_strlit("unix");
    reveal_strlit("launchd");
    reveal_strlit("systemd");
    reveal_strlit("tcp");
    reveal_strlit("nonce-tcp");
    reveal_strlit("unixexec");
    reveal_strlit("autolaunch");
    reveal_strlit("vsock");
    reveal_strlit("argv");
}

proof fn lemma_keys_ok_opt(k: Seq<char>, v: Option<Seq<u8>>)
    requires
        plain(k),
        k.len() > 0,
    ensures
        keys_ok(opt_dec(k, v)),
{
    lemma_plain(k);
}

proof fn lemma_argv_facts(a: Seq<ArgModel>)
    requires
        distinct_indices(a),
    ensures
        keys_ok(argv_decoded(a)),
        distinct_keys(argv_decoded(a)),
        forall|i: int| 0 <= i < argv_decoded(a).len() ==> (#[trigger] argv_decoded(a)[i]).0[0] == 'a'
            && argv_decoded(a)[i].0.len() >= 4,
    decreases a.len(),
{
    lemma_literal_heads();
    lemma_literals_plain();
    if a.len() > 0 {
        let d = a.drop_last();
        assert forall|i: int, j: int| 0 <= i < j < d.len() implies (#[trigger] d[i]).0 != (
        #[trigger] d[j]).0 by {
            assert(d[i] == a[i] && d[j] == a[j]);
        }
        lemma_argv_facts(d);
        let x = a.last();
        let prev = argv_decoded(d);
        let all = argv_decoded(a);
        let k = argv_key(x.0);
        lemma_argv_decoded_len(d);
        assert(all == prev.push((k, Some(encode_utf8(x.1)))));
        lemma_argv_key(x.0);
        lemma_dec_digits(x.0 as nat);
        // the new key is plain
        assert(plain(k)) by {
            reveal_strlit("argv");
            lemma_plain_digits(dec_digits(x.0 as nat));
            lemma_plain_concat("argv"@, dec_digits(x.0 as nat));
        }
        lemma_plain(k);
        assert forall|i: int| 0 <= i < all.len() implies key_ok(#[trigger] all[i]) by {
            if i < prev.len() {
                assert(all[i] == prev[i]);
            }
        }
        // the new key differs from every earlier one
        assert forall|i: int, j: int| 0 <= i < j < all.len() implies (#[trigger] all[i]).0 != (
        #[trigger] all[j]).0 by {
            if j < prev.len() {
                assert(all[i] == prev[i] && all[j] == prev[j]);
            } else {
                assert(all[i] == prev[i]);
                lemma_argv_decoded_key(d, i);
                let n = d[i].0;
                if all[i].0 == k {
                    let ki = argv_key(n);
                    assert(ki.subrange(4, ki.len() as int) =~= dec_digits(n as nat));
                    assert(k.subrange(4, k.len() as int) =~= dec_digits(x.0 as nat));
                    lemma_dec_digits(n as nat);
                    assert(a[i] == d[i]);
                }
            }
        }
        assert forall|i: int| 0 <= i < all.len() implies (#[trigger] all[i]).0[0] == 'a'
            && all[i].0.len() >= 4 by {
            if i < prev.len() {
                assert(all[i] == prev[i]);
            } else {
                assert(k[0] == "argv"@[0]);
            }
        }
    }
}

proof fn lemma_argv_decoded_key(a: Seq<ArgModel>, i: int)
    requires
        0 <= i < a.len(),
    ensures
        argv_decoded(a).len() == a.len(),
        argv_decoded(a)[i].0 == argv_key(a[i].0),
    decreases a.len(),
{
    if i < a.len() - 1 {
        lemma_argv_decoded_key(a.drop_last(), i);
    } else {
        lemma_argv_decoded_len(a.drop_last());
    }
}

proof fn lemma_argv_decoded_len(a: Seq<ArgModel>)
    ensures
        argv_decoded(a).len() == a.len(),
    decreases a.len(),
{
    if a.len() > 0 {
        lemma_argv_decoded_len(a.drop_last());
    }
}

proof fn lemma_plain_digits(d: Seq<char>)
    requires
        crate::number::all_digits(d),
    ensures
        plain(d),
    decreases d.len(),
{
    if d.len() > 0 {
        assert(crate::number::is_digit(d[0]));
        assert forall|i: int| 0 <= i < d.drop_first().len() implies crate::number::is_digit(
            #[trigger] d.drop_first()[i],
        ) by {
            assert(d.drop_first()[i] == d[i + 1]);
        }
        lemma_plain_digits(d.drop_first());
    }
}

proof fn lemma_plain_concat(a: Seq<char>, b: Seq<char>)
    requires
        plain(a),
        plain(b),
    ensures
        plain(a + b),
    decreases a.len(),
{
    if a.len() == 0 {
        assert(a + b =~= b);
    } else {
        lemma_plain_concat(a.drop_first(), b);
        assert((a + b).drop_first() =~= a.drop_first() + b);
    }
}

/// The decoded options that write out a transport.
pub open spec fn transport_decoded(t: TransportModel) -> Seq<DecodedOption> {
    match t {
        TransportModel::Unix(k) => unix_decoded(k),
        TransportModel::Launchd(e) => seq![("env"@, Some(encode_utf8(e)))],
        TransportModel::Systemd => Seq::empty(),
        TransportModel::Tcp(m) => tcp_decoded(m),
        TransportModel::NonceTcp(m) => nonce_tcp_decoded(m),
        TransportModel::Unixexec(m) => unixexec_decoded(m),
        TransportModel::Autolaunch(s) => autolaunch_decoded(s),
        TransportModel::Vsock(m) => vsock_decoded(m),
        TransportModel::Other(o) => o.options,
    }
}

/// The names of the transports this library knows.
pub open spec fn known_name(n: Seq<char>) -> bool {
    n == "unix"@ || n == "launchd"@ || n == "systemd"@ || n == "tcp"@ || n == "nonce-tcp"@ || n
        == "unixexec"@ || n == "autolaunch"@ || n == "vsock"@
}

/// What holds of every transport that parsing gives.
pub open spec fn transport_wf(t: TransportModel) -> bool {
    match t {
        TransportModel::Autolaunch(s) => scope_wf(s),
        TransportModel::Unixexec(u) => distinct_indices(u.argv),
        TransportModel::Other(o) => {
            &&& !known_name(o.name)
            &&& no_char(o.name, ':')
            &&& distinct_keys(o.options)
            &&& keys_ok(o.options)
            &&& forall|i: int| 0 <= i < o.options.len() ==> kept(#[trigger] o.options[i])
        },
        _ => true,
    }
}

/// What holds of every address that parsing gives.
pub open spec fn address_wf(m: AddressModel) -> bool {
    &&& transport_wf(m.transport)
    &&& (m.guid is Some ==> is_guid_bytes(m.guid->0))
}

#[verifier::rlimit(60)]
#[verifier::spinoff_prover]
proof fn lemma_transport_facts(t: TransportModel, g: Option<Seq<u8>>)
    requires
        transport_wf(t),
    ensures
        written_all(transport_decoded(t)) == transport_options(t),
        transport_spec(transport_name(t), transport_decoded(t) + opt_dec("guid"@, g)) == Ok::<
            TransportModel,
            crate::ErrorModel,
        >(t),
        lookup(transport_decoded(t), "guid"@) is None,
        distinct_keys(transport_decoded(t)),
        keys_ok(transport_decoded(t)),
        no_char(transport_name(t), ':'),
{
    broadcast use lemma_lookup_concat, lemma_lookup_opt_dec;

    lemma_literal_heads();
    lemma_literals_plain();
    let gd = opt_dec("guid"@, g);
    let d = transport_decoded(t);
    assert(lookup(Seq::<DecodedOption>::empty(), "guid"@) is None);
    match t {
        TransportModel::Unix(k) => {
            lemma_unix_round_trip(k, gd);
            lemma_plain("unix"@);
            assert(d.drop_first() =~= Seq::<DecodedOption>::empty());
            match k {
                UnixKindModel::Path(_) => lemma_plain("path"@),
                UnixKindModel::Dir(_) => lemma_plain("dir"@),
                UnixKindModel::Tmpdir(_) => lemma_plain("tmpdir"@),
                UnixKindModel::Abstract(_) => lemma_plain("abstract"@),
                UnixKindModel::Runtime => lemma_plain("runtime"@),
            }
            assert(d[0].0 != "guid"@);
            assert(lookup(d, "guid"@) == lookup(d.drop_first(), "guid"@));
            assert(lookup(d.drop_first(), "guid"@) is None);
            assert(lookup(transport_decoded(t), "guid"@) is None);
        },
        TransportModel::Launchd(e) => {
            lemma_launchd_round_trip(e, gd);
            lemma_plain("launchd"@);
            lemma_plain("env"@);
            assert(d.drop_first() =~= Seq::<DecodedOption>::empty());
        },
        TransportModel::Systemd => {
            lemma_plain("systemd"@);
            assert(written_all(d) =~= transport_options(t));
        },
        TransportModel::Tcp(m) => {
            lemma_tcp_round_trip(m, gd);
            lemma_tcp_written(m);
            lemma_plain("tcp"@);
            lemma_tcp_keys(m);
        },
        TransportModel::NonceTcp(m) => {
            lemma_nonce_tcp_round_trip(m, gd);
            lemma_plain("nonce-tcp"@);
            lemma_tcp_keys(m.tcp);
            lemma_keys_ok_opt("noncefile"@, m.noncefile);
            lemma_keys_ok_concat(tcp_decoded(m.tcp), opt_dec("noncefile"@, m.noncefile));
            lemma_distinct_append(tcp_decoded(m.tcp), "noncefile"@, m.noncefile);
        },
        TransportModel::Unixexec(m) => {
            lemma_unixexec_round_trip(m, g);
            lemma_plain("unixexec"@);
            lemma_plain("path"@);
            lemma_argv_facts(m.argv);
            let p: Seq<DecodedOption> = seq![("path"@, Some(m.path))];
            let a = argv_decoded(m.argv);
            lemma_keys_ok_concat(p, a);
            assert forall|i: int, j: int| 0 <= i < j < d.len() implies (#[trigger] d[i]).0 != (
            #[trigger] d[j]).0 by {
                if i == 0 {
                    assert(d[j] == a[j - 1]);
                } else {
                    assert(d[i] == a[i - 1] && d[j] == a[j - 1]);
                }
            }
            assert forall|i: int| 0 <= i < d.len() implies (#[trigger] d[i]).0 != "guid"@ by {
                if i > 0 {
                    assert(d[i] == a[i - 1]);
                }
            }
            lemma_lookup_concat(p, a, "guid"@);
            if lookup(a, "guid"@) is Some {
                lemma_lookup_some(a, "guid"@);
                let i = choose|i: int| 0 <= i < a.len() && (#[trigger] a[i]).0 == "guid"@;
                assert(d[i + 1] == a[i]);
            }
        },
        TransportModel::Autolaunch(sc) => {
            lemma_autolaunch_round_trip(sc, gd);
            lemma_plain("autolaunch"@);
            lemma_keys_ok_opt("scope"@, autolaunch_decoded_value(sc));
        },
        TransportModel::Vsock(m) => {
            lemma_vsock_round_trip(m, gd);
            lemma_plain("vsock"@);
            let c = opt_dec("cid"@, number_bytes(as_nat(m.cid)));
            let p = opt_dec("port"@, number_bytes(as_nat(m.port)));
            lemma_keys_ok_opt("cid"@, number_bytes(as_nat(m.cid)));
            lemma_keys_ok_opt("port"@, number_bytes(as_nat(m.port)));
            lemma_keys_ok_concat(c, p);
            lemma_distinct_append(c, "port"@, number_bytes(as_nat(m.port)));
        },
        TransportModel::Other(o) => {
            lemma_other_round_trip(o, g);
            assert forall|i: int| 0 <= i < d.len() implies (#[trigger] d[i]).0 != "guid"@ by {
                assert(kept(o.options[i]));
            }
            if lookup(d, "guid"@) is Some {
                lemma_lookup_some(d, "guid"@);
            }
        },
    }
}

pub open spec fn autolaunch_decoded_value(s: Option<ScopeModel>) -> Option<Seq<u8>> {
    match s {
        Some(x) => Some(encode_utf8(scope_text(x))),
        None => None,
    }
}

proof fn lemma_lookup_some(a: Seq<DecodedOption>, k: Seq<char>)
    requires
        lookup(a, k) is Some,
    ensures
        exists|i: int| 0 <= i < a.len() && (#[trigger] a[i]).0 == k,
    decreases a.len(),
{
    if a[0].0 != k {
        lemma_lookup_some(a.drop_first(), k);
        let i = choose|i: int| 0 <= i < a.drop_first().len() && (#[trigger] a.drop_first()[i]).0 == k;
        assert(a[i + 1] == a.drop_first()[i]);
    } else {
        assert(a[0].0 == k);
    }
}

proof fn lemma_tcp_keys(m: TcpModel)
    ensures
        keys_ok(tcp_decoded(m)),
        distinct_keys(tcp_decoded(m)),
        lookup(tcp_decoded(m), "noncefile"@) is None,
        lookup(tcp_decoded(m), "guid"@) is None,
{
    broadcast use lemma_lookup_concat, lemma_lookup_opt_dec;

    lemma_literal_heads();
    lemma_literals_plain();
    let port = number_bytes(
        match m.port {
            Some(p) => Some(p as nat),
            None => None,
        },
    );
    let fam = match m.family {
        Some(f) => Some(encode_utf8(family_text(f))),
        None => None,
    };
    let h = opt_dec("host"@, text_bytes(m.host));
    let b = opt_dec("bind"@, text_bytes(m.bind));
    let p = opt_dec("port"@, port);
    let f = opt_dec("family"@, fam);
    lemma_keys_ok_opt("host"@, text_bytes(m.host));
    lemma_keys_ok_opt("bind"@, text_bytes(m.bind));
    lemma_keys_ok_opt("port"@, port);
    lemma_keys_ok_opt("family"@, fam);
    lemma_keys_ok_concat(h, b);
    lemma_keys_ok_concat(h + b, p);
    lemma_keys_ok_concat(h + b + p, f);
    lemma_distinct_append(h, "bind"@, text_bytes(m.bind));
    lemma_distinct_append(h + b, "port"@, port);
    lemma_distinct_append(h + b + p, "family"@, fam);
}

/// The canonical text of a well-formed address parses back to that address.
pub proof fn lemma_format_parse(m: AddressModel)
    requires
        address_wf(m),
    ensures
        parse_spec(format_spec(m)) == Ok::<AddressModel, crate::ErrorModel>(m),
{
    broadcast use lemma_lookup_concat, lemma_lookup_opt_dec;

    let t = m.transport;
    let g = m.guid;
    lemma_transport_facts(t, g);
    lemma_literals_plain();
    lemma_literal_heads();
    let td = transport_decoded(t);
    let gd = opt_dec("guid"@, g);
    let d = td + gd;
    lemma_written_concat(td, gd);
    lemma_written_opt("guid"@, g);
    assert(guid_options(g) =~= opt_field("guid"@, g));
    let ps = written_all(d);
    assert(ps == transport_options(t) + guid_options(g));
    lemma_keys_ok_opt("guid"@, g);
    lemma_keys_ok_concat(td, gd);
    assert forall|i: int| 0 <= i < ps.len() implies writable(#[trigger] ps[i]) by {
        assert(ps[i] == written(d[i]));
        assert(key_ok(d[i]));
        lemma_written_writable(d[i]);
    }
    lemma_key_vals_join(ps);
    lemma_distinct_append(td, "guid"@, g);
    lemma_lookup_none(td, "guid"@);
    assert forall|i: int|
        0 <= i < d.len() && (#[trigger] d[i]).0 == "guid"@ && d[i].1 is Some implies is_guid_bytes(
        d[i].1->0,
    ) by {
        if i < td.len() {
            assert(d[i] == td[i]);
        } else {
            assert(d[i] == gd[i - td.len()]);
        }
    }
    lemma_written_options(d);
    let name = transport_name(t);
    let f = format_spec(m);
    assert(f =~= name + (seq![':'] + join(ps)));
    lemma_index_of_at(name, seq![':'] + join(ps), ':');
    assert(f.subrange(0, name.len() as int) =~= name);
    assert(f.subrange(name.len() as int + 1, f.len() as int) =~= join(ps));
    assert(split_address(f) == Some((name, join(ps))));
    assert(address_options(f) == Ok::<(Seq<char>, Seq<DecodedOption>), crate::ErrorModel>(
        (name, d),
    ));
    assert(value_of(d, "guid"@) == g);
}

pub proof fn lemma_first_duplicate_none(keys: Seq<Seq<char>>)
    requires
        first_duplicate(keys) is None,
    ensures
        forall|i: int, j: int| 0 <= i < j < keys.len() ==> keys[i] != keys[j],
    decreases keys.len(),
{
    if keys.len() > 0 {
        let d = keys.drop_last();
        lemma_first_duplicate_none(d);
        assert forall|i: int, j: int| 0 <= i < j < keys.len() implies keys[i] != keys[j] by {
            if j < keys.len() - 1 {
                assert(keys[i] == d[i] && keys[j] == d[j]);
            } else {
                assert(keys[i] == d[i]);
                if keys[i] == keys[j] {
                    assert(d.contains(keys.last()));
                }
            }
        }
    }
}

pub proof fn lemma_decode_options_keys(kvs: Seq<RawOption>)
    requires
        decode_options(kvs) is Ok,
    ensures
        decode_options(kvs)->Ok_0.len() == kvs.len(),
        forall|i: int| 0 <= i < kvs.len() ==> (#[trigger] decode_options(kvs)->Ok_0[i]).0 == kvs[i].0,
    decreases kvs.len(),
{
    if kvs.len() > 0 {
        lemma_decode_options_keys(kvs.drop_last());
        let o = decode_options(kvs)->Ok_0;
        let p = decode_options(kvs.drop_last())->Ok_0;
        assert forall|i: int| 0 <= i < kvs.len() implies (#[trigger] o[i]).0 == kvs[i].0 by {
            if i < kvs.len() - 1 {
                assert(o[i] == p[i]);
                assert(kvs.drop_last()[i] == kvs[i]);
            }
        }
    }
}

proof fn lemma_key_vals_keys(s: Seq<char>)
    ensures
        forall|i: int|
            0 <= i < key_vals(s).len() ==> no_char((#[trigger] key_vals(s)[i]).0, ',') && no_char(
                key_vals(s)[i].0,
                '=',
            ),
    decreases s.len(),
{
    if s.len() > 0 {
        let c = index_of(s, ',');
        lemma_index_of_bounds(s, ',');
        let p = if c >= s.len() { s } else { s.subrange(0, c) };
        let j = index_of(p, '=');
        lemma_index_of_bounds(p, '=');
        let k = split_pair(p).0;
        assert(no_char(k, ',') && no_char(k, '=')) by {
            assert forall|x: int| 0 <= x < k.len() implies k[x] != ',' && k[x] != '=' by {
                assert(k[x] == p[x]);
                assert(p[x] == s[x]);
            }
        }
        if c < s.len() {
            let rest = s.subrange(c + 1, s.len() as int);
            lemma_key_vals_keys(rest);
            assert forall|i: int| 0 <= i < key_vals(s).len() implies no_char(
                (#[trigger] key_vals(s)[i]).0,
                ',',
            ) && no_char(key_vals(s)[i].0, '=') by {
                if i > 0 {
                    assert(key_vals(s)[i] == key_vals(rest)[i - 1]);
                }
            }
        }
    }
}

proof fn lemma_kept(o: Seq<DecodedOption>)
    requires
        distinct_keys(o),
        forall|i: int| 0 <= i < o.len() ==> no_char((#[trigger] o[i]).0, ',') && no_char(o[i].0, '='),
    ensures
        distinct_keys(kept_options(o)),
        keys_ok(kept_options(o)),
        forall|i: int| 0 <= i < kept_options(o).len() ==> kept(#[trigger] kept_options(o)[i]),
        forall|i: int|
            0 <= i < kept_options(o).len() ==> exists|j: int|
                0 <= j < o.len() && (#[trigger] kept_options(o)[i]) == o[j],
    decreases o.len(),
{
    if o.len() > 0 {
        let d = o.drop_last();
        assert forall|i: int, j: int| 0 <= i < j < d.len() implies (#[trigger] d[i]).0 != (
        #[trigger] d[j]).0 by {
            assert(d[i] == o[i] && d[j] == o[j]);
        }
        assert forall|i: int| 0 <= i < d.len() implies no_char((#[trigger] d[i]).0, ',') && no_char(
            d[i].0,
            '=',
        ) by {
            assert(d[i] == o[i]);
        }
        lemma_kept(d);
        let r = kept_options(d);
        let x = o.last();
        assert(no_char(o[o.len() - 1].0, ','));
        if kept(x) {
            let r2 = r.push(x);
            assert forall|i: int| 0 <= i < r2.len() implies exists|j: int|
                0 <= j < o.len() && (#[trigger] r2[i]) == o[j] by {
                if i < r.len() {
                    let j = choose|j: int| 0 <= j < d.len() && r[i] == d[j];
                    assert(r2[i] == o[j]);
                } else {
                    assert(r2[i] == o[o.len() - 1]);
                }
            }
            assert forall|i: int, j: int| 0 <= i < j < r2.len() implies (#[trigger] r2[i]).0 != (
            #[trigger] r2[j]).0 by {
                if j < r.len() {
                    assert(r2[i] == r[i] && r2[j] == r[j]);
                } else {
                    let jj = choose|jj: int| 0 <= jj < d.len() && r[i] == d[jj];
                    assert(r2[i] == o[jj]);
                    assert(r2[j] == o[o.len() - 1]);
                }
            }
            assert forall|i: int| 0 <= i < r2.len() implies key_ok(#[trigger] r2[i]) by {
                if i < r.len() {
                    assert(r2[i] == r[i]);
                }
            }
            assert forall|i: int| 0 <= i < r2.len() implies kept(#[trigger] r2[i]) by {
                if i < r.len() {
                    assert(r2[i] == r[i]);
                }
            }
        } else {
            assert forall|i: int| 0 <= i < r.len() implies exists|j: int|
                0 <= j < o.len() && (#[trigger] r[i]) == o[j] by {
                let j = choose|j: int| 0 <= j < d.len() && r[i] == d[j];
                assert(r[i] == o[j]);
            }
        }
    }
}

proof fn lemma_argv_distinct(o: Seq<DecodedOption>)
    requires
        argv_spec(o) is Ok,
    ensures
        distinct_indices(argv_spec(o)->Ok_0),
    decreases o.len(),
{
    if o.len() > 0 {
        lemma_argv_distinct(o.drop_last());
        let a = argv_spec(o.drop_last())->Ok_0;
        let r = argv_spec(o)->Ok_0;
        if r.len() > a.len() {
            let x = r.last();
            assert(r == a.push(x));
            assert forall|i: int, j: int| 0 <= i < j < r.len() implies (#[trigger] r[i]).0 != (
            #[trigger] r[j]).0 by {
                if j < a.len() {
                    assert(r[i] == a[i] && r[j] == a[j]);
                } else {
                    assert(r[i] == a[i]);
                    if a[i].0 == x.0 {
                        assert(has_index(a, x.0));
                    }
                }
            }
        }
    }
}

/// Every address that parses is well formed.
pub proof fn lemma_parse_wf(a: Seq<char>)
    requires
        parse_spec(a) is Ok,
    ensures
        address_wf(parse_spec(a)->Ok_0),
{
    let (name, list) = split_address(a)->0;
    let kvs = key_vals(list);
    let opts = decode_options(kvs)->Ok_0;
    lemma_decode_options_guids(kvs);
    lemma_value_of_guid(opts);
    let t = transport_spec(name, opts)->Ok_0;
    match t {
        TransportModel::Unixexec(u) => {
            lemma_argv_distinct(opts);
        },
        TransportModel::Other(o) => {
            lemma_index_of_bounds(a, ':');
            let keys = keys_of(kvs);
            lemma_first_duplicate_none(keys);
            lemma_decode_options_keys(kvs);
            lemma_key_vals_keys(list);
            assert forall|i: int, j: int| 0 <= i < j < opts.len() implies (#[trigger] opts[i]).0 != (
            #[trigger] opts[j]).0 by {
                assert(keys[i] == kvs[i].0 && keys[j] == kvs[j].0);
            }
            assert forall|i: int| 0 <= i < opts.len() implies no_char((#[trigger] opts[i]).0, ',')
                && no_char(opts[i].0, '=') by {
                assert(opts[i].0 == kvs[i].0);
            }
            lemma_kept(opts);
            assert forall|i: int| 0 <= i < name.len() implies name[i] != ':' by {
                assert(name[i] == a[i]);
            }
        },
        _ => {},
    }
}

/// Parsing the canonical text of a parsed address gives the same result as parsing
/// the address itself.
pub proof fn lemma_parse_format_parse(a: Seq<char>)
    requires
        parse_spec(a) is Ok,
    ensures
        parse_spec(format_spec(parse_spec(a)->Ok_0)) == parse_spec(a),
{
    lemma_parse_wf(a);
    lemma_format_parse(parse_spec(a)->Ok_0);
}

} // verus!
