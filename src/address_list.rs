//! Lists of alternative addresses, joined with `;`.
use vstd::prelude::*;

use crate::address::{parse_spec, AddressModel, DBusAddr};
use crate::keyval::{find_char, index_of, lemma_index_of_bounds, slice_chars};
use crate::owned_address::OwnedDBusAddr;
use crate::number::push_decimal;
use crate::text::{chars_of, push_str, string_of};
use crate::{Error, ErrorModel};

verus! {

/// The addresses of a list, split at each `;`; a `;` at the very end opens none.
pub open spec fn segments(s: Seq<char>) -> Seq<Seq<char>>
    decreases s.len(),
{
    if s.len() == 0 {
        Seq::empty()
    } else {
        let i = index_of(s, ';');
        if i < 0 || i >= s.len() {
            seq![s]
        } else {
            seq![s.subrange(0, i)] + segments(s.subrange(i + 1, s.len() as int))
        }
    }
}

pub open spec fn string_views(v: Seq<String>) -> Seq<Seq<char>> {
    v.map_values(|s: String| s@)
}

/// The addresses of a list, in order.
pub fn address_texts(s: &str) -> (r: Vec<String>)
    ensures
        string_views(r@) == segments(s@),
{
    let c = chars_of(s);
    let n = c.len();
    let mut out: Vec<String> = Vec::new();
    let mut pos: usize = 0;
    assert(c@.subrange(0, n as int) =~= c@);
    assert(string_views(out@) + segments(c@) =~= segments(c@));
    while pos < n
        invariant
            pos <= n,
            n == c.len(),
            c@ == s@,
            segments(s@) == string_views(out@) + segments(c@.subrange(pos as int, n as int)),
        decreases n - pos,
    {
        let ghost rest = c@.subrange(pos as int, n as int);
        let i = find_char(&c, pos, ';');
        proof {
            lemma_index_of_bounds(rest, ';');
        }
        let piece = string_of(&slice_chars(&c, pos, i));
        assert(rest.subrange(0, i - pos) =~= c@.subrange(pos as int, i as int));
        let ghost before = out@;
        out.push(piece);
        assert(string_views(out@) =~= string_views(before) + seq![piece@]);
        if i == n {
            assert(rest =~= c@.subrange(pos as int, i as int));
            assert(segments(c@.subrange(n as int, n as int)) =~= Seq::<Seq<char>>::empty());
            assert(string_views(before) + segments(rest) =~= string_views(out@) + segments(
                c@.subrange(n as int, n as int),
            ));
            pos = n;
        } else {
            assert(rest.subrange(i - pos + 1, rest.len() as int) =~= c@.subrange(i + 1, n as int));
            assert(string_views(before) + segments(rest) =~= string_views(out@) + segments(
                c@.subrange(i + 1, n as int),
            ));
            pos = i + 1;
        }
    }
    assert(segments(c@.subrange(n as int, n as int)) =~= Seq::<Seq<char>>::empty());
    assert(string_views(out@) + Seq::<Seq<char>>::empty() =~= string_views(out@));
    out
}

pub open spec fn parse_result(r: Result<OwnedDBusAddr, Error>) -> Result<AddressModel, ErrorModel> {
    match r {
        Ok(a) => Ok(a@),
        Err(e) => Err(e@),
    }
}

/// Parses each address of a list, in order.
pub fn parse_list(s: &str) -> (r: Vec<Result<OwnedDBusAddr, Error>>)
    ensures
        r@.len() == segments(s@).len(),
        forall|i: int| 0 <= i < r@.len() ==> parse_result(#[trigger] r@[i]) == parse_spec(segments(s@)[i]),
{
    let texts = address_texts(s);
    let n = texts.len();
    let mut out: Vec<Result<OwnedDBusAddr, Error>> = Vec::new();
    for i in 0..n
        invariant
            n == texts.len(),
            string_views(texts@) == segments(s@),
            out@.len() == i,
            forall|k: int| 0 <= k < i ==> parse_result(#[trigger] out@[k]) == parse_spec(segments(s@)[k]),
    {
        assert(texts@[i as int]@ == segments(s@)[i as int]);
        out.push(OwnedDBusAddr::new(texts[i].as_str()));
    }
    out
}

/// What validating an address gives: its text, or why it is invalid.
pub open spec fn validated(s: Seq<char>) -> Result<Seq<char>, ErrorModel> {
    match parse_spec(s) {
        Ok(_) => Ok(s),
        Err(e) => Err(e),
    }
}

pub open spec fn addr_result(r: Result<DBusAddr, Error>) -> Result<Seq<char>, ErrorModel> {
    match r {
        Ok(a) => Ok(a@),
        Err(e) => Err(e@),
    }
}

pub open spec fn addr_results(v: Seq<Result<DBusAddr, Error>>) -> Seq<Result<Seq<char>, ErrorModel>> {
    v.map_values(|r: Result<DBusAddr, Error>| addr_result(r))
}

pub open spec fn parse_results(v: Seq<Result<OwnedDBusAddr, Error>>) -> Seq<
    Result<AddressModel, ErrorModel>,
> {
    v.map_values(|r: Result<OwnedDBusAddr, Error>| parse_result(r))
}

fn one_addr(r: Result<DBusAddr, Error>) -> (v: Vec<Result<DBusAddr, Error>>)
    ensures
        addr_results(v@) == seq![addr_result(r)],
{
    let ghost g = addr_result(r);
    let mut v: Vec<Result<DBusAddr, Error>> = Vec::new();
    v.push(r);
    assert(addr_results(v@) =~= seq![g]);
    v
}

/// Something that stands for one or more addresses.
pub trait ToDBusAddrs {
    /// What each address validates to.
    spec fn spec_dbus_addrs(&self) -> Seq<Result<Seq<char>, ErrorModel>>;

    /// Each address, validated.
    fn to_dbus_addrs(&self) -> (r: Vec<Result<DBusAddr, Error>>)
        ensures
            addr_results(r@) == self.spec_dbus_addrs(),
    ;
}

impl ToDBusAddrs for DBusAddr {
    open spec fn spec_dbus_addrs(&self) -> Seq<Result<Seq<char>, ErrorModel>> {
        seq![Ok(self@)]
    }

    fn to_dbus_addrs(&self) -> (r: Vec<Result<DBusAddr, Error>>) {
        one_addr(Ok(self.clone()))
    }
}

impl ToDBusAddrs for str {
    open spec fn spec_dbus_addrs(&self) -> Seq<Result<Seq<char>, ErrorModel>> {
        seq![validated(self@)]
    }

    fn to_dbus_addrs(&self) -> (r: Vec<Result<DBusAddr, Error>>) {
        one_addr(DBusAddr::new(self))
    }
}

impl ToDBusAddrs for String {
    open spec fn spec_dbus_addrs(&self) -> Seq<Result<Seq<char>, ErrorModel>> {
        seq![validated(self@)]
    }

    fn to_dbus_addrs(&self) -> (r: Vec<Result<DBusAddr, Error>>) {
        one_addr(DBusAddr::new(self.as_str()))
    }
}

impl ToDBusAddrs for Vec<Result<DBusAddr, Error>> {
    open spec fn spec_dbus_addrs(&self) -> Seq<Result<Seq<char>, ErrorModel>> {
        addr_results(self@)
    }

    fn to_dbus_addrs(&self) -> (r: Vec<Result<DBusAddr, Error>>) {
        let n = self.len();
        let mut out: Vec<Result<DBusAddr, Error>> = Vec::new();
        for i in 0..n
            invariant
                n == self.len(),
                addr_results(out@) == addr_results(self@).subrange(0, i as int),
        {
            let item = match &self[i] {
                Ok(a) => {
                    let c = a.clone();
                    assert(c@ == a@);
                    Ok(c)
                },
                Err(e) => {
                    let c = e.clone();
                    assert(c@ == e@);
                    Err(c)
                },
            };
            assert(addr_result(item) == addr_result(self@[i as int]));
            let ghost before = out@;
            out.push(item);
            assert(addr_results(out@) =~= addr_results(before).push(addr_result(item)));
            assert(addr_results(out@) =~= addr_results(self@).subrange(0, i + 1));
        }
        assert(addr_results(self@).subrange(0, n as int) =~= addr_results(self@));
        out
    }
}

/// Something that stands for one or more addresses, parsed into their parts.
pub trait ToOwnedDBusAddrs {
    /// What each address parses to.
    spec fn spec_owned_dbus_addrs(&self) -> Seq<Result<AddressModel, ErrorModel>>;

    /// Each address, parsed.
    fn to_owned_dbus_addrs(&self) -> (r: Vec<Result<OwnedDBusAddr, Error>>)
        ensures
            parse_results(r@) == self.spec_owned_dbus_addrs(),
    ;
}

impl ToOwnedDBusAddrs for str {
    open spec fn spec_owned_dbus_addrs(&self) -> Seq<Result<AddressModel, ErrorModel>> {
        seq![parse_spec(self@)]
    }

    fn to_owned_dbus_addrs(&self) -> (r: Vec<Result<OwnedDBusAddr, Error>>) {
        let x = OwnedDBusAddr::new(self);
        let ghost g = parse_result(x);
        let mut v: Vec<Result<OwnedDBusAddr, Error>> = Vec::new();
        v.push(x);
        assert(parse_results(v@) =~= seq![g]);
        v
    }
}

/// The kind of system whose default bus addresses apply.
#[derive(Clone, Copy, Debug, PartialEq, Eq, Structural)]
pub enum Platform {
    /// Unix systems other than macOS.
    Unix,
    /// Windows.
    Windows,
    /// macOS.
    MacOs,
}

/// The session bus address list: the configured one where there is one, else the
/// platform's default. On Unix that is the `bus` socket in the user's runtime
/// directory, `/run/user/<euid>` where none is given.
pub fn session_address(
    platform: Platform,
    configured: Option<String>,
    runtime_dir: Option<String>,
    euid: u32,
) -> (r: String)
    ensures
        configured is Some ==> r@ == configured->0@,
        configured is None && platform == Platform::Windows ==> r@
            == "autolaunch:scope=*user;autolaunch:"@,
        configured is None && platform == Platform::MacOs ==> r@
            == "launchd:env=DBUS_LAUNCHD_SESSION_BUS_SOCKET"@,
        configured is None && platform == Platform::Unix && runtime_dir is Some ==> r@
            == "unix:path="@ + runtime_dir->0@ + "/bus"@,
        configured is None && platform == Platform::Unix && runtime_dir is None ==> r@
            == "unix:path=/run/user/"@ + crate::number::dec_digits(euid as nat) + "/bus"@,
{
    match configured {
        Some(a) => a,
        None => match platform {
            Platform::Windows => "autolaunch:scope=*user;autolaunch:".to_owned(),
            Platform::MacOs => "launchd:env=DBUS_LAUNCHD_SESSION_BUS_SOCKET".to_owned(),
            Platform::Unix => {
                let mut s = String::new();
                push_str(&mut s, "unix:path=");
                match runtime_dir {
                    Some(d) => push_str(&mut s, d.as_str()),
                    None => {
                        push_str(&mut s, "/run/user/");
                        push_decimal(&mut s, euid as u64);
                    },
                }
                push_str(&mut s, "/bus");
                proof {
                    assert("unix:path=/run/user/"@ =~= "unix:path="@ + "/run/user/"@) by {
                        reveal_strlit("unix:path=/run/user/");
                        reveal_strlit("unix:path=");
                        reveal_strlit("/run/user/");
                    }
                }
                s
            },
        },
    }
}

/// The system bus address list: the configured one where there is one, else the
/// platform's default.
pub fn system_address(platform: Platform, configured: Option<String>) -> (r: String)
    ensures
        configured is Some ==> r@ == configured->0@,
        configured is None && platform == Platform::Unix ==> r@
            == "unix:path=/var/run/dbus/system_bus_socket"@,
        configured is None && platform == Platform::Windows ==> r@ == "autolaunch:"@,
        configured is None && platform == Platform::MacOs ==> r@
            == "launchd:env=DBUS_LAUNCHD_SESSION_BUS_SOCKET"@,
{
    match configured {
        Some(a) => a,
        None => match platform {
            Platform::Unix => "unix:path=/var/run/dbus/system_bus_socket".to_owned(),
            Platform::Windows => "autolaunch:".to_owned(),
            Platform::MacOs => "launchd:env=DBUS_LAUNCHD_SESSION_BUS_SOCKET".to_owned(),
        },
    }
}

} // verus!
