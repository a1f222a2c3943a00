use dbus_addr::address_list::{session_address, system_address, Platform};
use dbus_addr::{ToDBusAddrs, ToOwnedDBusAddrs};
use dbus_addr::transport::autolaunch::AutolaunchScope;
use dbus_addr::transport::tcp::TcpFamily;
use dbus_addr::transport::unix::UnixAddrKind;
use dbus_addr::transport::Transport;
use dbus_addr::{decode, encode, parse_list, DBusAddr, EncodingError, Error, OwnedDBusAddr};

fn parse(s: &str) -> Result<OwnedDBusAddr, Error> {
    OwnedDBusAddr::new(s)
}

#[test]
fn percent_round_trip_all_bytes() {
    let bytes: Vec<u8> = (0..=255u8).collect();
    let enc = encode(&bytes);
    assert_eq!(decode(&enc).unwrap(), bytes);
}

#[test]
fn percent_encode_exact() {
    assert_eq!(encode(b"a b/\x00\xff"), "a%20b/%00%FF");
    assert_eq!(encode(b"-_.\\*Az09"), "-_.\\*Az09");
    assert_eq!(encode(b""), "");
}

#[test]
fn percent_decode_exact() {
    assert_eq!(decode("a%20b%2f%2F").unwrap(), b"a b//".to_vec());
    assert_eq!(decode("").unwrap(), Vec::<u8>::new());
}

#[test]
fn percent_decode_errors() {
    assert_eq!(decode("%1"), Err(EncodingError::IncompleteSequence));
    assert_eq!(decode("%"), Err(EncodingError::IncompleteSequence));
    assert_eq!(decode("%1z"), Err(EncodingError::InvalidHex));
    assert_eq!(decode("a b"), Err(EncodingError::InvalidRawCharacter));
}

#[test]
fn duplicate_key() {
    assert_eq!(parse("foo:opt=1,opt=2"), Err(Error::DuplicateKey("opt".into())));
    assert_eq!(DBusAddr::new("foo:opt=1,opt=2"), Err(Error::DuplicateKey("opt".into())));
}

#[test]
fn duplicate_key_before_decoding() {
    assert_eq!(parse("foo:opt=%1,opt=2"), Err(Error::DuplicateKey("opt".into())));
}

#[test]
fn missing_transport() {
    assert_eq!(parse(""), Err(Error::MissingTransport));
    assert_eq!(parse("foo"), Err(Error::MissingTransport));
}

#[test]
fn guid_validity() {
    let ok = format!("foo:guid={}", "a".repeat(32));
    let a = parse(&ok).unwrap();
    assert_eq!(a.guid().unwrap().to_string(), "a".repeat(32));
    let short = format!("foo:guid={}", "a".repeat(31));
    assert_eq!(parse(&short), Err(Error::InvalidValue("guid".into())));
    let non_hex = format!("foo:guid={}", "g".repeat(32));
    assert_eq!(parse(&non_hex), Err(Error::InvalidValue("guid".into())));
    let upper = format!("foo:guid={}", "A".repeat(32));
    assert!(parse(&upper).is_ok());
}

#[test]
fn unix_exclusivity() {
    assert!(matches!(parse("unix:path=/a,abstract=b"), Err(Error::Other(_))));
    assert!(matches!(parse("unix:foo=bar"), Err(Error::Other(_))));
    assert_eq!(parse("unix:runtime=no"), Err(Error::InvalidValue("runtime".into())));
    assert_eq!(parse("unix:path"), Err(Error::MissingValue("path".into())));
}

#[test]
fn unix_kinds() {
    let a = parse("unix:path=/tmp/dbus.sock").unwrap();
    match a.transport() {
        Transport::Unix(u) => assert_eq!(u.kind(), &UnixAddrKind::Path(b"/tmp/dbus.sock".to_vec())),
        _ => panic!("not unix"),
    }
    let r = parse("unix:runtime=yes").unwrap();
    match r.transport() {
        Transport::Unix(u) => assert_eq!(u.kind(), &UnixAddrKind::Runtime),
        _ => panic!("not unix"),
    }
    let ab = parse("unix:abstract=%00x").unwrap();
    match ab.transport() {
        Transport::Unix(u) => assert_eq!(u.kind(), &UnixAddrKind::Abstract(vec![0, b'x'])),
        _ => panic!("not unix"),
    }
}

#[test]
fn tcp_family() {
    let a = parse("tcp:family=ipv4").unwrap();
    match a.transport() {
        Transport::Tcp(t) => assert_eq!(t.family(), Some(TcpFamily::IPv4)),
        _ => panic!("not tcp"),
    }
    assert_eq!(parse("tcp:family=ipv9"), Err(Error::UnknownTcpFamily("ipv9".into())));
}

#[test]
fn tcp_fields() {
    let a = parse("tcp:host=localhost,bind=%2a,port=4142,family=ipv6").unwrap();
    match a.transport() {
        Transport::Tcp(t) => {
            assert_eq!(t.host(), Some("localhost"));
            assert_eq!(t.bind(), Some("*"));
            assert_eq!(t.port(), Some(4142));
            assert_eq!(t.family(), Some(TcpFamily::IPv6));
        }
        _ => panic!("not tcp"),
    }
    assert_eq!(parse("tcp:port=65536"), Err(Error::InvalidValue("port".into())));
    assert_eq!(parse("tcp:port=x1"), Err(Error::InvalidValue("port".into())));
    assert!(parse("tcp:").is_ok());
}

#[test]
fn nonce_tcp_fields() {
    let a = parse("nonce-tcp:host=h,noncefile=/n").unwrap();
    match a.transport() {
        Transport::NonceTcp(t) => {
            assert_eq!(t.host(), Some("h"));
            assert_eq!(t.noncefile(), Some(&b"/n"[..]));
        }
        _ => panic!("not nonce-tcp"),
    }
}

#[test]
fn unixexec_argv() {
    let a = parse("unixexec:path=/bin/test,argv2=foo").unwrap();
    match a.transport() {
        Transport::Unixexec(u) => {
            assert_eq!(u.path(), b"/bin/test");
            assert!(u.argv().contains(&(2usize, "foo".to_string())));
        }
        _ => panic!("not unixexec"),
    }
    assert_eq!(parse("unixexec:argv1=x"), Err(Error::MissingKey("path".into())));
    assert_eq!(parse("unixexec:path=/a,argvx=1"), Err(Error::InvalidValue("argvx".into())));
}

#[test]
fn autolaunch_scope() {
    let a = parse("autolaunch:scope=*user").unwrap();
    match a.transport() {
        Transport::Autolaunch(t) => assert_eq!(t.scope(), Some(&AutolaunchScope::User)),
        _ => panic!("not autolaunch"),
    }
    let b = parse("autolaunch:scope=abc").unwrap();
    match b.transport() {
        Transport::Autolaunch(t) => {
            assert_eq!(t.scope(), Some(&AutolaunchScope::Other("abc".into())))
        }
        _ => panic!("not autolaunch"),
    }
}

#[test]
fn launchd_env() {
    let a = parse("launchd:env=FOO").unwrap();
    match a.transport() {
        Transport::Launchd(t) => assert_eq!(t.env(), "FOO"),
        _ => panic!("not launchd"),
    }
    assert_eq!(parse("launchd:"), Err(Error::MissingKey("env".into())));
}

#[test]
fn systemd_ignores_keys() {
    let a = parse("systemd:foo=bar").unwrap();
    assert!(matches!(a.transport(), Transport::Systemd(_)));
    assert_eq!(a.to_string(), "systemd:");
}

#[test]
fn vsock_fields() {
    let a = parse("vsock:cid=3,port=1024").unwrap();
    match a.transport() {
        Transport::Vsock(v) => {
            assert_eq!(v.cid(), Some(3));
            assert_eq!(v.port(), Some(1024));
        }
        _ => panic!("not vsock"),
    }
    assert_eq!(parse("vsock:cid=-1"), Err(Error::InvalidValue("cid".into())));
}

#[test]
fn encoding_errors() {
    assert_eq!(parse("foo:opt=%1"), Err(Error::Encoding(EncodingError::IncompleteSequence)));
    assert_eq!(parse("foo:opt=%1z"), Err(Error::Encoding(EncodingError::InvalidHex)));
    assert_eq!(
        parse("foo:opt=1\rz"),
        Err(Error::Encoding(EncodingError::InvalidRawCharacter))
    );
}

#[test]
fn format_canonical() {
    let a = parse("tcp:family=ipv4,host=local%68ost,guid=0123456789abcdef0123456789abcdef").unwrap();
    assert_eq!(
        a.to_string(),
        "tcp:host=localhost,family=ipv4,guid=0123456789abcdef0123456789abcdef"
    );
    let u = parse("unix:path=/tmp/a%20b").unwrap();
    assert_eq!(u.to_string(), "unix:path=/tmp/a%20b");
    let o = parse("foo:b=1,a").unwrap();
    assert_eq!(o.to_string(), "foo:b=1,a");
}

#[test]
fn parse_format_parse() {
    for s in [
        "unix:path=/tmp/dbus.sock",
        "unix:abstract=%00%ff",
        "tcp:host=h,port=0,family=ipv6",
        "nonce-tcp:noncefile=/n,port=%2b12",
        "unixexec:path=/bin/sh,argv0=sh,argv1=-c",
        "autolaunch:scope=*install-path",
        "launchd:env=X",
        "vsock:port=007",
        "foo:x=%41,,y",
        "foo:,",
    ] {
        let a = parse(s).unwrap();
        assert_eq!(parse(&a.to_string()).unwrap(), a);
    }
}

#[test]
fn borrowed_view() {
    let a = DBusAddr::new("unix:path=/tmp/x,guid=0123456789abcdef0123456789abcdef").unwrap();
    assert_eq!(a.as_str(), "unix:path=/tmp/x,guid=0123456789abcdef0123456789abcdef");
    assert!(matches!(a.transport(), Ok(Transport::Unix(_))));
    assert_eq!(a.guid().unwrap().unwrap().to_string(), "0123456789abcdef0123456789abcdef");
    assert_eq!(a.get_string("path"), Some(Ok("/tmp/x".to_string())));
    assert_eq!(a.get_string("nope"), None);
}

#[test]
fn address_list() {
    let l = parse_list("unix:path=/a;tcp:port=x;foo");
    assert_eq!(l.len(), 3);
    assert!(l[0].is_ok());
    assert_eq!(l[1], Err(Error::InvalidValue("port".into())));
    assert_eq!(l[2], Err(Error::MissingTransport));
}

#[test]
fn invalid_utf8_text() {
    assert_eq!(parse("tcp:host=%ff"), Err(Error::Encoding(EncodingError::InvalidUtf8)));
    assert_eq!(parse("launchd:env=%c3%a9").unwrap().transport(), parse("launchd:env=%C3%A9").unwrap().transport());
}

#[test]
fn argv_index_forms() {
    let a = parse("unixexec:path=/a,argv007=x").unwrap();
    match a.transport() {
        Transport::Unixexec(u) => assert_eq!(u.argv(), &vec![(7usize, "x".to_string())]),
        _ => panic!("not unixexec"),
    }
    assert_eq!(a.to_string(), "unixexec:path=/a,argv7=x");
    assert_eq!(
        parse("unixexec:path=/a,argv1=x,argv01=y"),
        Err(Error::DuplicateKey("argv01".into()))
    );
    assert_eq!(parse("unixexec:path=/a,argv=x"), Err(Error::InvalidValue("argv".into())));
    let b = parse("unixexec:path=/a,argv10=x,argv0=y").unwrap();
    assert_eq!(b.to_string(), "unixexec:path=/a,argv10=x,argv0=y");
}

#[test]
fn error_messages() {
    assert_eq!(Error::DuplicateKey("opt".into()).to_string(), "Duplicate key: `opt`");
    assert_eq!(Error::MissingTransport.to_string(), "Missing transport in address");
    assert_eq!(
        Error::Encoding(EncodingError::InvalidHex).to_string(),
        "Encoding error: Invalid hexadecimal character in percent-encoded sequence"
    );
}

#[test]
fn default_addresses() {
    assert_eq!(session_address(Platform::Unix, None, None, 1000), "unix:path=/run/user/1000/bus");
    assert_eq!(
        session_address(Platform::Unix, None, Some("/tmp/r".into()), 1000),
        "unix:path=/tmp/r/bus"
    );
    assert_eq!(session_address(Platform::Unix, Some("tcp:".into()), None, 0), "tcp:");
    assert_eq!(
        session_address(Platform::Windows, None, None, 0),
        "autolaunch:scope=*user;autolaunch:"
    );
    assert_eq!(
        session_address(Platform::MacOs, None, None, 0),
        "launchd:env=DBUS_LAUNCHD_SESSION_BUS_SOCKET"
    );
    assert_eq!(system_address(Platform::Unix, None), "unix:path=/var/run/dbus/system_bus_socket");
    assert_eq!(system_address(Platform::Windows, None), "autolaunch:");
    assert_eq!(
        system_address(Platform::MacOs, None),
        "launchd:env=DBUS_LAUNCHD_SESSION_BUS_SOCKET"
    );
    assert_eq!(parse_list(&session_address(Platform::Windows, None, None, 0)).len(), 2);
}

#[test]
fn to_addrs_traits() {
    let v = "unix:path=/a".to_dbus_addrs();
    assert_eq!(v.len(), 1);
    assert_eq!(v[0].as_ref().unwrap().as_str(), "unix:path=/a");
    assert_eq!("foo".to_dbus_addrs(), vec![Err(Error::MissingTransport)]);
    let s = String::from("tcp:port=1");
    assert!(s.to_dbus_addrs()[0].is_ok());
    let list = vec![DBusAddr::new("tcp:"), Err(Error::MissingTransport)];
    assert_eq!(list.to_dbus_addrs(), list);
    let o = "unix:path=/a".to_owned_dbus_addrs();
    assert_eq!(o, vec![OwnedDBusAddr::new("unix:path=/a")]);
}

#[test]
fn empty_option_list() {
    let a = parse("foo:").unwrap();
    assert_eq!(a.to_string(), "foo:");
    let b = parse("foo:a,").unwrap();
    assert_eq!(b.to_string(), "foo:a");
}

#[test]
fn key_val_fmt_add() {
    let mut kv = dbus_addr::fmt::KeyValFmt::new();
    kv.add("a", None);
    kv.add("b", Some(b"x y"));
    kv.add("c", None);
    kv.push_option(&vec!['d'], None);
    assert_eq!(kv.into_string(), "b=x%20y,d");
}
