//! `unix:` transport: a Unix domain socket.
use vstd::prelude::*;

use super::{bytes_are, present};
use crate::fmt::KeyValFmt;
use crate::keyval::RawOption;
use crate::percent::encode_spec;
use crate::options::{find_key, lookup, opt_views, DecodedOption, Opt};
use crate::{Error, ErrorModel};

verus! {

/// Where a Unix domain socket is found.
#[derive(Clone, Debug, PartialEq, Eq)]
pub enum UnixAddrKind {
    /// A path in the file system.
    Path(Vec<u8>),
    /// A directory in which to create a socket.
    Dir(Vec<u8>),
    /// A temporary directory in which to create a socket.
    Tmpdir(Vec<u8>),
    /// A name in the abstract socket namespace.
    Abstract(Vec<u8>),
    /// The per-user runtime directory.
    Runtime,
}

/// The model of a [`UnixAddrKind`].
pub enum UnixKindModel {
    Path(Seq<u8>),
    Dir(Seq<u8>),
    Tmpdir(Seq<u8>),
    Abstract(Seq<u8>),
    Runtime,
}

impl View for UnixAddrKind {
    type V = UnixKindModel;

    open spec fn view(&self) -> UnixKindModel {
        match self {
            UnixAddrKind::Path(p) => UnixKindModel::Path(p@),
            UnixAddrKind::Dir(p) => UnixKindModel::Dir(p@),
            UnixAddrKind::Tmpdir(p) => UnixKindModel::Tmpdir(p@),
            UnixAddrKind::Abstract(p) => UnixKindModel::Abstract(p@),
            UnixAddrKind::Runtime => UnixKindModel::Runtime,
        }
    }
}

/// `unix:` transport.
#[derive(Clone, Debug, PartialEq, Eq)]
pub struct Unix {
    kind: UnixAddrKind,
}

impl View for Unix {
    type V = UnixKindModel;

    closed spec fn view(&self) -> UnixKindModel {
        self.kind@
    }
}

/// How many of the keys that locate a socket are given.
pub open spec fn unix_key_count(opts: Seq<DecodedOption>) -> int {
    (if present(opts, "path"@) { 1int } else { 0 }) + (if present(opts, "dir"@) { 1int } else { 0 })
        + (if present(opts, "tmpdir"@) { 1int } else { 0 }) + (if present(opts, "abstract"@) {
        1int
    } else {
        0
    }) + (if present(opts, "runtime"@) { 1int } else { 0 })
}

/// The value of the single locating key `k`, which must have one.
pub open spec fn unix_value(opts: Seq<DecodedOption>, k: Seq<char>) -> Result<Seq<u8>, ErrorModel> {
    match lookup(opts, k) {
        Some(Some(v)) => Ok(v),
        _ => Err(ErrorModel::MissingValue(k)),
    }
}

/// A `unix:` address: exactly one of `path`, `dir`, `tmpdir`, `abstract` and `runtime`,
/// with a value, and `runtime` only as `yes`.
pub open spec fn unix_spec(opts: Seq<DecodedOption>) -> Result<UnixKindModel, ErrorModel> {
    if unix_key_count(opts) > 1 {
        Err(
            ErrorModel::Other(
                "invalid address, only one of `path` `dir` `tmpdir` `abstract` or `runtime` expected"@,
            ),
        )
    } else if present(opts, "path"@) {
        match unix_value(opts, "path"@) {
            Ok(v) => Ok(UnixKindModel::Path(v)),
            Err(e) => Err(e),
        }
    } else if present(opts, "dir"@) {
        match unix_value(opts, "dir"@) {
            Ok(v) => Ok(UnixKindModel::Dir(v)),
            Err(e) => Err(e),
        }
    } else if present(opts, "tmpdir"@) {
        match unix_value(opts, "tmpdir"@) {
            Ok(v) => Ok(UnixKindModel::Tmpdir(v)),
            Err(e) => Err(e),
        }
    } else if present(opts, "abstract"@) {
        match unix_value(opts, "abstract"@) {
            Ok(v) => Ok(UnixKindModel::Abstract(v)),
            Err(e) => Err(e),
        }
    } else if present(opts, "runtime"@) {
        match unix_value(opts, "runtime"@) {
            Ok(v) => if super::bytes_chars(v) == "yes"@ {
                Ok(UnixKindModel::Runtime)
            } else {
                Err(ErrorModel::InvalidValue("runtime"@))
            },
            Err(e) => Err(e),
        }
    } else {
        Err(ErrorModel::Other("invalid `unix:` address, missing required key"@))
    }
}

fn unix_value_exec(opts: &Vec<Opt>, i: usize, k: &str) -> (r: Result<Vec<u8>, Error>)
    requires
        i < opts.len(),
        lookup(opt_views(opts@), k@) == Some(opt_views(opts@)[i as int].1),
    ensures
        crate::result_view(r) == unix_value(opt_views(opts@), k@),
{
    match &opts[i].value {
        Some(v) => Ok(v.clone()),
        None => Err(Error::MissingValue(k.to_owned())),
    }
}

/// The options that write out a `unix:` transport.
pub open spec fn unix_options(m: UnixKindModel) -> Seq<RawOption> {
    match m {
        UnixKindModel::Path(p) => seq![("path"@, Some(encode_spec(p)))],
        UnixKindModel::Dir(p) => seq![("dir"@, Some(encode_spec(p)))],
        UnixKindModel::Tmpdir(p) => seq![("tmpdir"@, Some(encode_spec(p)))],
        UnixKindModel::Abstract(p) => seq![("abstract"@, Some(encode_spec(p)))],
        UnixKindModel::Runtime => seq![("runtime"@, Some(encode_spec(seq![121u8, 101u8, 115u8])))],
    }
}

impl Unix {
    /// Where the socket is found.
    pub fn kind(&self) -> (r: &UnixAddrKind)
        ensures
            r@ == self@,
    {
        &self.kind
    }

    /// Reads the transport from decoded options.
    pub fn for_options(opts: &Vec<Opt>) -> (r: Result<Unix, Error>)
        ensures
            crate::result_view(r) == unix_spec(opt_views(opts@)),
    {
        let path = find_key(opts, "path");
        let dir = find_key(opts, "dir");
        let tmpdir = find_key(opts, "tmpdir");
        let abs = find_key(opts, "abstract");
        let runtime = find_key(opts, "runtime");
        let count: u8 = (if path.is_some() { 1u8 } else { 0 }) + (if dir.is_some() { 1u8 } else { 0 })
            + (if tmpdir.is_some() { 1u8 } else { 0 }) + (if abs.is_some() { 1u8 } else { 0 }) + (
        if runtime.is_some() {
            1u8
        } else {
            0
        });
        if count > 1 {
            return Err(
                Error::Other(
                    "invalid address, only one of `path` `dir` `tmpdir` `abstract` or `runtime` expected".to_owned(),
                ),
            );
        }
        let kind = if let Some(i) = path {
            UnixAddrKind::Path(unix_value_exec(opts, i, "path")?)
        } else if let Some(i) = dir {
            UnixAddrKind::Dir(unix_value_exec(opts, i, "dir")?)
        } else if let Some(i) = tmpdir {
            UnixAddrKind::Tmpdir(unix_value_exec(opts, i, "tmpdir")?)
        } else if let Some(i) = abs {
            UnixAddrKind::Abstract(unix_value_exec(opts, i, "abstract")?)
        } else if let Some(i) = runtime {
            let v = unix_value_exec(opts, i, "runtime")?;
            if bytes_are(&v, "yes") {
                UnixAddrKind::Runtime
            } else {
                return Err(Error::InvalidValue("runtime".to_owned()));
            }
        } else {
            return Err(Error::Other("invalid `unix:` address, missing required key".to_owned()));
        };
        Ok(Unix { kind })
    }
}

impl Unix {
    /// Writes the transport's options.
    pub fn fmt_key_val(&self, kv: &mut KeyValFmt)
        requires
            old(kv).wf(),
        ensures
            final(kv).wf(),
            final(kv).fields() == old(kv).fields() + unix_options(self@),
    {
        let ghost f = kv.fields();
        match &self.kind {
            UnixAddrKind::Path(p) => kv.add("path", Some(p.as_slice())),
            UnixAddrKind::Dir(p) => kv.add("dir", Some(p.as_slice())),
            UnixAddrKind::Tmpdir(p) => kv.add("tmpdir", Some(p.as_slice())),
            UnixAddrKind::Abstract(p) => kv.add("abstract", Some(p.as_slice())),
            UnixAddrKind::Runtime => {
                let yes: Vec<u8> = vec![121u8, 101u8, 115u8];
                assert(yes@ =~= seq![121u8, 101u8, 115u8]);
                kv.add("runtime", Some(yes.as_slice()));
            },
        }
        assert(kv.fields() =~= f + unix_options(self@));
    }
}

} // verus!
