//! `launchd:` transport: a socket published through an environment variable of launchd.
use vstd::prelude::*;
use vstd::utf8::*;

use super::{opt_text, text_value};
use crate::fmt::KeyValFmt;
use crate::keyval::RawOption;
use crate::options::{opt_views, DecodedOption, Opt};
use crate::percent::encode_spec;
use crate::{Error, ErrorModel};

verus! {

/// A `launchd:` address: the `env` option is required.
pub open spec fn launchd_spec(opts: Seq<DecodedOption>) -> Result<Seq<char>, ErrorModel> {
    match opt_text(opts, "env"@) {
        Err(e) => Err(e),
        Ok(None) => Err(ErrorModel::MissingKey("env"@)),
        Ok(Some(t)) => Ok(t),
    }
}

/// The options that write out a `launchd:` transport.
pub open spec fn launchd_options(env: Seq<char>) -> Seq<RawOption> {
    seq![("env"@, Some(encode_spec(encode_utf8(env))))]
}

/// `launchd:` transport.
#[derive(Clone, Debug, PartialEq, Eq)]
pub struct Launchd {
    env: String,
}

impl View for Launchd {
    type V = Seq<char>;

    closed spec fn view(&self) -> Seq<char> {
        self.env@
    }
}

impl Launchd {
    /// Environment variable.
    ///
    /// Environment variable used to get the path of the unix domain socket for the launchd created
    /// dbus-daemon.
    pub fn env(&self) -> (r: &str)
        ensures
            r@ == self@,
    {
        self.env.as_str()
    }

    /// This transport, holding its own data.
    pub fn into_owned(self) -> (r: Launchd)
        ensures
            r@ == self@,
    {
        self
    }

    /// Reads the transport from decoded options.
    pub fn for_options(opts: &Vec<Opt>) -> (r: Result<Launchd, Error>)
        ensures
            crate::result_view(r) == launchd_spec(opt_views(opts@)),
    {
        match text_value(opts, "env")? {
            Some(env) => Ok(Launchd { env }),
            None => Err(Error::MissingKey("env".to_owned())),
        }
    }

    /// Writes the transport's options.
    pub fn fmt_key_val(&self, kv: &mut KeyValFmt)
        requires
            old(kv).wf(),
        ensures
            final(kv).wf(),
            final(kv).fields() == old(kv).fields() + launchd_options(self@),
    {
        let ghost f = kv.fields();
        kv.add("env", Some(self.env.as_str().as_bytes()));
        assert(kv.fields() =~= f + launchd_options(self@));
    }
}

} // verus!
