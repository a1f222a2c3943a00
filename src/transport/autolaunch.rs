//! `autolaunch:` transport: a bus found or started by the platform.
use vstd::prelude::*;
use vstd::utf8::*;

use super::{opt_text, text_value};
use crate::fmt::KeyValFmt;
use crate::keyval::{chars_are, RawOption};
use crate::options::{opt_views, DecodedOption, Opt};
use crate::percent::encode_spec;
use crate::text::chars_of;
use crate::{Error, ErrorModel};

verus! {

/// The scope of an autolaunched bus.
#[derive(Clone, Debug, PartialEq, Eq)]
pub enum AutolaunchScope {
    /// Limit session bus to dbus installation path.
    InstallPath,
    /// Limit session bus to the recent user.
    User,
    /// Any other scope, kept as its text.
    Other(String),
}

/// The model of an [`AutolaunchScope`].
pub enum ScopeModel {
    InstallPath,
    User,
    Other(Seq<char>),
}

impl View for AutolaunchScope {
    type V = ScopeModel;

    open spec fn view(&self) -> ScopeModel {
        match self {
            AutolaunchScope::InstallPath => ScopeModel::InstallPath,
            AutolaunchScope::User => ScopeModel::User,
            AutolaunchScope::Other(s) => ScopeModel::Other(s@),
        }
    }
}

/// The scope that a `scope` value names; text that names none is kept as it is.
pub open spec fn scope_of(t: Seq<char>) -> ScopeModel {
    if t == "*install-path"@ {
        ScopeModel::InstallPath
    } else if t == "*user"@ {
        ScopeModel::User
    } else {
        ScopeModel::Other(t)
    }
}

/// The text of a scope.
pub open spec fn scope_text(s: ScopeModel) -> Seq<char> {
    match s {
        ScopeModel::InstallPath => "*install-path"@,
        ScopeModel::User => "*user"@,
        ScopeModel::Other(t) => t,
    }
}

/// An `autolaunch:` address: an optional `scope`.
pub open spec fn autolaunch_spec(opts: Seq<DecodedOption>) -> Result<Option<ScopeModel>, ErrorModel> {
    match opt_text(opts, "scope"@) {
        Err(e) => Err(e),
        Ok(None) => Ok(None),
        Ok(Some(t)) => Ok(Some(scope_of(t))),
    }
}

/// The options that write out an `autolaunch:` transport.
pub open spec fn autolaunch_options(m: Option<ScopeModel>) -> Seq<RawOption> {
    match m {
        Some(s) => seq![("scope"@, Some(encode_spec(encode_utf8(scope_text(s)))))],
        None => Seq::empty(),
    }
}

impl AutolaunchScope {
    /// The scope that a `scope` value names.
    pub fn from_text(t: String) -> (r: AutolaunchScope)
        ensures
            r@ == scope_of(t@),
    {
        let c = chars_of(t.as_str());
        if chars_are(&c, "*install-path") {
            AutolaunchScope::InstallPath
        } else if chars_are(&c, "*user") {
            AutolaunchScope::User
        } else {
            AutolaunchScope::Other(t)
        }
    }

    /// The text of the scope.
    pub fn as_str(&self) -> (r: &str)
        ensures
            r@ == scope_text(self@),
    {
        match self {
            AutolaunchScope::InstallPath => "*install-path",
            AutolaunchScope::User => "*user",
            AutolaunchScope::Other(s) => s.as_str(),
        }
    }
}

/// `autolaunch:` transport.
#[derive(Clone, Debug, PartialEq, Eq)]
pub struct Autolaunch {
    scope: Option<AutolaunchScope>,
}

impl View for Autolaunch {
    type V = Option<ScopeModel>;

    closed spec fn view(&self) -> Option<ScopeModel> {
        match self.scope {
            Some(s) => Some(s@),
            None => None,
        }
    }
}

impl Autolaunch {
    /// The scope, if one is given.
    pub fn scope(&self) -> (r: Option<&AutolaunchScope>)
        ensures
            match r {
                Some(s) => self@ == Some(s@),
                None => self@ is None,
            },
    {
        match &self.scope {
            Some(s) => Some(s),
            None => None,
        }
    }

    /// Reads the transport from decoded options.
    pub fn for_options(opts: &Vec<Opt>) -> (r: Result<Autolaunch, Error>)
        ensures
            crate::result_view(r) == autolaunch_spec(opt_views(opts@)),
    {
        match text_value(opts, "scope")? {
            None => Ok(Autolaunch { scope: None }),
            Some(t) => Ok(Autolaunch { scope: Some(AutolaunchScope::from_text(t)) }),
        }
    }

    /// Writes the transport's options.
    pub fn fmt_key_val(&self, kv: &mut KeyValFmt)
        requires
            old(kv).wf(),
        ensures
            final(kv).wf(),
            final(kv).fields() == old(kv).fields() + autolaunch_options(self@),
    {
        let ghost f = kv.fields();
        match &self.scope {
            Some(s) => kv.add("scope", Some(s.as_str().as_bytes())),
            None => {},
        }
        assert(kv.fields() =~= f + autolaunch_options(self@));
    }
}

} // verus!
