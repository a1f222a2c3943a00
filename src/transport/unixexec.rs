//! `unixexec:` transport: the standard streams of a spawned process.
use vstd::prelude::*;
use vstd::utf8::*;

use super::{text_of, to_text};
use crate::fmt::KeyValFmt;
use crate::keyval::{chars_are, slice_chars, RawOption};
use crate::number::{dec_digits, parse_unsigned, parse_unsigned_exec, push_decimal};
use crate::options::{opt_views, value_of, DecodedOption, Opt};
use crate::percent::encode_spec;
use crate::text::push_str;
use crate::{Error, ErrorModel};

verus! {

/// An argument of the process: its index and its text.
pub type ArgModel = (usize, Seq<char>);

/// The model of a [`Unixexec`] transport.
pub struct UnixexecModel {
    pub path: Seq<u8>,
    pub argv: Seq<ArgModel>,
}

/// Whether an option is an `argvN` option with a value.
pub open spec fn is_argv(o: DecodedOption) -> bool {
    o.0.len() >= 4 && o.0.subrange(0, 4) == "argv"@ && o.1 is Some
}

/// What one option adds to the arguments: nothing, one argument, or a fault.
pub open spec fn argv_item(o: DecodedOption) -> Result<Option<ArgModel>, ErrorModel> {
    if is_argv(o) {
        match parse_unsigned(o.0.subrange(4, o.0.len() as int), usize::MAX as nat) {
            None => Err(ErrorModel::InvalidValue(o.0)),
            Some(n) => match text_of(o.1->0) {
                Err(e) => Err(e),
                Ok(t) => Ok(Some((n as usize, t))),
            },
        }
    } else {
        Ok(None)
    }
}

/// Whether some argument has index `n`.
pub open spec fn has_index(a: Seq<ArgModel>, n: usize) -> bool {
    exists|i: int| 0 <= i < a.len() && (#[trigger] a[i]).0 == n
}

/// The arguments that the options give, in order; an index given twice is a
/// repeated key.
pub open spec fn argv_spec(opts: Seq<DecodedOption>) -> Result<Seq<ArgModel>, ErrorModel>
    decreases opts.len(),
{
    if opts.len() == 0 {
        Ok(Seq::empty())
    } else {
        match argv_spec(opts.drop_last()) {
            Err(e) => Err(e),
            Ok(a) => match argv_item(opts.last()) {
                Err(e) => Err(e),
                Ok(None) => Ok(a),
                Ok(Some(x)) => if has_index(a, x.0) {
                    Err(ErrorModel::DuplicateKey(opts.last().0))
                } else {
                    Ok(a.push(x))
                },
            },
        }
    }
}

/// A `unixexec:` address: `path` is required; each `argvN` gives argument `N`, a
/// non-negative decimal number.
pub open spec fn unixexec_spec(opts: Seq<DecodedOption>) -> Result<UnixexecModel, ErrorModel> {
    match argv_spec(opts) {
        Err(e) => Err(e),
        Ok(argv) => match value_of(opts, "path"@) {
            None => Err(ErrorModel::MissingKey("path"@)),
            Some(path) => Ok(UnixexecModel { path, argv }),
        },
    }
}

/// The options that write out the arguments.
pub open spec fn argv_options(argv: Seq<ArgModel>) -> Seq<RawOption>
    decreases argv.len(),
{
    if argv.len() == 0 {
        Seq::empty()
    } else {
        argv_options(argv.drop_last()).push(
            (
                "argv"@ + dec_digits(argv.last().0 as nat),
                Some(encode_spec(encode_utf8(argv.last().1))),
            ),
        )
    }
}

/// The options that write out a `unixexec:` transport.
pub open spec fn unixexec_options(m: UnixexecModel) -> Seq<RawOption> {
    seq![("path"@, Some(encode_spec(m.path)))] + argv_options(m.argv)
}

proof fn lemma_argv_sticks(opts: Seq<DecodedOption>, i: int)
    requires
        0 <= i <= opts.len(),
        argv_spec(opts.subrange(0, i)) is Err,
    ensures
        argv_spec(opts) == argv_spec(opts.subrange(0, i)),
    decreases opts.len() - i,
{
    if i < opts.len() {
        assert(opts.subrange(0, i + 1).drop_last() =~= opts.subrange(0, i));
        lemma_argv_sticks(opts, i + 1);
    } else {
        assert(opts.subrange(0, i) =~= opts);
    }
}

/// `unixexec:` transport.
#[derive(Clone, Debug, PartialEq, Eq)]
pub struct Unixexec {
    path: Vec<u8>,
    argv: Vec<(usize, String)>,
}

pub open spec fn args_view(v: Seq<(usize, String)>) -> Seq<ArgModel> {
    v.map_values(|a: (usize, String)| (a.0, a.1@))
}

impl View for Unixexec {
    type V = UnixexecModel;

    closed spec fn view(&self) -> UnixexecModel {
        UnixexecModel { path: self.path@, argv: args_view(self.argv@) }
    }
}

fn argv_item_exec(o: &Opt) -> (r: Result<Option<(usize, String)>, Error>)
    ensures
        match r {
            Ok(Some(a)) => argv_item(o@) == Ok::<Option<ArgModel>, ErrorModel>(Some((a.0, a.1@))),
            Ok(None) => argv_item(o@) == Ok::<Option<ArgModel>, ErrorModel>(None),
            Err(e) => argv_item(o@) == Err::<Option<ArgModel>, ErrorModel>(e@),
        },
{
    let n = o.key.len();
    if n < 4 || !chars_are(&slice_chars(&o.key, 0, 4), "argv") {
        return Ok(None);
    }
    match &o.value {
        None => Ok(None),
        Some(v) => match parse_unsigned_exec(&slice_chars(&o.key, 4, n), usize::MAX as u64) {
            None => Err(Error::InvalidValue(crate::text::string_of(&o.key))),
            Some(i) => match to_text(v.clone()) {
                Err(e) => Err(e),
                Ok(t) => Ok(Some((i as usize, t))),
            },
        },
    }
}

fn index_taken(argv: &Vec<(usize, String)>, n: usize) -> (r: bool)
    ensures
        r == has_index(args_view(argv@), n),
{
    let len = argv.len();
    for i in 0..len
        invariant
            len == argv.len(),
            forall|k: int| 0 <= k < i ==> (#[trigger] args_view(argv@)[k]).0 != n,
    {
        if argv[i].0 == n {
            assert(args_view(argv@)[i as int].0 == n);
            return true;
        }
    }
    false
}

impl Unixexec {
    /// Path of the binary to execute.
    pub fn path(&self) -> (r: &[u8])
        ensures
            r@ == self@.path,
    {
        self.path.as_slice()
    }

    /// The arguments, each with its index, in the order the address gives them.
    pub fn argv(&self) -> (r: &Vec<(usize, String)>)
        ensures
            args_view(r@) == self@.argv,
    {
        &self.argv
    }

    /// Reads the transport from decoded options.
    pub fn for_options(opts: &Vec<Opt>) -> (r: Result<Unixexec, Error>)
        ensures
            crate::result_view(r) == unixexec_spec(opt_views(opts@)),
    {
        let ghost all = opt_views(opts@);
        let n = opts.len();
        let mut argv: Vec<(usize, String)> = Vec::new();
        assert(all.subrange(0, 0) =~= Seq::<DecodedOption>::empty());
        assert(args_view(argv@) =~= Seq::<ArgModel>::empty());
        for i in 0..n
            invariant
                n == opts.len(),
                all == opt_views(opts@),
                argv_spec(all.subrange(0, i as int)) == Ok::<Seq<ArgModel>, ErrorModel>(
                    args_view(argv@),
                ),
        {
            assert(all.subrange(0, i + 1).drop_last() =~= all.subrange(0, i as int));
            assert(all.subrange(0, i + 1).last() == opts@[i as int]@);
            match argv_item_exec(&opts[i]) {
                Err(e) => {
                    proof {
                        lemma_argv_sticks(all, i + 1);
                    }
                    return Err(e);
                },
                Ok(None) => {},
                Ok(Some(a)) => {
                    if index_taken(&argv, a.0) {
                        proof {
                            lemma_argv_sticks(all, i + 1);
                        }
                        return Err(Error::DuplicateKey(crate::text::string_of(&opts[i].key)));
                    }
                    let ghost before = argv@;
                    argv.push(a);
                    assert(args_view(argv@) =~= args_view(before).push((a.0, a.1@)));
                },
            }
        }
        assert(all.subrange(0, n as int) =~= all);
        match super::value_bytes(opts, "path") {
            None => Err(Error::MissingKey("path".to_owned())),
            Some(path) => Ok(Unixexec { path, argv }),
        }
    }

    /// Writes the transport's options.
    pub fn fmt_key_val(&self, kv: &mut KeyValFmt)
        requires
            old(kv).wf(),
        ensures
            final(kv).wf(),
            final(kv).fields() == old(kv).fields() + unixexec_options(self@),
    {
        let ghost f = kv.fields();
        kv.add("path", Some(self.path.as_slice()));
        let ghost g = kv.fields();
        let ghost args = args_view(self.argv@);
        let n = self.argv.len();
        assert(args.subrange(0, 0) =~= Seq::<ArgModel>::empty());
        assert(g =~= g + argv_options(args.subrange(0, 0)));
        for i in 0..n
            invariant
                n == self.argv.len(),
                args == args_view(self.argv@),
                kv.wf(),
                kv.fields() == g + argv_options(args.subrange(0, i as int)),
        {
            let (index, arg) = &self.argv[i];
            let mut key = String::new();
            push_str(&mut key, "argv");
            push_decimal(&mut key, *index as u64);
            kv.add(key.as_str(), Some(arg.as_str().as_bytes()));
            assert(args.subrange(0, i + 1).drop_last() =~= args.subrange(0, i as int));
            assert(args.subrange(0, i + 1).last() == (*index, arg@));
            assert(kv.fields() =~= g + argv_options(args.subrange(0, i + 1)));
        }
        assert(args.subrange(0, n as int) =~= args);
        assert(kv.fields() =~= f + unixexec_options(self@));
    }
}

} // verus!
