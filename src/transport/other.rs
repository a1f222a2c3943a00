//! Transports this library does not know, kept as they were given.
use vstd::prelude::*;

use crate::fmt::KeyValFmt;
use crate::keyval::{chars_are, RawOption};
use crate::options::{opt_views, DecodedOption, Opt};
use crate::percent::encode_spec;

verus! {

/// Whether an unknown transport keeps an option: the `guid` belongs to the address,
/// and a bare empty key holds nothing.
pub open spec fn kept(o: DecodedOption) -> bool {
    o.0 != "guid"@ && !(o.0.len() == 0 && o.1 is None)
}

/// The options an unknown transport keeps, in order.
pub open spec fn kept_options(opts: Seq<DecodedOption>) -> Seq<DecodedOption>
    decreases opts.len(),
{
    if opts.len() == 0 {
        Seq::empty()
    } else if kept(opts.last()) {
        kept_options(opts.drop_last()).push(opts.last())
    } else {
        kept_options(opts.drop_last())
    }
}

/// One kept option written out: its key and its encoded value.
pub open spec fn written(o: DecodedOption) -> RawOption {
    (
        o.0,
        match o.1 {
            Some(b) => Some(encode_spec(b)),
            None => None,
        },
    )
}

/// The model of an unknown transport: its name and its options.
pub struct OtherModel {
    pub name: Seq<char>,
    pub options: Seq<DecodedOption>,
}

/// The options that write out an unknown transport.
pub open spec fn other_options(m: OtherModel) -> Seq<RawOption> {
    m.options.map_values(|o: DecodedOption| written(o))
}

/// A transport this library does not know.
#[derive(Clone, Debug, PartialEq, Eq)]
pub struct OtherTransport {
    name: String,
    options: Vec<Opt>,
}

impl View for OtherTransport {
    type V = OtherModel;

    closed spec fn view(&self) -> OtherModel {
        OtherModel { name: self.name@, options: opt_views(self.options@) }
    }
}

impl Clone for Opt {
    fn clone(&self) -> (r: Opt)
        ensures
            r@ == self@,
    {
        let key = self.key.clone();
        let value = match &self.value {
            Some(v) => Some(v.clone()),
            None => None,
        };
        Opt { key, value }
    }
}

impl OtherTransport {
    /// The transport's name.
    pub fn name(&self) -> (r: &str)
        ensures
            r@ == self@.name,
    {
        self.name.as_str()
    }

    /// Keeps the options of an unknown transport.
    pub fn for_options(name: String, opts: &Vec<Opt>) -> (r: OtherTransport)
        ensures
            r@ == (OtherModel { name: name@, options: kept_options(opt_views(opts@)) }),
    {
        let ghost all = opt_views(opts@);
        let n = opts.len();
        let mut options: Vec<Opt> = Vec::new();
        assert(all.subrange(0, 0) =~= Seq::<DecodedOption>::empty());
        assert(opt_views(options@) =~= Seq::<DecodedOption>::empty());
        for i in 0..n
            invariant
                n == opts.len(),
                all == opt_views(opts@),
                opt_views(options@) == kept_options(all.subrange(0, i as int)),
        {
            assert(all.subrange(0, i + 1).drop_last() =~= all.subrange(0, i as int));
            assert(all.subrange(0, i + 1).last() == opts@[i as int]@);
            let o = &opts[i];
            let bare_empty = o.key.len() == 0 && o.value.is_none();
            if !chars_are(&o.key, "guid") && !bare_empty {
                let ghost before = options@;
                options.push(o.clone());
                assert(opt_views(options@) =~= opt_views(before).push(opts@[i as int]@));
            }
        }
        assert(all.subrange(0, n as int) =~= all);
        OtherTransport { name, options }
    }

    /// Writes the transport's options.
    pub fn fmt_key_val(&self, kv: &mut KeyValFmt)
        requires
            old(kv).wf(),
        ensures
            final(kv).wf(),
            final(kv).fields() == old(kv).fields() + other_options(self@),
    {
        let ghost f = kv.fields();
        let ghost all = opt_views(self.options@);
        let n = self.options.len();
        assert(f =~= f + all.subrange(0, 0).map_values(|o: DecodedOption| written(o)));
        for i in 0..n
            invariant
                n == self.options.len(),
                all == opt_views(self.options@),
                kv.wf(),
                kv.fields() == f + all.subrange(0, i as int).map_values(
                    |o: DecodedOption| written(o),
                ),
        {
            let o = &self.options[i];
            match &o.value {
                Some(v) => kv.push_option(&o.key, Some(v.as_slice())),
                None => kv.push_option(&o.key, None),
            }
            assert(all.subrange(0, i + 1).map_values(|o: DecodedOption| written(o))
                =~= all.subrange(0, i as int).map_values(|o: DecodedOption| written(o)).push(
                written(all[i as int]),
            ));
            assert(kv.fields() =~= f + all.subrange(0, i + 1).map_values(
                |o: DecodedOption| written(o),
            ));
        }
        assert(all.subrange(0, n as int) =~= all);
    }
}

} // verus!
