//! The registry of records: which records have been compiled, and under
//! which name the runtime sees each. A method block that declares a
//! constructor is checked against it.

use crate::attrs::{BindgenAttrs, Shape};
use crate::diagnostic::{BindgenResult, Diagnostic, ErrorKind, SpannedError};
use crate::syntax::Ident;
use crate::text::str_eq;
use vstd::prelude::*;

verus! {

/// The records that have been compiled, in the order of their compilation:
/// each with its name in the source and the name that the runtime sees.
#[derive(Debug, PartialEq, Eq)]
pub struct Registry {
    pub records: Vec<(String, String)>,
}

impl View for Registry {
    type V = Seq<(Seq<char>, Seq<char>)>;

    open spec fn view(&self) -> Seq<(Seq<char>, Seq<char>)> {
        Seq::new(self.records@.len(), |i: int| (self.records@[i].0@, self.records@[i].1@))
    }
}

/// The external name under which `name` was registered last, if it was
/// registered.
pub open spec fn registered(records: Seq<(Seq<char>, Seq<char>)>, name: Seq<char>) -> Option<
    Seq<char>,
>
    decreases records.len(),
{
    if records.len() == 0 {
        None
    } else if records.last().0 == name {
        Some(records.last().1)
    } else {
        registered(records.drop_last(), name)
    }
}

/// What checking a constructor against the registry gives: the registered
/// external name of the record `ident`, unless the record is not registered
/// or `js_name`, the name that the constructor's directives give, differs
/// from it.
pub open spec fn reconciled(
    records: Seq<(Seq<char>, Seq<char>)>,
    ident: Ident,
    js_name: Option<(Seq<char>, crate::span::Span)>,
) -> Result<Seq<char>, SpannedError> {
    match registered(records, ident.text@) {
        None => Err(SpannedError { span: ident.span, kind: ErrorKind::RecordNotRegistered }),
        Some(external) => match js_name {
            Some((given, span)) => if given == external {
                Ok(external)
            } else {
                Err(SpannedError { span, kind: ErrorKind::ExternalNameMismatch })
            },
            None => Ok(external),
        },
    }
}

impl Registry {
    /// A registry without records.
    pub fn new() -> (r: Registry)
        ensures
            r@ == Seq::<(Seq<char>, Seq<char>)>::empty(),
    {
        let r = Registry { records: Vec::new() };
        assert(r@ =~= Seq::empty());
        r
    }

    /// The external name under which `name` was registered last.
    pub fn lookup(&self, name: &str) -> (r: Option<String>)
        ensures
            r is Some <==> registered(self@, name@) is Some,
            r matches Some(s) ==> registered(self@, name@) == Some(s@),
    {
        let mut i: usize = self.records.len();
        proof {
            assert(self@.take(i as int) =~= self@);
        }
        while i > 0
            invariant
                i <= self.records@.len(),
                registered(self@, name@) == registered(self@.take(i as int), name@),
            decreases i,
        {
            proof {
                assert(self@.take(i as int).drop_last() =~= self@.take(i - 1));
                assert(self@.take(i as int).last() == self@[i - 1]);
            }
            i = i - 1;
            if str_eq(self.records[i].0.as_str(), name) {
                return Some(self.records[i].1.clone());
            }
        }
        None
    }

    /// Registers the record `ident` under the external name `js_name`.
    pub fn record_struct(&mut self, ident: &Ident, js_name: String)
        ensures
            final(self)@ == old(self)@.push((ident.text@, js_name@)),
    {
        let ghost before = self@;
        let ghost external = js_name@;
        self.records.push((ident.text.clone(), js_name));
        assert(self@ =~= before.push((ident.text@, external)));
    }

    /// Checks a method block that declares a constructor against the
    /// registry: the record `ident` has to be registered, and where `opts`,
    /// the constructor's directives, name the record, they have to name it as
    /// its registration does. Returns the registered external name.
    pub fn check_recorded_struct_for_impl(&self, ident: &Ident, opts: &mut BindgenAttrs) -> (r:
        BindgenResult<String>)
        ensures
            final(opts)@ == old(opts)@.touch("js_name"@, Shape::Str),
            match reconciled(self@, *ident, old(opts)@.js_name()) {
                Ok(name) => r matches Ok(s) && s@ == name,
                Err(e) => r matches Err(d) && d@ == seq![e],
            },
    {
        let given = opts.js_name();
        let external = match self.lookup(ident.text.as_str()) {
            Some(external) => external,
            None => {
                return Err(Diagnostic::spanned_error(ident.span, ErrorKind::RecordNotRegistered));
            },
        };
        match given {
            Some((name, span)) => {
                if !str_eq(name.as_str(), external.as_str()) {
                    return Err(Diagnostic::spanned_error(span, ErrorKind::ExternalNameMismatch));
                }
            },
            None => {},
        }
        Ok(external)
    }
}

} // verus!
