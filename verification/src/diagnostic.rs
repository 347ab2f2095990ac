//! Diagnostics: what went wrong in a declaration, and where.

use crate::span::Span;
use vstd::prelude::*;

verus! {

/// Everything that can be wrong with a declaration or its directives.
#[derive(Clone, Copy, Debug, PartialEq, Eq, Structural)]
pub enum ErrorKind {
    /// A directive list has something else where a name or a bare
    /// identifier has to stand.
    ExpectedIdentifier,
    /// A directive that takes a value is not followed by `=`.
    ExpectedEquals,
    /// Two directives are not separated by a comma.
    ExpectedComma,
    /// A directive that takes a path is not followed by one.
    ExpectedPath,
    /// A directive that takes an expression is not followed by one.
    ExpectedExpression,
    /// The name of a directive is not in the table.
    UnknownAttribute,
    /// A directive was given that nothing looked at.
    UnusedAttribute,
    /// The declaration is not a function, record, enumeration or method
    /// block.
    UnsupportedItem,
    /// An enumeration variant carries fields.
    StructuredEnum,
    /// An enumeration has no variants.
    EmptyEnum,
    /// A free function takes `self`.
    SelfArgument,
    /// A method takes `self` by value.
    SelfByValue,
    /// A signature has more than one receiver.
    DuplicateReceiver,
    /// The type a method block is for has generic arguments in its path.
    PathWithTypeParameters,
    /// The type a method block is for has an empty path.
    EmptyPath,
    /// The type a method block is for is not a plain path.
    UnsupportedSelfType,
    /// A method block holds something that is not a method.
    UnsupportedImplItem,
    /// A `where` clause holds a predicate that is not a bound on a type.
    UnsupportedWherePredicate,
    /// A generic parameter is not a type parameter.
    UnsupportedGenericParam,
    /// A lifetime bound other than `'static`.
    NonStaticLifetime,
    /// A callback trait is written with angle brackets.
    CallbackAngleBrackets,
    /// A callback returns something that is not spelled `Result`.
    CallbackReturnNotResult,
    /// A callback's `Result` has no angle-bracketed arguments.
    CallbackReturnArguments,
    /// The first argument of a callback's `Result` is not a type.
    UnsupportedGenericType,
    /// A method is not public.
    NonPublicMethod,
    /// An enumeration is not public.
    NonPublicEnum,
    /// A discriminant does not fit a signed 32-bit integer.
    DiscriminantOutOfRange,
    /// A discriminant is not an integer literal, negated or not.
    DiscriminantNotLiteral,
    /// A constructor is declared for a record that was not registered.
    RecordNotRegistered,
    /// A constructor names the record otherwise than its registration.
    ExternalNameMismatch,
    /// A name that has to be converted to another case cannot be cut into
    /// its words.
    NameNotConvertible,
    /// The name under which the runtime would see a declaration is empty.
    EmptyName,
}

impl ErrorKind {
    /// The message for an error of this kind.
    pub open spec fn message_text(self) -> Seq<char> {
        match self {
            ErrorKind::ExpectedIdentifier => "expected an identifier"@,
            ErrorKind::ExpectedEquals => "expected `=`"@,
            ErrorKind::ExpectedComma => "expected `,`"@,
            ErrorKind::ExpectedPath => "expected a path"@,
            ErrorKind::ExpectedExpression => "expected an expression"@,
            ErrorKind::UnknownAttribute => "unknown attribute"@,
            ErrorKind::UnusedAttribute => "unused attribute"@,
            ErrorKind::UnsupportedItem =>
                "only a function, a struct, an enum or an impl can carry these attributes"@,
            ErrorKind::StructuredEnum => "structured enums are not supported"@,
            ErrorKind::EmptyEnum => "an empty enum cannot be exported"@,
            ErrorKind::SelfArgument => "arguments cannot be `self`"@,
            ErrorKind::SelfByValue =>
                "native methods cannot move values out; try `&self` or `&mut self` instead"@,
            ErrorKind::DuplicateReceiver => "a method takes `self` only once"@,
            ErrorKind::PathWithTypeParameters =>
                "paths with type parameters are not supported yet"@,
            ErrorKind::EmptyPath => "empty paths are not supported"@,
            ErrorKind::UnsupportedSelfType => "unsupported self type in impl"@,
            ErrorKind::UnsupportedImplItem => "unsupported impl item"@,
            ErrorKind::UnsupportedWherePredicate => "unsupported where clause predicate"@,
            ErrorKind::UnsupportedGenericParam => "unsupported generic parameter"@,
            ErrorKind::NonStaticLifetime => "only 'static is supported in lifetime bounds here"@,
            ErrorKind::CallbackAngleBrackets => "use parentheses for a callback trait"@,
            ErrorKind::CallbackReturnNotResult =>
                "the return type of a callback can only be `Result`"@,
            ErrorKind::CallbackReturnArguments =>
                "the `Result` of a callback takes its type in angle brackets"@,
            ErrorKind::UnsupportedGenericType => "unsupported generic type"@,
            ErrorKind::NonPublicMethod => "only pub methods are supported"@,
            ErrorKind::NonPublicEnum => "only public enums are allowed"@,
            ErrorKind::DiscriminantOutOfRange =>
                "only signed 32-bit literal discriminants are supported: the value does not fit"@,
            ErrorKind::DiscriminantNotLiteral =>
                "only signed 32-bit literal discriminants are supported"@,
            ErrorKind::RecordNotRegistered =>
                "record not registered: the struct has to be compiled before its impl"@,
            ErrorKind::ExternalNameMismatch =>
                "the constructor and the struct disagree on the external name"@,
            ErrorKind::NameNotConvertible =>
                "the name cannot be converted to another case; give the external name"@,
            ErrorKind::EmptyName =>
                "the external name is empty"@,
        }
    }

    /// The message for an error of this kind.
    pub fn message(self) -> (r: String)
        ensures
            r@ == self.message_text(),
    {
        let text = match self {
            ErrorKind::ExpectedIdentifier => "expected an identifier",
            ErrorKind::ExpectedEquals => "expected `=`",
            ErrorKind::ExpectedComma => "expected `,`",
            ErrorKind::ExpectedPath => "expected a path",
            ErrorKind::ExpectedExpression => "expected an expression",
            ErrorKind::UnknownAttribute => "unknown attribute",
            ErrorKind::UnusedAttribute => "unused attribute",
            ErrorKind::UnsupportedItem =>
                "only a function, a struct, an enum or an impl can carry these attributes",
            ErrorKind::StructuredEnum => "structured enums are not supported",
            ErrorKind::EmptyEnum => "an empty enum cannot be exported",
            ErrorKind::SelfArgument => "arguments cannot be `self`",
            ErrorKind::SelfByValue =>
                "native methods cannot move values out; try `&self` or `&mut self` instead",
            ErrorKind::DuplicateReceiver => "a method takes `self` only once",
            ErrorKind::PathWithTypeParameters => "paths with type parameters are not supported yet",
            ErrorKind::EmptyPath => "empty paths are not supported",
            ErrorKind::UnsupportedSelfType => "unsupported self type in impl",
            ErrorKind::UnsupportedImplItem => "unsupported impl item",
            ErrorKind::UnsupportedWherePredicate => "unsupported where clause predicate",
            ErrorKind::UnsupportedGenericParam => "unsupported generic parameter",
            ErrorKind::NonStaticLifetime => "only 'static is supported in lifetime bounds here",
            ErrorKind::CallbackAngleBrackets => "use parentheses for a callback trait",
            ErrorKind::CallbackReturnNotResult =>
                "the return type of a callback can only be `Result`",
            ErrorKind::CallbackReturnArguments =>
                "the `Result` of a callback takes its type in angle brackets",
            ErrorKind::UnsupportedGenericType => "unsupported generic type",
            ErrorKind::NonPublicMethod => "only pub methods are supported",
            ErrorKind::NonPublicEnum => "only public enums are allowed",
            ErrorKind::DiscriminantOutOfRange =>
                "only signed 32-bit literal discriminants are supported: the value does not fit",
            ErrorKind::DiscriminantNotLiteral =>
                "only signed 32-bit literal discriminants are supported",
            ErrorKind::RecordNotRegistered =>
                "record not registered: the struct has to be compiled before its impl",
            ErrorKind::ExternalNameMismatch =>
                "the constructor and the struct disagree on the external name",
            ErrorKind::NameNotConvertible =>
                "the name cannot be converted to another case; give the external name",
            ErrorKind::EmptyName =>
                "the external name is empty",
        };
        text.to_owned()
    }
}

/// One error, with the place it is about.
#[derive(Clone, Copy, Debug, PartialEq, Eq, Structural)]
pub struct SpannedError {
    pub span: Span,
    pub kind: ErrorKind,
}

/// A failure to compile one declaration: the errors found in it, in the
/// order in which they were found.
#[derive(Debug, PartialEq, Eq)]
pub struct Diagnostic {
    pub errors: Vec<SpannedError>,
}

/// What the builders return.
pub type BindgenResult<T> = Result<T, Diagnostic>;

impl View for Diagnostic {
    type V = Seq<SpannedError>;

    open spec fn view(&self) -> Seq<SpannedError> {
        self.errors@
    }
}

/// The errors of all of `ds`, in order.
pub open spec fn merged(ds: Seq<Diagnostic>) -> Seq<SpannedError>
    decreases ds.len(),
{
    if ds.len() == 0 {
        Seq::empty()
    } else {
        merged(ds.drop_last()) + ds.last()@
    }
}

impl Diagnostic {
    /// A diagnostic is well formed when it holds at least one error.
    pub open spec fn wf(&self) -> bool {
        self@.len() > 0
    }

    /// The diagnostic that holds the one error `kind` at `span`.
    pub fn spanned_error(span: Span, kind: ErrorKind) -> (r: Diagnostic)
        ensures
            r@ == seq![SpannedError { span, kind }],
            r.wf(),
    {
        let mut errors: Vec<SpannedError> = Vec::new();
        errors.push(SpannedError { span, kind });
        Diagnostic { errors }
    }

    /// The failure that `errors` amount to: none where there are no errors,
    /// else one diagnostic that holds them all.
    pub fn from_errors(errors: Vec<SpannedError>) -> (r: BindgenResult<()>)
        ensures
            r is Ok <==> errors@.len() == 0,
            r matches Err(d) ==> d@ == errors@ && d.wf(),
    {
        if errors.len() == 0 {
            Ok(())
        } else {
            Err(Diagnostic { errors })
        }
    }

    /// Merges the diagnostics that were gathered into one failure, or into
    /// none where they hold no error.
    pub fn from_vec(diagnostics: Vec<Diagnostic>) -> (r: BindgenResult<()>)
        ensures
            r is Ok <==> merged(diagnostics@).len() == 0,
            r matches Err(d) ==> d@ == merged(diagnostics@) && d.wf(),
    {
        let mut errors: Vec<SpannedError> = Vec::new();
        let mut i: usize = 0;
        while i < diagnostics.len()
            invariant
                i <= diagnostics@.len(),
                errors@ == merged(diagnostics@.take(i as int)),
            decreases diagnostics@.len() - i,
        {
            let d = &diagnostics[i];
            let mut j: usize = 0;
            let ghost before = errors@;
            while j < d.errors.len()
                invariant
                    j <= d.errors@.len(),
                    errors@ == before + d.errors@.take(j as int),
                decreases d.errors@.len() - j,
            {
                errors.push(d.errors[j]);
                j = j + 1;
                assert(d.errors@.take(j as int) =~= d.errors@.take(j as int - 1).push(
                    d.errors@[j as int - 1],
                ));
                assert(errors@ =~= before + d.errors@.take(j as int));
            }
            i = i + 1;
            proof {
                assert(d.errors@.take(j as int) =~= d.errors@);
                assert(diagnostics@.take(i as int).drop_last() =~= diagnostics@.take(i as int - 1));
            }
        }
        proof {
            assert(diagnostics@.take(i as int) =~= diagnostics@);
        }
        Diagnostic::from_errors(errors)
    }

    /// Whether an error of the kind `kind` is among the errors.
    pub fn has(&self, kind: ErrorKind) -> (r: bool)
        ensures
            r == exists|i: int| 0 <= i < self@.len() && (#[trigger] self@[i]).kind == kind,
    {
        let mut i: usize = 0;
        while i < self.errors.len()
            invariant
                i <= self@.len(),
                forall|k: int| 0 <= k < i ==> (#[trigger] self@[k]).kind != kind,
            decreases self@.len() - i,
        {
            if self.errors[i].kind == kind {
                return true;
            }
            i = i + 1;
        }
        false
    }
}

} // verus!
