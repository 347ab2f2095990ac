//! The values of the runtime, by their kind.

use vstd::prelude::*;

verus! {

/// The kinds of value that the runtime tells apart.
#[derive(Clone, Copy, Debug, PartialEq, Eq, Structural)]
pub enum ValueType {
    Undefined,
    Null,
    Boolean,
    Number,
    String,
    Symbol,
    Object,
    Function,
    External,
    BigInt,
    Unknown,
}

/// A value of the runtime, of which only the kind is kept here.
#[derive(Clone, Copy, Debug, PartialEq, Eq, Structural)]
pub struct Value {
    pub value_type: ValueType,
}

/// A type of value that has a name and a kind in the runtime.
pub trait TypeName {
    /// The name that the runtime gives values of this type.
    spec fn spec_js_type_name() -> Seq<char>;

    /// The kind that values of this type are of.
    spec fn spec_value_type() -> ValueType;

    /// The name that the runtime gives values of this type.
    fn js_type_name() -> (r: &'static str)
        ensures
            r@ == Self::spec_js_type_name(),
    ;

    /// The kind that values of this type are of.
    fn value_type() -> (r: ValueType)
        ensures
            r == Self::spec_value_type(),
    ;
}

/// The value `undefined`.
#[derive(Clone, Copy, Debug, PartialEq, Eq, Structural)]
pub struct JsUndefined(pub Value);

impl TypeName for JsUndefined {
    open spec fn spec_js_type_name() -> Seq<char> {
        "undefined"@
    }

    open spec fn spec_value_type() -> ValueType {
        ValueType::Undefined
    }

    fn js_type_name() -> (r: &'static str) {
        "undefined"
    }

    fn value_type() -> (r: ValueType) {
        ValueType::Undefined
    }
}

} // verus!
