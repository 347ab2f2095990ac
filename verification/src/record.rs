//! Compiling a record: its public fields become properties, each with a
//! getter and a setter unless its directives say otherwise.

use crate::ast::{
    field_views, texts, Member, MemberView, Napi, NapiItem, NapiItemView, NapiStruct,
    NapiStructField, NapiStructFieldView, NapiStructView, NapiView,
};
use crate::attrs::{default_table_view, BindgenAttrs, BindgenAttrsView, Shape};
use crate::grammar::parse_list;
use crate::casing::{check_name, convert_case, converted_case, external_name, Case};
use crate::diagnostic::{BindgenResult, Diagnostic, ErrorKind, SpannedError};
use crate::parser::{ConvertToAST, Outcome};
use crate::registry::Registry;
use crate::syntax::{DirectiveList, Field, ItemStruct, Visibility};
use crate::text::{decimal_text, usize_to_string};
use vstd::prelude::*;

verus! {

/// The directive set of a member with the directive list `directives`, none
/// of its directives looked at yet: an empty set where the member has no
/// list.
pub open spec fn member_opts(directives: Option<DirectiveList>) -> Result<
    BindgenAttrsView,
    SpannedError,
> {
    match directives {
        None => Ok(BindgenAttrsView { exists: false, attrs: Seq::empty(), used: Seq::empty() }),
        Some(list) => match parse_list(default_table_view(), list.tokens@, 0, list.span) {
            Ok(attrs) => Ok(
                BindgenAttrsView {
                    exists: true,
                    attrs,
                    used: Seq::new(attrs.len(), |i: int| false),
                },
            ),
            Err(e) => Err(e),
        },
    }
}

/// The property that the field `field`, which stands at `index` among the
/// fields of its record, becomes under its directives `opts`. The property
/// is named as the override of the name says, or else as the field is, a
/// positional field by its index. A hidden field has neither getter nor
/// setter, whatever else is said of it; a read-only field has no setter.
pub open spec fn field_ast(
    field: Field,
    index: nat,
    opts: BindgenAttrsView,
) -> NapiStructFieldView {
    NapiStructFieldView {
        name: match field.ident {
            Some(ident) => MemberView::Named(ident.text@),
            None => MemberView::Unnamed(index),
        },
        js_name: match opts.js_name() {
            Some((name, _)) => name,
            None => match field.ident {
                Some(ident) => ident.text@,
                None => decimal_text(index),
            },
        },
        ty: field.ty.text@,
        getter: opts.skip() is None,
        setter: opts.skip() is None && opts.readonly() is None,
    }
}

/// The property that the field `field` becomes, unless its external name
/// is empty.
pub open spec fn field_checked(field: Field, index: nat, opts: BindgenAttrsView) -> Result<
    NapiStructFieldView,
    SpannedError,
> {
    if field_ast(field, index, opts).js_name.len() == 0 {
        Err(SpannedError { span: field.ty.span, kind: ErrorKind::EmptyName })
    } else {
        Ok(field_ast(field, index, opts))
    }
}

/// The properties that the fields `fields` become: those of the public
/// fields, in order. The first field whose directives do not parse, or
/// whose external name is empty, ends the compilation with its error.
pub open spec fn fields_ast(fields: Seq<Field>) -> Result<Seq<NapiStructFieldView>, SpannedError>
    decreases fields.len(),
{
    if fields.len() == 0 {
        Ok(Seq::empty())
    } else {
        match fields_ast(fields.drop_last()) {
            Err(e) => Err(e),
            Ok(before) => if fields.last().vis != Visibility::Public {
                Ok(before)
            } else {
                match member_opts(fields.last().directives) {
                    Err(e) => Err(e),
                    Ok(opts) => match field_checked(
                        fields.last(),
                        (fields.len() - 1) as nat,
                        opts,
                    ) {
                        Err(e) => Err(e),
                        Ok(field) => Ok(before.push(field)),
                    },
                }
            },
        }
    }
}

/// Whether one of the public fields among `fields` is positional.
pub open spec fn has_positional(fields: Seq<Field>) -> bool
    decreases fields.len(),
{
    if fields.len() == 0 {
        false
    } else {
        has_positional(fields.drop_last()) || (fields.last().vis == Visibility::Public
            && fields.last().ident is None)
    }
}

/// The external name of the record named `ident` under the directives
/// `opts`: the override of the name, or else the name in Pascal case.
/// `None` where a name that has to be converted cannot be converted.
pub open spec fn record_name(ident: Seq<char>, opts: BindgenAttrsView) -> Option<Seq<char>> {
    match opts.js_name() {
        Some((name, _)) => Some(name),
        None => converted_case(ident, Case::Pascal),
    }
}

/// What the record `item` compiles to under the directives `opts`.
pub open spec fn struct_ast(item: ItemStruct, opts: BindgenAttrsView) -> Result<
    NapiView,
    Seq<SpannedError>,
> {
    match external_name(record_name(item.ident.text@, opts)) {
        Err(kind) => Err(seq![SpannedError { span: item.ident.span, kind }]),
        Ok(js_name) => match fields_ast(item.fields@) {
            Err(e) => Err(seq![e]),
            Ok(fields) => Ok(
                NapiView {
                    comments: Seq::empty(),
                    item: NapiItemView::Struct(
                        NapiStructView {
                            name: item.ident.text@,
                            js_name,
                            vis: item.vis,
                            fields,
                            is_tuple: has_positional(item.fields@),
                            gen_default_ctor: opts.constructor() is Some,
                        },
                    ),
                },
            ),
        },
    }
}

/// The directive set after the record `item` was compiled under it: the
/// override of the name is always looked at, the directive for a
/// constructor when the record compiles.
pub open spec fn struct_opts(item: ItemStruct, opts: BindgenAttrsView) -> BindgenAttrsView {
    if struct_ast(item, opts) is Ok {
        opts.touch("js_name"@, Shape::Str).touch("constructor"@, Shape::Flag)
    } else {
        opts.touch("js_name"@, Shape::Str)
    }
}

/// The registry after the record `item` was compiled: a record that
/// compiles is registered under its external name.
pub open spec fn struct_registry(
    item: ItemStruct,
    opts: BindgenAttrsView,
    registry: Seq<(Seq<char>, Seq<char>)>,
) -> Seq<(Seq<char>, Seq<char>)> {
    if struct_ast(item, opts) is Ok {
        registry.push((item.ident.text@, record_name(item.ident.text@, opts)->0))
    } else {
        registry
    }
}

/// Compiles one public field.
fn field_from_decl(field: &Field, index: usize) -> (r: BindgenResult<NapiStructField>)
    ensures
        match member_opts(field.directives) {
            Ok(opts) => match field_checked(*field, index as nat, opts) {
                Ok(view) => r matches Ok(f) && f@ == view,
                Err(e) => r matches Err(d) && d@ == seq![e],
            },
            Err(e) => r matches Err(d) && d@ == seq![e],
        },
{
    let mut field_opts = match BindgenAttrs::find(&field.directives) {
        Ok(opts) => opts,
        Err(d) => {
            return Err(d);
        },
    };
    let given = field_opts.js_name();
    let name = match &field.ident {
        Some(ident) => Member::Named(ident.text.clone()),
        None => Member::Unnamed(index),
    };
    let js_name = match given {
        Some((js_name, _)) => js_name,
        None => match &field.ident {
            Some(ident) => ident.text.clone(),
            None => usize_to_string(index),
        },
    };
    if js_name.as_str().is_empty() {
        return Err(Diagnostic::spanned_error(field.ty.span, ErrorKind::EmptyName));
    }
    let ignored = field_opts.skip().is_some();
    let readonly = field_opts.readonly().is_some();
    Ok(
        NapiStructField {
            name,
            js_name,
            ty: field.ty.text.clone(),
            getter: !ignored,
            setter: !(ignored || readonly),
        },
    )
}

impl ConvertToAST for ItemStruct {
    open spec fn converted(
        &self,
        opts: BindgenAttrsView,
        registry: Seq<(Seq<char>, Seq<char>)>,
    ) -> Outcome {
        Outcome {
            result: struct_ast(*self, opts),
            opts: struct_opts(*self, opts),
            registry: struct_registry(*self, opts, registry),
        }
    }

    fn convert_to_ast(&self, opts: &mut BindgenAttrs, registry: &mut Registry) -> (r:
        BindgenResult<Napi>) {
        let ghost start = self.converted(old(opts)@, old(registry)@);
        let given = opts.js_name();
        let name = match given {
            Some((js_name, _)) => Some(js_name),
            None => convert_case(self.ident.text.as_str(), Case::Pascal),
        };
        let js_name = match check_name(name, self.ident.span) {
            Ok(js_name) => js_name,
            Err(d) => {
                return Err(d);
            },
        };
        let mut fields: Vec<NapiStructField> = Vec::new();
        let mut is_tuple = false;
        let mut i: usize = 0;
        proof {
            assert(self.fields@.take(0) =~= Seq::empty());
            assert(field_views(fields@) =~= Seq::empty());
        }
        while i < self.fields.len()
            invariant
                i <= self.fields@.len(),
                fields_ast(self.fields@.take(i as int)) == Ok::<
                    Seq<NapiStructFieldView>,
                    SpannedError,
                >(field_views(fields@)),
                is_tuple == has_positional(self.fields@.take(i as int)),
                start == self.converted(old(opts)@, old(registry)@),
                record_name(self.ident.text@, old(opts)@) == Some(js_name@),
                js_name@.len() > 0,
                opts@ == old(opts)@.touch("js_name"@, Shape::Str),
                registry@ == old(registry)@,
            decreases self.fields@.len() - i,
        {
            let field = &self.fields[i];
            proof {
                assert(self.fields@.take(i + 1).drop_last() =~= self.fields@.take(i as int));
                assert(self.fields@.take(i + 1).last() == self.fields@[i as int]);
            }
            match field.vis {
                Visibility::Public => {
                    let compiled = match field_from_decl(field, i) {
                        Ok(compiled) => compiled,
                        Err(d) => {
                            proof {
                                lemma_fields_error(self.fields@, i as int + 1);
                            }
                            return Err(d);
                        },
                    };
                    if field.ident.is_none() {
                        is_tuple = true;
                    }
                    let ghost before = field_views(fields@);
                    let ghost view = compiled@;
                    fields.push(compiled);
                    proof {
                        assert(field_views(fields@) =~= before.push(view));
                    }
                },
                _ => {},
            }
            i = i + 1;
        }
        proof {
            assert(self.fields@.take(i as int) =~= self.fields@);
            lemma_fields_are_named(self.fields@);
        }
        registry.record_struct(&self.ident, js_name.clone());
        let gen_default_ctor = opts.constructor().is_some();
        let comments: Vec<String> = Vec::new();
        assert(texts(comments@) =~= Seq::empty());
        Ok(
            Napi {
                comments,
                item: NapiItem::Struct(
                    NapiStruct {
                        name: self.ident.text.clone(),
                        js_name,
                        vis: self.vis,
                        fields,
                        is_tuple,
                        gen_default_ctor,
                    },
                ),
            },
        )
    }
}

/// An error among the first `n` fields is the error of all the fields.
proof fn lemma_fields_error(fields: Seq<Field>, n: int)
    requires
        0 <= n <= fields.len(),
        fields_ast(fields.take(n)) is Err,
    ensures
        fields_ast(fields) == fields_ast(fields.take(n)),
    decreases fields.len() - n,
{
    if n < fields.len() {
        assert(fields.take(n + 1).drop_last() =~= fields.take(n));
        lemma_fields_error(fields, n + 1);
    } else {
        assert(fields.take(n) =~= fields);
    }
}

proof fn lemma_fields_are_named(fields: Seq<Field>)
    ensures
        fields_ast(fields) matches Ok(v) ==> forall|i: int|
            0 <= i < v.len() ==> (#[trigger] v[i]).js_name.len() > 0,
    decreases fields.len(),
{
    if fields.len() > 0 {
        lemma_fields_are_named(fields.drop_last());
    }
}

/// The external names of a record and of its properties are never empty.
pub proof fn lemma_record_is_named(item: ItemStruct, opts: BindgenAttrsView)
    ensures
        struct_ast(item, opts) matches Ok(napi) ==> napi.item.well_named(),
{
    lemma_fields_are_named(item.fields@);
}

/// A field that is marked as hidden has neither getter nor setter, whether
/// or not it is marked as read-only too.
pub proof fn lemma_hidden_field_has_no_accessors(field: Field, index: nat, opts: BindgenAttrsView)
    requires
        opts.skip() is Some,
    ensures
        !field_ast(field, index, opts).getter,
        !field_ast(field, index, opts).setter,
{
}

/// A field that is marked as read-only and not as hidden has a getter and no
/// setter.
pub proof fn lemma_read_only_field_has_a_getter(field: Field, index: nat, opts: BindgenAttrsView)
    requires
        opts.readonly() is Some,
        opts.skip() is None,
    ensures
        field_ast(field, index, opts).getter,
        !field_ast(field, index, opts).setter,
{
}

} // verus!
