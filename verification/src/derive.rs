//! What `#[derive(Singleton)]` writes: an `impl Singleton` whose `build`
//! resolves every field from the factory. A field is built as a singleton,
//! or, with `#[factory(query = key_fn)]`, through `build_for` with the key
//! that `key_fn` returns.
//!
//! The input is the struct as plain values, its parts already parsed: the
//! generics as their text, and for each field the arguments of its
//! `#[factory(...)]` attributes. The output is the text of the impl.

use vstd::prelude::*;

verus! {

/// One argument inside a `#[factory(...)]` attribute of a field.
pub enum FactoryArg {
    /// `query = <path>`: the field's key comes from the function at `path`.
    Query(String),
    /// Any other argument, by its name.
    Unsupported(String),
}

/// A field of a struct, with the arguments of its `#[factory(...)]`
/// attributes in order.
pub struct Field {
    /// The field's name; `None` in a tuple struct.
    pub name: Option<String>,
    pub args: Vec<FactoryArg>,
}

/// The shape of the type that the derive is applied to.
pub enum Shape {
    /// A struct with named fields.
    Named(Vec<Field>),
    /// A tuple struct.
    Unnamed(Vec<Field>),
    /// A unit struct.
    Unit,
    /// An enum, which the derive does not support.
    Enum,
    /// A union, which the derive does not support.
    Union,
}

/// The message for a second `query` on one field.
pub open spec fn duplicate_query_message() -> Seq<char> {
    "`query` may only be specified once per field"@
}

/// The message for an argument other than `query`.
pub open spec fn unsupported_message() -> Seq<char> {
    "unsupported `#[factory(...)]` argument; supported: `query = path::to::key_fn`"@
}

/// The key function that the arguments `args[from..]` name, given that
/// `query` was named by the earlier ones; an error for a second `query` or
/// any other argument.
pub open spec fn query_of(args: Seq<FactoryArg>, from: int, query: Option<Seq<char>>) -> Result<
    Option<Seq<char>>,
    Seq<char>,
>
    decreases args.len() - from,
{
    if from < 0 || from >= args.len() {
        Ok(query)
    } else {
        match args[from] {
            FactoryArg::Query(path) => if query is Some {
                Err(duplicate_query_message())
            } else {
                query_of(args, from + 1, Some(path@))
            },
            FactoryArg::Unsupported(_) => Err(unsupported_message()),
        }
    }
}

/// The expression that builds a field with arguments `args`: through the
/// query's key function, or as a singleton.
pub open spec fn field_text(args: Seq<FactoryArg>) -> Result<Seq<char>, Seq<char>> {
    match query_of(args, 0, None) {
        Err(e) => Err(e),
        Ok(Some(path)) => Ok("factory.build_for("@ + path + "(factory)?)?"@),
        Ok(None) => Ok("factory.build()?"@),
    }
}

/// The expressions of `fields[from..]` as the body of a struct literal
/// lists them: `name: expr, ` for named fields, `expr, ` for tuple fields.
pub open spec fn fields_text(fields: Seq<Field>, from: int, named: bool) -> Result<
    Seq<char>,
    Seq<char>,
>
    decreases fields.len() - from,
{
    if from < 0 || from >= fields.len() {
        Ok(Seq::empty())
    } else {
        match field_text(fields[from].args@) {
            Err(e) => Err(e),
            Ok(expr) => {
                let item = if named {
                    match fields[from].name {
                        Some(name) => name@ + ": "@ + expr + ", "@,
                        None => expr + ", "@,
                    }
                } else {
                    expr + ", "@
                };
                match fields_text(fields, from + 1, named) {
                    Err(e) => Err(e),
                    Ok(rest) => Ok(item + rest),
                }
            },
        }
    }
}

/// The value that `build` returns for a struct of shape `shape`.
pub open spec fn body_text(shape: Shape) -> Result<Seq<char>, Seq<char>> {
    match shape {
        Shape::Named(fields) => match fields_text(fields@, 0, true) {
            Err(e) => Err(e),
            Ok(items) => Ok("Self { "@ + items + "}"@),
        },
        Shape::Unnamed(fields) => match fields_text(fields@, 0, false) {
            Err(e) => Err(e),
            Ok(items) => Ok("Self ( "@ + items + ")"@),
        },
        Shape::Unit => Ok("Self"@),
        Shape::Enum => Err("#[derive(Singleton)] is not supported on enums"@),
        Shape::Union => Err("#[derive(Singleton)] is not supported on unions"@),
    }
}

/// The impl that the derive writes for the type `ident` with the parts
/// `impl_generics`, `ty_generics` and `where_clause` of its generics.
pub open spec fn impl_text(
    ident: Seq<char>,
    impl_generics: Seq<char>,
    ty_generics: Seq<char>,
    where_clause: Seq<char>,
    shape: Shape,
) -> Result<Seq<char>, Seq<char>> {
    match body_text(shape) {
        Err(e) => Err(e),
        Ok(body) => Ok(
            "#[automatically_derived] impl "@ + impl_generics + " ::dependency_factory::Singleton for "@ + ident
                + ty_generics + " "@ + where_clause
                + " { fn build(factory: &::dependency_factory::DependencyFactoryHandle) -> ::core::result::Result<Self, ::dependency_factory::BuildError> { let _ = factory; ::core::result::Result::Ok("@
                + body + ") } }"@,
        ),
    }
}

/// The item of each field of `fields` in the body of the struct literal,
/// for fields whose arguments are all valid: `name: expr, ` for a named
/// field, `expr, ` for a tuple field, with `expr` the expression that
/// builds it.
pub open spec fn field_items(fields: Seq<Field>, named: bool) -> Seq<Seq<char>> {
    Seq::new(
        fields.len(),
        |i: int|
            {
                let expr = field_text(fields[i].args@)->Ok_0;
                match fields[i].name {
                    Some(name) => if named {
                        name@ + ": "@ + expr + ", "@
                    } else {
                        expr + ", "@
                    },
                    None => expr + ", "@,
                }
            },
    )
}

/// The items of `fields[from..]`, one after another.
proof fn lemma_fields_text_lists_items(fields: Seq<Field>, from: int, named: bool)
    requires
        0 <= from <= fields.len(),
        forall|i: int| 0 <= i < fields.len() ==> #[trigger] field_text(fields[i].args@) is Ok,
    ensures
        fields_text(fields, from, named) == Ok::<Seq<char>, Seq<char>>(
            field_items(fields, named).subrange(from, fields.len() as int).flatten(),
        ),
    decreases fields.len() - from,
{
    let items = field_items(fields, named);
    let rest = items.subrange(from, fields.len() as int);
    if from < fields.len() {
        lemma_fields_text_lists_items(fields, from + 1, named);
        assert(rest.drop_first() =~= items.subrange(from + 1, fields.len() as int));
        assert(rest.first() == items[from]);
        assert(field_text(fields[from].args@) is Ok);
    } else {
        assert(rest =~= Seq::<Seq<char>>::empty());
    }
}

/// The body of a tuple struct lists one item for every field, in order:
/// the expression that builds the field, then `, `.
pub proof fn law_tuple_body_lists_every_field(fields: Vec<Field>)
    requires
        forall|i: int| 0 <= i < fields@.len() ==> #[trigger] field_text(fields@[i].args@) is Ok,
    ensures
        body_text(Shape::Unnamed(fields)) == Ok::<Seq<char>, Seq<char>>(
            "Self ( "@ + Seq::new(
                fields@.len(),
                |i: int| field_text(fields@[i].args@)->Ok_0 + ", "@,
            ).flatten() + ")"@,
        ),
{
    lemma_fields_text_lists_items(fields@, 0, false);
    assert(field_items(fields@, false).subrange(0, fields@.len() as int) =~= Seq::new(
        fields@.len(),
        |i: int| field_text(fields@[i].args@)->Ok_0 + ", "@,
    ));
}

/// The body of a struct with named fields lists one item for every field,
/// in order: the field's name, `: `, the expression that builds it, then
/// `, `.
pub proof fn law_named_body_lists_every_field(fields: Vec<Field>)
    requires
        forall|i: int| 0 <= i < fields@.len() ==> #[trigger] field_text(fields@[i].args@) is Ok,
        forall|i: int| 0 <= i < fields@.len() ==> (#[trigger] fields@[i]).name is Some,
    ensures
        body_text(Shape::Named(fields)) == Ok::<Seq<char>, Seq<char>>(
            "Self { "@ + Seq::new(
                fields@.len(),
                |i: int|
                    fields@[i].name->0@ + ": "@ + field_text(fields@[i].args@)->Ok_0 + ", "@,
            ).flatten() + "}"@,
        ),
{
    lemma_fields_text_lists_items(fields@, 0, true);
    assert forall|i: int| 0 <= i < fields@.len() implies field_items(fields@, true)[i] == fields@[
        i
    ].name->0@ + ": "@ + field_text(fields@[i].args@)->Ok_0 + ", "@ by {
        assert(fields@[i].name is Some);
    }
    assert(field_items(fields@, true).subrange(0, fields@.len() as int) =~= Seq::new(
        fields@.len(),
        |i: int| fields@[i].name->0@ + ": "@ + field_text(fields@[i].args@)->Ok_0 + ", "@,
    ));
}

/// The key function that the `#[factory(...)]` arguments of a field name,
/// if any.
fn field_query(args: &Vec<FactoryArg>) -> (query: Result<Option<String>, String>)
    ensures
        match (query, query_of(args@, 0, None)) {
            (Ok(Some(p)), Ok(Some(expected))) => p@ == expected,
            (Ok(None), Ok(None)) => true,
            (Err(e), Err(expected)) => e@ == expected,
            _ => false,
        },
{
    let mut query: Option<String> = None;
    let mut i: usize = 0;
    while i < args.len()
        invariant
            0 <= i <= args@.len(),
            query_of(args@, 0, None) == query_of(
                args@,
                i as int,
                match query {
                    Some(p) => Some(p@),
                    None => None,
                },
            ),
        decreases args@.len() - i,
    {
        match &args[i] {
            FactoryArg::Query(path) => {
                if query.is_some() {
                    let mut message = String::new();
                    message.append("`query` may only be specified once per field");
                    return Err(message);
                }
                query = Some(path.clone());
            },
            FactoryArg::Unsupported(_) => {
                let mut message = String::new();
                message.append(
                    "unsupported `#[factory(...)]` argument; supported: `query = path::to::key_fn`",
                );
                return Err(message);
            },
        }
        i = i + 1;
    }
    Ok(query)
}

/// The expression that builds a field with the `#[factory(...)]` arguments
/// `args`.
pub fn field_expr(args: &Vec<FactoryArg>) -> (expr: Result<String, String>)
    ensures
        match (expr, field_text(args@)) {
            (Ok(e), Ok(expected)) => e@ == expected,
            (Err(e), Err(expected)) => e@ == expected,
            _ => false,
        },
{
    match field_query(args) {
        Err(e) => Err(e),
        Ok(Some(path)) => {
            let mut expr = String::new();
            expr.append("factory.build_for(");
            expr.append(path.as_str());
            expr.append("(factory)?)?");
            Ok(expr)
        },
        Ok(None) => {
            let mut expr = String::new();
            expr.append("factory.build()?");
            Ok(expr)
        },
    }
}

/// The fields' expressions as the body of a struct literal lists them.
fn fields_body(fields: &Vec<Field>, named: bool) -> (items: Result<String, String>)
    ensures
        match (items, fields_text(fields@, 0, named)) {
            (Ok(t), Ok(expected)) => t@ == expected,
            (Err(e), Err(expected)) => e@ == expected,
            _ => false,
        },
{
    let mut items = String::new();
    let mut i: usize = 0;
    while i < fields.len()
        invariant
            0 <= i <= fields@.len(),
            fields_text(fields@, 0, named) == match fields_text(fields@, i as int, named) {
                Err(e) => Err(e),
                Ok(rest) => Ok(items@ + rest),
            },
        decreases fields@.len() - i,
    {
        let field = &fields[i];
        let expr = match field_expr(&field.args) {
            Ok(expr) => expr,
            Err(e) => {
                return Err(e);
            },
        };
        let ghost before = items@;
        if named {
            match &field.name {
                Some(name) => {
                    items.append(name.as_str());
                    items.append(": ");
                },
                None => {},
            }
        }
        items.append(expr.as_str());
        items.append(", ");
        proof {
            let item = if named {
                match fields@[i as int].name {
                    Some(name) => name@ + ": "@ + expr@ + ", "@,
                    None => expr@ + ", "@,
                }
            } else {
                expr@ + ", "@
            };
            assert(items@ =~= before + item);
            match fields_text(fields@, i + 1, named) {
                Err(e) => {},
                Ok(rest) => {
                    assert(before + (item + rest) =~= items@ + rest);
                },
            }
        }
        i = i + 1;
    }
    Ok(items)
}

/// The value that `build` returns for a struct of shape `shape`; an error
/// for an enum, a union, or a field with bad `#[factory(...)]` arguments.
pub fn build_struct_body(shape: &Shape) -> (body: Result<String, String>)
    ensures
        match (body, body_text(*shape)) {
            (Ok(t), Ok(expected)) => t@ == expected,
            (Err(e), Err(expected)) => e@ == expected,
            _ => false,
        },
{
    match shape {
        Shape::Named(fields) => {
            let items = fields_body(fields, true)?;
            let mut body = String::new();
            body.append("Self { ");
            body.append(items.as_str());
            body.append("}");
            Ok(body)
        },
        Shape::Unnamed(fields) => {
            let items = fields_body(fields, false)?;
            let mut body = String::new();
            body.append("Self ( ");
            body.append(items.as_str());
            body.append(")");
            Ok(body)
        },
        Shape::Unit => {
            let mut body = String::new();
            body.append("Self");
            Ok(body)
        },
        Shape::Enum => {
            let mut message = String::new();
            message.append("#[derive(Singleton)] is not supported on enums");
            Err(message)
        },
        Shape::Union => {
            let mut message = String::new();
            message.append("#[derive(Singleton)] is not supported on unions");
            Err(message)
        },
    }
}

/// The impl that `#[derive(Singleton)]` writes for the type `ident`, whose
/// generics split into `impl_generics`, `ty_generics` and `where_clause`;
/// an error for an enum, a union, or a field with bad `#[factory(...)]`
/// arguments.
pub fn expand(
    ident: &str,
    impl_generics: &str,
    ty_generics: &str,
    where_clause: &str,
    shape: &Shape,
) -> (text: Result<String, String>)
    ensures
        match (text, impl_text(ident@, impl_generics@, ty_generics@, where_clause@, *shape)) {
            (Ok(t), Ok(expected)) => t@ == expected,
            (Err(e), Err(expected)) => e@ == expected,
            _ => false,
        },
{
    let body = build_struct_body(shape)?;
    let mut text = String::new();
    text.append("#[automatically_derived] impl ");
    text.append(impl_generics);
    text.append(" ::dependency_factory::Singleton for ");
    text.append(ident);
    text.append(ty_generics);
    text.append(" ");
    text.append(where_clause);
    text.append(
        " { fn build(factory: &::dependency_factory::DependencyFactoryHandle) -> ::core::result::Result<Self, ::dependency_factory::BuildError> { let _ = factory; ::core::result::Result::Ok(",
    );
    text.append(body.as_str());
    text.append(") } }");
    Ok(text)
}

} // verus!
