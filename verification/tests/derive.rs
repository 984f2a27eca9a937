use dependency_factory::derive::{build_struct_body, expand, field_expr, FactoryArg, Field, Shape};

fn field(name: &str, args: Vec<FactoryArg>) -> Field {
    Field {
        name: Some(name.to_string()),
        args,
    }
}

#[test]
fn plain_field_builds_as_singleton() {
    assert_eq!(field_expr(&vec![]).unwrap(), "factory.build()?");
}

#[test]
fn query_field_builds_through_key_fn() {
    let args = vec![FactoryArg::Query("users_db_key".to_string())];
    assert_eq!(
        field_expr(&args).unwrap(),
        "factory.build_for(users_db_key(factory)?)?"
    );
}

#[test]
fn second_query_is_rejected() {
    let args = vec![
        FactoryArg::Query("a".to_string()),
        FactoryArg::Query("b".to_string()),
    ];
    assert_eq!(
        field_expr(&args).unwrap_err(),
        "`query` may only be specified once per field"
    );
}

#[test]
fn unsupported_argument_is_rejected() {
    let args = vec![FactoryArg::Unsupported("default".to_string())];
    assert_eq!(
        field_expr(&args).unwrap_err(),
        "unsupported `#[factory(...)]` argument; supported: `query = path::to::key_fn`"
    );
}

#[test]
fn named_struct_body() {
    let shape = Shape::Named(vec![
        field("greeter", vec![]),
        field("db", vec![FactoryArg::Query("users_db_key".to_string())]),
    ]);
    assert_eq!(
        build_struct_body(&shape).unwrap(),
        "Self { greeter: factory.build()?, db: factory.build_for(users_db_key(factory)?)?, }"
    );
}

#[test]
fn tuple_and_unit_struct_bodies() {
    let tuple = Shape::Unnamed(vec![Field { name: None, args: vec![] }]);
    assert_eq!(build_struct_body(&tuple).unwrap(), "Self ( factory.build()?, )");
    assert_eq!(build_struct_body(&Shape::Unit).unwrap(), "Self");
}

#[test]
fn enums_and_unions_are_rejected() {
    assert_eq!(
        build_struct_body(&Shape::Enum).unwrap_err(),
        "#[derive(Singleton)] is not supported on enums"
    );
    assert_eq!(
        build_struct_body(&Shape::Union).unwrap_err(),
        "#[derive(Singleton)] is not supported on unions"
    );
}

#[test]
fn expansion_of_generic_struct() {
    let shape = Shape::Named(vec![field("a", vec![]), field("b", vec![])]);
    let text = expand("Pair", "<A: Singleton, B: Singleton>", "<A, B>", "", &shape).unwrap();
    assert!(text.starts_with(
        "#[automatically_derived] impl <A: Singleton, B: Singleton> ::dependency_factory::Singleton for Pair<A, B> "
    ));
    assert!(text.contains("::core::result::Result::Ok(Self { a: factory.build()?, b: factory.build()?, })"));
    assert!(text.ends_with(") } }"));
}

#[test]
fn expansion_error_comes_from_fields() {
    let shape = Shape::Named(vec![field("x", vec![FactoryArg::Unsupported("y".to_string())])]);
    assert!(expand("S", "", "", "", &shape).is_err());
}
