use typesafe_builder::builder::Builder;
use typesafe_builder::parse::parse_condition;
use typesafe_builder::schema::{Field, Requirement};

fn field<V>(name: &str, requirement: Requirement) -> Field<V> {
    let optional_value_type = match &requirement {
        Requirement::Optional | Requirement::Conditional(_) | Requirement::OptionalIf(_) => true,
        _ => false,
    };
    Field {
        name: name.as_bytes().to_vec(),
        requirement,
        default: None,
        into_setter: false,
        optional_value_type,
    }
}

fn field_with_default<V>(name: &str, default: V) -> Field<V> {
    Field {
        name: name.as_bytes().to_vec(),
        requirement: Requirement::Default,
        default: Some(default),
        into_setter: false,
        optional_value_type: false,
    }
}

fn conditional(src: &str) -> Requirement {
    Requirement::Conditional(parse_condition(&src.as_bytes().to_vec()).unwrap())
}

fn optional_if(src: &str) -> Requirement {
    Requirement::OptionalIf(parse_condition(&src.as_bytes().to_vec()).unwrap())
}

#[derive(Debug, PartialEq)]
enum Val {
    B(bool),
    S(String),
}

#[test]
fn required_field_success() {
    let fields = vec![field::<String>("name", Requirement::Always)];
    let mut b = Builder::new(fields);
    b.supply(0, "Alice".to_string());
    let user = b.finalize().unwrap();
    assert_eq!(user[0], Some("Alice".to_string()));
}

#[test]
fn optional_field_success() {
    let fields = vec![field::<String>("name", Requirement::Optional)];
    let b = Builder::new(fields);
    let user = b.finalize().unwrap();
    assert_eq!(user[0], None);

    let fields = vec![field::<String>("name", Requirement::Optional)];
    let mut b = Builder::new(fields);
    b.supply(0, "Alice".to_string());
    let user = b.finalize().unwrap();
    assert_eq!(user[0], Some("Alice".to_string()));
}

#[test]
fn required_if_success() {
    let fields = || {
        vec![
            field::<String>("email", Requirement::Optional),
            field::<String>("address", conditional("email")),
        ]
    };
    // email is optional and address is required if email is present.
    // so this should be ok.
    let p1 = Builder::new(fields()).finalize().unwrap();
    assert_eq!(p1[0], None);
    assert_eq!(p1[1], None);

    // email is present and address is required if email is present.
    // so this should be ok.
    let mut b = Builder::new(fields());
    b.supply(0, "a@b.com".to_string());
    b.supply(1, "tokyo".to_string());
    let p2 = b.finalize().unwrap();
    assert_eq!(p2[0], Some("a@b.com".to_string()));
    assert_eq!(p2[1], Some("tokyo".to_string()));
}

#[test]
fn optional_if_success() {
    let fields = || {
        vec![
            field::<Val>("enable_feature", Requirement::Optional),
            field::<Val>("feature_config", optional_if("enable_feature")),
        ]
    };

    let mut b1 = Builder::new(fields());
    b1.supply(0, Val::B(true));
    let config1 = b1.finalize().unwrap();
    assert_eq!(config1[0], Some(Val::B(true)));
    assert_eq!(config1[1], None);

    let mut b2 = Builder::new(fields());
    b2.supply(0, Val::B(true));
    b2.supply(1, Val::S("custom".to_string()));
    let config2 = b2.finalize().unwrap();
    assert_eq!(config2[0], Some(Val::B(true)));
    assert_eq!(config2[1], Some(Val::S("custom".to_string())));

    let mut b3 = Builder::new(fields());
    b3.supply(0, Val::B(false));
    b3.supply(1, Val::S("required".to_string()));
    let config3 = b3.finalize().unwrap();
    assert_eq!(config3[0], Some(Val::B(false)));
    assert_eq!(config3[1], Some(Val::S("required".to_string())));
}

#[test]
fn conditional_behavior_verification() {
    let fields = || {
        vec![
            field::<Val>("feature_enabled", Requirement::Optional),
            field::<Val>("feature_config", conditional("feature_enabled")),
        ]
    };

    let config1 = Builder::new(fields()).finalize().unwrap();
    assert_eq!(config1[0], None);
    assert_eq!(config1[1], None);

    let mut b2 = Builder::new(fields());
    b2.supply(0, Val::B(true));
    b2.supply(1, Val::S("advanced".to_string()));
    let config2 = b2.finalize().unwrap();
    assert_eq!(config2[0], Some(Val::B(true)));
    assert_eq!(config2[1], Some(Val::S("advanced".to_string())));
}

#[test]
fn optional_if_behavior_verification() {
    let fields = || {
        vec![
            field::<Val>("debug", Requirement::Optional),
            field::<Val>("debug_file", optional_if("debug")),
        ]
    };

    let mut b1 = Builder::new(fields());
    b1.supply(1, Val::S("debug.log".to_string()));
    let config1 = b1.finalize().unwrap();
    assert_eq!(config1[0], None);
    assert_eq!(config1[1], Some(Val::S("debug.log".to_string())));

    let mut b2 = Builder::new(fields());
    b2.supply(0, Val::B(true));
    let config2 = b2.finalize().unwrap();
    assert_eq!(config2[0], Some(Val::B(true)));
    assert_eq!(config2[1], None);
}

#[test]
fn lifetime_struct_success() {
    let fields = vec![field::<&str>("name", Requirement::Always)];
    let mut b = Builder::new(fields);
    b.supply(0, "Alice");
    let config = b.finalize().unwrap();
    assert_eq!(config[0], Some("Alice"));
}

#[test]
fn generic_struct_success() {
    let fields = vec![field::<i32>("value", Requirement::Always)];
    let mut b = Builder::new(fields);
    b.supply(0, 42i32);
    let container = b.finalize().unwrap();
    assert_eq!(container[0], Some(42));
}

#[derive(Debug, PartialEq)]
enum NamedVal {
    S(&'static str),
    I(i32),
}

#[test]
fn lifetime_and_generic_struct_success() {
    let fields = || {
        vec![
            field::<NamedVal>("name", Requirement::Always),
            field::<NamedVal>("value", Requirement::Optional),
        ]
    };

    let mut b1 = Builder::new(fields());
    b1.supply(0, NamedVal::S("test"));
    let config1 = b1.finalize().unwrap();
    assert_eq!(config1[0], Some(NamedVal::S("test")));
    assert_eq!(config1[1], None);

    let mut b2 = Builder::new(fields());
    b2.supply(0, NamedVal::S("test"));
    b2.supply(1, NamedVal::I(100i32));
    let config2 = b2.finalize().unwrap();
    assert_eq!(config2[0], Some(NamedVal::S("test")));
    assert_eq!(config2[1], Some(NamedVal::I(100)));
}

#[test]
fn generic_struct_where_clause_success() {
    let fields = vec![field::<i32>("value", Requirement::Always)];
    let mut b = Builder::new(fields);
    b.supply(0, 42i32);
    let container = b.finalize().unwrap();
    assert_eq!(container[0], Some(42));

    let fields = vec![field::<String>("value", Requirement::Always)];
    let mut b = Builder::new(fields);
    b.supply(0, "hello".to_string());
    let container = b.finalize().unwrap();
    assert_eq!(container[0], Some("hello".to_string()));
}

#[test]
fn custom_builder_name_success() {
    let fields = vec![field::<String>("name", Requirement::Always)];
    let mut b = Builder::new(fields);
    b.supply(0, "Alice".to_string());
    let user = b.finalize().unwrap();
    assert_eq!(user[0], Some("Alice".to_string()));
}

#[derive(Debug, PartialEq)]
enum CfgVal {
    S(String),
    I(i32),
}

#[test]
fn default_value_success() {
    let fields = || {
        vec![
            field_with_default::<CfgVal>("name", CfgVal::S(String::from("default_name"))),
            field_with_default::<CfgVal>("port", CfgVal::I(42)),
            field::<CfgVal>("description", Requirement::Optional),
        ]
    };

    let config = Builder::new(fields()).finalize().unwrap();
    assert_eq!(config[0], Some(CfgVal::S("default_name".to_string())));
    assert_eq!(config[1], Some(CfgVal::I(42)));
    assert_eq!(config[2], None);

    let mut b = Builder::new(fields());
    b.supply(0, CfgVal::S("custom".to_string()));
    b.supply(1, CfgVal::I(8080));
    b.supply(2, CfgVal::S("test".to_string()));
    let config = b.finalize().unwrap();
    assert_eq!(config[0], Some(CfgVal::S("custom".to_string())));
    assert_eq!(config[1], Some(CfgVal::I(8080)));
    assert_eq!(config[2], Some(CfgVal::S("test".to_string())));
}

#[derive(Debug, PartialEq)]
enum ComplexVal {
    Nums(Vec<i32>),
    Dict(std::collections::HashMap<String, i32>),
    Id(u32),
}

#[test]
fn complex_default_values() {
    let fields = vec![
        field_with_default::<ComplexVal>("numbers", ComplexVal::Nums(vec![1, 2, 3])),
        field_with_default::<ComplexVal>("map", ComplexVal::Dict(std::collections::HashMap::new())),
        field::<ComplexVal>("id", Requirement::Always),
    ];
    let mut b = Builder::new(fields);
    b.supply(2, ComplexVal::Id(1));
    let config = b.finalize().unwrap();
    assert_eq!(config[0], Some(ComplexVal::Nums(vec![1, 2, 3])));
    assert_eq!(config[1], Some(ComplexVal::Dict(std::collections::HashMap::new())));
    assert_eq!(config[2], Some(ComplexVal::Id(1)));
}

#[test]
fn into_value_success() {
    let fields = vec![
        Field::<String> {
            name: b"name".to_vec(),
            requirement: Requirement::Always,
            default: None,
            into_setter: true,
            optional_value_type: false,
        },
        Field::<String> {
            name: b"address".to_vec(),
            requirement: Requirement::Optional,
            default: None,
            into_setter: true,
            optional_value_type: true,
        },
    ];
    let mut b = Builder::new(fields);
    b.supply(0, "Alice".into());
    b.supply(1, "foo".into());
    let user = b.finalize().unwrap();
    assert_eq!(user[0], Some("Alice".to_string()));
    assert_eq!(user[1], Some("foo".to_string()));
}

#[derive(Debug, PartialEq)]
enum BareVal {
    S(String),
    I(i32),
    B(bool),
}

#[test]
fn bare_default_success() {
    let fields = || {
        vec![
            field_with_default::<BareVal>("name", BareVal::S(String::default())),
            field_with_default::<BareVal>("port", BareVal::I(i32::default())),
            field_with_default::<BareVal>("enabled", BareVal::B(bool::default())),
        ]
    };

    let config = Builder::new(fields()).finalize().unwrap();
    assert_eq!(config[0], Some(BareVal::S(String::default())));
    assert_eq!(config[1], Some(BareVal::I(i32::default())));
    assert_eq!(config[2], Some(BareVal::B(bool::default())));

    let mut b = Builder::new(fields());
    b.supply(0, BareVal::S("custom".to_string()));
    b.supply(1, BareVal::I(8080));
    b.supply(2, BareVal::B(true));
    let config = b.finalize().unwrap();
    assert_eq!(config[0], Some(BareVal::S("custom".to_string())));
    assert_eq!(config[1], Some(BareVal::I(8080)));
    assert_eq!(config[2], Some(BareVal::B(true)));
}

#[derive(Debug, PartialEq)]
enum MixedVal {
    S(String),
    I(i32),
    Nums(Vec<i32>),
}

#[test]
fn mixed_default_and_expression_default() {
    let fields = vec![
        field_with_default::<MixedVal>("name", MixedVal::S(String::default())),
        field_with_default::<MixedVal>("port", MixedVal::I(42)),
        field_with_default::<MixedVal>("numbers", MixedVal::Nums(vec![1, 2, 3])),
    ];
    let config = Builder::new(fields).finalize().unwrap();
    assert_eq!(config[0], Some(MixedVal::S(String::default())));
    assert_eq!(config[1], Some(MixedVal::I(42)));
    assert_eq!(config[2], Some(MixedVal::Nums(vec![1, 2, 3])));
}

#[derive(PartialEq, Default, Debug)]
struct CustomType {
    value: i32,
}

#[test]
fn bare_default_with_custom_types() {
    let fields = vec![field_with_default::<CustomType>("custom", CustomType::default())];
    let config = Builder::new(fields).finalize().unwrap();
    assert_eq!(config[0], Some(CustomType::default()));
}
