use typesafe_builder::builder::Builder;
use typesafe_builder::parse::parse_condition;
use typesafe_builder::schema::{Field, Requirement};

#[derive(Debug, PartialEq)]
enum UserVal {
    S(String),
    Age(u8),
}

fn user_fields() -> Vec<Field<UserVal>> {
    vec![
        Field {
            name: b"name".to_vec(),
            requirement: Requirement::Always,
            default: None,
            into_setter: true,
            optional_value_type: false,
        },
        Field {
            name: b"age".to_vec(),
            requirement: Requirement::Optional,
            default: None,
            into_setter: true,
            optional_value_type: true,
        },
        Field {
            name: b"email".to_vec(),
            requirement: Requirement::Conditional(
                parse_condition(&b"age".to_vec()).unwrap(),
            ),
            default: None,
            into_setter: true,
            optional_value_type: true,
        },
        Field {
            name: b"address".to_vec(),
            requirement: Requirement::OptionalIf(
                parse_condition(&b"age".to_vec()).unwrap(),
            ),
            default: None,
            into_setter: true,
            optional_value_type: true,
        },
    ]
}

#[test]
fn test_builder() {
    let mut b = Builder::new(user_fields());
    b.supply(0, UserVal::S("Alice".into()));
    b.supply(3, UserVal::S("123 Main St".into()));
    let user = b.finalize().unwrap();

    assert_eq!(user[0], Some(UserVal::S("Alice".to_string())));
    assert_eq!(user[1], None);
    assert_eq!(user[2], None);
    assert_eq!(user[3], Some(UserVal::S("123 Main St".to_string())));

    let mut b = Builder::new(user_fields());
    b.supply(0, UserVal::S("Alice".into()));
    b.supply(1, UserVal::Age(20));
    b.supply(2, UserVal::S("123 Main St".into()));
    let user = b.finalize().unwrap();

    assert_eq!(user[0], Some(UserVal::S("Alice".to_string())));
    assert_eq!(user[1], Some(UserVal::Age(20)));
    assert_eq!(user[2], Some(UserVal::S("123 Main St".to_string())));
    assert_eq!(user[3], None);
}
