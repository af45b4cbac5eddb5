use langscript::types::{PrimitiveType, Type};

#[test]
fn primitive_type_classes() {
    assert!(PrimitiveType::Byte.is_numeric());
    assert!(PrimitiveType::Double.is_numeric());
    assert!(!PrimitiveType::Bool.is_numeric());
    assert!(PrimitiveType::Uint.is_integer());
    assert!(!PrimitiveType::Float.is_integer());
    assert!(PrimitiveType::Float.is_float());
    assert!(!PrimitiveType::Int.is_float());
    assert!(PrimitiveType::Int.is_signed());
    assert!(!PrimitiveType::Uint.is_signed());
    assert!(!PrimitiveType::Char.is_signed());
    assert_eq!(PrimitiveType::String.name(), "string");
}

#[test]
fn types_compare_structurally() {
    let a = Type::Array(Box::new(Type::Primitive(PrimitiveType::Int)));
    let b = Type::Array(Box::new(Type::Primitive(PrimitiveType::Int)));
    assert_eq!(a, b);
    assert_ne!(a, Type::Tuple(vec![]));
}
