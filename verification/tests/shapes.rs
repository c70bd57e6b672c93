use mul_like::model::{Field, FieldLayout, Generics, Shape, TypeDeclaration};
use mul_like::{expand, expand_with_method, UnsupportedShape};

fn declaration_of(shape: Shape) -> TypeDeclaration {
    TypeDeclaration {
        name: "Thing".to_string(),
        generics: Generics { lifetimes: vec![], type_params: vec![], predicates: vec![] },
        shape,
    }
}

fn rejected(shape: Shape) -> UnsupportedShape {
    match expand(&declaration_of(shape), "Mul") {
        Ok(tokens) => panic!("a fragment came back: {}", tokens.as_str()),
        Err(error) => error,
    }
}

#[test]
fn sum_type_is_rejected() {
    assert_eq!(rejected(Shape::Sum), UnsupportedShape { operator: "Mul".to_string() });
}

#[test]
fn unit_record_is_rejected() {
    assert_eq!(rejected(Shape::Unit), UnsupportedShape { operator: "Mul".to_string() });
}

#[test]
fn positional_record_without_fields_is_rejected() {
    let error = rejected(Shape::Record(FieldLayout::Positional(vec![])));
    assert_eq!(error.operator, "Mul");
}

#[test]
fn named_record_without_fields_is_rejected() {
    let error = rejected(Shape::Record(FieldLayout::Named(vec![])));
    assert_eq!(error.operator, "Mul");
}

#[test]
fn named_record_with_a_nameless_field_is_rejected() {
    let fields = vec![
        Field { name: Some("x".to_string()), ty: "f32".to_string() },
        Field { name: None, ty: "f32".to_string() },
    ];
    let error = rejected(Shape::Record(FieldLayout::Named(fields)));
    assert_eq!(error.operator, "Mul");
}

#[test]
fn positional_fields_need_no_name_and_ignore_one() {
    let fields = vec![Field { name: Some("x".to_string()), ty: "f32".to_string() }];
    let input = declaration_of(Shape::Record(FieldLayout::Positional(fields)));
    let tokens = expand(&input, "Mul").unwrap();
    assert!(tokens.as_str().ends_with("{ Thing ( self . 0 . mul ( rhs ) ) } }"));
}

#[test]
fn message_names_the_operator() {
    let error = rejected(Shape::Sum);
    assert_eq!(error.message(), "Only structs with at least one field can use derive(Mul)");
}

#[test]
fn rejection_names_the_operator_that_was_asked_for() {
    let error = expand_with_method(&declaration_of(Shape::Unit), "Rem", "rem").unwrap_err();
    assert_eq!(error.operator, "Rem");
    assert_eq!(error.message(), "Only structs with at least one field can use derive(Rem)");
}

#[test]
fn method_name_can_be_given() {
    let fields = vec![Field { name: None, ty: "f32".to_string() }];
    let input = declaration_of(Shape::Record(FieldLayout::Positional(fields)));
    let tokens = expand_with_method(&input, "Mul", "times").unwrap();
    assert_eq!(
        tokens.as_str(),
        "impl < __rhs_T > :: std :: ops :: Mul < __rhs_T > \
         for Thing where f32 : :: std :: ops :: Mul < __rhs_T , Output = f32 > \
         { type Output = Thing ; fn times ( self , rhs : __rhs_T ) -> Thing \
         { Thing ( self . 0 . times ( rhs ) ) } }"
    );
}
