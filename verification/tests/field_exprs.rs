use mul_like::decimal::decimal_string;
use mul_like::model::Field;
use mul_like::{struct_content, struct_exprs, tuple_content, tuple_exprs};

fn positional_fields(count: usize) -> Vec<Field> {
    (0..count).map(|_| Field { name: None, ty: "f32".to_string() }).collect()
}

fn named_fields(names: &[&str]) -> Vec<Field> {
    names.iter().map(|name| Field { name: Some(name.to_string()), ty: "f32".to_string() }).collect()
}

#[test]
fn tuple_exprs_access_by_position() {
    let exprs = tuple_exprs(&positional_fields(3), "mul");
    let texts: Vec<&str> = exprs.iter().map(|expr| expr.as_str()).collect();
    assert_eq!(
        texts,
        vec!["self . 0 . mul ( rhs )", "self . 1 . mul ( rhs )", "self . 2 . mul ( rhs )"]
    );
}

#[test]
fn tuple_exprs_of_no_fields() {
    assert!(tuple_exprs(&positional_fields(0), "mul").is_empty());
}

#[test]
fn tuple_exprs_count_in_decimal() {
    let exprs = tuple_exprs(&positional_fields(12), "mul");
    assert_eq!(exprs.len(), 12);
    assert_eq!(exprs[9].as_str(), "self . 9 . mul ( rhs )");
    assert_eq!(exprs[10].as_str(), "self . 10 . mul ( rhs )");
    assert_eq!(exprs[11].as_str(), "self . 11 . mul ( rhs )");
}

#[test]
fn struct_exprs_access_by_name() {
    let exprs = struct_exprs(&named_fields(&["x", "y", "z"]), "add");
    let texts: Vec<&str> = exprs.iter().map(|expr| expr.as_str()).collect();
    assert_eq!(
        texts,
        vec!["self . x . add ( rhs )", "self . y . add ( rhs )", "self . z . add ( rhs )"]
    );
}

#[test]
fn struct_exprs_keep_declaration_order() {
    let exprs = struct_exprs(&named_fields(&["zeta", "alpha"]), "mul");
    assert_eq!(exprs[0].as_str(), "self . zeta . mul ( rhs )");
    assert_eq!(exprs[1].as_str(), "self . alpha . mul ( rhs )");
}

#[test]
fn tuple_content_is_a_constructor_call() {
    let block = tuple_content("Record", &positional_fields(2), "mul");
    assert_eq!(block.as_str(), "Record ( self . 0 . mul ( rhs ) , self . 1 . mul ( rhs ) )");
}

#[test]
fn tuple_content_of_one_field_has_no_comma() {
    let block = tuple_content("Record", &positional_fields(1), "mul");
    assert_eq!(block.as_str(), "Record ( self . 0 . mul ( rhs ) )");
}

#[test]
fn struct_content_is_a_named_constructor() {
    let block = struct_content("Record", &named_fields(&["x", "y"]), "mul");
    assert_eq!(
        block.as_str(),
        "Record { x : self . x . mul ( rhs ) , y : self . y . mul ( rhs ) }"
    );
}

#[test]
fn struct_content_of_one_field_has_no_comma() {
    let block = struct_content("Record", &named_fields(&["only"]), "mul");
    assert_eq!(block.as_str(), "Record { only : self . only . mul ( rhs ) }");
}

#[test]
fn constructor_has_one_argument_per_field() {
    let block = tuple_content("R", &positional_fields(25), "mul");
    let text = block.as_str();
    assert_eq!(text.matches(". mul ( rhs )").count(), 25);
    assert_eq!(text.matches(" , ").count(), 24);
    assert!(text.starts_with("R ( self . 0 . mul ( rhs ) , self . 1 . mul ( rhs ) , "));
    assert!(text.ends_with(" , self . 24 . mul ( rhs ) )"));
}

#[test]
fn decimal_numerals() {
    assert_eq!(decimal_string(0), "0");
    assert_eq!(decimal_string(7), "7");
    assert_eq!(decimal_string(9), "9");
    assert_eq!(decimal_string(10), "10");
    assert_eq!(decimal_string(101), "101");
    assert_eq!(decimal_string(4096), "4096");
    assert_eq!(decimal_string(1234567890), "1234567890");
    assert_eq!(decimal_string(usize::MAX), usize::MAX.to_string());
}
