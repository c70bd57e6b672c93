use mul_like::expansion::trait_path;
use mul_like::printing::{impl_generics, ty_generics, where_clause};
use mul_like::generics::fresh_scalar;
use mul_like::get_mul_generics;
use mul_like::model::{Constraint, Field, FieldLayout, Generics, Shape, TypeDeclaration};

fn fields(types: &[&str]) -> Vec<Field> {
    types.iter().map(|ty| Field { name: None, ty: ty.to_string() }).collect()
}

fn param(name: &str, bounds: &[&str]) -> Constraint {
    Constraint { subject: name.to_string(), bounds: bounds.iter().map(|b| b.to_string()).collect() }
}

fn generic_declaration(generics: Generics, types: &[&str]) -> TypeDeclaration {
    TypeDeclaration {
        name: "Record".to_string(),
        generics,
        shape: Shape::Record(FieldLayout::Positional(fields(types))),
    }
}

fn plain(types: &[&str]) -> TypeDeclaration {
    generic_declaration(Generics { lifetimes: vec![], type_params: vec![], predicates: vec![] }, types)
}

fn operator_predicate(ty: &str, scalar: &str) -> Constraint {
    Constraint {
        subject: ty.to_string(),
        bounds: vec![format!(":: std :: ops :: Mul < {} , Output = {} >", scalar, ty)],
    }
}

#[test]
fn one_predicate_for_a_type_that_two_fields_share() {
    let types = ["f32", "f32"];
    let (generics, scalar) = get_mul_generics(&plain(&types), &fields(&types), &trait_path("Mul"));
    assert_eq!(scalar, "__rhs_T");
    assert_eq!(generics.predicates, vec![operator_predicate("f32", "__rhs_T")]);
}

#[test]
fn predicates_follow_first_occurrence() {
    let types = ["u8", "f32", "u8", "i16", "f32", "u8"];
    let (generics, _) = get_mul_generics(&plain(&types), &fields(&types), &trait_path("Mul"));
    assert_eq!(
        generics.predicates,
        vec![
            operator_predicate("u8", "__rhs_T"),
            operator_predicate("f32", "__rhs_T"),
            operator_predicate("i16", "__rhs_T"),
        ]
    );
}

#[test]
fn scalar_is_copy_for_several_fields() {
    let types = ["f32", "f64"];
    let (generics, _) = get_mul_generics(&plain(&types), &fields(&types), &trait_path("Mul"));
    assert_eq!(generics.type_params, vec![param("__rhs_T", &[":: std :: marker :: Copy"])]);
}

#[test]
fn scalar_is_copy_for_several_fields_of_one_type() {
    let types = ["f32", "f32", "f32"];
    let (generics, _) = get_mul_generics(&plain(&types), &fields(&types), &trait_path("Mul"));
    assert_eq!(generics.type_params, vec![param("__rhs_T", &[":: std :: marker :: Copy"])]);
    assert_eq!(generics.predicates.len(), 1);
}

#[test]
fn scalar_is_unbounded_for_one_field() {
    let types = ["f64"];
    let (generics, _) = get_mul_generics(&plain(&types), &fields(&types), &trait_path("Mul"));
    assert_eq!(generics.type_params, vec![param("__rhs_T", &[])]);
    assert_eq!(generics.predicates, vec![operator_predicate("f64", "__rhs_T")]);
}

#[test]
fn no_fields_no_predicates() {
    let (generics, scalar) = get_mul_generics(&plain(&[]), &fields(&[]), &trait_path("Mul"));
    assert_eq!(scalar, "__rhs_T");
    assert_eq!(generics.type_params, vec![param("__rhs_T", &[])]);
    assert!(generics.predicates.is_empty());
}

#[test]
fn generics_of_the_declaration_are_kept() {
    let declared = Generics {
        lifetimes: vec![param("'a", &[]), param("'b", &["'a"])],
        type_params: vec![param("T", &["Clone"]), param("U", &[])],
        predicates: vec![param("T", &["Send", "Sync"])],
    };
    let types = ["T", "U"];
    let input = generic_declaration(declared.clone(), &types);
    let (generics, scalar) = get_mul_generics(&input, &fields(&types), &trait_path("Mul"));
    assert_eq!(scalar, "__rhs_T");
    assert_eq!(generics.lifetimes, declared.lifetimes);
    assert_eq!(
        generics.type_params,
        vec![
            param("T", &["Clone"]),
            param("U", &[]),
            param("__rhs_T", &[":: std :: marker :: Copy"]),
        ]
    );
    assert_eq!(
        generics.predicates,
        vec![
            param("T", &["Send", "Sync"]),
            operator_predicate("T", "__rhs_T"),
            operator_predicate("U", "__rhs_T"),
        ]
    );
    assert_eq!(input.generics, declared);
}

#[test]
fn trait_path_is_used_as_given() {
    let types = ["f32"];
    let mut path = quote::Tokens::new();
    path.append("my");
    path.append("::");
    path.append("Scale");
    let (generics, _) = get_mul_generics(&plain(&types), &fields(&types), &path);
    assert_eq!(
        generics.predicates,
        vec![param("f32", &["my :: Scale < __rhs_T , Output = f32 >"])]
    );
}

#[test]
fn scalar_takes_the_reserved_name_when_free() {
    assert_eq!(fresh_scalar(&vec![]), "__rhs_T");
    assert_eq!(fresh_scalar(&vec![param("T", &[]), param("__rhs", &[])]), "__rhs_T");
}

#[test]
fn scalar_counts_up_on_collision() {
    assert_eq!(fresh_scalar(&vec![param("__rhs_T", &[])]), "__rhs_T1");
    assert_eq!(fresh_scalar(&vec![param("__rhs_T1", &[]), param("__rhs_T", &[])]), "__rhs_T2");
    assert_eq!(fresh_scalar(&vec![param("__rhs_T", &[]), param("__rhs_T2", &[])]), "__rhs_T1");
}

#[test]
fn scalar_counts_past_nine() {
    let mut params = vec![param("__rhs_T", &[])];
    for k in 1..=10 {
        params.push(param(&format!("__rhs_T{}", k), &[]));
    }
    assert_eq!(fresh_scalar(&params), "__rhs_T11");
}

#[test]
fn renamed_scalar_is_used_in_every_predicate() {
    let declared =
        Generics {
            lifetimes: vec![],
            type_params: vec![param("__rhs_T", &[])],
            predicates: vec![],
        };
    let types = ["f32", "__rhs_T"];
    let input = generic_declaration(declared, &types);
    let (generics, scalar) = get_mul_generics(&input, &fields(&types), &trait_path("Mul"));
    assert_eq!(scalar, "__rhs_T1");
    assert_eq!(
        generics.type_params,
        vec![param("__rhs_T", &[]), param("__rhs_T1", &[":: std :: marker :: Copy"])]
    );
    assert_eq!(
        generics.predicates,
        vec![operator_predicate("f32", "__rhs_T1"), operator_predicate("__rhs_T", "__rhs_T1")]
    );
}

#[test]
fn trait_path_of_an_operator() {
    assert_eq!(trait_path("Mul").as_str(), ":: std :: ops :: Mul");
    assert_eq!(trait_path("Div").as_str(), ":: std :: ops :: Div");
}

#[test]
fn impl_generics_list_parameters_with_bounds() {
    let generics = Generics {
        lifetimes: vec![param("'a", &[]), param("'b", &["'a"])],
        type_params: vec![param("T", &["Clone", "'a"]), param("U", &[])],
        predicates: vec![param("U", &["Default"])],
    };
    assert_eq!(impl_generics(&generics).as_str(), "< 'a , 'b : 'a , T : Clone + 'a , U >");
    assert_eq!(ty_generics(&generics).as_str(), "< 'a , 'b , T , U >");
    assert_eq!(where_clause(&generics).as_str(), "where U : Default");
}

#[test]
fn no_parameters_no_brackets() {
    let generics = Generics { lifetimes: vec![], type_params: vec![], predicates: vec![] };
    assert_eq!(impl_generics(&generics).as_str(), "");
    assert_eq!(ty_generics(&generics).as_str(), "");
    assert_eq!(where_clause(&generics).as_str(), "");
}

#[test]
fn lifetimes_alone() {
    let generics =
        Generics { lifetimes: vec![param("'a", &[])], type_params: vec![], predicates: vec![] };
    assert_eq!(impl_generics(&generics).as_str(), "< 'a >");
    assert_eq!(ty_generics(&generics).as_str(), "< 'a >");
}

#[test]
fn where_clause_lists_predicates() {
    let generics = Generics {
        lifetimes: vec![],
        type_params: vec![],
        predicates: vec![param("T", &["Send", "Sync"]), param("'a", &["'b"]), param("U", &[])],
    };
    assert_eq!(where_clause(&generics).as_str(), "where T : Send + Sync , 'a : 'b , U");
}
