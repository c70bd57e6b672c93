use mul_like::expansion::trait_path;
use mul_like::get_mul_generics;
use mul_like::model::{Field, FieldLayout, Generics, Shape, TypeDeclaration};
use mul_like::printing::{impl_generics, where_clause};
use quote::{ToTokens, Tokens};

fn printed<T: ToTokens>(node: &T) -> String {
    let mut tokens = Tokens::new();
    node.to_tokens(&mut tokens);
    tokens.into_string()
}

fn synthesized(types: &[&str]) -> Generics {
    let fields: Vec<Field> =
        types.iter().map(|ty| Field { name: None, ty: ty.to_string() }).collect();
    let input = TypeDeclaration {
        name: "Record".to_string(),
        generics: Generics { lifetimes: vec![], type_params: vec![], predicates: vec![] },
        shape: Shape::Record(FieldLayout::Positional(fields.clone())),
    };
    get_mul_generics(&input, &fields, &trait_path("Mul")).0
}

#[test]
fn where_clause_is_one_that_syn_reads_and_prints_alike() {
    let generics = synthesized(&["f32", "Vec < u8 >", "& 'a T", "( u8 , [ i32 ; 4 ] )"]);
    let text = where_clause(&generics);
    let clause = syn::parse_where_clause(text.as_str()).unwrap();
    assert_eq!(clause.predicates.len(), 4);
    assert_eq!(printed(&clause), text.as_str());
}

#[test]
fn copy_bound_is_one_that_syn_reads_and_prints_alike() {
    let generics = synthesized(&["f32", "f64"]);
    let scalar = generics.type_params.last().unwrap();
    assert_eq!(scalar.bounds.len(), 1);
    let bound = syn::parse_ty_param_bound(&scalar.bounds[0]).unwrap();
    assert_eq!(printed(&bound), scalar.bounds[0]);
    let copy = syn::parse_ty_param_bound("::std::marker::Copy").unwrap();
    assert_eq!(printed(&copy), scalar.bounds[0]);
}

#[test]
fn parameter_list_is_printed_as_syn_prints_it() {
    let input = syn::parse_macro_input(
        "struct Pair<'a, 'b: 'a, T: Clone + 'a, U = u8>(&'a T, &'b U) where U: Default;",
    )
    .unwrap();
    let (for_impl, for_type, clause) = input.generics.split_for_impl();
    let generics = Generics {
        lifetimes: input
            .generics
            .lifetimes
            .iter()
            .map(|def| mul_like::model::Constraint {
                subject: printed(&def.lifetime),
                bounds: def.bounds.iter().map(printed).collect(),
            })
            .collect(),
        type_params: input
            .generics
            .ty_params
            .iter()
            .map(|param| mul_like::model::Constraint {
                subject: param.ident.as_ref().to_string(),
                bounds: param.bounds.iter().map(printed).collect(),
            })
            .collect(),
        predicates: vec![mul_like::model::Constraint {
            subject: "U".to_string(),
            bounds: vec!["Default".to_string()],
        }],
    };
    assert_eq!(impl_generics(&generics).as_str(), printed(&for_impl));
    assert_eq!(mul_like::printing::ty_generics(&generics).as_str(), printed(&for_type));
    assert_eq!(where_clause(&generics).as_str(), printed(clause));
}
