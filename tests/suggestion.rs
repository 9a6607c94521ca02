use ts_diagnostics::objtype::{extract_object_type, parse_object_properties, parse_ts2345_error};
use ts_diagnostics::parser::{parse, CommonErrors, TsError};
use ts_diagnostics::suggestion::{Suggest, Suggestion};
use ts_diagnostics::tokenizer::Token;

fn err(code: CommonErrors, line: usize, column: usize, message: &str) -> TsError {
    TsError { file: "a.ts".to_string(), line, column, code, message: message.to_string() }
}

fn tok(raw: &str, line: usize, column: usize) -> Token {
    Token { raw: raw.to_string(), line, column }
}

fn one(e: &TsError, tokens: &[Token]) -> (Vec<String>, Option<String>) {
    let s = Suggestion::synthesize(e, tokens).expect("a suggestion");
    (s.suggestions, s.help)
}

#[test]
fn type_mismatch_names_both_types() {
    let e = parse("src/app.ts(10,5): error TS2322: Type 'string' is not assignable to type 'number'.")
        .unwrap();
    let (lines, help) = one(&e, &[]);
    assert_eq!(lines, vec!["Try converting this value from `string` to `number`.".to_string()]);
    assert!(lines[0].contains("string") && lines[0].contains("number"));
    assert_eq!(
        help.as_deref(),
        Some("Ensure that the types are compatible or perform an explicit conversion.")
    );
}

#[test]
fn type_mismatch_without_types_uses_placeholders() {
    let e = err(CommonErrors::TypeMismatch, 1, 1, "Something else entirely.");
    let (lines, _) = one(&e, &[]);
    assert_eq!(lines, vec!["Try converting this value from `type` to `type`.".to_string()]);
}

#[test]
fn missing_parameters_uses_token_at_position() {
    let e = err(CommonErrors::MissingParameters, 5, 3, "Expected 2 arguments, but got 1.");
    let (lines, help) = one(&e, &[tok("foo", 5, 2)]);
    assert_eq!(
        lines,
        vec!["Check if all required arguments are provided when invoking foo".to_string()]
    );
    assert_eq!(help.as_deref(), Some("Function `foo` is missing 1 or more arguments."));
}

#[test]
fn missing_parameters_without_token_uses_placeholder() {
    let e = err(CommonErrors::MissingParameters, 5, 9, "Expected 2 arguments, but got 1.");
    let (lines, _) = one(&e, &[tok("foo", 5, 2), tok("bar", 4, 8)]);
    assert_eq!(
        lines,
        vec!["Check if all required arguments are provided when invoking function".to_string()]
    );
}

#[test]
fn missing_parameters_first_token_wins_and_column_zero_matches_none() {
    let e = err(CommonErrors::MissingParameters, 2, 1, "Expected 1 arguments, but got 0.");
    let (lines, _) = one(&e, &[tok("ab", 2, 0), tok("a", 2, 0)]);
    assert!(lines[0].ends_with("invoking ab"));
    let e0 = err(CommonErrors::MissingParameters, 2, 0, "Call 'go' failed.");
    let (lines0, _) = one(&e0, &[tok("ab", 2, 0)]);
    assert!(lines0[0].ends_with("invoking go"));
}

#[test]
fn inline_mismatch_reports_differing_property() {
    let msg = "Argument of type '{ a: string; b: string; }' is not assignable to parameter of type '{ a: string; b: number; }'.";
    let e = err(CommonErrors::InlineTypeMismatch, 1, 1, msg);
    let (lines, help) = one(&e, &[]);
    assert_eq!(
        lines,
        vec!["Property `b` is provided as `string` but expects `number`.".to_string()]
    );
    assert_eq!(
        help.as_deref(),
        Some("Check the function arguments to ensure they match the expected parameter types.")
    );
}

#[test]
fn inline_mismatch_ignores_declaration_order() {
    let msg = "Argument of type '{ b: string; a: string }' is not assignable to parameter of type '{ b: number; a: string }'.";
    let e = err(CommonErrors::InlineTypeMismatch, 1, 1, msg);
    let (lines, _) = one(&e, &[]);
    assert_eq!(
        lines,
        vec!["Property `b` is provided as `string` but expects `number`.".to_string()]
    );
}

#[test]
fn inline_mismatch_lines_ascend_by_name() {
    let msg = "Argument of type '{ z: A; m: B; c: C; q: D }' is not assignable to parameter of type '{ q: X; c: C; z: Y; m: Z; only: W }'.";
    let found = parse_ts2345_error(msg).unwrap();
    let names: Vec<&str> = found.iter().map(|t| t.0.as_str()).collect();
    assert_eq!(names, vec!["m", "q", "z"]);
    assert_eq!(found[0], ("m".to_string(), "B".to_string(), "Z".to_string()));
}

#[test]
fn inline_mismatch_without_objects_gives_no_lines() {
    let e = err(CommonErrors::InlineTypeMismatch, 1, 1, "Argument of type 'string' is bad.");
    let (lines, help) = one(&e, &[]);
    assert!(lines.is_empty());
    assert!(help.is_some());
}

#[test]
fn object_properties_parse() {
    let p = parse_object_properties("  { b : number ; a: string;; bad; a: boolean }  ");
    assert_eq!(
        p,
        vec![
            ("a".to_string(), "boolean".to_string()),
            ("b".to_string(), "number".to_string())
        ]
    );
    assert!(parse_object_properties("string").is_empty());
    assert!(parse_object_properties("{").is_empty());
    assert!(parse_object_properties("{}").is_empty());
}

#[test]
fn object_type_extraction() {
    assert_eq!(
        extract_object_type("Argument of type '{ a: x }' rest", "Argument of type '"),
        Some("{ a: x }".to_string())
    );
    assert_eq!(extract_object_type("Argument of type '{ a: x }", "Argument of type '"), None);
    assert_eq!(extract_object_type("nothing", "Argument of type '"), None);
}

#[test]
fn uncovered_categories_give_nothing() {
    for code in [
        CommonErrors::ObjectIsUnknown,
        CommonErrors::ObjectIsPossiblyNull,
        CommonErrors::Unsupported("TS1234".to_string()),
    ] {
        let e = err(code, 1, 1, "Object is possibly 'null'.");
        assert!(Suggestion::synthesize(&e, &[tok("x", 1, 0)]).is_none());
        assert!(Suggestion::build(&e, &[tok("x", 1, 0)]).is_none());
    }
}

#[test]
fn no_implicit_any_names_parameter() {
    let e = err(CommonErrors::NoImplicitAny, 1, 1, "Parameter 'x' implicitly has an 'any' type.");
    let (lines, help) = one(&e, &[]);
    assert_eq!(lines, vec!["x is implicitly `any`.".to_string()]);
    assert_eq!(
        help.as_deref(),
        Some("Consider adding type annotations to avoid implicit 'any' types.")
    );
    let e2 = err(CommonErrors::NoImplicitAny, 1, 1, "no quotes");
    assert_eq!(one(&e2, &[]).0, vec!["parameter is implicitly `any`.".to_string()]);
}

#[test]
fn property_missing_in_type_uses_token_and_type() {
    let msg = "Property 'b' is missing in type '{ a: number; }' but required in type 'Foo'.";
    let e = err(CommonErrors::PropertyMissingInType, 3, 7, msg);
    let (lines, help) = one(&e, &[tok("const", 3, 0), tok("obj", 3, 6)]);
    assert_eq!(lines, vec!["Verify that `obj` matches the annotated type `Foo`.".to_string()]);
    assert_eq!(
        help.as_deref(),
        Some("Ensure that `obj` has all required properties defined in the type `Foo`.")
    );
}

#[test]
fn property_missing_in_type_without_token_uses_placeholder() {
    let msg = "Property 'b' is missing in type '{ a: number; }' but required in type 'Foo'.";
    let e = err(CommonErrors::PropertyMissingInType, 3, 20, msg);
    let (lines, help) = one(&e, &[tok("const", 3, 0), tok("obj", 3, 6), tok("x", 2, 19)]);
    assert_eq!(lines, vec!["Verify that `object` matches the annotated type `Foo`.".to_string()]);
    assert_eq!(
        help.as_deref(),
        Some("Ensure that `object` has all required properties defined in the type `Foo`.")
    );
}

#[test]
fn property_missing_in_type_without_type() {
    let e = err(CommonErrors::PropertyMissingInType, 3, 7, "Property is missing.");
    let (lines, help) = one(&e, &[]);
    assert_eq!(
        lines,
        vec!["Verify that the object structure includes all required members of the specified type."
            .to_string()]
    );
    assert_eq!(
        help.as_deref(),
        Some("Ensure the object has all required properties defined in the type.")
    );
}

#[test]
fn property_does_not_exist_names_property_and_type() {
    let e = err(
        CommonErrors::PropertyDoesNotExist,
        1,
        1,
        "Property 'foo' does not exist on type 'Bar'.",
    );
    assert_eq!(
        one(&e, &[]).0,
        vec!["Property `foo` is not found on type `Bar`.".to_string()]
    );
    let e2 = err(CommonErrors::PropertyDoesNotExist, 1, 1, "Property 'foo' is odd");
    assert_eq!(
        one(&e2, &[]).0,
        vec!["Property `foo` is not found on type `type`.".to_string()]
    );
}

#[test]
fn possibly_undefined_names_object() {
    let e = err(CommonErrors::ObjectIsPossiblyUndefined, 1, 1, "'user' is possibly 'undefined'.");
    let (lines, help) = one(&e, &[]);
    assert_eq!(lines, vec!["user may be `undefined` here.".to_string()]);
    assert_eq!(
        help.as_deref(),
        Some("Consider optional chaining or an explicit check before attempting to access `user`")
    );
}

#[test]
fn direct_cast_names_both_types() {
    let e = err(
        CommonErrors::DirectCastPotentiallyMistaken,
        1,
        1,
        "Conversion of type 'string' to type 'number' may be a mistake.",
    );
    assert_eq!(
        one(&e, &[]).0,
        vec!["Directly casting from `string` to `number` can be unsafe or mistaken, as both types do not overlap sufficiently.".to_string()]
    );
}

#[test]
fn fixed_advice_categories() {
    let cases = [
        (
            CommonErrors::UnintentionalComparison,
            "Impossible to compare as left side value is narrowed to a single value.",
        ),
        (
            CommonErrors::SpreadArgumentMustBeTupleType,
            "The argument being spread must be a tuple type or a `spreadable` type.",
        ),
        (
            CommonErrors::RightSideArithmeticMustBeNumber,
            "The right-hand side of any arithmetic operation must be a number or enumerable.",
        ),
        (
            CommonErrors::LeftSideArithmeticMustBeNumber,
            "The left-hand side of any arithmetic operation must be a number or enumerable.",
        ),
        (
            CommonErrors::IncompatibleOverload,
            "The provided arguments do not match any overload of the function.",
        ),
        (CommonErrors::MissingReturnValue, "A return value is missing where one is expected."),
    ];
    for (code, text) in cases {
        let a = err(code.clone(), 1, 1, "'x' and 'y'");
        let b = err(code, 9, 9, "nothing");
        assert_eq!(one(&a, &[]).0, vec![text.to_string()]);
        assert_eq!(one(&a, &[]), one(&b, &[]));
    }
}

#[test]
fn shadow_module_readonly_identifier() {
    let m = "Cannot redeclare block-scoped variable 'count'.";
    assert_eq!(
        one(&err(CommonErrors::InvalidShadowInScope, 1, 1, m), &[]).0,
        vec!["Declared variable `count` can not shadow another variable in this scope.".to_string()]
    );
    let m = "Cannot find module 'left-pad' or its corresponding type declarations.";
    assert_eq!(
        one(&err(CommonErrors::NonExistentModuleImport, 1, 1, m), &[]).1.as_deref(),
        Some("Ensure that the module `left-pad` is installed and the import path is correct.")
    );
    let m = "Cannot assign to 'id' because it is a read-only property.";
    assert_eq!(
        one(&err(CommonErrors::ReadonlyPropertyAssignment, 1, 1, m), &[]).0,
        vec!["Property `id` is readonly and thus can not be re-assigned.".to_string()]
    );
    let m = "Cannot find name 'foo'.";
    assert_eq!(
        one(&err(CommonErrors::CannotFindIdentifier, 1, 1, m), &[]).0,
        vec!["Identifier `foo` cannot be found in the current scope.".to_string()]
    );
    assert_eq!(
        one(&err(CommonErrors::CannotFindIdentifier, 1, 1, "no name"), &[]).0,
        vec!["Identifier `identifier` cannot be found in the current scope.".to_string()]
    );
}

#[test]
fn interface_implementation_names_all_three() {
    let m = "Class 'Dog' incorrectly implements interface 'Animal'. Property 'speak' is missing.";
    assert_eq!(
        one(&err(CommonErrors::IncorrectInterfaceImplementation, 1, 1, m), &[]).0,
        vec!["Class `Dog` does not implement `speak` from interface `Animal`.".to_string()]
    );
}

#[test]
fn base_class_property_gives_two_lines() {
    let m = "Property 'x' in type 'B' is not assignable to the same property in base type 'A'. Type 'string' is not assignable to type 'number'.";
    let (lines, help) = one(&err(CommonErrors::PropertyInClassNotAssignableToBase, 1, 1, m), &[]);
    assert_eq!(
        lines,
        vec![
            "Property `x` in class `B` is not assignable to the same property in base class `A`."
                .to_string(),
            "Property `x` is implemented as type `string` but defined as `number`.".to_string(),
        ]
    );
    assert_eq!(
        help.as_deref(),
        Some("Ensure that the type of property `x` in class `B` is compatible with the type defined in base class `A`.")
    );
    let (short, _) = one(&err(CommonErrors::PropertyInClassNotAssignableToBase, 1, 1, "none"), &[]);
    assert_eq!(
        short[1],
        "Property `property` is implemented as type `type` but defined as `base type`."
    );
}

#[test]
fn uncallable_index_and_typo() {
    let m = "This expression is not callable. Type 'Foo' has no call signatures.";
    assert_eq!(
        one(&err(CommonErrors::UncallableExpression, 1, 1, m), &[]).0,
        vec!["Expression `Foo` not can not be invoked or called.".to_string()]
    );
    let m = "Type 'boolean' cannot be used as an index type.";
    assert_eq!(
        one(&err(CommonErrors::InvalidIndexType, 1, 1, m), &[]).0,
        vec!["`boolean` cannot be used as an index accessor.".to_string()]
    );
    let m = "Property 'lenght' does not exist on type 'string'. Did you mean 'length'?";
    let (lines, help) = one(&err(CommonErrors::TypoPropertyOnType, 1, 1, m), &[]);
    assert_eq!(
        lines,
        vec!["Property `lenght` does not exist on type `string`. Try `length` instead".to_string()]
    );
    assert_eq!(
        help.as_deref(),
        Some("Check for typos in the property name `lenght` or ensure that it is defined on type `string`.")
    );
}

#[test]
fn synthesis_is_repeatable() {
    let msg = "Argument of type '{ a: string; b: string; c: x }' is not assignable to parameter of type '{ c: y; a: number; b: number }'.";
    let e = err(CommonErrors::InlineTypeMismatch, 1, 1, msg);
    let first = one(&e, &[tok("f", 1, 0)]);
    let second = one(&e, &[tok("f", 1, 0)]);
    assert_eq!(first, second);
    assert_eq!(first.0.len(), 3);
}

#[test]
fn build_emphasises_values_for_a_terminal() {
    colored::control::set_override(true);
    let e = parse("src/app.ts(10,5): error TS2322: Type 'string' is not assignable to type 'number'.")
        .unwrap();
    let styled = Suggestion::build(&e, &[]).unwrap();
    let plain = Suggestion::synthesize(&e, &[]).unwrap();
    assert_eq!(styled.suggestions.len(), plain.suggestions.len());
    assert_ne!(styled.suggestions, plain.suggestions);
    assert!(styled.suggestions[0].contains("string\u{1b}[0m"));
    assert!(styled.suggestions[0].starts_with("Try converting this value from `\u{1b}["));
    assert!(styled.suggestions[0].contains("number\u{1b}[0m"));
    assert_eq!(styled.help, plain.help);
}
