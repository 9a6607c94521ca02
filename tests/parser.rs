use ts_diagnostics::parser::{parse, parse_decimal, CommonErrors};

#[test]
fn classify_known_codes() {
    let table = [
        ("TS2322", CommonErrors::TypeMismatch),
        ("TS2345", CommonErrors::InlineTypeMismatch),
        ("TS2554", CommonErrors::MissingParameters),
        ("TS7006", CommonErrors::NoImplicitAny),
        ("TS7044", CommonErrors::NoImplicitAny),
        ("TS2741", CommonErrors::PropertyMissingInType),
        ("TS2367", CommonErrors::UnintentionalComparison),
        ("TS18046", CommonErrors::ObjectIsUnknown),
        ("TS2339", CommonErrors::PropertyDoesNotExist),
        ("TS2532", CommonErrors::ObjectIsPossiblyUndefined),
        ("TS18048", CommonErrors::ObjectIsPossiblyUndefined),
        ("TS2531", CommonErrors::ObjectIsPossiblyNull),
        ("TS18047", CommonErrors::ObjectIsPossiblyNull),
        ("TS2352", CommonErrors::DirectCastPotentiallyMistaken),
        ("TS2556", CommonErrors::SpreadArgumentMustBeTupleType),
        ("TS2363", CommonErrors::RightSideArithmeticMustBeNumber),
        ("TS2394", CommonErrors::IncompatibleOverload),
        ("TS2451", CommonErrors::InvalidShadowInScope),
        ("TS2307", CommonErrors::NonExistentModuleImport),
        ("TS2540", CommonErrors::ReadonlyPropertyAssignment),
        ("TS2420", CommonErrors::IncorrectInterfaceImplementation),
    ];
    for (code, kind) in table {
        assert_eq!(CommonErrors::from_code(code), kind, "code {}", code);
    }
}

#[test]
fn classify_unknown_code_is_kept() {
    assert_eq!(
        CommonErrors::from_code("TS9999"),
        CommonErrors::Unsupported("TS9999".to_string())
    );
    assert_eq!(CommonErrors::from_code(""), CommonErrors::Unsupported(String::new()));
    assert_eq!(
        CommonErrors::from_code("ts2322"),
        CommonErrors::Unsupported("ts2322".to_string())
    );
}

#[test]
fn code_strings_are_canonical() {
    assert_eq!(CommonErrors::TypeMismatch.to_string(), "TS2322");
    assert_eq!(CommonErrors::from_code("TS7044").to_string(), "TS7006");
    assert_eq!(CommonErrors::from_code("TS18048").to_string(), "TS2532");
    assert_eq!(CommonErrors::from_code("TS18047").to_string(), "TS2531");
    assert_eq!(CommonErrors::from_code("TS18046").to_string(), "TS18046");
    assert_eq!(CommonErrors::from_code("XY12").to_string(), "XY12");
}

#[test]
fn parse_rejects_bad_input() {
    assert!(parse("bad input").is_none());
}

#[test]
fn parse_rejects_non_numeric_column() {
    assert!(parse("a.ts(3,x): error TS2322: msg").is_none());
}

#[test]
fn parse_rejects_missing_separators() {
    assert!(parse("a.ts3,4): error TS2322: msg").is_none());
    assert!(parse("a.ts(3,4) error TS2322: msg").is_none());
    assert!(parse("a.ts(3 4): error TS2322: msg").is_none());
    assert!(parse("a.ts(3,4): error TS2322 msg").is_none());
    assert!(parse("").is_none());
}

#[test]
fn parse_rejects_bad_numbers() {
    assert!(parse("a.ts(,4): error TS2322: msg").is_none());
    assert!(parse("a.ts(-3,4): error TS2322: msg").is_none());
    assert!(parse("a.ts(3,99999999999999999999999): error TS2322: msg").is_none());
}

#[test]
fn parse_valid_line() {
    let e = parse("src/app.ts(10,5): error TS2322: Type 'string' is not assignable to type 'number'.")
        .unwrap();
    assert_eq!(e.file, "src/app.ts");
    assert_eq!(e.line, 10);
    assert_eq!(e.column, 5);
    assert_eq!(e.code, CommonErrors::TypeMismatch);
    assert_eq!(e.message, "Type 'string' is not assignable to type 'number'.");
}

#[test]
fn parse_uses_first_separators() {
    let e = parse("x.ts(1,2): error TS9: a: b): error c").unwrap();
    assert_eq!(e.file, "x.ts");
    assert_eq!(e.code, CommonErrors::Unsupported("TS9".to_string()));
    assert_eq!(e.message, "a: b): error c");
}

#[test]
fn parse_is_repeatable() {
    let line = "lib/a.ts(7,12): error TS2339: Property 'x' does not exist on type 'Y'.";
    let a = parse(line).unwrap();
    let b = parse(line).unwrap();
    assert_eq!(a.file, b.file);
    assert_eq!((a.line, a.column), (b.line, b.column));
    assert_eq!(a.code, b.code);
    assert_eq!(a.message, b.message);
}

#[test]
fn decimal_numbers() {
    assert_eq!(parse_decimal("0"), Some(0));
    assert_eq!(parse_decimal("+42"), Some(42));
    assert_eq!(parse_decimal("18446744073709551615"), Some(usize::MAX));
    assert_eq!(parse_decimal("18446744073709551616"), None);
    assert_eq!(parse_decimal("+"), None);
    assert_eq!(parse_decimal(""), None);
    assert_eq!(parse_decimal("1a"), None);
}
