use vstd::prelude::*;
use crate::objtype::{argument_mismatches, parse_ts2345_error, triples_view};
use crate::parser::{CommonErrors, ErrorKind, TsError, TsErrorView};
use crate::tokenizer::Token;
use crate::text::{find, find_from, find_exec, find_from_exec, quoted_or, quoted_or_exec, rfind, rfind_exec};
use colored::Colorize;

verus! {

/// Lines that suggest a fix, and one optional line of help.
#[derive(Debug, Clone)]
pub struct Suggestion {
    pub suggestions: Vec<String>,
    pub help: Option<String>,
}

pub struct SuggestionView {
    pub lines: Seq<Seq<char>>,
    pub help: Option<Seq<char>>,
}

impl View for Suggestion {
    type V = SuggestionView;

    open spec fn view(&self) -> SuggestionView {
        SuggestionView {
            lines: self.suggestions@.map_values(|s: String| s@),
            help: match self.help {
                Some(h) => Some(h@),
                None => None,
            },
        }
    }
}

/// The token spans the 1-based `column` of `line`.
pub open spec fn covers(t: Token, line: nat, column: nat) -> bool {
    &&& t.line == line
    &&& column >= 1
    &&& t.column <= column - 1 < t.column + t.raw@.len()
}

/// The text of the first token that spans the 1-based position.
pub open spec fn token_at(toks: Seq<Token>, line: nat, column: nat) -> Option<Seq<char>>
    decreases toks.len(),
{
    if toks.len() == 0 {
        None
    } else if covers(toks[0], line, column) {
        Some(toks[0].raw@)
    } else {
        token_at(toks.drop_first(), line, column)
    }
}

/// The source and target type of an assignment message: the quoted text after the
/// first `ype '` past the message's first character, and the quoted text after it.
pub open spec fn assigned_types(m: Seq<char>) -> Option<(Seq<char>, Seq<char>)> {
    match find_from(m, "ype '"@, 1) {
        None => None,
        Some(q) => {
            let s1 = m.skip(q + "ype '"@.len());
            match find(s1, "'"@) {
                None => None,
                Some(a) => {
                    let s2 = s1.skip(a + 1);
                    match find(s2, "'"@) {
                        None => None,
                        Some(b) => {
                            let s3 = s2.skip(b + 1);
                            let to = match find(s3, "'"@) {
                                Some(c) => s3.take(c),
                                None => s3,
                            };
                            Some((s1.take(a), to))
                        },
                    }
                },
            }
        },
    }
}

/// The type named after the last `type '` of a message, up to the next quote.
pub open spec fn missing_in_type(m: Seq<char>) -> Option<Seq<char>> {
    match rfind(m, "type '"@) {
        None => None,
        Some(i) => {
            let rest = m.skip(i + "type '"@.len());
            match find(rest, "'"@) {
                Some(e) => Some(rest.take(e)),
                None => None,
            }
        },
    }
}

pub open spec fn one_line(line: Seq<char>, help: Seq<char>) -> SuggestionView {
    SuggestionView { lines: seq![line], help: Some(help) }
}

/// `r` is `s` itself when not `styled`, else `s` with terminal emphasis.
pub open spec fn painted_as(s: Seq<char>, r: Seq<char>, styled: bool) -> bool {
    if styled {
        emphasis_of(s, r)
    } else {
        r == s
    }
}

/// Each text of `out` is the text of `plain` at the same index, painted.
pub open spec fn painted_all(plain: Seq<Seq<char>>, out: Seq<Seq<char>>, styled: bool) -> bool {
    &&& out.len() == plain.len()
    &&& forall|i: int| 0 <= i < plain.len() ==> painted_as(#[trigger] plain[i], out[i], styled)
}

pub open spec fn type_mismatch_values(m: Seq<char>) -> Seq<Seq<char>> {
    match assigned_types(m) {
        Some((from, to)) => seq![from, to],
        None => seq!["type"@, "type"@],
    }
}

pub open spec fn type_mismatch_lines(v: Seq<Seq<char>>) -> SuggestionView {
    one_line(
        "Try converting this value from `"@ + v[0] + "` to `"@ + v[1] + "`."@,
        "Ensure that the types are compatible or perform an explicit conversion."@,
    )
}

/// The property mismatches of an argument type message; none when it does not hold
/// both object types.
pub open spec fn argument_mismatch_list(m: Seq<char>) -> Seq<(Seq<char>, Seq<char>, Seq<char>)> {
    match argument_mismatches(m) {
        Some(v) => v,
        None => seq![],
    }
}

pub open spec fn mismatch_lines(v: Seq<(Seq<char>, Seq<char>, Seq<char>)>) -> Seq<Seq<char>> {
    v.map_values(
        |t: (Seq<char>, Seq<char>, Seq<char>)|
            "Property `"@ + t.0 + "` is provided as `"@ + t.1 + "` but expects `"@ + t.2 + "`."@,
    )
}

pub open spec fn inline_type_mismatch_lines(v: Seq<(Seq<char>, Seq<char>, Seq<char>)>) -> SuggestionView {
    SuggestionView {
        lines: mismatch_lines(v),
        help: Some(
            "Check the function arguments to ensure they match the expected parameter types."@,
        ),
    }
}

/// Each triple of `out` is the triple of `plain` at the same index, painted.
pub open spec fn painted_triples(
    plain: Seq<(Seq<char>, Seq<char>, Seq<char>)>,
    out: Seq<(Seq<char>, Seq<char>, Seq<char>)>,
    styled: bool,
) -> bool {
    &&& out.len() == plain.len()
    &&& forall|i: int|
        0 <= i < plain.len() ==> painted_as(#[trigger] plain[i].0, out[i].0, styled) && painted_as(
            plain[i].1,
            out[i].1,
            styled,
        ) && painted_as(plain[i].2, out[i].2, styled)
}

pub open spec fn inline_type_mismatch_text(m: Seq<char>) -> SuggestionView {
    inline_type_mismatch_lines(argument_mismatch_list(m))
}

pub open spec fn missing_parameters_values(e: TsErrorView, toks: Seq<Token>) -> Seq<Seq<char>> {
    match token_at(toks, e.line, e.column) {
        Some(t) => seq![t],
        None => seq![quoted_or(e.message, 1, "function"@)],
    }
}

pub open spec fn missing_parameters_lines(v: Seq<Seq<char>>) -> SuggestionView {
    one_line(
        "Check if all required arguments are provided when invoking "@ + v[0],
        "Function `"@ + v[0] + "` is missing 1 or more arguments."@,
    )
}

pub open spec fn no_implicit_any_values(m: Seq<char>) -> Seq<Seq<char>> {
    seq![quoted_or(m, 1, "parameter"@)]
}

pub open spec fn no_implicit_any_lines(v: Seq<Seq<char>>) -> SuggestionView {
    one_line(
        v[0] + " is implicitly `any`."@,
        "Consider adding type annotations to avoid implicit 'any' types."@,
    )
}

/// The token at the error's position (the placeholder `object` when no token spans
/// it) and the type that the message names; no values when the message names no type.
pub open spec fn property_missing_in_type_values(e: TsErrorView, toks: Seq<Token>) -> Seq<Seq<char>> {
    match missing_in_type(e.message) {
        Some(t) => seq![
            match token_at(toks, e.line, e.column) {
                Some(r) => r,
                None => "object"@,
            },
            t,
        ],
        None => seq![],
    }
}

pub open spec fn property_missing_in_type_lines(m: Seq<char>, v: Seq<Seq<char>>) -> SuggestionView {
    match missing_in_type(m) {
        Some(_) => one_line(
            "Verify that `"@ + v[0] + "` matches the annotated type `"@ + v[1] + "`."@,
            "Ensure that `"@ + v[0] + "` has all required properties defined in the type `"@ + v[1]
                + "`."@,
        ),
        None => one_line(
            "Verify that the object structure includes all required members of the specified type."@,
            "Ensure the object has all required properties defined in the type."@,
        ),
    }
}

pub open spec fn property_does_not_exist_values(m: Seq<char>) -> Seq<Seq<char>> {
    seq![quoted_or(m, 1, "property"@), quoted_or(m, 3, "type"@)]
}

pub open spec fn property_does_not_exist_lines(v: Seq<Seq<char>>) -> SuggestionView {
    one_line(
        "Property `"@ + v[0] + "` is not found on type `"@ + v[1] + "`."@,
        "Ensure the property exists on the type or adjust your code to avoid accessing it."@,
    )
}

pub open spec fn possibly_undefined_values(m: Seq<char>) -> Seq<Seq<char>> {
    seq![quoted_or(m, 1, "object"@)]
}

pub open spec fn possibly_undefined_lines(v: Seq<Seq<char>>) -> SuggestionView {
    one_line(
        v[0] + " may be `undefined` here."@,
        "Consider optional chaining or an explicit check before attempting to access `"@ + v[0]
            + "`"@,
    )
}

pub open spec fn direct_cast_values(m: Seq<char>) -> Seq<Seq<char>> {
    seq![quoted_or(m, 1, "type"@), quoted_or(m, 3, "type"@)]
}

pub open spec fn direct_cast_lines(v: Seq<Seq<char>>) -> SuggestionView {
    one_line(
        "Directly casting from `"@ + v[0] + "` to `"@ + v[1]
            + "` can be unsafe or mistaken, as both types do not overlap sufficiently."@,
        "Consider using type guards or intermediate conversions to ensure type safety when casting from `"@
            + v[0] + "` to `"@ + v[1]
            + "`, only intermediately cast `as unknown` if this is desired."@,
    )
}

pub open spec fn invalid_shadow_values(m: Seq<char>) -> Seq<Seq<char>> {
    seq![quoted_or(m, 1, "variable"@)]
}

pub open spec fn invalid_shadow_lines(v: Seq<Seq<char>>) -> SuggestionView {
    one_line(
        "Declared variable `"@ + v[0] + "` can not shadow another variable in this scope."@,
        "Consider renaming the invalid shadowed variable `"@ + v[0] + "`."@,
    )
}

pub open spec fn missing_module_values(m: Seq<char>) -> Seq<Seq<char>> {
    seq![quoted_or(m, 1, "module"@)]
}

pub open spec fn missing_module_lines(v: Seq<Seq<char>>) -> SuggestionView {
    one_line(
        "Module `"@ + v[0] + "` does not exist."@,
        "Ensure that the module `"@ + v[0] + "` is installed and the import path is correct."@,
    )
}

pub open spec fn readonly_assignment_values(m: Seq<char>) -> Seq<Seq<char>> {
    seq![quoted_or(m, 1, "property"@)]
}

pub open spec fn readonly_assignment_lines(v: Seq<Seq<char>>) -> SuggestionView {
    one_line(
        "Property `"@ + v[0] + "` is readonly and thus can not be re-assigned."@,
        "Consider removing the assignment to the read-only property `"@ + v[0]
            + "` or changing its declaration to be mutable."@,
    )
}

/// The class, the interface and the missing property.
pub open spec fn interface_implementation_values(m: Seq<char>) -> Seq<Seq<char>> {
    seq![quoted_or(m, 1, "class"@), quoted_or(m, 3, "interface"@), quoted_or(m, 5, "property"@)]
}

pub open spec fn interface_implementation_lines(v: Seq<Seq<char>>) -> SuggestionView {
    one_line(
        "Class `"@ + v[0] + "` does not implement `"@ + v[2] + "` from interface `"@ + v[1] + "`."@,
        "Ensure that `"@ + v[0] + "` provides all required properties and methods defined in the interface `"@
            + v[1] + "`."@,
    )
}

/// The property, the class, the base class, and the property's type in each.
pub open spec fn base_class_property_values(m: Seq<char>) -> Seq<Seq<char>> {
    seq![
        quoted_or(m, 1, "property"@),
        quoted_or(m, 3, "type"@),
        quoted_or(m, 5, "base type"@),
        quoted_or(m, 7, "type"@),
        quoted_or(m, 9, "base type"@),
    ]
}

pub open spec fn base_class_property_lines(v: Seq<Seq<char>>) -> SuggestionView {
    SuggestionView {
        lines: seq![
            "Property `"@ + v[0] + "` in class `"@ + v[1]
                + "` is not assignable to the same property in base class `"@ + v[2] + "`."@,
            "Property `"@ + v[0] + "` is implemented as type `"@ + v[3] + "` but defined as `"@
                + v[4] + "`."@,
        ],
        help: Some(
            "Ensure that the type of property `"@ + v[0] + "` in class `"@ + v[1]
                + "` is compatible with the type defined in base class `"@ + v[2] + "`."@,
        ),
    }
}

pub open spec fn unknown_identifier_values(m: Seq<char>) -> Seq<Seq<char>> {
    seq![quoted_or(m, 1, "identifier"@)]
}

pub open spec fn unknown_identifier_lines(v: Seq<Seq<char>>) -> SuggestionView {
    one_line(
        "Identifier `"@ + v[0] + "` cannot be found in the current scope."@,
        "Ensure that `"@ + v[0]
            + "` is declared and accessible in the current scope or remove this reference."@,
    )
}

pub open spec fn uncallable_values(m: Seq<char>) -> Seq<Seq<char>> {
    seq![quoted_or(m, 1, "expression"@)]
}

pub open spec fn uncallable_lines(v: Seq<Seq<char>>) -> SuggestionView {
    one_line(
        "Expression `"@ + v[0] + "` not can not be invoked or called."@,
        "Ensure that `"@ + v[0]
            + "` is a function or has a callable signature before invoking it."@,
    )
}

pub open spec fn invalid_index_values(m: Seq<char>) -> Seq<Seq<char>> {
    seq![quoted_or(m, 1, "type"@)]
}

pub open spec fn invalid_index_lines(v: Seq<Seq<char>>) -> SuggestionView {
    one_line(
        "`"@ + v[0] + "` cannot be used as an index accessor."@,
        "Ensure that the index type is `number`, `string`, `symbole` or a compatible index type."@,
    )
}

/// The property, the type (emphasised one way in the line and another in the help)
/// and the suggested property.
pub open spec fn property_typo_values(m: Seq<char>) -> Seq<Seq<char>> {
    seq![
        quoted_or(m, 1, "property"@),
        quoted_or(m, 3, "type"@),
        quoted_or(m, 5, "property"@),
        quoted_or(m, 3, "type"@),
    ]
}

pub open spec fn property_typo_lines(v: Seq<Seq<char>>) -> SuggestionView {
    one_line(
        "Property `"@ + v[0] + "` does not exist on type `"@ + v[1] + "`. Try `"@ + v[2]
            + "` instead"@,
        "Check for typos in the property name `"@ + v[0] + "` or ensure that it is defined on type `"@
            + v[3] + "`."@,
    )
}

/// The values that the strategy of the error's category takes from the message and
/// the tokens, in the order in which its text uses them.
pub open spec fn values_of(e: TsErrorView, toks: Seq<Token>) -> Seq<Seq<char>> {
    let m = e.message;
    match e.code {
        ErrorKind::TypeMismatch => type_mismatch_values(m),
        ErrorKind::MissingParameters => missing_parameters_values(e, toks),
        ErrorKind::NoImplicitAny => no_implicit_any_values(m),
        ErrorKind::PropertyMissingInType => property_missing_in_type_values(e, toks),
        ErrorKind::PropertyDoesNotExist => property_does_not_exist_values(m),
        ErrorKind::ObjectIsPossiblyUndefined => possibly_undefined_values(m),
        ErrorKind::DirectCastPotentiallyMistaken => direct_cast_values(m),
        ErrorKind::InvalidShadowInScope => invalid_shadow_values(m),
        ErrorKind::NonExistentModuleImport => missing_module_values(m),
        ErrorKind::ReadonlyPropertyAssignment => readonly_assignment_values(m),
        ErrorKind::IncorrectInterfaceImplementation => interface_implementation_values(m),
        ErrorKind::PropertyInClassNotAssignableToBase => base_class_property_values(m),
        ErrorKind::CannotFindIdentifier => unknown_identifier_values(m),
        ErrorKind::UncallableExpression => uncallable_values(m),
        ErrorKind::InvalidIndexType => invalid_index_values(m),
        ErrorKind::TypoPropertyOnType => property_typo_values(m),
        _ => seq![],
    }
}

/// The text that the strategy of the error's category writes around the values `v`
/// (the fixed advice of the categories that take no value).
pub open spec fn template_of(e: TsErrorView, v: Seq<Seq<char>>) -> SuggestionView {
    match e.code {
        ErrorKind::TypeMismatch => type_mismatch_lines(v),
        ErrorKind::MissingParameters => missing_parameters_lines(v),
        ErrorKind::NoImplicitAny => no_implicit_any_lines(v),
        ErrorKind::PropertyMissingInType => property_missing_in_type_lines(e.message, v),
        ErrorKind::UnintentionalComparison => one_line(
            "Impossible to compare as left side value is narrowed to a single value."@,
            "Review the comparison logic to ensure it makes sense."@,
        ),
        ErrorKind::PropertyDoesNotExist => property_does_not_exist_lines(v),
        ErrorKind::ObjectIsPossiblyUndefined => possibly_undefined_lines(v),
        ErrorKind::DirectCastPotentiallyMistaken => direct_cast_lines(v),
        ErrorKind::SpreadArgumentMustBeTupleType => one_line(
            "The argument being spread must be a tuple type or a `spreadable` type."@,
            "Ensure that the argument being spread is a tuple type compatible with the function's parameter type."@,
        ),
        ErrorKind::RightSideArithmeticMustBeNumber => one_line(
            "The right-hand side of any arithmetic operation must be a number or enumerable."@,
            "Ensure that the value on the right side of the arithmetic operator is of type `number`, `bigint` or an enum member."@,
        ),
        ErrorKind::LeftSideArithmeticMustBeNumber => one_line(
            "The left-hand side of any arithmetic operation must be a number or enumerable."@,
            "Ensure that the value on the left side of the arithmetic operator is of type `number`, `bigint` or an enum member."@,
        ),
        ErrorKind::IncompatibleOverload => one_line(
            "The provided arguments do not match any overload of the function."@,
            "Check the function overloads and ensure that this signature adheres to the parent signature."@,
        ),
        ErrorKind::InvalidShadowInScope => invalid_shadow_lines(v),
        ErrorKind::NonExistentModuleImport => missing_module_lines(v),
        ErrorKind::ReadonlyPropertyAssignment => readonly_assignment_lines(v),
        ErrorKind::IncorrectInterfaceImplementation => interface_implementation_lines(v),
        ErrorKind::PropertyInClassNotAssignableToBase => base_class_property_lines(v),
        ErrorKind::CannotFindIdentifier => unknown_identifier_lines(v),
        ErrorKind::MissingReturnValue => one_line(
            "A return value is missing where one is expected."@,
            "A function that declares a return type must return a value of that type on all branches."@,
        ),
        ErrorKind::UncallableExpression => uncallable_lines(v),
        ErrorKind::InvalidIndexType => invalid_index_lines(v),
        ErrorKind::TypoPropertyOnType => property_typo_lines(v),
        _ => one_line(Seq::empty(), Seq::empty()),
    }
}

/// The categories for which no strategy exists.
pub open spec fn uncovered(k: ErrorKind) -> bool {
    k is ObjectIsPossiblyNull || k is ObjectIsUnknown || k is Unsupported
}

/// The suggestion for a diagnostic and the tokens of its file, as plain text; none
/// for the categories that no strategy covers.
pub open spec fn suggestion_for(e: TsErrorView, toks: Seq<Token>) -> Option<SuggestionView> {
    if uncovered(e.code) {
        None
    } else if e.code is InlineTypeMismatch {
        Some(inline_type_mismatch_text(e.message))
    } else {
        Some(template_of(e, values_of(e, toks)))
    }
}

/// `r` is the suggestion for a covered diagnostic with each extracted value painted.
pub open spec fn renders_as(e: TsErrorView, toks: Seq<Token>, styled: bool, r: SuggestionView) -> bool {
    if uncovered(e.code) {
        false
    } else if e.code is InlineTypeMismatch {
        exists|t: Seq<(Seq<char>, Seq<char>, Seq<char>)>|
            painted_triples(argument_mismatch_list(e.message), t, styled) && r
                == inline_type_mismatch_lines(t)
    } else {
        exists|v: Seq<Seq<char>>|
            painted_all(values_of(e, toks), v, styled) && r == template_of(e, v)
    }
}

/// The escape sequence that ends a terminal style.
pub open spec fn reset_sequence() -> Seq<char> {
    seq!['\x1b', '[', '0', 'm']
}

/// A style sequence: `ESC [`, the style's parameters, and `m`.
pub open spec fn style_sequence(params: Seq<char>) -> Seq<char> {
    seq!['\x1b', '['] + params + seq!['m']
}

/// What emphasis does to a text: a text without an escape character comes back
/// unchanged, or between a style sequence and the reset sequence.
pub open spec fn emphasis_of(s: Seq<char>, r: Seq<char>) -> bool {
    (forall|i: int| 0 <= i < s.len() ==> s[i] != '\x1b') ==> (r == s || exists|params: Seq<char>|
        r == style_sequence(params) + s + reset_sequence())
}

/// Relies on colored's `Colorize::red` and `ColoredString::bold`, written out through
/// `Display`: the text as it is when colouring is off, else the style sequence, the
/// text, and the reset sequence (a reset sequence inside the text gets the style again).
#[verifier::external_body]
fn red_bold(s: &str) -> (r: String)
    ensures
        emphasis_of(s@, r@),
{
    format!("{}", s.red().bold())
}

/// Relies on colored's `Colorize::green` and `ColoredString::bold`, written out through
/// `Display`, as for `red_bold`.
#[verifier::external_body]
fn green_bold(s: &str) -> (r: String)
    ensures
        emphasis_of(s@, r@),
{
    format!("{}", s.green().bold())
}

/// Relies on colored's `Colorize::yellow` and `ColoredString::bold`, written out
/// through `Display`, as for `red_bold`.
#[verifier::external_body]
fn yellow_bold(s: &str) -> (r: String)
    ensures
        emphasis_of(s@, r@),
{
    format!("{}", s.yellow().bold())
}

/// Relies on colored's `Colorize::red`, `ColoredString::bold` and
/// `ColoredString::italic`, written out through `Display`, as for `red_bold`.
#[verifier::external_body]
fn red_bold_italic(s: &str) -> (r: String)
    ensures
        emphasis_of(s@, r@),
{
    format!("{}", s.red().bold().italic())
}

/// How a value extracted from a message is emphasised in a terminal.
enum Tint {
    Red,
    Green,
    Yellow,
    RedItalic,
}

/// The text, emphasised when `styled`, else as it is.
fn paint(s: &str, tint: Tint, styled: bool) -> (r: String)
    ensures
        painted_as(s@, r@, styled),
{
    if !styled {
        return String::from_str(s);
    }
    match tint {
        Tint::Red => red_bold(s),
        Tint::Green => green_bold(s),
        Tint::Yellow => yellow_bold(s),
        Tint::RedItalic => red_bold_italic(s),
    }
}

fn cat2(a: &str, b: &str) -> (r: String)
    ensures
        r@ == a@ + b@,
{
    let mut r = String::from_str(a);
    r.append(b);
    r
}

fn cat3(a: &str, b: &str, c: &str) -> (r: String)
    ensures
        r@ == a@ + b@ + c@,
{
    let mut r = String::from_str(a);
    r.append(b);
    r.append(c);
    r
}

fn cat5(a: &str, b: &str, c: &str, d: &str, e: &str) -> (r: String)
    ensures
        r@ == a@ + b@ + c@ + d@ + e@,
{
    let mut r = cat3(a, b, c);
    r.append(d);
    r.append(e);
    r
}

fn cat7(a: &str, b: &str, c: &str, d: &str, e: &str, f: &str, g: &str) -> (r: String)
    ensures
        r@ == a@ + b@ + c@ + d@ + e@ + f@ + g@,
{
    let mut r = cat5(a, b, c, d, e);
    r.append(f);
    r.append(g);
    r
}

fn one_line_exec(line: String, help: String) -> (r: Suggestion)
    ensures
        r@ == one_line(line@, help@),
{
    let ghost l = line@;
    let ghost h = help@;
    let r = Suggestion { suggestions: vec![line], help: Some(help) };
    assert(r@.lines =~= seq![l]);
    r
}

/// The index of the first token that spans the 1-based position.
fn token_index(tokens: &[Token], line: usize, column: usize) -> (r: Option<usize>)
    ensures
        r matches Some(j) ==> j < tokens@.len() && token_at(tokens@, line as nat, column as nat)
            == Some(tokens@[j as int].raw@),
        r is None ==> token_at(tokens@, line as nat, column as nat) is None,
{
    let mut i: usize = 0;
    assert(tokens@.skip(0) == tokens@);
    while i < tokens.len()
        invariant
            i <= tokens@.len(),
            token_at(tokens@, line as nat, column as nat) == token_at(
                tokens@.skip(i as int),
                line as nat,
                column as nat,
            ),
        decreases tokens@.len() - i,
    {
        let t = &tokens[i];
        assert(tokens@.skip(i as int)[0] == tokens@[i as int]);
        if t.line == line && column >= 1 && t.column <= column - 1 && (column - 1) - t.column
            < t.raw.as_str().unicode_len() {
            return Some(i);
        }
        assert(tokens@.skip(i as int).drop_first() == tokens@.skip(i + 1));
        i = i + 1;
    }
    None
}

/// The source and target types that an assignment message names.
fn parse_ts2322_error(msg: &str) -> (r: Option<(String, String)>)
    ensures
        r matches Some((a, b)) ==> assigned_types(msg@) == Some((a@, b@)),
        r is None ==> assigned_types(msg@) is None,
{
    proof {
        reveal_strlit("'");
    }
    let n = msg.unicode_len();
    let marker = "ype '";
    let q = match find_from_exec(msg, marker, 1) {
        Some(q) => q,
        None => return None,
    };
    let s1 = msg.substring_char(q + marker.unicode_len(), n);
    assert(s1@ == msg@.skip(q + marker@.len()));
    let n1 = s1.unicode_len();
    let a = match find_exec(s1, "'") {
        Some(a) => a,
        None => return None,
    };
    let from = s1.substring_char(0, a);
    assert(from@ == s1@.take(a as int));
    let s2 = s1.substring_char(a + 1, n1);
    assert(s2@ == s1@.skip(a + 1));
    let n2 = s2.unicode_len();
    let b = match find_exec(s2, "'") {
        Some(b) => b,
        None => return None,
    };
    let s3 = s2.substring_char(b + 1, n2);
    assert(s3@ == s2@.skip(b + 1));
    let to = match find_exec(s3, "'") {
        Some(c) => {
            let t = s3.substring_char(0, c);
            assert(t@ == s3@.take(c as int));
            t
        },
        None => s3,
    };
    Some((String::from_str(from), String::from_str(to)))
}

/// The type named after the last `type '` of a message.
fn parse_property_missing_error(msg: &str) -> (r: Option<String>)
    ensures
        r matches Some(t) ==> missing_in_type(msg@) == Some(t@),
        r is None ==> missing_in_type(msg@) is None,
{
    let n = msg.unicode_len();
    let marker = "type '";
    let i = match rfind_exec(msg, marker) {
        Some(i) => i,
        None => return None,
    };
    proof {
        crate::text::lemma_rfind_occurs(msg@, marker@);
    }
    let rest = msg.substring_char(i + marker.unicode_len(), n);
    assert(rest@ == msg@.skip(i + marker@.len()));
    match find_exec(rest, "'") {
        Some(e) => {
            let t = rest.substring_char(0, e);
            assert(t@ == rest@.take(e as int));
            Some(String::from_str(t))
        },
        None => None,
    }
}

/// The conversion that an assignment message calls for.
fn type_mismatch_2322(msg: &str, styled: bool) -> (r: Suggestion)
    ensures
        exists|v: Seq<Seq<char>>|
            painted_all(type_mismatch_values(msg@), v, styled) && r@ == type_mismatch_lines(v),
{
    let (from, to) = match parse_ts2322_error(msg) {
        Some(p) => p,
        None => (String::from_str("type"), String::from_str("type")),
    };
    let f = paint(from.as_str(), Tint::Red, styled);
    let t = paint(to.as_str(), Tint::Green, styled);
    let r = one_line_exec(
        cat5("Try converting this value from `", f.as_str(), "` to `", t.as_str(), "`."),
        String::from_str("Ensure that the types are compatible or perform an explicit conversion."),
    );
    let ghost v = seq![f@, t@];
    assert(painted_all(type_mismatch_values(msg@), v, styled));
    assert(r@ == type_mismatch_lines(v));
    r
}

/// Painting one more triple extends a painted prefix by one.
proof fn lemma_painted_triples_push(
    plain: Seq<(Seq<char>, Seq<char>, Seq<char>)>,
    out: Seq<(Seq<char>, Seq<char>, Seq<char>)>,
    i: int,
    t: (Seq<char>, Seq<char>, Seq<char>),
    styled: bool,
)
    requires
        0 <= i < plain.len(),
        painted_triples(plain.take(i), out, styled),
        painted_as(plain[i].0, t.0, styled),
        painted_as(plain[i].1, t.1, styled),
        painted_as(plain[i].2, t.2, styled),
    ensures
        painted_triples(plain.take(i + 1), out.push(t), styled),
{
    let pre = plain.take(i);
    let next = plain.take(i + 1);
    let out2 = out.push(t);
    assert(next =~= pre.push(plain[i]));
    assert forall|j: int| 0 <= j < next.len() implies painted_as(
        #[trigger] next[j].0,
        out2[j].0,
        styled,
    ) && painted_as(next[j].1, out2[j].1, styled) && painted_as(next[j].2, out2[j].2, styled) by {
        if j < i {
            assert(next[j] == pre[j]);
            assert(out2[j] == out[j]);
            assert(painted_as(pre[j].0, out[j].0, styled));
        } else {
            assert(next[j] == plain[i]);
            assert(out2[j] == t);
        }
    }
}

/// One line for each property whose provided type differs from the expected one.
fn inline_type_mismatch_2345(msg: &str, styled: bool) -> (r: Suggestion)
    ensures
        exists|t: Seq<(Seq<char>, Seq<char>, Seq<char>)>|
            painted_triples(argument_mismatch_list(msg@), t, styled) && r@
                == inline_type_mismatch_lines(t),
{
    let found = parse_ts2345_error(msg);
    let ghost plain = argument_mismatch_list(msg@);
    let ghost mut out: Seq<(Seq<char>, Seq<char>, Seq<char>)> = seq![];
    let mut lines: Vec<String> = Vec::new();
    match found {
        None => {
            assert(lines@.map_values(|s: String| s@) =~= mismatch_lines(out));
        },
        Some(v) => {
            let mut i: usize = 0;
            while i < v.len()
                invariant
                    plain == triples_view(v@),
                    i <= v@.len(),
                    painted_triples(plain.take(i as int), out, styled),
                    lines@.map_values(|s: String| s@) == mismatch_lines(out),
                decreases v@.len() - i,
            {
                let (property, provided, expected) = &v[i];
                let p = paint(property.as_str(), Tint::Red, styled);
                let g = paint(provided.as_str(), Tint::Red, styled);
                let e = paint(expected.as_str(), Tint::Green, styled);
                let line = cat7(
                    "Property `",
                    p.as_str(),
                    "` is provided as `",
                    g.as_str(),
                    "` but expects `",
                    e.as_str(),
                    "`.",
                );
                let ghost before = lines@;
                let ghost out0 = out;
                assert(plain[i as int] == (property@, provided@, expected@));
                lines.push(line);
                proof {
                    out = out.push((p@, g@, e@));
                    assert(lines@.map_values(|s: String| s@) =~= before.map_values(|s: String| s@).push(line@));
                    assert(mismatch_lines(out) =~= mismatch_lines(out0).push(line@));
                    lemma_painted_triples_push(plain, out0, i as int, (p@, g@, e@), styled);
                }
                i = i + 1;
            }
            assert(plain.take(i as int) == plain);
        },
    }
    let r = Suggestion {
        suggestions: lines,
        help: Some(
            String::from_str(
                "Check the function arguments to ensure they match the expected parameter types.",
            ),
        ),
    };
    assert(plain.take(0) =~= Seq::<(Seq<char>, Seq<char>, Seq<char>)>::empty());
    assert(painted_triples(plain, out, styled));
    assert(r@.lines =~= mismatch_lines(out));
    assert(r@ == inline_type_mismatch_lines(out));
    r
}

fn missing_parameters(err: &TsError, tokens: &[Token], styled: bool) -> (r: Suggestion)
    ensures
        exists|v: Seq<Seq<char>>|
            painted_all(missing_parameters_values(err@, tokens@), v, styled) && r@
                == missing_parameters_lines(v),
{
    let name: &str = match token_index(tokens, err.line, err.column) {
        Some(j) => tokens[j].raw.as_str(),
        None => quoted_or_exec(err.message.as_str(), 1, "function"),
    };
    let n = paint(name, Tint::Red, styled);
    let r = one_line_exec(
        cat2("Check if all required arguments are provided when invoking ", n.as_str()),
        cat3("Function `", n.as_str(), "` is missing 1 or more arguments."),
    );
    let ghost v = seq![n@];
    assert(painted_all(missing_parameters_values(err@, tokens@), v, styled));
    assert(r@ == missing_parameters_lines(v));
    r
}

fn no_implicit_any(msg: &str, styled: bool) -> (r: Suggestion)
    ensures
        exists|v: Seq<Seq<char>>|
            painted_all(no_implicit_any_values(msg@), v, styled) && r@ == no_implicit_any_lines(v),
{
    let p = paint(quoted_or_exec(msg, 1, "parameter"), Tint::Red, styled);
    let r = one_line_exec(
        cat2(p.as_str(), " is implicitly `any`."),
        String::from_str("Consider adding type annotations to avoid implicit 'any' types."),
    );
    let ghost v = seq![p@];
    assert(painted_all(no_implicit_any_values(msg@), v, styled));
    assert(r@ == no_implicit_any_lines(v));
    r
}

fn property_missing_in_type(err: &TsError, tokens: &[Token], styled: bool) -> (r: Suggestion)
    ensures
        exists|v: Seq<Seq<char>>|
            painted_all(property_missing_in_type_values(err@, tokens@), v, styled) && r@
                == property_missing_in_type_lines(err@.message, v),
{
    match parse_property_missing_error(err.message.as_str()) {
        Some(missing_type) => {
            let ghost found = match token_at(tokens@, err.line as nat, err.column as nat) {
                Some(r) => r,
                None => "object"@,
            };
            let var_name: &str = match token_index(tokens, err.line, err.column) {
                Some(j) => tokens[j].raw.as_str(),
                None => "object",
            };
            assert(var_name@ == found);
            let v = paint(var_name, Tint::RedItalic, styled);
            let t = paint(missing_type.as_str(), Tint::Red, styled);
            let r = one_line_exec(
                cat5(
                    "Verify that `",
                    v.as_str(),
                    "` matches the annotated type `",
                    t.as_str(),
                    "`.",
                ),
                cat5(
                    "Ensure that `",
                    v.as_str(),
                    "` has all required properties defined in the type `",
                    t.as_str(),
                    "`.",
                ),
            );
            let ghost vs = seq![v@, t@];
            assert(painted_all(property_missing_in_type_values(err@, tokens@), vs, styled));
            assert(r@ == property_missing_in_type_lines(err@.message, vs));
            r
        },
        None => {
            let r = one_line_exec(
                String::from_str(
                    "Verify that the object structure includes all required members of the specified type.",
                ),
                String::from_str(
                    "Ensure the object has all required properties defined in the type.",
                ),
            );
            let ghost vs = Seq::<Seq<char>>::empty();
            assert(painted_all(property_missing_in_type_values(err@, tokens@), vs, styled));
            assert(r@ == property_missing_in_type_lines(err@.message, vs));
            r
        },
    }
}

fn property_does_not_exist(msg: &str, styled: bool) -> (r: Suggestion)
    ensures
        exists|v: Seq<Seq<char>>|
            painted_all(property_does_not_exist_values(msg@), v, styled) && r@
                == property_does_not_exist_lines(v),
{
    let p = paint(quoted_or_exec(msg, 1, "property"), Tint::Red, styled);
    let t = paint(quoted_or_exec(msg, 3, "type"), Tint::Red, styled);
    let r = one_line_exec(
        cat5("Property `", p.as_str(), "` is not found on type `", t.as_str(), "`."),
        String::from_str(
            "Ensure the property exists on the type or adjust your code to avoid accessing it.",
        ),
    );
    let ghost v = seq![p@, t@];
    assert(painted_all(property_does_not_exist_values(msg@), v, styled));
    assert(r@ == property_does_not_exist_lines(v));
    r
}

fn object_possibly_undefined(msg: &str, styled: bool) -> (r: Suggestion)
    ensures
        exists|v: Seq<Seq<char>>|
            painted_all(possibly_undefined_values(msg@), v, styled) && r@
                == possibly_undefined_lines(v),
{
    let o = paint(quoted_or_exec(msg, 1, "object"), Tint::Red, styled);
    let r = one_line_exec(
        cat2(o.as_str(), " may be `undefined` here."),
        cat3(
            "Consider optional chaining or an explicit check before attempting to access `",
            o.as_str(),
            "`",
        ),
    );
    let ghost v = seq![o@];
    assert(painted_all(possibly_undefined_values(msg@), v, styled));
    assert(r@ == possibly_undefined_lines(v));
    r
}

fn direct_cast(msg: &str, styled: bool) -> (r: Suggestion)
    ensures
        exists|v: Seq<Seq<char>>|
            painted_all(direct_cast_values(msg@), v, styled) && r@ == direct_cast_lines(v),
{
    let f = paint(quoted_or_exec(msg, 1, "type"), Tint::Yellow, styled);
    let t = paint(quoted_or_exec(msg, 3, "type"), Tint::Yellow, styled);
    let r = one_line_exec(
        cat5(
            "Directly casting from `",
            f.as_str(),
            "` to `",
            t.as_str(),
            "` can be unsafe or mistaken, as both types do not overlap sufficiently.",
        ),
        cat5(
            "Consider using type guards or intermediate conversions to ensure type safety when casting from `",
            f.as_str(),
            "` to `",
            t.as_str(),
            "`, only intermediately cast `as unknown` if this is desired.",
        ),
    );
    let ghost v = seq![f@, t@];
    assert(painted_all(direct_cast_values(msg@), v, styled));
    assert(r@ == direct_cast_lines(v));
    r
}

fn invalid_shadow(msg: &str, styled: bool) -> (r: Suggestion)
    ensures
        exists|v: Seq<Seq<char>>|
            painted_all(invalid_shadow_values(msg@), v, styled) && r@ == invalid_shadow_lines(v),
{
    let n = paint(quoted_or_exec(msg, 1, "variable"), Tint::Red, styled);
    let r = one_line_exec(
        cat3(
            "Declared variable `",
            n.as_str(),
            "` can not shadow another variable in this scope.",
        ),
        cat3("Consider renaming the invalid shadowed variable `", n.as_str(), "`."),
    );
    let ghost v = seq![n@];
    assert(painted_all(invalid_shadow_values(msg@), v, styled));
    assert(r@ == invalid_shadow_lines(v));
    r
}

fn missing_module(msg: &str, styled: bool) -> (r: Suggestion)
    ensures
        exists|v: Seq<Seq<char>>|
            painted_all(missing_module_values(msg@), v, styled) && r@ == missing_module_lines(v),
{
    let n = paint(quoted_or_exec(msg, 1, "module"), Tint::Red, styled);
    let r = one_line_exec(
        cat3("Module `", n.as_str(), "` does not exist."),
        cat3(
            "Ensure that the module `",
            n.as_str(),
            "` is installed and the import path is correct.",
        ),
    );
    let ghost v = seq![n@];
    assert(painted_all(missing_module_values(msg@), v, styled));
    assert(r@ == missing_module_lines(v));
    r
}

fn readonly_assignment(msg: &str, styled: bool) -> (r: Suggestion)
    ensures
        exists|v: Seq<Seq<char>>|
            painted_all(readonly_assignment_values(msg@), v, styled) && r@
                == readonly_assignment_lines(v),
{
    let n = paint(quoted_or_exec(msg, 1, "property"), Tint::Red, styled);
    let r = one_line_exec(
        cat3("Property `", n.as_str(), "` is readonly and thus can not be re-assigned."),
        cat3(
            "Consider removing the assignment to the read-only property `",
            n.as_str(),
            "` or changing its declaration to be mutable.",
        ),
    );
    let ghost v = seq![n@];
    assert(painted_all(readonly_assignment_values(msg@), v, styled));
    assert(r@ == readonly_assignment_lines(v));
    r
}

fn interface_implementation(msg: &str, styled: bool) -> (r: Suggestion)
    ensures
        exists|v: Seq<Seq<char>>|
            painted_all(interface_implementation_values(msg@), v, styled) && r@
                == interface_implementation_lines(v),
{
    let c = paint(quoted_or_exec(msg, 1, "class"), Tint::Red, styled);
    let i = paint(quoted_or_exec(msg, 3, "interface"), Tint::Red, styled);
    let p = paint(quoted_or_exec(msg, 5, "property"), Tint::Red, styled);
    let r = one_line_exec(
        cat7(
            "Class `",
            c.as_str(),
            "` does not implement `",
            p.as_str(),
            "` from interface `",
            i.as_str(),
            "`.",
        ),
        cat5(
            "Ensure that `",
            c.as_str(),
            "` provides all required properties and methods defined in the interface `",
            i.as_str(),
            "`.",
        ),
    );
    let ghost v = seq![c@, i@, p@];
    assert(painted_all(interface_implementation_values(msg@), v, styled));
    assert(r@ == interface_implementation_lines(v));
    r
}

fn base_class_property(msg: &str, styled: bool) -> (r: Suggestion)
    ensures
        exists|v: Seq<Seq<char>>|
            painted_all(base_class_property_values(msg@), v, styled) && r@
                == base_class_property_lines(v),
{
    let p = paint(quoted_or_exec(msg, 1, "property"), Tint::Red, styled);
    let it = paint(quoted_or_exec(msg, 3, "type"), Tint::Red, styled);
    let bt = paint(quoted_or_exec(msg, 5, "base type"), Tint::Red, styled);
    let pit = paint(quoted_or_exec(msg, 7, "type"), Tint::Red, styled);
    let pbt = paint(quoted_or_exec(msg, 9, "base type"), Tint::Green, styled);
    let first = cat7(
        "Property `",
        p.as_str(),
        "` in class `",
        it.as_str(),
        "` is not assignable to the same property in base class `",
        bt.as_str(),
        "`.",
    );
    let second = cat7(
        "Property `",
        p.as_str(),
        "` is implemented as type `",
        pit.as_str(),
        "` but defined as `",
        pbt.as_str(),
        "`.",
    );
    let help = cat7(
        "Ensure that the type of property `",
        p.as_str(),
        "` in class `",
        it.as_str(),
        "` is compatible with the type defined in base class `",
        bt.as_str(),
        "`.",
    );
    let ghost l1 = first@;
    let ghost l2 = second@;
    let r = Suggestion { suggestions: vec![first, second], help: Some(help) };
    assert(r@.lines =~= seq![l1, l2]);
    let ghost v = seq![p@, it@, bt@, pit@, pbt@];
    assert(painted_all(base_class_property_values(msg@), v, styled));
    assert(r@ == base_class_property_lines(v));
    r
}

fn unknown_identifier(msg: &str, styled: bool) -> (r: Suggestion)
    ensures
        exists|v: Seq<Seq<char>>|
            painted_all(unknown_identifier_values(msg@), v, styled) && r@
                == unknown_identifier_lines(v),
{
    let n = paint(quoted_or_exec(msg, 1, "identifier"), Tint::Red, styled);
    let r = one_line_exec(
        cat3("Identifier `", n.as_str(), "` cannot be found in the current scope."),
        cat3(
            "Ensure that `",
            n.as_str(),
            "` is declared and accessible in the current scope or remove this reference.",
        ),
    );
    let ghost v = seq![n@];
    assert(painted_all(unknown_identifier_values(msg@), v, styled));
    assert(r@ == unknown_identifier_lines(v));
    r
}

fn uncallable(msg: &str, styled: bool) -> (r: Suggestion)
    ensures
        exists|v: Seq<Seq<char>>|
            painted_all(uncallable_values(msg@), v, styled) && r@ == uncallable_lines(v),
{
    let n = paint(quoted_or_exec(msg, 1, "expression"), Tint::Red, styled);
    let r = one_line_exec(
        cat3("Expression `", n.as_str(), "` not can not be invoked or called."),
        cat3(
            "Ensure that `",
            n.as_str(),
            "` is a function or has a callable signature before invoking it.",
        ),
    );
    let ghost v = seq![n@];
    assert(painted_all(uncallable_values(msg@), v, styled));
    assert(r@ == uncallable_lines(v));
    r
}

fn invalid_index(msg: &str, styled: bool) -> (r: Suggestion)
    ensures
        exists|v: Seq<Seq<char>>|
            painted_all(invalid_index_values(msg@), v, styled) && r@ == invalid_index_lines(v),
{
    let n = paint(quoted_or_exec(msg, 1, "type"), Tint::Red, styled);
    let r = one_line_exec(
        cat3("`", n.as_str(), "` cannot be used as an index accessor."),
        String::from_str(
            "Ensure that the index type is `number`, `string`, `symbole` or a compatible index type.",
        ),
    );
    let ghost v = seq![n@];
    assert(painted_all(invalid_index_values(msg@), v, styled));
    assert(r@ == invalid_index_lines(v));
    r
}

fn property_typo(msg: &str, styled: bool) -> (r: Suggestion)
    ensures
        exists|v: Seq<Seq<char>>|
            painted_all(property_typo_values(msg@), v, styled) && r@ == property_typo_lines(v),
{
    let p = paint(quoted_or_exec(msg, 1, "property"), Tint::Red, styled);
    let t = paint(quoted_or_exec(msg, 3, "type"), Tint::Yellow, styled);
    let s = paint(quoted_or_exec(msg, 5, "property"), Tint::Green, styled);
    let t2 = paint(quoted_or_exec(msg, 3, "type"), Tint::Red, styled);
    let r = one_line_exec(
        cat7(
            "Property `",
            p.as_str(),
            "` does not exist on type `",
            t.as_str(),
            "`. Try `",
            s.as_str(),
            "` instead",
        ),
        cat5(
            "Check for typos in the property name `",
            p.as_str(),
            "` or ensure that it is defined on type `",
            t2.as_str(),
            "`.",
        ),
    );
    let ghost v = seq![p@, t@, s@, t2@];
    assert(painted_all(property_typo_values(msg@), v, styled));
    assert(r@ == property_typo_lines(v));
    r
}

fn fixed(line: &str, help: &str) -> (r: Suggestion)
    ensures
        r@ == one_line(line@, help@),
{
    one_line_exec(String::from_str(line), String::from_str(help))
}

/// Picks the strategy of the error's category and applies it.
fn handle(err: &TsError, tokens: &[Token], styled: bool) -> (r: Option<Suggestion>)
    ensures
        r is None <==> uncovered(err@.code),
        r matches Some(x) ==> renders_as(err@, tokens@, styled, x@),
{
    let msg = err.message.as_str();
    let ghost e = err@;
    let ghost toks = tokens@;
    let ghost none = Seq::<Seq<char>>::empty();
    let r = match &err.code {
        CommonErrors::TypeMismatch => {
            let r = type_mismatch_2322(msg, styled);
            proof {
                let v = choose|v: Seq<Seq<char>>|
                    painted_all(type_mismatch_values(msg@), v, styled) && r@ == type_mismatch_lines(v);
                assert(painted_all(values_of(e, toks), v, styled) && r@ == template_of(e, v));
            }
            r
        },
        CommonErrors::InlineTypeMismatch => {
            let r = inline_type_mismatch_2345(msg, styled);
            proof {
                let t = choose|t: Seq<(Seq<char>, Seq<char>, Seq<char>)>|
                    painted_triples(argument_mismatch_list(msg@), t, styled) && r@
                        == inline_type_mismatch_lines(t);
                assert(painted_triples(argument_mismatch_list(e.message), t, styled));
            }
            r
        },
        CommonErrors::MissingParameters => {
            let r = missing_parameters(err, tokens, styled);
            proof {
                let v = choose|v: Seq<Seq<char>>|
                    painted_all(missing_parameters_values(e, toks), v, styled) && r@
                        == missing_parameters_lines(v);
                assert(painted_all(values_of(e, toks), v, styled) && r@ == template_of(e, v));
            }
            r
        },
        CommonErrors::NoImplicitAny => {
            let r = no_implicit_any(msg, styled);
            proof {
                let v = choose|v: Seq<Seq<char>>|
                    painted_all(no_implicit_any_values(msg@), v, styled) && r@ == no_implicit_any_lines(v);
                assert(painted_all(values_of(e, toks), v, styled) && r@ == template_of(e, v));
            }
            r
        },
        CommonErrors::PropertyMissingInType => {
            let r = property_missing_in_type(err, tokens, styled);
            proof {
                let v = choose|v: Seq<Seq<char>>|
                    painted_all(property_missing_in_type_values(e, toks), v, styled) && r@
                        == property_missing_in_type_lines(e.message, v);
                assert(painted_all(values_of(e, toks), v, styled) && r@ == template_of(e, v));
            }
            r
        },
        CommonErrors::UnintentionalComparison => {
            let r = fixed(
                "Impossible to compare as left side value is narrowed to a single value.",
                "Review the comparison logic to ensure it makes sense.",
            );
            assert(painted_all(values_of(e, toks), none, styled) && r@ == template_of(e, none));
            r
        },
        CommonErrors::PropertyDoesNotExist => {
            let r = property_does_not_exist(msg, styled);
            proof {
                let v = choose|v: Seq<Seq<char>>|
                    painted_all(property_does_not_exist_values(msg@), v, styled) && r@ == property_does_not_exist_lines(v);
                assert(painted_all(values_of(e, toks), v, styled) && r@ == template_of(e, v));
            }
            r
        },
        CommonErrors::ObjectIsPossiblyUndefined => {
            let r = object_possibly_undefined(msg, styled);
            proof {
                let v = choose|v: Seq<Seq<char>>|
                    painted_all(possibly_undefined_values(msg@), v, styled) && r@ == possibly_undefined_lines(v);
                assert(painted_all(values_of(e, toks), v, styled) && r@ == template_of(e, v));
            }
            r
        },
        CommonErrors::DirectCastPotentiallyMistaken => {
            let r = direct_cast(msg, styled);
            proof {
                let v = choose|v: Seq<Seq<char>>|
                    painted_all(direct_cast_values(msg@), v, styled) && r@ == direct_cast_lines(v);
                assert(painted_all(values_of(e, toks), v, styled) && r@ == template_of(e, v));
            }
            r
        },
        CommonErrors::SpreadArgumentMustBeTupleType => {
            let r = fixed(
                "The argument being spread must be a tuple type or a `spreadable` type.",
                "Ensure that the argument being spread is a tuple type compatible with the function's parameter type.",
            );
            assert(painted_all(values_of(e, toks), none, styled) && r@ == template_of(e, none));
            r
        },
        CommonErrors::RightSideArithmeticMustBeNumber => {
            let r = fixed(
                "The right-hand side of any arithmetic operation must be a number or enumerable.",
                "Ensure that the value on the right side of the arithmetic operator is of type `number`, `bigint` or an enum member.",
            );
            assert(painted_all(values_of(e, toks), none, styled) && r@ == template_of(e, none));
            r
        },
        CommonErrors::LeftSideArithmeticMustBeNumber => {
            let r = fixed(
                "The left-hand side of any arithmetic operation must be a number or enumerable.",
                "Ensure that the value on the left side of the arithmetic operator is of type `number`, `bigint` or an enum member.",
            );
            assert(painted_all(values_of(e, toks), none, styled) && r@ == template_of(e, none));
            r
        },
        CommonErrors::IncompatibleOverload => {
            let r = fixed(
                "The provided arguments do not match any overload of the function.",
                "Check the function overloads and ensure that this signature adheres to the parent signature.",
            );
            assert(painted_all(values_of(e, toks), none, styled) && r@ == template_of(e, none));
            r
        },
        CommonErrors::InvalidShadowInScope => {
            let r = invalid_shadow(msg, styled);
            proof {
                let v = choose|v: Seq<Seq<char>>|
                    painted_all(invalid_shadow_values(msg@), v, styled) && r@ == invalid_shadow_lines(v);
                assert(painted_all(values_of(e, toks), v, styled) && r@ == template_of(e, v));
            }
            r
        },
        CommonErrors::NonExistentModuleImport => {
            let r = missing_module(msg, styled);
            proof {
                let v = choose|v: Seq<Seq<char>>|
                    painted_all(missing_module_values(msg@), v, styled) && r@ == missing_module_lines(v);
                assert(painted_all(values_of(e, toks), v, styled) && r@ == template_of(e, v));
            }
            r
        },
        CommonErrors::ReadonlyPropertyAssignment => {
            let r = readonly_assignment(msg, styled);
            proof {
                let v = choose|v: Seq<Seq<char>>|
                    painted_all(readonly_assignment_values(msg@), v, styled) && r@ == readonly_assignment_lines(v);
                assert(painted_all(values_of(e, toks), v, styled) && r@ == template_of(e, v));
            }
            r
        },
        CommonErrors::IncorrectInterfaceImplementation => {
            let r = interface_implementation(msg, styled);
            proof {
                let v = choose|v: Seq<Seq<char>>|
                    painted_all(interface_implementation_values(msg@), v, styled) && r@ == interface_implementation_lines(v);
                assert(painted_all(values_of(e, toks), v, styled) && r@ == template_of(e, v));
            }
            r
        },
        CommonErrors::PropertyInClassNotAssignableToBase => {
            let r = base_class_property(msg, styled);
            proof {
                let v = choose|v: Seq<Seq<char>>|
                    painted_all(base_class_property_values(msg@), v, styled) && r@ == base_class_property_lines(v);
                assert(painted_all(values_of(e, toks), v, styled) && r@ == template_of(e, v));
            }
            r
        },
        CommonErrors::CannotFindIdentifier => {
            let r = unknown_identifier(msg, styled);
            proof {
                let v = choose|v: Seq<Seq<char>>|
                    painted_all(unknown_identifier_values(msg@), v, styled) && r@ == unknown_identifier_lines(v);
                assert(painted_all(values_of(e, toks), v, styled) && r@ == template_of(e, v));
            }
            r
        },
        CommonErrors::MissingReturnValue => {
            let r = fixed(
                "A return value is missing where one is expected.",
                "A function that declares a return type must return a value of that type on all branches.",
            );
            assert(painted_all(values_of(e, toks), none, styled) && r@ == template_of(e, none));
            r
        },
        CommonErrors::UncallableExpression => {
            let r = uncallable(msg, styled);
            proof {
                let v = choose|v: Seq<Seq<char>>|
                    painted_all(uncallable_values(msg@), v, styled) && r@ == uncallable_lines(v);
                assert(painted_all(values_of(e, toks), v, styled) && r@ == template_of(e, v));
            }
            r
        },
        CommonErrors::InvalidIndexType => {
            let r = invalid_index(msg, styled);
            proof {
                let v = choose|v: Seq<Seq<char>>|
                    painted_all(invalid_index_values(msg@), v, styled) && r@ == invalid_index_lines(v);
                assert(painted_all(values_of(e, toks), v, styled) && r@ == template_of(e, v));
            }
            r
        },
        CommonErrors::TypoPropertyOnType => {
            let r = property_typo(msg, styled);
            proof {
                let v = choose|v: Seq<Seq<char>>|
                    painted_all(property_typo_values(msg@), v, styled) && r@ == property_typo_lines(v);
                assert(painted_all(values_of(e, toks), v, styled) && r@ == template_of(e, v));
            }
            r
        },
        CommonErrors::ObjectIsPossiblyNull => return None,
        CommonErrors::ObjectIsUnknown => return None,
        CommonErrors::Unsupported(_) => return None,
    };
    Some(r)
}

/// Painting nothing leaves every text as it was.
proof fn lemma_unpainted(e: TsErrorView, toks: Seq<Token>, r: SuggestionView)
    requires
        renders_as(e, toks, false, r),
    ensures
        suggestion_for(e, toks) == Some(r),
{
    if e.code is InlineTypeMismatch {
        let plain = argument_mismatch_list(e.message);
        let t = choose|t: Seq<(Seq<char>, Seq<char>, Seq<char>)>|
            painted_triples(plain, t, false) && r == inline_type_mismatch_lines(t);
        assert(t =~= plain) by {
            assert forall|i: int| 0 <= i < plain.len() implies t[i] == plain[i] by {
                assert(painted_as(plain[i].0, t[i].0, false));
            }
        }
    } else {
        let plain = values_of(e, toks);
        let v = choose|v: Seq<Seq<char>>| painted_all(plain, v, false) && r == template_of(e, v);
        assert(v =~= plain) by {
            assert forall|i: int| 0 <= i < plain.len() implies v[i] == plain[i] by {
                assert(painted_as(plain[i], v[i], false));
            }
        }
    }
}

impl Suggestion {
    /// The suggestion for a diagnostic, as plain text; `None` for the categories
    /// that no strategy covers.
    pub fn synthesize(err: &TsError, tokens: &[Token]) -> (r: Option<Suggestion>)
        ensures
            r is None <==> suggestion_for(err@, tokens@) is None,
            r matches Some(x) ==> suggestion_for(err@, tokens@) == Some(x@),
    {
        let r = handle(err, tokens, false);
        proof {
            if r is Some {
                lemma_unpainted(err@, tokens@, r->0@);
            }
        }
        r
    }
}

/// Builds a suggestion for a diagnostic and the tokens of its file.
pub trait Suggest {
    fn build(err: &TsError, tokens: &[Token]) -> Option<Self> where Self: Sized;
}

impl Suggest for Suggestion {
    /// The suggestion for a diagnostic with its extracted values emphasised for a
    /// terminal: present for the same categories as `synthesize`, with the same
    /// text around each value.
    fn build(err: &TsError, tokens: &[Token]) -> (r: Option<Suggestion>)
        ensures
            r is None <==> suggestion_for(err@, tokens@) is None,
            r matches Some(x) ==> renders_as(err@, tokens@, true, x@),
    {
        handle(err, tokens, true)
    }
}

} // verus!
