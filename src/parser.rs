use vstd::prelude::*;
use crate::text::{find_exec, split_once};

verus! {

/// The category of a diagnostic, as a mathematical value.
pub enum ErrorKind {
    TypeMismatch,
    InlineTypeMismatch,
    MissingParameters,
    NoImplicitAny,
    PropertyMissingInType,
    UnintentionalComparison,
    PropertyDoesNotExist,
    ObjectIsPossiblyUndefined,
    ObjectIsPossiblyNull,
    ObjectIsUnknown,
    DirectCastPotentiallyMistaken,
    SpreadArgumentMustBeTupleType,
    RightSideArithmeticMustBeNumber,
    LeftSideArithmeticMustBeNumber,
    IncompatibleOverload,
    InvalidShadowInScope,
    NonExistentModuleImport,
    ReadonlyPropertyAssignment,
    IncorrectInterfaceImplementation,
    PropertyInClassNotAssignableToBase,
    CannotFindIdentifier,
    MissingReturnValue,
    UncallableExpression,
    InvalidIndexType,
    TypoPropertyOnType,
    Unsupported(Seq<char>),
}

/// The category of a diagnostic: one per known code, or the unrecognised code itself.
#[derive(Debug, Clone, PartialEq, Eq)]
pub enum CommonErrors {
    TypeMismatch,
    InlineTypeMismatch,
    MissingParameters,
    NoImplicitAny,
    PropertyMissingInType,
    UnintentionalComparison,
    PropertyDoesNotExist,
    ObjectIsPossiblyUndefined,
    ObjectIsPossiblyNull,
    ObjectIsUnknown,
    DirectCastPotentiallyMistaken,
    SpreadArgumentMustBeTupleType,
    RightSideArithmeticMustBeNumber,
    LeftSideArithmeticMustBeNumber,
    IncompatibleOverload,
    InvalidShadowInScope,
    NonExistentModuleImport,
    ReadonlyPropertyAssignment,
    IncorrectInterfaceImplementation,
    PropertyInClassNotAssignableToBase,
    CannotFindIdentifier,
    MissingReturnValue,
    UncallableExpression,
    InvalidIndexType,
    TypoPropertyOnType,
    Unsupported(String),
}

impl View for CommonErrors {
    type V = ErrorKind;

    open spec fn view(&self) -> ErrorKind {
        match self {
            CommonErrors::TypeMismatch => ErrorKind::TypeMismatch,
            CommonErrors::InlineTypeMismatch => ErrorKind::InlineTypeMismatch,
            CommonErrors::MissingParameters => ErrorKind::MissingParameters,
            CommonErrors::NoImplicitAny => ErrorKind::NoImplicitAny,
            CommonErrors::PropertyMissingInType => ErrorKind::PropertyMissingInType,
            CommonErrors::UnintentionalComparison => ErrorKind::UnintentionalComparison,
            CommonErrors::PropertyDoesNotExist => ErrorKind::PropertyDoesNotExist,
            CommonErrors::ObjectIsPossiblyUndefined => ErrorKind::ObjectIsPossiblyUndefined,
            CommonErrors::ObjectIsPossiblyNull => ErrorKind::ObjectIsPossiblyNull,
            CommonErrors::ObjectIsUnknown => ErrorKind::ObjectIsUnknown,
            CommonErrors::DirectCastPotentiallyMistaken => ErrorKind::DirectCastPotentiallyMistaken,
            CommonErrors::SpreadArgumentMustBeTupleType => ErrorKind::SpreadArgumentMustBeTupleType,
            CommonErrors::RightSideArithmeticMustBeNumber => ErrorKind::RightSideArithmeticMustBeNumber,
            CommonErrors::LeftSideArithmeticMustBeNumber => ErrorKind::LeftSideArithmeticMustBeNumber,
            CommonErrors::IncompatibleOverload => ErrorKind::IncompatibleOverload,
            CommonErrors::InvalidShadowInScope => ErrorKind::InvalidShadowInScope,
            CommonErrors::NonExistentModuleImport => ErrorKind::NonExistentModuleImport,
            CommonErrors::ReadonlyPropertyAssignment => ErrorKind::ReadonlyPropertyAssignment,
            CommonErrors::IncorrectInterfaceImplementation => ErrorKind::IncorrectInterfaceImplementation,
            CommonErrors::PropertyInClassNotAssignableToBase => ErrorKind::PropertyInClassNotAssignableToBase,
            CommonErrors::CannotFindIdentifier => ErrorKind::CannotFindIdentifier,
            CommonErrors::MissingReturnValue => ErrorKind::MissingReturnValue,
            CommonErrors::UncallableExpression => ErrorKind::UncallableExpression,
            CommonErrors::InvalidIndexType => ErrorKind::InvalidIndexType,
            CommonErrors::TypoPropertyOnType => ErrorKind::TypoPropertyOnType,
            CommonErrors::Unsupported(code) => ErrorKind::Unsupported(code@),
        }
    }
}

/// The category that a diagnostic code stands for.
pub open spec fn classify(code: Seq<char>) -> ErrorKind {
    if code == "TS2322"@ {
        ErrorKind::TypeMismatch
    } else if code == "TS2345"@ {
        ErrorKind::InlineTypeMismatch
    } else if code == "TS2554"@ {
        ErrorKind::MissingParameters
    } else if code == "TS7006"@ || code == "TS7044"@ {
        ErrorKind::NoImplicitAny
    } else if code == "TS2741"@ {
        ErrorKind::PropertyMissingInType
    } else if code == "TS2367"@ {
        ErrorKind::UnintentionalComparison
    } else if code == "TS18046"@ {
        ErrorKind::ObjectIsUnknown
    } else if code == "TS2339"@ {
        ErrorKind::PropertyDoesNotExist
    } else if code == "TS2532"@ || code == "TS18048"@ {
        ErrorKind::ObjectIsPossiblyUndefined
    } else if code == "TS2531"@ || code == "TS18047"@ {
        ErrorKind::ObjectIsPossiblyNull
    } else if code == "TS2352"@ {
        ErrorKind::DirectCastPotentiallyMistaken
    } else if code == "TS2556"@ {
        ErrorKind::SpreadArgumentMustBeTupleType
    } else if code == "TS2363"@ {
        ErrorKind::RightSideArithmeticMustBeNumber
    } else if code == "TS2394"@ {
        ErrorKind::IncompatibleOverload
    } else if code == "TS2451"@ {
        ErrorKind::InvalidShadowInScope
    } else if code == "TS2307"@ {
        ErrorKind::NonExistentModuleImport
    } else if code == "TS2540"@ {
        ErrorKind::ReadonlyPropertyAssignment
    } else if code == "TS2420"@ {
        ErrorKind::IncorrectInterfaceImplementation
    } else {
        ErrorKind::Unsupported(code)
    }
}

/// The canonical code of a category; an unrecognised code is given back as it was.
pub open spec fn code_of(k: ErrorKind) -> Seq<char> {
    match k {
        ErrorKind::TypeMismatch => "TS2322"@,
        ErrorKind::InlineTypeMismatch => "TS2345"@,
        ErrorKind::MissingParameters => "TS2554"@,
        ErrorKind::NoImplicitAny => "TS7006"@,
        ErrorKind::PropertyMissingInType => "TS2741"@,
        ErrorKind::UnintentionalComparison => "TS2367"@,
        ErrorKind::PropertyDoesNotExist => "TS2339"@,
        ErrorKind::ObjectIsPossiblyUndefined => "TS2532"@,
        ErrorKind::ObjectIsPossiblyNull => "TS2531"@,
        ErrorKind::ObjectIsUnknown => "TS18046"@,
        ErrorKind::DirectCastPotentiallyMistaken => "TS2352"@,
        ErrorKind::SpreadArgumentMustBeTupleType => "TS2556"@,
        ErrorKind::RightSideArithmeticMustBeNumber => "TS2363"@,
        ErrorKind::LeftSideArithmeticMustBeNumber => "TS2362"@,
        ErrorKind::IncompatibleOverload => "TS2394"@,
        ErrorKind::InvalidShadowInScope => "TS2451"@,
        ErrorKind::NonExistentModuleImport => "TS2307"@,
        ErrorKind::ReadonlyPropertyAssignment => "TS2540"@,
        ErrorKind::IncorrectInterfaceImplementation => "TS2420"@,
        ErrorKind::PropertyInClassNotAssignableToBase => "TS2416"@,
        ErrorKind::CannotFindIdentifier => "TS2304"@,
        ErrorKind::MissingReturnValue => "TS2355"@,
        ErrorKind::UncallableExpression => "TS2349"@,
        ErrorKind::InvalidIndexType => "TS2538"@,
        ErrorKind::TypoPropertyOnType => "TS2551"@,
        ErrorKind::Unsupported(code) => code,
    }
}

impl CommonErrors {
    /// Classifies a diagnostic code; never fails.
    pub fn from_code(code: &str) -> (r: CommonErrors)
        ensures
            r@ == classify(code@),
    {
        if code_is(code, "TS2322") {
            CommonErrors::TypeMismatch
        } else if code_is(code, "TS2345") {
            CommonErrors::InlineTypeMismatch
        } else if code_is(code, "TS2554") {
            CommonErrors::MissingParameters
        } else if code_is(code, "TS7006") || code_is(code, "TS7044") {
            CommonErrors::NoImplicitAny
        } else if code_is(code, "TS2741") {
            CommonErrors::PropertyMissingInType
        } else if code_is(code, "TS2367") {
            CommonErrors::UnintentionalComparison
        } else if code_is(code, "TS18046") {
            CommonErrors::ObjectIsUnknown
        } else if code_is(code, "TS2339") {
            CommonErrors::PropertyDoesNotExist
        } else if code_is(code, "TS2532") || code_is(code, "TS18048") {
            CommonErrors::ObjectIsPossiblyUndefined
        } else if code_is(code, "TS2531") || code_is(code, "TS18047") {
            CommonErrors::ObjectIsPossiblyNull
        } else if code_is(code, "TS2352") {
            CommonErrors::DirectCastPotentiallyMistaken
        } else if code_is(code, "TS2556") {
            CommonErrors::SpreadArgumentMustBeTupleType
        } else if code_is(code, "TS2363") {
            CommonErrors::RightSideArithmeticMustBeNumber
        } else if code_is(code, "TS2394") {
            CommonErrors::IncompatibleOverload
        } else if code_is(code, "TS2451") {
            CommonErrors::InvalidShadowInScope
        } else if code_is(code, "TS2307") {
            CommonErrors::NonExistentModuleImport
        } else if code_is(code, "TS2540") {
            CommonErrors::ReadonlyPropertyAssignment
        } else if code_is(code, "TS2420") {
            CommonErrors::IncorrectInterfaceImplementation
        } else {
            CommonErrors::Unsupported(String::from_str(code))
        }
    }

    /// The canonical code of this category (the first of its aliases), or the
    /// unrecognised code as it was given.
    pub fn to_string(&self) -> (r: String)
        ensures
            r@ == code_of(self@),
    {
        let s: &str = match self {
            CommonErrors::TypeMismatch => "TS2322",
            CommonErrors::InlineTypeMismatch => "TS2345",
            CommonErrors::MissingParameters => "TS2554",
            CommonErrors::NoImplicitAny => "TS7006",
            CommonErrors::PropertyMissingInType => "TS2741",
            CommonErrors::UnintentionalComparison => "TS2367",
            CommonErrors::PropertyDoesNotExist => "TS2339",
            CommonErrors::ObjectIsPossiblyUndefined => "TS2532",
            CommonErrors::ObjectIsPossiblyNull => "TS2531",
            CommonErrors::ObjectIsUnknown => "TS18046",
            CommonErrors::DirectCastPotentiallyMistaken => "TS2352",
            CommonErrors::SpreadArgumentMustBeTupleType => "TS2556",
            CommonErrors::RightSideArithmeticMustBeNumber => "TS2363",
            CommonErrors::LeftSideArithmeticMustBeNumber => "TS2362",
            CommonErrors::IncompatibleOverload => "TS2394",
            CommonErrors::InvalidShadowInScope => "TS2451",
            CommonErrors::NonExistentModuleImport => "TS2307",
            CommonErrors::ReadonlyPropertyAssignment => "TS2540",
            CommonErrors::IncorrectInterfaceImplementation => "TS2420",
            CommonErrors::PropertyInClassNotAssignableToBase => "TS2416",
            CommonErrors::CannotFindIdentifier => "TS2304",
            CommonErrors::MissingReturnValue => "TS2355",
            CommonErrors::UncallableExpression => "TS2349",
            CommonErrors::InvalidIndexType => "TS2538",
            CommonErrors::TypoPropertyOnType => "TS2551",
            CommonErrors::Unsupported(code) => code.as_str(),
        };
        String::from_str(s)
    }
}

fn code_is(code: &str, known: &str) -> (r: bool)
    ensures
        r == (code@ == known@),
{
    crate::text::same_text(code, known)
}

/// One diagnostic: where it was reported, its category and its message.
#[derive(Debug, Clone)]
pub struct TsError {
    pub file: String,
    pub line: usize,
    pub column: usize,
    pub code: CommonErrors,
    pub message: String,
}

pub struct TsErrorView {
    pub file: Seq<char>,
    pub line: nat,
    pub column: nat,
    pub code: ErrorKind,
    pub message: Seq<char>,
}

impl View for TsError {
    type V = TsErrorView;

    open spec fn view(&self) -> TsErrorView {
        TsErrorView {
            file: self.file@,
            line: self.line as nat,
            column: self.column as nat,
            code: self.code@,
            message: self.message@,
        }
    }
}

pub open spec fn is_digit(c: char) -> bool {
    '0' <= c && c <= '9'
}

pub open spec fn all_digits(s: Seq<char>) -> bool {
    forall|i: int| 0 <= i < s.len() ==> is_digit(#[trigger] s[i])
}

/// The value of a string of decimal digits.
pub open spec fn digits_value(s: Seq<char>) -> nat
    decreases s.len(),
{
    if s.len() == 0 {
        0
    } else {
        digits_value(s.drop_last()) * 10 + ((s.last() as nat) - ('0' as nat)) as nat
    }
}

/// `s` without a leading `+`.
pub open spec fn unsigned_part(s: Seq<char>) -> Seq<char> {
    if s.len() > 0 && s[0] == '+' {
        s.drop_first()
    } else {
        s
    }
}

/// The number that `s` writes in base ten: digits after an optional `+`, with a
/// value that fits in `usize`.
pub open spec fn decimal(s: Seq<char>) -> Option<nat> {
    let d = unsigned_part(s);
    if d.len() > 0 && all_digits(d) && digits_value(d) <= usize::MAX {
        Some(digits_value(d))
    } else {
        None
    }
}

/// The diagnostic that a line `<file>(<line>,<column>): error <code>: <message>` holds.
pub open spec fn parse_line(line: Seq<char>) -> Option<TsErrorView> {
    match split_once(line, "("@) {
        None => None,
        Some((file, rest)) => match split_once(rest, "): error "@) {
            None => None,
            Some((coords, rest)) => match split_once(coords, ","@) {
                None => None,
                Some((line_s, col_s)) => match split_once(rest, ": "@) {
                    None => None,
                    Some((code, message)) => match (decimal(line_s), decimal(col_s)) {
                        (Some(l), Some(c)) => Some(
                            TsErrorView { file, line: l, column: c, code: classify(code), message },
                        ),
                        _ => None,
                    },
                },
            },
        },
    }
}

proof fn lemma_digits_value_prefix(s: Seq<char>, k: int)
    requires
        0 <= k <= s.len(),
    ensures
        digits_value(s.take(k)) <= digits_value(s),
    decreases s.len(),
{
    if k < s.len() {
        assert(s.drop_last().take(k) == s.take(k));
        lemma_digits_value_prefix(s.drop_last(), k);
    } else {
        assert(s.take(k) == s);
    }
}

/// Reads a number written in base ten, as `usize::from_str_radix(s, 10)` does.
pub fn parse_decimal(s: &str) -> (r: Option<usize>)
    ensures
        r matches Some(v) ==> decimal(s@) == Some(v as nat),
        r is None ==> decimal(s@) is None,
{
    let n = s.unicode_len();
    let mut i: usize = 0;
    if n > 0 && s.get_char(0) == '+' {
        i = 1;
    }
    let ghost d = unsigned_part(s@);
    assert(d == s@.skip(i as int));
    if i >= n {
        return None;
    }
    let start = i;
    let mut v: usize = 0;
    while i < n
        invariant
            n == s@.len(),
            start <= i <= n,
            d == s@.skip(start as int),
            d == unsigned_part(s@),
            all_digits(s@.subrange(start as int, i as int)),
            v as nat == digits_value(s@.subrange(start as int, i as int)),
        decreases n - i,
    {
        let c = s.get_char(i);
        let ghost pre = s@.subrange(start as int, i as int);
        assert(s@.subrange(start as int, i + 1) == pre.push(c));
        assert(s@.subrange(start as int, i + 1).drop_last() == pre);
        if !('0' <= c && c <= '9') {
            assert(d[i - start] == c);
            assert(!is_digit(d[i - start]));
            return None;
        }
        let dv = (c as u32 - '0' as u32) as usize;
        if v > (usize::MAX - dv) / 10 {
            proof {
                lemma_digits_value_prefix(d, i + 1 - start);
                assert(d.take(i + 1 - start) == s@.subrange(start as int, i + 1));
                let w = v as int;
                let e = dv as int;
                assert(w * 10 + e > usize::MAX) by (nonlinear_arith)
                    requires
                        w > (usize::MAX - e) / 10,
                        0 <= e <= 9,
                ;
                assert(digits_value(s@.subrange(start as int, i + 1)) == w * 10 + e);
            }
            return None;
        }
        v = v * 10 + dv;
        i = i + 1;
    }
    assert(d == s@.subrange(start as int, n as int));
    Some(v)
}

/// Reads one diagnostic line; `None` when it does not follow the grammar.
pub fn parse(line: &str) -> (r: Option<TsError>)
    ensures
        r matches Some(e) ==> parse_line(line@) == Some(e@),
        r is None ==> parse_line(line@) is None,
{
    let open = "(";
    let head = "): error ";
    let comma = ",";
    let colon = ": ";
    let (file, rest) = match split_once_exec(line, open) {
        Some(p) => p,
        None => return None,
    };
    let (coords, rest) = match split_once_exec(rest, head) {
        Some(p) => p,
        None => return None,
    };
    let (line_s, col_s) = match split_once_exec(coords, comma) {
        Some(p) => p,
        None => return None,
    };
    let (code, message) = match split_once_exec(rest, colon) {
        Some(p) => p,
        None => return None,
    };
    let l = match parse_decimal(line_s) {
        Some(v) => v,
        None => return None,
    };
    let c = match parse_decimal(col_s) {
        Some(v) => v,
        None => return None,
    };
    Some(
        TsError {
            file: String::from_str(file),
            line: l,
            column: c,
            code: CommonErrors::from_code(code),
            message: String::from_str(message),
        },
    )
}

/// Splits `s` around the first occurrence of `p`.
pub fn split_once_exec<'a>(s: &'a str, p: &str) -> (r: Option<(&'a str, &'a str)>)
    ensures
        r matches Some((a, b)) ==> split_once(s@, p@) == Some((a@, b@)),
        r is None ==> split_once(s@, p@) is None,
{
    let n = s.unicode_len();
    match find_exec(s, p) {
        None => None,
        Some(i) => {
            let m = p.unicode_len();
            let a = s.substring_char(0, i);
            let b = s.substring_char(i + m, n);
            assert(a@ == s@.take(i as int));
            assert(b@ == s@.skip(i + m));
            Some((a, b))
        },
    }
}

} // verus!
