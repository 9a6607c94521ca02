use vstd::prelude::*;
use crate::objtype::{
    argument_mismatches, lex_lt, mismatches, object_props, quoted_after, sorted_by_name,
    sorted_entries,
};
use crate::parser::{classify, decimal, parse_line, ErrorKind, TsErrorView};
use crate::suggestion::{
    inline_type_mismatch_lines, inline_type_mismatch_text, painted_all, painted_triples,
    renders_as, suggestion_for, template_of, values_of, SuggestionView,
};
use crate::text::{find, find_from, occurs_at, split_once};
use crate::tokenizer::Token;

verus! {

proof fn lemma_find_from_occurs(s: Seq<char>, p: Seq<char>, i: int)
    ensures
        find_from(s, p, i) matches Some(j) ==> occurs_at(s, p, j),
    decreases s.len() + 1 - i,
{
    if !(i < 0 || i + p.len() > s.len()) && !occurs_at(s, p, i) {
        lemma_find_from_occurs(s, p, i + 1);
    }
}

/// Splitting around a separator loses nothing: the two halves with the separator
/// between them give the text back.
pub proof fn lemma_split_once_joins(s: Seq<char>, p: Seq<char>)
    ensures
        split_once(s, p) matches Some((a, b)) ==> s == a + p + b,
{
    lemma_find_from_occurs(s, p, 0);
    if let Some(i) = find(s, p) {
        assert(s =~= s.take(i) + p + s.skip(i + p.len()));
    }
}

/// A line yields a diagnostic only when it is written
/// `<file>(<line>,<column>): error <code>: <message>` with both coordinates
/// numbers: a line that lacks one of the four separators, or whose coordinates are
/// not numbers, yields none.
pub proof fn lemma_parse_needs_grammar(line: Seq<char>)
    ensures
        parse_line(line) matches Some(e) ==> exists|l: Seq<char>, c: Seq<char>, code: Seq<char>|
            line == e.file + "("@ + l + ","@ + c + "): error "@ + code + ": "@ + e.message
                && decimal(l) == Some(e.line) && decimal(c) == Some(e.column) && classify(code)
                == e.code,
{
    if let Some(e) = parse_line(line) {
        let (file, rest) = split_once(line, "("@)->0;
        let (coords, rest2) = split_once(rest, "): error "@)->0;
        let (l, c) = split_once(coords, ","@)->0;
        let (code, message) = split_once(rest2, ": "@)->0;
        lemma_split_once_joins(line, "("@);
        lemma_split_once_joins(rest, "): error "@);
        lemma_split_once_joins(coords, ","@);
        lemma_split_once_joins(rest2, ": "@);
        assert(line =~= e.file + "("@ + l + ","@ + c + "): error "@ + code + ": "@ + e.message);
    }
}

/// The codes of the categories that no strategy covers never yield a suggestion,
/// whatever the message and the tokens.
pub proof fn lemma_uncovered_categories(e: TsErrorView, toks: Seq<Token>)
    requires
        e.code is ObjectIsUnknown || e.code is ObjectIsPossiblyNull || e.code is Unsupported,
    ensures
        suggestion_for(e, toks) is None,
{
}

/// A code outside the table is kept as it was given.
pub proof fn lemma_unknown_code_kept(code: Seq<char>)
    requires
        classify(code) is Unsupported,
    ensures
        classify(code) == ErrorKind::Unsupported(code),
{
}

/// The property mismatches depend on the two object types only through the
/// properties that they declare: types that declare the same properties, in any
/// order, give the same mismatch lines in the same order.
pub proof fn lemma_mismatches_ignore_declaration_order(m1: Seq<char>, m2: Seq<char>)
    requires
        quoted_after(m1, "Argument of type '"@) is Some,
        quoted_after(m2, "Argument of type '"@) is Some,
        quoted_after(m1, "to parameter of type '"@) is Some,
        quoted_after(m2, "to parameter of type '"@) is Some,
        object_props(quoted_after(m1, "Argument of type '"@)->0) == object_props(
            quoted_after(m2, "Argument of type '"@)->0,
        ),
        object_props(quoted_after(m1, "to parameter of type '"@)->0) == object_props(
            quoted_after(m2, "to parameter of type '"@)->0,
        ),
    ensures
        argument_mismatches(m1) == argument_mismatches(m2),
        inline_type_mismatch_text(m1) == inline_type_mismatch_text(m2),
{
}

/// Parsing and synthesis are functions of their inputs: equal inputs give equal
/// diagnostics and equal suggestions, line for line.
pub proof fn lemma_pure(line1: Seq<char>, line2: Seq<char>, e1: TsErrorView, e2: TsErrorView, t1: Seq<Token>, t2: Seq<Token>)
    requires
        line1 == line2,
        e1 == e2,
        t1 == t2,
    ensures
        parse_line(line1) == parse_line(line2),
        suggestion_for(e1, t1) == suggestion_for(e2, t2),
{
}

proof fn lemma_mismatch_names_listed(
    expected: Seq<(Seq<char>, Seq<char>)>,
    provided: Map<Seq<char>, Seq<char>>,
    x: int,
) -> (j: int)
    requires
        0 <= x < mismatches(expected, provided).len(),
    ensures
        0 <= j < expected.len(),
        expected[j].0 == mismatches(expected, provided)[x].0,
    decreases expected.len(),
{
    let k = expected[0].0;
    let rest = mismatches(expected.drop_first(), provided);
    if provided.contains_key(k) && provided[k] != expected[0].1 {
        if x == 0 {
            0
        } else {
            let j = lemma_mismatch_names_listed(expected.drop_first(), provided, x - 1);
            j + 1
        }
    } else {
        let j = lemma_mismatch_names_listed(expected.drop_first(), provided, x);
        j + 1
    }
}

/// Mismatches taken from entries ascending by name ascend by name too.
pub proof fn lemma_mismatches_ascend(
    expected: Seq<(Seq<char>, Seq<char>)>,
    provided: Map<Seq<char>, Seq<char>>,
)
    requires
        sorted_by_name(expected),
    ensures
        forall|a: int, b: int|
            0 <= a < b < mismatches(expected, provided).len() ==> lex_lt(
                #[trigger] mismatches(expected, provided)[a].0,
                #[trigger] mismatches(expected, provided)[b].0,
            ),
    decreases expected.len(),
{
    if expected.len() > 0 {
        let tail = expected.drop_first();
        assert(sorted_by_name(tail)) by {
            assert forall|a: int, b: int| 0 <= a < b < tail.len() implies lex_lt(
                #[trigger] tail[a].0,
                #[trigger] tail[b].0,
            ) by {
                assert(lex_lt(expected[a + 1].0, expected[b + 1].0));
            }
        }
        lemma_mismatches_ascend(tail, provided);
        let r = mismatches(expected, provided);
        let rest = mismatches(tail, provided);
        let k = expected[0].0;
        if provided.contains_key(k) && provided[k] != expected[0].1 {
            assert forall|a: int, b: int| 0 <= a < b < r.len() implies lex_lt(
                #[trigger] r[a].0,
                #[trigger] r[b].0,
            ) by {
                if a == 0 {
                    let j = lemma_mismatch_names_listed(tail, provided, b - 1);
                    assert(r[b] == rest[b - 1]);
                    assert(lex_lt(expected[0].0, expected[j + 1].0));
                } else {
                    assert(r[a] == rest[a - 1]);
                    assert(r[b] == rest[b - 1]);
                }
            }
        }
    }
}

/// The mismatch lines of an argument type message come out strictly ascending by
/// property name, whatever the order in which the message declares them.
pub proof fn lemma_argument_mismatches_ascend(m: Seq<char>)
    ensures
        argument_mismatches(m) matches Some(r) ==> forall|a: int, b: int|
            0 <= a < b < r.len() ==> lex_lt(#[trigger] r[a].0, #[trigger] r[b].0),
{
    if let (Some(p), Some(e)) = (
        quoted_after(m, "Argument of type '"@),
        quoted_after(m, "to parameter of type '"@),
    ) {
        let props = object_props(e);
        crate::objtype::lemma_object_props_listed(e);
        lemma_mismatches_ascend(sorted_entries(props), object_props(p));
    }
}

/// The terminal form of a suggestion may differ between two runs only in the
/// emphasis around its values (colouring depends on the terminal and the
/// environment): two renderings of one diagnostic have as many lines as each other
/// and as the plain suggestion, and a help line in the same cases.
pub proof fn lemma_styled_renderings_agree(
    e: TsErrorView,
    toks: Seq<Token>,
    r1: SuggestionView,
    r2: SuggestionView,
)
    requires
        renders_as(e, toks, true, r1),
        renders_as(e, toks, true, r2),
    ensures
        suggestion_for(e, toks) matches Some(p) && r1.lines.len() == p.lines.len()
            && r2.lines.len() == p.lines.len() && (r1.help is Some) == (p.help is Some) && (
        r2.help is Some) == (p.help is Some),
{
    if e.code is InlineTypeMismatch {
        let plain = crate::suggestion::argument_mismatch_list(e.message);
        let t1 = choose|t: Seq<(Seq<char>, Seq<char>, Seq<char>)>|
            painted_triples(plain, t, true) && r1 == inline_type_mismatch_lines(t);
        let t2 = choose|t: Seq<(Seq<char>, Seq<char>, Seq<char>)>|
            painted_triples(plain, t, true) && r2 == inline_type_mismatch_lines(t);
    } else {
        let plain = values_of(e, toks);
        let v1 = choose|v: Seq<Seq<char>>| painted_all(plain, v, true) && r1 == template_of(e, v);
        let v2 = choose|v: Seq<Seq<char>>| painted_all(plain, v, true) && r2 == template_of(e, v);
    }
}

} // verus!
