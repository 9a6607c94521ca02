use vstd::prelude::*;
use crate::text::{find, find_exec, split_all, trim, trim_exec};

verus! {

/// Strict lexicographic order on character sequences, by code point.
pub open spec fn lex_lt(a: Seq<char>, b: Seq<char>) -> bool
    decreases a.len(),
{
    if a.len() == 0 {
        b.len() > 0
    } else if b.len() == 0 {
        false
    } else if a[0] != b[0] {
        a[0] < b[0]
    } else {
        lex_lt(a.drop_first(), b.drop_first())
    }
}

pub proof fn lemma_lex_irreflexive(a: Seq<char>)
    ensures
        !lex_lt(a, a),
    decreases a.len(),
{
    if a.len() > 0 {
        lemma_lex_irreflexive(a.drop_first());
    }
}

pub proof fn lemma_lex_transitive(a: Seq<char>, b: Seq<char>, c: Seq<char>)
    requires
        lex_lt(a, b),
        lex_lt(b, c),
    ensures
        lex_lt(a, c),
    decreases a.len(),
{
    if a.len() > 0 && b.len() > 0 && c.len() > 0 && a[0] == b[0] && b[0] == c[0] {
        lemma_lex_transitive(a.drop_first(), b.drop_first(), c.drop_first());
    }
}

pub proof fn lemma_lex_total(a: Seq<char>, b: Seq<char>)
    requires
        a != b,
    ensures
        lex_lt(a, b) || lex_lt(b, a),
    decreases a.len(),
{
    if a.len() > 0 && b.len() > 0 && a[0] == b[0] {
        if a.drop_first() == b.drop_first() {
            assert(a == seq![a[0]] + a.drop_first());
            assert(b == seq![b[0]] + b.drop_first());
        }
        lemma_lex_total(a.drop_first(), b.drop_first());
    } else if a.len() == 0 && b.len() == 0 {
        assert(a == b);
    }
}

pub proof fn lemma_lex_asymmetric(a: Seq<char>, b: Seq<char>)
    requires
        lex_lt(a, b),
    ensures
        !lex_lt(b, a),
{
    if lex_lt(b, a) {
        lemma_lex_transitive(a, b, a);
        lemma_lex_irreflexive(a);
    }
}

/// Entries strictly ascending by name.
pub open spec fn sorted_by_name(s: Seq<(Seq<char>, Seq<char>)>) -> bool {
    forall|i: int, j: int| 0 <= i < j < s.len() ==> lex_lt(#[trigger] s[i].0, #[trigger] s[j].0)
}

/// The entries `s` list exactly the name/value pairs of `m`.
pub open spec fn lists(s: Seq<(Seq<char>, Seq<char>)>, m: Map<Seq<char>, Seq<char>>) -> bool {
    &&& forall|i: int| 0 <= i < s.len() ==> #[trigger] m.contains_key(s[i].0) && m[s[i].0] == s[i].1
    &&& forall|k: Seq<char>| #[trigger] m.contains_key(k) ==> exists|i: int| 0 <= i < s.len() && s[i].0 == k
}

/// The entries of `m` ascending by name.
pub open spec fn sorted_entries(m: Map<Seq<char>, Seq<char>>) -> Seq<(Seq<char>, Seq<char>)> {
    choose|s: Seq<(Seq<char>, Seq<char>)>| sorted_by_name(s) && lists(s, m)
}

/// At most one sorted listing of a map exists.
pub proof fn lemma_sorted_listing_unique(
    s1: Seq<(Seq<char>, Seq<char>)>,
    s2: Seq<(Seq<char>, Seq<char>)>,
    m: Map<Seq<char>, Seq<char>>,
)
    requires
        sorted_by_name(s1),
        sorted_by_name(s2),
        lists(s1, m),
        lists(s2, m),
    ensures
        s1 == s2,
    decreases s1.len(),
{
    if s1.len() == 0 {
        if s2.len() > 0 {
            assert(m.contains_key(s2[0].0));
        }
        assert(s1 == s2);
    } else {
        assert(m.contains_key(s1[0].0));
        let j = choose|j: int| 0 <= j < s2.len() && s2[j].0 == s1[0].0;
        assert(m.contains_key(s2[0].0));
        let i = choose|i: int| 0 <= i < s1.len() && s1[i].0 == s2[0].0;
        if j > 0 {
            assert(lex_lt(s2[0].0, s2[j].0));
            if i > 0 {
                assert(lex_lt(s1[0].0, s1[i].0));
                lemma_lex_asymmetric(s1[0].0, s2[0].0);
            } else {
                lemma_lex_irreflexive(s1[0].0);
            }
        }
        let k = s1[0].0;
        assert(s2[0].0 == k);
        let m2 = m.remove(k);
        let t1 = s1.drop_first();
        let t2 = s2.drop_first();
        assert forall|x: int| 0 <= x < t1.len() implies #[trigger] m2.contains_key(t1[x].0)
            && m2[t1[x].0] == t1[x].1 by {
            assert(lex_lt(s1[0].0, s1[x + 1].0));
            lemma_lex_irreflexive(k);
        }
        assert forall|x: int| 0 <= x < t2.len() implies #[trigger] m2.contains_key(t2[x].0)
            && m2[t2[x].0] == t2[x].1 by {
            assert(lex_lt(s2[0].0, s2[x + 1].0));
            lemma_lex_irreflexive(k);
        }
        assert forall|q: Seq<char>| #[trigger] m2.contains_key(q) implies exists|x: int|
            0 <= x < t1.len() && t1[x].0 == q by {
            assert(m.contains_key(q));
            let y = choose|y: int| 0 <= y < s1.len() && s1[y].0 == q;
            assert(y != 0);
            assert(t1[y - 1].0 == q);
        }
        assert forall|q: Seq<char>| #[trigger] m2.contains_key(q) implies exists|x: int|
            0 <= x < t2.len() && t2[x].0 == q by {
            assert(m.contains_key(q));
            let y = choose|y: int| 0 <= y < s2.len() && s2[y].0 == q;
            assert(y != 0);
            assert(t2[y - 1].0 == q);
        }
        assert(sorted_by_name(t1)) by {
            assert forall|a: int, b: int| 0 <= a < b < t1.len() implies lex_lt(
                #[trigger] t1[a].0,
                #[trigger] t1[b].0,
            ) by {
                assert(lex_lt(s1[a + 1].0, s1[b + 1].0));
            }
        }
        assert(sorted_by_name(t2)) by {
            assert forall|a: int, b: int| 0 <= a < b < t2.len() implies lex_lt(
                #[trigger] t2[a].0,
                #[trigger] t2[b].0,
            ) by {
                assert(lex_lt(s2[a + 1].0, s2[b + 1].0));
            }
        }
        lemma_sorted_listing_unique(t1, t2, m2);
        assert(s1 == seq![s1[0]] + t1);
        assert(s2 == seq![s2[0]] + t2);
    }
}

/// The sorted listing of a map is the one that `sorted_entries` names.
pub proof fn lemma_sorted_entries(s: Seq<(Seq<char>, Seq<char>)>, m: Map<Seq<char>, Seq<char>>)
    requires
        sorted_by_name(s),
        lists(s, m),
    ensures
        sorted_entries(m) == s,
{
    let t = sorted_entries(m);
    assert(sorted_by_name(s) && lists(s, m));
    lemma_sorted_listing_unique(t, s, m);
}

/// Adds one `name: type` clause of an object type literal to `m`; a later clause
/// overrides an earlier one of the same name, and a clause without `:` is skipped.
pub open spec fn add_clause(m: Map<Seq<char>, Seq<char>>, clause: Seq<char>) -> Map<
    Seq<char>,
    Seq<char>,
> {
    let p = trim(clause);
    if p.len() == 0 {
        m
    } else {
        match find(p, ":"@) {
            Some(i) => m.insert(trim(p.take(i)), trim(p.skip(i + ":"@.len()))),
            None => m,
        }
    }
}

pub open spec fn add_clauses(m: Map<Seq<char>, Seq<char>>, cs: Seq<Seq<char>>) -> Map<
    Seq<char>,
    Seq<char>,
>
    decreases cs.len(),
{
    if cs.len() == 0 {
        m
    } else {
        add_clauses(add_clause(m, cs[0]), cs.drop_first())
    }
}

/// The properties that an object type literal `{ a: T; b: U }` declares, by name;
/// empty for text that is not braced.
pub open spec fn object_props(obj: Seq<char>) -> Map<Seq<char>, Seq<char>> {
    let t = trim(obj);
    if t.len() > 0 && t[0] == '{' && t.last() == '}' {
        add_clauses(Map::empty(), split_all(t.subrange(1, t.len() - 1), ';'))
    } else {
        Map::empty()
    }
}

/// The text that follows the first `marker` in `msg`, up to the next single quote.
pub open spec fn quoted_after(msg: Seq<char>, marker: Seq<char>) -> Option<Seq<char>> {
    match find(msg, marker) {
        None => None,
        Some(i) => {
            let rest = msg.skip(i + marker.len());
            match find(rest, "'"@) {
                Some(e) => Some(rest.take(e)),
                None => None,
            }
        },
    }
}

/// For each property of `expected`, ascending by name, that `provided` declares with
/// another type: the name, the provided type and the expected type.
pub open spec fn mismatches(
    expected: Seq<(Seq<char>, Seq<char>)>,
    provided: Map<Seq<char>, Seq<char>>,
) -> Seq<(Seq<char>, Seq<char>, Seq<char>)>
    decreases expected.len(),
{
    if expected.len() == 0 {
        seq![]
    } else {
        let (k, e) = expected[0];
        let rest = mismatches(expected.drop_first(), provided);
        if provided.contains_key(k) && provided[k] != e {
            seq![(k, provided[k], e)] + rest
        } else {
            rest
        }
    }
}

/// The property mismatches that an argument type message describes, when it holds
/// both object types.
pub open spec fn argument_mismatches(msg: Seq<char>) -> Option<
    Seq<(Seq<char>, Seq<char>, Seq<char>)>,
> {
    match (
        quoted_after(msg, "Argument of type '"@),
        quoted_after(msg, "to parameter of type '"@),
    ) {
        (Some(p), Some(e)) => Some(mismatches(sorted_entries(object_props(e)), object_props(p))),
        _ => None,
    }
}

pub open spec fn entries_view(v: Seq<(String, String)>) -> Seq<(Seq<char>, Seq<char>)> {
    v.map_values(|p: (String, String)| (p.0@, p.1@))
}

pub open spec fn triples_view(v: Seq<(String, String, String)>) -> Seq<
    (Seq<char>, Seq<char>, Seq<char>),
> {
    v.map_values(|p: (String, String, String)| (p.0@, p.1@, p.2@))
}

/// Whether `a` comes strictly before `b`.
pub fn text_lt(a: &str, b: &str) -> (r: bool)
    ensures
        r == lex_lt(a@, b@),
{
    let n = a.unicode_len();
    let m = b.unicode_len();
    let mut i: usize = 0;
    assert(a@.skip(0) == a@);
    assert(b@.skip(0) == b@);
    loop
        invariant
            n == a@.len(),
            m == b@.len(),
            i <= n,
            i <= m,
            lex_lt(a@, b@) == lex_lt(a@.skip(i as int), b@.skip(i as int)),
        decreases n - i,
    {
        if i == n {
            return i < m;
        }
        if i == m {
            return false;
        }
        let x = a.get_char(i);
        let y = b.get_char(i);
        if x != y {
            return x < y;
        }
        assert(a@.skip(i as int).drop_first() == a@.skip(i + 1));
        assert(b@.skip(i as int).drop_first() == b@.skip(i + 1));
        i = i + 1;
    }
}

/// The entries `s` with `k` set to `v` at index `i`: replaced where `s` already has
/// that name there, else inserted.
pub open spec fn put_at(s: Seq<(Seq<char>, Seq<char>)>, k: Seq<char>, v: Seq<char>, i: int) -> Seq<
    (Seq<char>, Seq<char>),
> {
    if i < s.len() && s[i].0 == k {
        s.update(i, (k, v))
    } else {
        s.insert(i, (k, v))
    }
}

/// The index at which a name belongs in entries ascending by name.
pub open spec fn belongs_at(s: Seq<(Seq<char>, Seq<char>)>, k: Seq<char>, i: int) -> bool {
    &&& 0 <= i <= s.len()
    &&& forall|j: int| 0 <= j < i ==> lex_lt(#[trigger] s[j].0, k)
    &&& i < s.len() ==> !lex_lt(s[i].0, k)
}

/// Every name has an index where it belongs.
pub proof fn lemma_belongs_somewhere(s: Seq<(Seq<char>, Seq<char>)>, k: Seq<char>) -> (i: int)
    ensures
        belongs_at(s, k, i),
    decreases s.len(),
{
    if s.len() == 0 {
        0
    } else {
        let i = lemma_belongs_somewhere(s.drop_last(), k);
        if i < s.len() - 1 {
            assert(s.drop_last()[i] == s[i]);
            assert forall|j: int| 0 <= j < i implies lex_lt(#[trigger] s[j].0, k) by {
                assert(s.drop_last()[j] == s[j]);
            }
            i
        } else {
            assert forall|j: int| 0 <= j < i implies lex_lt(#[trigger] s[j].0, k) by {
                assert(s.drop_last()[j] == s[j]);
            }
            if lex_lt(s[i].0, k) {
                i + 1
            } else {
                i
            }
        }
    }
}

/// Setting a name where it belongs keeps the entries ascending and lists the
/// updated map.
pub proof fn lemma_put_listing(
    s0: Seq<(Seq<char>, Seq<char>)>,
    m: Map<Seq<char>, Seq<char>>,
    k: Seq<char>,
    v: Seq<char>,
    i: int,
)
    requires
        sorted_by_name(s0),
        lists(s0, m),
        belongs_at(s0, k, i),
    ensures
        sorted_by_name(put_at(s0, k, v, i)),
        lists(put_at(s0, k, v, i), m.insert(k, v)),
{
    let m2 = m.insert(k, v);
    let s1 = put_at(s0, k, v, i);
    if i < s0.len() && s0[i].0 == k {
        assert forall|x: int| 0 <= x < s1.len() implies #[trigger] s1[x].0 == s0[x].0 by {}
        assert(sorted_by_name(s1)) by {
            assert forall|a: int, b: int| 0 <= a < b < s1.len() implies lex_lt(
                #[trigger] s1[a].0,
                #[trigger] s1[b].0,
            ) by {
                assert(s1[a].0 == s0[a].0);
                assert(s1[b].0 == s0[b].0);
            }
        }
        assert forall|q: Seq<char>| #[trigger] m2.contains_key(q) implies exists|x: int|
            0 <= x < s1.len() && s1[x].0 == q by {
            if q != k {
                let y = choose|y: int| 0 <= y < s0.len() && s0[y].0 == q;
                assert(s1[y].0 == q);
            } else {
                assert(s1[i].0 == q);
            }
        }
        assert forall|x: int| 0 <= x < s1.len() implies #[trigger] m2.contains_key(s1[x].0)
            && m2[s1[x].0] == s1[x].1 by {
            if x != i {
                assert(s1[x] == s0[x]);
                assert(m.contains_key(s0[x].0));
                if x < i {
                    assert(lex_lt(s0[x].0, s0[i].0));
                } else {
                    assert(lex_lt(s0[i].0, s0[x].0));
                }
                lemma_lex_irreflexive(k);
                assert(s0[x].0 != k);
            } else {
                assert(s1[x] == (k, v));
            }
        }
    } else {
        if i < s0.len() {
            lemma_lex_total(s0[i].0, k);
        }
        assert forall|a: int, b: int| 0 <= a < b < s1.len() implies lex_lt(
            #[trigger] s1[a].0,
            #[trigger] s1[b].0,
        ) by {
            if b == i {
            } else if a == i {
                if b > i + 1 {
                    lemma_lex_transitive(k, s0[i].0, s0[b - 1].0);
                }
            } else if a < i && b > i {
                assert(lex_lt(s0[a].0, k));
                assert(lex_lt(k, s0[i].0));
                lemma_lex_transitive(s0[a].0, k, s0[i].0);
                if b - 1 > i {
                    lemma_lex_transitive(s0[a].0, s0[i].0, s0[b - 1].0);
                }
            } else if a > i {
                assert(lex_lt(s0[a - 1].0, s0[b - 1].0));
            } else {
                assert(lex_lt(s0[a].0, s0[b].0));
            }
        }
        assert forall|q: Seq<char>| #[trigger] m2.contains_key(q) implies exists|x: int|
            0 <= x < s1.len() && s1[x].0 == q by {
            if q != k {
                let y = choose|y: int| 0 <= y < s0.len() && s0[y].0 == q;
                if y < i {
                    assert(s1[y].0 == q);
                } else {
                    assert(s1[y + 1].0 == q);
                }
            } else {
                assert(s1[i].0 == q);
            }
        }
        assert forall|x: int| 0 <= x < s1.len() implies #[trigger] m2.contains_key(s1[x].0)
            && m2[s1[x].0] == s1[x].1 by {
            lemma_lex_irreflexive(k);
            if x < i {
                assert(s1[x] == s0[x]);
                assert(m.contains_key(s0[x].0));
                assert(lex_lt(s0[x].0, k));
                assert(s0[x].0 != k);
            } else if x > i {
                assert(s1[x] == s0[x - 1]);
                assert(m.contains_key(s0[x - 1].0));
                if x - 1 > i {
                    assert(lex_lt(s0[i].0, s0[x - 1].0));
                    lemma_lex_transitive(k, s0[i].0, s0[x - 1].0);
                }
                assert(lex_lt(k, s0[x - 1].0));
                assert(s0[x - 1].0 != k);
            } else {
                assert(s1[x] == (k, v));
            }
        }
    }
}

/// The properties of every object type literal can be listed ascending by name.
pub proof fn lemma_object_props_listed(obj: Seq<char>)
    ensures
        sorted_by_name(sorted_entries(object_props(obj))),
        lists(sorted_entries(object_props(obj)), object_props(obj)),
{
    let t = trim(obj);
    let s = if t.len() > 0 && t[0] == '{' && t.last() == '}' {
        lemma_clauses_listed(
            Seq::empty(),
            Map::empty(),
            split_all(t.subrange(1, t.len() - 1), ';'),
        )
    } else {
        Seq::empty()
    };
    lemma_sorted_entries(s, object_props(obj));
}

proof fn lemma_clauses_listed(
    s: Seq<(Seq<char>, Seq<char>)>,
    m: Map<Seq<char>, Seq<char>>,
    cs: Seq<Seq<char>>,
) -> (r: Seq<(Seq<char>, Seq<char>)>)
    requires
        sorted_by_name(s),
        lists(s, m),
    ensures
        sorted_by_name(r),
        lists(r, add_clauses(m, cs)),
    decreases cs.len(),
{
    if cs.len() == 0 {
        s
    } else {
        let p = trim(cs[0]);
        let s1 = if p.len() > 0 && find(p, ":"@) is Some {
            let i = find(p, ":"@)->0;
            let k = trim(p.take(i));
            let v = trim(p.skip(i + ":"@.len()));
            let at = lemma_belongs_somewhere(s, k);
            lemma_put_listing(s, m, k, v, at);
            put_at(s, k, v, at)
        } else {
            s
        };
        lemma_clauses_listed(s1, add_clause(m, cs[0]), cs.drop_first())
    }
}

/// Sets `name` to `value` in entries kept ascending by name.
fn put_entry(v: &mut Vec<(String, String)>, name: String, value: String, Ghost(m): Ghost<
    Map<Seq<char>, Seq<char>>,
>)
    requires
        sorted_by_name(entries_view(old(v)@)),
        lists(entries_view(old(v)@), m),
    ensures
        sorted_by_name(entries_view(final(v)@)),
        lists(entries_view(final(v)@), m.insert(name@, value@)),
{
    let ghost s0 = entries_view(v@);
    let mut i: usize = 0;
    while i < v.len() && text_lt(v[i].0.as_str(), name.as_str())
        invariant
            s0 == entries_view(v@),
            i <= v.len(),
            forall|j: int| 0 <= j < i ==> lex_lt(#[trigger] s0[j].0, name@),
        decreases v.len() - i,
    {
        i = i + 1;
    }
    proof {
        lemma_put_listing(s0, m, name@, value@, i as int);
    }
    let ghost target = put_at(s0, name@, value@, i as int);
    if i < v.len() && crate::text::same_text(v[i].0.as_str(), name.as_str()) {
        v.set(i, (name, value));
        assert(entries_view(v@) == target);
    } else {
        v.insert(i, (name, value));
        assert(entries_view(v@) == target);
    }
}

/// Adds one clause of an object type literal to the entries.
fn add_clause_exec(v: &mut Vec<(String, String)>, clause: &str, Ghost(m): Ghost<
    Map<Seq<char>, Seq<char>>,
>)
    requires
        sorted_by_name(entries_view(old(v)@)),
        lists(entries_view(old(v)@), m),
    ensures
        sorted_by_name(entries_view(final(v)@)),
        lists(entries_view(final(v)@), add_clause(m, clause@)),
{
    let p = trim_exec(clause);
    if p.unicode_len() == 0 {
        return;
    }
    let colon = ":";
    match find_exec(p, colon) {
        None => {},
        Some(i) => {
            let n = p.unicode_len();
            let c = colon.unicode_len();
            let key_s = p.substring_char(0, i);
            let val_s = p.substring_char(i + c, n);
            assert(key_s@ == p@.take(i as int));
            assert(val_s@ == p@.skip(i + c));
            let key = String::from_str(trim_exec(key_s));
            let val = String::from_str(trim_exec(val_s));
            put_entry(v, key, val, Ghost(m));
        },
    }
}

/// The properties of an object type literal, ascending by name.
pub fn parse_object_properties(obj_type: &str) -> (r: Vec<(String, String)>)
    ensures
        sorted_by_name(entries_view(r@)),
        lists(entries_view(r@), object_props(obj_type@)),
        entries_view(r@) == sorted_entries(object_props(obj_type@)),
{
    let mut props: Vec<(String, String)> = Vec::new();
    let t = trim_exec(obj_type);
    let n = t.unicode_len();
    if n == 0 || t.get_char(0) != '{' || t.get_char(n - 1) != '}' {
        proof {
            assert(entries_view(props@) == Seq::<(Seq<char>, Seq<char>)>::empty());
            lemma_sorted_entries(entries_view(props@), Map::empty());
        }
        return props;
    }
    let mut rest = t.substring_char(1, n - 1);
    let semi = ";";
    proof {
        reveal_strlit(";");
    }
    let ghost total = object_props(obj_type@);
    let ghost mut cur: Map<Seq<char>, Seq<char>> = Map::empty();
    assert(entries_view(props@) == Seq::<(Seq<char>, Seq<char>)>::empty());
    loop
        invariant_except_break
            total == add_clauses(cur, split_all(rest@, ';')),
        invariant
            semi@ == seq![';'],
            sorted_by_name(entries_view(props@)),
            lists(entries_view(props@), cur),
        ensures
            total == cur,
        decreases rest@.len(),
    {
        let len = rest.unicode_len();
        match find_exec(rest, semi) {
            None => {
                add_clause_exec(&mut props, rest, Ghost(cur));
                assert(split_all(rest@, ';') == seq![rest@]);
                assert(seq![rest@].drop_first() == Seq::<Seq<char>>::empty());
                assert(seq![rest@][0] == rest@);
                assert(add_clauses(add_clause(cur, rest@), Seq::<Seq<char>>::empty()) == add_clause(
                    cur,
                    rest@,
                ));
                assert(total == add_clause(cur, rest@));
                proof {
                    cur = add_clause(cur, rest@);
                }
                break ;
            },
            Some(i) => {
                let clause = rest.substring_char(0, i);
                assert(clause@ == rest@.take(i as int));
                add_clause_exec(&mut props, clause, Ghost(cur));
                let next = rest.substring_char(i + 1, len);
                assert(next@ == rest@.skip(i + 1));
                let ghost tail = split_all(next@, ';');
                assert(split_all(rest@, ';') == seq![clause@] + tail);
                assert((seq![clause@] + tail).drop_first() == tail);
                proof {
                    cur = add_clause(cur, clause@);
                }
                rest = next;
            },
        }
    }
    proof {
        lemma_sorted_entries(entries_view(props@), total);
    }
    props
}

/// The text that follows the first `marker` in `msg`, up to the next single quote.
pub fn extract_object_type(msg: &str, marker: &str) -> (r: Option<String>)
    ensures
        r matches Some(t) ==> quoted_after(msg@, marker@) == Some(t@),
        r is None ==> quoted_after(msg@, marker@) is None,
{
    let n = msg.unicode_len();
    let start = match find_exec(msg, marker) {
        Some(i) => i + marker.unicode_len(),
        None => return None,
    };
    let rest = msg.substring_char(start, n);
    assert(rest@ == msg@.skip(start as int));
    match find_exec(rest, "'") {
        Some(e) => {
            let t = rest.substring_char(0, e);
            assert(t@ == rest@.take(e as int));
            Some(String::from_str(t))
        },
        None => None,
    }
}

/// The index of the entry named `name`.
fn entry_index(v: &Vec<(String, String)>, name: &str) -> (r: Option<usize>)
    ensures
        r matches Some(j) ==> j < v@.len() && v@[j as int].0@ == name@,
        r is None ==> forall|j: int| 0 <= j < v@.len() ==> v@[j].0@ != name@,
{
    let mut i: usize = 0;
    while i < v.len()
        invariant
            i <= v@.len(),
            forall|j: int| 0 <= j < i ==> v@[j].0@ != name@,
        decreases v@.len() - i,
    {
        if crate::text::same_text(v[i].0.as_str(), name) {
            return Some(i);
        }
        i = i + 1;
    }
    None
}

/// The property mismatches between the two object types that an argument type
/// message holds: for each expected property, ascending by name, that the provided
/// type declares with another type, its name, provided type and expected type.
pub fn parse_ts2345_error(msg: &str) -> (r: Option<Vec<(String, String, String)>>)
    ensures
        r matches Some(v) ==> argument_mismatches(msg@) == Some(triples_view(v@)),
        r is None ==> argument_mismatches(msg@) is None,
{
    let provided_obj = match extract_object_type(msg, "Argument of type '") {
        Some(t) => t,
        None => return None,
    };
    let expected_obj = match extract_object_type(msg, "to parameter of type '") {
        Some(t) => t,
        None => return None,
    };
    let provided = parse_object_properties(provided_obj.as_str());
    let expected = parse_object_properties(expected_obj.as_str());
    let ghost pm = object_props(provided_obj@);
    let ghost ev = entries_view(expected@);
    let mut out: Vec<(String, String, String)> = Vec::new();
    let mut i: usize = 0;
    assert(ev.skip(0) == ev);
    assert(triples_view(out@) == Seq::<(Seq<char>, Seq<char>, Seq<char>)>::empty());
    while i < expected.len()
        invariant
            ev == entries_view(expected@),
            lists(entries_view(provided@), pm),
            i <= expected@.len(),
            triples_view(out@) + mismatches(ev.skip(i as int), pm) == mismatches(ev, pm),
        decreases expected@.len() - i,
    {
        let ghost tail = ev.skip(i as int);
        assert(tail.drop_first() == ev.skip(i + 1));
        assert(tail[0] == ev[i as int]);
        let name = &expected[i].0;
        let want = &expected[i].1;
        match entry_index(&provided, name.as_str()) {
            Some(j) => {
                assert(entries_view(provided@)[j as int].0 == name@);
                assert(pm.contains_key(name@));
                let have = &provided[j].1;
                if !crate::text::same_text(have.as_str(), want.as_str()) {
                    let ghost before = triples_view(out@);
                    out.push((name.clone(), have.clone(), want.clone()));
                    assert(triples_view(out@) == before.push((name@, have@, want@)));
                    assert(before.push((name@, have@, want@)) + mismatches(ev.skip(i + 1), pm)
                        == before + mismatches(tail, pm));
                }
            },
            None => {
                proof {
                    let pv = entries_view(provided@);
                    if pm.contains_key(name@) {
                        let y = choose|y: int| 0 <= y < pv.len() && pv[y].0 == name@;
                        assert(provided@[y].0@ == name@);
                    }
                }
            },
        }
        i = i + 1;
    }
    assert(ev.skip(i as int) == Seq::<(Seq<char>, Seq<char>)>::empty());
    assert(triples_view(out@) + Seq::<(Seq<char>, Seq<char>, Seq<char>)>::empty() == triples_view(
        out@,
    ));
    Some(out)
}

} // verus!
