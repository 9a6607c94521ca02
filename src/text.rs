use vstd::prelude::*;

verus! {

/// `p` occurs in `s` starting at character index `i`.
pub open spec fn occurs_at(s: Seq<char>, p: Seq<char>, i: int) -> bool {
    0 <= i && i + p.len() <= s.len() && s.subrange(i, i + p.len()) == p
}

/// The first index `>= i` at which `p` occurs in `s`.
pub open spec fn find_from(s: Seq<char>, p: Seq<char>, i: int) -> Option<int>
    decreases s.len() + 1 - i,
{
    if i < 0 || i + p.len() > s.len() {
        None
    } else if occurs_at(s, p, i) {
        Some(i)
    } else {
        find_from(s, p, i + 1)
    }
}

/// The first index at which `p` occurs in `s`.
pub open spec fn find(s: Seq<char>, p: Seq<char>) -> Option<int> {
    find_from(s, p, 0)
}

/// The last index below `n` at which `p` occurs in `s`.
pub open spec fn rfind_below(s: Seq<char>, p: Seq<char>, n: int) -> Option<int>
    decreases n,
{
    if n <= 0 {
        None
    } else if occurs_at(s, p, n - 1) {
        Some(n - 1)
    } else {
        rfind_below(s, p, n - 1)
    }
}

/// The last index at which `p` occurs in `s`.
pub open spec fn rfind(s: Seq<char>, p: Seq<char>) -> Option<int> {
    rfind_below(s, p, s.len() as int + 1)
}

/// Splits `s` around the first occurrence of `p`.
pub open spec fn split_once(s: Seq<char>, p: Seq<char>) -> Option<(Seq<char>, Seq<char>)> {
    match find(s, p) {
        Some(i) => Some((s.take(i), s.skip(i + p.len()))),
        None => None,
    }
}

/// All pieces of `s` between occurrences of `c`, in order (never empty).
pub open spec fn split_all(s: Seq<char>, c: char) -> Seq<Seq<char>>
    decreases s.len(),
{
    match find(s, seq![c]) {
        Some(i) => if 0 <= i < s.len() {
            seq![s.take(i)] + split_all(s.skip(i + 1), c)
        } else {
            seq![s]
        },
        None => seq![s],
    }
}

/// The `k`-th piece of `s` between occurrences of `c`, if `s` has that many.
pub open spec fn nth_part(s: Seq<char>, c: char, k: nat) -> Option<Seq<char>>
    decreases k,
{
    match find(s, seq![c]) {
        None => if k == 0 {
            Some(s)
        } else {
            None
        },
        Some(i) => if k == 0 {
            Some(s.take(i))
        } else {
            nth_part(s.skip(i + 1), c, (k - 1) as nat)
        },
    }
}

/// The `k`-th piece of `s` between single quotes, or `fallback` when there is none.
pub open spec fn quoted_or(s: Seq<char>, k: nat, fallback: Seq<char>) -> Seq<char> {
    match nth_part(s, '\'', k) {
        Some(p) => p,
        None => fallback,
    }
}

/// Unicode `White_Space` characters.
pub open spec fn is_white(c: char) -> bool {
    c == '\t' || c == '\n' || c == '\x0B' || c == '\x0C' || c == '\r' || c == ' '
        || c == '\u{85}' || c == '\u{A0}' || c == '\u{1680}' || ('\u{2000}' <= c
        && c <= '\u{200A}') || c == '\u{2028}' || c == '\u{2029}' || c == '\u{202F}'
        || c == '\u{205F}' || c == '\u{3000}'
}

pub open spec fn trim_start(s: Seq<char>) -> Seq<char>
    decreases s.len(),
{
    if s.len() > 0 && is_white(s[0]) {
        trim_start(s.drop_first())
    } else {
        s
    }
}

pub open spec fn trim_end(s: Seq<char>) -> Seq<char>
    decreases s.len(),
{
    if s.len() > 0 && is_white(s.last()) {
        trim_end(s.drop_last())
    } else {
        s
    }
}

/// `s` without leading and trailing white space.
pub open spec fn trim(s: Seq<char>) -> Seq<char> {
    trim_end(trim_start(s))
}

pub fn is_white_char(c: char) -> (r: bool)
    ensures
        r == is_white(c),
{
    c == '\t' || c == '\n' || c == '\x0B' || c == '\x0C' || c == '\r' || c == ' ' || c
        == '\u{85}' || c == '\u{A0}' || c == '\u{1680}' || ('\u{2000}' <= c && c <= '\u{200A}')
        || c == '\u{2028}' || c == '\u{2029}' || c == '\u{202F}' || c == '\u{205F}' || c
        == '\u{3000}'
}

/// Whether `a` and `b` hold the same characters.
pub fn same_text(a: &str, b: &str) -> (r: bool)
    ensures
        r == (a@ == b@),
{
    let n = a.unicode_len();
    if n != b.unicode_len() {
        return false;
    }
    let mut i: usize = 0;
    while i < n
        invariant
            n == a@.len(),
            n == b@.len(),
            i <= n,
            a@.take(i as int) == b@.take(i as int),
        decreases n - i,
    {
        if a.get_char(i) != b.get_char(i) {
            return false;
        }
        assert(a@.take(i + 1) == a@.take(i as int).push(a@[i as int]));
        assert(b@.take(i + 1) == b@.take(i as int).push(b@[i as int]));
        i = i + 1;
    }
    assert(a@ == a@.take(n as int));
    assert(b@ == b@.take(n as int));
    true
}

/// Whether `p` occurs in `s` at character index `i`.
pub fn occurs_at_exec(s: &str, p: &str, i: usize) -> (r: bool)
    ensures
        r == occurs_at(s@, p@, i as int),
{
    let n = s.unicode_len();
    let m = p.unicode_len();
    if i > n || m > n - i {
        return false;
    }
    let mut j: usize = 0;
    while j < m
        invariant
            n == s@.len(),
            m == p@.len(),
            i + m <= n,
            j <= m,
            s@.subrange(i as int, i + j) == p@.take(j as int),
        decreases m - j,
    {
        if s.get_char(i + j) != p.get_char(j) {
            assert(s@.subrange(i as int, i + m)[j as int] != p@[j as int]);
            return false;
        }
        assert(s@.subrange(i as int, i + j + 1) == s@.subrange(i as int, i + j).push(
            s@[i + j],
        ));
        assert(p@.take(j + 1) == p@.take(j as int).push(p@[j as int]));
        j = j + 1;
    }
    assert(p@ == p@.take(m as int));
    true
}

/// The first character index `>= start` at which `p` occurs in `s`.
pub fn find_from_exec(s: &str, p: &str, start: usize) -> (r: Option<usize>)
    ensures
        r matches Some(i) ==> find_from(s@, p@, start as int) == Some(i as int) && occurs_at(
            s@,
            p@,
            i as int,
        ),
        r is None ==> find_from(s@, p@, start as int) is None,
{
    let n = s.unicode_len();
    let m = p.unicode_len();
    let mut i = start;
    while i <= n && m <= n - i
        invariant
            n == s@.len(),
            m == p@.len(),
            start <= i,
            find_from(s@, p@, start as int) == find_from(s@, p@, i as int),
        decreases n + 1 - i,
    {
        if occurs_at_exec(s, p, i) {
            return Some(i);
        }
        if i >= n {
            assert(find_from(s@, p@, i + 1) is None);
            return None;
        }
        i = i + 1;
    }
    None
}

/// The first character index at which `p` occurs in `s`.
pub fn find_exec(s: &str, p: &str) -> (r: Option<usize>)
    ensures
        r matches Some(i) ==> find(s@, p@) == Some(i as int) && occurs_at(s@, p@, i as int),
        r is None ==> find(s@, p@) is None,
{
    find_from_exec(s, p, 0)
}

/// The last character index at which `p` occurs in `s`.
pub fn rfind_exec(s: &str, p: &str) -> (r: Option<usize>)
    ensures
        r matches Some(i) ==> rfind(s@, p@) == Some(i as int),
        r is None ==> rfind(s@, p@) is None,
{
    let n = s.unicode_len();
    let mut k: usize = n;
    loop
        invariant
            n == s@.len(),
            k <= n,
            rfind(s@, p@) == rfind_below(s@, p@, k + 1),
        decreases k,
    {
        if occurs_at_exec(s, p, k) {
            return Some(k);
        }
        if k == 0 {
            assert(rfind_below(s@, p@, 0) is None);
            return None;
        }
        k = k - 1;
    }
}

/// The `k`-th piece of `s` between single quotes.
pub fn quoted_part(s: &str, k: usize) -> (r: Option<&str>)
    ensures
        r matches Some(q) ==> nth_part(s@, '\'', k as nat) == Some(q@),
        r is None ==> nth_part(s@, '\'', k as nat) is None,
{
    let quote = "'";
    proof {
        reveal_strlit("'");
    }
    assert(quote@ == seq!['\'']);
    let mut rest: &str = s;
    let mut left: usize = k;
    loop
        invariant
            quote@ == seq!['\''],
            left <= k,
            nth_part(s@, '\'', k as nat) == nth_part(rest@, '\'', left as nat),
        decreases left,
    {
        let n = rest.unicode_len();
        match find_exec(rest, quote) {
            None => {
                if left == 0 {
                    return Some(rest);
                } else {
                    return None;
                }
            },
            Some(i) => {
                if left == 0 {
                    let r = rest.substring_char(0, i);
                    assert(r@ == rest@.take(i as int));
                    return Some(r);
                }
                let next = rest.substring_char(i + 1, n);
                assert(next@ == rest@.skip(i + 1));
                rest = next;
                left = left - 1;
            },
        }
    }
}

/// The `k`-th piece of `s` between single quotes, or `fallback`.
pub fn quoted_or_exec<'a>(s: &'a str, k: usize, fallback: &'a str) -> (r: &'a str)
    ensures
        r@ == quoted_or(s@, k as nat, fallback@),
{
    match quoted_part(s, k) {
        Some(q) => q,
        None => fallback,
    }
}

/// `s` without leading and trailing white space.
pub fn trim_exec(s: &str) -> (r: &str)
    ensures
        r@ == trim(s@),
{
    let n = s.unicode_len();
    let mut a: usize = 0;
    assert(s@.skip(0) == s@);
    while a < n && is_white_char(s.get_char(a))
        invariant
            n == s@.len(),
            a <= n,
            trim_start(s@) == trim_start(s@.skip(a as int)),
        decreases n - a,
    {
        assert(s@.skip(a as int).drop_first() == s@.skip(a + 1));
        a = a + 1;
    }
    assert(trim_start(s@) == s@.subrange(a as int, n as int));
    let mut b: usize = n;
    while b > a && is_white_char(s.get_char(b - 1))
        invariant
            n == s@.len(),
            a <= b <= n,
            trim(s@) == trim_end(s@.subrange(a as int, b as int)),
        decreases b,
    {
        assert(s@.subrange(a as int, b as int).drop_last() == s@.subrange(a as int, b - 1));
        b = b - 1;
    }
    s.substring_char(a, b)
}

proof fn lemma_rfind_below_occurs(s: Seq<char>, p: Seq<char>, n: int)
    ensures
        rfind_below(s, p, n) matches Some(i) ==> occurs_at(s, p, i),
    decreases n,
{
    if n > 0 {
        lemma_rfind_below_occurs(s, p, n - 1);
    }
}

/// Where `rfind` finds `p`, `p` occurs.
pub proof fn lemma_rfind_occurs(s: Seq<char>, p: Seq<char>)
    ensures
        rfind(s, p) matches Some(i) ==> occurs_at(s, p, i),
{
    lemma_rfind_below_occurs(s, p, s.len() as int + 1);
}

} // verus!
