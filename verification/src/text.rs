use vstd::prelude::*;

verus! {

/// True when the character counts as line whitespace for manifest parsing.
pub open spec fn is_space_spec(c: char) -> bool {
    c == ' ' || c == '\t' || c == '\r' || c == '\n'
}

/// Whether `c` counts as manifest-line whitespace.
pub fn is_space(c: char) -> (r: bool)
    ensures
        r == is_space_spec(c),
{
    c == ' ' || c == '\t' || c == '\r' || c == '\n'
}

/// Index of the first occurrence of `c` in `l` at or after `i`;
/// `l.len()` when there is none.
pub open spec fn find_from(l: Seq<char>, c: char, i: int) -> int
    decreases l.len() - i when 0 <= i <= l.len()
{
    if i >= l.len() {
        l.len() as int
    } else if l[i] == c {
        i
    } else {
        find_from(l, c, i + 1)
    }
}

pub proof fn lemma_find_from(l: Seq<char>, c: char, i: int)
    requires
        0 <= i <= l.len(),
    ensures
        i <= find_from(l, c, i) <= l.len(),
        find_from(l, c, i) < l.len() ==> l[find_from(l, c, i)] == c,
        forall|j: int| i <= j < find_from(l, c, i) ==> l[j] != c,
    decreases l.len() - i,
{
    if i < l.len() && l[i] != c {
        lemma_find_from(l, c, i + 1);
    }
}

/// Executable counterpart of `find_from`.
pub fn find_char_from(s: &str, c: char, i: usize) -> (r: usize)
    requires
        i <= s@.len(),
    ensures
        r == find_from(s@, c, i as int),
    decreases s@.len() - i,
{
    let n = s.unicode_len();
    if i >= n {
        n
    } else if s.get_char(i) == c {
        i
    } else {
        find_char_from(s, c, i + 1)
    }
}

/// Index just past the token starting at `i`: the first whitespace
/// position at or after `i`, or `l.len()`.
pub open spec fn token_end(l: Seq<char>, i: int) -> int
    decreases l.len() - i when 0 <= i <= l.len()
{
    if i >= l.len() {
        l.len() as int
    } else if is_space_spec(l[i]) {
        i
    } else {
        token_end(l, i + 1)
    }
}

pub proof fn lemma_token_end(l: Seq<char>, i: int)
    requires
        0 <= i <= l.len(),
    ensures
        i <= token_end(l, i) <= l.len(),
        token_end(l, i) < l.len() ==> is_space_spec(l[token_end(l, i)]),
        forall|j: int| i <= j < token_end(l, i) ==> !is_space_spec(l[j]),
    decreases l.len() - i,
{
    if i < l.len() && !is_space_spec(l[i]) {
        lemma_token_end(l, i + 1);
    }
}

fn token_end_from(s: &str, i: usize) -> (r: usize)
    requires
        i <= s@.len(),
    ensures
        r == token_end(s@, i as int),
    decreases s@.len() - i,
{
    let n = s.unicode_len();
    if i >= n {
        n
    } else if is_space(s.get_char(i)) {
        i
    } else {
        token_end_from(s, i + 1)
    }
}

/// The whitespace-separated tokens of `l` from position `i` on, in order.
pub open spec fn tokens_from(l: Seq<char>, i: int) -> Seq<Seq<char>>
    decreases l.len() - i, 0int when 0 <= i <= l.len() via tokens_from_decreases
{
    if i >= l.len() {
        Seq::empty()
    } else if is_space_spec(l[i]) {
        tokens_from(l, i + 1)
    } else {
        seq![l.subrange(i, token_end(l, i))] + tokens_from(l, token_end(l, i))
    }
}

#[via_fn]
proof fn tokens_from_decreases(l: Seq<char>, i: int) {
    if 0 <= i < l.len() && !is_space_spec(l[i]) {
        lemma_token_end(l, i);
        assert(token_end(l, i) == token_end(l, i + 1));
    }
}

fn tokens_into(s: &str, i: usize, out: &mut Vec<String>)
    requires
        i <= s@.len(),
    ensures
        final(out).deep_view() == old(out).deep_view() + tokens_from(s@, i as int),
    decreases s@.len() - i,
{
    let n = s.unicode_len();
    if i >= n {
        proof {
            assert(out.deep_view() =~= old(out).deep_view() + tokens_from(s@, i as int));
        }
        return ;
    }
    if is_space(s.get_char(i)) {
        tokens_into(s, i + 1, out);
        return ;
    }
    let e = token_end_from(s, i);
    proof {
        lemma_token_end(s@, i as int);
        assert(token_end(s@, i as int) == token_end(s@, i + 1));
    }
    let tok = String::from_str(s.substring_char(i, e));
    let ghost mid = out.deep_view().push(tok@);
    out.push(tok);
    proof {
        assert(out.deep_view() =~= mid);
    }
    tokens_into(s, e, out);
    proof {
        assert(out.deep_view() =~= old(out).deep_view() + tokens_from(s@, i as int));
    }
}

/// The whitespace-separated tokens of `s`, in order.
pub fn tokens_of(s: &str) -> (r: Vec<String>)
    ensures
        r.deep_view() == tokens_from(s@, 0),
{
    let mut out: Vec<String> = Vec::new();
    tokens_into(s, 0, &mut out);
    proof {
        assert(out.deep_view() =~= tokens_from(s@, 0));
    }
    out
}

/// Character-for-character equality of two string slices.
pub fn str_eq(a: &str, b: &str) -> (r: bool)
    ensures
        r == (a@ == b@),
{
    let n = a.unicode_len();
    if n != b.unicode_len() {
        return false;
    }
    let mut i: usize = 0;
    while i < n
        invariant
            0 <= i <= n,
            n == a@.len() == b@.len(),
            forall|j: int| 0 <= j < i ==> a@[j] == b@[j],
        decreases n - i,
    {
        if a.get_char(i) != b.get_char(i) {
            return false;
        }
        i = i + 1;
    }
    proof {
        assert(a@ =~= b@);
    }
    true
}

/// Equality of a string slice with an explicit character sequence.
pub fn str_eq_chars(s: &str, cs: &Vec<char>) -> (r: bool)
    ensures
        r == (s@ == cs@),
{
    let n = s.unicode_len();
    if n != cs.len() {
        return false;
    }
    let mut i: usize = 0;
    while i < n
        invariant
            0 <= i <= n,
            n == s@.len() == cs@.len(),
            forall|j: int| 0 <= j < i ==> s@[j] == cs@[j],
        decreases n - i,
    {
        if s.get_char(i) != cs[i] {
            return false;
        }
        i = i + 1;
    }
    proof {
        assert(s@ =~= cs@);
    }
    true
}

/// `sub` occurs in `s` starting at position `i`.
pub open spec fn contains_at(s: Seq<char>, sub: Seq<char>, i: int) -> bool {
    0 <= i && i + sub.len() <= s.len() && s.subrange(i, i + sub.len()) == sub
}

/// `sub` occurs somewhere in `s`.
pub open spec fn contains_spec(s: Seq<char>, sub: Seq<char>) -> bool {
    exists|i: int| contains_at(s, sub, i)
}

/// Substring search: whether `sub` occurs anywhere in `s`.
pub fn str_contains(s: &str, sub: &str) -> (r: bool)
    ensures
        r == contains_spec(s@, sub@),
{
    let n = s.unicode_len();
    let m = sub.unicode_len();
    if m > n {
        return false;
    }
    if m == 0 {
        proof {
            assert(contains_at(s@, sub@, 0)) by {
                assert(s@.subrange(0, 0) =~= sub@);
            }
        }
        return true;
    }
    let limit = n - m;
    let mut i: usize = 0;
    while i <= limit
        invariant
            0 <= i <= limit + 1,
            limit == n - m,
            0 < m <= n,
            n == s@.len(),
            m == sub@.len(),
            forall|j: int| 0 <= j < i ==> !contains_at(s@, sub@, j),
        decreases limit + 1 - i,
    {
        if str_eq(s.substring_char(i, i + m), sub) {
            proof {
                assert(contains_at(s@, sub@, i as int));
            }
            return true;
        }
        i = i + 1;
    }
    proof {
        assert forall|j: int| !contains_at(s@, sub@, j) by {
            if 0 <= j && j + sub@.len() <= s@.len() {
                assert(j < i);
            }
        }
    }
    false
}

/// `s` ends with the suffix `suf`.
pub open spec fn ends_with_spec(s: Seq<char>, suf: Seq<char>) -> bool {
    suf.len() <= s.len() && s.subrange(s.len() - suf.len(), s.len() as int) == suf
}

/// Whether `s` ends with `suf`.
pub fn str_ends_with(s: &str, suf: &str) -> (r: bool)
    ensures
        r == ends_with_spec(s@, suf@),
{
    let n = s.unicode_len();
    let m = suf.unicode_len();
    if m > n {
        return false;
    }
    str_eq(s.substring_char(n - m, n), suf)
}

/// Index of the last '.' strictly before position `j`; -1 when there is none.
pub open spec fn rfind_dot(l: Seq<char>, j: int) -> int
    decreases j when j <= l.len()
{
    if j <= 0 {
        -1
    } else if l[j - 1] == '.' {
        j - 1
    } else {
        rfind_dot(l, j - 1)
    }
}

fn rfind_dot_from(s: &str, j: usize) -> (r: Option<usize>)
    requires
        j <= s@.len(),
    ensures
        match r {
            Some(k) => k == rfind_dot(s@, j as int) && k < j,
            None => rfind_dot(s@, j as int) == -1,
        },
    decreases j,
{
    if j == 0 {
        None
    } else if s.get_char(j - 1) == '.' {
        Some(j - 1)
    } else {
        rfind_dot_from(s, j - 1)
    }
}

/// The stem of a file name: the part before the final '.', the whole
/// name when there is no '.' or when the only '.' leads the name.
pub open spec fn stem_spec(name: Seq<char>) -> Seq<char> {
    let d = rfind_dot(name, name.len() as int);
    if d <= 0 {
        name
    } else {
        name.subrange(0, d)
    }
}

/// The stem of a file name, as `stem_spec` states it.
pub fn file_stem(name: &str) -> (r: String)
    ensures
        r@ == stem_spec(name@),
{
    let n = name.unicode_len();
    match rfind_dot_from(name, n) {
        Some(d) if d > 0 => String::from_str(name.substring_char(0, d)),
        _ => String::from_str(name),
    }
}

/// View-level form of joining one path component onto a base path.
pub open spec fn path_join_spec(a: Seq<char>, b: Seq<char>) -> Seq<char> {
    a + "/"@ + b
}

/// Joins one component onto a base path with a '/' separator.
pub fn path_join(a: &str, b: &str) -> (r: String)
    ensures
        r@ == path_join_spec(a@, b@),
{
    let mut s = String::from_str(a);
    s.append("/");
    s.append(b);
    s
}

} // verus!
