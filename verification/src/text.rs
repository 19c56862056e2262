//! Character-level string operations with exact specifications.
//!
//! Every operation here is stated over the character sequence (`@`) of its
//! arguments, so the modules above can speak of parsed and rendered text as
//! sequences of characters.
use vstd::prelude::*;
use vstd::string::*;

verus! {

/// The characters Rust's `char::is_whitespace` accepts (Unicode `White_Space`).
pub open spec fn is_ws(c: char) -> bool {
    ||| c == ' '
    ||| ('\t' <= c && c <= '\r')
    ||| c == '\u{85}'
    ||| c == '\u{a0}'
    ||| c == '\u{1680}'
    ||| ('\u{2000}' <= c && c <= '\u{200a}')
    ||| c == '\u{2028}'
    ||| c == '\u{2029}'
    ||| c == '\u{202f}'
    ||| c == '\u{205f}'
    ||| c == '\u{3000}'
}

/// `s` without its leading whitespace.
pub open spec fn trim_front(s: Seq<char>) -> Seq<char>
    decreases s.len(),
{
    if s.len() > 0 && is_ws(s[0]) {
        trim_front(s.drop_first())
    } else {
        s
    }
}

/// `s` without its trailing whitespace.
pub open spec fn trim_back(s: Seq<char>) -> Seq<char>
    decreases s.len(),
{
    if s.len() > 0 && is_ws(s.last()) {
        trim_back(s.drop_last())
    } else {
        s
    }
}

/// `s` without leading and trailing whitespace, as `str::trim` returns it.
pub open spec fn trim_seq(s: Seq<char>) -> Seq<char> {
    trim_back(trim_front(s))
}

/// ASCII upper case mapped to lower case; every other character kept.
pub open spec fn lower_char(c: char) -> char {
    if 'A' <= c && c <= 'Z' {
        ((c as u32) + 32) as char
    } else {
        c
    }
}

/// The ASCII lower-case form of a whole string.
pub open spec fn lower_seq(s: Seq<char>) -> Seq<char> {
    s.map_values(|c: char| lower_char(c))
}

/// `p` is a prefix of `s`.
pub open spec fn has_prefix(s: Seq<char>, p: Seq<char>) -> bool {
    p.len() <= s.len() && s.subrange(0, p.len() as int) == p
}

/// `p` occurs in `s` starting at position `i`.
pub open spec fn occurs_at(s: Seq<char>, p: Seq<char>, i: int) -> bool {
    0 <= i && i + p.len() <= s.len() && s.subrange(i, i + p.len()) == p
}

/// The first position at or after `k` where `p` occurs in `s`.
pub open spec fn find_from(s: Seq<char>, p: Seq<char>, k: int) -> Option<int>
    decreases s.len() + 1 - k,
{
    if k < 0 || k + p.len() > s.len() {
        None
    } else if occurs_at(s, p, k) {
        Some(k)
    } else {
        find_from(s, p, k + 1)
    }
}

/// The first position where `p` occurs in `s`.
pub open spec fn find_seq(s: Seq<char>, p: Seq<char>) -> Option<int> {
    find_from(s, p, 0)
}

/// `p` occurs somewhere in `s`.
pub open spec fn contains_seq(s: Seq<char>, p: Seq<char>) -> bool {
    find_seq(s, p) is Some
}

/// The pieces of `s` between occurrences of `c`, as `str::split(c)` yields them.
pub open spec fn split_seq(s: Seq<char>, c: char) -> Seq<Seq<char>>
    decreases s.len(),
{
    if s.len() == 0 {
        seq![Seq::empty()]
    } else {
        let rest = split_seq(s.drop_last(), c);
        if s.last() == c {
            rest.push(Seq::empty())
        } else {
            rest.update(rest.len() - 1, rest.last().push(s.last()))
        }
    }
}

pub proof fn lemma_split_nonempty(s: Seq<char>, c: char)
    ensures
        split_seq(s, c).len() >= 1,
    decreases s.len(),
{
    if s.len() > 0 {
        lemma_split_nonempty(s.drop_last(), c);
    }
}

/// The view of every string of a vector.
pub open spec fn views(v: Seq<String>) -> Seq<Seq<char>> {
    v.map_values(|s: String| s@)
}

/// The views of two joined vectors of strings are the joined views.
pub proof fn lemma_views_add(a: Seq<String>, b: Seq<String>)
    ensures
        views(a + b) == views(a) + views(b),
{
    assert(views(a + b) =~= views(a) + views(b));
}

/// The view of every string slice of a vector.
pub open spec fn str_views(v: Seq<&str>) -> Seq<Seq<char>> {
    v.map_values(|s: &str| s@)
}

pub proof fn lemma_find_from_bounds(s: Seq<char>, p: Seq<char>, k: int)
    ensures
        find_from(s, p, k) matches Some(i) ==> k <= i && occurs_at(s, p, i),
    decreases s.len() + 1 - k,
{
    if k < 0 || k + p.len() > s.len() {
    } else if occurs_at(s, p, k) {
    } else {
        lemma_find_from_bounds(s, p, k + 1);
    }
}

pub proof fn lemma_find_from_first(s: Seq<char>, p: Seq<char>, k: int, j: int)
    requires
        0 <= k <= j,
        occurs_at(s, p, j),
    ensures
        find_from(s, p, k) matches Some(i) && i <= j,
    decreases j - k,
{
    if k < j {
        if !occurs_at(s, p, k) {
            lemma_find_from_first(s, p, k + 1, j);
        }
    }
}

/// Appends one character to a string.
#[verifier::external_body]
pub(crate) fn push_char(s: &mut String, c: char)
    ensures
        final(s)@ == old(s)@.push(c),
{
    s.push(c);
}

/// Whether two strings are equal, character for character.
pub fn str_eq(a: &str, b: &str) -> (r: bool)
    ensures
        r == (a@ == b@),
{
    let n = a.unicode_len();
    if n != b.unicode_len() {
        return false;
    }
    let mut i: usize = 0;
    while i < n
        invariant
            n == a@.len(),
            n == b@.len(),
            i <= n,
            forall|j: int| 0 <= j < i ==> a@[j] == b@[j],
        decreases n - i,
    {
        if a.get_char(i) != b.get_char(i) {
            return false;
        }
        i = i + 1;
    }
    assert(a@ =~= b@);
    true
}

/// Whether `p` occurs in `s` at character position `i`.
pub fn occurs_at_exec(s: &str, p: &str, i: usize) -> (r: bool)
    ensures
        r == occurs_at(s@, p@, i as int),
{
    let n = s.unicode_len();
    let m = p.unicode_len();
    if m > n || i > n - m {
        return false;
    }
    let mut j: usize = 0;
    while j < m
        invariant
            n == s@.len(),
            m == p@.len(),
            i + m <= n,
            j <= m,
            forall|t: int| 0 <= t < j ==> s@[i + t] == p@[t],
        decreases m - j,
    {
        if s.get_char(i + j) != p.get_char(j) {
            assert(s@.subrange(i as int, i + m)[j as int] != p@[j as int]);
            return false;
        }
        j = j + 1;
    }
    assert(s@.subrange(i as int, i + m) =~= p@);
    true
}

/// The first character position where `p` occurs in `s`, as `str::find` reports it in
/// characters.
pub fn find_str(s: &str, p: &str) -> (r: Option<usize>)
    ensures
        r matches Some(i) ==> find_seq(s@, p@) == Some(i as int),
        r is None ==> find_seq(s@, p@) is None,
{
    let n = s.unicode_len();
    let m = p.unicode_len();
    if m > n {
        return None;
    }
    let mut i: usize = 0;
    while i <= n - m
        invariant
            n == s@.len(),
            m == p@.len(),
            m <= n,
            i <= n - m + 1,
            find_seq(s@, p@) == find_from(s@, p@, i as int),
        decreases n - m + 1 - i,
    {
        if occurs_at_exec(s, p, i) {
            return Some(i);
        }
        if i == n - m {
            assert(find_from(s@, p@, i + 1) is None);
            return None;
        }
        i = i + 1;
    }
    None
}

/// Whether `p` occurs in `s`.
pub fn contains_str(s: &str, p: &str) -> (r: bool)
    ensures
        r == contains_seq(s@, p@),
{
    find_str(s, p).is_some()
}

/// Whether `s` starts with `p`.
pub fn starts_with(s: &str, p: &str) -> (r: bool)
    ensures
        r == has_prefix(s@, p@),
{
    occurs_at_exec(s, p, 0)
}

/// `s` without the prefix `p`, when it has that prefix.
pub fn strip_prefix<'a>(s: &'a str, p: &str) -> (r: Option<&'a str>)
    ensures
        r matches Some(t) ==> has_prefix(s@, p@) && t@ == s@.subrange(p@.len() as int, s@.len() as int),
        r is None ==> !has_prefix(s@, p@),
{
    if starts_with(s, p) {
        let n = s.unicode_len();
        let m = p.unicode_len();
        Some(s.substring_char(m, n))
    } else {
        None
    }
}

/// Splits `s` at the first occurrence of `p`, as `str::split_once` does.
pub fn split_once<'a>(s: &'a str, p: &str) -> (r: Option<(&'a str, &'a str)>)
    ensures
        r matches Some((a, b)) ==> find_seq(s@, p@) matches Some(i) && a@ == s@.subrange(0, i)
            && b@ == s@.subrange(i + p@.len(), s@.len() as int),
        r is None ==> find_seq(s@, p@) is None,
{
    match find_str(s, p) {
        None => None,
        Some(i) => {
            proof {
                lemma_find_from_bounds(s@, p@, 0);
            }
            let n = s.unicode_len();
            let m = p.unicode_len();
            Some((s.substring_char(0, i), s.substring_char(i + m, n)))
        },
    }
}

/// Whether `c` is whitespace in Rust's sense.
pub fn is_ws_exec(c: char) -> (r: bool)
    ensures
        r == is_ws(c),
{
    c == ' ' || ('\t' <= c && c <= '\r') || c == '\u{85}' || c == '\u{a0}' || c == '\u{1680}' || (
    '\u{2000}' <= c && c <= '\u{200a}') || c == '\u{2028}' || c == '\u{2029}' || c == '\u{202f}'
        || c == '\u{205f}' || c == '\u{3000}'
}

/// `s` without leading and trailing whitespace, as `str::trim` returns it.
pub fn trim(s: &str) -> (r: &str)
    ensures
        r@ == trim_seq(s@),
{
    let n = s.unicode_len();
    let mut i: usize = 0;
    assert(s@.subrange(0, n as int) =~= s@);
    while i < n && is_ws_exec(s.get_char(i))
        invariant
            n == s@.len(),
            i <= n,
            trim_front(s@) == trim_front(s@.subrange(i as int, n as int)),
        decreases n - i,
    {
        assert(s@.subrange(i as int, n as int).drop_first() =~= s@.subrange(i + 1, n as int));
        i = i + 1;
    }
    assert(trim_front(s@) == s@.subrange(i as int, n as int));
    let mut j: usize = n;
    while j > i && is_ws_exec(s.get_char(j - 1))
        invariant
            n == s@.len(),
            i <= j <= n,
            trim_seq(s@) == trim_back(s@.subrange(i as int, j as int)),
        decreases j,
    {
        assert(s@.subrange(i as int, j as int).drop_last() =~= s@.subrange(i as int, j - 1));
        j = j - 1;
    }
    s.substring_char(i, j)
}

/// The ASCII lower-case form of one character.
pub fn ascii_lower(c: char) -> (r: char)
    ensures
        r == lower_char(c),
{
    if 'A' <= c && c <= 'Z' {
        let b: u8 = (c as u32 + 32) as u8;
        b as char
    } else {
        c
    }
}

/// The ASCII lower-case form of a string, as `str::to_ascii_lowercase` returns it.
pub fn to_ascii_lowercase(s: &str) -> (r: String)
    ensures
        r@ == lower_seq(s@),
{
    let n = s.unicode_len();
    let mut out = String::new();
    let mut i: usize = 0;
    while i < n
        invariant
            n == s@.len(),
            i <= n,
            out@ =~= lower_seq(s@.subrange(0, i as int)),
        decreases n - i,
    {
        let c = s.get_char(i);
        push_char(&mut out, ascii_lower(c));
        assert(lower_seq(s@.subrange(0, i + 1)) =~= lower_seq(s@.subrange(0, i as int)).push(
            lower_char(c),
        ));
        i = i + 1;
    }
    assert(s@.subrange(0, n as int) =~= s@);
    out
}

/// Whether two strings are equal ignoring ASCII case, as `str::eq_ignore_ascii_case`.
pub fn eq_ignore_ascii_case(a: &str, b: &str) -> (r: bool)
    ensures
        r == (lower_seq(a@) == lower_seq(b@)),
{
    let n = a.unicode_len();
    if n != b.unicode_len() {
        assert(lower_seq(a@).len() != lower_seq(b@).len());
        return false;
    }
    let mut i: usize = 0;
    while i < n
        invariant
            n == a@.len(),
            n == b@.len(),
            i <= n,
            forall|j: int| 0 <= j < i ==> lower_char(a@[j]) == lower_char(b@[j]),
        decreases n - i,
    {
        if ascii_lower(a.get_char(i)) != ascii_lower(b.get_char(i)) {
            assert(lower_seq(a@)[i as int] != lower_seq(b@)[i as int]);
            return false;
        }
        i = i + 1;
    }
    assert(lower_seq(a@) =~= lower_seq(b@));
    true
}

/// The concatenation of `a` and `b`.
pub fn concat2(a: &str, b: &str) -> (r: String)
    ensures
        r@ == a@ + b@,
{
    let mut out = String::from_str(a);
    out.append(b);
    out
}

/// Splits `s` at every `c`, as `str::split(c)` does.
pub fn split_char<'a>(s: &'a str, c: char) -> (r: Vec<&'a str>)
    ensures
        str_views(r@) == split_seq(s@, c),
{
    let n = s.unicode_len();
    let mut out: Vec<&'a str> = Vec::new();
    let mut start: usize = 0;
    let mut i: usize = 0;
    assert(s@.subrange(0, 0) =~= Seq::<char>::empty());
    assert(str_views(out@) + seq![s@.subrange(0, 0)] =~= split_seq(s@.subrange(0, 0), c));
    while i < n
        invariant
            n == s@.len(),
            start <= i <= n,
            str_views(out@) + seq![s@.subrange(start as int, i as int)] == split_seq(
                s@.subrange(0, i as int),
                c,
            ),
        decreases n - i,
    {
        let ch = s.get_char(i);
        let ghost prev = s@.subrange(0, i as int);
        proof {
            lemma_split_nonempty(prev, c);
            assert(s@.subrange(0, i + 1).drop_last() =~= prev);
        }
        if ch == c {
            let piece = s.substring_char(start, i);
            out.push(piece);
            start = i + 1;
            assert(s@.subrange(start as int, start as int) =~= Seq::<char>::empty());
            assert(str_views(out@) + seq![s@.subrange(start as int, start as int)] =~= split_seq(
                s@.subrange(0, i + 1),
                c,
            ));
        } else {
            assert(s@.subrange(start as int, i + 1) =~= s@.subrange(start as int, i as int).push(
                ch,
            ));
            assert(str_views(out@) + seq![s@.subrange(start as int, i + 1)] =~= split_seq(
                s@.subrange(0, i + 1),
                c,
            ));
        }
        i = i + 1;
    }
    let last = s.substring_char(start, n);
    out.push(last);
    assert(s@.subrange(0, n as int) =~= s@);
    assert(str_views(out@) =~= split_seq(s@, c));
    out
}

/// The text `String::from_utf8_lossy` makes of `bytes`.
pub uninterp spec fn utf8_lossy(bytes: Seq<u8>) -> Seq<char>;

/// The text bytes make: the characters they encode where they are UTF-8, else what
/// `String::from_utf8_lossy` makes of them.
pub open spec fn bytes_text(bytes: Seq<u8>) -> Seq<char> {
    if vstd::utf8::valid_utf8(bytes) {
        vstd::utf8::decode_utf8(bytes)
    } else {
        utf8_lossy(bytes)
    }
}

/// Turns bytes into text, replacing what is not UTF-8.
///
/// Calls `String::from_utf8_lossy`. The text is named by [`utf8_lossy`]; for valid UTF-8 it
/// is, as documented, the characters the bytes encode.
#[verifier::external_body]
pub(crate) fn lossy_text(bytes: &[u8]) -> (r: String)
    ensures
        r@ == utf8_lossy(bytes@),
        vstd::utf8::valid_utf8(bytes@) ==> r@ == vstd::utf8::decode_utf8(bytes@),
{
    String::from_utf8_lossy(bytes).into_owned()
}

/// Whether `a` comes before `b` in lexicographic order of their characters (the order
/// `str::cmp` gives, since UTF-8 bytes order as their characters do).
pub open spec fn seq_less(a: Seq<char>, b: Seq<char>) -> bool
    decreases a.len(),
{
    if a.len() == 0 {
        b.len() > 0
    } else if b.len() == 0 {
        false
    } else if a[0] != b[0] {
        (a[0] as int) < (b[0] as int)
    } else {
        seq_less(a.drop_first(), b.drop_first())
    }
}

/// Two different texts are ordered one way or the other, and never both.
pub proof fn lemma_seq_less_total(a: Seq<char>, b: Seq<char>)
    ensures
        a != b ==> seq_less(a, b) || seq_less(b, a),
        !(seq_less(a, b) && seq_less(b, a)),
        !seq_less(a, a),
    decreases a.len(),
{
    if a.len() > 0 {
        lemma_seq_less_total(a.drop_first(), a.drop_first());
    }
    if a.len() > 0 && b.len() > 0 {
        lemma_seq_less_total(a.drop_first(), b.drop_first());
        if a[0] == b[0] && a.drop_first() == b.drop_first() {
            assert forall|i: int| 0 <= i < a.len() implies a[i] == b[i] by {
                if i > 0 {
                    assert(a[i] == a.drop_first()[i - 1]);
                    assert(b[i] == b.drop_first()[i - 1]);
                }
            }
            assert(a =~= b);
        }
    } else if a.len() == 0 && b.len() == 0 {
        assert(a =~= b);
    }
}

/// The order is transitive.
pub proof fn lemma_seq_less_trans(a: Seq<char>, b: Seq<char>, c: Seq<char>)
    requires
        seq_less(a, b),
        seq_less(b, c),
    ensures
        seq_less(a, c),
    decreases a.len(),
{
    if a.len() > 0 && b.len() > 0 && c.len() > 0 && a[0] == b[0] && b[0] == c[0] {
        lemma_seq_less_trans(a.drop_first(), b.drop_first(), c.drop_first());
    }
}

/// Whether `a` comes before `b` (see [`seq_less`]).
pub fn str_less(a: &str, b: &str) -> (r: bool)
    ensures
        r == seq_less(a@, b@),
{
    let n = a.unicode_len();
    let m = b.unicode_len();
    let mut i: usize = 0;
    assert(a@.subrange(0, n as int) =~= a@);
    assert(b@.subrange(0, m as int) =~= b@);
    while i < n && i < m
        invariant
            n == a@.len(),
            m == b@.len(),
            i <= n,
            i <= m,
            seq_less(a@, b@) == seq_less(a@.subrange(i as int, n as int), b@.subrange(i as int, m as int)),
        decreases n - i,
    {
        let x = a.get_char(i);
        let y = b.get_char(i);
        let ghost sa = a@.subrange(i as int, n as int);
        let ghost sb = b@.subrange(i as int, m as int);
        assert(sa[0] == x && sb[0] == y);
        if x != y {
            return (x as u32) < (y as u32);
        }
        assert(sa.drop_first() =~= a@.subrange(i + 1, n as int));
        assert(sb.drop_first() =~= b@.subrange(i + 1, m as int));
        i = i + 1;
    }
    i == n && i < m
}

} // verus!
