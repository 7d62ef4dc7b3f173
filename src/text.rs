//! Text primitives on character sequences, each stated over `Seq<char>`.

use vstd::prelude::*;

verus! {

/// `p` occurs in `s` starting at position `i`.
pub open spec fn occurs_at(s: Seq<char>, p: Seq<char>, i: int) -> bool {
    0 <= i && i + p.len() <= s.len() && s.subrange(i, i + p.len()) == p
}

/// `s` begins with `p`.
pub open spec fn is_prefix(p: Seq<char>, s: Seq<char>) -> bool {
    occurs_at(s, p, 0)
}

/// `s` ends with `p`.
pub open spec fn is_suffix(p: Seq<char>, s: Seq<char>) -> bool {
    occurs_at(s, p, s.len() - p.len())
}

/// The first position at or after `i` where `p` occurs in `s`.
pub open spec fn find_from(s: Seq<char>, p: Seq<char>, i: int) -> Option<int>
    decreases s.len() + 1 - i,
{
    if i < 0 || i + p.len() > s.len() {
        None
    } else if occurs_at(s, p, i) {
        Some(i)
    } else {
        find_from(s, p, i + 1)
    }
}

/// The first position where `p` occurs in `s`.
pub open spec fn find(s: Seq<char>, p: Seq<char>) -> Option<int> {
    find_from(s, p, 0)
}

/// `p` occurs somewhere in `s`.
pub open spec fn contains(s: Seq<char>, p: Seq<char>) -> bool {
    find(s, p) is Some
}

/// The last position at or before `i` where `p` occurs in `s`.
pub open spec fn rfind_from(s: Seq<char>, p: Seq<char>, i: int) -> Option<int>
    decreases i + 1,
{
    if i < 0 {
        None
    } else if occurs_at(s, p, i) {
        Some(i)
    } else {
        rfind_from(s, p, i - 1)
    }
}

/// The last position where `p` occurs in `s`.
pub open spec fn rfind(s: Seq<char>, p: Seq<char>) -> Option<int> {
    rfind_from(s, p, s.len() - p.len())
}

/// The text before and after the first occurrence of `p` in `s`.
pub open spec fn split_once(s: Seq<char>, p: Seq<char>) -> Option<(Seq<char>, Seq<char>)> {
    match find(s, p) {
        Some(i) => Some((s.subrange(0, i), s.subrange(i + p.len(), s.len() as int))),
        None => None,
    }
}

/// The text before and after the last occurrence of `p` in `s`.
pub open spec fn rsplit_once(s: Seq<char>, p: Seq<char>) -> Option<(Seq<char>, Seq<char>)> {
    match rfind(s, p) {
        Some(i) => Some((s.subrange(0, i), s.subrange(i + p.len(), s.len() as int))),
        None => None,
    }
}

/// What `find_from` finds is an occurrence, at or after the start.
pub proof fn lemma_find_from(s: Seq<char>, p: Seq<char>, i: int)
    ensures
        find_from(s, p, i) matches Some(k) ==> i <= k && occurs_at(s, p, k),
    decreases s.len() + 1 - i,
{
    if !(i < 0 || i + p.len() > s.len()) && !occurs_at(s, p, i) {
        lemma_find_from(s, p, i + 1);
    }
}

/// Whether `p` occurs in `s` at position `i`.
pub fn matches_at(s: &[char], p: &[char], i: usize) -> (r: bool)
    ensures
        r == occurs_at(s@, p@, i as int),
{
    if p.len() > s.len() || i > s.len() - p.len() {
        return false;
    }
    let mut j: usize = 0;
    while j < p.len()
        invariant
            j <= p.len(),
            i + p.len() <= s.len(),
            forall|k: int| 0 <= k < j ==> s@[i + k] == p@[k],
        decreases p.len() - j,
    {
        if s[i + j] != p[j] {
            proof {
                assert(s@.subrange(i as int, i + p.len())[j as int] != p@[j as int]);
            }
            return false;
        }
        j += 1;
    }
    proof {
        assert(s@.subrange(i as int, i + p.len()) =~= p@);
    }
    true
}

/// The first position where `p` occurs in `s`.
pub fn find_in(s: &[char], p: &[char]) -> (r: Option<usize>)
    ensures
        r matches Some(k) ==> find(s@, p@) == Some(k as int) && occurs_at(s@, p@, k as int),
        r is None ==> find(s@, p@) is None,
{
    let n = s.len();
    let m = p.len();
    if m > n {
        return None;
    }
    let mut i: usize = 0;
    while i <= n - m
        invariant
            n == s@.len(),
            m == p@.len(),
            m <= n,
            i <= n - m + 1,
            find_from(s@, p@, 0) == find_from(s@, p@, i as int),
        decreases n - m + 1 - i,
    {
        if matches_at(s, p, i) {
            return Some(i);
        }
        if i == n - m {
            assert(find_from(s@, p@, i + 1) is None);
            return None;
        }
        i += 1;
    }
    None
}


/// `s` with the prefix `p` removed, when it begins with `p`.
pub open spec fn strip_prefix(s: Seq<char>, p: Seq<char>) -> Option<Seq<char>> {
    if is_prefix(p, s) {
        Some(s.subrange(p.len() as int, s.len() as int))
    } else {
        None
    }
}

/// White space in the sense of Unicode's `White_Space` property, which is
/// what `char::is_whitespace` tests.
pub open spec fn is_space(c: char) -> bool {
    let u = c as u32;
    (9 <= u && u <= 13) || u == 32 || u == 0x85 || u == 0xA0 || u == 0x1680 || (0x2000 <= u && u
        <= 0x200A) || u == 0x2028 || u == 0x2029 || u == 0x202F || u == 0x205F || u == 0x3000
}

/// `s` without its leading white space.
pub open spec fn trim_start(s: Seq<char>) -> Seq<char>
    decreases s.len(),
{
    if s.len() > 0 && is_space(s[0]) {
        trim_start(s.drop_first())
    } else {
        s
    }
}

/// `s` without its trailing white space.
pub open spec fn trim_end(s: Seq<char>) -> Seq<char>
    decreases s.len(),
{
    if s.len() > 0 && is_space(s.last()) {
        trim_end(s.drop_last())
    } else {
        s
    }
}

/// `s` without leading and trailing white space.
pub open spec fn trim(s: Seq<char>) -> Seq<char> {
    trim_end(trim_start(s))
}

/// `s` with every leading repetition of `p` removed.
pub open spec fn trim_start_matches(s: Seq<char>, p: Seq<char>) -> Seq<char>
    decreases s.len(),
{
    if p.len() > 0 && is_prefix(p, s) {
        trim_start_matches(s.subrange(p.len() as int, s.len() as int), p)
    } else {
        s
    }
}

/// `s` with every trailing `c` removed.
pub open spec fn trim_end_char(s: Seq<char>, c: char) -> Seq<char>
    decreases s.len(),
{
    if s.len() > 0 && s.last() == c {
        trim_end_char(s.drop_last(), c)
    } else {
        s
    }
}

/// `s` with every `from` replaced by `to`.
pub open spec fn replace_char(s: Seq<char>, from: char, to: char) -> Seq<char> {
    s.map_values(|c: char| if c == from { to } else { c })
}

pub open spec fn is_digit(c: char) -> bool {
    '0' <= c && c <= '9'
}

/// The number that a sequence of decimal digits denotes.
pub open spec fn digits_value(s: Seq<char>) -> nat
    decreases s.len(),
{
    if s.len() == 0 {
        0
    } else {
        digits_value(s.drop_last()) * 10 + ((s.last() as u32) - ('0' as u32)) as nat
    }
}

/// The digits of an unsigned decimal, after an optional `+` sign.
pub open spec fn unsigned_digits(s: Seq<char>) -> Seq<char> {
    if s.len() > 0 && s[0] == '+' {
        s.drop_first()
    } else {
        s
    }
}

/// `s` read as an unsigned decimal that fits in a `usize`, as `usize::from_str`
/// reads it: an optional `+`, then one or more digits.
pub open spec fn parse_usize(s: Seq<char>) -> Option<usize> {
    let d = unsigned_digits(s);
    if d.len() > 0 && (forall|i: int| 0 <= i < d.len() ==> is_digit(#[trigger] d[i]))
        && digits_value(d) <= usize::MAX {
        Some(digits_value(d) as usize)
    } else {
        None
    }
}

/// A number field: its value, or 0 where it does not parse.
pub open spec fn number_or_zero(s: Seq<char>) -> usize {
    match parse_usize(s) {
        Some(n) => n,
        None => 0,
    }
}

/// How many bytes `c` takes in UTF-8.
pub open spec fn utf8_len(c: char) -> nat {
    let u = c as u32;
    if u < 0x80 {
        1
    } else if u < 0x800 {
        2
    } else if u < 0x10000 {
        3
    } else {
        4
    }
}

/// `s` without its first `n` bytes of UTF-8, when byte `n` is the start of a
/// character (or the end of `s`).
pub open spec fn skip_bytes(s: Seq<char>, n: nat) -> Option<Seq<char>>
    decreases s.len(),
{
    if n == 0 {
        Some(s)
    } else if s.len() == 0 || utf8_len(s[0]) > n {
        None
    } else {
        skip_bytes(s.drop_first(), (n - utf8_len(s[0])) as nat)
    }
}

/// `s` without its last byte of UTF-8, when that byte is a whole character.
pub open spec fn drop_last_byte(s: Seq<char>) -> Option<Seq<char>> {
    if s.len() > 0 && utf8_len(s.last()) == 1 {
        Some(s.drop_last())
    } else {
        None
    }
}

/// One line without a carriage return that stood before its newline.
pub open spec fn strip_cr(l: Seq<char>) -> Seq<char> {
    if l.len() > 0 && l.last() == '\r' {
        l.drop_last()
    } else {
        l
    }
}

/// The lines of `s`: split at each `\n`, a `\r` before it dropped, and no
/// empty line after a final newline.
pub open spec fn lines_of(s: Seq<char>) -> Seq<Seq<char>>
    decreases s.len(),
    via lines_of_decreases
{
    match find(s, seq!['\n']) {
        Some(i) => seq![strip_cr(s.subrange(0, i))] + lines_of(s.subrange(i + 1, s.len() as int)),
        None => if s.len() == 0 {
            Seq::empty()
        } else {
            seq![s]
        },
    }
}

#[via_fn]
proof fn lines_of_decreases(s: Seq<char>) {
    lemma_find_from(s, seq!['\n'], 0);
}

/// The pieces of `s` between the occurrences of `c`.
pub open spec fn split_char(s: Seq<char>, c: char) -> Seq<Seq<char>>
    decreases s.len(),
    via split_char_decreases
{
    match find(s, seq![c]) {
        Some(i) => seq![s.subrange(0, i)] + split_char(s.subrange(i + 1, s.len() as int), c),
        None => seq![s],
    }
}

#[via_fn]
proof fn split_char_decreases(s: Seq<char>, c: char) {
    lemma_find_from(s, seq![c], 0);
}

/// The pieces of `ws` that are not empty.
pub open spec fn non_empty(ws: Seq<Seq<char>>) -> Seq<Seq<char>>
    decreases ws.len(),
{
    if ws.len() == 0 {
        ws
    } else if ws.last().len() == 0 {
        non_empty(ws.drop_last())
    } else {
        non_empty(ws.drop_last()).push(ws.last())
    }
}

/// The words of `s` between spaces.
pub open spec fn words(s: Seq<char>) -> Seq<Seq<char>> {
    non_empty(split_char(s, ' '))
}

/// `ws` joined with single spaces.
pub open spec fn join_words(ws: Seq<Seq<char>>) -> Seq<char>
    decreases ws.len(),
{
    if ws.len() == 0 {
        Seq::empty()
    } else if ws.len() == 1 {
        ws[0]
    } else {
        join_words(ws.drop_last()) + seq![' '] + ws.last()
    }
}

/// The views of a list of character vectors.
pub open spec fn views(v: Seq<Vec<char>>) -> Seq<Seq<char>> {
    v.map_values(|l: Vec<char>| l@)
}

/// The characters of `s`.
pub fn chars_of(s: &str) -> (r: Vec<char>)
    ensures
        r@ == s@,
{
    let mut v: Vec<char> = Vec::new();
    for c in it: s.chars()
        invariant
            v@ == it.seq().take(it.index() as int),
    {
        v.push(c);
    }
    v
}


/// Relies on std's `FromIterator<&char>` for `String`: the string holds the
/// given characters, in order.
#[verifier::external_body]
pub(crate) fn string_of(s: &[char]) -> (r: String)
    ensures
        r@ == s@,
{
    s.iter().collect()
}

/// The view of an optional pair of slices.
pub open spec fn pair_view(r: Option<(&[char], &[char])>) -> Option<(Seq<char>, Seq<char>)> {
    match r {
        Some((a, b)) => Some((a@, b@)),
        None => None,
    }
}

/// The view of an optional slice.
pub open spec fn opt_view(r: Option<&[char]>) -> Option<Seq<char>> {
    match r {
        Some(a) => Some(a@),
        None => None,
    }
}

/// `a` followed by `b`.
pub fn concat(a: &[char], b: &[char]) -> (r: Vec<char>)
    ensures
        r@ == a@ + b@,
{
    let mut v = vstd::slice::slice_to_vec(a);
    let mut i: usize = 0;
    while i < b.len()
        invariant
            i <= b.len(),
            v@ == a@ + b@.subrange(0, i as int),
        decreases b.len() - i,
    {
        v.push(b[i]);
        i += 1;
        proof {
            assert(v@ =~= a@ + b@.subrange(0, i as int));
        }
    }
    proof {
        assert(b@.subrange(0, b@.len() as int) =~= b@);
    }
    v
}

/// `s` begins with `p`.
pub fn starts_with(s: &[char], p: &str) -> (r: bool)
    ensures
        r == is_prefix(p@, s@),
{
    let p = chars_of(p);
    matches_at(s, p.as_slice(), 0)
}

/// `s` ends with `p`.
pub fn ends_with(s: &[char], p: &str) -> (r: bool)
    ensures
        r == is_suffix(p@, s@),
{
    let p = chars_of(p);
    if p.len() > s.len() {
        return false;
    }
    matches_at(s, p.as_slice(), s.len() - p.len())
}

/// `p` occurs in `s`.
pub fn contains_str(s: &[char], p: &str) -> (r: bool)
    ensures
        r == contains(s@, p@),
{
    let p = chars_of(p);
    find_in(s, p.as_slice()).is_some()
}

/// The text before and after the first occurrence of `p` in `s`.
pub fn split_first<'a>(s: &'a [char], p: &[char]) -> (r: Option<(&'a [char], &'a [char])>)
    ensures
        pair_view(r) == split_once(s@, p@),
{
    match find_in(s, p) {
        Some(i) => {
            assert(occurs_at(s@, p@, i as int));
            let m = p.len();
            let n = s.len();
            assert(i + m <= n);
            Some(
            (
                vstd::slice::slice_subrange(s, 0, i),
                vstd::slice::slice_subrange(s, i + m, n),
            ),
        )
        },
        None => None,
    }
}

/// The text before and after the first occurrence of `p` in `s`.
pub fn split_first_str<'a>(s: &'a [char], p: &str) -> (r: Option<(&'a [char], &'a [char])>)
    ensures
        pair_view(r) == split_once(s@, p@),
{
    let p = chars_of(p);
    split_first(s, p.as_slice())
}

/// The text before and after the last occurrence of `p` in `s`.
pub fn split_last<'a>(s: &'a [char], pat: &[char]) -> (r: Option<(&'a [char], &'a [char])>)
    ensures
        pair_view(r) == rsplit_once(s@, pat@),
{
    let ghost p = pat@;
    let n = s.len();
    let m = pat.len();
    if m > n {
        return None;
    }
    let mut i: usize = n - m;
    loop
        invariant
            n == s@.len(),
            m == pat@.len(),
            pat@ == p,
            i <= n - m,
            rfind(s@, p) == rfind_from(s@, p, i as int),
        decreases i,
    {
        if matches_at(s, pat, i) {
            assert(rfind_from(s@, p, i as int) == Some(i as int));
            return Some(
                (vstd::slice::slice_subrange(s, 0, i), vstd::slice::slice_subrange(s, i + m, n)),
            );
        }
        if i == 0 {
            assert(rfind_from(s@, p, -1) is None);
            return None;
        }
        i -= 1;
    }
}

/// `s` with the prefix `p` removed, when it begins with `p`.
pub fn strip_prefix_str<'a>(s: &'a [char], p: &str) -> (r: Option<&'a [char]>)
    ensures
        opt_view(r) == strip_prefix(s@, p@),
{
    let p = chars_of(p);
    if matches_at(s, p.as_slice(), 0) {
        Some(vstd::slice::slice_subrange(s, p.len(), s.len()))
    } else {
        None
    }
}

/// Whether `c` is white space.
pub fn is_space_char(c: char) -> (r: bool)
    ensures
        r == is_space(c),
{
    let u = c as u32;
    (9 <= u && u <= 13) || u == 32 || u == 0x85 || u == 0xA0 || u == 0x1680 || (0x2000 <= u && u
        <= 0x200A) || u == 0x2028 || u == 0x2029 || u == 0x202F || u == 0x205F || u == 0x3000
}

/// `s` without its leading white space.
pub fn trimmed_start(s: &[char]) -> (r: &[char])
    ensures
        r@ == trim_start(s@),
{
    let n = s.len();
    let mut i: usize = 0;
    assert(s@.subrange(0, n as int) =~= s@);
    while i < n && is_space_char(s[i])
        invariant
            i <= n,
            n == s@.len(),
            trim_start(s@) == trim_start(s@.subrange(i as int, n as int)),
        decreases n - i,
    {
        proof {
            assert(s@.subrange(i as int, n as int).drop_first() =~= s@.subrange(
                i + 1,
                n as int,
            ));
        }
        i += 1;
    }
    vstd::slice::slice_subrange(s, i, n)
}

/// `s` without its trailing white space.
pub fn trimmed_end(s: &[char]) -> (r: &[char])
    ensures
        r@ == trim_end(s@),
{
    let mut j: usize = s.len();
    assert(s@.subrange(0, j as int) =~= s@);
    while j > 0 && is_space_char(s[j - 1])
        invariant
            j <= s@.len(),
            trim_end(s@) == trim_end(s@.subrange(0, j as int)),
        decreases j,
    {
        proof {
            assert(s@.subrange(0, j as int).drop_last() =~= s@.subrange(0, j - 1));
        }
        j -= 1;
    }
    vstd::slice::slice_subrange(s, 0, j)
}

/// `s` without leading and trailing white space.
pub fn trimmed(s: &[char]) -> (r: &[char])
    ensures
        r@ == trim(s@),
{
    trimmed_end(trimmed_start(s))
}

/// `s` with every leading repetition of `p` removed.
pub fn trimmed_start_matches<'a>(s: &'a [char], p: &str) -> (r: &'a [char])
    ensures
        r@ == trim_start_matches(s@, p@),
{
    let p = chars_of(p);
    if p.len() == 0 {
        return s;
    }
    let n = s.len();
    let mut i: usize = 0;
    assert(s@.subrange(0, n as int) =~= s@);
    while i <= n && matches_at(s, p.as_slice(), i)
        invariant
            i <= n,
            n == s@.len(),
            p@.len() > 0,
            trim_start_matches(s@, p@) == trim_start_matches(s@.subrange(i as int, n as int), p@),
        decreases n - i,
    {
        proof {
            assert(s@.subrange(i as int, n as int).subrange(p@.len() as int, n - i) =~= s@.subrange(
                i + p@.len(),
                n as int,
            ));
            assert(s@.subrange(i as int, n as int).subrange(0, p@.len() as int) =~= s@.subrange(
                i as int,
                i + p@.len(),
            ));
        }
        i += p.len();
    }
    proof {
        if p@.len() <= n - i {
            assert(s@.subrange(i as int, n as int).subrange(0, p@.len() as int) =~= s@.subrange(
                i as int,
                i + p@.len(),
            ));
        }
    }
    vstd::slice::slice_subrange(s, i, n)
}

/// `s` with every trailing `c` removed.
pub fn trimmed_end_char(s: &[char], c: char) -> (r: &[char])
    ensures
        r@ == trim_end_char(s@, c),
{
    let mut j: usize = s.len();
    assert(s@.subrange(0, j as int) =~= s@);
    while j > 0 && s[j - 1] == c
        invariant
            j <= s@.len(),
            trim_end_char(s@, c) == trim_end_char(s@.subrange(0, j as int), c),
        decreases j,
    {
        proof {
            assert(s@.subrange(0, j as int).drop_last() =~= s@.subrange(0, j - 1));
        }
        j -= 1;
    }
    vstd::slice::slice_subrange(s, 0, j)
}

/// `s` with every `from` replaced by `to`.
pub fn replaced_char(s: &[char], from: char, to: char) -> (r: Vec<char>)
    ensures
        r@ == replace_char(s@, from, to),
{
    let mut v: Vec<char> = Vec::new();
    let mut i: usize = 0;
    while i < s.len()
        invariant
            i <= s.len(),
            v@ == replace_char(s@.subrange(0, i as int), from, to),
        decreases s.len() - i,
    {
        let c = if s[i] == from {
            to
        } else {
            s[i]
        };
        v.push(c);
        i += 1;
        proof {
            assert(v@ =~= replace_char(s@.subrange(0, i as int), from, to));
        }
    }
    proof {
        assert(s@.subrange(0, s@.len() as int) =~= s@);
    }
    v
}


/// A longer run of digits denotes a number at least as large.
proof fn lemma_digits_value_grows(d: Seq<char>, k: int)
    requires
        0 <= k <= d.len(),
        forall|i: int| 0 <= i < d.len() ==> is_digit(#[trigger] d[i]),
    ensures
        digits_value(d.subrange(0, k)) <= digits_value(d),
    decreases d.len() - k,
{
    if k < d.len() {
        lemma_digits_value_grows(d, k + 1);
        assert(d.subrange(0, k + 1).drop_last() =~= d.subrange(0, k));
    } else {
        assert(d.subrange(0, k) =~= d);
    }
}

/// `s` read as an unsigned decimal.
pub fn parse_number(s: &[char]) -> (r: Option<usize>)
    ensures
        r == parse_usize(s@),
{
    let d = if s.len() > 0 && s[0] == '+' {
        vstd::slice::slice_subrange(s, 1, s.len())
    } else {
        s
    };
    assert(d@ =~= unsigned_digits(s@));
    if d.len() == 0 {
        return None;
    }
    let mut value: usize = 0;
    let mut i: usize = 0;
    while i < d.len()
        invariant
            i <= d.len(),
            d@ == unsigned_digits(s@),
            forall|k: int| 0 <= k < i ==> is_digit(#[trigger] d@[k]),
            value == digits_value(d@.subrange(0, i as int)),
        decreases d.len() - i,
    {
        let c = d[i];
        if !('0' <= c && c <= '9') {
            assert(!is_digit(d@[i as int]));
            return None;
        }
        let digit = (c as u32 - '0' as u32) as usize;
        assert(d@.subrange(0, i + 1).drop_last() =~= d@.subrange(0, i as int));
        match value.checked_mul(10) {
            Some(t) => match t.checked_add(digit) {
                Some(v) => {
                    value = v;
                },
                None => {
                    proof {
                        assert(d@.subrange(0, i + 1).last() == c);
                        assert(digits_value(d@.subrange(0, i + 1)) == t + digit);
                        if forall|k: int| 0 <= k < d@.len() ==> is_digit(#[trigger] d@[k]) {
                            lemma_digits_value_grows(d@, i + 1);
                        }
                    }
                    return None;
                },
            },
            None => {
                proof {
                    if forall|k: int| 0 <= k < d@.len() ==> is_digit(#[trigger] d@[k]) {
                        lemma_digits_value_grows(d@, i + 1);
                    }
                }
                return None;
            },
        }
        i += 1;
    }
    assert(d@.subrange(0, d@.len() as int) =~= d@);
    Some(value)
}

/// A number field: its value, or 0 where it does not parse.
pub fn number_or_zero_of(s: &[char]) -> (r: usize)
    ensures
        r == number_or_zero(s@),
{
    match parse_number(s) {
        Some(n) => n,
        None => 0,
    }
}

/// How many bytes `c` takes in UTF-8.
pub fn utf8_len_of(c: char) -> (r: usize)
    ensures
        r == utf8_len(c),
{
    let u = c as u32;
    if u < 0x80 {
        1
    } else if u < 0x800 {
        2
    } else if u < 0x10000 {
        3
    } else {
        4
    }
}

/// `s` without its first `n` bytes of UTF-8, when byte `n` starts a character.
pub fn skipped_bytes(s: &[char], n: usize) -> (r: Option<&[char]>)
    ensures
        opt_view(r) == skip_bytes(s@, n as nat),
{
    let mut i: usize = 0;
    let mut left: usize = n;
    assert(s@.subrange(0, s@.len() as int) =~= s@);
    while left > 0
        invariant
            i <= s.len(),
            skip_bytes(s@, n as nat) == skip_bytes(s@.subrange(i as int, s@.len() as int), left as nat),
        decreases left,
    {
        if i == s.len() {
            return None;
        }
        let w = utf8_len_of(s[i]);
        if w > left {
            return None;
        }
        assert(s@.subrange(i as int, s@.len() as int).drop_first() =~= s@.subrange(
            i + 1,
            s@.len() as int,
        ));
        left -= w;
        i += 1;
    }
    Some(vstd::slice::slice_subrange(s, i, s.len()))
}

/// `s` without its last byte of UTF-8, when that byte is a whole character.
pub fn dropped_last_byte(s: &[char]) -> (r: Option<&[char]>)
    ensures
        opt_view(r) == drop_last_byte(s@),
{
    if s.len() > 0 && utf8_len_of(s[s.len() - 1]) == 1 {
        Some(vstd::slice::slice_subrange(s, 0, s.len() - 1))
    } else {
        None
    }
}

/// The lines of `s`.
pub fn lines(s: &[char]) -> (r: Vec<Vec<char>>)
    ensures
        views(r@) == lines_of(s@),
{
    let mut out: Vec<Vec<char>> = Vec::new();
    let mut rest = s;
    let newline = ['\n'];
    assert(newline@ =~= seq!['\n']);
    while rest.len() > 0
        invariant
            newline@ == seq!['\n'],
            views(out@) + lines_of(rest@) == lines_of(s@),
        decreases rest.len(),
    {
        match find_in(rest, newline.as_slice()) {
            Some(i) => {
                let line = vstd::slice::slice_subrange(rest, 0, i);
                let line = if i > 0 && line[i - 1] == '\r' {
                    vstd::slice::slice_subrange(line, 0, i - 1)
                } else {
                    line
                };
                assert(line@ == strip_cr(rest@.subrange(0, i as int)));
                let ghost old_out = out@;
                out.push(vstd::slice::slice_to_vec(line));
                assert(views(out@) =~= views(old_out).push(line@));
                let ghost old_rest = rest@;
                rest = vstd::slice::slice_subrange(rest, i + 1, rest.len());
                assert(lines_of(old_rest) == seq![line@] + lines_of(rest@));
                assert(views(out@) + lines_of(rest@) =~= views(old_out) + lines_of(old_rest));
            },
            None => {
                let ghost old_out = out@;
                out.push(vstd::slice::slice_to_vec(rest));
                assert(views(out@) =~= views(old_out).push(rest@));
                assert(lines_of(rest@) == seq![rest@]);
                assert(views(out@) =~= views(old_out) + lines_of(rest@));
                return out;
            },
        }
    }
    assert(lines_of(rest@) == Seq::<Seq<char>>::empty());
    assert(views(out@) =~= views(out@) + lines_of(rest@));
    out
}

/// The lines of a log.
pub fn log_lines(log: &str) -> (r: Vec<Vec<char>>)
    ensures
        views(r@) == lines_of(log@),
{
    let chars = chars_of(log);
    lines(chars.as_slice())
}

/// The pieces of `s` between the occurrences of `c`.
pub fn split_on(s: &[char], c: char) -> (r: Vec<Vec<char>>)
    ensures
        views(r@) == split_char(s@, c),
{
    let mut out: Vec<Vec<char>> = Vec::new();
    let mut rest = s;
    let sep = [c];
    assert(sep@ =~= seq![c]);
    loop
        invariant
            sep@ == seq![c],
            views(out@) + split_char(rest@, c) == split_char(s@, c),
        decreases rest.len(),
    {
        match find_in(rest, sep.as_slice()) {
            Some(i) => {
                let piece = vstd::slice::slice_subrange(rest, 0, i);
                let ghost old_out = out@;
                out.push(vstd::slice::slice_to_vec(piece));
                assert(views(out@) =~= views(old_out).push(piece@));
                let ghost old_rest = rest@;
                rest = vstd::slice::slice_subrange(rest, i + 1, rest.len());
                assert(split_char(old_rest, c) == seq![piece@] + split_char(rest@, c));
                assert(views(out@) + split_char(rest@, c) =~= views(old_out) + split_char(
                    old_rest,
                    c,
                ));
            },
            None => {
                let ghost old_out = out@;
                out.push(vstd::slice::slice_to_vec(rest));
                assert(views(out@) =~= views(old_out).push(rest@));
                assert(views(out@) =~= views(old_out) + split_char(rest@, c));
                return out;
            },
        }
    }
}

/// The words of `s` between spaces.
pub fn words_of(s: &[char]) -> (r: Vec<Vec<char>>)
    ensures
        views(r@) == words(s@),
{
    let pieces = split_on(s, ' ');
    let mut out: Vec<Vec<char>> = Vec::new();
    let mut i: usize = 0;
    while i < pieces.len()
        invariant
            i <= pieces.len(),
            views(pieces@) == split_char(s@, ' '),
            views(out@) == non_empty(views(pieces@).subrange(0, i as int)),
        decreases pieces.len() - i,
    {
        let ghost prev = views(pieces@).subrange(0, i as int);
        assert(views(pieces@).subrange(0, i + 1).drop_last() =~= prev);
        if pieces[i].len() > 0 {
            let ghost old_out = out@;
            out.push(pieces[i].clone());
            assert(views(out@) =~= views(old_out).push(pieces@[i as int]@));
        }
        i += 1;
    }
    assert(views(pieces@).subrange(0, pieces@.len() as int) =~= views(pieces@));
    out
}

/// `ws` joined with single spaces.
pub fn joined_words(ws: &[Vec<char>]) -> (r: Vec<char>)
    ensures
        r@ == join_words(views(ws@)),
{
    let mut out: Vec<char> = Vec::new();
    let mut i: usize = 0;
    while i < ws.len()
        invariant
            i <= ws.len(),
            out@ == join_words(views(ws@).subrange(0, i as int)),
        decreases ws.len() - i,
    {
        assert(views(ws@).subrange(0, i + 1).drop_last() =~= views(ws@).subrange(0, i as int));
        if i > 0 {
            out.push(' ');
        }
        let ghost before = out@;
        let mut k: usize = 0;
        while k < ws[i].len()
            invariant
                i < ws.len(),
                k <= ws[i as int]@.len(),
                out@ == before + ws[i as int]@.subrange(0, k as int),
            decreases ws[i as int]@.len() - k,
        {
            out.push(ws[i][k]);
            k += 1;
            assert(out@ =~= before + ws[i as int]@.subrange(0, k as int));
        }
        assert(ws[i as int]@.subrange(0, k as int) =~= ws[i as int]@);
        i += 1;
        assert(views(ws@).subrange(0, i as int).last() == ws[i - 1]@);
    }
    assert(views(ws@).subrange(0, ws@.len() as int) =~= views(ws@));
    out
}


/// What is left after skipping bytes is a suffix of the text.
pub proof fn lemma_skip_bytes_suffix(s: Seq<char>, n: nat)
    ensures
        skip_bytes(s, n) matches Some(r) ==> r.len() <= s.len() && r == s.subrange(
            s.len() - r.len(),
            s.len() as int,
        ),
    decreases s.len(),
{
    if n == 0 {
        assert(s.subrange(0, s.len() as int) =~= s);
    } else if s.len() == 0 || utf8_len(s[0]) > n {
    } else {
        lemma_skip_bytes_suffix(s.drop_first(), (n - utf8_len(s[0])) as nat);
        if let Some(r) = skip_bytes(s, n) {
            assert(s.drop_first().subrange(s.len() - 1 - r.len(), s.len() - 1) =~= s.subrange(
                s.len() - r.len(),
                s.len() as int,
            ));
        }
    }
}


/// Splitting always gives at least one piece.
pub proof fn lemma_split_char_len(s: Seq<char>, c: char)
    ensures
        split_char(s, c).len() >= 1,
    decreases s.len(),
{
    lemma_find_from(s, seq![c], 0);
    if let Some(i) = find(s, seq![c]) {
        lemma_split_char_len(s.subrange(i + 1, s.len() as int), c);
    }
}


/// Whether `a` is exactly `b`.
pub fn equals_str(a: &[char], b: &str) -> (r: bool)
    ensures
        r == (a@ == b@),
{
    let w = chars_of(b);
    if a.len() != w.len() {
        return false;
    }
    let r = matches_at(a, w.as_slice(), 0);
    proof {
        assert(a@.subrange(0, w@.len() as int) =~= a@);
    }
    r
}

/// The pieces of `ps` from `k` on, joined with nothing between them.
pub open spec fn concat_from(ps: Seq<Seq<char>>, k: int) -> Seq<char>
    decreases ps.len() - k,
{
    if k < 0 || k >= ps.len() {
        Seq::empty()
    } else {
        ps[k] + concat_from(ps, k + 1)
    }
}

/// The pieces of `ps` from `k` on, joined with nothing between them.
pub fn concatenated_from(ps: &Vec<Vec<char>>, k: usize) -> (r: Vec<char>)
    ensures
        r@ == concat_from(views(ps@), k as int),
{
    let mut out: Vec<char> = Vec::new();
    let mut j: usize = k;
    while j < ps.len()
        invariant
            k <= j,
            out@ + concat_from(views(ps@), j as int) == concat_from(views(ps@), k as int),
        decreases ps.len() - j,
    {
        let ghost before = out@;
        out = concat(out.as_slice(), ps[j].as_slice());
        assert(out@ + concat_from(views(ps@), j + 1) =~= before + concat_from(
            views(ps@),
            j as int,
        ));
        j += 1;
    }
    assert(out@ + concat_from(views(ps@), j as int) =~= out@);
    out
}

} // verus!
