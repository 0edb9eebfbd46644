//! Character-level text handling shared by the feed parsers and the
//! presentation helpers: whitespace, trimming, searching, case folding and
//! decimal numbers, each stated over `Seq<char>`.
use vstd::prelude::*;

verus! {

// ---------------------------------------------------------------------
// Characters
// ---------------------------------------------------------------------
/// The Unicode `White_Space` property, as used by `char::is_whitespace`,
/// `str::trim` and `str::split_whitespace`.
pub open spec fn is_ws(c: char) -> bool {
    ||| ('\u{9}' <= c && c <= '\u{d}')
    ||| c == ' '
    ||| c == '\u{85}'
    ||| c == '\u{a0}'
    ||| c == '\u{1680}'
    ||| ('\u{2000}' <= c && c <= '\u{200a}')
    ||| c == '\u{2028}'
    ||| c == '\u{2029}'
    ||| c == '\u{202f}'
    ||| c == '\u{205f}'
    ||| c == '\u{3000}'
}

/// Executable form of [`is_ws`].
pub fn is_whitespace(c: char) -> (res: bool)
    ensures
        res == is_ws(c),
{
    ('\u{9}' <= c && c <= '\u{d}') || c == ' ' || c == '\u{85}' || c == '\u{a0}' || c
        == '\u{1680}' || ('\u{2000}' <= c && c <= '\u{200a}') || c == '\u{2028}' || c
        == '\u{2029}' || c == '\u{202f}' || c == '\u{205f}' || c == '\u{3000}'
}

/// `c` is an ASCII decimal digit.
pub open spec fn is_digit(c: char) -> bool {
    '0' <= c && c <= '9'
}

/// The value of the ASCII digit `c`.
pub open spec fn digit_value(c: char) -> nat {
    (c as int - '0' as int) as nat
}

/// The decimal digit character for `d < 10`.
pub open spec fn digit_char(d: nat) -> char {
    (d + '0' as int) as char
}

/// `c` with an ASCII capital letter lowered.
pub open spec fn ascii_lower_char(c: char) -> char {
    if 'A' <= c && c <= 'Z' {
        (c as int + 32) as char
    } else {
        c
    }
}

/// `s` with its ASCII capital letters lowered (`to_ascii_lowercase`).
pub open spec fn ascii_lower(s: Seq<char>) -> Seq<char> {
    s.map_values(|c: char| ascii_lower_char(c))
}

// ---------------------------------------------------------------------
// Conversions between `str`/`String` and character vectors
// ---------------------------------------------------------------------
/// Appends one character (`String::push`).
#[verifier::external_body]
pub(crate) fn push_char(s: &mut String, c: char)
    ensures
        final(s)@ == old(s)@.push(c),
{
    s.push(c);
}

/// The characters of `s`, in order.
pub fn chars_of(s: &str) -> (res: Vec<char>)
    ensures
        res@ == s@,
{
    let mut out: Vec<char> = Vec::new();
    for c in it: s.chars()
        invariant
            out@ == it.seq().take(it.index() as int),
            it.seq() == s@,
    {
        out.push(c);
    }
    out
}

/// The string made of the characters `cs`.
pub fn string_of(cs: &[char]) -> (res: String)
    ensures
        res@ == cs@,
{
    let mut out = String::new();
    let mut i: usize = 0;
    while i < cs.len()
        invariant
            i <= cs.len(),
            out@ == cs@.take(i as int),
        decreases cs.len() - i,
    {
        push_char(&mut out, cs[i]);
        assert(cs@.take(i + 1) =~= cs@.take(i as int).push(cs@[i as int]));
        i = i + 1;
    }
    assert(cs@.take(cs.len() as int) =~= cs@);
    out
}

/// The string made of the characters `s[from..to]`.
pub fn string_of_range(s: &[char], from: usize, to: usize) -> (res: String)
    requires
        from <= to <= s@.len(),
    ensures
        res@ == s@.subrange(from as int, to as int),
{
    let mut out = String::new();
    let mut i: usize = from;
    while i < to
        invariant
            from <= i <= to <= s@.len(),
            out@ == s@.subrange(from as int, i as int),
        decreases to - i,
    {
        push_char(&mut out, s[i]);
        assert(s@.subrange(from as int, i + 1) =~= s@.subrange(from as int, i as int).push(
            s@[i as int],
        ));
        i = i + 1;
    }
    out
}

/// The characters `s[from..to]`.
pub fn copy_range(s: &[char], from: usize, to: usize) -> (res: Vec<char>)
    requires
        from <= to <= s@.len(),
    ensures
        res@ == s@.subrange(from as int, to as int),
{
    let mut out: Vec<char> = Vec::new();
    let mut i: usize = from;
    while i < to
        invariant
            from <= i <= to <= s@.len(),
            out@ == s@.subrange(from as int, i as int),
        decreases to - i,
    {
        out.push(s[i]);
        assert(s@.subrange(from as int, i + 1) =~= s@.subrange(from as int, i as int).push(
            s@[i as int],
        ));
        i = i + 1;
    }
    out
}

/// Appends `t` to `s`.
pub fn push_str(s: &mut String, t: &str)
    ensures
        final(s)@ == old(s)@ + t@,
{
    let cs = chars_of(t);
    let mut i: usize = 0;
    while i < cs.len()
        invariant
            i <= cs.len(),
            cs@ == t@,
            s@ == old(s)@ + t@.take(i as int),
        decreases cs.len() - i,
    {
        push_char(s, cs[i]);
        assert(t@.take(i + 1) =~= t@.take(i as int).push(t@[i as int]));
        assert(old(s)@ + t@.take(i + 1) =~= (old(s)@ + t@.take(i as int)).push(t@[i as int]));
        i = i + 1;
    }
    assert(t@.take(cs.len() as int) =~= t@);
}

/// The string `a` followed by `b`.
pub fn concat(a: &str, b: &str) -> (res: String)
    ensures
        res@ == a@ + b@,
{
    let mut out = String::new();
    push_str(&mut out, a);
    push_str(&mut out, b);
    assert(Seq::<char>::empty() + a@ + b@ =~= a@ + b@);
    out
}

/// A copy of `s` (`str::to_string`).
pub fn to_owned(s: &str) -> (res: String)
    ensures
        res@ == s@,
{
    let mut out = String::new();
    push_str(&mut out, s);
    assert(Seq::<char>::empty() + s@ =~= s@);
    out
}

// ---------------------------------------------------------------------
// Trimming
// ---------------------------------------------------------------------
/// The index of the first non-whitespace character of `s` at or after `i`
/// (`s.len()` when there is none).
pub open spec fn skip_ws_from(s: Seq<char>, i: int) -> int
    decreases s.len() - i,
{
    if 0 <= i < s.len() && is_ws(s[i]) {
        skip_ws_from(s, i + 1)
    } else {
        i
    }
}

/// The length of the longest prefix of `s.take(j)` that does not end in
/// whitespace.
pub open spec fn trim_end_len(s: Seq<char>, j: int) -> int
    decreases j,
{
    if 0 < j <= s.len() && is_ws(s[j - 1]) {
        trim_end_len(s, j - 1)
    } else {
        j
    }
}

/// `str::trim_start`.
pub open spec fn trim_start(s: Seq<char>) -> Seq<char> {
    s.skip(skip_ws_from(s, 0))
}

/// `str::trim_end`.
pub open spec fn trim_end(s: Seq<char>) -> Seq<char> {
    s.take(trim_end_len(s, s.len() as int))
}

/// `str::trim`.
pub open spec fn trim(s: Seq<char>) -> Seq<char> {
    trim_end(trim_start(s))
}

proof fn lemma_skip_ws_from_bounds(s: Seq<char>, i: int)
    requires
        0 <= i <= s.len(),
    ensures
        i <= skip_ws_from(s, i) <= s.len(),
        forall|k: int| i <= k < skip_ws_from(s, i) ==> is_ws(#[trigger] s[k]),
        skip_ws_from(s, i) < s.len() ==> !is_ws(s[skip_ws_from(s, i)]),
    decreases s.len() - i,
{
    if i < s.len() && is_ws(s[i]) {
        lemma_skip_ws_from_bounds(s, i + 1);
    }
}

proof fn lemma_trim_end_len_bounds(s: Seq<char>, j: int)
    requires
        0 <= j <= s.len(),
    ensures
        0 <= trim_end_len(s, j) <= j,
        forall|k: int| trim_end_len(s, j) <= k < j ==> is_ws(#[trigger] s[k]),
        trim_end_len(s, j) > 0 ==> !is_ws(s[trim_end_len(s, j) - 1]),
    decreases j,
{
    if 0 < j && is_ws(s[j - 1]) {
        lemma_trim_end_len_bounds(s, j - 1);
    }
}

/// The bounds `(from, to)` of `trim(s)` inside `s`.
pub fn trim_bounds(s: &[char]) -> (res: (usize, usize))
    ensures
        res.0 <= res.1 <= s@.len(),
        s@.subrange(res.0 as int, res.1 as int) == trim(s@),
{
    let mut i: usize = 0;
    while i < s.len() && is_whitespace(s[i])
        invariant
            i <= s.len(),
            skip_ws_from(s@, i as int) == skip_ws_from(s@, 0),
        decreases s.len() - i,
    {
        i = i + 1;
    }
    let ghost t = s@.skip(i as int);
    assert(skip_ws_from(s@, i as int) == i);
    let mut j: usize = s.len();
    while j > i && is_whitespace(s[j - 1])
        invariant
            i <= j <= s.len(),
            t == s@.skip(i as int),
            trim_end_len(t, (j - i) as int) == trim_end_len(t, t.len() as int),
        decreases j,
    {
        assert(t[(j - i) - 1] == s@[j - 1]);
        j = j - 1;
    }
    assert(trim_end_len(t, (j - i) as int) == (j - i) as int);
    assert(s@.subrange(i as int, j as int) =~= t.take((j - i) as int));
    (i, j)
}

/// `str::trim`, as a new string.
pub fn trim_string(s: &str) -> (res: String)
    ensures
        res@ == trim(s@),
{
    let cs = chars_of(s);
    let (a, b) = trim_bounds(cs.as_slice());
    string_of_range(cs.as_slice(), a, b)
}

/// Trimming leaves no whitespace at either end and adds no character.
pub proof fn lemma_trim_shape(s: Seq<char>)
    ensures
        trim(s).len() > 0 ==> !is_ws(trim(s)[0]) && !is_ws(trim(s).last()),
        forall|c: char| trim(s).contains(c) ==> s.contains(c),
{
    lemma_skip_ws_from_bounds(s, 0);
    let t = trim_start(s);
    lemma_trim_end_len_bounds(t, t.len() as int);
    let e = trim_end_len(t, t.len() as int);
    if e > 0 {
        assert(trim(s)[0] == t[0]);
        assert(t[0] == s[skip_ws_from(s, 0)]);
        assert(trim(s).last() == t[e - 1]);
    }
    assert forall|c: char| trim(s).contains(c) implies s.contains(c) by {
        let k = choose|k: int| 0 <= k < trim(s).len() && trim(s)[k] == c;
        assert(s[skip_ws_from(s, 0) + k] == c);
    }
}

// ---------------------------------------------------------------------
// Collapsing whitespace
// ---------------------------------------------------------------------
/// The words of `s` (its maximal runs of non-whitespace characters) joined
/// by single spaces: `s.split_whitespace().collect::<Vec<_>>().join(" ")`.
///
/// Read left to right: whitespace is dropped, and a character that starts
/// a new word is preceded by one space unless it is the first word.
pub open spec fn collapse_ws(s: Seq<char>) -> Seq<char>
    decreases s.len(),
{
    if s.len() == 0 {
        Seq::empty()
    } else {
        let prev = collapse_ws(s.drop_last());
        let c = s.last();
        if is_ws(c) {
            prev
        } else if s.len() >= 2 && !is_ws(s[s.len() - 2]) {
            prev.push(c)
        } else if prev.len() == 0 {
            prev.push(c)
        } else {
            prev.push(' ').push(c)
        }
    }
}

/// `collapse_ws(s)` as a string.
pub fn collapse_whitespace(s: &str) -> (res: String)
    ensures
        res@ == collapse_ws(s@),
{
    let cs = chars_of(s);
    let mut out: Vec<char> = Vec::new();
    let mut i: usize = 0;
    while i < cs.len()
        invariant
            i <= cs.len(),
            cs@ == s@,
            out@ == collapse_ws(s@.take(i as int)),
        decreases cs.len() - i,
    {
        let c = cs[i];
        let ghost prefix = s@.take(i + 1);
        assert(prefix.drop_last() =~= s@.take(i as int));
        if is_whitespace(c) {
        } else if i >= 1 && !is_whitespace(cs[i - 1]) {
            out.push(c);
        } else if out.len() == 0 {
            out.push(c);
        } else {
            out.push(' ');
            out.push(c);
        }
        i = i + 1;
    }
    assert(s@.take(cs.len() as int) =~= s@);
    string_of(out.as_slice())
}

// ---------------------------------------------------------------------
// Searching
// ---------------------------------------------------------------------
/// `needle` occurs in `hay` starting at index `i`.
pub open spec fn occurs_at(hay: Seq<char>, needle: Seq<char>, i: int) -> bool {
    0 <= i && i + needle.len() <= hay.len() && hay.subrange(i, i + needle.len()) == needle
}

/// The first index at or after `i` where `needle` occurs in `hay`.
pub open spec fn find_from(hay: Seq<char>, needle: Seq<char>, i: int) -> Option<int>
    decreases hay.len() + 1 - i,
{
    if i < 0 || i + needle.len() > hay.len() {
        None
    } else if occurs_at(hay, needle, i) {
        Some(i)
    } else {
        find_from(hay, needle, i + 1)
    }
}

/// The first index where `needle` occurs in `hay` (`str::find`).
pub open spec fn find_first(hay: Seq<char>, needle: Seq<char>) -> Option<int> {
    find_from(hay, needle, 0)
}

/// The last index at or before `j` where `needle` occurs in `hay`.
pub open spec fn rfind_from(hay: Seq<char>, needle: Seq<char>, j: int) -> Option<int>
    decreases j + 1,
{
    if j < 0 {
        None
    } else if occurs_at(hay, needle, j) {
        Some(j)
    } else {
        rfind_from(hay, needle, j - 1)
    }
}

/// The last index where `needle` occurs in `hay` (`str::rfind`).
pub open spec fn find_last(hay: Seq<char>, needle: Seq<char>) -> Option<int> {
    rfind_from(hay, needle, hay.len() - needle.len())
}

/// `str::contains`.
pub open spec fn contains_seq(hay: Seq<char>, needle: Seq<char>) -> bool {
    find_first(hay, needle) is Some
}

proof fn lemma_find_from_bounds(hay: Seq<char>, needle: Seq<char>, i: int)
    ensures
        find_from(hay, needle, i) matches Some(k) ==> i <= k && occurs_at(hay, needle, k),
    decreases hay.len() + 1 - i,
{
    if !(i < 0 || i + needle.len() > hay.len()) && !occurs_at(hay, needle, i) {
        lemma_find_from_bounds(hay, needle, i + 1);
    }
}

proof fn lemma_rfind_from_bounds(hay: Seq<char>, needle: Seq<char>, j: int)
    ensures
        rfind_from(hay, needle, j) matches Some(k) ==> k <= j && occurs_at(hay, needle, k),
    decreases j + 1,
{
    if j >= 0 && !occurs_at(hay, needle, j) {
        lemma_rfind_from_bounds(hay, needle, j - 1);
    }
}

/// A text cannot contain a needle one of whose characters it lacks.
pub proof fn lemma_missing_char_not_contained(hay: Seq<char>, needle: Seq<char>, j: int)
    requires
        0 <= j < needle.len(),
        !hay.contains(needle[j]),
    ensures
        !contains_seq(hay, needle),
{
    lemma_find_from_bounds(hay, needle, 0);
    if let Some(k) = find_first(hay, needle) {
        assert(hay.subrange(k, k + needle.len())[j] == hay[k + j]);
        assert(hay.contains(hay[k + j]));
    }
}

/// A non-empty text contains itself.
pub proof fn lemma_contains_itself(s: Seq<char>)
    ensures
        contains_seq(s, s),
{
    assert(s.subrange(0, s.len() as int) =~= s);
    assert(occurs_at(s, s, 0));
}

/// Lowering leaves a text without ASCII capitals as it is.
pub proof fn lemma_lower_without_capitals(s: Seq<char>)
    requires
        forall|i: int| 0 <= i < s.len() ==> !('A' <= #[trigger] s[i] <= 'Z'),
    ensures
        ascii_lower(s) == s,
{
    assert(ascii_lower(s) =~= s);
}

/// What the searches find is an occurrence of the needle.
pub proof fn lemma_found_occurs(hay: Seq<char>, needle: Seq<char>)
    ensures
        find_first(hay, needle) matches Some(k) ==> occurs_at(hay, needle, k),
        find_last(hay, needle) matches Some(k) ==> occurs_at(hay, needle, k),
{
    lemma_find_from_bounds(hay, needle, 0);
    lemma_rfind_from_bounds(hay, needle, hay.len() - needle.len());
}

/// Whether `needle` occurs in `hay` at index `i`.
pub fn matches_at(hay: &[char], needle: &[char], i: usize) -> (res: bool)
    ensures
        res == occurs_at(hay@, needle@, i as int),
{
    if needle.len() > hay.len() || i > hay.len() - needle.len() {
        return false;
    }
    let mut k: usize = 0;
    while k < needle.len()
        invariant
            k <= needle.len(),
            i + needle.len() <= hay.len(),
            forall|m: int| 0 <= m < k ==> hay@[i + m] == needle@[m],
        decreases needle.len() - k,
    {
        if hay[i + k] != needle[k] {
            assert(hay@.subrange(i as int, i + needle.len())[k as int] != needle@[k as int]);
            return false;
        }
        k = k + 1;
    }
    assert(hay@.subrange(i as int, i + needle.len()) =~= needle@);
    true
}

/// The first index where `needle` occurs in `hay`.
pub fn find_chars(hay: &[char], needle: &[char]) -> (res: Option<usize>)
    ensures
        res matches Some(k) ==> find_first(hay@, needle@) == Some(k as int),
        res is None ==> find_first(hay@, needle@) is None,
{
    if needle.len() > hay.len() {
        return None;
    }
    let last = hay.len() - needle.len();
    let mut i: usize = 0;
    loop
        invariant
            last + needle.len() == hay.len(),
            i <= last,
            find_from(hay@, needle@, i as int) == find_from(hay@, needle@, 0),
        decreases last - i,
    {
        if matches_at(hay, needle, i) {
            return Some(i);
        }
        if i == last {
            assert(find_from(hay@, needle@, i + 1) is None);
            return None;
        }
        i = i + 1;
    }
}

/// The last index where `needle` occurs in `hay`.
pub fn rfind_chars(hay: &[char], needle: &[char]) -> (res: Option<usize>)
    ensures
        res matches Some(k) ==> find_last(hay@, needle@) == Some(k as int),
        res is None ==> find_last(hay@, needle@) is None,
{
    if needle.len() > hay.len() {
        return None;
    }
    let mut j: usize = hay.len() - needle.len();
    loop
        invariant
            j + needle.len() <= hay.len(),
            rfind_from(hay@, needle@, j as int) == find_last(hay@, needle@),
        decreases j,
    {
        if matches_at(hay, needle, j) {
            return Some(j);
        }
        if j == 0 {
            assert(rfind_from(hay@, needle@, -1) is None);
            return None;
        }
        j = j - 1;
    }
}

/// Whether `needle` occurs in `hay` (`str::contains`).
pub fn contains_chars(hay: &[char], needle: &[char]) -> (res: bool)
    ensures
        res == contains_seq(hay@, needle@),
{
    find_chars(hay, needle).is_some()
}

/// The part of `s` before its first `c` (all of `s` when there is none):
/// the first piece of `s.split(c)`.
pub open spec fn before_char(s: Seq<char>, c: char) -> Seq<char> {
    match find_first(s, seq![c]) {
        Some(k) => s.take(k),
        None => s,
    }
}

/// The part of `s` after its last occurrence of `sep` (all of `s` when
/// there is none): the first piece of `s.rsplit(sep)`.
pub open spec fn after_last(s: Seq<char>, sep: Seq<char>) -> Seq<char> {
    match find_last(s, sep) {
        Some(k) => s.skip(k + sep.len()),
        None => s,
    }
}

/// The part of `s` before its first `c`.
pub fn split_before_char(s: &str, c: char) -> (res: String)
    ensures
        res@ == before_char(s@, c),
{
    let cs = chars_of(s);
    let needle: Vec<char> = vec![c];
    assert(needle@ =~= seq![c]);
    match find_chars(cs.as_slice(), needle.as_slice()) {
        Some(k) => {
            proof {
                lemma_found_occurs(s@, seq![c]);
            }
            assert(s@.take(k as int) =~= s@.subrange(0, k as int));
            string_of_range(cs.as_slice(), 0, k)
        },
        None => string_of(cs.as_slice()),
    }
}

/// The part of `s` after its last occurrence of `sep`.
pub fn split_after_last(s: &str, sep: &str) -> (res: String)
    ensures
        res@ == after_last(s@, sep@),
{
    let cs = chars_of(s);
    let ps = chars_of(sep);
    match rfind_chars(cs.as_slice(), ps.as_slice()) {
        Some(k) => {
            proof {
                lemma_found_occurs(s@, sep@);
            }
            assert(occurs_at(s@, sep@, k as int));
            let n = ps.len();
            assert(k + n <= cs.len());
            let start = k + n;
            assert(s@.skip(start as int) =~= s@.subrange(start as int, s@.len() as int));
            string_of_range(cs.as_slice(), start, cs.len())
        },
        None => string_of(cs.as_slice()),
    }
}

/// Whether the character `c` occurs in `s`.
pub fn has_char(s: &[char], c: char) -> (res: bool)
    ensures
        res == s@.contains(c),
{
    let mut i: usize = 0;
    while i < s.len()
        invariant
            i <= s.len(),
            forall|k: int| 0 <= k < i ==> s@[k] != c,
        decreases s.len() - i,
    {
        if s[i] == c {
            return true;
        }
        i = i + 1;
    }
    false
}

/// The number of occurrences of `c` in `s`.
pub open spec fn count_char(s: Seq<char>, c: char) -> nat
    decreases s.len(),
{
    if s.len() == 0 {
        0
    } else {
        count_char(s.drop_last(), c) + if s.last() == c {
            1nat
        } else {
            0nat
        }
    }
}

/// `s.chars().filter(|&x| x == c).count()`.
pub fn count_chars(s: &[char], c: char) -> (res: usize)
    ensures
        res == count_char(s@, c),
{
    let mut n: usize = 0;
    let mut i: usize = 0;
    while i < s.len()
        invariant
            i <= s.len(),
            n == count_char(s@.take(i as int), c),
            n <= i,
        decreases s.len() - i,
    {
        assert(s@.take(i + 1).drop_last() =~= s@.take(i as int));
        if s[i] == c {
            n = n + 1;
        }
        i = i + 1;
    }
    assert(s@.take(s.len() as int) =~= s@);
    n
}

// ---------------------------------------------------------------------
// Case folding
// ---------------------------------------------------------------------
/// `str::to_ascii_lowercase`, on characters.
pub fn to_ascii_lower(s: &[char]) -> (res: Vec<char>)
    ensures
        res@ == ascii_lower(s@),
{
    let mut out: Vec<char> = Vec::new();
    let mut i: usize = 0;
    while i < s.len()
        invariant
            i <= s.len(),
            out@ == ascii_lower(s@.take(i as int)),
        decreases s.len() - i,
    {
        let c = s[i];
        let l = if 'A' <= c && c <= 'Z' {
            ((c as u8) + 32) as char
        } else {
            c
        };
        out.push(l);
        assert(ascii_lower(s@.take(i + 1)) =~= ascii_lower(s@.take(i as int)).push(
            ascii_lower_char(c),
        ));
        i = i + 1;
    }
    assert(s@.take(s.len() as int) =~= s@);
    out
}

/// `a.eq_ignore_ascii_case(b)`.
pub open spec fn eq_ignore_ascii_case(a: Seq<char>, b: Seq<char>) -> bool {
    ascii_lower(a) == ascii_lower(b)
}

/// Executable form of [`eq_ignore_ascii_case`].
pub fn equals_ignore_ascii_case(a: &[char], b: &[char]) -> (res: bool)
    ensures
        res == eq_ignore_ascii_case(a@, b@),
{
    let la = to_ascii_lower(a);
    let lb = to_ascii_lower(b);
    if la.len() != lb.len() {
        assert(la@.len() != lb@.len());
        return false;
    }
    let mut i: usize = 0;
    while i < la.len()
        invariant
            la.len() == lb.len(),
            la@ == ascii_lower(a@),
            lb@ == ascii_lower(b@),
            i <= la.len(),
            forall|k: int| 0 <= k < i ==> la@[k] == lb@[k],
        decreases la.len() - i,
    {
        if la[i] != lb[i] {
            assert(la@[i as int] != lb@[i as int]);
            return false;
        }
        i = i + 1;
    }
    assert(la@ =~= lb@);
    true
}

// ---------------------------------------------------------------------
// Decimal numbers
// ---------------------------------------------------------------------
/// All characters of `s` are decimal digits.
pub open spec fn all_digits(s: Seq<char>) -> bool {
    forall|i: int| 0 <= i < s.len() ==> is_digit(#[trigger] s[i])
}

/// The value of a string of decimal digits.
pub open spec fn digits_value(s: Seq<char>) -> nat
    decreases s.len(),
{
    if s.len() == 0 {
        0
    } else {
        digits_value(s.drop_last()) * 10 + digit_value(s.last())
    }
}

/// What `str::parse` gives for an unsigned integer type whose largest value
/// is `max`: an optional `+`, then one or more decimal digits, and a value
/// that fits.
pub open spec fn parse_unsigned(s: Seq<char>, max: nat) -> Option<nat> {
    let digits = if s.len() > 0 && s[0] == '+' {
        s.drop_first()
    } else {
        s
    };
    if digits.len() == 0 || !all_digits(digits) || digits_value(digits) > max {
        None
    } else {
        Some(digits_value(digits))
    }
}

/// What `str::parse::<i64>` gives: an optional sign, then one or more
/// decimal digits, and a value within `i64`'s range.
pub open spec fn parse_i64_spec(s: Seq<char>) -> Option<int> {
    let negative = s.len() > 0 && s[0] == '-';
    let digits = if s.len() > 0 && (s[0] == '+' || s[0] == '-') {
        s.drop_first()
    } else {
        s
    };
    if digits.len() == 0 || !all_digits(digits) {
        None
    } else {
        let v: int = if negative {
            -(digits_value(digits) as int)
        } else {
            digits_value(digits) as int
        };
        if i64::MIN <= v <= i64::MAX {
            Some(v)
        } else {
            None
        }
    }
}

proof fn lemma_digits_value_monotone(s: Seq<char>, i: int)
    requires
        0 <= i <= s.len(),
        all_digits(s),
    ensures
        digits_value(s.take(i)) <= digits_value(s),
    decreases s.len() - i,
{
    if i < s.len() {
        lemma_digits_value_monotone(s, i + 1);
        assert(s.take(i + 1).drop_last() =~= s.take(i));
    } else {
        assert(s.take(i) =~= s);
    }
}

/// The value of `s[from..]` when all of it is decimal digits and the value
/// is at most `max`; `None` otherwise (including when the range is empty).
fn digits_in_range(s: &[char], from: usize, max: u64) -> (res: Option<u64>)
    requires
        from <= s@.len(),
    ensures
        ({
            let d = s@.skip(from as int);
            match res {
                Some(v) => d.len() > 0 && all_digits(d) && digits_value(d) <= max && v
                    == digits_value(d),
                None => d.len() == 0 || !all_digits(d) || digits_value(d) > max,
            }
        }),
{
    let ghost d = s@.skip(from as int);
    if from == s.len() {
        return None;
    }
    let mut v: u64 = 0;
    let mut i: usize = from;
    while i < s.len()
        invariant
            from <= i <= s.len(),
            d == s@.skip(from as int),
            forall|k: int| 0 <= k < i - from ==> is_digit(#[trigger] d[k]),
            v == digits_value(d.take(i - from)),
            v <= max,
        decreases s.len() - i,
    {
        let c = s[i];
        assert(d[i - from] == c);
        if !('0' <= c && c <= '9') {
            return None;
        }
        let dv = ((c as u32) - ('0' as u32)) as u64;
        assert(d.take(i + 1 - from).drop_last() =~= d.take(i - from));
        if dv > max || v > (max - dv) / 10 {
            assert(digits_value(d.take(i + 1 - from)) == v * 10 + dv);
            assert(v * 10 + dv > max) by (nonlinear_arith)
                requires
                    dv > max || v > (max - dv) / 10,
            {
            }
            proof {
                // every remaining character may or may not be a digit; either way the
                // whole value (if all digits) is at least this prefix's value
                if all_digits(d) {
                    lemma_digits_value_monotone(d, i + 1 - from);
                }
            }
            return None;
        }
        assert(v * 10 + dv <= max) by (nonlinear_arith)
            requires
                v <= (max - dv) / 10,
                dv <= 9,
        {
        }
        v = v * 10 + dv;
        i = i + 1;
    }
    assert(d.take(i - from) =~= d);
    Some(v)
}

/// `str::parse` for an unsigned integer whose largest value is `max`.
pub fn parse_unsigned_chars(s: &[char], max: u64) -> (res: Option<u64>)
    ensures
        match res {
            Some(v) => parse_unsigned(s@, max as nat) == Some(v as nat),
            None => parse_unsigned(s@, max as nat) is None,
        },
{
    let from: usize = if s.len() > 0 && s[0] == '+' {
        1
    } else {
        0
    };
    assert(from == 1 ==> s@.skip(1) =~= s@.drop_first());
    assert(from == 0 ==> s@.skip(0) =~= s@);
    digits_in_range(s, from, max)
}

/// `str::parse::<i64>`.
pub fn parse_i64_chars(s: &[char]) -> (res: Option<i64>)
    ensures
        match res {
            Some(v) => parse_i64_spec(s@) == Some(v as int),
            None => parse_i64_spec(s@) is None,
        },
{
    let negative = s.len() > 0 && s[0] == '-';
    let from: usize = if s.len() > 0 && (s[0] == '+' || s[0] == '-') {
        1
    } else {
        0
    };
    assert(from == 1 ==> s@.skip(1) =~= s@.drop_first());
    assert(from == 0 ==> s@.skip(0) =~= s@);
    let max: u64 = if negative {
        9223372036854775808
    } else {
        9223372036854775807
    };
    match digits_in_range(s, from, max) {
        None => None,
        Some(v) => {
            if negative {
                if v == 9223372036854775808 {
                    Some(i64::MIN)
                } else {
                    Some(-(v as i64))
                }
            } else {
                Some(v as i64)
            }
        },
    }
}

/// The decimal digits of `n`, most significant first.
pub open spec fn decimal(n: nat) -> Seq<char>
    decreases n,
{
    if n < 10 {
        seq![digit_char(n)]
    } else {
        decimal(n / 10).push(digit_char(n % 10))
    }
}

/// The decimal form of `n`, with a leading `-` when negative
/// (`i64::to_string`).
pub open spec fn decimal_signed(n: int) -> Seq<char> {
    if n < 0 {
        seq!['-'] + decimal((-n) as nat)
    } else {
        decimal(n as nat)
    }
}

proof fn lemma_decimal_nonempty(n: nat)
    ensures
        decimal(n).len() >= 1,
    decreases n,
{
    if n >= 10 {
        lemma_decimal_nonempty(n / 10);
    }
}

/// The decimal form of a number is made of digits only.
pub proof fn lemma_decimal_is_digits(n: nat)
    ensures
        forall|i: int| 0 <= i < decimal(n).len() ==> '0' <= #[trigger] decimal(n)[i] <= '9',
    decreases n,
{
    if n >= 10 {
        lemma_decimal_is_digits(n / 10);
        let d = n % 10;
        assert('0' <= digit_char(d) <= '9');
        let prefix = decimal(n / 10);
        assert forall|i: int| 0 <= i < decimal(n).len() implies '0' <= #[trigger] decimal(n)[i]
            <= '9' by {
            if i < prefix.len() {
                assert(decimal(n)[i] == prefix[i]);
            }
        }
    } else {
        assert('0' <= digit_char(n) <= '9');
    }
}

/// Appends the decimal digits of `n` to `out`.
pub fn push_decimal(out: &mut String, n: u64)
    ensures
        final(out)@ == old(out)@ + decimal(n as nat),
    decreases n,
{
    if n >= 10 {
        push_decimal(out, n / 10);
    }
    let d = (n % 10) as u8;
    push_char(out, (d + 48) as char);
    proof {
        if n >= 10 {
            assert(old(out)@ + decimal(n as nat) =~= old(out)@ + decimal((n / 10) as nat) + seq![
                digit_char((n % 10) as nat),
            ]);
        } else {
            assert(old(out)@ + decimal(n as nat) =~= old(out)@.push(digit_char(n as nat)));
        }
    }
}

/// `n.to_string()` for an unsigned integer.
pub fn decimal_string(n: u64) -> (res: String)
    ensures
        res@ == decimal(n as nat),
{
    let mut out = String::new();
    push_decimal(&mut out, n);
    assert(Seq::<char>::empty() + decimal(n as nat) =~= decimal(n as nat));
    out
}

/// `n.to_string()` for an `i64`.
pub fn decimal_string_i64(n: i64) -> (res: String)
    ensures
        res@ == decimal_signed(n as int),
{
    let mut out = String::new();
    if n < 0 {
        push_char(&mut out, '-');
        let m: u64 = if n == i64::MIN {
            9223372036854775808
        } else {
            (-n) as u64
        };
        push_decimal(&mut out, m);
    } else {
        push_decimal(&mut out, n as u64);
        assert(Seq::<char>::empty() + decimal(n as nat) =~= decimal(n as nat));
    }
    out
}

} // verus!
