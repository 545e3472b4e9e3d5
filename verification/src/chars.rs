//! Character-level text handling shared by every parser and key.
//!
//! A string is read as its sequence of Unicode scalar values, which is what
//! `str::chars` yields and what every length and window in this crate counts.
use vstd::prelude::*;

verus! {

/// The Unicode `White_Space` property, which `char::is_whitespace` and
/// `str::trim` both use.
pub open spec fn white_space(c: char) -> bool {
    let n = c as u32;
    ||| 0x9 <= n <= 0xd
    ||| n == 0x20
    ||| n == 0x85
    ||| n == 0xa0
    ||| n == 0x1680
    ||| 0x2000 <= n <= 0x200a
    ||| n == 0x2028
    ||| n == 0x2029
    ||| n == 0x202f
    ||| n == 0x205f
    ||| n == 0x3000
}

/// Whether a character has the `White_Space` property.
pub fn is_white_space(c: char) -> (b: bool)
    ensures
        b == white_space(c),
{
    let n = c as u32;
    (0x9 <= n && n <= 0xd) || n == 0x20 || n == 0x85 || n == 0xa0 || n == 0x1680 || (0x2000 <= n
        && n <= 0x200a) || n == 0x2028 || n == 0x2029 || n == 0x202f || n == 0x205f || n == 0x3000
}

/// The characters of a string slice, in order.
pub fn chars_of(s: &str) -> (v: Vec<char>)
    ensures
        v@ == s@,
{
    let mut v: Vec<char> = Vec::new();
    for c in it: s.chars()
        invariant
            v@ == it.seq().take(it.index()),
    {
        v.push(c);
    }
    v
}


/// Appends one character. `String::push` adds the character to the end.
#[verifier::external_body]
pub(crate) fn push_char(s: &mut String, c: char)
    ensures
        final(s)@ == old(s)@.push(c),
{
    s.push(c)
}

/// A copy of `v[from..to]`.
pub fn sub_vec(v: &Vec<char>, from: usize, to: usize) -> (r: Vec<char>)
    requires
        from <= to <= v@.len(),
    ensures
        r@ == v@.subrange(from as int, to as int),
{
    let mut r: Vec<char> = Vec::new();
    let mut i = from;
    while i < to
        invariant
            from <= i <= to <= v@.len(),
            r@ == v@.subrange(from as int, i as int),
        decreases to - i,
    {
        r.push(v[i]);
        i += 1;
    }
    r
}

/// The string made of `v[from..to]`.
pub fn string_of_range(v: &Vec<char>, from: usize, to: usize) -> (s: String)
    requires
        from <= to <= v@.len(),
    ensures
        s@ == v@.subrange(from as int, to as int),
{
    let mut s = String::new();
    let mut i = from;
    while i < to
        invariant
            from <= i <= to <= v@.len(),
            s@ == v@.subrange(from as int, i as int),
        decreases to - i,
    {
        push_char(&mut s, v[i]);
        assert(v@.subrange(from as int, i + 1) == v@.subrange(from as int, i as int).push(v@[i as int]));
        i += 1;
    }
    s
}

/// The string made of every character of `v`.
pub fn string_of(v: &Vec<char>) -> (s: String)
    ensures
        s@ == v@,
{
    let s = string_of_range(v, 0, v.len());
    assert(v@.subrange(0, v@.len() as int) == v@);
    s
}

/// `s` with `White_Space` removed from both ends, as `str::trim` does.
pub open spec fn trim_seq(s: Seq<char>) -> Seq<char>
    decreases s.len(),
{
    if s.len() == 0 {
        s
    } else if white_space(s[0]) {
        trim_seq(s.drop_first())
    } else if white_space(s.last()) {
        trim_seq(s.drop_last())
    } else {
        s
    }
}

/// A sequence that neither starts nor ends with white space trims to itself.
pub proof fn lemma_trim_of_trimmed(s: Seq<char>)
    requires
        s.len() > 0 ==> !white_space(s[0]) && !white_space(s.last()),
    ensures
        trim_seq(s) == s,
{
}

/// The trimmed sequence is empty, or begins and ends with something that is
/// not white space.
pub proof fn lemma_trim_ends(s: Seq<char>)
    ensures
        trim_seq(s).len() <= s.len(),
        trim_seq(s).len() > 0 ==> !white_space(trim_seq(s)[0]) && !white_space(
            trim_seq(s).last(),
        ),
    decreases s.len(),
{
    if s.len() > 0 {
        if white_space(s[0]) {
            lemma_trim_ends(s.drop_first());
        } else if white_space(s.last()) {
            lemma_trim_ends(s.drop_last());
        }
    }
}

/// The bounds of `trim_seq(v[from..to])` inside `v`.
pub fn trim_bounds(v: &Vec<char>, from: usize, to: usize) -> (r: (usize, usize))
    requires
        from <= to <= v@.len(),
    ensures
        from <= r.0 <= r.1 <= to,
        v@.subrange(r.0 as int, r.1 as int) == trim_seq(v@.subrange(from as int, to as int)),
{
    let mut lo = from;
    while lo < to && is_white_space(v[lo])
        invariant
            from <= lo <= to <= v@.len(),
            trim_seq(v@.subrange(from as int, to as int)) == trim_seq(
                v@.subrange(lo as int, to as int),
            ),
        decreases to - lo,
    {
        assert(v@.subrange(lo as int, to as int).drop_first() == v@.subrange(lo + 1, to as int));
        lo += 1;
    }
    let mut hi = to;
    while hi > lo && is_white_space(v[hi - 1])
        invariant
            from <= lo <= hi <= to <= v@.len(),
            lo < hi ==> !white_space(v@[lo as int]),
            trim_seq(v@.subrange(from as int, to as int)) == trim_seq(
                v@.subrange(lo as int, hi as int),
            ),
        decreases hi - lo,
    {
        assert(v@.subrange(lo as int, hi as int).drop_last() == v@.subrange(lo as int, hi - 1));
        hi -= 1;
    }
    proof {
        lemma_trim_of_trimmed(v@.subrange(lo as int, hi as int));
    }
    (lo, hi)
}

/// `s` with `White_Space` removed from both ends.
pub fn trim_string(s: &str) -> (r: String)
    ensures
        r@ == trim_seq(s@),
{
    let v = chars_of(s);
    let (lo, hi) = trim_bounds(&v, 0, v.len());
    assert(v@.subrange(0, v@.len() as int) == v@);
    string_of_range(&v, lo, hi)
}


/// What `str::to_lowercase` makes of a string: the Unicode lowercase mapping
/// of each character, which may change the length.
pub uninterp spec fn lowercase(s: Seq<char>) -> Seq<char>;

/// `str::to_lowercase`.
///
/// Claims that the result is the named lowercase mapping of the argument, and
/// that an all-ASCII string maps character by character to ASCII lowercase,
/// which is what the standard library documents for ASCII input.
#[verifier::external_body]
pub(crate) fn to_lowercase(s: &str) -> (r: String)
    ensures
        r@ == lowercase(s@),
        all_ascii(s@) ==> r@ == ascii_lower(s@),
{
    s.to_lowercase()
}

/// The Unicode `Alphabetic` or `Numeric` property, as `char::is_alphanumeric`
/// reads it.
pub uninterp spec fn alphanumeric(c: char) -> bool;

/// `char::is_alphanumeric`.
///
/// Claims the named property and, for ASCII, that exactly the letters and
/// digits have it.
#[verifier::external_body]
pub(crate) fn is_alphanumeric(c: char) -> (b: bool)
    ensures
        b == alphanumeric(c),
        (c as u32) < 128 ==> (b <==> ascii_alnum(c)),
{
    c.is_alphanumeric()
}

pub open spec fn ascii_alnum(c: char) -> bool {
    ('a' <= c <= 'z') || ('A' <= c <= 'Z') || ('0' <= c <= '9')
}

pub open spec fn all_ascii(s: Seq<char>) -> bool {
    forall|i: int| 0 <= i < s.len() ==> (s[i] as u32) < 128
}

/// ASCII uppercase letters lowered, everything else unchanged.
pub open spec fn ascii_lower_char(c: char) -> char {
    if 'A' <= c <= 'Z' {
        ((c as u32) + 32) as char
    } else {
        c
    }
}

pub open spec fn ascii_lower(s: Seq<char>) -> Seq<char> {
    s.map_values(|c: char| ascii_lower_char(c))
}

/// `char::to_ascii_lowercase`.
pub fn to_ascii_lower_char(c: char) -> (r: char)
    ensures
        r == ascii_lower_char(c),
{
    if 'A' <= c && c <= 'Z' {
        let n = (c as u32) + 32;
        proof {
            assert(n < 0xd800);
        }
        char_from_u32(n)
    } else {
        c
    }
}

/// `char::from_u32` on a scalar value known to be valid.
#[verifier::external_body]
fn char_from_u32(n: u32) -> (c: char)
    requires
        n < 0xd800,
    ensures
        c == n as char,
{
    char::from_u32(n).unwrap()
}

/// `v` with ASCII letters lowered.
pub fn ascii_lower_vec(v: &Vec<char>) -> (r: Vec<char>)
    ensures
        r@ == ascii_lower(v@),
{
    let mut r: Vec<char> = Vec::new();
    let mut i: usize = 0;
    while i < v.len()
        invariant
            i <= v@.len(),
            r@ == ascii_lower(v@.take(i as int)),
        decreases v@.len() - i,
    {
        r.push(to_ascii_lower_char(v[i]));
        assert(v@.take(i + 1) == v@.take(i as int).push(v@[i as int]));
        i += 1;
    }
    assert(v@.take(v@.len() as int) == v@);
    r
}

/// Whether two character sequences are equal.
pub fn same_chars(a: &Vec<char>, b: &Vec<char>) -> (r: bool)
    ensures
        r == (a@ == b@),
{
    if a.len() != b.len() {
        return false;
    }
    let mut i: usize = 0;
    while i < a.len()
        invariant
            i <= a@.len(),
            a@.len() == b@.len(),
            forall|j: int| 0 <= j < i ==> a@[j] == b@[j],
        decreases a@.len() - i,
    {
        if a[i] != b[i] {
            return false;
        }
        i += 1;
    }
    assert(a@ == b@);
    true
}

/// Whether two string slices hold the same characters.
pub fn same_text(a: &str, b: &str) -> (r: bool)
    ensures
        r == (a@ == b@),
{
    same_chars(&chars_of(a), &chars_of(b))
}

/// Whether `needle` occurs in `hay` starting at `at`.
pub open spec fn occurs_at(hay: Seq<char>, needle: Seq<char>, at: int) -> bool {
    0 <= at && at + needle.len() <= hay.len() && hay.subrange(at, at + needle.len()) == needle
}

/// Whether `needle` occurs anywhere in `hay`, as `str::contains` asks.
pub open spec fn contains_seq(hay: Seq<char>, needle: Seq<char>) -> bool {
    exists|at: int| occurs_at(hay, needle, at)
}

/// Whether `needle` occurs in `hay` at `at`.
pub fn occurs_at_exec(hay: &Vec<char>, needle: &Vec<char>, at: usize) -> (r: bool)
    ensures
        r == occurs_at(hay@, needle@, at as int),
{
    if at > hay.len() || needle.len() > hay.len() - at {
        return false;
    }
    let hl = hay.len();
    let mut j: usize = 0;
    while j < needle.len()
        invariant
            j <= needle@.len(),
            hl == hay@.len(),
            at + needle@.len() <= hay@.len(),
            forall|k: int| 0 <= k < j ==> hay@[at + k] == needle@[k],
        decreases needle@.len() - j,
    {
        if hay[at + j] != needle[j] {
            assert(hay@.subrange(at as int, at + needle@.len())[j as int] != needle@[j as int]);
            return false;
        }
        j += 1;
    }
    assert(hay@.subrange(at as int, at + needle@.len()) == needle@);
    true
}

/// Whether `needle` occurs anywhere in `hay`.
pub fn contains_chars(hay: &Vec<char>, needle: &Vec<char>) -> (r: bool)
    ensures
        r == contains_seq(hay@, needle@),
{
    let mut at: usize = 0;
    while at < hay.len()
        invariant
            at <= hay@.len(),
            forall|k: int| 0 <= k < at ==> !occurs_at(hay@, needle@, k),
        decreases hay@.len() - at,
    {
        if occurs_at_exec(hay, needle, at) {
            return true;
        }
        at += 1;
    }
    if occurs_at_exec(hay, needle, at) {
        return true;
    }
    false
}

/// Whether `s` begins with `prefix`.
pub open spec fn starts_with(s: Seq<char>, prefix: Seq<char>) -> bool {
    prefix.len() <= s.len() && s.take(prefix.len() as int) == prefix
}

/// Whether `s` begins with `prefix`.
pub fn starts_with_chars(s: &Vec<char>, prefix: &Vec<char>) -> (r: bool)
    ensures
        r == starts_with(s@, prefix@),
{
    let r = occurs_at_exec(s, prefix, 0);
    assert(s@.subrange(0, prefix@.len() as int) == s@.take(prefix@.len() as int));
    r
}

/// The pieces of `s` between characters that satisfy `sep`, as `str::split`
/// with a predicate yields them: a separator ends one piece and starts the
/// next, so the result is never empty and may hold empty pieces.
pub open spec fn split_on(s: Seq<char>, sep: spec_fn(char) -> bool) -> Seq<Seq<char>>
    decreases s.len(),
{
    if s.len() == 0 {
        seq![seq![]]
    } else if sep(s.last()) {
        split_on(s.drop_last(), sep).push(seq![])
    } else {
        let p = split_on(s.drop_last(), sep);
        p.update(p.len() - 1, p.last().push(s.last()))
    }
}

pub proof fn lemma_split_on_nonempty(s: Seq<char>, sep: spec_fn(char) -> bool)
    ensures
        split_on(s, sep).len() >= 1,
    decreases s.len(),
{
    if s.len() > 0 {
        lemma_split_on_nonempty(s.drop_last(), sep);
    }
}

/// `parts` joined with `sep` between consecutive parts.
pub open spec fn join(parts: Seq<Seq<char>>, sep: Seq<char>) -> Seq<char>
    decreases parts.len(),
{
    if parts.len() == 0 {
        seq![]
    } else if parts.len() == 1 {
        parts[0]
    } else {
        join(parts.drop_last(), sep) + sep + parts.last()
    }
}

/// The parts longer than `min` characters, in order.
pub open spec fn longer_than(parts: Seq<Seq<char>>, min: nat) -> Seq<Seq<char>>
    decreases parts.len(),
{
    if parts.len() == 0 {
        parts
    } else if parts.last().len() > min {
        longer_than(parts.drop_last(), min).push(parts.last())
    } else {
        longer_than(parts.drop_last(), min)
    }
}

/// The separator a word split uses: anything not alphanumeric when splitting
/// into words, white space otherwise.
pub open spec fn separator(words: bool) -> spec_fn(char) -> bool {
    if words {
        |c: char| !alphanumeric(c)
    } else {
        |c: char| white_space(c)
    }
}

/// The non-empty runs of `s` between separators: the words of `s` when
/// `words`, as `split(|c| !c.is_alphanumeric())` with empty pieces dropped,
/// and otherwise its white-space separated pieces, as `split_whitespace`.
pub open spec fn runs(s: Seq<char>, words: bool) -> Seq<Seq<char>> {
    longer_than(split_on(s, separator(words)), 0)
}

pub open spec fn views_of(v: Seq<Vec<char>>) -> Seq<Seq<char>> {
    v.map_values(|x: Vec<char>| x@)
}

/// The runs of `s`, as character vectors.
pub fn runs_of(s: &Vec<char>, words: bool) -> (r: Vec<Vec<char>>)
    ensures
        views_of(r@) == runs(s@, words),
{
    let ghost sep = separator(words);
    let mut out: Vec<Vec<char>> = Vec::new();
    let mut current: Vec<char> = Vec::new();
    let ghost mut done: Seq<Seq<char>> = seq![];
    let mut i: usize = 0;
    assert(s@.take(0) == Seq::<char>::empty());
    while i < s.len()
        invariant
            i <= s@.len(),
            sep == separator(words),
            split_on(s@.take(i as int), sep) == done.push(current@),
            views_of(out@) == longer_than(done, 0),
        decreases s@.len() - i,
    {
        let c = s[i];
        let is_sep = if words {
            !is_alphanumeric(c)
        } else {
            is_white_space(c)
        };
        assert(s@.take(i + 1).drop_last() == s@.take(i as int));
        assert(s@.take(i + 1).last() == c);
        if is_sep {
            proof {
                let old_done = done;
                done = done.push(current@);
                assert(done.drop_last() == old_done);
            }
            if current.len() > 0 {
                let ghost before = out@;
                let finished = current;
                out.push(finished);
                assert(out@.drop_last() == before);
                assert(views_of(out@) == views_of(before).push(out@.last()@));
            }
            current = Vec::new();
            proof {
                assert(split_on(s@.take(i + 1), sep) == done.push(current@));
            }
        } else {
            current.push(c);
        }
        i += 1;
    }
    proof {
        assert(s@.take(s@.len() as int) == s@);
        let all = done.push(current@);
        assert(all.drop_last() == done);
    }
    if current.len() > 0 {
        let ghost before = out@;
        out.push(current);
        assert(out@.drop_last() == before);
        assert(views_of(out@) == views_of(before).push(out@.last()@));
    }
    out
}

/// `parts` joined with `sep` between consecutive parts.
pub fn join_chars(parts: &Vec<Vec<char>>, sep: &str) -> (r: String)
    ensures
        r@ == join(views_of(parts@), sep@),
{
    let mut r = String::new();
    let mut i: usize = 0;
    while i < parts.len()
        invariant
            i <= parts@.len(),
            r@ == join(views_of(parts@.take(i as int)), sep@),
        decreases parts@.len() - i,
    {
        assert(views_of(parts@.take(i + 1)).drop_last() == views_of(parts@.take(i as int)));
        assert(views_of(parts@.take(i + 1)).last() == parts@[i as int]@);
        if i > 0 {
            append_str(&mut r, sep);
        }
        append_chars(&mut r, &parts[i]);
        i += 1;
    }
    assert(parts@.take(parts@.len() as int) == parts@);
    r
}

/// Appends `other` to `s`.
pub fn append_chars(s: &mut String, other: &Vec<char>)
    ensures
        final(s)@ == old(s)@ + other@,
{
    let mut i: usize = 0;
    while i < other.len()
        invariant
            i <= other@.len(),
            s@ == old(s)@ + other@.take(i as int),
        decreases other@.len() - i,
    {
        push_char(s, other[i]);
        assert(other@.take(i + 1) == other@.take(i as int).push(other@[i as int]));
        i += 1;
    }
    assert(other@.take(other@.len() as int) == other@);
}

/// Appends `other` to `s`.
pub fn append_str(s: &mut String, other: &str)
    ensures
        final(s)@ == old(s)@ + other@,
{
    let v = chars_of(other);
    append_chars(s, &v);
}


/// The first position at or after `k` where `needle` occurs in `hay`, or -1.
pub open spec fn find_from(hay: Seq<char>, needle: Seq<char>, k: int) -> int
    decreases hay.len() + 1 - k,
{
    if k < 0 || k + needle.len() > hay.len() {
        -1
    } else if occurs_at(hay, needle, k) {
        k
    } else {
        find_from(hay, needle, k + 1)
    }
}

/// The first position where `needle` occurs in `hay`, or -1.
pub open spec fn find(hay: Seq<char>, needle: Seq<char>) -> int {
    find_from(hay, needle, 0)
}

pub proof fn lemma_find_from(hay: Seq<char>, needle: Seq<char>, k: int)
    requires
        0 <= k,
    ensures
        find_from(hay, needle, k) == -1 || (k <= find_from(hay, needle, k) && occurs_at(
            hay,
            needle,
            find_from(hay, needle, k),
        )),
        forall|j: int|
            k <= j && (find_from(hay, needle, k) == -1 || j < find_from(hay, needle, k))
                ==> !occurs_at(hay, needle, j),
    decreases hay.len() + 1 - k,
{
    if k + needle.len() <= hay.len() && !occurs_at(hay, needle, k) {
        lemma_find_from(hay, needle, k + 1);
    }
}

/// Where `needle` first occurs in `hay`.
pub fn find_exec(hay: &Vec<char>, needle: &Vec<char>) -> (r: Option<usize>)
    ensures
        match r {
            Some(i) => i as int == find(hay@, needle@),
            None => find(hay@, needle@) == -1,
        },
{
    let mut at: usize = 0;
    while at < hay.len()
        invariant
            at <= hay@.len(),
            find(hay@, needle@) == find_from(hay@, needle@, at as int),
        decreases hay@.len() - at,
    {
        if occurs_at_exec(hay, needle, at) {
            return Some(at);
        }
        if needle.len() > hay.len() - at {
            return None;
        }
        at += 1;
    }
    if occurs_at_exec(hay, needle, at) {
        Some(at)
    } else {
        assert(find_from(hay@, needle@, at + 1) == -1);
        None
    }
}

/// The first position of a character satisfying `p`, or `s.len()`.
pub open spec fn first_where(s: Seq<char>, p: spec_fn(char) -> bool) -> int
    decreases s.len(),
{
    if s.len() == 0 || p(s[0]) {
        0
    } else {
        1 + first_where(s.drop_first(), p)
    }
}

pub proof fn lemma_first_where(s: Seq<char>, p: spec_fn(char) -> bool)
    ensures
        0 <= first_where(s, p) <= s.len(),
        forall|i: int| 0 <= i < first_where(s, p) ==> !p(#[trigger] s[i]),
        first_where(s, p) < s.len() ==> p(s[first_where(s, p)]),
    decreases s.len(),
{
    if s.len() > 0 && !p(s[0]) {
        lemma_first_where(s.drop_first(), p);
        assert forall|i: int| 0 <= i < first_where(s, p) implies !p(#[trigger] s[i]) by {
            if i > 0 {
                assert(s[i] == s.drop_first()[i - 1]);
            }
        }
    }
}

/// The last position of `c` in `s`, or -1.
pub open spec fn last_of(s: Seq<char>, c: char) -> int
    decreases s.len(),
{
    if s.len() == 0 {
        -1
    } else if s.last() == c {
        s.len() - 1
    } else {
        last_of(s.drop_last(), c)
    }
}

pub proof fn lemma_last_of(s: Seq<char>, c: char)
    ensures
        -1 <= last_of(s, c) < s.len(),
        last_of(s, c) >= 0 ==> s[last_of(s, c)] == c,
        forall|i: int| last_of(s, c) < i < s.len() ==> s[i] != c,
    decreases s.len(),
{
    if s.len() > 0 && s.last() != c {
        lemma_last_of(s.drop_last(), c);
        assert forall|i: int| last_of(s, c) < i < s.len() implies s[i] != c by {
            if i < s.len() - 1 {
                assert(s[i] == s.drop_last()[i]);
            }
        }
    }
}

/// The last position of `c` in `v`.
pub fn last_of_exec(v: &Vec<char>, c: char) -> (r: Option<usize>)
    ensures
        match r {
            Some(i) => i as int == last_of(v@, c),
            None => last_of(v@, c) == -1,
        },
{
    let mut k = v.len();
    assert(v@.take(k as int) == v@);
    while k > 0
        invariant
            k <= v@.len(),
            last_of(v@, c) == last_of(v@.take(k as int), c),
        decreases k,
    {
        assert(v@.take(k as int).last() == v@[k - 1]);
        if v[k - 1] == c {
            return Some(k - 1);
        }
        assert(v@.take(k as int).drop_last() == v@.take(k - 1));
        k -= 1;
    }
    None
}

/// `s` with `from` replaced by `to` wherever it occurs.
pub open spec fn replace_char(s: Seq<char>, from: char, to: char) -> Seq<char> {
    s.map_values(|c: char| if c == from { to } else { c })
}

/// `s` with every non-overlapping occurrence of `p` removed, scanning from the
/// left, as `str::replace(p, "")` does; an empty `p` removes nothing.
pub open spec fn remove_all(s: Seq<char>, p: Seq<char>) -> Seq<char>
    decreases s.len(),
{
    if p.len() == 0 || s.len() < p.len() {
        s
    } else if s.take(p.len() as int) == p {
        remove_all(s.skip(p.len() as int), p)
    } else {
        seq![s[0]] + remove_all(s.drop_first(), p)
    }
}

/// `s` with every occurrence of `p` removed.
pub fn remove_all_exec(s: &Vec<char>, p: &Vec<char>) -> (r: Vec<char>)
    ensures
        r@ == remove_all(s@, p@),
{
    if p.len() == 0 {
        return sub_vec(s, 0, s.len());
    }
    let mut out: Vec<char> = Vec::new();
    let mut i: usize = 0;
    assert(s@.skip(0) == s@);
    assert(s@.subrange(0, s@.len() as int) == s@);
    while i < s.len()
        invariant
            i <= s@.len(),
            p@.len() > 0,
            out@ + remove_all(s@.skip(i as int), p@) == remove_all(s@, p@),
        decreases s@.len() - i,
    {
        let ghost rest = s@.skip(i as int);
        if p.len() <= s.len() - i && occurs_at_exec(s, p, i) {
            assert(rest.take(p@.len() as int) == s@.subrange(i as int, i + p@.len()));
            assert(rest.skip(p@.len() as int) == s@.skip(i + p@.len()));
            i = i + p.len();
        } else {
            if p.len() <= s.len() - i {
                assert(rest.take(p@.len() as int) == s@.subrange(i as int, i + p@.len()));
            }
            assert(rest.drop_first() == s@.skip(i + 1));
            let ghost before = out@;
            out.push(s[i]);
            assert(out@ + remove_all(s@.skip(i + 1), p@) == before + (seq![s@[i as int]]
                + remove_all(s@.skip(i + 1), p@)));
            i += 1;
        }
    }
    assert(s@.skip(i as int).len() == 0);
    out
}


pub open spec fn string_views(v: Seq<String>) -> Seq<Seq<char>> {
    v.map_values(|s: String| s@)
}

/// `parts` joined with `sep` between consecutive parts.
pub fn join_strings(parts: &[String], sep: &str) -> (r: String)
    ensures
        r@ == join(string_views(parts@), sep@),
{
    let mut r = String::new();
    let mut i: usize = 0;
    while i < parts.len()
        invariant
            i <= parts@.len(),
            r@ == join(string_views(parts@.take(i as int)), sep@),
        decreases parts@.len() - i,
    {
        assert(string_views(parts@.take(i + 1)).drop_last() == string_views(parts@.take(i as int)));
        assert(string_views(parts@.take(i + 1)).last() == parts@[i as int]@);
        if i > 0 {
            append_str(&mut r, sep);
        }
        append_str(&mut r, parts[i].as_str());
        i += 1;
    }
    assert(parts@.take(parts@.len() as int) == parts@);
    r
}

/// An optional string as plain values.
pub open spec fn opt_string(o: Option<String>) -> Option<Seq<char>> {
    match o {
        Some(s) => Some(s@),
        None => None,
    }
}

/// The pieces of `s` between occurrences of `sep`, empty pieces included, as
/// `str::split` with a character yields them.
pub fn split_chars(s: &Vec<char>, sep: char) -> (r: Vec<Vec<char>>)
    ensures
        views_of(r@) == split_on(s@, |c: char| c == sep),
{
    let ghost f = |c: char| c == sep;
    let mut out: Vec<Vec<char>> = Vec::new();
    let mut current: Vec<char> = Vec::new();
    let mut i: usize = 0;
    assert(s@.take(0) == Seq::<char>::empty());
    assert(views_of(out@) == Seq::<Seq<char>>::empty());
    while i < s.len()
        invariant
            i <= s@.len(),
            f == (|c: char| c == sep),
            split_on(s@.take(i as int), f) == views_of(out@).push(current@),
        decreases s@.len() - i,
    {
        let c = s[i];
        assert(s@.take(i + 1).drop_last() == s@.take(i as int));
        assert(s@.take(i + 1).last() == c);
        if c == sep {
            let ghost before = out@;
            let finished = current;
            out.push(finished);
            assert(out@.drop_last() == before);
            assert(views_of(out@) == views_of(before).push(out@.last()@));
            current = Vec::new();
            assert(split_on(s@.take(i + 1), f) == views_of(out@).push(current@));
        } else {
            current.push(c);
        }
        i += 1;
    }
    assert(s@.take(s@.len() as int) == s@);
    let ghost before = out@;
    out.push(current);
    assert(out@.drop_last() == before);
    assert(views_of(out@) == views_of(before).push(out@.last()@));
    out
}

/// `s` with `White_Space` removed from its end, as `str::trim_end` does.
pub open spec fn trim_end_seq(s: Seq<char>) -> Seq<char>
    decreases s.len(),
{
    if s.len() > 0 && white_space(s.last()) {
        trim_end_seq(s.drop_last())
    } else {
        s
    }
}

/// `s` with `White_Space` removed from its end.
pub fn trim_end_chars(v: &Vec<char>) -> (r: String)
    ensures
        r@ == trim_end_seq(v@),
{
    let mut hi = v.len();
    assert(v@.take(hi as int) == v@);
    while hi > 0 && is_white_space(v[hi - 1])
        invariant
            hi <= v@.len(),
            trim_end_seq(v@) == trim_end_seq(v@.take(hi as int)),
        decreases hi,
    {
        assert(v@.take(hi as int).drop_last() == v@.take(hi - 1));
        hi -= 1;
    }
    assert(v@.subrange(0, hi as int) == v@.take(hi as int));
    string_of_range(v, 0, hi)
}

/// The decimal digit for a value below ten.
pub open spec fn decimal_digit(d: nat) -> char {
    ((d + 0x30) as u32) as char
}

/// The decimal digits of a natural number, most significant first.
pub open spec fn digits_of(n: nat) -> Seq<char>
    decreases n,
{
    if n < 10 {
        seq![decimal_digit(n)]
    } else {
        digits_of(n / 10).push(decimal_digit(n % 10))
    }
}

/// An integer in decimal, as `Display` writes it: a `-` before a negative
/// one, no leading zeros.
pub open spec fn decimal(n: int) -> Seq<char> {
    if n < 0 {
        seq!['-'] + digits_of((-n) as nat)
    } else {
        digits_of(n as nat)
    }
}

fn decimal_digit_exec(d: u64) -> (c: char)
    requires
        d < 10,
    ensures
        c == decimal_digit(d as nat),
{
    match d {
        0 => '0',
        1 => '1',
        2 => '2',
        3 => '3',
        4 => '4',
        5 => '5',
        6 => '6',
        7 => '7',
        8 => '8',
        _ => '9',
    }
}

fn push_digits(s: &mut String, n: u64)
    ensures
        final(s)@ == old(s)@ + digits_of(n as nat),
    decreases n,
{
    if n >= 10 {
        push_digits(s, n / 10);
    }
    push_char(s, decimal_digit_exec(n % 10));
}

/// A natural number in decimal.
pub fn unsigned_decimal(n: u64) -> (s: String)
    ensures
        s@ == decimal(n as int),
{
    let mut s = String::new();
    push_digits(&mut s, n);
    s
}

/// An integer in decimal.
pub fn decimal_string(n: i64) -> (s: String)
    ensures
        s@ == decimal(n as int),
{
    let mut s = String::new();
    let wide: i128 = n as i128;
    if wide < 0 {
        push_char(&mut s, '-');
        push_digits(&mut s, (-wide) as u64);
    } else {
        push_digits(&mut s, wide as u64);
    }
    s
}

/// Whether any string in `v` reads `s`.
pub fn contains_text(v: &Vec<String>, s: &str) -> (b: bool)
    ensures
        b == string_views(v@).contains(s@),
{
    let mut i: usize = 0;
    while i < v.len()
        invariant
            i <= v@.len(),
            forall|j: int| 0 <= j < i ==> (#[trigger] v@[j])@ != s@,
        decreases v@.len() - i,
    {
        if same_text(v[i].as_str(), s) {
            assert(string_views(v@)[i as int] == s@);
            return true;
        }
        i += 1;
    }
    assert(!string_views(v@).contains(s@)) by {
        if string_views(v@).contains(s@) {
            let j = choose|j: int| 0 <= j < string_views(v@).len() && string_views(v@)[j] == s@;
            assert(v@[j]@ == s@);
        }
    }
    false
}

} // verus!
