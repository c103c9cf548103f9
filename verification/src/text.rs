//! Character-level text operations with their specifications.
use vstd::prelude::*;

verus! {

/// Unicode `White_Space` (what `char::is_whitespace` tests).
pub open spec fn is_ws(c: char) -> bool {
    let u = c as u32;
    (9 <= u && u <= 13) || u == 32 || u == 0x85 || u == 0xa0 || u == 0x1680 || (0x2000 <= u && u
        <= 0x200a) || u == 0x2028 || u == 0x2029 || u == 0x202f || u == 0x205f || u == 0x3000
}

/// `s` with leading whitespace removed.
pub open spec fn trim_start(s: Seq<char>) -> Seq<char>
    decreases s.len(),
{
    if s.len() > 0 && is_ws(s[0]) {
        trim_start(s.drop_first())
    } else {
        s
    }
}

/// `s` with trailing whitespace removed.
pub open spec fn trim_end(s: Seq<char>) -> Seq<char>
    decreases s.len(),
{
    if s.len() > 0 && is_ws(s.last()) {
        trim_end(s.drop_last())
    } else {
        s
    }
}

/// `s` with whitespace removed at both ends (`str::trim`).
pub open spec fn trim(s: Seq<char>) -> Seq<char> {
    trim_end(trim_start(s))
}

/// `trim_start` leaves no whitespace in front.
pub proof fn lemma_trim_start_front(s: Seq<char>)
    ensures
        trim_start(s).len() > 0 ==> !is_ws(trim_start(s)[0]),
    decreases s.len(),
{
    if s.len() > 0 && is_ws(s[0]) {
        lemma_trim_start_front(s.drop_first());
    }
}

/// `trim_end` keeps a prefix and leaves no whitespace behind.
pub proof fn lemma_trim_end_back(s: Seq<char>)
    ensures
        trim_end(s).len() <= s.len(),
        trim_end(s) == s.subrange(0, trim_end(s).len() as int),
        trim_end(s).len() > 0 ==> !is_ws(trim_end(s).last()),
    decreases s.len(),
{
    if s.len() > 0 && is_ws(s.last()) {
        lemma_trim_end_back(s.drop_last());
        let n = trim_end(s).len() as int;
        assert(s.drop_last().subrange(0, n) =~= s.subrange(0, n));
    } else {
        assert(s.subrange(0, s.len() as int) =~= s);
    }
}

/// A text without whitespace at either end is its own trim.
pub proof fn lemma_trim_fixed(s: Seq<char>)
    requires
        s.len() > 0 ==> !is_ws(s[0]) && !is_ws(s.last()),
    ensures
        trim(s) == s,
{
    assert(trim_start(s) == s);
    assert(trim_end(s) == s);
}

/// A trimmed text has no whitespace at either end, so trimming it again
/// changes nothing.
pub proof fn lemma_trim_idempotent(s: Seq<char>)
    ensures
        trim(s).len() > 0 ==> !is_ws(trim(s)[0]) && !is_ws(trim(s).last()),
        trim(trim(s)) == trim(s),
{
    let u = trim_start(s);
    lemma_trim_start_front(s);
    lemma_trim_end_back(u);
    let t = trim_end(u);
    if t.len() > 0 {
        assert(t[0] == u[0]);
    }
    lemma_trim_fixed(t);
}

/// ASCII lower-casing keeps whitespace and other characters apart, and
/// lower-casing twice lowers once.
pub proof fn lemma_lower_ascii_char(c: char)
    ensures
        is_ws(lower_ascii(c)) == is_ws(c),
        lower_ascii(lower_ascii(c)) == lower_ascii(c),
{
    if 'A' <= c && c <= 'Z' {
        let d = ((c as u32) + 32) as char;
        assert(d as u32 == (c as u32) + 32);
    }
}

/// ASCII lower-casing of one character.
pub open spec fn lower_ascii(c: char) -> char {
    if 'A' <= c && c <= 'Z' {
        ((c as u32) + 32) as char
    } else {
        c
    }
}

/// ASCII lower-casing of a string (`str::to_ascii_lowercase`).
pub open spec fn lower_ascii_str(s: Seq<char>) -> Seq<char> {
    s.map_values(|c: char| lower_ascii(c))
}

/// `p` is a prefix of `s`.
pub open spec fn has_prefix(s: Seq<char>, p: Seq<char>) -> bool {
    p.len() <= s.len() && s.subrange(0, p.len() as int) == p
}

/// `p` is a suffix of `s`.
pub open spec fn has_suffix(s: Seq<char>, p: Seq<char>) -> bool {
    p.len() <= s.len() && s.subrange(s.len() - p.len(), s.len() as int) == p
}

/// `p` occurs in `s` starting at position `i`.
pub open spec fn occurs_at(s: Seq<char>, p: Seq<char>, i: int) -> bool {
    0 <= i && i + p.len() <= s.len() && s.subrange(i, i + p.len()) == p
}

/// `p` occurs somewhere in `s` (`str::contains`).
pub open spec fn contains(s: Seq<char>, p: Seq<char>) -> bool {
    exists|i: int| occurs_at(s, p, i)
}

/// The first position where `p` occurs in `s` (`str::find`).
pub open spec fn first_occurrence(s: Seq<char>, p: Seq<char>) -> Option<int> {
    if contains(s, p) {
        Some(choose|i: int| occurs_at(s, p, i) && forall|j: int| 0 <= j < i ==> !occurs_at(s, p, j))
    } else {
        None
    }
}

/// Appends one character to a `String` (`String::push`).
#[verifier::external_body]
pub(crate) fn push_char(s: &mut String, c: char)
    ensures
        final(s)@ == old(s)@.push(c),
{
    s.push(c);
}

/// Appends `t` to `s`.
pub fn push_str(s: &mut String, t: &str)
    ensures
        final(s)@ == old(s)@ + t@,
{
    s.append(t);
}

/// The characters of `s`, in order.
pub fn chars_of(s: &str) -> (v: Vec<char>)
    ensures
        v@ == s@,
{
    let n = s.unicode_len();
    let mut v: Vec<char> = Vec::new();
    let mut i: usize = 0;
    while i < n
        invariant
            n == s@.len(),
            i <= n,
            v@ == s@.subrange(0, i as int),
        decreases n - i,
    {
        let c = s.get_char(i);
        v.push(c);
        i = i + 1;
    }
    v
}

/// The string made of the characters `v[from..to]`.
pub fn string_of_range(v: &Vec<char>, from: usize, to: usize) -> (s: String)
    requires
        from <= to <= v.len(),
    ensures
        s@ == v@.subrange(from as int, to as int),
{
    let mut s = String::new();
    let mut i = from;
    while i < to
        invariant
            from <= i <= to <= v.len(),
            s@ == v@.subrange(from as int, i as int),
        decreases to - i,
    {
        push_char(&mut s, v[i]);
        i = i + 1;
    }
    s
}

/// The string made of the characters of `v`.
pub fn string_of(v: &Vec<char>) -> (s: String)
    ensures
        s@ == v@,
{
    string_of_range(v, 0, v.len())
}

/// An owned copy of `s`.
pub fn own(s: &str) -> (r: String)
    ensures
        r@ == s@,
{
    let mut r = String::new();
    push_str(&mut r, s);
    r
}

/// `c` is whitespace (`char::is_whitespace`).
pub fn is_whitespace(c: char) -> (b: bool)
    ensures
        b == is_ws(c),
{
    let u = c as u32;
    (9 <= u && u <= 13) || u == 32 || u == 0x85 || u == 0xa0 || u == 0x1680 || (0x2000 <= u && u
        <= 0x200a) || u == 0x2028 || u == 0x2029 || u == 0x202f || u == 0x205f || u == 0x3000
}

/// Equality of the character sequences of two strings.
pub fn str_eq(a: &str, b: &str) -> (r: bool)
    ensures
        r == (a@ == b@),
{
    let va = chars_of(a);
    let vb = chars_of(b);
    if va.len() != vb.len() {
        return false;
    }
    let mut i: usize = 0;
    while i < va.len()
        invariant
            va@ == a@,
            vb@ == b@,
            va.len() == vb.len(),
            i <= va.len(),
            forall|k: int| 0 <= k < i ==> va@[k] == vb@[k],
        decreases va.len() - i,
    {
        if va[i] != vb[i] {
            return false;
        }
        i = i + 1;
    }
    assert(va@ =~= vb@);
    true
}

/// Whether `p` occurs in `v` at position `i`.
pub fn occurs_at_vec(v: &Vec<char>, p: &Vec<char>, i: usize) -> (r: bool)
    ensures
        r == occurs_at(v@, p@, i as int),
{
    if i > v.len() || p.len() > v.len() - i {
        return false;
    }
    let mut k: usize = 0;
    while k < p.len()
        invariant
            i + p.len() <= v.len(),
            k <= p.len(),
            forall|j: int| 0 <= j < k ==> v@[i + j] == p@[j],
        decreases p.len() - k,
    {
        if v[i + k] != p[k] {
            assert(v@.subrange(i as int, i + p.len())[k as int] != p@[k as int]);
            return false;
        }
        k = k + 1;
    }
    assert(v@.subrange(i as int, i + p.len()) =~= p@);
    true
}

/// The first position at or after `from` where `p` occurs in `v`.
pub fn find_from(v: &Vec<char>, p: &Vec<char>, from: usize) -> (r: Option<usize>)
    ensures
        match r {
            Some(i) => from <= i && occurs_at(v@, p@, i as int) && forall|j: int|
                from <= j < i ==> !occurs_at(v@, p@, j),
            None => forall|j: int| from <= j ==> !occurs_at(v@, p@, j),
        },
{
    if from > v.len() {
        return None;
    }
    let mut i = from;
    loop
        invariant
            from <= i <= v.len(),
            forall|j: int| from <= j < i ==> !occurs_at(v@, p@, j),
        decreases v.len() - i,
    {
        if occurs_at_vec(v, p, i) {
            return Some(i);
        }
        if i == v.len() {
            return None;
        }
        i = i + 1;
    }
}

/// The first position where `p` occurs in `v` (`str::find`).
pub fn find(v: &Vec<char>, p: &Vec<char>) -> (r: Option<usize>)
    ensures
        match r {
            Some(i) => first_occurrence(v@, p@) == Some(i as int),
            None => first_occurrence(v@, p@) is None,
        },
{
    let r = find_from(v, p, 0);
    match r {
        Some(i) => {
            proof {
                assert(contains(v@, p@));
                let c = choose|k: int|
                    occurs_at(v@, p@, k) && forall|j: int| 0 <= j < k ==> !occurs_at(v@, p@, j);
                assert(occurs_at(v@, p@, c) && forall|j: int| 0 <= j < c ==> !occurs_at(v@, p@, j));
                if c < i {
                } else if c > i {
                    assert(!occurs_at(v@, p@, i as int));
                }
            }
        },
        None => {},
    }
    r
}

/// Whether `p` occurs in `s`.
pub fn str_contains(s: &str, p: &str) -> (r: bool)
    ensures
        r == contains(s@, p@),
{
    let v = chars_of(s);
    let q = chars_of(p);
    let f = find_from(&v, &q, 0);
    match f {
        Some(i) => true,
        None => false,
    }
}

/// Whether `s` starts with `p`.
pub fn starts_with(s: &str, p: &str) -> (r: bool)
    ensures
        r == has_prefix(s@, p@),
{
    let v = chars_of(s);
    let q = chars_of(p);
    occurs_at_vec(&v, &q, 0)
}

/// Whether `s` ends with `p`.
pub fn ends_with(s: &str, p: &str) -> (r: bool)
    ensures
        r == has_suffix(s@, p@),
{
    let v = chars_of(s);
    let q = chars_of(p);
    if q.len() > v.len() {
        return false;
    }
    occurs_at_vec(&v, &q, v.len() - q.len())
}


/// The decimal digit for `d < 10`.
pub open spec fn digit_char(d: nat) -> char {
    (48 + d) as char
}

/// Decimal notation of a natural number.
pub open spec fn decimal(n: nat) -> Seq<char>
    decreases n,
{
    if n < 10 {
        seq![digit_char(n)]
    } else {
        decimal(n / 10).push(digit_char(n % 10))
    }
}

/// Decimal notation of an integer, with a leading `-` when negative.
pub open spec fn decimal_int(i: int) -> Seq<char> {
    if i < 0 {
        seq!['-'] + decimal((-i) as nat)
    } else {
        decimal(i as nat)
    }
}

/// `"true"` or `"false"`.
pub open spec fn bool_text(b: bool) -> Seq<char> {
    if b {
        seq!['t', 'r', 'u', 'e']
    } else {
        seq!['f', 'a', 'l', 's', 'e']
    }
}

/// Whitespace runs collapsed to single spaces, none at either end
/// (`split_whitespace` joined with `" "`), scanning `s` from the left:
/// `started` says a word was already emitted and `pending` that whitespace
/// followed it.
pub open spec fn collapse_from(s: Seq<char>, started: bool, pending: bool) -> Seq<char>
    decreases s.len(),
{
    if s.len() == 0 {
        seq![]
    } else if is_ws(s[0]) {
        collapse_from(s.drop_first(), started, started)
    } else {
        (if pending {
            seq![' ']
        } else {
            seq![]
        }) + seq![s[0]] + collapse_from(s.drop_first(), true, false)
    }
}

/// The words of `s` joined by single spaces.
pub open spec fn collapse_ws(s: Seq<char>) -> Seq<char> {
    collapse_from(s, false, false)
}

fn append_decimal(s: &mut String, n: u64)
    ensures
        final(s)@ == old(s)@ + decimal(n as nat),
    decreases n,
{
    if n >= 10 {
        append_decimal(s, n / 10);
    }
    let d = (48u8 + (n % 10) as u8) as char;
    push_char(s, d);
}

/// Decimal text of `n` (`u64::to_string`).
pub fn u64_text(n: u64) -> (r: String)
    ensures
        r@ == decimal(n as nat),
{
    let mut r = String::new();
    append_decimal(&mut r, n);
    assert(r@ =~= decimal(n as nat));
    r
}

/// Decimal text of `n` (`i64::to_string`).
pub fn i64_text(n: i64) -> (r: String)
    ensures
        r@ == decimal_int(n as int),
{
    let mut r = String::new();
    if n < 0 {
        push_char(&mut r, '-');
        let m: u64 = (0i128 - n as i128) as u64;
        append_decimal(&mut r, m);
    } else {
        append_decimal(&mut r, n as u64);
    }
    assert(r@ =~= decimal_int(n as int));
    r
}

/// `"true"` or `"false"` (`bool::to_string`).
pub fn bool_string(b: bool) -> (r: String)
    ensures
        r@ == bool_text(b),
{
    let mut r = String::new();
    if b {
        push_str(&mut r, "true");
        proof {
            reveal_strlit("true");
        }
    } else {
        push_str(&mut r, "false");
        proof {
            reveal_strlit("false");
        }
    }
    assert(r@ =~= bool_text(b));
    r
}

/// ASCII lower-casing of one character (`char::to_ascii_lowercase`).
pub fn ascii_lower(c: char) -> (r: char)
    ensures
        r == lower_ascii(c),
{
    if 'A' <= c && c <= 'Z' {
        ((c as u8) + 32) as char
    } else {
        c
    }
}

/// ASCII lower-casing of a string (`str::to_ascii_lowercase`).
pub fn to_ascii_lowercase(s: &str) -> (r: String)
    ensures
        r@ == lower_ascii_str(s@),
{
    let v = chars_of(s);
    let mut r = String::new();
    let mut i: usize = 0;
    while i < v.len()
        invariant
            v@ == s@,
            i <= v.len(),
            r@ == lower_ascii_str(v@.subrange(0, i as int)),
        decreases v.len() - i,
    {
        let c = ascii_lower(v[i]);
        push_char(&mut r, c);
        proof {
            assert(v@.subrange(0, i + 1) =~= v@.subrange(0, i as int).push(v@[i as int]));
        }
        i = i + 1;
        assert(r@ =~= lower_ascii_str(v@.subrange(0, i as int)));
    }
    assert(v@.subrange(0, v.len() as int) =~= v@);
    r
}

/// ASCII case-insensitive equality (`str::eq_ignore_ascii_case`).
pub fn eq_ignore_ascii_case(a: &str, b: &str) -> (r: bool)
    ensures
        r == (lower_ascii_str(a@) == lower_ascii_str(b@)),
{
    let la = to_ascii_lowercase(a);
    let lb = to_ascii_lowercase(b);
    str_eq(la.as_str(), lb.as_str())
}

/// The bounds of `v` without surrounding whitespace.
pub fn trim_bounds(v: &Vec<char>) -> (r: (usize, usize))
    ensures
        r.0 <= r.1 <= v.len(),
        v@.subrange(r.0 as int, r.1 as int) == trim(v@),
{
    let n = v.len();
    let mut i: usize = 0;
    assert(v@.subrange(0, n as int) =~= v@);
    while i < n && is_whitespace(v[i])
        invariant
            n == v.len(),
            i <= n,
            trim_start(v@) == trim_start(v@.subrange(i as int, n as int)),
        decreases n - i,
    {
        proof {
            let sub = v@.subrange(i as int, n as int);
            assert(sub.drop_first() =~= v@.subrange(i + 1, n as int));
        }
        i = i + 1;
    }
    proof {
        assert(v@.subrange(0, n as int) =~= v@);
    }
    let mut j: usize = n;
    while j > i && is_whitespace(v[j - 1])
        invariant
            n == v.len(),
            i <= j <= n,
            trim_start(v@) == v@.subrange(i as int, n as int),
            trim(v@) == trim_end(v@.subrange(i as int, j as int)),
        decreases j,
    {
        proof {
            let sub = v@.subrange(i as int, j as int);
            assert(sub.drop_last() =~= v@.subrange(i as int, j - 1));
        }
        j = j - 1;
    }
    (i, j)
}

/// `s` without surrounding whitespace (`str::trim`).
pub fn trim_str(s: &str) -> (r: String)
    ensures
        r@ == trim(s@),
{
    let v = chars_of(s);
    let (i, j) = trim_bounds(&v);
    string_of_range(&v, i, j)
}

/// Words of `s` joined by single spaces (`split_whitespace` + `join(" ")`).
pub fn collapse_whitespace(s: &str) -> (r: String)
    ensures
        r@ == collapse_ws(s@),
{
    let v = chars_of(s);
    let mut r = String::new();
    let mut started = false;
    let mut pending = false;
    let mut i: usize = 0;
    assert(v@.subrange(0, v.len() as int) =~= v@);
    assert(r@ + collapse_from(v@, false, false) =~= collapse_from(v@, false, false));
    while i < v.len()
        invariant
            v@ == s@,
            i <= v.len(),
            collapse_ws(v@) == r@ + collapse_from(v@.subrange(i as int, v.len() as int), started, pending),
        decreases v.len() - i,
    {
        let c = v[i];
        proof {
            let sub = v@.subrange(i as int, v.len() as int);
            assert(sub.drop_first() =~= v@.subrange(i + 1, v.len() as int));
        }
        if is_whitespace(c) {
            pending = started;
        } else {
            if pending {
                push_char(&mut r, ' ');
            }
            push_char(&mut r, c);
            started = true;
            pending = false;
        }
        i = i + 1;
    }
    proof {
        assert(r@ + collapse_from(v@.subrange(i as int, v.len() as int), started, pending) =~= r@);
    }
    r
}


/// What `str::to_lowercase` returns for a string: its Unicode lower-case mapping.
pub uninterp spec fn unicode_lower(s: Seq<char>) -> Seq<char>;

/// Whether every character of `s` is ASCII.
pub open spec fn all_ascii(s: Seq<char>) -> bool {
    forall|i: int| 0 <= i < s.len() ==> (#[trigger] s[i] as u32) < 128
}

/// A word of lower-case ASCII letters is ASCII and its own lower-casing.
pub proof fn lemma_lower_word(s: Seq<char>)
    requires
        forall|i: int| 0 <= i < s.len() ==> 'a' <= #[trigger] s[i] && s[i] <= 'z',
    ensures
        all_ascii(s),
        lower_ascii_str(s) == s,
{
    assert(lower_ascii_str(s) =~= s);
}

/// Whether `c` is an ASCII letter or digit.
pub open spec fn ascii_alnum(c: char) -> bool {
    ('a' <= c && c <= 'z') || ('A' <= c && c <= 'Z') || ('0' <= c && c <= '9')
}

/// Unicode lower-casing (`str::to_lowercase`); the result is the Unicode
/// lower-case mapping of `s`, named here and not spelled out. On ASCII text
/// that mapping is ASCII lower-casing, as the Unicode case tables give it.
#[verifier::external_body]
pub(crate) fn to_lowercase(s: &str) -> (r: String)
    ensures
        r@ == unicode_lower(s@),
        all_ascii(s@) ==> r@ == lower_ascii_str(s@),
{
    s.to_lowercase()
}

/// Whether a character is Unicode alphabetic or numeric, as
/// `char::is_alphanumeric` decides it.
pub uninterp spec fn unicode_alnum(c: char) -> bool;

/// `char::is_alphanumeric`; its result is named, not spelled out beyond
/// ASCII, where the letters and digits are alphanumeric and nothing else is.
#[verifier::external_body]
pub(crate) fn is_alphanumeric(c: char) -> (r: bool)
    ensures
        r == unicode_alnum(c),
        (c as u32) < 128 ==> (r <==> ascii_alnum(c)),
{
    c.is_alphanumeric()
}

/// How many times `c` occurs in `s`.
pub open spec fn count_char(s: Seq<char>, c: char) -> nat
    decreases s.len(),
{
    if s.len() == 0 {
        0
    } else {
        count_char(s.drop_last(), c) + if s.last() == c {
            1nat
        } else {
            0nat
        }
    }
}

/// How many times `c` occurs in `s`.
pub fn count_occurrences(s: &str, c: char) -> (n: usize)
    ensures
        n == count_char(s@, c),
{
    let v = chars_of(s);
    let mut n: usize = 0;
    let mut i: usize = 0;
    while i < v.len()
        invariant
            v@ == s@,
            i <= v.len(),
            n == count_char(v@.subrange(0, i as int), c),
            n <= i,
        decreases v.len() - i,
    {
        proof {
            assert(v@.subrange(0, i + 1).drop_last() =~= v@.subrange(0, i as int));
        }
        if v[i] == c {
            n = n + 1;
        }
        i = i + 1;
    }
    assert(v@.subrange(0, v.len() as int) =~= v@);
    n
}

/// Whether the character `c` occurs in `s`.
pub fn contains_char(s: &str, c: char) -> (r: bool)
    ensures
        r == s@.contains(c),
{
    let v = chars_of(s);
    let mut i: usize = 0;
    while i < v.len()
        invariant
            v@ == s@,
            i <= v.len(),
            forall|k: int| 0 <= k < i ==> v@[k] != c,
        decreases v.len() - i,
    {
        if v[i] == c {
            return true;
        }
        i = i + 1;
    }
    false
}


/// The first position at or after `i` where `p` occurs in `s`.
pub open spec fn occurrence_from(s: Seq<char>, p: Seq<char>, i: int) -> Option<int>
    decreases s.len() + 1 - i,
{
    if i < 0 || i > s.len() {
        None
    } else if occurs_at(s, p, i) {
        Some(i)
    } else {
        occurrence_from(s, p, i + 1)
    }
}

/// A found occurrence lies at or after `i`, fits in `s`, and none comes earlier.
pub proof fn lemma_occurrence_from(s: Seq<char>, p: Seq<char>, i: int)
    requires
        0 <= i,
    ensures
        match occurrence_from(s, p, i) {
            Some(j) => i <= j && j + p.len() <= s.len() && occurs_at(s, p, j) && forall|k: int|
                i <= k < j ==> !occurs_at(s, p, k),
            None => forall|k: int| i <= k ==> !occurs_at(s, p, k),
        },
    decreases s.len() + 1 - i,
{
    if i <= s.len() && !occurs_at(s, p, i) {
        lemma_occurrence_from(s, p, i + 1);
    }
}

/// The first position at or after `from` where `p` occurs in `v`.
pub fn find_after(v: &Vec<char>, p: &Vec<char>, from: usize) -> (r: Option<usize>)
    ensures
        match r {
            Some(i) => occurrence_from(v@, p@, from as int) == Some(i as int),
            None => occurrence_from(v@, p@, from as int) is None,
        },
{
    let r = find_from(v, p, from);
    proof {
        lemma_occurrence_from(v@, p@, from as int);
    }
    match r {
        Some(i) => {
            proof {
                match occurrence_from(v@, p@, from as int) {
                    Some(j) => {
                        if j < i {
                        } else if j > i {
                        }
                    },
                    None => {},
                }
            }
        },
        None => {},
    }
    r
}

/// `s` with every `from` character replaced by `to` (`str::replace` of a character).
pub open spec fn replace_char(s: Seq<char>, from: char, to: char) -> Seq<char> {
    s.map_values(|c: char| if c == from { to } else { c })
}

/// `s` with every `from` character replaced by `to`.
pub fn replace_chars(s: &str, from: char, to: char) -> (r: String)
    ensures
        r@ == replace_char(s@, from, to),
{
    let v = chars_of(s);
    let mut r = String::new();
    let mut i: usize = 0;
    while i < v.len()
        invariant
            v@ == s@,
            i <= v.len(),
            r@ == replace_char(v@.subrange(0, i as int), from, to),
        decreases v.len() - i,
    {
        let c = v[i];
        if c == from {
            push_char(&mut r, to);
        } else {
            push_char(&mut r, c);
        }
        proof {
            assert(v@.subrange(0, i + 1) =~= v@.subrange(0, i as int).push(c));
        }
        i = i + 1;
        assert(r@ =~= replace_char(v@.subrange(0, i as int), from, to));
    }
    assert(v@.subrange(0, v.len() as int) =~= v@);
    r
}

/// Lexicographic order of character sequences by code point, which is the
/// order of `String` (UTF-8 byte order agrees with code point order).
pub open spec fn seq_less(a: Seq<char>, b: Seq<char>) -> bool
    decreases a.len(),
{
    if a.len() == 0 {
        b.len() > 0
    } else if b.len() == 0 {
        false
    } else if a[0] != b[0] {
        a[0] < b[0]
    } else {
        seq_less(a.drop_first(), b.drop_first())
    }
}

/// Whether `a` sorts before `b`.
pub fn str_less(a: &str, b: &str) -> (r: bool)
    ensures
        r == seq_less(a@, b@),
{
    let va = chars_of(a);
    let vb = chars_of(b);
    let mut i: usize = 0;
    assert(va@.skip(0) =~= va@);
    assert(vb@.skip(0) =~= vb@);
    while i < va.len() && i < vb.len()
        invariant
            va@ == a@,
            vb@ == b@,
            i <= va.len(),
            i <= vb.len(),
            seq_less(a@, b@) == seq_less(va@.skip(i as int), vb@.skip(i as int)),
        decreases va.len() - i,
    {
        if va[i] != vb[i] {
            return va[i] < vb[i];
        }
        proof {
            assert(va@.skip(i as int).drop_first() =~= va@.skip(i + 1));
            assert(vb@.skip(i as int).drop_first() =~= vb@.skip(i + 1));
        }
        i = i + 1;
    }
    i < vb.len()
}

/// `seq_less` is irreflexive.
pub proof fn lemma_seq_less_irreflexive(a: Seq<char>)
    ensures
        !seq_less(a, a),
    decreases a.len(),
{
    if a.len() > 0 {
        lemma_seq_less_irreflexive(a.drop_first());
    }
}

/// `seq_less` is transitive.
pub proof fn lemma_seq_less_transitive(a: Seq<char>, b: Seq<char>, c: Seq<char>)
    requires
        seq_less(a, b),
        seq_less(b, c),
    ensures
        seq_less(a, c),
    decreases a.len(),
{
    if a.len() > 0 && b.len() > 0 && c.len() > 0 && a[0] == b[0] && b[0] == c[0] {
        lemma_seq_less_transitive(a.drop_first(), b.drop_first(), c.drop_first());
    }
}

/// `seq_less` is total on distinct sequences.
pub proof fn lemma_seq_less_total(a: Seq<char>, b: Seq<char>)
    requires
        a != b,
    ensures
        seq_less(a, b) || seq_less(b, a),
    decreases a.len(),
{
    if a.len() > 0 && b.len() > 0 && a[0] == b[0] {
        if a.drop_first() =~= b.drop_first() {
            assert(a =~= b) by {
                assert forall|k: int| 0 <= k < a.len() implies a[k] == b[k] by {
                    if k > 0 {
                        assert(a[k] == a.drop_first()[k - 1]);
                        assert(b[k] == b.drop_first()[k - 1]);
                    }
                }
            }
        } else {
            lemma_seq_less_total(a.drop_first(), b.drop_first());
        }
    } else if a.len() == 0 && b.len() == 0 {
        assert(a =~= b);
    }
}


/// `parts` joined with `sep` between consecutive parts.
pub open spec fn join_seq(parts: Seq<Seq<char>>, sep: Seq<char>) -> Seq<char>
    decreases parts.len(),
{
    if parts.len() == 0 {
        seq![]
    } else if parts.len() == 1 {
        parts[0]
    } else {
        join_seq(parts.drop_last(), sep) + sep + parts.last()
    }
}

/// Each character of `s` replaced by the text `f` gives for it.
pub open spec fn flat_map_chars(s: Seq<char>, f: spec_fn(char) -> Seq<char>) -> Seq<char>
    decreases s.len(),
{
    if s.len() == 0 {
        seq![]
    } else {
        flat_map_chars(s.drop_last(), f) + f(s.last())
    }
}

/// The texts of `v` joined with `sep`.
pub fn join_strings(v: &Vec<String>, sep: &str) -> (r: String)
    ensures
        r@ == join_seq(v@.map_values(|s: String| s@), sep@),
{
    let ghost parts = v@.map_values(|s: String| s@);
    let mut r = String::new();
    let mut i: usize = 0;
    while i < v.len()
        invariant
            parts == v@.map_values(|s: String| s@),
            i <= v.len(),
            r@ == join_seq(parts.take(i as int), sep@),
        decreases v.len() - i,
    {
        proof {
            assert(parts.take(i + 1).drop_last() =~= parts.take(i as int));
            assert(parts.take(i + 1).last() == v@[i as int]@);
        }
        if i > 0 {
            push_str(&mut r, sep);
        } else {
            assert(parts.take(1) =~= seq![v@[0]@]);
        }
        push_str(&mut r, v[i].as_str());
        i = i + 1;
    }
    assert(parts.take(v.len() as int) =~= parts);
    r
}


/// ASCII upper-casing of a string (`str::to_ascii_uppercase`).
pub open spec fn upper_ascii_str(s: Seq<char>) -> Seq<char> {
    s.map_values(|c: char| if 'a' <= c && c <= 'z' { ((c as u32) - 32) as char } else { c })
}

/// ASCII upper-casing of a string (`str::to_ascii_uppercase`).
pub fn to_ascii_uppercase(s: &str) -> (r: String)
    ensures
        r@ == upper_ascii_str(s@),
{
    let v = chars_of(s);
    let mut r = String::new();
    let mut i: usize = 0;
    while i < v.len()
        invariant
            v@ == s@,
            i <= v.len(),
            r@ == upper_ascii_str(v@.subrange(0, i as int)),
        decreases v.len() - i,
    {
        let c = v[i];
        let u = if 'a' <= c && c <= 'z' {
            ((c as u8) - 32) as char
        } else {
            c
        };
        push_char(&mut r, u);
        proof {
            assert(v@.subrange(0, i + 1) =~= v@.subrange(0, i as int).push(c));
        }
        i = i + 1;
        assert(r@ =~= upper_ascii_str(v@.subrange(0, i as int)));
    }
    assert(v@.subrange(0, v.len() as int) =~= v@);
    r
}


/// `s` without trailing whitespace (`str::trim_end`).
pub fn trim_end_str(s: &str) -> (r: String)
    ensures
        r@ == trim_end(s@),
{
    let v = chars_of(s);
    let mut j: usize = v.len();
    assert(v@.subrange(0, j as int) =~= v@);
    while j > 0 && is_whitespace(v[j - 1])
        invariant
            v@ == s@,
            j <= v.len(),
            trim_end(s@) == trim_end(v@.subrange(0, j as int)),
        decreases j,
    {
        proof {
            assert(v@.subrange(0, j as int).drop_last() =~= v@.subrange(0, j - 1));
        }
        j = j - 1;
    }
    string_of_range(&v, 0, j)
}

/// The first `n` characters of `s`, and `...` when more followed.
pub open spec fn truncated(s: Seq<char>, n: nat) -> Seq<char> {
    if s.len() > n {
        s.take(n as int) + "..."@
    } else {
        s
    }
}

/// At most `max_chars` characters of `s`, marked with `...` when cut.
pub fn truncate_chars(s: &str, max_chars: usize) -> (r: String)
    ensures
        r@ == truncated(s@, max_chars as nat),
{
    let v = chars_of(s);
    if v.len() > max_chars {
        let mut r = string_of_range(&v, 0, max_chars);
        push_str(&mut r, "...");
        assert(v@.subrange(0, max_chars as int) =~= v@.take(max_chars as int));
        r
    } else {
        own(s)
    }
}

} // verus!
