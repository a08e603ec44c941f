//! Character-level text helpers: the models of the `str` operations the tool relies on,
//! stated over `Seq<char>` and implemented on `Vec<char>`.
use vstd::prelude::*;

verus! {

// ---------------------------------------------------------------------------
// Conversions between `str`/`String` and character vectors
// ---------------------------------------------------------------------------

/// The characters of a string slice, in order.
pub fn chars_of(s: &str) -> (r: Vec<char>)
    ensures
        r@ == s@,
{
    let mut r: Vec<char> = Vec::new();
    for c in it: s.chars()
        invariant
            r@ == it.seq().take(it.index()),
    {
        r.push(c);
    }
    r
}

/// Builds a `String` with std's `String::from_iter` over `&char` items, which pushes the
/// characters in order: the result's characters are exactly `v`'s.
#[verifier::external_body]
pub(crate) fn string_from_chars(v: &Vec<char>) -> (s: String)
    ensures
        s@ == v@,
{
    String::from_iter(v)
}

/// Whether two character sequences are equal.
pub fn chars_eq(a: &[char], b: &[char]) -> (r: bool)
    ensures
        r == (a@ == b@),
{
    if a.len() != b.len() {
        return false;
    }
    let mut i: usize = 0;
    while i < a.len()
        invariant
            a@.len() == b@.len(),
            i <= a@.len(),
            forall|j: int| 0 <= j < i ==> a@[j] == b@[j],
        decreases a@.len() - i,
    {
        if a[i] != b[i] {
            return false;
        }
        i += 1;
    }
    assert(a@ =~= b@);
    true
}

/// Whether the characters of `a` equal those of the string `b`.
pub fn chars_eq_str(a: &Vec<char>, b: &str) -> (r: bool)
    ensures
        r == (a@ == b@),
{
    let bv = chars_of(b);
    chars_eq(a.as_slice(), bv.as_slice())
}

/// The characters `s[lo..hi]` as a new vector.
pub fn sub_chars(s: &[char], lo: usize, hi: usize) -> (r: Vec<char>)
    requires
        lo <= hi <= s@.len(),
    ensures
        r@ == s@.subrange(lo as int, hi as int),
{
    let mut r: Vec<char> = Vec::new();
    let mut i = lo;
    while i < hi
        invariant
            lo <= i <= hi,
            hi <= s@.len(),
            r@ == s@.subrange(lo as int, i as int),
        decreases hi - i,
    {
        r.push(s[i]);
        i += 1;
        assert(r@ =~= s@.subrange(lo as int, i as int));
    }
    r
}

/// Appends all of `b` to `a`.
pub fn push_all(a: &mut Vec<char>, b: &[char])
    ensures
        final(a)@ == old(a)@ + b@,
{
    let ghost a0 = a@;
    let mut i: usize = 0;
    while i < b.len()
        invariant
            i <= b@.len(),
            a@ == a0 + b@.take(i as int),
        decreases b@.len() - i,
    {
        a.push(b[i]);
        i += 1;
        assert(a@ =~= a0 + b@.take(i as int));
    }
    assert(b@.take(b@.len() as int) =~= b@);
}

/// Appends the characters of the string `b` to `a`.
pub fn push_str_chars(a: &mut Vec<char>, b: &str)
    ensures
        final(a)@ == old(a)@ + b@,
{
    let bv = chars_of(b);
    push_all(a, bv.as_slice());
}

// ---------------------------------------------------------------------------
// Whitespace and trimming (`str::trim`, `char::is_whitespace`)
// ---------------------------------------------------------------------------

/// The Unicode `White_Space` property, which `char::is_whitespace` tests.
pub open spec fn is_ws(c: char) -> bool {
    let u = c as u32;
    ||| 0x09 <= u <= 0x0D
    ||| u == 0x20
    ||| u == 0x85
    ||| u == 0xA0
    ||| u == 0x1680
    ||| 0x2000 <= u <= 0x200A
    ||| u == 0x2028
    ||| u == 0x2029
    ||| u == 0x202F
    ||| u == 0x205F
    ||| u == 0x3000
}

/// Tests `is_ws`.
pub fn is_whitespace(c: char) -> (r: bool)
    ensures
        r == is_ws(c),
{
    let u = c as u32;
    (0x09 <= u && u <= 0x0D) || u == 0x20 || u == 0x85 || u == 0xA0 || u == 0x1680 || (0x2000
        <= u && u <= 0x200A) || u == 0x2028 || u == 0x2029 || u == 0x202F || u == 0x205F || u
        == 0x3000
}

/// The number of leading whitespace characters.
pub open spec fn lead_ws(s: Seq<char>) -> nat
    decreases s.len(),
{
    if s.len() > 0 && is_ws(s[0]) {
        1 + lead_ws(s.drop_first())
    } else {
        0
    }
}

/// The number of trailing whitespace characters.
pub open spec fn trail_ws(s: Seq<char>) -> nat
    decreases s.len(),
{
    if s.len() > 0 && is_ws(s.last()) {
        1 + trail_ws(s.drop_last())
    } else {
        0
    }
}

/// `str::trim_start`.
pub open spec fn trim_start(s: Seq<char>) -> Seq<char> {
    s.skip(lead_ws(s) as int)
}

/// `str::trim_end`.
pub open spec fn trim_end(s: Seq<char>) -> Seq<char> {
    s.take(s.len() - trail_ws(s))
}

/// `str::trim`: whitespace removed from both ends.
pub open spec fn trim(s: Seq<char>) -> Seq<char> {
    trim_end(trim_start(s))
}

/// `lead_ws` is the index of the first non-whitespace character (or the length).
pub proof fn lemma_lead_ws(s: Seq<char>, i: int)
    requires
        0 <= i <= s.len(),
        forall|j: int| 0 <= j < i ==> is_ws(#[trigger] s[j]),
        i == s.len() || !is_ws(s[i]),
    ensures
        lead_ws(s) == i,
    decreases i,
{
    if i > 0 {
        let t = s.drop_first();
        assert forall|j: int| 0 <= j < i - 1 implies is_ws(#[trigger] t[j]) by {
            assert(t[j] == s[j + 1]);
        }
        if i < s.len() {
            assert(t[i - 1] == s[i]);
        }
        lemma_lead_ws(t, i - 1);
    }
}

/// `trail_ws` counts the whitespace run at the end.
pub proof fn lemma_trail_ws(s: Seq<char>, k: int)
    requires
        0 <= k <= s.len(),
        forall|j: int| s.len() - k <= j < s.len() ==> is_ws(#[trigger] s[j]),
        k == s.len() || !is_ws(s[s.len() - k - 1]),
    ensures
        trail_ws(s) == k,
    decreases k,
{
    if k > 0 {
        let t = s.drop_last();
        assert(is_ws(s[s.len() - 1]));
        assert forall|j: int| t.len() - (k - 1) <= j < t.len() implies is_ws(#[trigger] t[j]) by {
            assert(t[j] == s[j]);
        }
        if k < s.len() {
            assert(t[t.len() - (k - 1) - 1] == s[s.len() - k - 1]);
        }
        lemma_trail_ws(t, k - 1);
    }
}

/// The bounds `(a, b)` with `s[a..b] == trim(s)`.
pub fn trim_bounds(s: &[char]) -> (r: (usize, usize))
    ensures
        r.0 <= r.1 <= s@.len(),
        s@.subrange(r.0 as int, r.1 as int) == trim(s@),
        r.0 == lead_ws(s@),
{
    let n = s.len();
    let mut a: usize = 0;
    while a < n && is_whitespace(s[a])
        invariant
            a <= n,
            n == s@.len(),
            forall|j: int| 0 <= j < a ==> is_ws(#[trigger] s@[j]),
        decreases n - a,
    {
        a += 1;
    }
    proof {
        lemma_lead_ws(s@, a as int);
    }
    let mut b: usize = n;
    while b > a && is_whitespace(s[b - 1])
        invariant
            a <= b <= n,
            n == s@.len(),
            forall|j: int| b <= j < n ==> is_ws(#[trigger] s@[j]),
        decreases b,
    {
        b -= 1;
    }
    proof {
        let t = s@.skip(a as int);
        assert forall|j: int| t.len() - (n - b) <= j < t.len() implies is_ws(#[trigger] t[j]) by {
            assert(t[j] == s@[j + a]);
        }
        if b > a {
            assert(t[t.len() - (n - b) - 1] == s@[b - 1]);
        }
        lemma_trail_ws(t, (n - b) as int);
        assert(t.take(t.len() - (n - b)) =~= s@.subrange(a as int, b as int));
    }
    (a, b)
}

/// `trim` as a new vector.
pub fn trim_chars(s: &[char]) -> (r: Vec<char>)
    ensures
        r@ == trim(s@),
{
    let (a, b) = trim_bounds(s);
    sub_chars(s, a, b)
}

// ---------------------------------------------------------------------------
// Searching and prefixes
// ---------------------------------------------------------------------------

/// The number of leading characters different from `c`: the index of the first `c`,
/// or the length when there is none.
pub open spec fn span_not(s: Seq<char>, c: char) -> nat
    decreases s.len(),
{
    if s.len() > 0 && s[0] != c {
        1 + span_not(s.drop_first(), c)
    } else {
        0
    }
}

/// `span_not` is the index of the first `c` (or the length).
pub proof fn lemma_span_not(s: Seq<char>, c: char, i: int)
    requires
        0 <= i <= s.len(),
        forall|j: int| 0 <= j < i ==> #[trigger] s[j] != c,
        i == s.len() || s[i] == c,
    ensures
        span_not(s, c) == i,
    decreases i,
{
    if i > 0 {
        let t = s.drop_first();
        assert forall|j: int| 0 <= j < i - 1 implies #[trigger] t[j] != c by {
            assert(t[j] == s[j + 1]);
        }
        if i < s.len() {
            assert(t[i - 1] == s[i]);
        }
        lemma_span_not(t, c, i - 1);
    }
}

/// The index of the first `c` in `s`, or its length.
pub fn find_char(s: &[char], c: char) -> (i: usize)
    ensures
        i == span_not(s@, c),
        i <= s@.len(),
        i < s@.len() ==> s@[i as int] == c,
        forall|j: int| 0 <= j < i ==> #[trigger] s@[j] != c,
{
    let mut i: usize = 0;
    while i < s.len() && s[i] != c
        invariant
            i <= s@.len(),
            forall|j: int| 0 <= j < i ==> #[trigger] s@[j] != c,
        decreases s@.len() - i,
    {
        i += 1;
    }
    proof {
        lemma_span_not(s@, c, i as int);
    }
    i
}

/// Whether `s` contains `c`.
pub open spec fn has_char(s: Seq<char>, c: char) -> bool {
    exists|j: int| 0 <= j < s.len() && s[j] == c
}

/// `str::starts_with`.
pub open spec fn starts_with(s: Seq<char>, p: Seq<char>) -> bool {
    p.len() <= s.len() && s.take(p.len() as int) == p
}

/// Tests `starts_with`.
pub fn starts_with_chars(s: &[char], p: &[char]) -> (r: bool)
    ensures
        r == starts_with(s@, p@),
{
    if p.len() > s.len() {
        return false;
    }
    let mut i: usize = 0;
    while i < p.len()
        invariant
            p@.len() <= s@.len(),
            i <= p@.len(),
            forall|j: int| 0 <= j < i ==> s@[j] == p@[j],
        decreases p@.len() - i,
    {
        if s[i] != p[i] {
            assert(s@.take(p@.len() as int)[i as int] != p@[i as int]);
            return false;
        }
        i += 1;
    }
    assert(s@.take(p@.len() as int) =~= p@);
    true
}

/// Whether `needle` occurs in `s` at some position.
pub open spec fn contains_seq(s: Seq<char>, needle: Seq<char>) -> bool {
    exists|k: int| 0 <= k && k + needle.len() <= s.len() && #[trigger] s.subrange(k, k + needle.len()) == needle
}

/// Tests `contains_seq` (`str::contains`).
pub fn contains_chars(s: &[char], needle: &[char]) -> (r: bool)
    ensures
        r == contains_seq(s@, needle@),
{
    let n = s.len();
    let m = needle.len();
    if m > n {
        assert forall|k: int| 0 <= k && k + m <= n implies #[trigger] s@.subrange(k, k + m) != needle@ by {}
        return false;
    }
    let mut k: usize = 0;
    while k <= n - m
        invariant
            m <= n,
            n == s@.len(),
            m == needle@.len(),
            k <= n - m + 1,
            forall|q: int| 0 <= q < k ==> #[trigger] s@.subrange(q, q + m) != needle@,
        decreases n + 1 - k,
    {
        let mut i: usize = 0;
        let mut same = true;
        while i < m
            invariant
                k + m <= n,
                n == s@.len(),
                m == needle@.len(),
                i <= m,
                same == (forall|j: int| 0 <= j < i ==> s@[k + j] == needle@[j]),
            decreases m - i,
        {
            if s[k + i] != needle[i] {
                same = false;
            }
            i += 1;
        }
        if same {
            assert(s@.subrange(k as int, k + m) =~= needle@);
            return true;
        }
        proof {
            if s@.subrange(k as int, k + m) == needle@ {
                assert forall|j: int| 0 <= j < m implies s@[k + j] == needle@[j] by {
                    assert(s@.subrange(k as int, k + m)[j] == s@[k + j]);
                }
            }
        }
        k += 1;
    }
    false
}

// ---------------------------------------------------------------------------
// ASCII case folding (`str::eq_ignore_ascii_case`)
// ---------------------------------------------------------------------------

/// The code of `c` with ASCII upper case mapped to lower case.
pub open spec fn ascii_lower_code(c: char) -> u32 {
    if 65 <= c as u32 <= 90 {
        (c as u32 + 32) as u32
    } else {
        c as u32
    }
}

/// `str::eq_ignore_ascii_case`.
pub open spec fn eq_ignore_ascii_case(a: Seq<char>, b: Seq<char>) -> bool {
    a.len() == b.len() && forall|i: int| 0 <= i < a.len() ==> ascii_lower_code(#[trigger] a[i])
        == ascii_lower_code(b[i])
}

fn lower_code(c: char) -> (r: u32)
    ensures
        r == ascii_lower_code(c),
{
    let u = c as u32;
    if 65 <= u && u <= 90 {
        u + 32
    } else {
        u
    }
}

/// Tests `eq_ignore_ascii_case`.
pub fn eq_ignore_ascii_case_chars(a: &[char], b: &[char]) -> (r: bool)
    ensures
        r == eq_ignore_ascii_case(a@, b@),
{
    if a.len() != b.len() {
        return false;
    }
    let mut i: usize = 0;
    while i < a.len()
        invariant
            a@.len() == b@.len(),
            i <= a@.len(),
            forall|j: int| 0 <= j < i ==> ascii_lower_code(#[trigger] a@[j]) == ascii_lower_code(
                b@[j],
            ),
        decreases a@.len() - i,
    {
        if lower_code(a[i]) != lower_code(b[i]) {
            return false;
        }
        i += 1;
    }
    true
}


// ---------------------------------------------------------------------------
// Lines (`str::lines`)
// ---------------------------------------------------------------------------

/// `str::split(c)`: the pieces between occurrences of `c` (always at least one).
pub open spec fn split_on(s: Seq<char>, c: char) -> Seq<Seq<char>>
    decreases s.len(),
{
    if s.len() == 0 {
        seq![Seq::<char>::empty()]
    } else {
        let p = split_on(s.drop_last(), c);
        if s.last() == c {
            p.push(Seq::<char>::empty())
        } else {
            p.update(p.len() - 1, p.last().push(s.last()))
        }
    }
}

pub proof fn lemma_split_on_len(s: Seq<char>, c: char)
    ensures
        split_on(s, c).len() >= 1,
    decreases s.len(),
{
    if s.len() > 0 {
        lemma_split_on_len(s.drop_last(), c);
    }
}

/// The pieces of `s` between occurrences of `c` (`str::split`).
pub fn split_chars(s: &[char], c: char) -> (r: Vec<Vec<char>>)
    ensures
        r@.len() == split_on(s@, c).len(),
        forall|j: int| 0 <= j < r@.len() ==> (#[trigger] r@[j])@ == split_on(s@, c)[j],
{
    let mut pieces: Vec<Vec<char>> = Vec::new();
    let mut cur: Vec<char> = Vec::new();
    let mut i: usize = 0;
    proof {
        assert(s@.take(0) =~= Seq::<char>::empty());
    }
    while i < s.len()
        invariant
            i <= s@.len(),
            split_on(s@.take(i as int), c).len() == pieces@.len() + 1,
            forall|j: int|
                0 <= j < pieces@.len() ==> (#[trigger] pieces@[j])@ == split_on(
                    s@.take(i as int),
                    c,
                )[j],
            cur@ == split_on(s@.take(i as int), c).last(),
        decreases s@.len() - i,
    {
        proof {
            assert(s@.take(i + 1).drop_last() =~= s@.take(i as int));
        }
        if s[i] == c {
            pieces.push(cur);
            cur = Vec::new();
        } else {
            cur.push(s[i]);
        }
        i += 1;
    }
    proof {
        assert(s@.take(s@.len() as int) =~= s@);
    }
    pieces.push(cur);
    pieces
}

/// A line's carriage return before its newline is not part of the line.
pub open spec fn strip_cr(l: Seq<char>) -> Seq<char> {
    if l.len() > 0 && l.last() == '\r' {
        l.drop_last()
    } else {
        l
    }
}

/// `str::lines`: every piece that a newline ends loses one trailing `'\r'`; the piece after
/// the last newline is a line only when it is not empty (and keeps any `'\r'`).
pub open spec fn lines(s: Seq<char>) -> Seq<Seq<char>> {
    let p = split_on(s, '\n');
    let body = Seq::new((p.len() - 1) as nat, |j: int| strip_cr(p[j]));
    if p.last().len() == 0 {
        body
    } else {
        body.push(p.last())
    }
}

/// The lines of `s` (`str::lines`).
pub fn lines_of(s: &[char]) -> (r: Vec<Vec<char>>)
    ensures
        r@.len() == lines(s@).len(),
        forall|j: int| 0 <= j < r@.len() ==> (#[trigger] r@[j])@ == lines(s@)[j],
{
    let mut pieces: Vec<Vec<char>> = Vec::new();
    let mut cur: Vec<char> = Vec::new();
    let mut i: usize = 0;
    proof {
        assert(s@.take(0) =~= Seq::<char>::empty());
    }
    while i < s.len()
        invariant
            i <= s@.len(),
            split_on(s@.take(i as int), '\n').len() == pieces@.len() + 1,
            forall|j: int|
                0 <= j < pieces@.len() ==> (#[trigger] pieces@[j])@ == strip_cr(
                    split_on(s@.take(i as int), '\n')[j],
                ),
            cur@ == split_on(s@.take(i as int), '\n').last(),
        decreases s@.len() - i,
    {
        proof {
            assert(s@.take(i + 1).drop_last() =~= s@.take(i as int));
        }
        if s[i] == '\n' {
            let n = cur.len();
            let line = if n > 0 && cur[n - 1] == '\r' {
                sub_chars(cur.as_slice(), 0, n - 1)
            } else {
                cur
            };
            proof {
                if n > 0 && cur@[n - 1] == '\r' {
                    assert(cur@.subrange(0, n - 1) =~= cur@.drop_last());
                }
            }
            pieces.push(line);
            cur = Vec::new();
        } else {
            cur.push(s[i]);
        }
        i += 1;
    }
    let ghost p = split_on(s@, '\n');
    proof {
        assert(s@.take(s@.len() as int) =~= s@);
    }
    if cur.len() > 0 {
        pieces.push(cur);
    }
    proof {
        let body = Seq::new((p.len() - 1) as nat, |j: int| strip_cr(p[j]));
        assert forall|j: int| 0 <= j < pieces@.len() implies (#[trigger] pieces@[j])@ == lines(
            s@,
        )[j] by {
            if j < body.len() {
                assert(body[j] == strip_cr(p[j]));
            }
        }
    }
    pieces
}

// ---------------------------------------------------------------------------
// Decimal numbers (`str::parse`, `{}` formatting)
// ---------------------------------------------------------------------------

pub open spec fn is_digit(c: char) -> bool {
    48 <= c as u32 <= 57
}

pub open spec fn digit_value(c: char) -> int {
    c as u32 - 48
}

pub open spec fn all_digits(s: Seq<char>) -> bool {
    forall|i: int| 0 <= i < s.len() ==> is_digit(#[trigger] s[i])
}

/// The value of a string of decimal digits.
pub open spec fn digits_value(s: Seq<char>) -> int
    decreases s.len(),
{
    if s.len() == 0 {
        0
    } else {
        digits_value(s.drop_last()) * 10 + digit_value(s.last())
    }
}

pub proof fn lemma_digits_value_nonneg(s: Seq<char>)
    requires
        all_digits(s),
    ensures
        digits_value(s) >= 0,
    decreases s.len(),
{
    if s.len() > 0 {
        lemma_digits_value_nonneg(s.drop_last());
    }
}

/// The text of a signed integer as `i32::from_str` reads it: an optional `+` or `-`, then
/// one or more decimal digits.
pub open spec fn signed_text_value(s: Seq<char>) -> Option<int> {
    if s.len() > 0 && (s[0] == '+' || s[0] == '-') {
        let d = s.drop_first();
        if d.len() > 0 && all_digits(d) {
            Some(
                if s[0] == '-' {
                    -digits_value(d)
                } else {
                    digits_value(d)
                },
            )
        } else {
            None
        }
    } else if s.len() > 0 && all_digits(s) {
        Some(digits_value(s))
    } else {
        None
    }
}

/// The text of an unsigned integer as `usize::from_str` reads it: an optional `+`, then one
/// or more decimal digits.
pub open spec fn unsigned_text_value(s: Seq<char>) -> Option<int> {
    if s.len() > 0 && s[0] == '+' {
        let d = s.drop_first();
        if d.len() > 0 && all_digits(d) {
            Some(digits_value(d))
        } else {
            None
        }
    } else if s.len() > 0 && all_digits(s) {
        Some(digits_value(s))
    } else {
        None
    }
}

/// `s.parse::<i32>().ok()`.
pub open spec fn parse_i32(s: Seq<char>) -> Option<i32> {
    match signed_text_value(s) {
        Some(v) => if i32::MIN <= v <= i32::MAX {
            Some(v as i32)
        } else {
            None
        },
        None => None,
    }
}

/// `s.parse::<usize>().ok()`.
pub open spec fn parse_usize(s: Seq<char>) -> Option<usize> {
    match unsigned_text_value(s) {
        Some(v) => if v <= usize::MAX {
            Some(v as usize)
        } else {
            None
        },
        None => None,
    }
}

/// The value of a digit string, capped at `cap`; `None` when `d` is empty or holds a
/// non-digit.
fn digits_capped(d: &[char], lo: usize, cap: u128) -> (r: Option<u128>)
    requires
        lo <= d@.len(),
        cap <= 0x1_0000_0000_0000_0000_0000,
    ensures
        r is Some <==> (lo < d@.len() && all_digits(d@.skip(lo as int))),
        r matches Some(v) ==> v as int == if digits_value(d@.skip(lo as int)) < cap {
            digits_value(d@.skip(lo as int))
        } else {
            cap as int
        },
{
    if lo >= d.len() {
        return None;
    }
    let ghost t = d@.skip(lo as int);
    let mut acc: u128 = 0;
    let mut i: usize = lo;
    while i < d.len()
        invariant
            lo <= i <= d@.len(),
            t == d@.skip(lo as int),
            cap <= 0x1_0000_0000_0000_0000_0000,
            all_digits(t.take(i - lo)),
            acc <= cap,
            acc as int == if digits_value(t.take(i - lo)) < cap {
                digits_value(t.take(i - lo))
            } else {
                cap as int
            },
        decreases d@.len() - i,
    {
        let c = d[i];
        let u = c as u32;
        if !(48 <= u && u <= 57) {
            assert(t[i - lo] == c);
            return None;
        }
        let ghost pre = t.take(i - lo);
        proof {
            assert(t.take(i + 1 - lo).drop_last() =~= pre);
            assert(t.take(i + 1 - lo).last() == c);
            lemma_digits_value_nonneg(pre);
        }
        let next = acc * 10 + (u - 48) as u128;
        acc = if next < cap {
            next
        } else {
            cap
        };
        i += 1;
        proof {
            assert forall|j: int| 0 <= j < i - lo implies is_digit(#[trigger] t.take(i - lo)[j]) by {
                if j < i - 1 - lo {
                    assert(t.take(i - lo)[j] == pre[j]);
                }
            }
        }
    }
    proof {
        assert(t.take(d@.len() - lo) =~= t);
    }
    Some(acc)
}

/// `s.parse::<i32>().ok()`.
pub fn parse_i32_chars(s: &[char]) -> (r: Option<i32>)
    ensures
        r == parse_i32(s@),
{
    if s.len() == 0 {
        return None;
    }
    let neg = s[0] == '-';
    let signed = s[0] == '+' || neg;
    let lo: usize = if signed {
        1
    } else {
        0
    };
    let cap: u128 = 0x1_0000_0000;
    proof {
        assert(s@.skip(0) =~= s@);
        assert(s@.skip(1) =~= s@.drop_first());
    }
    match digits_capped(s, lo, cap) {
        None => None,
        Some(v) => {
            if neg {
                if v <= 0x8000_0000 {
                    Some((0 - (v as i64)) as i32)
                } else {
                    None
                }
            } else {
                if v <= 0x7fff_ffff {
                    Some(v as i32)
                } else {
                    None
                }
            }
        },
    }
}

/// `s.parse::<usize>().ok()`.
pub fn parse_usize_chars(s: &[char]) -> (r: Option<usize>)
    ensures
        r == parse_usize(s@),
{
    if s.len() == 0 {
        return None;
    }
    let lo: usize = if s[0] == '+' {
        1
    } else {
        0
    };
    let cap: u128 = usize::MAX as u128 + 1;
    proof {
        assert(s@.skip(0) =~= s@);
        assert(s@.skip(1) =~= s@.drop_first());
    }
    match digits_capped(s, lo, cap) {
        None => None,
        Some(v) => {
            if v <= usize::MAX as u128 {
                Some(v as usize)
            } else {
                None
            }
        },
    }
}

/// The decimal digit character for `d < 10`.
pub open spec fn digit_char(d: int) -> char {
    (d + 48) as char
}

/// `n` written in decimal, without leading zeros.
pub open spec fn decimal(n: nat) -> Seq<char>
    decreases n,
{
    if n < 10 {
        seq![digit_char(n as int)]
    } else {
        decimal(n / 10).push(digit_char((n % 10) as int))
    }
}

/// `v` written in decimal, with a `-` when negative (`{}` formatting of an integer).
pub open spec fn signed_decimal(v: int) -> Seq<char> {
    if v < 0 {
        seq!['-'] + decimal((-v) as nat)
    } else {
        decimal(v as nat)
    }
}

/// `s` preceded by zeros up to width `w` (`{:0w}` formatting).
pub open spec fn zero_pad(s: Seq<char>, w: nat) -> Seq<char> {
    if s.len() < w {
        Seq::new((w - s.len()) as nat, |i: int| '0') + s
    } else {
        s
    }
}

/// `s` followed by spaces up to width `w` (`{:<w}` formatting).
pub open spec fn pad_right(s: Seq<char>, w: nat) -> Seq<char> {
    if s.len() < w {
        s + Seq::new((w - s.len()) as nat, |i: int| ' ')
    } else {
        s
    }
}

fn digit_to_char(d: u64) -> (c: char)
    requires
        d < 10,
    ensures
        c == digit_char(d as int),
{
    let b: u8 = 48u8 + d as u8;
    b as char
}

/// Appends `n` in decimal.
pub fn push_decimal(out: &mut Vec<char>, n: u64)
    ensures
        final(out)@ == old(out)@ + decimal(n as nat),
    decreases n,
{
    if n < 10 {
        out.push(digit_to_char(n));
        assert(decimal(n as nat) =~= seq![digit_char(n as int)]);
    } else {
        push_decimal(out, n / 10);
        out.push(digit_to_char(n % 10));
        assert(final(out)@ =~= old(out)@ + decimal(n as nat));
    }
}

/// Appends `v` in decimal with its sign.
pub fn push_signed_decimal(out: &mut Vec<char>, v: i64)
    ensures
        final(out)@ == old(out)@ + signed_decimal(v as int),
{
    if v < 0 {
        out.push('-');
        let m: u64 = if v == i64::MIN {
            0x8000_0000_0000_0000
        } else {
            (0 - v) as u64
        };
        push_decimal(out, m);
        assert(final(out)@ =~= old(out)@ + signed_decimal(v as int));
    } else {
        push_decimal(out, v as u64);
    }
}

/// Appends `n` in decimal, padded with leading zeros to width `w`.
pub fn push_zero_padded(out: &mut Vec<char>, n: u64, w: usize)
    ensures
        final(out)@ == old(out)@ + zero_pad(decimal(n as nat), w as nat),
{
    let mut digits: Vec<char> = Vec::new();
    push_decimal(&mut digits, n);
    assert(digits@ =~= decimal(n as nat));
    let ghost o = out@;
    if digits.len() < w {
        let mut k: usize = digits.len();
        while k < w
            invariant
                digits@.len() <= k <= w,
                out@ == o + Seq::new((k - digits@.len()) as nat, |i: int| '0'),
            decreases w - k,
        {
            out.push('0');
            k += 1;
            assert(out@ =~= o + Seq::new((k - digits@.len()) as nat, |i: int| '0'));
        }
    }
    push_all(out, digits.as_slice());
    assert(final(out)@ =~= old(out)@ + zero_pad(decimal(n as nat), w as nat));
}

/// Appends `s` padded with trailing spaces to width `w`.
pub fn push_padded_right(out: &mut Vec<char>, s: &[char], w: usize)
    ensures
        final(out)@ == old(out)@ + pad_right(s@, w as nat),
{
    let ghost o = out@;
    push_all(out, s);
    let mut k: usize = s.len();
    while k < w
        invariant
            s@.len() <= k,
            k <= w || k == s@.len(),
            out@ == o + s@ + Seq::new((k - s@.len()) as nat, |i: int| ' '),
        decreases w - k,
    {
        out.push(' ');
        k += 1;
        assert(out@ =~= o + s@ + Seq::new((k - s@.len()) as nat, |i: int| ' '));
    }
    assert(final(out)@ =~= old(out)@ + pad_right(s@, w as nat));
}


// ---------------------------------------------------------------------------
// Facts about trimming and splitting
// ---------------------------------------------------------------------------

/// What `lead_ws` counts: whitespace before it, a non-whitespace character at it (if any).
pub proof fn lemma_lead_ws_props(s: Seq<char>)
    ensures
        lead_ws(s) <= s.len(),
        forall|j: int| 0 <= j < lead_ws(s) ==> is_ws(#[trigger] s[j]),
        lead_ws(s) < s.len() ==> !is_ws(s[lead_ws(s) as int]),
    decreases s.len(),
{
    if s.len() > 0 && is_ws(s[0]) {
        let t = s.drop_first();
        lemma_lead_ws_props(t);
        assert forall|j: int| 0 <= j < lead_ws(s) implies is_ws(#[trigger] s[j]) by {
            if j > 0 {
                assert(s[j] == t[j - 1]);
            }
        }
        if lead_ws(s) < s.len() {
            assert(s[lead_ws(s) as int] == t[lead_ws(t) as int]);
        }
    }
}

/// What `trail_ws` counts: whitespace after `len - trail_ws`, a non-whitespace character
/// just before (if any).
pub proof fn lemma_trail_ws_props(s: Seq<char>)
    ensures
        trail_ws(s) <= s.len(),
        forall|j: int| s.len() - trail_ws(s) <= j < s.len() ==> is_ws(#[trigger] s[j]),
        trail_ws(s) < s.len() ==> !is_ws(s[s.len() - trail_ws(s) - 1]),
    decreases s.len(),
{
    if s.len() > 0 && is_ws(s.last()) {
        let t = s.drop_last();
        lemma_trail_ws_props(t);
        assert forall|j: int| s.len() - trail_ws(s) <= j < s.len() implies is_ws(#[trigger] s[j]) by {
            if j < s.len() - 1 {
                assert(s[j] == t[j]);
            }
        }
        if trail_ws(s) < s.len() {
            assert(s[s.len() - trail_ws(s) - 1] == t[t.len() - trail_ws(t) - 1]);
        }
    }
}

/// `trim(s)` is `s[a..b]` when only whitespace lies outside `[a, b)` and, unless the range
/// is empty, it starts and ends with non-whitespace.
pub proof fn lemma_trim_is(s: Seq<char>, a: int, b: int)
    requires
        0 <= a <= b <= s.len(),
        forall|j: int| 0 <= j < a ==> is_ws(#[trigger] s[j]),
        forall|j: int| b <= j < s.len() ==> is_ws(#[trigger] s[j]),
        a < b ==> !is_ws(s[a]) && !is_ws(s[b - 1]),
    ensures
        trim(s) == s.subrange(a, b),
{
    if a < b {
        lemma_lead_ws(s, a);
        let t = s.skip(a);
        let k = s.len() - b;
        assert forall|j: int| t.len() - k <= j < t.len() implies is_ws(#[trigger] t[j]) by {
            assert(t[j] == s[j + a]);
        }
        assert(t[t.len() - k - 1] == s[b - 1]);
        lemma_trail_ws(t, k);
        assert(t.take(t.len() - k) =~= s.subrange(a, b));
    } else {
        assert forall|j: int| 0 <= j < s.len() implies is_ws(#[trigger] s[j]) by {
            if j >= a {
                assert(b <= j);
            }
        }
        lemma_lead_ws(s, s.len() as int);
        let t = s.skip(s.len() as int);
        assert(t.len() == 0);
        assert(trail_ws(t) == 0);
        assert(trim(s) =~= s.subrange(a, b));
    }
}

/// Dropping trailing whitespace does not change the trimmed text.
pub proof fn lemma_trim_drop_last_ws(s: Seq<char>)
    requires
        s.len() > 0,
        is_ws(s.last()),
    ensures
        trim(s.drop_last()) == trim(s),
{
    let n = s.len() as int;
    let d = s.drop_last();
    lemma_lead_ws_props(s);
    lemma_trail_ws_props(s);
    let a = lead_ws(s) as int;
    let k = trail_ws(s) as int;
    if a == n {
        lemma_trim_is(s, n, n);
        assert forall|j: int| 0 <= j < n - 1 implies is_ws(#[trigger] d[j]) by {
            assert(d[j] == s[j]);
        }
        lemma_trim_is(d, n - 1, n - 1);
        assert(s.subrange(n, n) =~= d.subrange(n - 1, n - 1));
    } else {
        let b = n - k;
        assert(k >= 1) by {
            if k == 0 {
                assert(!is_ws(s[n - 1]));
            }
        }
        assert(b > a) by {
            if b <= a {
                assert(is_ws(s[a]));
            }
        }
        lemma_trim_is(s, a, b);
        assert forall|j: int| 0 <= j < a implies is_ws(#[trigger] d[j]) by {
            assert(d[j] == s[j]);
        }
        assert forall|j: int| b <= j < n - 1 implies is_ws(#[trigger] d[j]) by {
            assert(d[j] == s[j]);
        }
        assert(d[a] == s[a]);
        assert(d[b - 1] == s[b - 1]);
        lemma_trim_is(d, a, b);
        assert(s.subrange(a, b) =~= d.subrange(a, b));
    }
}

/// `strip_cr` does not change the trimmed text.
pub proof fn lemma_trim_strip_cr(l: Seq<char>)
    ensures
        trim(strip_cr(l)) == trim(l),
{
    if l.len() > 0 && l.last() == '\r' {
        lemma_trim_drop_last_ws(l);
    }
}

/// Appending text without `c` extends the last piece.
pub proof fn lemma_split_on_append_free(x: Seq<char>, r: Seq<char>, c: char)
    requires
        forall|i: int| 0 <= i < r.len() ==> #[trigger] r[i] != c,
    ensures
        split_on(x + r, c) == split_on(x, c).update(
            split_on(x, c).len() - 1,
            split_on(x, c).last() + r,
        ),
    decreases r.len(),
{
    lemma_split_on_len(x, c);
    let p = split_on(x, c);
    if r.len() == 0 {
        assert(x + r =~= x);
        assert(p.last() + r =~= p.last());
        assert(p.update(p.len() - 1, p.last() + r) =~= p);
    } else {
        let r2 = r.drop_last();
        assert forall|i: int| 0 <= i < r2.len() implies #[trigger] r2[i] != c by {
            assert(r2[i] == r[i]);
        }
        lemma_split_on_append_free(x, r2, c);
        assert((x + r).drop_last() =~= x + r2);
        assert((x + r).last() == r.last());
        let q = split_on(x + r2, c);
        assert(q.len() == p.len());
        assert(q.last() == p.last() + r2);
        assert(q.last().push(r.last()) =~= p.last() + r);
        assert(split_on(x + r, c) =~= p.update(p.len() - 1, p.last() + r));
    }
}

/// Pieces, each followed by a newline.
pub open spec fn join_nl(ps: Seq<Seq<char>>) -> Seq<char>
    decreases ps.len(),
{
    if ps.len() == 0 {
        Seq::empty()
    } else {
        join_nl(ps.drop_last()) + ps.last() + seq!['\n']
    }
}

/// One more piece adds it and a newline at the end.
pub proof fn lemma_join_nl_push(ps: Seq<Seq<char>>, x: Seq<char>)
    ensures
        join_nl(ps.push(x)) == join_nl(ps) + x + seq!['\n'],
{
    assert(ps.push(x).drop_last() =~= ps);
}

/// Newline-free pieces each followed by a newline split back into the pieces (and an empty
/// rest).
pub proof fn lemma_split_join_nl(ps: Seq<Seq<char>>)
    requires
        forall|j: int| 0 <= j < ps.len() ==> !has_char(#[trigger] ps[j], '\n'),
    ensures
        split_on(join_nl(ps), '\n') == ps.push(Seq::<char>::empty()),
    decreases ps.len(),
{
    if ps.len() == 0 {
        assert(split_on(join_nl(ps), '\n') =~= ps.push(Seq::<char>::empty()));
    } else {
        let q = ps.drop_last();
        assert forall|j: int| 0 <= j < q.len() implies !has_char(#[trigger] q[j], '\n') by {
            assert(q[j] == ps[j]);
        }
        lemma_split_join_nl(q);
        let x = join_nl(q);
        let r = ps.last();
        assert(!has_char(ps[ps.len() - 1], '\n'));
        assert forall|i: int| 0 <= i < r.len() implies #[trigger] r[i] != '\n' by {
            if r[i] == '\n' {
                assert(has_char(r, '\n'));
            }
        }
        lemma_split_on_append_free(x, r, '\n');
        let y = x + r;
        assert(join_nl(ps) =~= y.push('\n'));
        assert(y.push('\n').drop_last() =~= y);
        lemma_split_on_len(y, '\n');
        assert(Seq::<char>::empty() + r =~= r);
        assert(split_on(y, '\n') =~= ps);
        assert(split_on(join_nl(ps), '\n') =~= ps.push(Seq::<char>::empty()));
    }
}

/// The lines of newline-ended, newline-free pieces are the pieces (each losing a final
/// `'\r'`).
pub proof fn lemma_lines_join_nl(ps: Seq<Seq<char>>)
    requires
        forall|j: int| 0 <= j < ps.len() ==> !has_char(#[trigger] ps[j], '\n'),
    ensures
        lines(join_nl(ps)) == Seq::new(ps.len(), |j: int| strip_cr(ps[j])),
{
    lemma_split_join_nl(ps);
    let p = ps.push(Seq::<char>::empty());
    assert(p.last().len() == 0);
    assert(lines(join_nl(ps)) =~= Seq::new(ps.len(), |j: int| strip_cr(ps[j]))) by {
        assert forall|j: int| 0 <= j < ps.len() implies p[j] == ps[j] by {}
    }
}

/// No piece of `split_on(s, c)` contains `c`.
pub proof fn lemma_split_on_free(s: Seq<char>, c: char)
    ensures
        forall|j: int| 0 <= j < split_on(s, c).len() ==> !has_char(#[trigger] split_on(s, c)[j], c),
    decreases s.len(),
{
    lemma_split_on_len(s, c);
    if s.len() > 0 {
        let t = s.drop_last();
        lemma_split_on_free(t, c);
        lemma_split_on_len(t, c);
        let p = split_on(t, c);
        if s.last() != c {
            let l2 = p.last().push(s.last());
            assert(!has_char(p[p.len() - 1], c));
            assert(!has_char(l2, c)) by {
                if has_char(l2, c) {
                    let i = choose|i: int| 0 <= i < l2.len() && l2[i] == c;
                    assert(i < p.last().len());
                    assert(l2[i] == p.last()[i]);
                }
            }
            assert forall|j: int| 0 <= j < split_on(s, c).len() implies !has_char(#[trigger] split_on(s, c)[j], c) by {
                if j < p.len() - 1 {
                    assert(split_on(s, c)[j] == p[j]);
                }
            }
        } else {
            assert forall|j: int| 0 <= j < split_on(s, c).len() implies !has_char(#[trigger] split_on(s, c)[j], c) by {
                if j < p.len() {
                    assert(split_on(s, c)[j] == p[j]);
                } else {
                    assert(split_on(s, c)[j].len() == 0);
                }
            }
        }
    }
}

/// No line contains a newline.
pub proof fn lemma_lines_free(s: Seq<char>)
    ensures
        forall|j: int| 0 <= j < lines(s).len() ==> !has_char(#[trigger] lines(s)[j], '\n'),
{
    lemma_split_on_free(s, '\n');
    lemma_split_on_len(s, '\n');
    let p = split_on(s, '\n');
    assert forall|j: int| 0 <= j < lines(s).len() implies !has_char(#[trigger] lines(s)[j], '\n') by {
        assert(!has_char(p[j], '\n'));
        if j < p.len() - 1 {
            let l = p[j];
            assert(lines(s)[j] == strip_cr(l));
            if has_char(strip_cr(l), '\n') {
                let i = choose|i: int| 0 <= i < strip_cr(l).len() && strip_cr(l)[i] == '\n';
                assert(strip_cr(l)[i] == l[i]);
            }
        } else {
            assert(lines(s)[j] == p.last());
        }
    }
}

/// A decimal numeral is all digits, at least one, and reads back as its number; small
/// numbers have few digits.
pub proof fn lemma_decimal_digits(n: nat)
    ensures
        all_digits(decimal(n)),
        digits_value(decimal(n)) == n,
        decimal(n).len() >= 1,
        n < 10 ==> decimal(n).len() == 1,
        n < 100 ==> decimal(n).len() <= 2,
        n < 1000 ==> decimal(n).len() <= 3,
    decreases n,
{
    let d = decimal(n);
    if n < 10 {
        assert(d.drop_last() =~= Seq::<char>::empty());
        assert((digit_char(n as int) as u32) == n + 48);
        assert(digits_value(Seq::<char>::empty()) == 0);
        assert(d.last() == digit_char(n as int));
        assert(digit_value(d.last()) == n);
    } else {
        lemma_decimal_digits(n / 10);
        assert(d.drop_last() =~= decimal(n / 10));
        assert((digit_char((n % 10) as int) as u32) == n % 10 + 48);
        assert(d.last() == digit_char((n % 10) as int));
        assert(digit_value(d.last()) == n % 10);
        assert((n / 10) * 10 + n % 10 == n) by (nonlinear_arith);
        assert forall|i: int| 0 <= i < d.len() implies is_digit(#[trigger] d[i]) by {
            if i < d.len() - 1 {
                assert(d[i] == decimal(n / 10)[i]);
            }
        }
    }
}

/// Leading zeros do not change the value of a digit string.
pub proof fn lemma_leading_zeros(z: Seq<char>, s: Seq<char>)
    requires
        forall|i: int| 0 <= i < z.len() ==> #[trigger] z[i] == '0',
        all_digits(s),
    ensures
        all_digits(z + s),
        digits_value(z + s) == digits_value(s),
    decreases z.len() + s.len(),
{
    let zs = z + s;
    assert forall|i: int| 0 <= i < zs.len() implies is_digit(#[trigger] zs[i]) by {
        if i < z.len() {
            assert(zs[i] == z[i]);
        } else {
            assert(zs[i] == s[i - z.len()]);
        }
    }
    if s.len() == 0 {
        if z.len() > 0 {
            let z2 = z.drop_last();
            lemma_leading_zeros(z2, s);
            assert(zs.drop_last() =~= z2 + s);
            assert(zs.last() == '0');
        } else {
            assert(zs =~= Seq::<char>::empty());
        }
    } else {
        let s2 = s.drop_last();
        assert forall|i: int| 0 <= i < s2.len() implies is_digit(#[trigger] s2[i]) by {
            assert(s2[i] == s[i]);
        }
        lemma_leading_zeros(z, s2);
        assert(zs.drop_last() =~= z + s2);
        assert(zs.last() == s.last());
    }
}

/// Zero padding keeps the digits' value and gives at least the width.
pub proof fn lemma_zero_pad_digits(s: Seq<char>, w: nat)
    requires
        all_digits(s),
    ensures
        all_digits(zero_pad(s, w)),
        digits_value(zero_pad(s, w)) == digits_value(s),
        zero_pad(s, w).len() == if s.len() < w {
            w as int
        } else {
            s.len() as int
        },
{
    if s.len() < w {
        let z = Seq::new((w - s.len()) as nat, |i: int| '0');
        lemma_leading_zeros(z, s);
    }
}

} // verus!
