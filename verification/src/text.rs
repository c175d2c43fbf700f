//! Character-level text helpers: trimming, splitting, decimal numbers and
//! string assembly, each stated over `Seq<char>`.
use vstd::prelude::*;
use vstd::string::*;

verus! {

// ───────────────────────────── conversions ─────────────────────────────

/// The characters of `s`, in order.
pub fn chars_of(s: &str) -> (r: Vec<char>)
    ensures
        r@ == s@,
{
    let n = s.unicode_len();
    let mut r: Vec<char> = Vec::new();
    let mut i: usize = 0;
    while i < n
        invariant
            n == s@.len(),
            i <= n,
            r@ == s@.subrange(0, i as int),
        decreases n - i,
    {
        let c = s.get_char(i);
        r.push(c);
        i = i + 1;
        assert(r@ =~= s@.subrange(0, i as int));
    }
    assert(r@ =~= s@);
    r
}

/// Collects characters into a `String` (std's `FromIterator<char>`).
#[verifier::external_body]
pub(crate) fn string_from_chars(v: &Vec<char>) -> (r: String)
    ensures
        r@ == v@,
{
    v.iter().collect()
}

/// Appends the characters of `s` to `v`.
pub fn push_str(v: &mut Vec<char>, s: &str)
    ensures
        final(v)@ == old(v)@ + s@,
{
    let cs = chars_of(s);
    push_chars(v, &cs);
}

/// Appends the characters of `w` to `v`.
pub fn push_chars(v: &mut Vec<char>, w: &Vec<char>)
    ensures
        final(v)@ == old(v)@ + w@,
{
    let ghost start = v@;
    let mut i: usize = 0;
    while i < w.len()
        invariant
            i <= w.len(),
            v@ == start + w@.subrange(0, i as int),
        decreases w.len() - i,
    {
        v.push(w[i]);
        i = i + 1;
        assert(v@ =~= start + w@.subrange(0, i as int));
    }
    assert(w@.subrange(0, w@.len() as int) =~= w@);
}

/// `a` followed by `b`, as a new `String`.
pub fn concat2(a: &str, b: &str) -> (r: String)
    ensures
        r@ == a@ + b@,
{
    let mut v = chars_of(a);
    push_str(&mut v, b);
    string_from_chars(&v)
}

/// A fresh copy of `s`.
pub fn copy_string(s: &String) -> (r: String)
    ensures
        r@ == s@,
{
    s.clone()
}

/// Whether two strings hold the same characters.
pub fn str_eq(a: &str, b: &str) -> (r: bool)
    ensures
        r == (a@ == b@),
{
    let x = chars_of(a);
    let y = chars_of(b);
    seq_eq(&x, &y)
}

/// Whether two character vectors are equal.
pub fn seq_eq(x: &Vec<char>, y: &Vec<char>) -> (r: bool)
    ensures
        r == (x@ == y@),
{
    if x.len() != y.len() {
        return false;
    }
    let mut i: usize = 0;
    while i < x.len()
        invariant
            x.len() == y.len(),
            i <= x.len(),
            forall|j: int| 0 <= j < i ==> x@[j] == y@[j],
        decreases x.len() - i,
    {
        if x[i] != y[i] {
            return false;
        }
        i = i + 1;
    }
    assert(x@ =~= y@);
    true
}

// ───────────────────────────── prefixes and substrings ─────────────────────────────

/// Whether `p` is a prefix of `s`.
pub open spec fn has_prefix(s: Seq<char>, p: Seq<char>) -> bool {
    p.len() <= s.len() && s.subrange(0, p.len() as int) == p
}

/// Whether `p` is a suffix of `s`.
pub open spec fn has_suffix(s: Seq<char>, p: Seq<char>) -> bool {
    p.len() <= s.len() && s.subrange(s.len() - p.len(), s.len() as int) == p
}

/// Whether `p` occurs in `s` at position `i`.
pub open spec fn occurs_at(s: Seq<char>, p: Seq<char>, i: int) -> bool {
    0 <= i && i + p.len() <= s.len() && s.subrange(i, i + p.len()) == p
}

/// Whether `p` occurs anywhere in `s`.
pub open spec fn contains_text(s: Seq<char>, p: Seq<char>) -> bool {
    exists|i: int| occurs_at(s, p, i)
}

/// Whether `p` occurs in `s` at position `i` (checked character by character).
pub fn matches_at(s: &Vec<char>, p: &Vec<char>, i: usize) -> (r: bool)
    ensures
        r == occurs_at(s@, p@, i as int),
{
    if i > s.len() || p.len() > s.len() - i {
        return false;
    }
    let mut k: usize = 0;
    while k < p.len()
        invariant
            i + p.len() <= s.len(),
            k <= p.len(),
            forall|j: int| 0 <= j < k ==> s@[i + j] == p@[j],
        decreases p.len() - k,
    {
        if s[i + k] != p[k] {
            assert(s@.subrange(i as int, i + p.len())[k as int] != p@[k as int]);
            return false;
        }
        k = k + 1;
    }
    assert(s@.subrange(i as int, i + p.len()) =~= p@);
    true
}

/// Whether `s` starts with `p`.
pub fn starts_with(s: &str, p: &str) -> (r: bool)
    ensures
        r == has_prefix(s@, p@),
{
    let x = chars_of(s);
    let y = chars_of(p);
    matches_at(&x, &y, 0)
}

/// Whether `s` ends with `p`.
pub fn ends_with(s: &str, p: &str) -> (r: bool)
    ensures
        r == has_suffix(s@, p@),
{
    let x = chars_of(s);
    let y = chars_of(p);
    if y.len() > x.len() {
        return false;
    }
    matches_at(&x, &y, x.len() - y.len())
}

/// Whether `p` occurs in `s`.
pub fn contains(s: &str, p: &str) -> (r: bool)
    ensures
        r == contains_text(s@, p@),
{
    let x = chars_of(s);
    let y = chars_of(p);
    if y.len() > x.len() {
        assert forall|i: int| !occurs_at(x@, y@, i) by {}
        return false;
    }
    let last = x.len() - y.len();
    let mut i: usize = 0;
    while i < last
        invariant
            last == x.len() - y.len(),
            x@ == s@,
            y@ == p@,
            i <= last,
            forall|j: int| 0 <= j < i ==> !occurs_at(x@, y@, j),
        decreases last - i,
    {
        if matches_at(&x, &y, i) {
            assert(occurs_at(x@, y@, i as int));
            return true;
        }
        i = i + 1;
    }
    if matches_at(&x, &y, last) {
        assert(occurs_at(x@, y@, last as int));
        return true;
    }
    assert forall|j: int| !occurs_at(x@, y@, j) by {
        if 0 <= j && j <= last {
        }
    }
    false
}

/// The characters of `s` from position `start` to the end.
pub fn suffix_from(s: &str, start: usize) -> (r: String)
    requires
        start <= s@.len(),
    ensures
        r@ == s@.subrange(start as int, s@.len() as int),
{
    let x = chars_of(s);
    let mut v: Vec<char> = Vec::new();
    let mut i = start;
    while i < x.len()
        invariant
            start <= i <= x.len(),
            v@ == x@.subrange(start as int, i as int),
        decreases x.len() - i,
    {
        v.push(x[i]);
        i = i + 1;
        assert(v@ =~= x@.subrange(start as int, i as int));
    }
    string_from_chars(&v)
}

// ───────────────────────────── whitespace and trimming ─────────────────────────────

/// Unicode `White_Space`, the property that `char::is_whitespace` tests.
pub open spec fn is_ws(c: char) -> bool {
    ||| ('\u{9}' <= c && c <= '\u{d}')
    ||| c == ' '
    ||| c == '\u{85}'
    ||| c == '\u{a0}'
    ||| c == '\u{1680}'
    ||| ('\u{2000}' <= c && c <= '\u{200a}')
    ||| c == '\u{2028}'
    ||| c == '\u{2029}'
    ||| c == '\u{202f}'
    ||| c == '\u{205f}'
    ||| c == '\u{3000}'
}

pub fn is_ws_exec(c: char) -> (r: bool)
    ensures
        r == is_ws(c),
{
    ('\u{9}' <= c && c <= '\u{d}') || c == ' ' || c == '\u{85}' || c == '\u{a0}' || c == '\u{1680}'
        || ('\u{2000}' <= c && c <= '\u{200a}') || c == '\u{2028}' || c == '\u{2029}' || c
        == '\u{202f}' || c == '\u{205f}' || c == '\u{3000}'
}

/// `s` without its leading whitespace.
pub open spec fn trim_start(s: Seq<char>) -> Seq<char>
    decreases s.len(),
{
    if s.len() > 0 && is_ws(s[0]) {
        trim_start(s.drop_first())
    } else {
        s
    }
}

/// `s` without its trailing whitespace.
pub open spec fn trim_end(s: Seq<char>) -> Seq<char>
    decreases s.len(),
{
    if s.len() > 0 && is_ws(s.last()) {
        trim_end(s.drop_last())
    } else {
        s
    }
}

/// `s` without leading and trailing whitespace (what `str::trim` returns).
pub open spec fn trim(s: Seq<char>) -> Seq<char> {
    trim_end(trim_start(s))
}

/// The trimmed characters of `x` (see `trim`).
pub fn trim_chars(x: &Vec<char>) -> (r: Vec<char>)
    ensures
        r@ == trim(x@),
{
    let n = x.len();
    let mut i: usize = 0;
    assert(x@.subrange(0, n as int) =~= x@);
    while i < n && is_ws_exec(x[i])
        invariant
            n == x@.len(),
            i <= n,
            trim_start(x@) == trim_start(x@.subrange(i as int, n as int)),
        decreases n - i,
    {
        let ghost t = x@.subrange(i as int, n as int);
        assert(t.drop_first() =~= x@.subrange(i + 1, n as int));
        i = i + 1;
    }
    let ghost u = x@.subrange(i as int, n as int);
    assert(trim_start(x@) == u);
    let mut j: usize = n;
    while j > i && is_ws_exec(x[j - 1])
        invariant
            n == x@.len(),
            i <= j <= n,
            u == x@.subrange(i as int, n as int),
            trim_end(u) == trim_end(x@.subrange(i as int, j as int)),
        decreases j - i,
    {
        let ghost t = x@.subrange(i as int, j as int);
        assert(t.drop_last() =~= x@.subrange(i as int, j - 1));
        j = j - 1;
    }
    let mut r: Vec<char> = Vec::new();
    let mut k = i;
    while k < j
        invariant
            i <= k <= j,
            j <= x@.len(),
            r@ == x@.subrange(i as int, k as int),
        decreases j - k,
    {
        r.push(x[k]);
        k = k + 1;
        assert(r@ =~= x@.subrange(i as int, k as int));
    }
    r
}

/// `s` trimmed, as a new `String`.
pub fn trim_string(s: &str) -> (r: String)
    ensures
        r@ == trim(s@),
{
    let x = chars_of(s);
    let t = trim_chars(&x);
    string_from_chars(&t)
}

// ───────────────────────────── splitting ─────────────────────────────

/// The pieces of `s` between occurrences of `sep` (what `str::split` with a
/// character separator yields; an empty `s` gives one empty piece).
pub open spec fn split(s: Seq<char>, sep: char) -> Seq<Seq<char>>
    decreases s.len(),
{
    if s.len() == 0 {
        seq![Seq::<char>::empty()]
    } else {
        let r = split(s.drop_last(), sep);
        if s.last() == sep {
            r.push(Seq::<char>::empty())
        } else {
            r.update(r.len() - 1, r.last().push(s.last()))
        }
    }
}

pub proof fn lemma_split_nonempty(s: Seq<char>, sep: char)
    ensures
        split(s, sep).len() >= 1,
    decreases s.len(),
{
    if s.len() > 0 {
        lemma_split_nonempty(s.drop_last(), sep);
    }
}

/// The pieces of `x` between occurrences of `sep`.
pub fn split_chars(x: &Vec<char>, sep: char) -> (r: Vec<Vec<char>>)
    ensures
        r@.len() == split(x@, sep).len(),
        forall|i: int| 0 <= i < r@.len() ==> #[trigger] r@[i]@ == split(x@, sep)[i],
{
    let mut done: Vec<Vec<char>> = Vec::new();
    let mut cur: Vec<char> = Vec::new();
    let mut i: usize = 0;
    while i < x.len()
        invariant
            i <= x.len(),
            done@.len() + 1 == split(x@.subrange(0, i as int), sep).len(),
            forall|k: int|
                0 <= k < done@.len() ==> #[trigger] done@[k]@ == split(
                    x@.subrange(0, i as int),
                    sep,
                )[k],
            cur@ == split(x@.subrange(0, i as int), sep).last(),
        decreases x.len() - i,
    {
        let ghost p = x@.subrange(0, (i + 1) as int);
        assert(p.drop_last() =~= x@.subrange(0, i as int));
        assert(p.last() == x@[i as int]);
        proof {
            lemma_split_nonempty(x@.subrange(0, i as int), sep);
        }
        let c = x[i];
        if c == sep {
            let finished = cur;
            done.push(finished);
            cur = Vec::new();
            assert(cur@ =~= Seq::<char>::empty());
        } else {
            cur.push(c);
        }
        i = i + 1;
    }
    assert(x@.subrange(0, x@.len() as int) =~= x@);
    done.push(cur);
    done
}

/// The pieces of `s` between occurrences of `sep`, each trimmed.
pub fn split_trimmed(s: &str, sep: char) -> (r: Vec<String>)
    ensures
        r@.len() == split(s@, sep).len(),
        forall|i: int| 0 <= i < r@.len() ==> #[trigger] r@[i]@ == trim(split(s@, sep)[i]),
{
    let x = chars_of(s);
    let parts = split_chars(&x, sep);
    let mut r: Vec<String> = Vec::new();
    let mut i: usize = 0;
    while i < parts.len()
        invariant
            i <= parts@.len(),
            parts@.len() == split(s@, sep).len(),
            forall|k: int| 0 <= k < parts@.len() ==> #[trigger] parts@[k]@ == split(s@, sep)[k],
            r@.len() == i,
            forall|k: int| 0 <= k < i ==> #[trigger] r@[k]@ == trim(split(s@, sep)[k]),
        decreases parts.len() - i,
    {
        let t = trim_chars(&parts[i]);
        r.push(string_from_chars(&t));
        i = i + 1;
    }
    r
}

// ───────────────────────────── joining ─────────────────────────────

/// The pieces `parts` with `sep` between neighbours (what `join` gives).
pub open spec fn join(parts: Seq<Seq<char>>, sep: Seq<char>) -> Seq<char>
    decreases parts.len(),
{
    if parts.len() == 0 {
        Seq::empty()
    } else if parts.len() == 1 {
        parts[0]
    } else {
        join(parts.drop_last(), sep) + sep + parts.last()
    }
}

/// The views of a list of character vectors.
pub open spec fn pieces_view(v: Seq<Vec<char>>) -> Seq<Seq<char>> {
    v.map_values(|x: Vec<char>| x@)
}

/// `parts` joined by `sep`.
pub fn join_chars(parts: &Vec<Vec<char>>, sep: &str) -> (r: Vec<char>)
    ensures
        r@ == join(pieces_view(parts@), sep@),
{
    let ghost pv = pieces_view(parts@);
    let mut r: Vec<char> = Vec::new();
    let mut i: usize = 0;
    while i < parts.len()
        invariant
            i <= parts@.len(),
            pv == pieces_view(parts@),
            r@ == join(pv.subrange(0, i as int), sep@),
        decreases parts.len() - i,
    {
        let ghost cur = pv.subrange(0, i + 1);
        assert(cur.drop_last() =~= pv.subrange(0, i as int));
        assert(cur.last() == parts@[i as int]@);
        if i > 0 {
            push_str(&mut r, sep);
        } else {
            assert(cur.len() == 1);
            assert(r@ =~= Seq::<char>::empty());
        }
        push_chars(&mut r, &parts[i]);
        i = i + 1;
    }
    assert(pv.subrange(0, parts@.len() as int) =~= pv);
    r
}

// ───────────────────────────── decimal numbers ─────────────────────────────

pub open spec fn is_digit(c: char) -> bool {
    '0' <= c && c <= '9'
}

pub open spec fn digit_value(c: char) -> nat {
    (c as int - '0' as int) as nat
}

pub open spec fn digit_char(d: nat) -> char
    recommends
        d < 10,
{
    ((d + '0' as int) as u32) as char
}

pub open spec fn all_digits(s: Seq<char>) -> bool {
    forall|i: int| 0 <= i < s.len() ==> is_digit(#[trigger] s[i])
}

/// The number that the decimal digits `s` denote.
pub open spec fn digits_value(s: Seq<char>) -> nat
    decreases s.len(),
{
    if s.len() == 0 {
        0
    } else {
        digits_value(s.drop_last()) * 10 + digit_value(s.last())
    }
}

/// The decimal representation of `n`, without leading zeros.
pub open spec fn decimal(n: nat) -> Seq<char>
    decreases n,
{
    if n < 10 {
        seq![digit_char(n)]
    } else {
        decimal(n / 10).push(digit_char(n % 10))
    }
}

/// What `str::parse` gives for an unsigned integer type whose largest value is
/// `max`: an optional `+`, then at least one digit, with a value up to `max`.
pub open spec fn parse_unsigned(s: Seq<char>, max: nat) -> Option<nat> {
    let body = if s.len() > 0 && s[0] == '+' {
        s.drop_first()
    } else {
        s
    };
    if body.len() > 0 && all_digits(body) && digits_value(body) <= max {
        Some(digits_value(body))
    } else {
        None
    }
}

/// What `str::parse` gives for a signed integer type with range `[min, max]`:
/// an optional `+` or `-`, then at least one digit, with a value in range.
pub open spec fn parse_signed(s: Seq<char>, min: int, max: int) -> Option<int> {
    let neg = s.len() > 0 && s[0] == '-';
    let body = if s.len() > 0 && (s[0] == '+' || s[0] == '-') {
        s.drop_first()
    } else {
        s
    };
    let v: int = if neg {
        -(digits_value(body) as int)
    } else {
        digits_value(body) as int
    };
    if body.len() > 0 && all_digits(body) && min <= v && v <= max {
        Some(v)
    } else {
        None
    }
}

/// What `str::parse::<bool>` gives.
pub open spec fn parse_bool(s: Seq<char>) -> Option<bool> {
    if s == seq!['t', 'r', 'u', 'e'] {
        Some(true)
    } else if s == seq!['f', 'a', 'l', 's', 'e'] {
        Some(false)
    } else {
        None
    }
}

pub proof fn lemma_digits_value_prefix(s: Seq<char>, i: int)
    requires
        0 <= i <= s.len(),
        all_digits(s),
    ensures
        digits_value(s.subrange(0, i)) <= digits_value(s),
    decreases s.len() - i,
{
    if i < s.len() {
        let t = s.subrange(0, i + 1);
        assert(t.drop_last() =~= s.subrange(0, i));
        lemma_digits_value_prefix(s, i + 1);
    } else {
        assert(s.subrange(0, i) =~= s);
    }
}

/// The value of the all-digit characters `x[start..]`, when it is at most `max`.
fn digits_value_bounded(x: &Vec<char>, start: usize, max: u64) -> (r: Option<u64>)
    requires
        start <= x@.len(),
    ensures
        ({
            let body = x@.subrange(start as int, x@.len() as int);
            match r {
                Some(v) => body.len() > 0 && all_digits(body) && digits_value(body) == v
                    && v <= max,
                None => !(body.len() > 0 && all_digits(body) && digits_value(body) <= max),
            }
        }),
{
    let ghost body = x@.subrange(start as int, x@.len() as int);
    if start == x.len() {
        return None;
    }
    let mut acc: u64 = 0;
    let mut i = start;
    while i < x.len()
        invariant
            start <= i <= x@.len(),
            body == x@.subrange(start as int, x@.len() as int),
            all_digits(x@.subrange(start as int, i as int)),
            acc == digits_value(x@.subrange(start as int, i as int)),
            acc <= max,
        decreases x.len() - i,
    {
        let c = x[i];
        let ghost pre = x@.subrange(start as int, i as int);
        let ghost next = x@.subrange(start as int, i + 1);
        assert(next.drop_last() =~= pre);
        assert(next.last() == c);
        if !('0' <= c && c <= '9') {
            assert(body[i - start] == c);
            return None;
        }
        let d = (c as u32 - '0' as u32) as u64;
        assert(d == digit_value(c));
        if d > max || acc > (max - d) / 10 {
            // acc * 10 + d > max: the value only grows as more digits follow.
            assert(acc * 10 + d > max) by (nonlinear_arith)
                requires
                    d > max || acc > (max - d) / 10,
                    d <= 9,
            ;
            proof {
                if all_digits(body) {
                    assert(body.subrange(0, i + 1 - start) =~= next);
                    lemma_digits_value_prefix(body, i + 1 - start);
                }
            }
            return None;
        }
        assert(acc * 10 + d <= max) by (nonlinear_arith)
            requires
                acc <= (max - d) / 10,
                d <= max,
        ;
        acc = acc * 10 + d;
        i = i + 1;
    }
    assert(x@.subrange(start as int, i as int) =~= body);
    Some(acc)
}

/// `str::parse` for an unsigned integer type whose largest value is `max`.
pub fn parse_unsigned_exec(s: &str, max: u64) -> (r: Option<u64>)
    ensures
        match parse_unsigned(s@, max as nat) {
            Some(v) => r == Some(v as u64),
            None => r is None,
        },
{
    let x = chars_of(s);
    let start: usize = if x.len() > 0 && x[0] == '+' {
        1
    } else {
        0
    };
    assert(x@.subrange(start as int, x@.len() as int) =~= (if x@.len() > 0 && x@[0] == '+' {
        x@.drop_first()
    } else {
        x@
    }));
    digits_value_bounded(&x, start, max)
}

/// `str::parse::<u64>`.
pub fn parse_u64(s: &str) -> (r: Option<u64>)
    ensures
        match parse_unsigned(s@, u64::MAX as nat) {
            Some(v) => r == Some(v as u64),
            None => r is None,
        },
{
    parse_unsigned_exec(s, u64::MAX)
}

/// `str::parse::<u32>`.
pub fn parse_u32(s: &str) -> (r: Option<u32>)
    ensures
        match parse_unsigned(s@, u32::MAX as nat) {
            Some(v) => r == Some(v as u32),
            None => r is None,
        },
{
    match parse_unsigned_exec(s, u32::MAX as u64) {
        Some(v) => Some(v as u32),
        None => None,
    }
}

/// `str::parse::<usize>`.
pub fn parse_usize(s: &str) -> (r: Option<usize>)
    ensures
        match parse_unsigned(s@, usize::MAX as nat) {
            Some(v) => r == Some(v as usize),
            None => r is None,
        },
{
    match parse_unsigned_exec(s, usize::MAX as u64) {
        Some(v) => Some(v as usize),
        None => None,
    }
}

/// `str::parse` for a signed integer type with range `[min, max]`.
pub fn parse_signed_exec(s: &str, min: i64, max: i64) -> (r: Option<i64>)
    requires
        min < 0 <= max,
        max as int == -(min as int) - 1,
    ensures
        match parse_signed(s@, min as int, max as int) {
            Some(v) => r == Some(v as i64),
            None => r is None,
        },
{
    let x = chars_of(s);
    let neg = x.len() > 0 && x[0] == '-';
    let start: usize = if x.len() > 0 && (x[0] == '+' || x[0] == '-') {
        1
    } else {
        0
    };
    let ghost body = x@.subrange(start as int, x@.len() as int);
    assert(body =~= (if x@.len() > 0 && (x@[0] == '+' || x@[0] == '-') {
        x@.drop_first()
    } else {
        x@
    }));
    // The magnitude of the most negative value is max + 1.
    let bound: u64 = if neg {
        (max as u64) + 1
    } else {
        max as u64
    };
    match digits_value_bounded(&x, start, bound) {
        Some(v) => {
            if neg {
                if v == (max as u64) + 1 {
                    Some(min)
                } else {
                    Some(-(v as i64))
                }
            } else {
                Some(v as i64)
            }
        },
        None => None,
    }
}

/// `str::parse::<i64>`.
pub fn parse_i64(s: &str) -> (r: Option<i64>)
    ensures
        match parse_signed(s@, i64::MIN as int, i64::MAX as int) {
            Some(v) => r == Some(v as i64),
            None => r is None,
        },
{
    parse_signed_exec(s, i64::MIN, i64::MAX)
}

/// `str::parse::<i32>`.
pub fn parse_i32(s: &str) -> (r: Option<i32>)
    ensures
        match parse_signed(s@, i32::MIN as int, i32::MAX as int) {
            Some(v) => r == Some(v as i32),
            None => r is None,
        },
{
    match parse_signed_exec(s, i32::MIN as i64, i32::MAX as i64) {
        Some(v) => Some(v as i32),
        None => None,
    }
}

/// `str::parse::<bool>`.
pub fn parse_bool_exec(s: &str) -> (r: Option<bool>)
    ensures
        r == parse_bool(s@),
{
    let x = chars_of(s);
    if x.len() == 4 && x[0] == 't' && x[1] == 'r' && x[2] == 'u' && x[3] == 'e' {
        assert(x@ =~= seq!['t', 'r', 'u', 'e']);
        Some(true)
    } else if x.len() == 5 && x[0] == 'f' && x[1] == 'a' && x[2] == 'l' && x[3] == 's' && x[4]
        == 'e' {
        assert(x@ =~= seq!['f', 'a', 'l', 's', 'e']);
        Some(false)
    } else {
        proof {
            if x@ == seq!['t', 'r', 'u', 'e'] {
                assert(x@.len() == 4 && x@[0] == 't' && x@[1] == 'r' && x@[2] == 'u' && x@[3]
                    == 'e');
            }
            if x@ == seq!['f', 'a', 'l', 's', 'e'] {
                assert(x@.len() == 5 && x@[0] == 'f' && x@[1] == 'a' && x@[2] == 'l' && x@[3]
                    == 's' && x@[4] == 'e');
            }
        }
        None
    }
}

/// The decimal digits of `n`.
pub fn decimal_chars(n: u64) -> (r: Vec<char>)
    ensures
        r@ == decimal(n as nat),
    decreases n,
{
    let d = (n % 10) as u32;
    let c = char_of_digit(d);
    if n < 10 {
        let mut v: Vec<char> = Vec::new();
        v.push(c);
        assert(v@ =~= seq![digit_char(n as nat)]);
        v
    } else {
        let mut v = decimal_chars(n / 10);
        v.push(c);
        v
    }
}

fn char_of_digit(d: u32) -> (c: char)
    requires
        d < 10,
    ensures
        c == digit_char(d as nat),
        is_digit(c),
{
    if d == 0 {
        '0'
    } else if d == 1 {
        '1'
    } else if d == 2 {
        '2'
    } else if d == 3 {
        '3'
    } else if d == 4 {
        '4'
    } else if d == 5 {
        '5'
    } else if d == 6 {
        '6'
    } else if d == 7 {
        '7'
    } else if d == 8 {
        '8'
    } else {
        '9'
    }
}

/// `n` written in decimal (what `to_string` gives for an unsigned integer).
pub fn decimal_string(n: u64) -> (r: String)
    ensures
        r@ == decimal(n as nat),
{
    let v = decimal_chars(n);
    string_from_chars(&v)
}

} // verus!
