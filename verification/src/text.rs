//! String helpers with exact specifications: Unicode whitespace trimming,
//! ASCII case folding, joining and decimal rendering of integers.

use vstd::prelude::*;
use vstd::string::*;

verus! {

/// The characters with the Unicode `White_Space` property, which is what
/// `char::is_whitespace` (and therefore `str::trim`) tests.
pub open spec fn is_unicode_whitespace(c: char) -> bool {
    let u = c as u32;
    (0x09 <= u && u <= 0x0d) || u == 0x20 || u == 0x85 || u == 0xa0 || u == 0x1680
        || (0x2000 <= u && u <= 0x200a) || u == 0x2028 || u == 0x2029 || u == 0x202f
        || u == 0x205f || u == 0x3000
}

/// Number of leading whitespace characters of `s`.
pub open spec fn leading_ws(s: Seq<char>) -> nat
    decreases s.len(),
{
    if s.len() > 0 && is_unicode_whitespace(s[0]) {
        1 + leading_ws(s.drop_first())
    } else {
        0
    }
}

/// Number of trailing whitespace characters of `s`.
pub open spec fn trailing_ws(s: Seq<char>) -> nat
    decreases s.len(),
{
    if s.len() > 0 && is_unicode_whitespace(s.last()) {
        1 + trailing_ws(s.drop_last())
    } else {
        0
    }
}

/// `s` without leading and trailing whitespace (what `str::trim` returns).
pub open spec fn trim_spec(s: Seq<char>) -> Seq<char> {
    let front = leading_ws(s) as int;
    let rest = s.subrange(front, s.len() as int);
    rest.subrange(0, rest.len() - trailing_ws(rest) as int)
}

/// Characterises `leading_ws` by its index.
proof fn lemma_leading_ws_is(s: Seq<char>, k: int)
    requires
        0 <= k <= s.len(),
        forall|i: int| 0 <= i < k ==> is_unicode_whitespace(#[trigger] s[i]),
        k < s.len() ==> !is_unicode_whitespace(s[k]),
    ensures
        leading_ws(s) == k,
    decreases s.len(),
{
    if k > 0 {
        assert(is_unicode_whitespace(s[0]));
        assert forall|i: int| 0 <= i < k - 1 implies is_unicode_whitespace(#[trigger] s.drop_first()[i]) by {
            assert(s.drop_first()[i] == s[i + 1]);
        }
        lemma_leading_ws_is(s.drop_first(), k - 1);
    }
}

/// Characterises `trailing_ws` by its index.
proof fn lemma_trailing_ws_is(s: Seq<char>, k: int)
    requires
        0 <= k <= s.len(),
        forall|i: int| s.len() - k <= i < s.len() ==> is_unicode_whitespace(#[trigger] s[i]),
        k < s.len() ==> !is_unicode_whitespace(s[s.len() - 1 - k]),
    ensures
        trailing_ws(s) == k,
    decreases s.len(),
{
    if k > 0 {
        assert(is_unicode_whitespace(s.last()));
        let t = s.drop_last();
        assert forall|i: int| t.len() - (k - 1) <= i < t.len() implies is_unicode_whitespace(#[trigger] t[i]) by {
            assert(t[i] == s[i]);
        }
        if k - 1 < t.len() {
            assert(t[t.len() - 1 - (k - 1)] == s[s.len() - 1 - k]);
        }
        lemma_trailing_ws_is(t, k - 1);
    }
}

/// Exec counterpart of [`is_unicode_whitespace`].
pub fn char_is_whitespace(c: char) -> (b: bool)
    ensures
        b == is_unicode_whitespace(c),
{
    let u = c as u32;
    (0x09 <= u && u <= 0x0d) || u == 0x20 || u == 0x85 || u == 0xa0 || u == 0x1680
        || (0x2000 <= u && u <= 0x200a) || u == 0x2028 || u == 0x2029 || u == 0x202f
        || u == 0x205f || u == 0x3000
}

/// Removes leading and trailing Unicode whitespace, as `str::trim` does.
pub fn trim(s: &str) -> (t: &str)
    ensures
        t@ == trim_spec(s@),
{
    let n = s.unicode_len();
    let mut start: usize = 0;
    while start < n && char_is_whitespace(s.get_char(start))
        invariant
            n == s@.len(),
            start <= n,
            forall|i: int| 0 <= i < start ==> is_unicode_whitespace(#[trigger] s@[i]),
        decreases n - start,
    {
        start = start + 1;
    }
    proof {
        lemma_leading_ws_is(s@, start as int);
    }
    let mut end: usize = n;
    while end > start && char_is_whitespace(s.get_char(end - 1))
        invariant
            n == s@.len(),
            start <= end <= n,
            forall|i: int| end <= i < n ==> is_unicode_whitespace(#[trigger] s@[i]),
        decreases end - start,
    {
        end = end - 1;
    }
    proof {
        let rest = s@.subrange(start as int, n as int);
        let k = (n - end) as int;
        assert forall|i: int| rest.len() - k <= i < rest.len() implies is_unicode_whitespace(#[trigger] rest[i]) by {
            assert(rest[i] == s@[start + i]);
        }
        if k < rest.len() {
            assert(rest[rest.len() - 1 - k] == s@[end - 1]);
        }
        lemma_trailing_ws_is(rest, k);
        assert(rest.subrange(0, rest.len() - k) =~= s@.subrange(start as int, end as int));
    }
    s.substring_char(start, end)
}

/// `parts` joined with `sep` between consecutive elements.
pub open spec fn join_spec(parts: Seq<Seq<char>>, sep: Seq<char>) -> Seq<char>
    decreases parts.len(),
{
    if parts.len() == 0 {
        Seq::empty()
    } else if parts.len() == 1 {
        parts[0]
    } else {
        join_spec(parts.drop_last(), sep) + sep + parts.last()
    }
}

/// The views of a list of strings.
pub open spec fn string_views(v: Seq<String>) -> Seq<Seq<char>> {
    v.map_values(|x: String| x@)
}

/// Joins `parts` with `sep`, as `[String]::join` does.
pub fn join(parts: &Vec<String>, sep: &str) -> (s: String)
    ensures
        s@ == join_spec(string_views(parts@), sep@),
{
    let mut out = String::new();
    let mut i: usize = 0;
    while i < parts.len()
        invariant
            i <= parts.len(),
            out@ == join_spec(string_views(parts@).take(i as int), sep@),
        decreases parts.len() - i,
    {
        let ghost prev = string_views(parts@).take(i as int);
        let ghost next = string_views(parts@).take(i + 1);
        assert(next.drop_last() =~= prev);
        assert(next.last() == parts@[i as int]@);
        if i > 0 {
            out.append(sep);
        } else {
            assert(prev.len() == 0);
        }
        out.append(parts[i].as_str());
        i = i + 1;
    }
    assert(string_views(parts@).take(parts.len() as int) =~= string_views(parts@));
    out
}

/// ASCII lower-case of one character; other characters are unchanged.
pub open spec fn ascii_lower_char(c: char) -> char {
    if 'A' <= c && c <= 'Z' {
        ((c as u32) + 32) as char
    } else {
        c
    }
}

/// ASCII lower-case of a string.
pub open spec fn ascii_lower(s: Seq<char>) -> Seq<char> {
    s.map_values(|c: char| ascii_lower_char(c))
}

/// Whether `s` equals `word` when ASCII letters are compared case-insensitively.
pub fn eq_ignore_ascii_case(s: &str, word: &str) -> (b: bool)
    ensures
        b == (ascii_lower(s@) == ascii_lower(word@)),
{
    let n = s.unicode_len();
    let m = word.unicode_len();
    if n != m {
        proof {
            assert(ascii_lower(s@).len() != ascii_lower(word@).len());
        }
        return false;
    }
    let mut i: usize = 0;
    while i < n
        invariant
            n == s@.len(),
            m == word@.len(),
            n == m,
            i <= n,
            forall|j: int| 0 <= j < i ==> ascii_lower_char(#[trigger] s@[j]) == ascii_lower_char(word@[j]),
        decreases n - i,
    {
        let a = lower_code(s.get_char(i));
        let b = lower_code(word.get_char(i));
        if a != b {
            proof {
                assert(ascii_lower(s@)[i as int] != ascii_lower(word@)[i as int]);
            }
            return false;
        }
        i = i + 1;
    }
    assert(ascii_lower(s@) =~= ascii_lower(word@));
    true
}

/// Code point of the ASCII lower-case of `c`.
fn lower_code(c: char) -> (d: u32)
    ensures
        d == ascii_lower_char(c) as u32,
{
    if 'A' <= c && c <= 'Z' {
        (c as u32) + 32
    } else {
        c as u32
    }
}

/// Character-wise string equality.
pub fn str_eq(a: &str, b: &str) -> (r: bool)
    ensures
        r == (a@ == b@),
{
    let n = a.unicode_len();
    if n != b.unicode_len() {
        return false;
    }
    let mut i: usize = 0;
    while i < n
        invariant
            n == a@.len(),
            n == b@.len(),
            i <= n,
            forall|j: int| 0 <= j < i ==> a@[j] == b@[j],
        decreases n - i,
    {
        if a.get_char(i) != b.get_char(i) {
            return false;
        }
        i = i + 1;
    }
    assert(a@ =~= b@);
    true
}

/// Whether `s` begins with `p`.
pub open spec fn has_prefix(s: Seq<char>, p: Seq<char>) -> bool {
    p.len() <= s.len() && s.take(p.len() as int) == p
}

/// Whether `s` ends with `p`.
pub open spec fn has_suffix(s: Seq<char>, p: Seq<char>) -> bool {
    p.len() <= s.len() && s.skip(s.len() - p.len()) == p
}

/// Whether `p` occurs in `s` at position `i`.
pub open spec fn occurs_at(s: Seq<char>, p: Seq<char>, i: int) -> bool {
    0 <= i && i + p.len() <= s.len() && s.subrange(i, i + p.len()) == p
}

/// Whether `p` occurs somewhere in `s`.
pub open spec fn contains_seq(s: Seq<char>, p: Seq<char>) -> bool {
    exists|i: int| occurs_at(s, p, i)
}

/// Whether `s` starts with `p`, as `str::starts_with` does.
pub fn starts_with(s: &str, p: &str) -> (b: bool)
    ensures
        b == has_prefix(s@, p@),
{
    let n = s.unicode_len();
    let m = p.unicode_len();
    if m > n {
        return false;
    }
    let head = s.substring_char(0, m);
    proof {
        assert(head@ =~= s@.take(m as int));
    }
    str_eq(head, p)
}

/// Whether `s` ends with `p`, as `str::ends_with` does.
pub fn ends_with(s: &str, p: &str) -> (b: bool)
    ensures
        b == has_suffix(s@, p@),
{
    let n = s.unicode_len();
    let m = p.unicode_len();
    if m > n {
        return false;
    }
    let tail = s.substring_char(n - m, n);
    proof {
        assert(tail@ =~= s@.skip(n - m));
    }
    str_eq(tail, p)
}

/// Whether `p` occurs in `s`, as `str::contains` does for a string pattern.
pub fn contains_str(s: &str, p: &str) -> (b: bool)
    ensures
        b == contains_seq(s@, p@),
{
    let n = s.unicode_len();
    let m = p.unicode_len();
    if m > n {
        proof {
            assert forall|i: int| !occurs_at(s@, p@, i) by {}
        }
        return false;
    }
    let last = n - m;
    let mut i: usize = 0;
    loop
        invariant
            n == s@.len(),
            m == p@.len(),
            last == n - m,
            i <= last,
            forall|j: int| 0 <= j < i ==> !occurs_at(s@, p@, j),
        decreases last - i,
    {
        let window = s.substring_char(i, i + m);
        if str_eq(window, p) {
            assert(occurs_at(s@, p@, i as int));
            return true;
        }
        if i == last {
            proof {
                assert forall|j: int| !occurs_at(s@, p@, j) by {
                    if 0 <= j && j < i {
                    }
                }
            }
            return false;
        }
        i = i + 1;
    }
}

/// Position of the first `c` in `s`, counted in characters.
pub fn find_char(s: &str, c: char) -> (r: Option<usize>)
    ensures
        match r {
            Some(i) => i < s@.len() && s@[i as int] == c && forall|j: int| 0 <= j < i ==> s@[j] != c,
            None => forall|j: int| 0 <= j < s@.len() ==> s@[j] != c,
        },
{
    let n = s.unicode_len();
    let mut i: usize = 0;
    while i < n
        invariant
            n == s@.len(),
            i <= n,
            forall|j: int| 0 <= j < i ==> s@[j] != c,
        decreases n - i,
    {
        if s.get_char(i) == c {
            return Some(i);
        }
        i = i + 1;
    }
    None
}

/// A copy of a list of strings.
pub fn copy_strings(v: &Vec<String>) -> (r: Vec<String>)
    ensures
        r@ == v@,
{
    let mut r: Vec<String> = Vec::new();
    let mut i: usize = 0;
    while i < v.len()
        invariant
            i <= v.len(),
            r@ == v@.take(i as int),
        decreases v.len() - i,
    {
        r.push(v[i].clone());
        assert(r@ =~= v@.take(i + 1));
        i = i + 1;
    }
    assert(v@.take(v.len() as int) =~= v@);
    r
}

/// The ASCII digit for `d` (0 through 9).
pub open spec fn digit_char(d: int) -> char {
    if d == 0 {
        '0'
    } else if d == 1 {
        '1'
    } else if d == 2 {
        '2'
    } else if d == 3 {
        '3'
    } else if d == 4 {
        '4'
    } else if d == 5 {
        '5'
    } else if d == 6 {
        '6'
    } else if d == 7 {
        '7'
    } else if d == 8 {
        '8'
    } else {
        '9'
    }
}

/// Decimal rendering of a natural number, without leading zeros.
pub open spec fn nat_decimal(n: nat) -> Seq<char>
    decreases n,
{
    if n < 10 {
        seq![digit_char(n as int)]
    } else {
        nat_decimal(n / 10).push(digit_char((n % 10) as int))
    }
}

/// Decimal rendering of an integer, with a leading `-` for negatives
/// (what `Display` prints for Rust integers).
pub open spec fn int_decimal(v: int) -> Seq<char> {
    if v < 0 {
        seq!['-'] + nat_decimal((-v) as nat)
    } else {
        nat_decimal(v as nat)
    }
}

fn digit_str(d: u64) -> (s: &'static str)
    requires
        d < 10,
    ensures
        s@ == seq![digit_char(d as int)],
{
    proof {
        reveal_strlit("0");
        reveal_strlit("1");
        reveal_strlit("2");
        reveal_strlit("3");
        reveal_strlit("4");
        reveal_strlit("5");
        reveal_strlit("6");
        reveal_strlit("7");
        reveal_strlit("8");
        reveal_strlit("9");
    }
    let s = if d == 0 {
        "0"
    } else if d == 1 {
        "1"
    } else if d == 2 {
        "2"
    } else if d == 3 {
        "3"
    } else if d == 4 {
        "4"
    } else if d == 5 {
        "5"
    } else if d == 6 {
        "6"
    } else if d == 7 {
        "7"
    } else if d == 8 {
        "8"
    } else {
        "9"
    };
    assert(s@ =~= seq![digit_char(d as int)]);
    s
}

/// Decimal rendering of an unsigned integer.
pub fn u64_to_string(n: u64) -> (s: String)
    ensures
        s@ == nat_decimal(n as nat),
    decreases n,
{
    if n < 10 {
        String::from_str(digit_str(n))
    } else {
        let mut s = u64_to_string(n / 10);
        s.append(digit_str(n % 10));
        s
    }
}

/// Decimal rendering of a signed integer, as `i64::to_string` gives it.
pub fn i64_to_string(v: i64) -> (s: String)
    ensures
        s@ == int_decimal(v as int),
{
    if v < 0 {
        let magnitude: u64 = (0i128 - (v as i128)) as u64;
        let digits = u64_to_string(magnitude);
        let mut s = String::from_str("-");
        proof {
            reveal_strlit("-");
        }
        s.append(digits.as_str());
        assert(s@ =~= seq!['-'] + nat_decimal((-v) as nat));
        s
    } else {
        u64_to_string(v as u64)
    }
}

/// Whether `c` is an ASCII decimal digit.
pub open spec fn is_digit(c: char) -> bool {
    '0' <= c && c <= '9'
}

/// The numeric value of an ASCII digit.
pub open spec fn digit_value(c: char) -> int {
    (c as u32) - ('0' as u32)
}

/// Value of a run of ASCII digits, most significant first.
pub open spec fn digits_value(s: Seq<char>) -> int
    decreases s.len(),
{
    if s.len() == 0 {
        0
    } else {
        digits_value(s.drop_last()) * 10 + digit_value(s.last())
    }
}

/// The digits after an optional leading `+` or `-`.
pub open spec fn unsigned_part(s: Seq<char>) -> Seq<char> {
    if s.len() > 0 && (s[0] == '-' || s[0] == '+') {
        s.drop_first()
    } else {
        s
    }
}

/// What `str::parse::<i64>` gives: an optional sign, then one or more ASCII
/// digits whose value fits in an `i64`; anything else is an error.
pub open spec fn parse_i64_spec(s: Seq<char>) -> Option<i64> {
    let body = unsigned_part(s);
    let negative = s.len() > 0 && s[0] == '-';
    if body.len() == 0 || !(forall|i: int| 0 <= i < body.len() ==> is_digit(#[trigger] body[i])) {
        None
    } else {
        let v = if negative { -digits_value(body) } else { digits_value(body) };
        if i64::MIN <= v && v <= i64::MAX {
            Some(v as i64)
        } else {
            None
        }
    }
}

proof fn lemma_digits_value_nonneg(s: Seq<char>)
    requires
        forall|i: int| 0 <= i < s.len() ==> is_digit(#[trigger] s[i]),
    ensures
        digits_value(s) >= 0,
    decreases s.len(),
{
    if s.len() > 0 {
        let t = s.drop_last();
        assert forall|i: int| 0 <= i < t.len() implies is_digit(#[trigger] t[i]) by {
            assert(t[i] == s[i]);
        }
        lemma_digits_value_nonneg(t);
        assert(is_digit(s[s.len() - 1]));
    }
}

/// The value of a digit run never decreases when more digits follow.
proof fn lemma_digits_value_monotone(s: Seq<char>, k: int)
    requires
        0 <= k <= s.len(),
        forall|i: int| 0 <= i < s.len() ==> is_digit(#[trigger] s[i]),
    ensures
        digits_value(s.take(k)) <= digits_value(s),
    decreases s.len() - k,
{
    if k < s.len() {
        let t = s.take(k + 1);
        assert(t.drop_last() =~= s.take(k));
        assert(is_digit(s[k]));
        assert forall|i: int| 0 <= i < s.take(k).len() implies is_digit(#[trigger] s.take(k)[i]) by {
            assert(s.take(k)[i] == s[i]);
        }
        lemma_digits_value_nonneg(s.take(k));
        lemma_digits_value_monotone(s, k + 1);
    } else {
        assert(s.take(k) =~= s);
    }
}

proof fn lemma_not_all_digits(s: Seq<char>, k: int)
    requires
        0 <= k < s.len(),
        !is_digit(s[k]),
    ensures
        !(forall|i: int| 0 <= i < s.len() ==> is_digit(#[trigger] s[i])),
{
}

/// Parses a decimal `i64`, as `str::parse::<i64>` does.
pub fn parse_i64(s: &str) -> (r: Option<i64>)
    ensures
        r == parse_i64_spec(s@),
{
    let n = s.unicode_len();
    let mut start: usize = 0;
    let mut negative = false;
    if n > 0 {
        let c = s.get_char(0);
        if c == '-' {
            negative = true;
            start = 1;
        } else if c == '+' {
            start = 1;
        }
    }
    let ghost body = unsigned_part(s@);
    assert(body =~= s@.subrange(start as int, n as int));
    if start == n {
        return None;
    }
    let limit: i128 = 9223372036854775808;
    let mut acc: i128 = 0;
    let mut i: usize = start;
    while i < n
        invariant
            n == s@.len(),
            start <= i <= n,
            start < n,
            body == s@.subrange(start as int, n as int),
            body == unsigned_part(s@),
            forall|j: int| start <= j < i ==> is_digit(#[trigger] s@[j]),
            acc == digits_value(body.take(i - start)),
            0 <= acc <= limit,
            limit == 9223372036854775808,
            negative == (s@.len() > 0 && s@[0] == '-'),
        decreases n - i,
    {
        let c = s.get_char(i);
        if !('0' <= c && c <= '9') {
            proof {
                assert(body[i - start] == c);
                assert(!is_digit(body[i - start]));
                lemma_not_all_digits(body, i - start);
            }
            return None;
        }
        let d = (c as u32 - '0' as u32) as i128;
        let ghost p = body.take(i - start + 1);
        proof {
            assert(p.drop_last() =~= body.take(i - start));
            assert(p.last() == c);
            assert(digits_value(p) == digits_value(p.drop_last()) * 10 + digit_value(p.last()));
        }
        assert(acc * 10 <= limit * 10) by (nonlinear_arith)
            requires
                0 <= acc <= limit,
                limit == 9223372036854775808,
        ;
        acc = acc * 10 + d;
        assert(acc == digits_value(p));
        if acc > limit {
            proof {
                if forall|j: int| 0 <= j < body.len() ==> is_digit(#[trigger] body[j]) {
                    lemma_digits_value_monotone(body, i - start + 1);
                    assert(digits_value(body) > limit);
                }
            }
            return None;
        }
        i = i + 1;
    }
    proof {
        assert(body.take(n - start) =~= body);
        assert forall|j: int| 0 <= j < body.len() implies is_digit(#[trigger] body[j]) by {
            assert(body[j] == s@[start + j]);
        }
    }
    if negative {
        let v: i128 = 0 - acc;
        Some(v as i64)
    } else if acc == limit {
        None
    } else {
        Some(acc as i64)
    }
}

} // verus!
