//! Verified character-level string operations with the semantics of the
//! corresponding `str` methods, stated over `Seq<char>`.

use vstd::prelude::*;

verus! {

/// Whether a character carries the Unicode `White_Space` property: the
/// controls U+0009 to U+000D, the space, U+0085, the no-break space U+00A0,
/// U+1680, the spaces U+2000 to U+200A, the line and paragraph separators
/// U+2028 and U+2029, U+202F, U+205F and the ideographic space U+3000.
pub open spec fn unicode_white_space(c: char) -> bool {
    let u = c as u32;
    ||| 0x09 <= u <= 0x0D
    ||| u == 0x20
    ||| u == 0x85
    ||| u == 0xA0
    ||| u == 0x1680
    ||| 0x2000 <= u <= 0x200A
    ||| u == 0x2028
    ||| u == 0x2029
    ||| u == 0x202F
    ||| u == 0x205F
    ||| u == 0x3000
}

/// Whether `c` is white space, as `char::is_whitespace` decides it.
fn char_is_whitespace(c: char) -> (r: bool)
    ensures
        r == unicode_white_space(c),
{
    let u = c as u32;
    (0x09 <= u && u <= 0x0D) || u == 0x20 || u == 0x85 || u == 0xA0 || u == 0x1680 || (0x2000 <= u
        && u <= 0x200A) || u == 0x2028 || u == 0x2029 || u == 0x202F || u == 0x205F || u == 0x3000
}

/// `s` without its leading white space, as `str::trim_start` gives it.
pub open spec fn trim_start_seq(s: Seq<char>) -> Seq<char>
    decreases s.len(),
{
    if s.len() > 0 && unicode_white_space(s[0]) {
        trim_start_seq(s.drop_first())
    } else {
        s
    }
}

/// `s` without its trailing white space, as `str::trim_end` gives it.
pub open spec fn trim_end_seq(s: Seq<char>) -> Seq<char>
    decreases s.len(),
{
    if s.len() > 0 && unicode_white_space(s.last()) {
        trim_end_seq(s.drop_last())
    } else {
        s
    }
}

/// `s` without leading and trailing white space, as `str::trim` gives it.
pub open spec fn trim_seq(s: Seq<char>) -> Seq<char> {
    trim_end_seq(trim_start_seq(s))
}

proof fn lemma_trim_start_step(s: Seq<char>, i: int)
    requires
        0 <= i < s.len(),
        unicode_white_space(s[i]),
    ensures
        trim_start_seq(s.subrange(i, s.len() as int)) == trim_start_seq(
            s.subrange(i + 1, s.len() as int),
        ),
{
    assert(s.subrange(i, s.len() as int).drop_first() =~= s.subrange(i + 1, s.len() as int));
}

proof fn lemma_trim_end_step(s: Seq<char>, j: int)
    requires
        0 < j <= s.len(),
        unicode_white_space(s[j - 1]),
    ensures
        trim_end_seq(s.subrange(0, j)) == trim_end_seq(s.subrange(0, j - 1)),
{
    assert(s.subrange(0, j).drop_last() =~= s.subrange(0, j - 1));
}

#[verifier::rlimit(40)]
/// `str::trim`: the slice of `s` without leading and trailing white space.
pub fn trim(s: &str) -> (r: &str)
    ensures
        r@ == trim_seq(s@),
{
    let n = s.unicode_len();
    let mut i: usize = 0;
    assert(s@.subrange(0, n as int) =~= s@);
    while i < n && char_is_whitespace(s.get_char(i))
        invariant
            n == s@.len(),
            i <= n,
            trim_start_seq(s@) == trim_start_seq(s@.subrange(i as int, n as int)),
        decreases n - i,
    {
        proof {
            lemma_trim_start_step(s@, i as int);
        }
        i = i + 1;
    }
    let ghost start = s@.subrange(i as int, n as int);
    assert(trim_start_seq(start) == start);
    let mut j: usize = n;
    assert(start.subrange(0, (j - i) as int) =~= start);
    while j > i && char_is_whitespace(s.get_char(j - 1))
        invariant
            n == s@.len(),
            i <= j <= n,
            start == s@.subrange(i as int, n as int),
            trim_end_seq(start) == trim_end_seq(start.subrange(0, (j - i) as int)),
        decreases j,
    {
        proof {
            lemma_trim_end_step(start, (j - i) as int);
            assert(start.subrange(0, (j - i - 1) as int) =~= start.subrange(0, (j - i) as int).subrange(0, (j - i - 1) as int));
        }
        j = j - 1;
    }
    let r = s.substring_char(i, j);
    assert(r@ =~= start.subrange(0, (j - i) as int));
    r
}

/// `s` starts with `p`, as `str::starts_with` decides.
pub open spec fn starts_with_seq(s: Seq<char>, p: Seq<char>) -> bool {
    p.len() <= s.len() && s.subrange(0, p.len() as int) == p
}

/// `s` ends with `p`, as `str::ends_with` decides.
pub open spec fn ends_with_seq(s: Seq<char>, p: Seq<char>) -> bool {
    p.len() <= s.len() && s.subrange(s.len() - p.len(), s.len() as int) == p
}

/// `p` occurs in `s` starting at index `i`.
pub open spec fn occurs_at(s: Seq<char>, p: Seq<char>, i: int) -> bool {
    0 <= i && i + p.len() <= s.len() && s.subrange(i, i + p.len()) == p
}

/// The first index at or after `i` where `p` occurs in `s`.
pub open spec fn find_from(s: Seq<char>, p: Seq<char>, i: int) -> Option<int>
    decreases s.len() + 1 - i,
{
    if i < 0 || i + p.len() > s.len() {
        None
    } else if occurs_at(s, p, i) {
        Some(i)
    } else {
        find_from(s, p, i + 1)
    }
}

/// The first index where `p` occurs in `s`, as `str::find` gives it
/// (counted in characters).
pub open spec fn find_seq(s: Seq<char>, p: Seq<char>) -> Option<int> {
    find_from(s, p, 0)
}

/// `p` occurs in `s`, as `str::contains` decides.
pub open spec fn contains_seq(s: Seq<char>, p: Seq<char>) -> bool {
    find_seq(s, p) is Some
}

/// The first index of `c` in `s`.
pub open spec fn index_of_char(s: Seq<char>, c: char) -> Option<int> {
    find_seq(s, seq![c])
}

pub proof fn lemma_find_from_facts(s: Seq<char>, p: Seq<char>, i: int)
    requires
        0 <= i,
    ensures
        find_from(s, p, i) matches Some(k) ==> i <= k && occurs_at(s, p, k) && forall|j: int|
            i <= j < k ==> !occurs_at(s, p, j),
        find_from(s, p, i) is None ==> forall|j: int| i <= j ==> !occurs_at(s, p, j),
    decreases s.len() + 1 - i,
{
    if i + p.len() > s.len() {
    } else if occurs_at(s, p, i) {
    } else {
        lemma_find_from_facts(s, p, i + 1);
    }
}

/// Whether `a` and `b` hold the same characters.
pub fn str_equal(a: &str, b: &str) -> (r: bool)
    ensures
        r == (a@ == b@),
{
    let n = a.unicode_len();
    let m = b.unicode_len();
    if n != m {
        return false;
    }
    let mut i: usize = 0;
    while i < n
        invariant
            n == a@.len(),
            m == b@.len(),
            n == m,
            i <= n,
            forall|k: int| 0 <= k < i ==> a@[k] == b@[k],
        decreases n - i,
    {
        if a.get_char(i) != b.get_char(i) {
            return false;
        }
        i = i + 1;
    }
    assert(a@ =~= b@);
    true
}

fn occurs_at_exec(s: &str, n: usize, p: &str, m: usize, i: usize) -> (r: bool)
    requires
        n == s@.len(),
        m == p@.len(),
        i + m <= n,
    ensures
        r == occurs_at(s@, p@, i as int),
{
    let mut k: usize = 0;
    while k < m
        invariant
            n == s@.len(),
            m == p@.len(),
            i + m <= n,
            k <= m,
            forall|t: int| 0 <= t < k ==> s@[i + t] == p@[t],
        decreases m - k,
    {
        if s.get_char(i + k) != p.get_char(k) {
            assert(s@.subrange(i as int, i + m)[k as int] != p@[k as int]);
            return false;
        }
        k = k + 1;
    }
    assert(s@.subrange(i as int, i + m) =~= p@);
    true
}

/// `str::find` counted in characters: the first index where `p` occurs in `s`.
pub fn find_str(s: &str, p: &str) -> (r: Option<usize>)
    ensures
        r matches Some(k) ==> find_seq(s@, p@) == Some(k as int),
        r is None ==> find_seq(s@, p@) is None,
{
    let n = s.unicode_len();
    let m = p.unicode_len();
    if m > n {
        return None;
    }
    if m == 0 {
        assert(s@.subrange(0, 0) =~= p@);
        return Some(0);
    }
    let mut i: usize = 0;
    while i <= n - m
        invariant
            n == s@.len(),
            m == p@.len(),
            1 <= m <= n,
            i <= n - m + 1,
            find_seq(s@, p@) == find_from(s@, p@, i as int),
        decreases n - i,
    {
        if occurs_at_exec(s, n, p, m, i) {
            return Some(i);
        }
        i = i + 1;
    }
    None
}

/// `str::contains` for a string pattern.
pub fn contains_str(s: &str, p: &str) -> (r: bool)
    ensures
        r == contains_seq(s@, p@),
{
    find_str(s, p).is_some()
}

/// `str::starts_with` for a string pattern.
pub fn starts_with_str(s: &str, p: &str) -> (r: bool)
    ensures
        r == starts_with_seq(s@, p@),
{
    let n = s.unicode_len();
    let m = p.unicode_len();
    if m > n {
        return false;
    }
    let r = occurs_at_exec(s, n, p, m, 0);
    r
}

/// `str::ends_with` for a string pattern.
pub fn ends_with_str(s: &str, p: &str) -> (r: bool)
    ensures
        r == ends_with_seq(s@, p@),
{
    let n = s.unicode_len();
    let m = p.unicode_len();
    if m > n {
        return false;
    }
    occurs_at_exec(s, n, p, m, n - m)
}

/// The first index of `c` in `s`, as `str::find` with a `char` pattern gives
/// it (counted in characters).
pub fn find_char(s: &str, c: char) -> (r: Option<usize>)
    ensures
        r matches Some(k) ==> index_of_char(s@, c) == Some(k as int) && k < s@.len() && s@[k as int] == c,
        r is None ==> index_of_char(s@, c) is None,
{
    let n = s.unicode_len();
    let mut i: usize = 0;
    while i < n
        invariant
            n == s@.len(),
            i <= n,
            find_seq(s@, seq![c]) == find_from(s@, seq![c], i as int),
        decreases n - i,
    {
        if s.get_char(i) == c {
            assert(s@.subrange(i as int, i + 1) =~= seq![c]);
            return Some(i);
        }
        proof {
            assert(!occurs_at(s@, seq![c], i as int)) by {
                if occurs_at(s@, seq![c], i as int) {
                    assert(s@.subrange(i as int, i + 1)[0] == s@[i as int]);
                }
            }
        }
        i = i + 1;
    }
    None
}

/// The pieces of `s` between occurrences of `c`, as `str::split` with a
/// `char` pattern gives them (an empty `s` gives one empty piece).
pub open spec fn split_seq(s: Seq<char>, c: char) -> Seq<Seq<char>>
    decreases s.len(),
{
    match index_of_char(s, c) {
        Some(i) => if 0 <= i < s.len() {
            seq![s.subrange(0, i)] + split_seq(s.subrange(i + 1, s.len() as int), c)
        } else {
            seq![s]
        },
        None => seq![s],
    }
}

/// `str::split` with a `char` pattern: the pieces of `s` between occurrences
/// of `c`.
pub fn split_char<'a>(s: &'a str, c: char) -> (r: Vec<&'a str>)
    ensures
        r@.map_values(|x: &str| x@) == split_seq(s@, c),
{
    let mut pieces: Vec<&'a str> = Vec::new();
    let mut rest: &'a str = s;
    loop
        invariant
            pieces@.map_values(|x: &str| x@) + split_seq(rest@, c) == split_seq(s@, c),
        decreases rest@.len(),
    {
        let n = rest.unicode_len();
        match find_char(rest, c) {
            Some(i) => {
                let head = rest.substring_char(0, i);
                let tail = rest.substring_char(i + 1, n);
                let ghost old_rest = rest@;
                let ghost old_pieces = pieces@.map_values(|x: &str| x@);
                pieces.push(head);
                rest = tail;
                assert(pieces@.map_values(|x: &str| x@) =~= old_pieces.push(head@));
                assert(split_seq(old_rest, c) == seq![head@] + split_seq(rest@, c));
                assert(old_pieces + split_seq(old_rest, c) =~= pieces@.map_values(|x: &str| x@) + split_seq(rest@, c));
            },
            None => {
                let ghost old_pieces = pieces@.map_values(|x: &str| x@);
                pieces.push(rest);
                assert(pieces@.map_values(|x: &str| x@) =~= old_pieces + split_seq(rest@, c));
                return pieces;
            },
        }
    }
}

/// `s` with every non-overlapping occurrence of `p` (taken from the left)
/// replaced by `t`, as `str::replace` gives it for a non-empty `p`.
pub open spec fn replace_seq(s: Seq<char>, p: Seq<char>, t: Seq<char>) -> Seq<char>
    decreases s.len(),
{
    if p.len() == 0 {
        s
    } else {
        match find_seq(s, p) {
            Some(i) => if 0 <= i && i + p.len() <= s.len() {
                s.subrange(0, i) + t + replace_seq(s.subrange(i + p.len(), s.len() as int), p, t)
            } else {
                s
            },
            None => s,
        }
    }
}

/// `str::replace` for a non-empty pattern.
pub fn replace_str(s: &str, p: &str, t: &str) -> (r: String)
    requires
        p@.len() > 0,
    ensures
        r@ == replace_seq(s@, p@, t@),
{
    let mut out = String::new();
    let mut rest: &str = s;
    let m = p.unicode_len();
    loop
        invariant
            m == p@.len(),
            m > 0,
            out@ + replace_seq(rest@, p@, t@) == replace_seq(s@, p@, t@),
        decreases rest@.len(),
    {
        let n = rest.unicode_len();
        match find_str(rest, p) {
            Some(i) => {
                proof {
                    lemma_find_from_facts(rest@, p@, 0);
                }
                let head = rest.substring_char(0, i);
                let tail = rest.substring_char(i + m, n);
                let ghost old_rest = rest@;
                let ghost old_out = out@;
                out.append(head);
                out.append(t);
                rest = tail;
                assert(old_out + replace_seq(old_rest, p@, t@) =~= out@ + replace_seq(rest@, p@, t@));
            },
            None => {
                let ghost old_out = out@;
                out.append(rest);
                assert(out@ =~= old_out + replace_seq(rest@, p@, t@));
                return out;
            },
        }
    }
}

/// The decimal text of a single digit.
pub open spec fn digit_text(d: nat) -> Seq<char> {
    if d == 0 {
        "0"@
    } else if d == 1 {
        "1"@
    } else if d == 2 {
        "2"@
    } else if d == 3 {
        "3"@
    } else if d == 4 {
        "4"@
    } else if d == 5 {
        "5"@
    } else if d == 6 {
        "6"@
    } else if d == 7 {
        "7"@
    } else if d == 8 {
        "8"@
    } else {
        "9"@
    }
}

/// The decimal text of `n` as `{}` formats an unsigned integer.
pub open spec fn decimal_seq(n: nat) -> Seq<char>
    decreases n,
{
    if n < 10 {
        digit_text(n)
    } else {
        decimal_seq(n / 10) + digit_text(n % 10)
    }
}

fn digit_str(d: u64) -> (r: &'static str)
    requires
        d < 10,
    ensures
        r@ == digit_text(d as nat),
{
    if d == 0 {
        "0"
    } else if d == 1 {
        "1"
    } else if d == 2 {
        "2"
    } else if d == 3 {
        "3"
    } else if d == 4 {
        "4"
    } else if d == 5 {
        "5"
    } else if d == 6 {
        "6"
    } else if d == 7 {
        "7"
    } else if d == 8 {
        "8"
    } else {
        "9"
    }
}

/// `n` formatted in decimal, as `format!("{}", n)` gives it.
pub fn decimal_string(n: usize) -> (r: String)
    ensures
        r@ == decimal_seq(n as nat),
{
    decimal_u64(n as u64)
}

/// `n` formatted in decimal, as `format!("{}", n)` gives it.
pub fn decimal_u64(n: u64) -> (r: String)
    ensures
        r@ == decimal_seq(n as nat),
    decreases n,
{
    if n < 10 {
        String::from_str(digit_str(n))
    } else {
        let mut r = decimal_u64(n / 10);
        r.append(digit_str(n % 10));
        r
    }
}

/// The decimal text of a signed integer, as `{}` formats it.
pub open spec fn signed_decimal_seq(x: int) -> Seq<char> {
    if x < 0 {
        "-"@ + decimal_seq((-x) as nat)
    } else {
        decimal_seq(x as nat)
    }
}

/// `x` formatted in decimal, as `format!("{}", x)` gives it.
pub fn decimal_i64(x: i64) -> (r: String)
    ensures
        r@ == signed_decimal_seq(x as int),
{
    if x < 0 {
        let m: i64 = -(x + 1);
        let u: u64 = (m as u64) + 1;
        let mut r = String::from_str("-");
        let d = decimal_u64(u);
        r.append(d.as_str());
        r
    } else {
        decimal_u64(x as u64)
    }
}

/// Whether `c` is one of the ASCII digits `0` to `9`.
pub open spec fn is_ascii_digit(c: char) -> bool {
    '0' <= c && c <= '9'
}

/// The value of an ASCII digit.
pub open spec fn digit_value(c: char) -> int {
    c as int - '0' as int
}

/// The value of a string of ASCII digits read in base ten.
pub open spec fn digits_value(s: Seq<char>) -> int
    decreases s.len(),
{
    if s.len() == 0 {
        0
    } else {
        digits_value(s.drop_last()) * 10 + digit_value(s.last())
    }
}

/// The digits of an unsigned number text: without one leading `+`.
pub open spec fn unsigned_digits(s: Seq<char>) -> Seq<char> {
    if s.len() > 0 && s[0] == '+' {
        s.drop_first()
    } else {
        s
    }
}

/// What `s.parse::<usize>()` gives: `Some` of the value when `s` is an
/// optional `+` followed by one or more ASCII digits whose value fits in a
/// `usize`, and `None` otherwise.
pub open spec fn parse_usize_seq(s: Seq<char>) -> Option<int> {
    let b = unsigned_digits(s);
    if b.len() > 0 && (forall|i: int| 0 <= i < b.len() ==> is_ascii_digit(#[trigger] b[i]))
        && digits_value(b) <= usize::MAX {
        Some(digits_value(b))
    } else {
        None
    }
}

proof fn lemma_digits_value_prefix_monotone(b: Seq<char>, k: int)
    requires
        0 <= k <= b.len(),
        forall|i: int| 0 <= i < b.len() ==> is_ascii_digit(#[trigger] b[i]),
    ensures
        0 <= digits_value(b.subrange(0, k)) <= digits_value(b),
    decreases b.len() - k,
{
    if k < b.len() {
        lemma_digits_value_prefix_monotone(b, k + 1);
        let t = b.subrange(0, k + 1);
        assert(t.drop_last() =~= b.subrange(0, k));
        assert(is_ascii_digit(b[k]));
        lemma_digits_value_nonneg(b.subrange(0, k));
    } else {
        assert(b.subrange(0, k) =~= b);
        lemma_digits_value_nonneg(b);
    }
}

proof fn lemma_digits_value_nonneg(b: Seq<char>)
    requires
        forall|i: int| 0 <= i < b.len() ==> is_ascii_digit(#[trigger] b[i]),
    ensures
        digits_value(b) >= 0,
    decreases b.len(),
{
    if b.len() > 0 {
        lemma_digits_value_nonneg(b.drop_last());
        assert(is_ascii_digit(b[b.len() - 1]));
    }
}

/// `s.parse::<usize>()`: the value of an optional `+` followed by ASCII
/// digits, or `None` when `s` is not such a text or its value overflows.
pub fn parse_usize(s: &str) -> (r: Option<usize>)
    ensures
        r matches Some(v) ==> parse_usize_seq(s@) == Some(v as int),
        r is None ==> parse_usize_seq(s@) is None,
{
    let n = s.unicode_len();
    let mut start: usize = 0;
    if n > 0 && s.get_char(0) == '+' {
        start = 1;
    }
    let ghost b = unsigned_digits(s@);
    assert(b =~= s@.subrange(start as int, n as int));
    if start == n {
        return None;
    }
    let mut i: usize = start;
    while i < n
        invariant
            n == s@.len(),
            start <= i <= n,
            b == s@.subrange(start as int, n as int),
            b == unsigned_digits(s@),
            forall|k: int| start <= k < i ==> is_ascii_digit(#[trigger] s@[k]),
        decreases n - i,
    {
        let c = s.get_char(i);
        if !('0' <= c && c <= '9') {
            assert(!is_ascii_digit(b[i - start]));
            return None;
        }
        i = i + 1;
    }
    assert(forall|k: int| 0 <= k < b.len() ==> is_ascii_digit(#[trigger] b[k])) by {
        assert forall|k: int| 0 <= k < b.len() implies is_ascii_digit(#[trigger] b[k]) by {
            assert(b[k] == s@[start + k]);
        }
    }
    let mut acc: usize = 0;
    let mut j: usize = start;
    assert(b.subrange(0, 0) =~= Seq::<char>::empty());
    while j < n
        invariant
            n == s@.len(),
            start <= j <= n,
            b == s@.subrange(start as int, n as int),
            b == unsigned_digits(s@),
            forall|k: int| 0 <= k < b.len() ==> is_ascii_digit(#[trigger] b[k]),
            acc as int == digits_value(b.subrange(0, (j - start) as int)),
        decreases n - j,
    {
        let c = s.get_char(j);
        assert(c == b[j - start]);
        assert(is_ascii_digit(b[j - start]));
        let d = (c as u32 - '0' as u32) as usize;
        let ghost t = b.subrange(0, (j - start + 1) as int);
        assert(t.drop_last() =~= b.subrange(0, (j - start) as int));
        assert(t.last() == c);
        match acc.checked_mul(10) {
            Some(a10) => match a10.checked_add(d) {
                Some(next) => {
                    acc = next;
                },
                None => {
                    proof {
                        lemma_digits_value_prefix_monotone(b, (j - start + 1) as int);
                    }
                    return None;
                },
            },
            None => {
                proof {
                    lemma_digits_value_prefix_monotone(b, (j - start + 1) as int);
                }
                return None;
            },
        }
        j = j + 1;
    }
    assert(b.subrange(0, (n - start) as int) =~= b);
    Some(acc)
}

/// A line without the carriage return that ends it, if any.
pub open spec fn strip_cr(l: Seq<char>) -> Seq<char> {
    if l.len() > 0 && l.last() == '\r' {
        l.drop_last()
    } else {
        l
    }
}

/// The lines of `s` as `str::lines` gives them: split at `\n` or `\r\n`,
/// where a final line ending adds no empty line and an empty `s` has none.
pub open spec fn lines_seq(s: Seq<char>) -> Seq<Seq<char>>
    decreases s.len(),
{
    if s.len() == 0 {
        seq![]
    } else {
        match index_of_char(s, '\n') {
            Some(i) => if 0 <= i < s.len() {
                seq![strip_cr(s.subrange(0, i))] + lines_seq(s.subrange(i + 1, s.len() as int))
            } else {
                seq![s]
            },
            None => seq![s],
        }
    }
}

/// The pieces in `parts` with `sep` between each two of them, as
/// `[T]::join` gives it.
pub open spec fn join_seq(parts: Seq<Seq<char>>, sep: Seq<char>) -> Seq<char>
    decreases parts.len(),
{
    if parts.len() == 0 {
        seq![]
    } else if parts.len() == 1 {
        parts[0]
    } else {
        join_seq(parts.drop_last(), sep) + sep + parts.last()
    }
}

/// `str::lines`: the lines of `s` without their line endings.
pub fn lines_str<'a>(s: &'a str) -> (r: Vec<&'a str>)
    ensures
        r@.map_values(|x: &str| x@) == lines_seq(s@),
{
    let mut out: Vec<&'a str> = Vec::new();
    let mut rest: &'a str = s;
    loop
        invariant
            out@.map_values(|x: &str| x@) + lines_seq(rest@) == lines_seq(s@),
        decreases rest@.len(),
    {
        let n = rest.unicode_len();
        if n == 0 {
            assert(out@.map_values(|x: &str| x@) + lines_seq(rest@) =~= out@.map_values(|x: &str| x@));
            return out;
        }
        let ghost old_out = out@.map_values(|x: &str| x@);
        let ghost old_rest = rest@;
        match find_char(rest, '\n') {
            Some(i) => {
                let mut end = i;
                if i > 0 && rest.get_char(i - 1) == '\r' {
                    end = i - 1;
                }
                let line = rest.substring_char(0, end);
                assert(line@ =~= strip_cr(old_rest.subrange(0, i as int)));
                let tail = rest.substring_char(i + 1, n);
                out.push(line);
                rest = tail;
                assert(out@.map_values(|x: &str| x@) =~= old_out.push(line@));
                assert(old_out + lines_seq(old_rest) =~= out@.map_values(|x: &str| x@) + lines_seq(rest@));
            },
            None => {
                out.push(rest);
                assert(out@.map_values(|x: &str| x@) =~= old_out + lines_seq(old_rest));
                return out;
            },
        }
    }
}

/// `parts` joined with `sep`, as `[String]::join` gives it.
pub fn join_strings(parts: &Vec<String>, sep: &str) -> (r: String)
    ensures
        r@ == join_seq(parts.deep_view(), sep@),
{
    let mut out = String::new();
    let mut i: usize = 0;
    let ghost views = parts.deep_view();
    while i < parts.len()
        invariant
            views == parts.deep_view(),
            i <= parts.len(),
            out@ == join_seq(views.subrange(0, i as int), sep@),
        decreases parts.len() - i,
    {
        let ghost prefix = views.subrange(0, i as int + 1);
        assert(prefix.drop_last() =~= views.subrange(0, i as int));
        if i > 0 {
            out.append(sep);
        } else {
            assert(views.subrange(0, 0) =~= Seq::<Seq<char>>::empty());
        }
        out.append(parts[i].as_str());
        i = i + 1;
    }
    assert(views.subrange(0, parts.len() as int) =~= views);
    out
}

/// `t` between double quotes.
pub open spec fn quoted(t: Seq<char>) -> Seq<char> {
    "\""@ + t + "\""@
}

/// `format!("\"{}\"", t)`.
pub fn quote(t: &str) -> (r: String)
    ensures
        r@ == quoted(t@),
{
    let mut r = String::from_str("\"");
    r.append(t);
    r.append("\"");
    r
}

/// Each of `items` between double quotes.
pub fn quote_all(items: &Vec<String>) -> (r: Vec<String>)
    ensures
        r.deep_view() == items.deep_view().map_values(|t: Seq<char>| quoted(t)),
{
    let mut out: Vec<String> = Vec::new();
    let mut i: usize = 0;
    while i < items.len()
        invariant
            i <= items.len(),
            out.deep_view() =~= items.deep_view().subrange(0, i as int).map_values(
                |t: Seq<char>| quoted(t),
            ),
        decreases items.len() - i,
    {
        let ghost before = out.deep_view();
        let q = quote(items[i].as_str());
        out.push(q);
        assert(out.deep_view() =~= before.push(q@));
        assert(items.deep_view().subrange(0, i as int + 1).map_values(|t: Seq<char>| quoted(t))
            =~= items.deep_view().subrange(0, i as int).map_values(|t: Seq<char>| quoted(t)).push(
            quoted(items.deep_view()[i as int]),
        ));
        i = i + 1;
    }
    assert(items.deep_view().subrange(0, items.len() as int) =~= items.deep_view());
    out
}

/// The last index of `c` in `s`.
pub open spec fn last_index_of(s: Seq<char>, c: char) -> Option<int>
    decreases s.len(),
{
    if s.len() == 0 {
        None
    } else if s.last() == c {
        Some(s.len() - 1)
    } else {
        last_index_of(s.drop_last(), c)
    }
}

pub proof fn lemma_last_index_of(s: Seq<char>, c: char)
    ensures
        last_index_of(s, c) matches Some(i) ==> 0 <= i < s.len() && s[i] == c && forall|j: int|
            i < j < s.len() ==> s[j] != c,
        last_index_of(s, c) is None ==> forall|j: int| 0 <= j < s.len() ==> s[j] != c,
    decreases s.len(),
{
    if s.len() > 0 {
        assert(s.last() == s[s.len() - 1]);
        if s.last() != c {
            lemma_last_index_of(s.drop_last(), c);
            assert forall|j: int| 0 <= j < s.len() - 1 implies s.drop_last()[j] == s[j] by {}
        }
    }
}

/// `str::rfind` with a `char` pattern, counted in characters.
pub fn rfind_char(s: &str, c: char) -> (r: Option<usize>)
    ensures
        r matches Some(k) ==> last_index_of(s@, c) == Some(k as int) && k < s@.len(),
        r is None ==> last_index_of(s@, c) is None,
{
    let n = s.unicode_len();
    let mut i: usize = n;
    assert(s@.subrange(0, n as int) =~= s@);
    while i > 0
        invariant
            n == s@.len(),
            i <= n,
            last_index_of(s@, c) == last_index_of(s@.subrange(0, i as int), c),
        decreases i,
    {
        let ghost prefix = s@.subrange(0, i as int);
        assert(prefix.drop_last() =~= s@.subrange(0, i as int - 1));
        if s.get_char(i - 1) == c {
            return Some(i - 1);
        }
        i = i - 1;
    }
    None
}


/// An occurrence of `p` makes `s` contain it.
pub proof fn lemma_occurs_contains(s: Seq<char>, p: Seq<char>, i: int)
    requires
        occurs_at(s, p, i),
    ensures
        contains_seq(s, p),
{
    lemma_find_from_facts(s, p, 0);
}

/// `p` occurs in `a + p + b` right after `a`.
pub proof fn lemma_contains_middle(a: Seq<char>, p: Seq<char>, b: Seq<char>)
    ensures
        occurs_at(a + p + b, p, a.len() as int),
        contains_seq(a + p + b, p),
{
    assert((a + p + b).subrange(a.len() as int, a.len() + p.len() as int) =~= p);
    lemma_occurs_contains(a + p + b, p, a.len() as int);
}

/// Where the text left by `trim_start_seq` begins in `s`.
proof fn lemma_trim_start_occurs(s: Seq<char>) -> (k: int)
    ensures
        0 <= k <= s.len(),
        trim_start_seq(s) == s.subrange(k, s.len() as int),
        forall|j: int| 0 <= j < k ==> unicode_white_space(#[trigger] s[j]),
    decreases s.len(),
{
    if s.len() > 0 && unicode_white_space(s[0]) {
        let k = lemma_trim_start_occurs(s.drop_first());
        assert(s.drop_first().subrange(k, s.drop_first().len() as int) =~= s.subrange(k + 1, s.len() as int));
        assert forall|j: int| 0 <= j < k + 1 implies unicode_white_space(#[trigger] s[j]) by {
            if j > 0 {
                assert(s[j] == s.drop_first()[j - 1]);
            }
        }
        k + 1
    } else {
        assert(s.subrange(0, s.len() as int) =~= s);
        0
    }
}

/// What `trim_end_seq` leaves is a prefix of `s`.
proof fn lemma_trim_end_prefix(s: Seq<char>)
    ensures
        trim_end_seq(s).len() <= s.len(),
        trim_end_seq(s) == s.subrange(0, trim_end_seq(s).len() as int),
    decreases s.len(),
{
    if s.len() > 0 && unicode_white_space(s.last()) {
        lemma_trim_end_prefix(s.drop_last());
        let t = trim_end_seq(s.drop_last());
        assert(s.drop_last().subrange(0, t.len() as int) =~= s.subrange(0, t.len() as int));
    } else {
        assert(s.subrange(0, s.len() as int) =~= s);
    }
}

/// Each piece occurs in the pieces joined.
pub proof fn lemma_join_occurs(parts: Seq<Seq<char>>, sep: Seq<char>, n: int) -> (k: int)
    requires
        0 <= n < parts.len(),
    ensures
        occurs_at(join_seq(parts, sep), parts[n], k),
    decreases parts.len(),
{
    if parts.len() == 1 {
        assert(join_seq(parts, sep).subrange(0, parts[0].len() as int) =~= parts[0]);
        0
    } else {
        let a = join_seq(parts.drop_last(), sep);
        if n == parts.len() - 1 {
            lemma_contains_middle(a + sep, parts.last(), seq![]);
            assert(a + sep + parts.last() + Seq::<char>::empty() =~= join_seq(parts, sep));
            (a + sep).len() as int
        } else {
            let k = lemma_join_occurs(parts.drop_last(), sep, n);
            assert(parts.drop_last()[n] == parts[n]);
            assert(join_seq(parts, sep).subrange(k, k + parts[n].len()) =~= a.subrange(k, k + parts[n].len()));
            k
        }
    }
}


proof fn lemma_digit_text(d: nat)
    requires
        d < 10,
    ensures
        digit_text(d).len() == 1,
        is_ascii_digit(digit_text(d)[0]),
        digit_value(digit_text(d)[0]) == d,
{
    reveal_strlit("0");
    reveal_strlit("1");
    reveal_strlit("2");
    reveal_strlit("3");
    reveal_strlit("4");
    reveal_strlit("5");
    reveal_strlit("6");
    reveal_strlit("7");
    reveal_strlit("8");
    reveal_strlit("9");
}

pub proof fn lemma_decimal_digits(n: nat)
    ensures
        decimal_seq(n).len() > 0,
        forall|i: int| 0 <= i < decimal_seq(n).len() ==> is_ascii_digit(#[trigger] decimal_seq(n)[i]),
        digits_value(decimal_seq(n)) == n,
    decreases n,
{
    if n < 10 {
        lemma_digit_text(n);
        let s = digit_text(n);
        assert(s.drop_last() =~= Seq::<char>::empty());
        assert(s.last() == s[0]);
        assert(decimal_seq(n) == s);
        assert(digits_value(s) == digits_value(s.drop_last()) * 10 + digit_value(s[0]));
    } else {
        lemma_decimal_digits(n / 10);
        lemma_digit_text(n % 10);
        let a = decimal_seq(n / 10);
        let b = digit_text(n % 10);
        assert((a + b).drop_last() =~= a);
        assert((a + b).last() == b[0]);
        assert forall|i: int| 0 <= i < (a + b).len() implies is_ascii_digit(#[trigger] (a + b)[i]) by {
            if i < a.len() {
                assert((a + b)[i] == a[i]);
            } else {
                assert((a + b)[i] == b[i - a.len()]);
            }
        }
        assert((n / 10) * 10 + n % 10 == n) by (nonlinear_arith);
        assert(decimal_seq(n) == a + b);
        assert(digits_value(a + b) == digits_value(a) * 10 + digit_value(b[0]));
    }
}

/// Reading back a number printed in decimal gives the number: the menu
/// numbers that `decimal_string` prints are the ones `parse_usize` reads.
pub proof fn law_parse_reads_decimal(n: nat)
    requires
        n <= usize::MAX,
    ensures
        parse_usize_seq(decimal_seq(n)) == Some(n as int),
{
    lemma_decimal_digits(n);
    let s = decimal_seq(n);
    assert(is_ascii_digit(s[0]));
    assert(unsigned_digits(s) == s);
}

/// Every character of `w` is white space.
pub open spec fn all_white_space(w: Seq<char>) -> bool {
    forall|i: int| 0 <= i < w.len() ==> unicode_white_space(#[trigger] w[i])
}

proof fn lemma_trim_start_skips(w: Seq<char>, s: Seq<char>)
    requires
        all_white_space(w),
    ensures
        trim_start_seq(w + s) == trim_start_seq(s),
    decreases w.len(),
{
    if w.len() == 0 {
        assert(w + s =~= s);
    } else {
        assert((w + s)[0] == w[0]);
        assert((w + s).drop_first() =~= w.drop_first() + s);
        assert forall|i: int| 0 <= i < w.drop_first().len() implies unicode_white_space(
            #[trigger] w.drop_first()[i],
        ) by {
            assert(w.drop_first()[i] == w[i + 1]);
        }
        lemma_trim_start_skips(w.drop_first(), s);
    }
}

proof fn lemma_trim_end_skips(s: Seq<char>, w: Seq<char>)
    requires
        all_white_space(w),
    ensures
        trim_end_seq(s + w) == trim_end_seq(s),
    decreases w.len(),
{
    if w.len() == 0 {
        assert(s + w =~= s);
    } else {
        assert((s + w).last() == w.last());
        assert((s + w).drop_last() =~= s + w.drop_last());
        assert forall|i: int| 0 <= i < w.drop_last().len() implies unicode_white_space(
            #[trigger] w.drop_last()[i],
        ) by {
            assert(w.drop_last()[i] == w[i]);
        }
        lemma_trim_end_skips(s, w.drop_last());
    }
}

proof fn lemma_trim_start_append(s: Seq<char>, w: Seq<char>)
    ensures
        trim_start_seq(s).len() > 0 ==> trim_start_seq(s + w) == trim_start_seq(s) + w,
        trim_start_seq(s).len() == 0 ==> trim_start_seq(s + w) == trim_start_seq(w),
    decreases s.len(),
{
    if s.len() == 0 {
        assert(s + w =~= w);
    } else {
        assert((s + w)[0] == s[0]);
        assert((s + w).drop_first() =~= s.drop_first() + w);
        lemma_trim_start_append(s.drop_first(), w);
    }
}

proof fn lemma_trim_start_head(s: Seq<char>)
    ensures
        trim_start_seq(s).len() > 0 ==> !unicode_white_space(trim_start_seq(s)[0]),
    decreases s.len(),
{
    if s.len() > 0 && unicode_white_space(s[0]) {
        lemma_trim_start_head(s.drop_first());
    }
}

proof fn lemma_trim_end_tail(s: Seq<char>)
    ensures
        trim_end_seq(s).len() > 0 ==> !unicode_white_space(trim_end_seq(s).last()),
        trim_end_seq(s).len() == 0 ==> all_white_space(s),
    decreases s.len(),
{
    if s.len() > 0 && unicode_white_space(s.last()) {
        lemma_trim_end_tail(s.drop_last());
        if trim_end_seq(s).len() == 0 {
            assert forall|i: int| 0 <= i < s.len() implies unicode_white_space(#[trigger] s[i]) by {
                if i < s.len() - 1 {
                    assert(s[i] == s.drop_last()[i]);
                }
            }
        }
    }
}

/// Trimming is done at once: trimming again changes nothing, and white
/// space added around a text is removed with the rest.
pub proof fn law_trim_settles(s: Seq<char>, w1: Seq<char>, w2: Seq<char>)
    ensures
        trim_seq(trim_seq(s)) == trim_seq(s),
        all_white_space(w1) && all_white_space(w2) ==> trim_seq(w1 + s + w2) == trim_seq(s),
{
    let t = trim_start_seq(s);
    let e = trim_end_seq(t);
    lemma_trim_end_prefix(t);
    lemma_trim_start_head(s);
    lemma_trim_end_tail(t);
    if e.len() > 0 {
        assert(e[0] == t[0]);
        assert(trim_start_seq(e) == e);
        lemma_trim_end_tail(e);
    } else {
        assert(trim_start_seq(e) =~= e);
    }
    assert(trim_end_seq(e) == e);
    if all_white_space(w1) && all_white_space(w2) {
        assert(w1 + s + w2 =~= w1 + (s + w2));
        lemma_trim_start_skips(w1, s + w2);
        lemma_trim_start_append(s, w2);
        if t.len() > 0 {
            lemma_trim_end_skips(t, w2);
        } else {
            lemma_trim_start_skips(w2, Seq::<char>::empty());
            assert(w2 + Seq::<char>::empty() =~= w2);
        }
    }
}

/// A text whose trimmed form is empty holds only white space.
pub proof fn lemma_blank_is_white_space(s: Seq<char>)
    requires
        trim_seq(s).len() == 0,
    ensures
        all_white_space(s),
{
    let k = lemma_trim_start_occurs(s);
    lemma_trim_end_tail(trim_start_seq(s));
    assert forall|i: int| 0 <= i < s.len() implies unicode_white_space(#[trigger] s[i]) by {
        if i >= k {
            assert(s[i] == trim_start_seq(s)[i - k]);
        }
    }
}

/// Where `c` first occurs in `s`, if anywhere.
pub proof fn lemma_index_of_char(s: Seq<char>, c: char)
    ensures
        index_of_char(s, c) matches Some(i) ==> 0 <= i < s.len() && s[i] == c && forall|j: int|
            0 <= j < i ==> s[j] != c,
        index_of_char(s, c) is None ==> forall|j: int| 0 <= j < s.len() ==> s[j] != c,
{
    lemma_find_from_facts(s, seq![c], 0);
    match index_of_char(s, c) {
        Some(i) => {
            assert(s.subrange(i, i + 1)[0] == s[i]);
            assert forall|j: int| 0 <= j < i implies s[j] != c by {
                if s[j] == c {
                    assert(s.subrange(j, j + 1) =~= seq![c]);
                    assert(occurs_at(s, seq![c], j));
                }
            }
        },
        None => {
            assert forall|j: int| 0 <= j < s.len() implies s[j] != c by {
                if s[j] == c {
                    assert(s.subrange(j, j + 1) =~= seq![c]);
                    assert(occurs_at(s, seq![c], j));
                }
            }
        },
    }
}

/// Splitting at `c` a text joined with `c` splits each part.
pub proof fn law_split_joined(p: Seq<char>, q: Seq<char>, c: char)
    ensures
        split_seq(p + seq![c] + q, c) == split_seq(p, c) + split_seq(q, c),
    decreases p.len(),
{
    let t = p + seq![c] + q;
    lemma_index_of_char(t, c);
    lemma_index_of_char(p, c);
    match index_of_char(p, c) {
        Some(i) => {
            assert(t[i] == c);
            assert forall|j: int| 0 <= j < i implies t[j] != c by {
                assert(t[j] == p[j]);
            }
            assert(index_of_char(t, c) == Some(i)) by {
                match index_of_char(t, c) {
                    Some(i2) => {
                        if i2 < i {
                            assert(t[i2] == p[i2]);
                        }
                    },
                    None => {},
                }
            }
            let rest = p.subrange(i + 1, p.len() as int);
            law_split_joined(rest, q, c);
            assert(t.subrange(0, i) =~= p.subrange(0, i));
            assert(t.subrange(i + 1, t.len() as int) =~= rest + seq![c] + q);
            assert(split_seq(t, c) =~= seq![p.subrange(0, i)] + split_seq(rest, c) + split_seq(q, c));
        },
        None => {
            let n = p.len() as int;
            assert(t[n] == c);
            assert forall|j: int| 0 <= j < n implies t[j] != c by {
                assert(t[j] == p[j]);
            }
            assert(index_of_char(t, c) == Some(n)) by {
                match index_of_char(t, c) {
                    Some(i2) => {
                        if i2 < n {
                            assert(t[i2] == p[i2]);
                        }
                    },
                    None => {},
                }
            }
            assert(t.subrange(0, n) =~= p);
            assert(t.subrange(n + 1, t.len() as int) =~= q);
        },
    }
}

} // verus!
