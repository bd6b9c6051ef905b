//! Verified helpers over strings and character sequences: case folding,
//! substring search, path-name manipulation and decimal formatting.
use vstd::prelude::*;

verus! {

/// ASCII lower-casing of one character; everything outside 'A'..'Z' is kept.
pub open spec fn lower_char(c: char) -> char {
    if 'A' <= c && c <= 'Z' {
        ((c as u8) + 32) as char
    } else {
        c
    }
}

/// ASCII lower-casing of a character sequence.
pub open spec fn lower_chars(s: Seq<char>) -> Seq<char> {
    s.map_values(|c: char| lower_char(c))
}

/// Executable ASCII lower-casing of one character.
pub fn lower_char_exec(c: char) -> (r: char)
    ensures
        r == lower_char(c),
{
    if 'A' <= c && c <= 'Z' {
        ((c as u8) + 32) as char
    } else {
        c
    }
}

/// The characters of `s`, as a vector.
pub fn to_chars(s: &str) -> (r: Vec<char>)
    ensures
        r@ == s@,
{
    let n = s.unicode_len();
    let mut r: Vec<char> = Vec::new();
    for i in 0..n
        invariant
            n == s@.len(),
            r@ == s@.take(i as int),
    {
        r.push(s.get_char(i));
        assert(r@ == s@.take(i + 1));
    }
    assert(s@.take(n as int) == s@);
    r
}

/// Relies on String::push: appends one character to the string.
#[verifier::external_body]
pub fn push_char(s: &mut String, c: char)
    ensures
        final(s)@ == old(s)@.push(c),
{
    s.push(c);
}

/// A string holding exactly the characters of `v`.
pub fn from_chars(v: &Vec<char>) -> (r: String)
    ensures
        r@ == v@,
{
    let mut r = String::new();
    let n = v.len();
    for i in 0..n
        invariant
            n == v@.len(),
            r@ == v@.take(i as int),
    {
        push_char(&mut r, v[i]);
        assert(r@ == v@.take(i + 1));
    }
    assert(v@.take(n as int) == v@);
    r
}

/// Executable ASCII lower-casing of a character vector.
pub fn lower_chars_exec(v: &Vec<char>) -> (r: Vec<char>)
    ensures
        r@ == lower_chars(v@),
{
    let mut r: Vec<char> = Vec::new();
    let n = v.len();
    for i in 0..n
        invariant
            n == v@.len(),
            r@ == lower_chars(v@.take(i as int)),
    {
        r.push(lower_char_exec(v[i]));
        assert(r@ == lower_chars(v@.take(i + 1))) by {
            assert(v@.take(i + 1).map_values(|c: char| lower_char(c))
                =~= v@.take(i as int).map_values(|c: char| lower_char(c)).push(lower_char(v@[i as int])));
        }
    }
    assert(v@.take(n as int) == v@);
    r
}

/// The ASCII lower-casing of a string, as characters.
pub fn lower_str_chars(s: &str) -> (r: Vec<char>)
    ensures
        r@ == lower_chars(s@),
{
    let cs = to_chars(s);
    lower_chars_exec(&cs)
}

/// ASCII upper-casing of one character; everything outside 'a'..'z' is kept.
pub open spec fn upper_char(c: char) -> char {
    if 'a' <= c && c <= 'z' {
        ((c as u8) - 32) as char
    } else {
        c
    }
}

/// ASCII upper-casing of a character sequence.
pub open spec fn upper_chars(s: Seq<char>) -> Seq<char> {
    s.map_values(|c: char| upper_char(c))
}

/// Executable ASCII upper-casing of a character vector.
pub fn upper_chars_exec(v: &Vec<char>) -> (r: Vec<char>)
    ensures
        r@ == upper_chars(v@),
{
    let mut r: Vec<char> = Vec::new();
    let n = v.len();
    for i in 0..n
        invariant
            n == v@.len(),
            r@ == upper_chars(v@.take(i as int)),
    {
        let c = v[i];
        let u: char = if 'a' <= c && c <= 'z' {
            ((c as u8) - 32) as char
        } else {
            c
        };
        assert(u == upper_char(v@[i as int]));
        r.push(u);
        assert(r@ == upper_chars(v@.take(i + 1))) by {
            assert(v@.take(i + 1).map_values(|c: char| upper_char(c))
                =~= v@.take(i as int).map_values(|c: char| upper_char(c)).push(upper_char(v@[i as int])));
        }
    }
    assert(v@.take(n as int) == v@);
    r
}

/// `n` occurs in `h` starting at position `i`.
pub open spec fn matches_at(h: Seq<char>, n: Seq<char>, i: int) -> bool {
    0 <= i && i + n.len() <= h.len() && h.subrange(i, i + n.len()) == n
}

/// `n` occurs somewhere in `h`.
pub open spec fn has_substring(h: Seq<char>, n: Seq<char>) -> bool {
    exists|i: int| matches_at(h, n, i)
}

fn eq_from(h: &Vec<char>, n: &Vec<char>, i: usize) -> (r: bool)
    requires
        i + n@.len() <= h@.len(),
    ensures
        r == matches_at(h@, n@, i as int),
{
    let m = n.len();
    let hn = h.len();
    for j in 0..m
        invariant
            m == n@.len(),
            hn == h@.len(),
            i + m <= hn,
            forall|k: int| 0 <= k < j ==> h@[i + k] == n@[k],
    {
        if h[i + j] != n[j] {
            assert(h@.subrange(i as int, i + n@.len())[j as int] != n@[j as int]);
            return false;
        }
    }
    assert(h@.subrange(i as int, i + n@.len()) =~= n@);
    true
}

/// Substring search over character vectors.
pub fn contains_chars(h: &Vec<char>, n: &Vec<char>) -> (r: bool)
    ensures
        r == has_substring(h@, n@),
{
    if n.len() > h.len() {
        assert(forall|i: int| !matches_at(h@, n@, i));
        return false;
    }
    if n.len() == 0 {
        assert(h@.subrange(0, 0) =~= n@);
        assert(matches_at(h@, n@, 0));
        return true;
    }
    let hn = h.len();
    let last = hn - n.len();
    let mut i: usize = 0;
    while i <= last
        invariant
            1 <= n@.len() <= h@.len(),
            hn == h@.len(),
            last == h@.len() - n@.len(),
            i <= last + 1,
            forall|k: int| 0 <= k < i ==> !matches_at(h@, n@, k),
        decreases last + 1 - i,
    {
        if eq_from(h, n, i) {
            assert(matches_at(h@, n@, i as int));
            return true;
        }
        i = i + 1;
    }
    assert(forall|k: int| !matches_at(h@, n@, k));
    false
}

/// `s` contains the (ASCII) marker `m`, compared case-insensitively.
pub open spec fn contains_lower(s: Seq<char>, m: Seq<char>) -> bool {
    has_substring(lower_chars(s), m)
}

/// Everything after the last `/` of `p`; `p` itself when it holds no `/`.
pub open spec fn base_name(p: Seq<char>) -> Seq<char>
    decreases p.len(),
{
    if p.len() == 0 {
        p
    } else if p.last() == '/' {
        Seq::empty()
    } else {
        base_name(p.drop_last()).push(p.last())
    }
}

pub proof fn lemma_base_name_subrange(p: Seq<char>, j: int)
    requires
        0 <= j <= p.len(),
        forall|k: int| j <= k < p.len() ==> p[k] != '/',
        j > 0 ==> p[j - 1] == '/',
    ensures
        base_name(p) == p.subrange(j, p.len() as int),
    decreases p.len(),
{
    if j == p.len() {
        if p.len() == 0 {
            assert(base_name(p) =~= p.subrange(j, p.len() as int));
        } else {
            assert(p.last() == '/');
            assert(base_name(p) =~= p.subrange(j, p.len() as int));
        }
    } else {
        assert(p.last() != '/');
        lemma_base_name_subrange(p.drop_last(), j);
        assert(p.drop_last().subrange(j, p.len() - 1) =~= p.subrange(j, p.len() - 1));
        assert(base_name(p) =~= p.subrange(j, p.len() as int));
    }
}

/// Everything after the last `/`, computed on a character vector.
pub fn base_name_chars(p: &Vec<char>) -> (r: Vec<char>)
    ensures
        r@ == base_name(p@),
{
    let n = p.len();
    let mut j: usize = n;
    while j > 0 && p[j - 1] != '/'
        invariant
            n == p@.len(),
            j <= n,
            forall|k: int| j <= k < n ==> p@[k] != '/',
        decreases j,
    {
        j = j - 1;
    }
    proof {
        lemma_base_name_subrange(p@, j as int);
    }
    let mut r: Vec<char> = Vec::new();
    for i in j..n
        invariant
            n == p@.len(),
            j <= i <= n,
            r@ == p@.subrange(j as int, i as int),
    {
        r.push(p[i]);
        assert(r@ =~= p@.subrange(j as int, i + 1));
    }
    r
}

/// Everything after the last `/` of a path string.
pub fn base_name_str(p: &str) -> (r: String)
    ensures
        r@ == base_name(p@),
{
    let cs = to_chars(p);
    let b = base_name_chars(&cs);
    from_chars(&b)
}

/// `a` followed by `/` followed by `b`.
pub open spec fn joined(a: Seq<char>, b: Seq<char>) -> Seq<char> {
    a + seq!['/'] + b
}

/// The base name of a joined path is the joined name, whenever the name
/// holds no separator of its own.
pub proof fn lemma_base_name_of_joined(a: Seq<char>, name: Seq<char>)
    requires
        forall|i: int| 0 <= i < name.len() ==> name[i] != '/',
    ensures
        base_name(joined(a, name)) == name,
{
    let p = joined(a, name);
    assert(p.len() == a.len() + 1 + name.len());
    assert(p[a.len() as int] == '/');
    assert(forall|k: int| a.len() + 1 <= k < p.len() ==> p[k] == name[k - a.len() - 1] && p[k] != '/');
    lemma_base_name_subrange(p, a.len() as int + 1);
    assert(p.subrange(a.len() as int + 1, p.len() as int) =~= name);
}

/// Joins two path fragments with a `/` separator.
pub fn join_path(a: &str, b: &str) -> (r: String)
    ensures
        r@ == joined(a@, b@),
{
    let mut r = a.to_owned();
    push_char(&mut r, '/');
    r.append(b);
    assert(r@ =~= joined(a@, b@));
    r
}

/// `pre` is a prefix of `s`.
pub fn starts_with_chars(s: &Vec<char>, pre: &Vec<char>) -> (r: bool)
    ensures
        r == pre@.is_prefix_of(s@),
{
    if pre.len() > s.len() {
        return false;
    }
    eq_from(s, pre, 0)
}

/// The character for one decimal digit value.
pub open spec fn digit_char(d: int) -> char {
    (('0' as u8) + d as u8) as char
}

/// Decimal representation of a non-negative integer, most significant digit first.
pub open spec fn dec_chars(n: int) -> Seq<char>
    decreases n,
{
    if n < 10 {
        seq![digit_char(n)]
    } else {
        dec_chars(n / 10).push(digit_char(n % 10))
    }
}

fn digit_char_exec(d: u64) -> (r: char)
    requires
        d < 10,
    ensures
        r == digit_char(d as int),
{
    (('0' as u8) + d as u8) as char
}

/// The decimal digits of `n`.
pub fn u64_to_dec(n: u64) -> (r: String)
    ensures
        r@ == dec_chars(n as int),
    decreases n,
{
    if n < 10 {
        let mut r = String::new();
        push_char(&mut r, digit_char_exec(n));
        assert(r@ =~= dec_chars(n as int));
        r
    } else {
        let mut r = u64_to_dec(n / 10);
        push_char(&mut r, digit_char_exec(n % 10));
        r
    }
}

/// Two decimal digits, zero padded.
pub open spec fn dec2(n: int) -> Seq<char> {
    seq![digit_char(n / 10), digit_char(n % 10)]
}

/// `n` as two decimal digits, zero padded.
pub fn u64_to_dec2(n: u64) -> (r: String)
    requires
        n < 100,
    ensures
        r@ == dec2(n as int),
{
    let mut r = String::new();
    push_char(&mut r, digit_char_exec(n / 10));
    push_char(&mut r, digit_char_exec(n % 10));
    assert(r@ =~= dec2(n as int));
    r
}

/// Four decimal digits, zero padded.
pub open spec fn dec4(n: int) -> Seq<char> {
    seq![
        digit_char(n / 1000),
        digit_char(n / 100 % 10),
        digit_char(n / 10 % 10),
        digit_char(n % 10),
    ]
}

/// `n` as four decimal digits, zero padded.
pub fn u64_to_dec4(n: u64) -> (r: String)
    requires
        n < 10000,
    ensures
        r@ == dec4(n as int),
{
    let mut r = String::new();
    push_char(&mut r, digit_char_exec(n / 1000));
    push_char(&mut r, digit_char_exec(n / 100 % 10));
    push_char(&mut r, digit_char_exec(n / 10 % 10));
    push_char(&mut r, digit_char_exec(n % 10));
    assert(r@ =~= dec4(n as int));
    r
}

/// A decimal digit.
pub open spec fn is_digit(c: char) -> bool {
    '0' <= c && c <= '9'
}

/// The value of a decimal digit character.
pub open spec fn digit_val(c: char) -> int {
    (c as u8) - ('0' as u8)
}

/// Every character of `s` is a decimal digit.
pub open spec fn all_digits(s: Seq<char>) -> bool {
    forall|i: int| 0 <= i < s.len() ==> is_digit(#[trigger] s[i])
}

/// The integer a digit sequence denotes.
pub open spec fn chars_to_int(s: Seq<char>) -> int
    decreases s.len(),
{
    if s.len() == 0 {
        0
    } else {
        chars_to_int(s.drop_last()) * 10 + digit_val(s.last())
    }
}

proof fn lemma_chars_to_int_nonneg(s: Seq<char>)
    requires
        all_digits(s),
    ensures
        chars_to_int(s) >= 0,
    decreases s.len(),
{
    if s.len() > 0 {
        assert(all_digits(s.drop_last()));
        lemma_chars_to_int_nonneg(s.drop_last());
    }
}

proof fn lemma_chars_to_int_prefix(s: Seq<char>, k: int)
    requires
        all_digits(s),
        0 <= k <= s.len(),
    ensures
        chars_to_int(s.take(k)) <= chars_to_int(s),
    decreases s.len() - k,
{
    if k < s.len() {
        assert(all_digits(s.take(k)));
        lemma_chars_to_int_nonneg(s.take(k));
        assert(s.take(k + 1).drop_last() =~= s.take(k));
        assert(chars_to_int(s.take(k + 1)) == chars_to_int(s.take(k)) * 10 + digit_val(s.take(k + 1).last()));
        lemma_chars_to_int_prefix(s, k + 1);
    } else {
        assert(s.take(k) =~= s);
    }
}

/// Parses `v[from..to]` as a decimal `u64`. Succeeds exactly when the range is
/// non-empty, all digits, and the value fits.
pub fn parse_u64_range(v: &Vec<char>, from: usize, to: usize) -> (r: Option<u64>)
    requires
        from <= to <= v@.len(),
    ensures
        match r {
            Some(n) => all_digits(v@.subrange(from as int, to as int)) && from < to
                && n == chars_to_int(v@.subrange(from as int, to as int)),
            None => from == to || !all_digits(v@.subrange(from as int, to as int))
                || chars_to_int(v@.subrange(from as int, to as int)) > u64::MAX,
        },
{
    if from == to {
        return None;
    }
    let ghost s = v@.subrange(from as int, to as int);
    let mut acc: u64 = 0;
    let mut i: usize = from;
    while i < to
        invariant
            from <= i <= to <= v@.len(),
            s == v@.subrange(from as int, to as int),
            all_digits(s.take(i - from)),
            acc == chars_to_int(s.take(i - from)),
        decreases to - i,
    {
        let c = v[i];
        if !('0' <= c && c <= '9') {
            assert(!is_digit(s[i - from]));
            assert(!all_digits(s));
            return None;
        }
        let d: u64 = (c as u8 - '0' as u8) as u64;
        proof {
            assert(s.take(i - from + 1).drop_last() =~= s.take(i - from));
            assert(all_digits(s.take(i - from + 1)));
        }
        if acc > (u64::MAX - d) / 10 {
            proof {
                assert(chars_to_int(s.take(i - from + 1)) == acc * 10 + d);
                assert(chars_to_int(s.take(i - from + 1)) > u64::MAX);
                if all_digits(s) {
                    lemma_chars_to_int_prefix(s, i - from + 1);
                }
            }
            return None;
        }
        acc = acc * 10 + d;
        i = i + 1;
    }
    assert(s.take(to - from) =~= s);
    Some(acc)
}

/// Parses a whole character vector as a decimal `u64`.
pub fn parse_u64_chars(v: &Vec<char>) -> (r: Option<u64>)
    ensures
        match r {
            Some(n) => all_digits(v@) && v@.len() > 0 && n == chars_to_int(v@),
            None => v@.len() == 0 || !all_digits(v@) || chars_to_int(v@) > u64::MAX,
        },
{
    let n = v.len();
    let r = parse_u64_range(v, 0, n);
    assert(v@.subrange(0, n as int) =~= v@);
    r
}

/// ASCII whitespace, the kind that separates columns in tool output.
pub open spec fn is_ws(c: char) -> bool {
    c == ' ' || c == '\t' || c == '\n' || c == '\r'
}

/// Length of the leading run of non-whitespace characters.
pub open spec fn token_len(s: Seq<char>) -> int
    decreases s.len(),
{
    if s.len() == 0 || is_ws(s.first()) {
        0
    } else {
        1 + token_len(s.drop_first())
    }
}

proof fn lemma_token_len_bounds(s: Seq<char>)
    ensures
        0 <= token_len(s) <= s.len(),
        s.len() > 0 && !is_ws(s.first()) ==> token_len(s) >= 1,
    decreases s.len(),
{
    if s.len() > 0 && !is_ws(s.first()) {
        lemma_token_len_bounds(s.drop_first());
    }
}

proof fn lemma_token_len_scan(s: Seq<char>, m: int)
    requires
        0 <= m <= s.len(),
        forall|k: int| 0 <= k < m ==> !is_ws(#[trigger] s[k]),
        m < s.len() ==> is_ws(s[m]),
    ensures
        token_len(s) == m,
    decreases s.len(),
{
    if m == 0 {
    } else {
        lemma_token_len_scan(s.drop_first(), m - 1);
    }
}

/// The whitespace-separated tokens of `s`, in order.
pub open spec fn split_ws(s: Seq<char>) -> Seq<Seq<char>>
    decreases s.len(),
    via split_ws_dec
{
    if s.len() == 0 {
        Seq::empty()
    } else if is_ws(s.first()) {
        split_ws(s.drop_first())
    } else {
        seq![s.take(token_len(s))] + split_ws(s.skip(token_len(s)))
    }
}

#[via_fn]
proof fn split_ws_dec(s: Seq<char>) {
    lemma_token_len_bounds(s);
}

/// Copies `v[from..to]` into a fresh vector.
pub fn copy_range(v: &Vec<char>, from: usize, to: usize) -> (r: Vec<char>)
    requires
        from <= to <= v@.len(),
    ensures
        r@ == v@.subrange(from as int, to as int),
{
    let mut r: Vec<char> = Vec::new();
    for i in from..to
        invariant
            from <= i <= to <= v@.len(),
            r@ == v@.subrange(from as int, i as int),
    {
        r.push(v[i]);
        assert(r@ =~= v@.subrange(from as int, i + 1));
    }
    r
}

fn is_ws_exec(c: char) -> (r: bool)
    ensures
        r == is_ws(c),
{
    c == ' ' || c == '\t' || c == '\n' || c == '\r'
}

/// Splits on runs of ASCII whitespace.
pub fn split_ws_exec(v: &Vec<char>) -> (r: Vec<Vec<char>>)
    ensures
        r.deep_view() == split_ws(v@),
{
    let n = v.len();
    let mut r: Vec<Vec<char>> = Vec::new();
    let mut i: usize = 0;
    proof {
        assert(v@.skip(0) =~= v@);
        assert(r.deep_view() =~= Seq::<Seq<char>>::empty());
        assert(r.deep_view() + split_ws(v@) =~= split_ws(v@));
    }
    while i < n
        invariant
            n == v@.len(),
            i <= n,
            split_ws(v@) == r.deep_view() + split_ws(v@.skip(i as int)),
        decreases n - i,
    {
        if is_ws_exec(v[i]) {
            proof {
                assert(v@.skip(i as int).drop_first() =~= v@.skip(i + 1));
            }
            i = i + 1;
        } else {
            let mut j: usize = i + 1;
            while j < n && !is_ws_exec(v[j])
                invariant
                    n == v@.len(),
                    i < j <= n,
                    forall|k: int| i <= k < j ==> !is_ws(#[trigger] v@[k]),
                decreases n - j,
            {
                j = j + 1;
            }
            proof {
                let s = v@.skip(i as int);
                assert(forall|k: int| 0 <= k < j - i ==> !is_ws(#[trigger] s[k]));
                lemma_token_len_scan(s, j - i);
                assert(s.take(j - i) =~= v@.subrange(i as int, j as int));
                assert(s.skip(j - i) =~= v@.skip(j as int));
                assert(split_ws(s) == seq![v@.subrange(i as int, j as int)] + split_ws(v@.skip(j as int)));
            }
            let tok = copy_range(v, i, j);
            let ghost prev = r.deep_view();
            r.push(tok);
            proof {
                assert(r.deep_view() =~~= prev.push(v@.subrange(i as int, j as int)));
                assert(prev + (seq![v@.subrange(i as int, j as int)] + split_ws(v@.skip(j as int)))
                    =~= r.deep_view() + split_ws(v@.skip(j as int)));
            }
            i = j;
        }
    }
    assert(split_ws(v@.skip(n as int)) =~= Seq::<Seq<char>>::empty());
    assert(r.deep_view() =~= r.deep_view() + Seq::<Seq<char>>::empty());
    r
}

/// Length of the leading line, up to the first newline.
pub open spec fn line_len(s: Seq<char>) -> int
    decreases s.len(),
{
    if s.len() == 0 || s.first() == '\n' {
        0
    } else {
        1 + line_len(s.drop_first())
    }
}

proof fn lemma_line_len_bounds(s: Seq<char>)
    ensures
        0 <= line_len(s) <= s.len(),
    decreases s.len(),
{
    if s.len() > 0 && s.first() != '\n' {
        lemma_line_len_bounds(s.drop_first());
    }
}

proof fn lemma_line_len_scan(s: Seq<char>, m: int)
    requires
        0 <= m <= s.len(),
        forall|k: int| 0 <= k < m ==> #[trigger] s[k] != '\n',
        m < s.len() ==> s[m] == '\n',
    ensures
        line_len(s) == m,
    decreases s.len(),
{
    if m == 0 {
    } else {
        lemma_line_len_scan(s.drop_first(), m - 1);
    }
}

/// Drops one trailing carriage return, as line splitting does.
pub open spec fn strip_cr(l: Seq<char>) -> Seq<char> {
    if l.len() > 0 && l.last() == '\r' {
        l.drop_last()
    } else {
        l
    }
}

/// The lines of `s`: split at `\n`, one trailing `\r` removed from each, and
/// no empty line after a final newline.
pub open spec fn split_lines(s: Seq<char>) -> Seq<Seq<char>>
    decreases s.len(),
    via split_lines_dec
{
    if s.len() == 0 {
        Seq::empty()
    } else {
        let m = line_len(s);
        if m < s.len() {
            seq![strip_cr(s.take(m))] + split_lines(s.skip(m + 1))
        } else {
            seq![strip_cr(s)]
        }
    }
}

#[via_fn]
proof fn split_lines_dec(s: Seq<char>) {
    lemma_line_len_bounds(s);
}

fn strip_cr_exec(l: Vec<char>) -> (r: Vec<char>)
    ensures
        r@ == strip_cr(l@),
{
    let mut l = l;
    if l.len() > 0 && l[l.len() - 1] == '\r' {
        let _ = l.pop();
    }
    l
}

/// Splits into lines at `\n`, stripping one trailing `\r` from each line.
pub fn split_lines_exec(v: &Vec<char>) -> (r: Vec<Vec<char>>)
    ensures
        r.deep_view() == split_lines(v@),
{
    let n = v.len();
    let mut r: Vec<Vec<char>> = Vec::new();
    let mut i: usize = 0;
    proof {
        assert(v@.skip(0) =~= v@);
        assert(r.deep_view() =~= Seq::<Seq<char>>::empty());
        assert(r.deep_view() + split_lines(v@) =~= split_lines(v@));
    }
    while i < n
        invariant
            n == v@.len(),
            i <= n,
            split_lines(v@) == r.deep_view() + split_lines(v@.skip(i as int)),
        decreases n - i,
    {
        let mut j: usize = i;
        while j < n && v[j] != '\n'
            invariant
                n == v@.len(),
                i <= j <= n,
                forall|k: int| i <= k < j ==> #[trigger] v@[k] != '\n',
            decreases n - j,
        {
            j = j + 1;
        }
        proof {
            let s = v@.skip(i as int);
            assert(forall|k: int| 0 <= k < j - i ==> #[trigger] s[k] != '\n');
            lemma_line_len_scan(s, j - i);
            assert(s.take(j - i) =~= v@.subrange(i as int, j as int));
            if j < n {
                assert(s.skip(j - i + 1) =~= v@.skip(j + 1));
            }
        }
        let line = copy_range(v, i, j);
        let line = strip_cr_exec(line);
        let ghost prev = r.deep_view();
        r.push(line);
        proof {
            assert(r.deep_view() =~~= prev.push(strip_cr(v@.subrange(i as int, j as int))));
            if j == n {
                assert(v@.skip(i as int) =~= v@.subrange(i as int, j as int));
                assert(split_lines(v@.skip(i as int)) == seq![strip_cr(v@.subrange(i as int, j as int))]);
            }
            assert(prev + (seq![strip_cr(v@.subrange(i as int, j as int))] + split_lines(if j < n { v@.skip(j + 1) } else { v@.skip(n as int) }))
                =~= r.deep_view() + split_lines(if j < n { v@.skip(j + 1) } else { v@.skip(n as int) }));
            assert(split_lines(v@.skip(n as int)) =~= Seq::<Seq<char>>::empty());
            if j == n {
                assert(seq![strip_cr(v@.subrange(i as int, j as int))] + split_lines(v@.skip(n as int))
                    =~= seq![strip_cr(v@.subrange(i as int, j as int))]);
            }
        }
        if j < n {
            i = j + 1;
        } else {
            i = n;
        }
    }
    assert(split_lines(v@.skip(n as int)) =~= Seq::<Seq<char>>::empty());
    assert(r.deep_view() =~= r.deep_view() + Seq::<Seq<char>>::empty());
    r
}

/// `s` without its leading whitespace.
pub open spec fn trim_left(s: Seq<char>) -> Seq<char>
    decreases s.len(),
{
    if s.len() > 0 && is_ws(s.first()) {
        trim_left(s.drop_first())
    } else {
        s
    }
}

/// `s` without its trailing whitespace.
pub open spec fn trim_right(s: Seq<char>) -> Seq<char>
    decreases s.len(),
{
    if s.len() > 0 && is_ws(s.last()) {
        trim_right(s.drop_last())
    } else {
        s
    }
}

/// `s` without leading and trailing whitespace.
pub open spec fn trimmed(s: Seq<char>) -> Seq<char> {
    trim_right(trim_left(s))
}

proof fn lemma_trim_left_scan(s: Seq<char>, a: int)
    requires
        0 <= a <= s.len(),
        forall|k: int| 0 <= k < a ==> is_ws(#[trigger] s[k]),
        a < s.len() ==> !is_ws(s[a]),
    ensures
        trim_left(s) == s.skip(a),
    decreases s.len(),
{
    if a == 0 {
        assert(s.skip(0) =~= s);
    } else {
        lemma_trim_left_scan(s.drop_first(), a - 1);
        assert(s.drop_first().skip(a - 1) =~= s.skip(a));
    }
}

proof fn lemma_trim_right_scan(s: Seq<char>, b: int)
    requires
        0 <= b <= s.len(),
        forall|k: int| b <= k < s.len() ==> is_ws(#[trigger] s[k]),
        b > 0 ==> !is_ws(s[b - 1]),
    ensures
        trim_right(s) == s.take(b),
    decreases s.len(),
{
    if b == s.len() {
        assert(s.take(b) =~= s);
    } else {
        lemma_trim_right_scan(s.drop_last(), b);
        assert(s.drop_last().take(b) =~= s.take(b));
    }
}

/// Strips leading and trailing ASCII whitespace.
pub fn trim_chars(v: &Vec<char>) -> (r: Vec<char>)
    ensures
        r@ == trimmed(v@),
{
    let n = v.len();
    let mut a: usize = 0;
    while a < n && is_ws_exec(v[a])
        invariant
            n == v@.len(),
            a <= n,
            forall|k: int| 0 <= k < a ==> is_ws(#[trigger] v@[k]),
        decreases n - a,
    {
        a = a + 1;
    }
    proof {
        lemma_trim_left_scan(v@, a as int);
    }
    let mut b: usize = n;
    while b > a && is_ws_exec(v[b - 1])
        invariant
            n == v@.len(),
            a <= b <= n,
            forall|k: int| b <= k < n ==> is_ws(#[trigger] v@[k]),
        decreases b,
    {
        b = b - 1;
    }
    proof {
        let l = v@.skip(a as int);
        assert(forall|k: int| b - a <= k < l.len() ==> is_ws(#[trigger] l[k]));
        if b > a {
            assert(!is_ws(l[b - a - 1]));
        }
        lemma_trim_right_scan(l, b - a);
        assert(l.take(b - a) =~= v@.subrange(a as int, b as int));
    }
    copy_range(v, a, b)
}

/// Length of the leading run free of the separator.
pub open spec fn field_len(s: Seq<char>, sep: char) -> int
    decreases s.len(),
{
    if s.len() == 0 || s.first() == sep {
        0
    } else {
        1 + field_len(s.drop_first(), sep)
    }
}

proof fn lemma_field_len_bounds(s: Seq<char>, sep: char)
    ensures
        0 <= field_len(s, sep) <= s.len(),
    decreases s.len(),
{
    if s.len() > 0 && s.first() != sep {
        lemma_field_len_bounds(s.drop_first(), sep);
    }
}

proof fn lemma_field_len_scan(s: Seq<char>, sep: char, m: int)
    requires
        0 <= m <= s.len(),
        forall|k: int| 0 <= k < m ==> #[trigger] s[k] != sep,
        m < s.len() ==> s[m] == sep,
    ensures
        field_len(s, sep) == m,
    decreases s.len(),
{
    if m > 0 {
        lemma_field_len_scan(s.drop_first(), sep, m - 1);
    }
}

/// The fields of `s` between separators, empty fields kept: the empty
/// string has one field.
pub open spec fn split_sep(s: Seq<char>, sep: char) -> Seq<Seq<char>>
    decreases s.len(),
    via split_sep_dec
{
    let m = field_len(s, sep);
    if m < s.len() {
        seq![s.take(m)] + split_sep(s.skip(m + 1), sep)
    } else {
        seq![s]
    }
}

#[via_fn]
proof fn split_sep_dec(s: Seq<char>, sep: char) {
    lemma_field_len_bounds(s, sep);
}

/// The comma-separated fields of `s`, empty fields kept.
pub open spec fn split_commas(s: Seq<char>) -> Seq<Seq<char>> {
    split_sep(s, ',')
}

/// Splits on a separator character; empty fields are kept.
pub fn split_sep_exec(v: &Vec<char>, sep: char) -> (r: Vec<Vec<char>>)
    ensures
        r.deep_view() == split_sep(v@, sep),
{
    let n = v.len();
    let mut r: Vec<Vec<char>> = Vec::new();
    let mut i: usize = 0;
    proof {
        assert(v@.skip(0) =~= v@);
        assert(r.deep_view() =~= Seq::<Seq<char>>::empty());
        assert(r.deep_view() + split_sep(v@, sep) =~= split_sep(v@, sep));
    }
    loop
        invariant
            n == v@.len(),
            i <= n,
            split_sep(v@, sep) == r.deep_view() + split_sep(v@.skip(i as int), sep),
        ensures
            r.deep_view() == split_sep(v@, sep),
        decreases n + 1 - i,
    {
        let mut j: usize = i;
        while j < n && v[j] != sep
            invariant
                n == v@.len(),
                i <= j <= n,
                forall|k: int| i <= k < j ==> #[trigger] v@[k] != sep,
            decreases n - j,
        {
            j = j + 1;
        }
        proof {
            let s = v@.skip(i as int);
            assert(forall|k: int| 0 <= k < j - i ==> #[trigger] s[k] != sep);
            lemma_field_len_scan(s, sep, j - i);
            assert(s.take(j - i) =~= v@.subrange(i as int, j as int));
            if j < n {
                assert(s.skip(j - i + 1) =~= v@.skip(j + 1));
            } else {
                assert(s =~= v@.subrange(i as int, j as int));
            }
        }
        let fld = copy_range(v, i, j);
        let ghost prev = r.deep_view();
        r.push(fld);
        proof {
            assert(r.deep_view() =~~= prev.push(v@.subrange(i as int, j as int)));
            if j < n {
                assert(prev + (seq![v@.subrange(i as int, j as int)] + split_sep(v@.skip(j + 1), sep))
                    =~= r.deep_view() + split_sep(v@.skip(j + 1), sep));
            } else {
                assert(prev + seq![v@.subrange(i as int, j as int)] =~= r.deep_view());
            }
        }
        if j < n {
            i = j + 1;
        } else {
            return r;
        }
    }
}

/// Splits on commas; empty fields are kept.
pub fn split_commas_exec(v: &Vec<char>) -> (r: Vec<Vec<char>>)
    ensures
        r.deep_view() == split_commas(v@),
{
    split_sep_exec(v, ',')
}

/// `s` with every occurrence of `from` replaced by `to`, scanning left to
/// right without overlap. An empty `from` replaces nothing.
pub open spec fn replace_all(s: Seq<char>, from: Seq<char>, to: Seq<char>) -> Seq<char>
    decreases s.len(),
{
    if from.len() == 0 {
        s
    } else if s.len() < from.len() {
        s
    } else if from.is_prefix_of(s) {
        to + replace_all(s.skip(from.len() as int), from, to)
    } else {
        seq![s.first()] + replace_all(s.drop_first(), from, to)
    }
}

/// Replaces every occurrence of `from` by `to`, left to right.
pub fn replace_all_chars(v: &Vec<char>, from: &Vec<char>, to: &Vec<char>) -> (r: Vec<char>)
    requires
        from@.len() > 0,
    ensures
        r@ == replace_all(v@, from@, to@),
{
    let n = v.len();
    let flen = from.len();
    let tlen = to.len();
    let mut out: Vec<char> = Vec::new();
    let mut i: usize = 0;
    proof {
        assert(v@.skip(0) =~= v@);
        assert(out@ + replace_all(v@, from@, to@) =~= replace_all(v@, from@, to@));
    }
    while i < n
        invariant
            n == v@.len(),
            flen == from@.len(),
            tlen == to@.len(),
            flen > 0,
            i <= n,
            replace_all(v@, from@, to@) == out@ + replace_all(v@.skip(i as int), from@, to@),
        decreases n - i,
    {
        if flen <= n - i && eq_from(v, from, i) {
            proof {
                assert(v@.subrange(i as int, i + flen) =~= v@.skip(i as int).take(flen as int));
                assert(from@.is_prefix_of(v@.skip(i as int)));
                assert(v@.skip(i as int).skip(flen as int) =~= v@.skip(i + flen));
            }
            let ghost pre = out@;
            let mut j: usize = 0;
            while j < tlen
                invariant
                    tlen == to@.len(),
                    j <= tlen,
                    out@ == pre + to@.take(j as int),
                decreases tlen - j,
            {
                out.push(to[j]);
                proof {
                    assert(out@ =~= pre + to@.take(j + 1));
                }
                j = j + 1;
            }
            proof {
                assert(to@.take(tlen as int) =~= to@);
                assert(out@ + replace_all(v@.skip(i + flen), from@, to@)
                    =~= pre + (to@ + replace_all(v@.skip(i + flen), from@, to@)));
            }
            i = i + flen;
        } else {
            proof {
                let rest = v@.skip(i as int);
                assert(rest.len() > 0);
                if i + flen <= n as int {
                    assert(!matches_at(v@, from@, i as int));
                    if from@.is_prefix_of(rest) {
                        assert(rest.take(flen as int) =~= v@.subrange(i as int, i + flen));
                        assert(matches_at(v@, from@, i as int));
                    }
                } else {
                    assert(rest.len() < flen);
                }
                assert(rest.drop_first() =~= v@.skip(i + 1));
                assert(rest.first() == v@[i as int]);
            }
            let ghost pre = out@;
            out.push(v[i]);
            proof {
                assert(out@ =~= pre.push(v@[i as int]));
                assert(out@ + replace_all(v@.skip(i + 1), from@, to@)
                    =~= pre + (seq![v@[i as int]] + replace_all(v@.skip(i + 1), from@, to@)));
            }
            i = i + 1;
        }
    }
    proof {
        assert(v@.skip(n as int) =~= Seq::<char>::empty());
        assert(replace_all(Seq::<char>::empty(), from@, to@) =~= Seq::<char>::empty());
        assert(out@ + Seq::<char>::empty() =~= out@);
    }
    out
}

/// Character-for-character equality of two strings.
pub fn str_eq(a: &str, b: &str) -> (r: bool)
    ensures
        r == (a@ == b@),
{
    let va = to_chars(a);
    let vb = to_chars(b);
    chars_eq(&va, &vb)
}

/// Character-for-character equality of two vectors.
pub fn chars_eq(a: &Vec<char>, b: &Vec<char>) -> (r: bool)
    ensures
        r == (a@ == b@),
{
    if a.len() != b.len() {
        return false;
    }
    assert(a@.subrange(0, b@.len() as int) =~= a@);
    eq_from(a, b, 0)
}

} // verus!
