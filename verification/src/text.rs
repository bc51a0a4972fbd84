//! Character-level text helpers shared by the parser, the path validator and
//! the token codec. Everything here works on `Vec<char>` / `Seq<char>` so
//! that the string-processing logic is verified down to single characters.

use vstd::prelude::*;
use vstd::string::StrSliceExecFns;

verus! {

/// Whitespace, as the parser understands it: space, tab and the common
/// control characters that end or break a line.
pub open spec fn is_space(c: char) -> bool {
    c == ' ' || c == '\t' || c == '\n' || c == '\r' || c == '\u{0b}' || c == '\u{0c}'
}

/// ASCII lower-casing of one character; other characters pass through.
pub open spec fn lower_char(c: char) -> char {
    if 'A' <= c && c <= 'Z' {
        ((c as u8) + 32) as char
    } else {
        c
    }
}

/// ASCII lower-casing of a whole sequence.
pub open spec fn lower_seq(s: Seq<char>) -> Seq<char> {
    s.map_values(|c: char| lower_char(c))
}

/// Index of the first non-whitespace character at or after `i`.
pub open spec fn skip_spaces(s: Seq<char>, i: int) -> int
    decreases s.len() - i,
{
    if 0 <= i < s.len() && is_space(s[i]) {
        skip_spaces(s, i + 1)
    } else {
        i
    }
}

/// Number of trailing whitespace characters of `s`.
pub open spec fn trailing_spaces(s: Seq<char>, i: int) -> int
    decreases i,
{
    if 0 < i <= s.len() && is_space(s[i - 1]) {
        trailing_spaces(s, i - 1)
    } else {
        i
    }
}

/// `s` with leading and trailing whitespace removed.
pub open spec fn trim_seq(s: Seq<char>) -> Seq<char> {
    let a = skip_spaces(s, 0);
    let b = trailing_spaces(s, s.len() as int);
    if a <= b {
        s.subrange(a, b)
    } else {
        Seq::empty()
    }
}

/// The canonical form of raw user input: lower-cased, then trimmed.
pub open spec fn canon_seq(s: Seq<char>) -> Seq<char> {
    trim_seq(lower_seq(s))
}

/// The literal `w` occurs in `s` starting at index `i`.
pub open spec fn matches_at(s: Seq<char>, i: int, w: Seq<char>) -> bool {
    &&& 0 <= i
    &&& i + w.len() <= s.len()
    &&& forall|j: int| 0 <= j < w.len() ==> s[i + j] == w[j]
}

proof fn lemma_skip_spaces_bounds(s: Seq<char>, i: int)
    requires
        0 <= i <= s.len(),
    ensures
        i <= skip_spaces(s, i) <= s.len(),
        skip_spaces(s, i) < s.len() ==> !is_space(s[skip_spaces(s, i)]),
        forall|j: int| i <= j < skip_spaces(s, i) ==> is_space(s[j]),
    decreases s.len() - i,
{
    if i < s.len() && is_space(s[i]) {
        lemma_skip_spaces_bounds(s, i + 1);
    }
}

proof fn lemma_trailing_spaces_bounds(s: Seq<char>, i: int)
    requires
        0 <= i <= s.len(),
    ensures
        0 <= trailing_spaces(s, i) <= i,
        trailing_spaces(s, i) > 0 ==> !is_space(s[trailing_spaces(s, i) - 1]),
        forall|j: int| trailing_spaces(s, i) <= j < i ==> is_space(s[j]),
    decreases i,
{
    if 0 < i && is_space(s[i - 1]) {
        lemma_trailing_spaces_bounds(s, i - 1);
    }
}

/// Collect the characters of a `&str` into a vector, one `char` at a time.
pub fn str_chars(s: &str) -> (r: Vec<char>)
    ensures
        r@ == s@,
{
    let n = s.unicode_len();
    let mut v: Vec<char> = Vec::new();
    for i in 0..n
        invariant
            n == s@.len(),
            v@ =~= s@.subrange(0, i as int),
    {
        v.push(s.get_char(i));
        proof {
            assert(v@ =~= s@.subrange(0, i + 1 as int));
        }
    }
    proof {
        assert(v@ =~= s@);
    }
    v
}

/// Builds a `String` holding exactly the given characters.
///
/// Relies on alloc's `FromIterator<char> for String`: collecting an iterator
/// of characters yields the string of exactly those characters, in order.
#[verifier::external_body]
pub fn chars_to_string(v: &Vec<char>) -> (s: String)
    ensures
        s@ == v@,
{
    v.iter().collect()
}

/// Lower-case, then trim, the raw input; the parser works on the result.
pub fn canonicalize(s: &str) -> (r: Vec<char>)
    ensures
        r@ == canon_seq(s@),
{
    let raw = str_chars(s);
    let n = raw.len();
    let mut low: Vec<char> = Vec::new();
    for i in 0..n
        invariant
            n == raw@.len(),
            raw@ == s@,
            low@ =~= lower_seq(s@).subrange(0, i as int),
    {
        let c = raw[i];
        let l: char = if 'A' <= c && c <= 'Z' {
            (((c as u8) + 32) as char)
        } else {
            c
        };
        low.push(l);
        proof {
            assert(lower_seq(s@)[i as int] == lower_char(s@[i as int]));
            assert(low@ =~= lower_seq(s@).subrange(0, i + 1 as int));
        }
    }
    proof {
        assert(low@ =~= lower_seq(s@));
    }
    trim_chars(&low)
}

/// Trim whitespace from both ends of a character vector.
pub fn trim_chars(v: &Vec<char>) -> (r: Vec<char>)
    ensures
        r@ == trim_seq(v@),
{
    let n = v.len();
    let ghost s = v@;
    let mut a: usize = 0;
    while a < n && is_space_char(v[a])
        invariant
            n == s.len(),
            v@ == s,
            0 <= a <= n,
            skip_spaces(s, 0) == skip_spaces(s, a as int),
        decreases n - a,
    {
        a = a + 1;
    }
    proof {
        lemma_skip_spaces_bounds(s, a as int);
        assert(skip_spaces(s, a as int) == a as int);
    }
    let mut b: usize = n;
    while b > a && is_space_char(v[b - 1])
        invariant
            n == s.len(),
            v@ == s,
            a <= b <= n,
            a as int == skip_spaces(s, 0),
            trailing_spaces(s, n as int) == trailing_spaces(s, b as int),
        decreases b,
    {
        b = b - 1;
    }
    proof {
        lemma_trailing_spaces_bounds(s, b as int);
        if b > a {
            assert(trailing_spaces(s, b as int) == b as int);
        } else {
            // everything from `a` on is whitespace, so the trimmed result is empty
            lemma_skip_spaces_bounds(s, 0);
            assert(trailing_spaces(s, b as int) <= b as int);
        }
    }
    subrange_chars(v, a, b)
}

/// Exec test for [`is_space`].
pub fn is_space_char(c: char) -> (r: bool)
    ensures
        r == is_space(c),
{
    c == ' ' || c == '\t' || c == '\n' || c == '\r' || c == '\u{0b}' || c == '\u{0c}'
}

/// Copy of `v[a..b]` as a fresh vector.
pub fn subrange_chars(v: &Vec<char>, a: usize, b: usize) -> (r: Vec<char>)
    requires
        a <= b <= v@.len(),
    ensures
        r@ == v@.subrange(a as int, b as int),
{
    let mut r: Vec<char> = Vec::new();
    let mut i = a;
    while i < b
        invariant
            a <= i <= b <= v@.len(),
            r@ =~= v@.subrange(a as int, i as int),
        decreases b - i,
    {
        r.push(v[i]);
        proof {
            assert(r@ =~= v@.subrange(a as int, i + 1 as int));
        }
        i = i + 1;
    }
    proof {
        assert(r@ =~= v@.subrange(a as int, b as int));
    }
    r
}

/// The literal `w` occurs in `v` at index `i` (exec form of [`matches_at`]).
pub fn word_at(v: &Vec<char>, i: usize, w: &str) -> (r: bool)
    ensures
        r == matches_at(v@, i as int, w@),
{
    let m = w.unicode_len();
    if i > v.len() || m > v.len() - i {
        return false;
    }
    let end: usize = i + m;
    let mut j: usize = 0;
    while j < m
        invariant
            m == w@.len(),
            end == i + m,
            i + m <= v.len(),
            v.len() == v@.len(),
            0 <= j <= m,
            forall|k: int| 0 <= k < j ==> v@[i + k] == w@[k],
        decreases m - j,
    {
        assert(i + j < v.len());
        if v[i + j] != w.get_char(j) {
            return false;
        }
        j = j + 1;
    }
    true
}

/// Append every character of `w` to `out`.
pub fn push_str_chars(out: &mut Vec<char>, w: &str)
    ensures
        final(out)@ == old(out)@ + w@,
{
    let m = w.unicode_len();
    for j in 0..m
        invariant
            m == w@.len(),
            out@ =~= old(out)@ + w@.subrange(0, j as int),
    {
        out.push(w.get_char(j));
        proof {
            assert(out@ =~= old(out)@ + w@.subrange(0, j + 1 as int));
        }
    }
    proof {
        assert(out@ =~= old(out)@ + w@);
    }
}

/// Append every character of `w` to `out`.
pub fn push_vec_chars(out: &mut Vec<char>, w: &Vec<char>)
    ensures
        final(out)@ == old(out)@ + w@,
{
    let m = w.len();
    for j in 0..m
        invariant
            m == w@.len(),
            out@ =~= old(out)@ + w@.subrange(0, j as int),
    {
        out.push(w[j]);
        proof {
            assert(out@ =~= old(out)@ + w@.subrange(0, j + 1 as int));
        }
    }
    proof {
        assert(out@ =~= old(out)@ + w@);
    }
}

/// Equality of a string and a character sequence.
pub fn str_eq_chars(s: &str, v: &Vec<char>) -> (r: bool)
    ensures
        r == (s@ == v@),
{
    let n = s.unicode_len();
    if n != v.len() {
        proof {
            assert(s@.len() != v@.len());
        }
        return false;
    }
    let w = word_at(v, 0, s);
    proof {
        if w {
            assert(s@ =~= v@);
        } else {
            assert(!matches_at(v@, 0, s@));
            if s@ == v@ {
                assert(forall|j: int| 0 <= j < s@.len() ==> v@[0 + j] == s@[j]);
            }
        }
    }
    w
}

/// Equality of two strings, decided character by character.
pub fn str_eq(a: &str, b: &str) -> (r: bool)
    ensures
        r == (a@ == b@),
{
    let av = str_chars(a);
    str_eq_chars(b, &av)
}

/// Equality of two character vectors.
pub fn vec_eq_chars(a: &Vec<char>, b: &Vec<char>) -> (r: bool)
    ensures
        r == (a@ == b@),
{
    let n = a.len();
    if n != b.len() {
        proof {
            assert(a@.len() != b@.len());
        }
        return false;
    }
    let mut i: usize = 0;
    while i < n
        invariant
            n == a@.len() == b@.len(),
            0 <= i <= n,
            forall|k: int| 0 <= k < i ==> a@[k] == b@[k],
        decreases n - i,
    {
        if a[i] != b[i] {
            return false;
        }
        i = i + 1;
    }
    proof {
        assert(a@ =~= b@);
    }
    true
}

/// Leftmost occurrence of `c` in `s` at or after `i`.
pub open spec fn find_char_from(s: Seq<char>, i: int, c: char) -> Option<int>
    decreases s.len() - i,
{
    if i < 0 || i >= s.len() {
        None
    } else if s[i] == c {
        Some(i)
    } else {
        find_char_from(s, i + 1, c)
    }
}

/// Exec form of [`find_char_from`].
pub fn find_char(v: &Vec<char>, from: usize, c: char) -> (r: Option<usize>)
    ensures
        match r {
            Some(k) => from <= k < v@.len() && find_char_from(v@, from as int, c) == Some(
                k as int,
            ),
            None => find_char_from(v@, from as int, c) is None,
        },
{
    let n = v.len();
    let mut i = from;
    while i < n
        invariant
            n == v@.len(),
            from <= i,
            find_char_from(v@, from as int, c) == find_char_from(v@, i as int, c),
        decreases n - i,
    {
        if v[i] == c {
            return Some(i);
        }
        i = i + 1;
    }
    None
}

/// The decimal digit character for a value below ten.
pub open spec fn digit_char(d: nat) -> char {
    (48 + d) as char
}

/// Decimal rendering of a natural number, most significant digit first.
pub open spec fn dec_seq(n: nat) -> Seq<char>
    decreases n,
{
    if n < 10 {
        seq![digit_char(n)]
    } else {
        dec_seq(n / 10).push(digit_char(n % 10))
    }
}

/// Every character of a decimal rendering is a digit.
pub proof fn lemma_dec_seq_digits(n: nat)
    ensures
        1 <= dec_seq(n).len() <= n + 1,
        forall|j: int|
            0 <= j < dec_seq(n).len() ==> '0' <= #[trigger] dec_seq(n)[j] && dec_seq(n)[j] <= '9',
    decreases n,
{
    if n >= 10 {
        lemma_dec_seq_digits(n / 10);
    }
}

/// Numeric value of a digit sequence (most significant first).
pub open spec fn dec_val(s: Seq<char>) -> nat
    decreases s.len(),
{
    if s.len() == 0 {
        0
    } else {
        dec_val(s.drop_last()) * 10 + (if '0' <= s.last() && s.last() <= '9' {
            ((s.last() as nat) - 48) as nat
        } else {
            0
        })
    }
}

/// Rendering and value are mutual inverses.
pub proof fn lemma_dec_roundtrip(n: nat)
    ensures
        dec_val(dec_seq(n)) == n,
    decreases n,
{
    if n < 10 {
        assert(digit_char(n) as nat == 48 + n);
        assert('0' <= digit_char(n) && digit_char(n) <= '9');
        assert(dec_seq(n) =~= seq![digit_char(n)]);
        assert(dec_seq(n).drop_last() =~= Seq::<char>::empty());
        assert(dec_val(Seq::<char>::empty()) == 0);
        assert(dec_val(dec_seq(n)) == n);
    } else {
        lemma_dec_roundtrip(n / 10);
        assert(digit_char(n % 10) as nat == 48 + n % 10);
        assert('0' <= digit_char(n % 10) && digit_char(n % 10) <= '9');
        assert(dec_seq(n).drop_last() =~= dec_seq(n / 10));
        assert(dec_seq(n).last() == digit_char(n % 10));
        assert(dec_val(dec_seq(n)) == (n / 10) * 10 + n % 10);
        assert((n / 10) * 10 + n % 10 == n) by (nonlinear_arith);
    }
}

/// Render a number in decimal.
pub fn u64_to_dec(n: u64) -> (r: Vec<char>)
    ensures
        r@ == dec_seq(n as nat),
    decreases n,
{
    if n < 10 {
        let c = ((48 + n as u8)) as char;
        let mut r: Vec<char> = Vec::new();
        r.push(c);
        proof {
            assert(r@ =~= seq![digit_char(n as nat)]);
        }
        r
    } else {
        let mut r = u64_to_dec(n / 10);
        let c = ((48 + (n % 10) as u8)) as char;
        r.push(c);
        r
    }
}

/// Parse a digit sequence; `None` if empty, a non-digit occurs, or the value
/// does not fit in `u64`.
pub open spec fn parse_dec(s: Seq<char>) -> Option<nat> {
    if s.len() >= 1 && (forall|j: int| 0 <= j < s.len() ==> '0' <= #[trigger] s[j] <= '9')
        && dec_val(s) <= u64::MAX {
        Some(dec_val(s))
    } else {
        None
    }
}

/// Exec form of [`parse_dec`].
pub fn parse_dec_chars(v: &Vec<char>, from: usize, to: usize) -> (r: Option<u64>)
    requires
        from <= to <= v@.len(),
    ensures
        match r {
            Some(n) => parse_dec(v@.subrange(from as int, to as int)) == Some(n as nat),
            None => parse_dec(v@.subrange(from as int, to as int)) is None,
        },
{
    let ghost s = v@.subrange(from as int, to as int);
    if from == to {
        return None;
    }
    let mut acc: u64 = 0;
    let mut i = from;
    while i < to
        invariant
            from <= i <= to <= v@.len(),
            s == v@.subrange(from as int, to as int),
            acc as nat == dec_val(s.subrange(0, i - from)),
            forall|j: int| 0 <= j < i - from ==> '0' <= #[trigger] s[j] <= '9',
        decreases to - i,
    {
        let c = v[i];
        if !('0' <= c && c <= '9') {
            proof {
                assert(s[i - from] == c);
            }
            return None;
        }
        let d: u64 = (c as u8 - 48) as u64;
        let next = match acc.checked_mul(10) {
            Some(x) => x.checked_add(d),
            None => None,
        };
        match next {
            None => {
                proof {
                    let k = i - from + 1;
                    assert(s.subrange(0, k).drop_last() =~= s.subrange(0, k - 1));
                    assert(s.subrange(0, k).last() == s[k - 1]);
                    assert(dec_val(s.subrange(0, k)) > u64::MAX);
                    if parse_dec(s) is Some {
                        lemma_dec_val_prefix_mono(s, k);
                        assert(false);
                    }
                }
                return None;
            },
            Some(x) => {
                acc = x;
            },
        }
        i = i + 1;
        proof {
            let k = i - from;
            assert(s.subrange(0, k).drop_last() =~= s.subrange(0, k - 1));
            assert(s.subrange(0, k).last() == s[k - 1]);
        }
    }
    proof {
        assert(s.subrange(0, s.len() as int) =~= s);
    }
    Some(acc)
}

/// The value of a digit string only grows with more digits.
proof fn lemma_dec_val_prefix_mono(s: Seq<char>, k: int)
    requires
        0 <= k <= s.len(),
        forall|j: int| 0 <= j < s.len() ==> '0' <= #[trigger] s[j] <= '9',
    ensures
        dec_val(s.subrange(0, k)) <= dec_val(s),
    decreases s.len() - k,
{
    if k < s.len() {
        lemma_dec_val_prefix_mono(s, k + 1);
        assert(s.subrange(0, k + 1).drop_last() =~= s.subrange(0, k));
        assert(s.subrange(0, k + 1).last() == s[k]);
    } else {
        assert(s.subrange(0, k) =~= s);
    }
}

/// Length-prefixed encoding of one field: `<len>:<chars>`.
pub open spec fn field_enc(s: Seq<char>) -> Seq<char> {
    dec_seq(s.len()) + seq![':'] + s
}

/// Parse one length-prefixed field at the front of `t`; yields the field and
/// what follows it.
pub open spec fn field_parse(t: Seq<char>) -> Option<(Seq<char>, Seq<char>)> {
    match find_char_from(t, 0, ':') {
        None => None,
        Some(k) => match parse_dec(t.subrange(0, k)) {
            None => None,
            Some(n) => if k + 1 + n <= t.len() {
                Some(
                    (
                        t.subrange(k + 1, k + 1 + n),
                        t.subrange(k + 1 + n, t.len() as int),
                    ),
                )
            } else {
                None
            },
        },
    }
}

proof fn lemma_find_char_skips(s: Seq<char>, i: int, c: char, k: int)
    requires
        0 <= i <= k <= s.len(),
        forall|j: int| i <= j < k ==> s[j] != c,
    ensures
        find_char_from(s, i, c) == find_char_from(s, k, c),
    decreases k - i,
{
    if i < k {
        lemma_find_char_skips(s, i + 1, c, k);
    }
}

proof fn lemma_find_char_hits(s: Seq<char>, i: int, c: char)
    requires
        0 <= i < s.len(),
        s[i] == c,
    ensures
        find_char_from(s, i, c) == Some(i),
{
}

/// A field encoding always parses back to the field and the remainder.
pub proof fn lemma_field_roundtrip(s: Seq<char>, rest: Seq<char>)
    requires
        s.len() <= u64::MAX,
    ensures
        field_parse(field_enc(s) + rest) == Some((s, rest)),
{
    let t = field_enc(s) + rest;
    let d = dec_seq(s.len());
    lemma_dec_seq_digits(s.len());
    let k = d.len() as int;
    assert(t[k] == ':');
    assert(forall|j: int| 0 <= j < k ==> t[j] == d[j] && '0' <= #[trigger] d[j] <= '9');
    lemma_find_char_skips(t, 0, ':', k);
    lemma_find_char_hits(t, k, ':');
    assert(find_char_from(t, 0, ':') == Some(k));
    assert(t.subrange(0, k) =~= d);
    lemma_dec_roundtrip(s.len());
    assert(parse_dec(d) == Some(s.len()));
    assert(t.subrange(k + 1, k + 1 + s.len()) =~= s);
    assert(t.subrange(k + 1 + s.len(), t.len() as int) =~= rest);
}

/// Append the encoding of one field to `out` (exec form of [`field_enc`]).
pub fn push_field(out: &mut Vec<char>, s: &Vec<char>)
    ensures
        final(out)@ == old(out)@ + field_enc(s@),
{
    let len_digits = u64_to_dec(s.len() as u64);
    push_vec_chars(out, &len_digits);
    out.push(':');
    push_vec_chars(out, s);
    proof {
        assert(final(out)@ =~= old(out)@ + field_enc(s@));
    }
}

/// Parse one field at offset `pos` of `v` (exec form of [`field_parse`]);
/// yields the field and the offset just past it.
pub fn take_field(v: &Vec<char>, pos: usize) -> (r: Option<(Vec<char>, usize)>)
    requires
        pos <= v@.len(),
    ensures
        match r {
            Some(p) => {
                &&& field_parse(v@.subrange(pos as int, v@.len() as int)) matches Some(q)
                &&& q.0 == p.0@
                &&& pos <= p.1 <= v@.len()
                &&& q.1 == v@.subrange(p.1 as int, v@.len() as int)
            },
            None => field_parse(v@.subrange(pos as int, v@.len() as int)) is None,
        },
{
    let ghost t = v@.subrange(pos as int, v@.len() as int);
    let kopt = find_char(v, pos, ':');
    proof {
        lemma_find_tail(v@, pos as int, ':');
    }
    let k = match kopt {
        None => {
            return None;
        },
        Some(k) => k,
    };
    let nopt = parse_dec_chars(v, pos, k);
    proof {
        assert(t.subrange(0, k - pos) =~= v@.subrange(pos as int, k as int));
    }
    let n = match nopt {
        None => {
            return None;
        },
        Some(n) => n,
    };
    if n > (v.len() - k - 1) as u64 {
        return None;
    }
    let start = k + 1;
    let end = start + (n as usize);
    let field = subrange_chars(v, start, end);
    proof {
        assert(t.subrange(k - pos + 1, k - pos + 1 + n) =~= v@.subrange(
            start as int,
            end as int,
        ));
        assert(t.subrange(k - pos + 1 + n, t.len() as int) =~= v@.subrange(
            end as int,
            v@.len() as int,
        ));
    }
    Some((field, end))
}

/// Finding a character in a suffix view matches finding it in the vector.
proof fn lemma_find_tail(s: Seq<char>, pos: int, c: char)
    requires
        0 <= pos <= s.len(),
    ensures
        match find_char_from(s, pos, c) {
            Some(k) => find_char_from(s.subrange(pos, s.len() as int), 0, c) == Some(k - pos),
            None => find_char_from(s.subrange(pos, s.len() as int), 0, c) is None,
        },
{
    lemma_find_shift(s, pos, pos, c);
}

proof fn lemma_find_shift(s: Seq<char>, pos: int, i: int, c: char)
    requires
        0 <= pos <= i <= s.len(),
    ensures
        match find_char_from(s, i, c) {
            Some(k) => find_char_from(s.subrange(pos, s.len() as int), i - pos, c) == Some(
                k - pos,
            ),
            None => find_char_from(s.subrange(pos, s.len() as int), i - pos, c) is None,
        },
    decreases s.len() - i,
{
    let sub = s.subrange(pos, s.len() as int);
    if i < s.len() {
        assert(sub[i - pos] == s[i]);
        if s[i] != c {
            lemma_find_shift(s, pos, i + 1, c);
        }
    }
}

/// Hex character of a value below sixteen.
pub open spec fn hex_char(d: nat) -> char {
    if d < 10 {
        (48 + d) as char
    } else {
        (87 + d) as char
    }
}

/// Lowercase hex rendering of a byte sequence, two characters per byte.
pub open spec fn hex_seq(bytes: Seq<u8>) -> Seq<char>
    decreases bytes.len(),
{
    if bytes.len() == 0 {
        Seq::empty()
    } else {
        hex_seq(bytes.drop_last()) + seq![
            hex_char((bytes.last() / 16) as nat),
            hex_char((bytes.last() % 16) as nat),
        ]
    }
}

/// Exec form of [`hex_seq`].
pub fn bytes_to_hex(bytes: &Vec<u8>) -> (r: Vec<char>)
    ensures
        r@ == hex_seq(bytes@),
{
    let n = bytes.len();
    let mut r: Vec<char> = Vec::new();
    for i in 0..n
        invariant
            n == bytes@.len(),
            r@ =~= hex_seq(bytes@.subrange(0, i as int)),
    {
        let b = bytes[i];
        let hi = b / 16;
        let lo = b % 16;
        let hc: char = if hi < 10 {
            ((48 + hi)) as char
        } else {
            ((87 + hi)) as char
        };
        let lc: char = if lo < 10 {
            ((48 + lo)) as char
        } else {
            ((87 + lo)) as char
        };
        r.push(hc);
        r.push(lc);
        proof {
            let pre = bytes@.subrange(0, i + 1 as int);
            assert(pre.drop_last() =~= bytes@.subrange(0, i as int));
            assert(pre.last() == bytes@[i as int]);
            assert(r@ =~= hex_seq(pre));
        }
    }
    proof {
        assert(bytes@.subrange(0, n as int) =~= bytes@);
    }
    r
}

} // verus!
