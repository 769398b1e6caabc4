//! Character-level text utilities: ASCII case folding, Unicode whitespace
//! trimming and separator search, each specified over `Seq<char>`.
use vstd::prelude::*;
use vstd::string::*;

verus! {

/// ASCII lower-casing of one character; every other character is unchanged.
pub open spec fn lower_char(c: char) -> char {
    if 'A' <= c && c <= 'Z' {
        ((c as u32) + 32) as char
    } else {
        c
    }
}

/// ASCII lower-casing of a character sequence.
pub open spec fn lower(s: Seq<char>) -> Seq<char> {
    s.map_values(|c: char| lower_char(c))
}

/// ASCII case-insensitive equality.
pub open spec fn eq_ignore_case(a: Seq<char>, b: Seq<char>) -> bool {
    lower(a) == lower(b)
}

/// The characters that `char::is_whitespace` accepts (Unicode `White_Space`).
pub open spec fn is_ws(c: char) -> bool {
    ||| '\t' <= c && c <= '\r'
    ||| c == ' '
    ||| c == '\u{85}'
    ||| c == '\u{A0}'
    ||| c == '\u{1680}'
    ||| '\u{2000}' <= c && c <= '\u{200A}'
    ||| c == '\u{2028}'
    ||| c == '\u{2029}'
    ||| c == '\u{202F}'
    ||| c == '\u{205F}'
    ||| c == '\u{3000}'
}

/// Number of leading whitespace characters.
pub open spec fn lead_ws(s: Seq<char>) -> nat
    decreases s.len(),
{
    if s.len() > 0 && is_ws(s[0]) {
        1 + lead_ws(s.drop_first())
    } else {
        0
    }
}

/// Number of trailing whitespace characters.
pub open spec fn trail_ws(s: Seq<char>) -> nat
    decreases s.len(),
{
    if s.len() > 0 && is_ws(s.last()) {
        1 + trail_ws(s.drop_last())
    } else {
        0
    }
}

/// `str::trim`: the sequence without leading and trailing whitespace.
pub open spec fn trim(s: Seq<char>) -> Seq<char> {
    let t = s.skip(lead_ws(s) as int);
    t.take(t.len() - trail_ws(t))
}

/// Whether `c` occurs in `s`.
pub open spec fn has_char(s: Seq<char>, c: char) -> bool {
    exists|i: int| 0 <= i < s.len() && s[i] == c
}

/// Index of the first occurrence of `c` (meaningful when `has_char`).
pub open spec fn first_index(s: Seq<char>, c: char) -> int
    decreases s.len(),
{
    if s.len() == 0 {
        0
    } else if s[0] == c {
        0
    } else {
        1 + first_index(s.drop_first(), c)
    }
}

/// Index of the last occurrence of `c` (meaningful when `has_char`).
pub open spec fn last_index(s: Seq<char>, c: char) -> int
    decreases s.len(),
{
    if s.len() == 0 {
        0
    } else if s.last() == c {
        s.len() - 1
    } else {
        last_index(s.drop_last(), c)
    }
}

/// `str::split_once(c).map_or(s, |(head, _)| head)`: the part before the first `c`.
pub open spec fn before_first(s: Seq<char>, c: char) -> Seq<char> {
    if has_char(s, c) {
        s.take(first_index(s, c))
    } else {
        s
    }
}

/// `str::rsplit_once(c).map_or(s, |(head, _)| head)`: the part before the last `c`.
pub open spec fn before_last(s: Seq<char>, c: char) -> Seq<char> {
    if has_char(s, c) {
        s.take(last_index(s, c))
    } else {
        s
    }
}

/// The media type of a content-type value: text before `;`, trimmed.
pub open spec fn media_type(s: Seq<char>) -> Seq<char> {
    trim(before_first(s, ';'))
}

/// Whether `s` starts with `p`.
pub open spec fn starts_with(s: Seq<char>, p: Seq<char>) -> bool {
    p.len() <= s.len() && s.take(p.len() as int) == p
}

/// Whether `s` ends with `p`.
pub open spec fn ends_with(s: Seq<char>, p: Seq<char>) -> bool {
    p.len() <= s.len() && s.skip(s.len() - p.len()) == p
}

/// `s.rsplit_once(c).map(|(_, tail)| tail)`: the part after the last `c`.
pub open spec fn after_last(s: Seq<char>, c: char) -> Option<Seq<char>> {
    if has_char(s, c) {
        Some(s.skip(last_index(s, c) + 1))
    } else {
        None
    }
}

pub proof fn lemma_first_index(s: Seq<char>, c: char)
    ensures
        has_char(s, c) ==> {
            &&& 0 <= first_index(s, c) < s.len()
            &&& s[first_index(s, c)] == c
            &&& forall|j: int| 0 <= j < first_index(s, c) ==> s[j] != c
        },
        !has_char(s, c) ==> first_index(s, c) == s.len(),
    decreases s.len(),
{
    if s.len() > 0 {
        lemma_first_index(s.drop_first(), c);
        if s[0] != c {
            if has_char(s, c) {
                let i = choose|i: int| 0 <= i < s.len() && s[i] == c;
                assert(s.drop_first()[i - 1] == c);
            }
            if has_char(s.drop_first(), c) {
                let i = choose|i: int| 0 <= i < s.drop_first().len() && s.drop_first()[i] == c;
                assert(s[i + 1] == c);
            }
            if has_char(s, c) {
                assert forall|j: int| 0 <= j < first_index(s, c) implies s[j] != c by {
                    if j > 0 {
                        assert(s[j] == s.drop_first()[j - 1]);
                    }
                }
            }
        }
    }
}

pub proof fn lemma_last_index(s: Seq<char>, c: char)
    ensures
        has_char(s, c) ==> {
            &&& 0 <= last_index(s, c) < s.len()
            &&& s[last_index(s, c)] == c
            &&& forall|j: int| last_index(s, c) < j < s.len() ==> s[j] != c
        },
    decreases s.len(),
{
    if s.len() > 0 {
        lemma_last_index(s.drop_last(), c);
        if s.last() != c && has_char(s, c) {
            let i = choose|i: int| 0 <= i < s.len() && s[i] == c;
            assert(s.drop_last()[i] == c);
            assert forall|j: int| last_index(s, c) < j < s.len() implies s[j] != c by {
                if j < s.len() - 1 {
                    assert(s[j] == s.drop_last()[j]);
                }
            }
        }
    }
}

pub proof fn lemma_lead_ws(s: Seq<char>)
    ensures
        lead_ws(s) <= s.len(),
        forall|j: int| 0 <= j < lead_ws(s) ==> is_ws(#[trigger] s[j]),
        lead_ws(s) < s.len() ==> !is_ws(s[lead_ws(s) as int]),
    decreases s.len(),
{
    if s.len() > 0 && is_ws(s[0]) {
        lemma_lead_ws(s.drop_first());
        assert forall|j: int| 0 <= j < lead_ws(s) implies is_ws(#[trigger] s[j]) by {
            if j > 0 {
                assert(s[j] == s.drop_first()[j - 1]);
            }
        }
    }
}

pub proof fn lemma_trail_ws(s: Seq<char>)
    ensures
        trail_ws(s) <= s.len(),
        forall|j: int| s.len() - trail_ws(s) <= j < s.len() ==> is_ws(#[trigger] s[j]),
        trail_ws(s) < s.len() ==> !is_ws(s[s.len() - trail_ws(s) - 1]),
    decreases s.len(),
{
    if s.len() > 0 && is_ws(s.last()) {
        lemma_trail_ws(s.drop_last());
        assert forall|j: int| s.len() - trail_ws(s) <= j < s.len() implies is_ws(#[trigger] s[j]) by {
            if j < s.len() - 1 {
                assert(s[j] == s.drop_last()[j]);
            }
        }
    }
}

/// `char::is_whitespace`.
pub fn char_is_ws(c: char) -> (r: bool)
    ensures
        r == is_ws(c),
{
    ('\t' <= c && c <= '\r') || c == ' ' || c == '\u{85}' || c == '\u{A0}' || c == '\u{1680}'
        || ('\u{2000}' <= c && c <= '\u{200A}') || c == '\u{2028}' || c == '\u{2029}' || c
        == '\u{202F}' || c == '\u{205F}' || c == '\u{3000}'
}

/// ASCII lower-casing of one character.
pub fn char_to_lower(c: char) -> (r: char)
    ensures
        r == lower_char(c),
{
    if 'A' <= c && c <= 'Z' {
        let b: u8 = c as u8;
        let r: char = (b + 32) as char;
        r
    } else {
        c
    }
}

/// The characters of a string.
pub fn chars_of(s: &str) -> (v: Vec<char>)
    ensures
        v@ == s@,
{
    let n = s.unicode_len();
    let mut v: Vec<char> = Vec::new();
    let mut i: usize = 0;
    while i < n
        invariant
            n == s@.len(),
            i <= n,
            v@ == s@.subrange(0, i as int),
        decreases n - i,
    {
        v.push(s.get_char(i));
        i += 1;
    }
    v
}

/// A string holding the given characters.
pub fn string_of(v: &[char]) -> (s: String)
    ensures
        s@ == v@,
{
    let mut s = String::new();
    let mut i: usize = 0;
    while i < v.len()
        invariant
            i <= v.len(),
            s@ == v@.subrange(0, i as int),
        decreases v.len() - i,
    {
        push_char(&mut s, v[i]);
        i += 1;
    }
    s
}

/// Appends one character to a string: calls `String::push`.
#[verifier::external_body]
pub(crate) fn push_char(s: &mut String, c: char)
    ensures
        final(s)@ == old(s)@.push(c),
{
    s.push(c);
}

/// ASCII lower-casing of a character vector.
pub fn lower_vec(v: &[char]) -> (r: Vec<char>)
    ensures
        r@ == lower(v@),
{
    let mut r: Vec<char> = Vec::new();
    let mut i: usize = 0;
    while i < v.len()
        invariant
            i <= v.len(),
            r@ == lower(v@.subrange(0, i as int)),
        decreases v.len() - i,
    {
        r.push(char_to_lower(v[i]));
        i += 1;
        assert(lower(v@.subrange(0, i as int)) =~= lower(v@.subrange(0, (i - 1) as int)).push(
            lower_char(v@[i - 1]),
        ));
    }
    assert(v@.subrange(0, v@.len() as int) =~= v@);
    r
}

/// Equality of a character sequence with the characters of a string literal.
pub fn chars_eq_str(v: &[char], lit: &str) -> (r: bool)
    ensures
        r == (v@ == lit@),
{
    let n = lit.unicode_len();
    if v.len() != n {
        return false;
    }
    let mut i: usize = 0;
    while i < n
        invariant
            n == lit@.len(),
            n == v@.len(),
            i <= n,
            forall|j: int| 0 <= j < i ==> v@[j] == lit@[j],
        decreases n - i,
    {
        if v[i] != lit.get_char(i) {
            return false;
        }
        i += 1;
    }
    assert(v@ =~= lit@);
    true
}

/// ASCII case-insensitive equality of a character sequence with a string.
pub fn chars_eq_ignore_case(v: &[char], other: &[char]) -> (r: bool)
    ensures
        r == eq_ignore_case(v@, other@),
{
    if v.len() != other.len() {
        assert(lower(v@).len() != lower(other@).len());
        return false;
    }
    let mut i: usize = 0;
    while i < v.len()
        invariant
            v@.len() == other@.len(),
            i <= v.len(),
            forall|j: int| 0 <= j < i ==> lower_char(v@[j]) == lower_char(other@[j]),
        decreases v.len() - i,
    {
        if char_to_lower(v[i]) != char_to_lower(other[i]) {
            assert(lower(v@)[i as int] != lower(other@)[i as int]);
            return false;
        }
        i += 1;
    }
    assert(lower(v@) =~= lower(other@));
    true
}

/// Index of the first `c` in `v`, if any.
pub fn find_char(v: &[char], c: char) -> (r: Option<usize>)
    ensures
        r is None <==> !has_char(v@, c),
        r matches Some(i) ==> i == first_index(v@, c),
{
    proof {
        lemma_first_index(v@, c);
    }
    let mut i: usize = 0;
    while i < v.len()
        invariant
            i <= v.len(),
            forall|j: int| 0 <= j < i ==> v@[j] != c,
        decreases v.len() - i,
    {
        if v[i] == c {
            proof {
                assert(has_char(v@, c));
                lemma_first_index(v@, c);
            }
            return Some(i);
        }
        i += 1;
    }
    None
}

/// Index of the last `c` in `v`, if any.
pub fn rfind_char(v: &[char], c: char) -> (r: Option<usize>)
    ensures
        r is None <==> !has_char(v@, c),
        r matches Some(i) ==> i == last_index(v@, c) && i < v.len(),
{
    proof {
        lemma_last_index(v@, c);
    }
    let mut i: usize = v.len();
    while i > 0
        invariant
            i <= v.len(),
            forall|j: int| i <= j < v.len() ==> v@[j] != c,
        decreases i,
    {
        if v[i - 1] == c {
            proof {
                assert(has_char(v@, c));
                lemma_last_index(v@, c);
                let k = last_index(v@, c);
                if k > i - 1 {
                    assert(v@[k] != c);
                }
                if k < i - 1 {
                    assert(v@[i - 1] != c);
                }
            }
            return Some(i - 1);
        }
        i -= 1;
    }
    None
}

/// The subrange `[from, to)` of a character vector.
pub fn sub_vec(v: &[char], from: usize, to: usize) -> (r: Vec<char>)
    requires
        from <= to <= v.len(),
    ensures
        r@ == v@.subrange(from as int, to as int),
{
    let mut r: Vec<char> = Vec::new();
    let mut i: usize = from;
    while i < to
        invariant
            from <= i <= to,
            to <= v.len(),
            r@ == v@.subrange(from as int, i as int),
        decreases to - i,
    {
        r.push(v[i]);
        i += 1;
    }
    r
}

/// `str::trim` on a character vector.
pub fn trim_vec(v: &[char]) -> (r: Vec<char>)
    ensures
        r@ == trim(v@),
{
    proof {
        lemma_lead_ws(v@);
    }
    let mut a: usize = 0;
    while a < v.len() && char_is_ws(v[a])
        invariant
            a <= v.len(),
            a <= lead_ws(v@),
            lead_ws(v@) <= v@.len(),
            forall|j: int| 0 <= j < lead_ws(v@) ==> is_ws(#[trigger] v@[j]),
            lead_ws(v@) < v@.len() ==> !is_ws(v@[lead_ws(v@) as int]),
        decreases v.len() - a,
    {
        a += 1;
    }
    let ghost t = v@.skip(a as int);
    proof {
        lemma_trail_ws(t);
    }
    let mut b: usize = v.len();
    while b > a && char_is_ws(v[b - 1])
        invariant
            a <= b <= v.len(),
            t == v@.skip(a as int),
            b - a >= t.len() - trail_ws(t),
            trail_ws(t) <= t.len(),
            forall|j: int| t.len() - trail_ws(t) <= j < t.len() ==> is_ws(#[trigger] t[j]),
            trail_ws(t) < t.len() ==> !is_ws(t[t.len() - trail_ws(t) - 1]),
        decreases b,
    {
        assert(t[b - 1 - a] == v@[b - 1]);
        b -= 1;
    }
    assert(b - a == t.len() - trail_ws(t)) by {
        if b - a > t.len() - trail_ws(t) {
            assert(t[b - 1 - a] == v@[b - 1]);
        }
    }
    let r = sub_vec(v, a, b);
    assert(r@ =~= trim(v@));
    r
}

/// `s.split_once(c).map_or(s, |(head, _)| head)` on a character vector.
pub fn before_first_vec(v: &[char], c: char) -> (r: Vec<char>)
    ensures
        r@ == before_first(v@, c),
{
    proof {
        lemma_first_index(v@, c);
    }
    match find_char(v, c) {
        Some(i) => sub_vec(v, 0, i),
        None => sub_vec(v, 0, v.len()),
    }
}

/// The media type of a content-type value: `split_once(';')` head, trimmed.
pub fn media_type_vec(s: &str) -> (r: Vec<char>)
    ensures
        r@ == media_type(s@),
{
    let v = chars_of(s);
    let head = before_first_vec(&v, ';');
    trim_vec(&head)
}

/// Whether `v` starts with the characters of `lit`.
pub fn starts_with_str(v: &[char], lit: &str) -> (r: bool)
    ensures
        r == starts_with(v@, lit@),
{
    let n = lit.unicode_len();
    if n > v.len() {
        return false;
    }
    let head = sub_vec(v, 0, n);
    assert(head@ == v@.take(n as int));
    chars_eq_str(&head, lit)
}

/// Whether `v` ends with the characters of `lit`.
pub fn ends_with_str(v: &[char], lit: &str) -> (r: bool)
    ensures
        r == ends_with(v@, lit@),
{
    let n = lit.unicode_len();
    if n > v.len() {
        return false;
    }
    let tail = sub_vec(v, v.len() - n, v.len());
    assert(tail@ =~= v@.skip(v@.len() - n));
    chars_eq_str(&tail, lit)
}

/// The part after the last `c`, if `c` occurs.
pub fn after_last_vec(v: &[char], c: char) -> (r: Option<Vec<char>>)
    ensures
        r is None <==> after_last(v@, c) is None,
        r matches Some(t) ==> after_last(v@, c) == Some(t@),
{
    proof {
        lemma_last_index(v@, c);
    }
    match rfind_char(v, c) {
        Some(i) => {
            let t = sub_vec(v, i + 1, v.len());
            assert(t@ =~= v@.skip(i + 1));
            Some(t)
        },
        None => None,
    }
}

/// The part before the last `c` (all of `v` when `c` does not occur).
pub fn before_last_vec(v: &[char], c: char) -> (r: Vec<char>)
    ensures
        r@ == before_last(v@, c),
{
    match rfind_char(v, c) {
        Some(i) => {
            let t = sub_vec(v, 0, i);
            assert(t@ =~= v@.take(i as int));
            t
        },
        None => {
            let t = sub_vec(v, 0, v.len());
            assert(t@ =~= v@);
            t
        },
    }
}

/// Equality of two character sequences.
pub fn chars_equal(a: &[char], b: &[char]) -> (r: bool)
    ensures
        r == (a@ == b@),
{
    if a.len() != b.len() {
        return false;
    }
    let mut i: usize = 0;
    while i < a.len()
        invariant
            a@.len() == b@.len(),
            i <= a@.len(),
            forall|j: int| 0 <= j < i ==> a@[j] == b@[j],
        decreases a@.len() - i,
    {
        if a[i] != b[i] {
            return false;
        }
        i += 1;
    }
    assert(a@ =~= b@);
    true
}

/// Equality of two strings.
pub fn str_eq(a: &str, b: &str) -> (r: bool)
    ensures
        r == (a@ == b@),
{
    let x = chars_of(a);
    let y = chars_of(b);
    chars_equal(&x, &y)
}

/// The decimal digit character of `d` (`d < 10`).
pub open spec fn digit_char(d: nat) -> char {
    if d == 0 { '0' } else if d == 1 { '1' } else if d == 2 { '2' } else if d == 3 { '3' } else if d == 4 { '4' }
    else if d == 5 { '5' } else if d == 6 { '6' } else if d == 7 { '7' } else if d == 8 { '8' } else { '9' }
}

/// The decimal numeral of `n`, without leading zeros.
pub open spec fn decimal(n: nat) -> Seq<char>
    decreases n,
{
    if n < 10 {
        seq![digit_char(n)]
    } else {
        decimal(n / 10).push(digit_char(n % 10))
    }
}

/// The decimal numeral of a signed integer: `-` before the numeral of its magnitude when negative.
pub open spec fn signed_decimal(n: int) -> Seq<char> {
    if n < 0 {
        seq!['-'] + decimal((-n) as nat)
    } else {
        decimal(n as nat)
    }
}

fn digit_of(d: u64) -> (c: char)
    requires
        d < 10,
    ensures
        c == digit_char(d as nat),
{
    if d == 0 { '0' } else if d == 1 { '1' } else if d == 2 { '2' } else if d == 3 { '3' } else if d == 4 { '4' }
    else if d == 5 { '5' } else if d == 6 { '6' } else if d == 7 { '7' } else if d == 8 { '8' } else { '9' }
}

/// The decimal numeral of `n`, as `to_string` writes it.
pub fn decimal_text(n: u64) -> (r: String)
    ensures
        r@ == decimal(n as nat),
{
    let mut digits: Vec<char> = Vec::new();
    let mut m: u64 = n;
    let ghost mut tail: Seq<char> = Seq::empty();
    digits.push(digit_of(m % 10));
    proof {
        tail = seq![digit_char((m % 10) as nat)];
    }
    m = m / 10;
    // digits hold the numeral's last digits, least significant first
    while m > 0
        invariant
            m <= n,
            decimal(n as nat) == (if m == 0 { Seq::<char>::empty() } else { decimal(m as nat) }) + tail,
            digits@.len() == tail.len(),
            forall|i: int| 0 <= i < tail.len() ==> #[trigger] digits@[i] == tail[tail.len() - 1 - i],
        decreases m,
    {
        let ghost before = tail;
        let d = m % 10;
        digits.push(digit_of(d));
        proof {
            tail = seq![digit_char(d as nat)] + before;
            let next = m / 10;
            assert(decimal(m as nat) == (if next == 0 { Seq::<char>::empty() } else { decimal(next as nat) }) + seq![digit_char(d as nat)]) by {
                if m < 10 {
                    assert(next == 0);
                    assert(decimal(m as nat) =~= Seq::<char>::empty() + seq![digit_char(d as nat)]);
                } else {
                    assert(decimal(m as nat) =~= decimal(next as nat) + seq![digit_char(d as nat)]);
                }
            }
            assert((if next == 0 { Seq::<char>::empty() } else { decimal(next as nat) }) + seq![digit_char(d as nat)] + before
                =~= (if next == 0 { Seq::<char>::empty() } else { decimal(next as nat) }) + tail);
        }
        m = m / 10;
    }
    proof {
        if n < 10 {
            assert(decimal(n as nat) =~= tail);
        }
    }
    let mut out: Vec<char> = Vec::new();
    let mut k: usize = digits.len();
    while k > 0
        invariant
            k <= digits@.len(),
            digits@.len() == tail.len(),
            forall|i: int| 0 <= i < tail.len() ==> #[trigger] digits@[i] == tail[tail.len() - 1 - i],
            out@ == tail.subrange(0, (tail.len() - k) as int),
        decreases k,
    {
        out.push(digits[k - 1]);
        proof {
            assert(tail.subrange(0, (tail.len() - k + 1) as int) =~= tail.subrange(0, (tail.len() - k) as int).push(tail[tail.len() - k]));
        }
        k -= 1;
    }
    assert(out@ =~= tail);
    assert(decimal(n as nat) =~= tail);
    string_of(&out)
}

/// The decimal numeral of a signed integer, as `to_string` writes it.
pub fn signed_decimal_text(n: i64) -> (r: String)
    ensures
        r@ == signed_decimal(n as int),
{
    if n < 0 {
        let magnitude: u64 = if n == i64::MIN { 9223372036854775808u64 } else { (-n) as u64 };
        let digits = decimal_text(magnitude);
        let mut out = String::from_str("-");
        proof {
            reveal_strlit("-");
        }
        out.append(digits.as_str());
        assert(out@ =~= seq!['-'] + decimal((-n) as nat));
        out
    } else {
        decimal_text(n as u64)
    }
}

} // verus!
