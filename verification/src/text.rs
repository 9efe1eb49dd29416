//! Text primitives over the character view of strings: Unicode whitespace,
//! trimming, ASCII lower-casing, decimal rendering and decimal parsing.

use vstd::prelude::*;
use vstd::string::*;

verus! {

/// The Unicode `White_Space` property.
pub open spec fn is_unicode_whitespace(c: char) -> bool {
    ||| ('\u{9}' <= c && c <= '\u{d}')
    ||| c == ' '
    ||| c == '\u{85}'
    ||| c == '\u{a0}'
    ||| c == '\u{1680}'
    ||| ('\u{2000}' <= c && c <= '\u{200a}')
    ||| c == '\u{2028}'
    ||| c == '\u{2029}'
    ||| c == '\u{202f}'
    ||| c == '\u{205f}'
    ||| c == '\u{3000}'
}

/// Whether `c` has the Unicode `White_Space` property.
pub fn is_whitespace_char(c: char) -> (r: bool)
    ensures
        r == is_unicode_whitespace(c),
{
    ('\u{9}' <= c && c <= '\u{d}') || c == ' ' || c == '\u{85}' || c == '\u{a0}' || c
        == '\u{1680}' || ('\u{2000}' <= c && c <= '\u{200a}') || c == '\u{2028}' || c
        == '\u{2029}' || c == '\u{202f}' || c == '\u{205f}' || c == '\u{3000}'
}

/// `s` without its leading whitespace.
pub open spec fn trim_start_seq(s: Seq<char>) -> Seq<char>
    decreases s.len(),
{
    if s.len() > 0 && is_unicode_whitespace(s[0]) {
        trim_start_seq(s.drop_first())
    } else {
        s
    }
}

/// `s` without its trailing whitespace.
pub open spec fn trim_end_seq(s: Seq<char>) -> Seq<char>
    decreases s.len(),
{
    if s.len() > 0 && is_unicode_whitespace(s.last()) {
        trim_end_seq(s.drop_last())
    } else {
        s
    }
}

/// `s` without its leading and trailing whitespace.
pub open spec fn trim_seq(s: Seq<char>) -> Seq<char> {
    trim_end_seq(trim_start_seq(s))
}

/// A text is blank when nothing but whitespace is in it.
pub open spec fn is_blank_seq(s: Seq<char>) -> bool {
    trim_seq(s).len() == 0
}

proof fn lemma_trim_start_shape(s: Seq<char>)
    ensures
        trim_start_seq(s).len() <= s.len(),
        trim_start_seq(s).len() == 0 || !is_unicode_whitespace(trim_start_seq(s)[0]),
    decreases s.len(),
{
    if s.len() > 0 && is_unicode_whitespace(s[0]) {
        lemma_trim_start_shape(s.drop_first());
    }
}

proof fn lemma_trim_end_shape(s: Seq<char>)
    ensures
        trim_end_seq(s).len() <= s.len(),
        trim_end_seq(s) == s.subrange(0, trim_end_seq(s).len() as int),
        trim_end_seq(s).len() == 0 || !is_unicode_whitespace(trim_end_seq(s).last()),
    decreases s.len(),
{
    if s.len() > 0 && is_unicode_whitespace(s.last()) {
        lemma_trim_end_shape(s.drop_last());
        let t = trim_end_seq(s.drop_last());
        assert(s.drop_last().subrange(0, t.len() as int) =~= s.subrange(0, t.len() as int));
    } else {
        assert(s.subrange(0, s.len() as int) =~= s);
    }
}

proof fn lemma_trim_start_empty(s: Seq<char>)
    ensures
        trim_start_seq(s).len() == 0 <==> forall|i: int| 0 <= i < s.len() ==> is_unicode_whitespace(
            #[trigger] s[i],
        ),
    decreases s.len(),
{
    if s.len() > 0 {
        lemma_trim_start_empty(s.drop_first());
        if is_unicode_whitespace(s[0]) {
            assert forall|i: int|
                0 <= i < s.len() && (forall|k: int|
                    0 <= k < s.drop_first().len() ==> is_unicode_whitespace(
                        #[trigger] s.drop_first()[k],
                    )) implies is_unicode_whitespace(#[trigger] s[i]) by {
                if i > 0 {
                    assert(s[i] == s.drop_first()[i - 1]);
                }
            }
            if trim_start_seq(s).len() != 0 {
                let k = choose|k: int|
                    0 <= k < s.drop_first().len() && !is_unicode_whitespace(
                        #[trigger] s.drop_first()[k],
                    );
                assert(s[k + 1] == s.drop_first()[k]);
            }
        }
    }
}

proof fn lemma_trim_end_keeps_first(t: Seq<char>)
    requires
        t.len() > 0,
        !is_unicode_whitespace(t[0]),
    ensures
        trim_end_seq(t).len() > 0,
    decreases t.len(),
{
    if is_unicode_whitespace(t.last()) {
        assert(t.len() > 1);
        assert(t.drop_last()[0] == t[0]);
        lemma_trim_end_keeps_first(t.drop_last());
    }
}

/// A text is blank exactly when every character of it is whitespace.
pub proof fn lemma_blank_is_all_whitespace(s: Seq<char>)
    ensures
        is_blank_seq(s) <==> forall|i: int| 0 <= i < s.len() ==> is_unicode_whitespace(#[trigger] s[i]),
{
    lemma_trim_start_empty(s);
    lemma_trim_start_shape(s);
    let u = trim_start_seq(s);
    if u.len() > 0 {
        lemma_trim_end_keeps_first(u);
    } else {
        assert(trim_end_seq(u) == u);
    }
}

/// A trimmed text is either empty or begins and ends with a character that
/// is not whitespace; trimming it again changes nothing.
pub proof fn lemma_trim_idempotent(s: Seq<char>)
    ensures
        trim_seq(trim_seq(s)) == trim_seq(s),
        trim_seq(s).len() == 0 || (!is_unicode_whitespace(trim_seq(s)[0])
            && !is_unicode_whitespace(trim_seq(s).last())),
{
    let u = trim_start_seq(s);
    let t = trim_end_seq(u);
    lemma_trim_start_shape(s);
    lemma_trim_end_shape(u);
    if t.len() > 0 {
        assert(t[0] == u[0]);
        assert(trim_start_seq(t) == t);
        assert(trim_end_seq(t) == t);
    } else {
        assert(trim_start_seq(t) == t);
    }
}

/// Calls `String::push` of std, which appends the character `c` to `s`:
/// the contract claims that the characters of `s` gain `c` at their end.
#[verifier::external_body]
pub(crate) fn push_char(s: &mut String, c: char)
    ensures
        final(s)@ == old(s)@.push(c),
{
    s.push(c);
}

/// The characters of `s`, in order.
pub fn chars_of(s: &str) -> (v: Vec<char>)
    ensures
        v@ == s@,
{
    let n = s.unicode_len();
    let mut v: Vec<char> = Vec::new();
    let mut i: usize = 0;
    while i < n
        invariant
            n == s@.len(),
            i <= n,
            v@ == s@.subrange(0, i as int),
        decreases n - i,
    {
        v.push(s.get_char(i));
        i = i + 1;
    }
    v
}

/// A string holding the characters `cs[from..to]`.
pub fn string_from_chars(cs: &[char], from: usize, to: usize) -> (r: String)
    requires
        from <= to <= cs@.len(),
    ensures
        r@ == cs@.subrange(from as int, to as int),
{
    let mut r = String::new();
    let mut i: usize = from;
    while i < to
        invariant
            from <= i <= to <= cs@.len(),
            r@ == cs@.subrange(from as int, i as int),
        decreases to - i,
    {
        push_char(&mut r, cs[i]);
        i = i + 1;
    }
    r
}

/// The bounds `(a, b)` of the trimmed part of `cs`: `cs[a..b]` is `cs`
/// without its leading and trailing whitespace.
pub fn trim_bounds(cs: &[char]) -> (r: (usize, usize))
    ensures
        r.0 <= r.1 <= cs@.len(),
        cs@.subrange(r.0 as int, r.1 as int) == trim_seq(cs@),
{
    let n = cs.len();
    let mut i: usize = 0;
    assert(cs@.subrange(0, n as int) =~= cs@);
    while i < n && is_whitespace_char(cs[i])
        invariant
            i <= n == cs@.len(),
            trim_start_seq(cs@) == trim_start_seq(cs@.subrange(i as int, n as int)),
        decreases n - i,
    {
        assert(cs@.subrange(i as int, n as int).drop_first() =~= cs@.subrange(i + 1, n as int));
        i = i + 1;
    }
    assert(trim_start_seq(cs@) == cs@.subrange(i as int, n as int));
    let mut j: usize = n;
    while j > i && is_whitespace_char(cs[j - 1])
        invariant
            i <= j <= n == cs@.len(),
            trim_start_seq(cs@) == cs@.subrange(i as int, n as int),
            trim_seq(cs@) == trim_end_seq(cs@.subrange(i as int, j as int)),
        decreases j - i,
    {
        assert(cs@.subrange(i as int, j as int).drop_last() =~= cs@.subrange(i as int, j - 1));
        j = j - 1;
    }
    (i, j)
}

/// `s` without its leading and trailing whitespace.
pub fn trim(s: &str) -> (r: String)
    ensures
        r@ == trim_seq(s@),
{
    let cs = chars_of(s);
    let (a, b) = trim_bounds(cs.as_slice());
    string_from_chars(cs.as_slice(), a, b)
}

/// Whether `s` holds nothing but whitespace.
pub fn is_blank(s: &str) -> (r: bool)
    ensures
        r == is_blank_seq(s@),
{
    let cs = chars_of(s);
    let (a, b) = trim_bounds(cs.as_slice());
    a == b
}

/// ASCII upper-case letters map to their lower-case forms; every other
/// character is kept.
pub open spec fn ascii_lower(c: char) -> char {
    if 'A' <= c && c <= 'Z' {
        ((c as u32) + 32) as char
    } else {
        c
    }
}

/// `s` with each ASCII upper-case letter lower-cased.
pub open spec fn ascii_lower_seq(s: Seq<char>) -> Seq<char> {
    s.map_values(|c: char| ascii_lower(c))
}

/// The ASCII lower-case form of `c`.
pub fn to_ascii_lower(c: char) -> (r: char)
    ensures
        r == ascii_lower(c),
{
    if 'A' <= c && c <= 'Z' {
        (((c as u32) + 32) as u8) as char
    } else {
        c
    }
}

/// The characters of `cs` with each ASCII upper-case letter lower-cased.
pub fn lower_chars(cs: &[char]) -> (r: Vec<char>)
    ensures
        r@ == ascii_lower_seq(cs@),
{
    let mut r: Vec<char> = Vec::new();
    let mut i: usize = 0;
    while i < cs.len()
        invariant
            i <= cs@.len(),
            r@ == ascii_lower_seq(cs@.subrange(0, i as int)),
        decreases cs@.len() - i,
    {
        r.push(to_ascii_lower(cs[i]));
        assert(ascii_lower_seq(cs@.subrange(0, i + 1)) =~= ascii_lower_seq(
            cs@.subrange(0, i as int),
        ).push(ascii_lower(cs@[i as int])));
        i = i + 1;
    }
    assert(cs@.subrange(0, cs@.len() as int) =~= cs@);
    r
}

/// Whether `a` and `b` hold the same characters.
pub fn same_chars(a: &[char], b: &[char]) -> (r: bool)
    ensures
        r == (a@ == b@),
{
    if a.len() != b.len() {
        return false;
    }
    let mut i: usize = 0;
    while i < a.len()
        invariant
            i <= a@.len() == b@.len(),
            forall|k: int| 0 <= k < i ==> a@[k] == b@[k],
        decreases a@.len() - i,
    {
        if a[i] != b[i] {
            return false;
        }
        i = i + 1;
    }
    assert(a@ =~= b@);
    true
}

/// Whether `a` and `b` hold the same characters.
pub fn same_text(a: &str, b: &str) -> (r: bool)
    ensures
        r == (a@ == b@),
{
    let x = chars_of(a);
    let y = chars_of(b);
    same_chars(x.as_slice(), y.as_slice())
}

/// The decimal digit character for `d < 10`.
pub open spec fn digit_char(d: nat) -> char {
    (d + 48) as char
}

/// The decimal rendering of `n`, without leading zeros.
pub open spec fn decimal(n: nat) -> Seq<char>
    decreases n,
{
    if n < 10 {
        seq![digit_char(n)]
    } else {
        decimal(n / 10).push(digit_char(n % 10))
    }
}

/// Appends the decimal rendering of `n` to `out`.
pub fn push_decimal(out: &mut String, n: u64)
    ensures
        final(out)@ == old(out)@ + decimal(n as nat),
    decreases n,
{
    if n >= 10 {
        push_decimal(out, n / 10);
    }
    let d: u64 = n % 10;
    push_char(out, ((d as u8) + 48) as char);
    assert(old(out)@ + decimal(n as nat) =~= (old(out)@ + if n >= 10 {
        decimal((n / 10) as nat)
    } else {
        Seq::<char>::empty()
    }).push(digit_char((n % 10) as nat)));
}

/// Whether `c` is one of the ASCII digits `0` to `9`.
pub open spec fn is_ascii_digit(c: char) -> bool {
    '0' <= c && c <= '9'
}

/// The value of the ASCII digit `c`.
pub open spec fn digit_value(c: char) -> nat {
    ((c as u32) - 48) as nat
}

/// The value of the decimal numeral `d`.
pub open spec fn digits_value(d: Seq<char>) -> nat
    decreases d.len(),
{
    if d.len() == 0 {
        0
    } else {
        digits_value(d.drop_last()) * 10 + digit_value(d.last())
    }
}

/// `s` without one leading `+`, where it has one.
pub open spec fn unsigned_digits(s: Seq<char>) -> Seq<char> {
    if s.len() > 0 && s[0] == '+' {
        s.drop_first()
    } else {
        s
    }
}

/// The `u16` that `s` spells in decimal: an optional `+`, then one or more
/// ASCII digits, of a value that fits in 16 bits.
pub open spec fn parse_u16_seq(s: Seq<char>) -> Option<u16> {
    let d = unsigned_digits(s);
    if d.len() > 0 && (forall|i: int| 0 <= i < d.len() ==> #[trigger] is_ascii_digit(d[i]))
        && digits_value(d) <= 65535 {
        Some(digits_value(d) as u16)
    } else {
        None
    }
}

/// The `u16` spelled by `cs[from..to]`, as [`parse_u16_seq`] reads it.
pub fn parse_u16_chars(cs: &[char], from: usize, to: usize) -> (r: Option<u16>)
    requires
        from <= to <= cs@.len(),
    ensures
        r == parse_u16_seq(cs@.subrange(from as int, to as int)),
{
    let ghost s = cs@.subrange(from as int, to as int);
    let mut start = from;
    if from < to && cs[from] == '+' {
        start = from + 1;
        assert(s.drop_first() =~= cs@.subrange(start as int, to as int));
    } else {
        assert(s =~= cs@.subrange(start as int, to as int));
    }
    let ghost d = cs@.subrange(start as int, to as int);
    assert(unsigned_digits(s) == d);
    if start == to {
        return None;
    }
    let mut acc: u32 = 0;
    let mut k: usize = start;
    assert(d.subrange(0, 0) =~= Seq::<char>::empty());
    while k < to
        invariant
            from <= start <= k <= to <= cs@.len(),
            d == cs@.subrange(start as int, to as int),
            unsigned_digits(cs@.subrange(from as int, to as int)) == d,
            forall|i: int| 0 <= i < k - start ==> #[trigger] is_ascii_digit(d[i]),
            acc as nat == if digits_value(d.subrange(0, k - start)) < 65536 {
                digits_value(d.subrange(0, k - start))
            } else {
                65536
            },
        decreases to - k,
    {
        let c = cs[k];
        if !('0' <= c && c <= '9') {
            assert(!is_ascii_digit(d[k - start]));
            return None;
        }
        let v: u32 = (c as u32) - 48;
        assert(d.subrange(0, k + 1 - start).drop_last() =~= d.subrange(0, k - start));
        if acc >= 65536 {
            acc = 65536;
        } else {
            let next: u32 = acc * 10 + v;
            acc = if next > 65536 {
                65536
            } else {
                next
            };
        }
        k = k + 1;
    }
    assert(d.subrange(0, d.len() as int) =~= d);
    if acc <= 65535 {
        Some(acc as u16)
    } else {
        None
    }
}

proof fn lemma_decimal_digits(n: nat)
    ensures
        decimal(n).len() > 0,
        forall|i: int| 0 <= i < decimal(n).len() ==> #[trigger] is_ascii_digit(decimal(n)[i]),
        digits_value(decimal(n)) == n,
    decreases n,
{
    let k = n % 10;
    assert(((k + 48) as char) as u32 == k + 48);
    assert(digit_value(digit_char(k)) == k);
    if n >= 10 {
        lemma_decimal_digits(n / 10);
        let d = decimal(n);
        assert(d.drop_last() =~= decimal(n / 10));
        assert(d.last() == digit_char(k));
        assert(n == (n / 10) * 10 + k);
        assert(digits_value(d) == digits_value(d.drop_last()) * 10 + digit_value(d.last()));
        assert forall|i: int| 0 <= i < d.len() implies #[trigger] is_ascii_digit(d[i]) by {
            if i < d.len() - 1 {
                assert(d[i] == decimal(n / 10)[i]);
            }
        }
    } else {
        let d = decimal(n);
        assert(d.drop_last() =~= Seq::<char>::empty());
        assert(digits_value(d.drop_last()) == 0);
        assert(d.last() == digit_char(k));
        assert(digits_value(d) == digits_value(d.drop_last()) * 10 + digit_value(d.last()));
    }
}

proof fn lemma_take_until_digits(d: Seq<char>, rest: Seq<char>)
    requires
        forall|i: int| 0 <= i < d.len() ==> #[trigger] is_ascii_digit(d[i]),
    ensures
        take_until(d + seq!['-'] + rest, '-') == d,
    decreases d.len(),
{
    let s = d + seq!['-'] + rest;
    if d.len() == 0 {
        assert(s[0] == '-');
    } else {
        assert(is_ascii_digit(d[0]));
        assert(s[0] == d[0]);
        assert(s.drop_first() =~= d.drop_first() + seq!['-'] + rest);
        assert forall|i: int| 0 <= i < d.drop_first().len() implies #[trigger] is_ascii_digit(
            d.drop_first()[i],
        ) by {
            assert(d.drop_first()[i] == d[i + 1]);
        }
        lemma_take_until_digits(d.drop_first(), rest);
        assert(seq![d[0]] + d.drop_first() =~= d);
    }
}

/// Reading back a number written in decimal gives the number: every `u16`
/// spelled in decimal parses to itself, and so does the part of a date
/// before its first `-` when that part is a year written in decimal.
pub proof fn lemma_decimal_round_trip(n: u16, rest: Seq<char>)
    ensures
        parse_u16_seq(decimal(n as nat)) == Some(n),
        parse_u16_seq(take_until(decimal(n as nat) + seq!['-'] + rest, '-')) == Some(n),
{
    lemma_decimal_digits(n as nat);
    let d = decimal(n as nat);
    assert(is_ascii_digit(d[0]));
    assert(unsigned_digits(d) == d);
    lemma_take_until_digits(d, rest);
}

/// The part of `s` before the first `sep`; all of `s` when it holds none.
pub open spec fn take_until(s: Seq<char>, sep: char) -> Seq<char>
    decreases s.len(),
{
    if s.len() == 0 {
        s
    } else if s[0] == sep {
        Seq::empty()
    } else {
        seq![s[0]] + take_until(s.drop_first(), sep)
    }
}

/// The index of the first `sep` in `cs`, or its length when it holds none:
/// `cs[0..r]` is [`take_until`] of `cs`.
pub fn index_of_char(cs: &[char], sep: char) -> (r: usize)
    ensures
        r <= cs@.len(),
        cs@.subrange(0, r as int) == take_until(cs@, sep),
{
    let n = cs.len();
    let mut k: usize = 0;
    assert(cs@.subrange(0, n as int) =~= cs@);
    assert(cs@.subrange(0, 0) + take_until(cs@.subrange(0, n as int), sep) =~= take_until(
        cs@,
        sep,
    ));
    while k < n && cs[k] != sep
        invariant
            k <= n == cs@.len(),
            take_until(cs@, sep) == cs@.subrange(0, k as int) + take_until(
                cs@.subrange(k as int, n as int),
                sep,
            ),
        decreases n - k,
    {
        let ghost t = cs@.subrange(k as int, n as int);
        assert(t.drop_first() =~= cs@.subrange(k + 1, n as int));
        assert(cs@.subrange(0, k as int) + (seq![t[0]] + take_until(t.drop_first(), sep))
            =~= cs@.subrange(0, k + 1) + take_until(t.drop_first(), sep));
        k = k + 1;
    }
    assert(cs@.subrange(0, k as int) + Seq::<char>::empty() =~= cs@.subrange(0, k as int));
    k
}

} // verus!
