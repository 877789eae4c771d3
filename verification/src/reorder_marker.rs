//! The key a reorderable drag-start listener leaves on its child until the
//! reorderable sliver that owns the row picks it up: the listener's kind,
//! whether it is enabled and its item index, written after a fixed prefix.
use vstd::prelude::*;
use crate::text::{concat, decimal, digit_char, owned, usize_to_decimal};

verus! {

/// What a drag-start listener asks of its sliver.
#[derive(Clone, Copy, Debug, PartialEq, Eq, Structural)]
pub struct ReorderableListenerSpec {
    pub index: usize,
    pub enabled: bool,
    pub delayed: bool,
}

/// The marker prefix: a unit separator, then `incular-reorderable-listener:`.
pub open spec fn marker_prefix() -> Seq<char> {
    "\u{1f}incular-reorderable-listener:"@
}

/// The marker of `spec`: the prefix, `d` or `i`, `e` or `x`, and the index
/// in decimal, separated by colons.
pub open spec fn marker_text(spec: ReorderableListenerSpec) -> Seq<char> {
    marker_prefix() + seq![if spec.delayed { 'd' } else { 'i' }, ':', if spec.enabled { 'e' } else { 'x' }, ':']
        + decimal(spec.index as nat)
}

/// The value of an ASCII digit.
pub open spec fn digit_value(c: char) -> nat {
    (c as int - '0' as int) as nat
}

/// Whether `c` is an ASCII digit.
pub open spec fn is_digit(c: char) -> bool {
    '0' <= c && c <= '9'
}

/// The value of a string of digits.
pub open spec fn digits_value(s: Seq<char>) -> nat
    decreases s.len(),
{
    if s.len() == 0 { 0 } else { digits_value(s.drop_last()) * 10 + digit_value(s.last()) }
}

/// The digits of an unsigned decimal number: an optional `+`, then at
/// least one digit.
pub open spec fn number_digits(s: Seq<char>) -> Seq<char> {
    if s.len() > 0 && s[0] == '+' { s.skip(1) } else { s }
}

/// `s` read as an unsigned decimal number that fits in `usize`.
pub open spec fn parse_usize(s: Seq<char>) -> Option<usize> {
    let d = number_digits(s);
    if d.len() > 0 && (forall|i: int| 0 <= i < d.len() ==> is_digit(#[trigger] d[i])) && digits_value(d) <= usize::MAX {
        Some(digits_value(d) as usize)
    } else {
        None
    }
}

/// The listener a marker names, if it is a well-formed marker: the prefix,
/// a one-letter kind, a one-letter state and a number, with no further
/// colon-separated field.
pub open spec fn marker_parse(s: Seq<char>) -> Option<ReorderableListenerSpec> {
    let n = marker_prefix().len();
    if s.len() >= n + 4 && s.take(n as int) == marker_prefix() {
        let rest = s.skip(n as int);
        let last = rest.skip(4);
        if (rest[0] == 'd' || rest[0] == 'i') && rest[1] == ':' && (rest[2] == 'e' || rest[2] == 'x') && rest[3] == ':'
            && !last.contains(':') && parse_usize(last) is Some {
            Some(ReorderableListenerSpec { index: parse_usize(last)->0, enabled: rest[2] == 'e', delayed: rest[0] == 'd' })
        } else {
            None
        }
    } else {
        None
    }
}

/// The marker of `spec`.
pub fn marker_key(spec: ReorderableListenerSpec) -> (r: String)
    ensures
        r@ == marker_text(spec),
{
    let prefix = "\u{1f}incular-reorderable-listener:";
    let kind = if spec.delayed { "d:" } else { "i:" };
    let state = if spec.enabled { "e:" } else { "x:" };
    let a = concat(prefix, kind);
    let b = concat(a.as_str(), state);
    let r = concat(b.as_str(), usize_to_decimal(spec.index).as_str());
    proof {
        reveal_strlit("d:");
        reveal_strlit("i:");
        reveal_strlit("e:");
        reveal_strlit("x:");
        assert(r@ =~= marker_text(spec));
    }
    r
}

fn parse_number(s: &Vec<char>, from: usize) -> (r: Option<usize>)
    requires
        from <= s@.len(),
    ensures
        r == parse_usize(s@.skip(from as int)),
{
    let ghost t = s@.skip(from as int);
    let mut i = from;
    if i < s.len() && s[i] == '+' {
        i = i + 1;
    }
    let ghost d = number_digits(t);
    assert(d =~= s@.skip(i as int));
    if i == s.len() {
        return None;
    }
    let start = i;
    let mut value: usize = 0;
    while i < s.len()
        invariant
            from <= start <= i <= s@.len(),
            d == number_digits(s@.skip(from as int)),
            d =~= s@.skip(start as int),
            d.len() > 0,
            forall|j: int| start <= j < i ==> is_digit(#[trigger] s@[j]),
            value == digits_value(s@.subrange(start as int, i as int)),
        decreases s@.len() - i,
    {
        let c = s[i];
        if !('0' <= c && c <= '9') {
            proof {
                assert(d[i - start] == c);
                assert(!is_digit(d[i - start]));
            }
            return None;
        }
        let digit: usize = (c as u32 - '0' as u32) as usize;
        let ghost prefix = s@.subrange(start as int, i as int + 1);
        proof {
            assert(prefix.drop_last() =~= s@.subrange(start as int, i as int));
            assert(prefix.last() == c);
        }
        match value.checked_mul(10) {
            Some(v) => match v.checked_add(digit) {
                Some(w) => {
                    value = w;
                },
                None => {
                    proof {
                        assert(digit == digit_value(c));
                        assert(digits_value(prefix) == value * 10 + digit_value(c));
                        assert(d.take((i - start + 1) as int) =~= prefix);
                        if forall|k: int| 0 <= k < d.len() ==> is_digit(#[trigger] d[k]) {
                            lemma_digits_value_prefix_bound(d, (i - start + 1) as int);
                        }
                    }
                    return None;
                },
            },
            None => {
                proof {
                    assert(digits_value(prefix) == value * 10 + digit_value(c));
                    assert(d.take((i - start + 1) as int) =~= prefix);
                    if forall|k: int| 0 <= k < d.len() ==> is_digit(#[trigger] d[k]) {
                        lemma_digits_value_prefix_bound(d, (i - start + 1) as int);
                    }
                }
                return None;
            },
        }
        i += 1;
    }
    proof {
        assert(s@.subrange(start as int, i as int) =~= d);
    }
    Some(value)
}

proof fn lemma_digits_value_prefix_bound(d: Seq<char>, k: int)
    requires
        0 <= k <= d.len(),
        forall|i: int| 0 <= i < d.len() ==> is_digit(#[trigger] d[i]),
    ensures
        digits_value(d.take(k)) <= digits_value(d),
    decreases d.len() - k,
{
    if k < d.len() {
        lemma_digits_value_prefix_bound(d, k + 1);
        let p = d.take(k + 1);
        assert(p.drop_last() =~= d.take(k));
        assert(digits_value(p) == digits_value(d.take(k)) * 10 + digit_value(p.last()));
        assert(digits_value(d.take(k)) <= digits_value(p)) by (nonlinear_arith)
            requires
                digits_value(p) == digits_value(d.take(k)) * 10 + digit_value(p.last());
    } else {
        assert(d.take(k) =~= d);
    }
}

/// The listener named by a key, if the key is a well-formed marker.
pub fn marker_spec(key: &str) -> (r: Option<ReorderableListenerSpec>)
    ensures
        r == marker_parse(key@),
{
    let chars = chars_of(key);
    let prefix = chars_of("\u{1f}incular-reorderable-listener:");
    let n = prefix.len();
    proof {
        reveal_strlit("\u{1f}incular-reorderable-listener:");
        assert(prefix@ == marker_prefix());
        assert(n == 30);
    }
    if chars.len() < n + 4 {
        return None;
    }
    let mut i: usize = 0;
    while i < n
        invariant
            n == prefix@.len(),
            prefix@ == marker_prefix(),
            chars@ == key@,
            n + 4 <= chars@.len(),
            i <= n,
            forall|j: int| 0 <= j < i ==> chars@[j] == prefix@[j],
        decreases n - i,
    {
        if chars[i] != prefix[i] {
            proof {
                assert(chars@.take(n as int)[i as int] != prefix@[i as int]);
                assert(chars@.take(n as int) != marker_prefix());
            }
            return None;
        }
        i += 1;
    }
    assert(chars@.take(n as int) =~= marker_prefix());
    let ghost rest = chars@.skip(n as int);
    let k0 = chars[n];
    let c1 = chars[n + 1];
    let k2 = chars[n + 2];
    let c3 = chars[n + 3];
    assert(rest[0] == k0 && rest[1] == c1 && rest[2] == k2 && rest[3] == c3);
    if !((k0 == 'd' || k0 == 'i') && c1 == ':' && (k2 == 'e' || k2 == 'x') && c3 == ':') {
        return None;
    }
    let ghost last = rest.skip(4);
    assert(last =~= chars@.skip((n + 4) as int));
    let mut j = n + 4;
    while j < chars.len()
        invariant
            n + 4 <= j <= chars@.len(),
            n == marker_prefix().len(),
            chars@ == key@,
            chars@.take(n as int) == marker_prefix(),
            rest == chars@.skip(n as int),
            last == rest.skip(4),
            last =~= chars@.skip((n + 4) as int),
            forall|m: int| n + 4 <= m < j ==> chars@[m] != ':',
        decreases chars@.len() - j,
    {
        if chars[j] == ':' {
            proof {
                assert(last[j - (n + 4)] == ':');
                assert(last.contains(':'));
            }
            return None;
        }
        j += 1;
    }
    proof {
        assert forall|m: int| 0 <= m < last.len() implies last[m] != ':' by {
            assert(last[m] == chars@[m + n + 4]);
        }
    }
    match parse_number(&chars, n + 4) {
        Some(index) => Some(ReorderableListenerSpec { index, enabled: k2 == 'e', delayed: k0 == 'd' }),
        None => None,
    }
}

/// The characters of a string slice, in order.
/// `text` read as an unsigned decimal number (what `str::parse::<usize>`
/// accepts: an optional `+`, then at least one digit, within `usize`).
pub fn parse_usize_text(text: &str) -> (r: Option<usize>)
    ensures
        r == parse_usize(text@),
{
    let chars = chars_of(text);
    proof {
        assert(chars@.skip(0) =~= chars@);
    }
    parse_number(&chars, 0)
}

fn chars_of(s: &str) -> (r: Vec<char>)
    ensures
        r@ == s@,
{
    let n = s.unicode_len();
    let mut out: Vec<char> = Vec::new();
    let mut i: usize = 0;
    while i < n
        invariant
            n == s@.len(),
            i <= n,
            out@ == s@.take(i as int),
        decreases n - i,
    {
        out.push(s.get_char(i));
        assert(out@ =~= s@.take(i as int + 1));
        i += 1;
    }
    assert(s@.take(n as int) =~= s@);
    out
}

proof fn lemma_digit_char(d: nat)
    requires
        d < 10,
    ensures
        is_digit(digit_char(d)),
        digit_value(digit_char(d)) == d,
        digit_char(d) != ':' && digit_char(d) != '+',
{
}

/// The decimal rendering of `n` is a non-empty run of digits worth `n`.
pub proof fn lemma_decimal_digits(n: nat)
    ensures
        decimal(n).len() > 0,
        forall|i: int| 0 <= i < decimal(n).len() ==> is_digit(#[trigger] decimal(n)[i]),
        digits_value(decimal(n)) == n,
    decreases n,
{
    if n < 10 {
        lemma_digit_char(n);
        assert(decimal(n) == seq![digit_char(n)]);
        assert(decimal(n).drop_last() =~= Seq::<char>::empty());
        assert(digits_value(Seq::<char>::empty()) == 0);
        assert(digits_value(decimal(n)) == digits_value(decimal(n).drop_last()) * 10 + digit_value(digit_char(n)));
    } else {
        lemma_decimal_digits(n / 10);
        lemma_digit_char(n % 10);
        let d = decimal(n);
        assert(d == decimal(n / 10).push(digit_char(n % 10)));
        assert(d.drop_last() =~= decimal(n / 10));
        assert(forall|i: int| 0 <= i < d.len() ==> is_digit(#[trigger] d[i])) by {
            assert forall|i: int| 0 <= i < d.len() implies is_digit(#[trigger] d[i]) by {
                if i < d.len() - 1 {
                    assert(d[i] == decimal(n / 10)[i]);
                }
            }
        }
        assert(digits_value(d) == (n / 10) * 10 + n % 10);
        assert((n / 10) * 10 + n % 10 == n) by (nonlinear_arith);
    }
}

} // verus!
