//! Decimal numerals: the text of a natural number and the number of a text.

use crate::text::{all_digits, chars_of, is_digit, is_digit_char, string_of};
use vstd::prelude::*;
use vstd::std_specs::cmp::PartialEqSpecImpl;

verus! {

/// The digit character of a value below ten.
pub open spec fn digit_char(d: nat) -> char {
    (('0' as u32) + d) as char
}

/// The value of a digit character.
pub open spec fn digit_value(c: char) -> nat {
    ((c as u32) - ('0' as u32)) as nat
}

/// The decimal numeral of `n`, without leading zeros.
pub open spec fn decimal(n: nat) -> Seq<char>
    decreases n,
{
    if n < 10 {
        seq![digit_char(n)]
    } else {
        decimal(n / 10).push(digit_char(n % 10))
    }
}

/// The number that a sequence of digits denotes; leading zeros do not count.
pub open spec fn digits_value(s: Seq<char>) -> nat
    decreases s.len(),
{
    if s.len() == 0 {
        0
    } else {
        digits_value(s.drop_last()) * 10 + digit_value(s.last())
    }
}

/// A numeral: one digit or more, and nothing else.
pub open spec fn is_numeral(s: Seq<char>) -> bool {
    s.len() > 0 && all_digits(s)
}

/// A numeral as `decimal` writes it: without a leading zero, unless it is `0`.
pub open spec fn is_canonical_numeral(s: Seq<char>) -> bool {
    is_numeral(s) && (s.len() == 1 || s[0] != '0')
}

/// The number that `s` denotes, where `s` is a numeral whose value fits.
pub open spec fn numeral_value(s: Seq<char>) -> Option<usize> {
    if is_numeral(s) && digits_value(s) <= usize::MAX {
        Some(digits_value(s) as usize)
    } else {
        None
    }
}

/// `decimal` writes a canonical numeral.
pub proof fn lemma_decimal_is_canonical(n: nat)
    ensures
        is_canonical_numeral(decimal(n)),
        n > 0 ==> decimal(n)[0] != '0',
    decreases n,
{
    if n >= 10 {
        lemma_decimal_is_canonical(n / 10);
        let head = decimal(n / 10);
        let s = decimal(n);
        assert(s[0] == head[0]);
        assert forall|i: int| 0 <= i < s.len() implies is_digit(#[trigger] s[i]) by {
            if i < head.len() {
                assert(s[i] == head[i]);
            }
        }
    }
}

/// Reading what `decimal` wrote gives the number back.
pub proof fn lemma_value_of_decimal(n: nat)
    ensures
        digits_value(decimal(n)) == n,
    decreases n,
{
    if n < 10 {
        let s = decimal(n);
        assert(s.drop_last() =~= Seq::<char>::empty());
        assert(digits_value(s.drop_last()) == 0);
    } else {
        lemma_value_of_decimal(n / 10);
        let s = decimal(n);
        assert(s.drop_last() =~= decimal(n / 10));
    }
}

/// Writing the value of a canonical numeral gives the numeral back.
pub proof fn lemma_decimal_of_value(s: Seq<char>)
    requires
        is_canonical_numeral(s),
    ensures
        decimal(digits_value(s)) == s,
    decreases s.len(),
{
    let d = digit_value(s.last());
    assert(is_digit(s.last()));
    assert(digit_char(d) == s.last());
    if s.len() == 1 {
        assert(s.drop_last() =~= Seq::<char>::empty());
        assert(digits_value(s.drop_last()) == 0);
        assert(decimal(d) =~= s);
    } else {
        let head = s.drop_last();
        assert forall|i: int| 0 <= i < head.len() implies is_digit(#[trigger] head[i]) by {
            assert(head[i] == s[i]);
        }
        assert(head[0] == s[0]);
        lemma_decimal_of_value(head);
        lemma_value_of_nonzero_head(head);
        let v = digits_value(head);
        assert(digits_value(s) == v * 10 + d);
        assert((v * 10 + d) / 10 == v && (v * 10 + d) % 10 == d) by (nonlinear_arith)
            requires
                d < 10,
        ;
        assert(decimal(digits_value(s)) =~= s);
    }
}

/// A numeral that does not start with a zero denotes a positive number.
pub proof fn lemma_value_of_nonzero_head(s: Seq<char>)
    requires
        is_numeral(s),
        s[0] != '0',
    ensures
        digits_value(s) > 0,
    decreases s.len(),
{
    if s.len() == 1 {
        assert(is_digit(s[0]));
        assert(s.drop_last() =~= Seq::<char>::empty());
        assert(digits_value(s.drop_last()) == 0);
    } else {
        let head = s.drop_last();
        assert forall|i: int| 0 <= i < head.len() implies is_digit(#[trigger] head[i]) by {
            assert(head[i] == s[i]);
        }
        assert(head[0] == s[0]);
        lemma_value_of_nonzero_head(head);
    }
}

/// The value of a prefix never exceeds the value of the whole.
pub proof fn lemma_value_of_prefix(s: Seq<char>, k: int)
    requires
        0 <= k <= s.len(),
    ensures
        digits_value(s.take(k)) <= digits_value(s),
    decreases s.len() - k,
{
    if k < s.len() {
        lemma_value_of_prefix(s, k + 1);
        let longer = s.take(k + 1);
        assert(longer.drop_last() =~= s.take(k));
    } else {
        assert(s.take(k) =~= s);
    }
}

/// The numeral of the number that `s` denotes: `s` without its leading
/// zeros.
pub open spec fn canonical(s: Seq<char>) -> Seq<char> {
    decimal(digits_value(s))
}

/// Zeros at the start of a numeral do not count.
pub proof fn lemma_value_of_leading_zeros(s: Seq<char>, k: int)
    requires
        0 <= k <= s.len(),
        forall|j: int| 0 <= j < k ==> s[j] == '0',
    ensures
        digits_value(s.skip(k)) == digits_value(s),
    decreases s.len(),
{
    if s.len() == 0 {
        assert(s.skip(k) =~= s);
    } else if k == s.len() {
        let head = s.drop_last();
        assert forall|j: int| 0 <= j < k - 1 implies head[j] == '0' by {
            assert(head[j] == s[j]);
        }
        lemma_value_of_leading_zeros(head, k - 1);
        assert(head.skip(k - 1) =~= Seq::<char>::empty());
        assert(s.skip(k) =~= Seq::<char>::empty());
        assert(s.last() == s[k - 1]);
    } else {
        let head = s.drop_last();
        assert forall|j: int| 0 <= j < k implies head[j] == '0' by {
            assert(head[j] == s[j]);
        }
        lemma_value_of_leading_zeros(head, k);
        assert(s.skip(k).drop_last() =~= head.skip(k));
        assert(s.skip(k).last() == s.last());
    }
}

/// The canonical numeral of a numeral is canonical, denotes the same
/// number, and is the numeral itself where that is canonical.
pub proof fn lemma_canonical(s: Seq<char>)
    requires
        is_numeral(s),
    ensures
        is_canonical_numeral(canonical(s)),
        digits_value(canonical(s)) == digits_value(s),
        is_canonical_numeral(s) ==> canonical(s) == s,
{
    lemma_decimal_is_canonical(digits_value(s));
    lemma_value_of_decimal(digits_value(s));
    if is_canonical_numeral(s) {
        lemma_decimal_of_value(s);
    }
}

/// A natural number of any size, kept as its decimal numeral.
#[derive(Debug)]
pub struct Number {
    digits: String,
}

impl View for Number {
    type V = Seq<char>;

    /// The digits of the number.
    closed spec fn view(&self) -> Seq<char> {
        self.digits@
    }
}

impl Clone for Number {
    fn clone(&self) -> (r: Self)
        ensures
            r@ == self@,
    {
        Number { digits: self.digits.clone() }
    }
}

impl PartialEq for Number {
    fn eq(&self, other: &Self) -> (r: bool) {
        self.digits == other.digits
    }
}

impl PartialEqSpecImpl for Number {
    open spec fn obeys_eq_spec() -> bool {
        true
    }

    open spec fn eq_spec(&self, other: &Self) -> bool {
        self@ == other@
    }
}

impl Default for Number {
    /// The number zero.
    fn default() -> (r: Self)
        ensures
            r@ == decimal(0),
    {
        Number::new(0)
    }
}

impl Number {
    /// The number that the digits denote.
    pub open spec fn value(self) -> nat {
        digits_value(self@)
    }

    /// The number `n`.
    pub fn new(n: u64) -> (r: Number)
        ensures
            r@ == decimal(n as nat),
    {
        Number { digits: decimal_string(n) }
    }

    /// The number that the numeral `v` denotes, of whatever size; `None`
    /// where `v` is empty or holds a character that is no ASCII digit.
    pub fn from_digits(v: &[char]) -> (r: Option<Number>)
        ensures
            r is Some <==> is_numeral(v@),
            r matches Some(n) ==> n@ == canonical(v@),
    {
        if v.len() == 0 {
            return None;
        }
        let mut i: usize = 0;
        while i < v.len()
            invariant
                i <= v.len(),
                forall|j: int| 0 <= j < i ==> is_digit(#[trigger] v@[j]),
            decreases v.len() - i,
        {
            if !is_digit_char(v[i]) {
                return None;
            }
            i += 1;
        }
        // The zeros at the start are left out, but for the last digit.
        let mut k: usize = 0;
        while k + 1 < v.len() && v[k] == '0'
            invariant
                k < v.len(),
                forall|j: int| 0 <= j < k ==> v@[j] == '0',
            decreases v.len() - k,
        {
            k += 1;
        }
        let kept = vstd::slice::slice_subrange(v, k, v.len());
        proof {
            let t = v@.skip(k as int);
            assert(kept@ =~= t);
            assert forall|j: int| 0 <= j < t.len() implies is_digit(#[trigger] t[j]) by {
                assert(t[j] == v@[j + k]);
            }
            assert(t[0] == v@[k as int]);
            lemma_value_of_leading_zeros(v@, k as int);
            lemma_decimal_of_value(t);
        }
        Some(Number { digits: string_of(kept) })
    }

    /// The number that the numeral `s` denotes, of whatever size; `None`
    /// where `s` is empty or holds a character that is no ASCII digit.
    pub fn parse(s: &str) -> (r: Option<Number>)
        ensures
            r is Some <==> is_numeral(s@),
            r matches Some(n) ==> n@ == canonical(s@),
    {
        let chars = chars_of(s);
        Number::from_digits(chars.as_slice())
    }

    /// The decimal numeral of the number.
    pub fn as_str(&self) -> (s: &str)
        ensures
            s@ == self@,
    {
        self.digits.as_str()
    }

    /// The number as a machine integer, where it fits.
    pub fn to_usize(&self) -> (r: Option<usize>)
        ensures
            r == numeral_value(self@),
    {
        let chars = chars_of(self.digits.as_str());
        parse_numeral(chars.as_slice())
    }
}

/// The number that the numeral `v` denotes: `None` where `v` is empty, holds
/// a character that is no ASCII digit, or denotes a number that does not fit.
pub fn parse_numeral(v: &[char]) -> (r: Option<usize>)
    ensures
        r == numeral_value(v@),
{
    if v.len() == 0 {
        return None;
    }
    let mut acc: usize = 0;
    let mut i: usize = 0;
    while i < v.len()
        invariant
            i <= v.len(),
            all_digits(v@.take(i as int)),
            acc == digits_value(v@.take(i as int)),
        decreases v.len() - i,
    {
        let c = v[i];
        if !is_digit_char(c) {
            return None;
        }
        let d: usize = ((c as u32) - 48) as usize;
        proof {
            let longer = v@.take(i + 1);
            assert(longer.drop_last() =~= v@.take(i as int));
            assert(longer.last() == c);
            assert(digits_value(longer) == acc * 10 + d);
            assert forall|j: int| 0 <= j < longer.len() implies is_digit(#[trigger] longer[j]) by {
                if j < i {
                    assert(longer[j] == v@.take(i as int)[j]);
                }
            }
            lemma_value_of_prefix(v@, i + 1);
        }
        let next = match acc.checked_mul(10) {
            Some(m) => m.checked_add(d),
            None => None,
        };
        match next {
            Some(n) => {
                acc = n;
            },
            None => {
                assert(digits_value(v@) > usize::MAX);
                return None;
            },
        }
        i += 1;
    }
    assert(v@.take(i as int) =~= v@);
    Some(acc)
}

/// Appends the decimal numeral of `n`.
pub fn push_decimal(out: &mut String, n: u64)
    ensures
        final(out)@ == old(out)@ + decimal(n as nat),
{
    // The digits of `n`, least significant first.
    let mut low_first: Vec<char> = Vec::new();
    let mut m: u64 = n;
    while m >= 10
        invariant
            decimal(n as nat) == decimal(m as nat) + low_first@.reverse(),
        decreases m,
    {
        let d = digit_of(m % 10);
        proof {
            let before = low_first@;
            let after = before.push(d);
            assert(after.reverse() =~= seq![d] + before.reverse());
            assert(decimal(m as nat) == decimal((m / 10) as nat).push(d));
            assert(decimal((m / 10) as nat).push(d) + before.reverse() =~= decimal(
                (m / 10) as nat,
            ) + after.reverse());
        }
        low_first.push(d);
        m = m / 10;
    }
    let d = digit_of(m);
    proof {
        let before = low_first@;
        let after = before.push(d);
        assert(after.reverse() =~= seq![d] + before.reverse());
        assert(decimal(m as nat) =~= seq![d]);
    }
    low_first.push(d);
    assert(decimal(n as nat) == low_first@.reverse());
    let mut i: usize = low_first.len();
    while i > 0
        invariant
            i <= low_first.len(),
            out@ == old(out)@ + low_first@.reverse().take(low_first.len() - i),
        decreases i,
    {
        i -= 1;
        proof {
            let r = low_first@.reverse();
            let k = low_first.len() - i - 1;
            assert(r[k] == low_first@[i as int]);
            assert(r.take(k + 1) =~= r.take(k).push(r[k]));
        }
        out.push(low_first[i]);
    }
    assert(low_first@.reverse().take(low_first.len() as int) =~= low_first@.reverse());
}

/// The decimal numeral of `n`.
pub fn decimal_string(n: u64) -> (s: String)
    ensures
        s@ == decimal(n as nat),
{
    let mut s = String::new();
    push_decimal(&mut s, n);
    assert(Seq::<char>::empty() + decimal(n as nat) =~= decimal(n as nat));
    s
}

fn digit_of(d: u64) -> (c: char)
    requires
        d < 10,
    ensures
        c == digit_char(d as nat),
{
    let code: u8 = (d + 48) as u8;
    code as char
}

} // verus!
