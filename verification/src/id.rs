//! The grammar of image identifiers.
//!
//! An identifier reads `OHR.<name>_<market><number>_<size>.<extension>`:
//! `<name>` and `<extension>` are word characters, `<market>` is `ROW` or
//! two pairs of word characters around a hyphen, `<number>` is a numeral and
//! `<size>` is `UHD` or two numerals around an `x`.
//! A numeral is one ASCII digit or more; the number that it denotes may be
//! of any size.

use crate::bing::market::Market;
use crate::decimal::{
    canonical, decimal, is_canonical_numeral, is_numeral, lemma_canonical, Number,
};
use crate::text::{
    ascii_lower, ascii_upper, chars_of, find_first, find_last, first_index_of, is_ascii,
    is_ascii_letter, is_ascii_letter_char, is_digit, is_digit_char, last_index_of,
    lemma_first_index_is, lemma_first_index_none, lemma_first_index_of, lemma_last_index_is,
    lemma_last_index_of, push_chars, string_of, to_ascii_upper,
};
use regex::Regex;
use vstd::prelude::*;
use vstd::std_specs::cmp::PartialEqSpecImpl;

verus! {

/// Whether the class `\w` of the `regex` crate holds `c`.
pub uninterp spec fn regex_word(c: char) -> bool;

/// Compiles the pattern `^\w$` with `Regex::new` of the `regex` crate and
/// asks `Regex::is_match` whether the text made of `c` alone matches it, that
/// is, whether the crate's Unicode-aware class of word characters holds `c`.
#[verifier::external_body]
fn in_regex_word_class(c: char) -> (b: bool)
    ensures
        b == regex_word(c),
{
    let mut buf: [u8; 4] = [0; 4];
    Regex::new(r"^\w$").unwrap().is_match(c.encode_utf8(&mut buf))
}

/// A word character: below U+0080 a letter, a digit or the underscore, and
/// from there on what the `regex` crate takes for one.
pub open spec fn is_word(c: char) -> bool {
    if is_ascii(c) {
        is_ascii_letter(c) || is_digit(c) || c == '_'
    } else {
        regex_word(c)
    }
}

/// One word character or more, and nothing else.
pub open spec fn is_word_text(s: Seq<char>) -> bool {
    s.len() > 0 && forall|i: int| 0 <= i < s.len() ==> is_word(#[trigger] s[i])
}

/// The text that every identifier starts with.
pub open spec fn prefix() -> Seq<char> {
    seq!['O', 'H', 'R', '.']
}

/// The market token of an identifier that belongs to no market.
pub open spec fn row() -> Seq<char> {
    seq!['R', 'O', 'W']
}

/// The size token of an identifier at native resolution.
pub open spec fn uhd_token() -> Seq<char> {
    seq!['U', 'H', 'D']
}

/// A market token: `ROW`, or two pairs of word characters around a hyphen.
pub open spec fn is_market_token(t: Seq<char>) -> bool {
    t == row() || (t.len() == 5 && is_word(t[0]) && is_word(t[1]) && t[2] == '-' && is_word(t[3])
        && is_word(t[4]))
}

/// The two numerals of a size token, around its first `x`.
pub open spec fn split_size(size: Seq<char>) -> Option<(Seq<char>, Seq<char>)> {
    match first_index_of(size, 'x') {
        Some(i) => Some((size.take(i), size.skip(i + 1))),
        None => None,
    }
}

/// A size token: `UHD`, or two numerals around an `x`.
pub open spec fn is_size_token(size: Seq<char>) -> bool {
    size == uhd_token() || match split_size(size) {
        Some((w, h)) => is_numeral(w) && is_numeral(h),
        None => false,
    }
}

/// The number of ASCII digits at the end of `s`.
pub open spec fn trailing_digits(s: Seq<char>) -> nat
    decreases s.len(),
{
    if s.len() > 0 && is_digit(s.last()) {
        1 + trailing_digits(s.drop_last())
    } else {
        0
    }
}

/// The five texts that an identifier is made of.
pub struct Parts {
    pub name: Seq<char>,
    pub market: Seq<char>,
    pub number: Seq<char>,
    pub size: Seq<char>,
    pub extension: Seq<char>,
}

impl Parts {
    /// Each text is of the kind that the grammar asks for at its place.
    pub open spec fn well_shaped(self) -> bool {
        &&& is_word_text(self.name)
        &&& is_market_token(self.market)
        &&& is_numeral(self.number)
        &&& is_size_token(self.size)
        &&& is_word_text(self.extension)
    }

    /// The identifier made of these texts.
    pub open spec fn join(self) -> Seq<char> {
        prefix() + self.name + seq!['_'] + self.market + self.number + seq!['_'] + self.size
            + seq!['.'] + self.extension
    }

    /// What the texts denote. A numeral denotes its number, of whatever
    /// size: leading zeros do not count.
    pub open spec fn read(self) -> IdView {
        let (uhd, width, height) = read_size(self.size);
        IdView {
            name: self.name,
            market: Market::spec_parse(self.market),
            number: canonical(self.number),
            uhd,
            width,
            height,
            extension: self.extension,
        }
    }
}

/// What a size token denotes: the native-resolution flag, the width and the
/// height.
pub open spec fn read_size(size: Seq<char>) -> (bool, Option<Seq<char>>, Option<Seq<char>>) {
    if size == uhd_token() {
        (true, None, None)
    } else {
        match split_size(size) {
            Some((w, h)) => (false, Some(canonical(w)), Some(canonical(h))),
            None => (false, None, None),
        }
    }
}

/// Name, market token and numeral of the text that stands before the size.
/// A hyphen fixes the place of the market token; without one the token is
/// `ROW`, in front of the digits at the end.
pub open spec fn split_head(head: Seq<char>) -> Option<(Seq<char>, Seq<char>, Seq<char>)> {
    match first_index_of(head, '-') {
        Some(p) => if 3 <= p && p + 3 <= head.len() && head[p - 3] == '_' {
            Some((head.take(p - 3), head.subrange(p - 2, p + 3), head.skip(p + 3)))
        } else {
            None
        },
        None => {
            let k = head.len() - trailing_digits(head);
            if 4 <= k && head.subrange(k - 4, k) == seq!['_'] + row() {
                Some((head.take(k - 4), row(), head.skip(k)))
            } else {
                None
            }
        },
    }
}

/// The texts of an identifier, by the places of its separators alone: the
/// extension follows the last dot, the size the last underscore before it.
pub open spec fn split(s: Seq<char>) -> Option<Parts> {
    if s.len() < 4 || s.take(4) != prefix() {
        None
    } else {
        let body = s.skip(4);
        match last_index_of(body, '.') {
            None => None,
            Some(dot) => {
                let stem = body.take(dot);
                match last_index_of(stem, '_') {
                    None => None,
                    Some(bar) => match split_head(stem.take(bar)) {
                        None => None,
                        Some((name, market, number)) => Some(
                            Parts {
                                name,
                                market,
                                number,
                                size: stem.skip(bar + 1),
                                extension: body.skip(dot + 1),
                            },
                        ),
                    },
                }
            },
        }
    }
}

/// What an identifier denotes: `None` where the text is not of the grammar.
pub open spec fn spec_parse(s: Seq<char>) -> Option<IdView> {
    match split(s) {
        Some(parts) => if parts.well_shaped() {
            Some(parts.read())
        } else {
            None
        },
        None => None,
    }
}

/// The market token of a market: its code in upper case, or `ROW` for none.
pub open spec fn market_token(market: Option<Market>) -> Seq<char> {
    match market {
        Some(m) => m.spec_code().map_values(|c: char| ascii_upper(c)),
        None => row(),
    }
}

/// The size token of a size: `UHD`, or the numerals of width and height
/// around an `x`.
pub open spec fn size_token(
    uhd: bool,
    width: Option<Seq<char>>,
    height: Option<Seq<char>>,
) -> Seq<char> {
    if uhd {
        uhd_token()
    } else {
        width.unwrap() + seq!['x'] + height.unwrap()
    }
}

/// The digits of an optional number.
pub open spec fn digits_of(n: Option<Number>) -> Option<Seq<char>> {
    match n {
        Some(n) => Some(n@),
        None => None,
    }
}

/// The mathematical value of an `ID`. The numbers are their decimal
/// numerals.
pub struct IdView {
    pub name: Seq<char>,
    pub market: Option<Market>,
    pub number: Seq<char>,
    pub uhd: bool,
    pub width: Option<Seq<char>>,
    pub height: Option<Seq<char>>,
    pub extension: Seq<char>,
}

impl IdView {
    /// The identifier says what size it has: it is at native resolution or
    /// has both a width and a height.
    pub open spec fn has_size(self) -> bool {
        self.uhd || (self.width is Some && self.height is Some)
    }

    /// The value is one that `parse` gives: name and extension are word
    /// characters, the numbers are numerals without leading zeros, and
    /// width and height are there exactly where the image is not at native
    /// resolution.
    pub open spec fn well_formed(self) -> bool {
        &&& is_word_text(self.name)
        &&& is_word_text(self.extension)
        &&& is_canonical_numeral(self.number)
        &&& self.uhd ==> self.width is None && self.height is None
        &&& !self.uhd ==> {
            &&& self.width matches Some(w) && is_canonical_numeral(w)
            &&& self.height matches Some(h) && is_canonical_numeral(h)
        }
    }

    /// The texts that write the value down.
    pub open spec fn write(self) -> Parts {
        Parts {
            name: self.name,
            market: market_token(self.market),
            number: self.number,
            size: size_token(self.uhd, self.width, self.height),
            extension: self.extension,
        }
    }

    /// The identifier that writes the value down.
    pub open spec fn spec_format(self) -> Seq<char> {
        self.write().join()
    }
}

/// The structure of an image identifier.
#[derive(Debug)]
pub struct ID {
    pub name: String,
    pub market: Option<Market>,
    pub number: Number,
    pub uhd: bool,
    pub width: Option<Number>,
    pub height: Option<Number>,
    pub extension: String,
}

impl View for ID {
    type V = IdView;

    open spec fn view(&self) -> IdView {
        IdView {
            name: self.name@,
            market: self.market,
            number: self.number@,
            uhd: self.uhd,
            width: digits_of(self.width),
            height: digits_of(self.height),
            extension: self.extension@,
        }
    }
}

/// A copy of an optional number.
fn clone_number(n: &Option<Number>) -> (r: Option<Number>)
    ensures
        digits_of(r) == digits_of(*n),
{
    match n {
        Some(n) => Some(n.clone()),
        None => None,
    }
}

/// Whether two optional numbers are the same.
fn same_number(a: &Option<Number>, b: &Option<Number>) -> (r: bool)
    ensures
        r == (digits_of(*a) == digits_of(*b)),
{
    match (a, b) {
        (Some(a), Some(b)) => a == b,
        (None, None) => true,
        _ => false,
    }
}

impl Clone for ID {
    fn clone(&self) -> (r: Self)
        ensures
            r@ == self@,
    {
        ID {
            name: self.name.clone(),
            market: self.market,
            number: self.number.clone(),
            uhd: self.uhd,
            width: clone_number(&self.width),
            height: clone_number(&self.height),
            extension: self.extension.clone(),
        }
    }
}

impl PartialEq for ID {
    fn eq(&self, other: &Self) -> (r: bool) {
        self.name == other.name && self.market == other.market && self.number == other.number
            && self.uhd == other.uhd && same_number(&self.width, &other.width) && same_number(
            &self.height,
            &other.height,
        ) && self.extension == other.extension
    }
}

impl PartialEqSpecImpl for ID {
    open spec fn obeys_eq_spec() -> bool {
        true
    }

    open spec fn eq_spec(&self, other: &Self) -> bool {
        self@ == other@
    }
}

impl Default for ID {
    fn default() -> (r: Self)
        ensures
            r@ == (IdView {
                name: Seq::<char>::empty(),
                market: None,
                number: decimal(0),
                uhd: false,
                width: None,
                height: None,
                extension: Seq::<char>::empty(),
            }),
    {
        ID {
            name: String::new(),
            market: None,
            number: Number::default(),
            uhd: false,
            width: None,
            height: None,
            extension: String::new(),
        }
    }
}

/// The view of an optional identifier.
pub open spec fn view_of(id: Option<ID>) -> Option<IdView> {
    match id {
        Some(id) => Some(id@),
        None => None,
    }
}

/// Whether `c` is a word character.
pub fn is_word_char(c: char) -> (b: bool)
    ensures
        b == is_word(c),
{
    if c <= '\x7f' {
        is_ascii_letter_char(c) || is_digit_char(c) || c == '_'
    } else {
        in_regex_word_class(c)
    }
}

/// Whether `v` is one word character or more, and nothing else.
fn is_word_slice(v: &[char]) -> (b: bool)
    ensures
        b == is_word_text(v@),
{
    if v.len() == 0 {
        return false;
    }
    let mut i: usize = 0;
    while i < v.len()
        invariant
            i <= v.len(),
            forall|j: int| 0 <= j < i ==> is_word(#[trigger] v@[j]),
        decreases v.len() - i,
    {
        if !is_word_char(v[i]) {
            return false;
        }
        i += 1;
    }
    true
}

/// Whether `v` is a market token.
fn is_market_slice(v: &[char]) -> (b: bool)
    ensures
        b == is_market_token(v@),
{
    if v.len() == 3 {
        let b = v[0] == 'R' && v[1] == 'O' && v[2] == 'W';
        assert(b == (v@ =~= row()));
        b
    } else if v.len() == 5 {
        is_word_char(v[0]) && is_word_char(v[1]) && v[2] == '-' && is_word_char(v[3])
            && is_word_char(v[4])
    } else {
        false
    }
}

/// Whether `v` is the size token of the native resolution.
fn is_uhd_slice(v: &[char]) -> (b: bool)
    ensures
        b == (v@ == uhd_token()),
{
    if v.len() == 3 {
        let b = v[0] == 'U' && v[1] == 'H' && v[2] == 'D';
        assert(b == (v@ =~= uhd_token()));
        b
    } else {
        false
    }
}

/// A run of digits at the end, preceded by another character or by the
/// start, is all the trailing digits.
proof fn lemma_trailing_digits_is(s: Seq<char>, n: nat)
    requires
        n <= s.len(),
        forall|j: int| s.len() - n <= j < s.len() ==> is_digit(#[trigger] s[j]),
        n < s.len() ==> !is_digit(s[s.len() - n - 1]),
    ensures
        trailing_digits(s) == n,
    decreases s.len(),
{
    if n > 0 {
        let rest = s.drop_last();
        assert(is_digit(s[s.len() - 1]));
        assert forall|j: int| rest.len() - (n - 1) <= j < rest.len() implies is_digit(
            #[trigger] rest[j],
        ) by {
            assert(rest[j] == s[j]);
        }
        lemma_trailing_digits_is(rest, (n - 1) as nat);
    }
}

/// The number of ASCII digits at the end of `v`.
fn count_trailing_digits(v: &[char]) -> (n: usize)
    ensures
        n == trailing_digits(v@),
        n <= v.len(),
{
    let mut k: usize = v.len();
    while k > 0 && is_digit_char(v[k - 1])
        invariant
            k <= v.len(),
            forall|j: int| k <= j < v.len() ==> is_digit(#[trigger] v@[j]),
        decreases k,
    {
        k -= 1;
    }
    proof {
        lemma_trailing_digits_is(v@, (v.len() - k) as nat);
    }
    v.len() - k
}

/// The bounds of name, market token and numeral in `head`.
fn split_head_bounds(head: &[char]) -> (r: Option<(usize, usize)>)
    ensures
        match r {
            Some((name_end, market_end)) => {
                &&& name_end < market_end <= head.len()
                &&& split_head(head@) == Some(
                    (
                        head@.take(name_end as int),
                        head@.subrange(name_end + 1, market_end as int),
                        head@.skip(market_end as int),
                    ),
                )
            },
            None => split_head(head@) is None,
        },
{
    match find_first(head, '-') {
        Some(p) => {
            if 3 <= p && head.len() >= 3 && p <= head.len() - 3 && head[p - 3] == '_' {
                Some((p - 3, p + 3))
            } else {
                None
            }
        },
        None => {
            let k = head.len() - count_trailing_digits(head);
            if 4 <= k && head[k - 4] == '_' && head[k - 3] == 'R' && head[k - 2] == 'O'
                && head[k - 1] == 'W' {
                assert(head@.subrange(k - 4, k as int) =~= seq!['_'] + row());
                assert(head@.subrange(k - 3, k as int) =~= row());
                Some((k - 4, k))
            } else {
                proof {
                    if 4 <= k {
                        let t = head@.subrange(k - 4, k as int);
                        let u = seq!['_'] + row();
                        if t == u {
                            assert(t[0] == u[0] && t[1] == u[1] && t[2] == u[2] && t[3] == u[3]);
                        }
                    }
                }
                None
            }
        },
    }
}

/// What a size token denotes; `None` where `size` is no size token.
fn read_size_slice(size: &[char]) -> (r: Option<(bool, Option<Number>, Option<Number>)>)
    ensures
        r is Some <==> is_size_token(size@),
        r matches Some((uhd, width, height)) ==> (uhd, digits_of(width), digits_of(height))
            == read_size(size@),
{
    if is_uhd_slice(size) {
        return Some((true, None, None));
    }
    match find_first(size, 'x') {
        Some(i) => {
            let w = vstd::slice::slice_subrange(size, 0, i);
            let h = vstd::slice::slice_subrange(size, i + 1, size.len());
            assert(w@ =~= size@.take(i as int));
            assert(h@ =~= size@.skip(i + 1));
            match (Number::from_digits(w), Number::from_digits(h)) {
                (Some(width), Some(height)) => Some((false, Some(width), Some(height))),
                _ => None,
            }
        },
        None => None,
    }
}

impl ID {
    /// Reads an identifier. `None` where the text is not of the grammar. The
    /// numerals may denote numbers of any size; a market token that names no
    /// market gives an identifier without a market.
    pub fn parse(id: &str) -> (r: Option<ID>)
        ensures
            view_of(r) == spec_parse(id@),
            r matches Some(id) ==> id@.well_formed(),
    {
        let chars = chars_of(id);
        let s = chars.as_slice();
        if s.len() < 4 || !(s[0] == 'O' && s[1] == 'H' && s[2] == 'R' && s[3] == '.') {
            proof {
                if s.len() >= 4 {
                    let t = s@.take(4);
                    if t == prefix() {
                        assert(t[0] == 'O' && t[1] == 'H' && t[2] == 'R' && t[3] == '.');
                    }
                }
            }
            return None;
        }
        assert(s@.take(4) =~= prefix());
        let body = vstd::slice::slice_subrange(s, 4, s.len());
        assert(body@ =~= s@.skip(4));
        let dot = match find_last(body, '.') {
            Some(dot) => dot,
            None => {
                return None;
            },
        };
        let stem = vstd::slice::slice_subrange(body, 0, dot);
        let extension = vstd::slice::slice_subrange(body, dot + 1, body.len());
        assert(stem@ =~= body@.take(dot as int));
        assert(extension@ =~= body@.skip(dot + 1));
        let bar = match find_last(stem, '_') {
            Some(bar) => bar,
            None => {
                return None;
            },
        };
        let head = vstd::slice::slice_subrange(stem, 0, bar);
        let size = vstd::slice::slice_subrange(stem, bar + 1, stem.len());
        assert(head@ =~= stem@.take(bar as int));
        assert(size@ =~= stem@.skip(bar + 1));
        let (name_end, market_end) = match split_head_bounds(head) {
            Some(bounds) => bounds,
            None => {
                return None;
            },
        };
        let name = vstd::slice::slice_subrange(head, 0, name_end);
        let market = vstd::slice::slice_subrange(head, name_end + 1, market_end);
        let number = vstd::slice::slice_subrange(head, market_end, head.len());
        assert(name@ =~= head@.take(name_end as int));
        assert(number@ =~= head@.skip(market_end as int));
        let ghost parts = Parts {
            name: name@,
            market: market@,
            number: number@,
            size: size@,
            extension: extension@,
        };
        assert(split(id@) == Some(parts));
        if !is_word_slice(name) || !is_market_slice(market) || !is_word_slice(extension) {
            return None;
        }
        let value = match Number::from_digits(number) {
            Some(value) => value,
            None => {
                return None;
            },
        };
        let (uhd, width, height) = match read_size_slice(size) {
            Some(size) => size,
            None => {
                return None;
            },
        };
        proof {
            lemma_read_is_well_formed(parts);
        }
        Some(
            ID {
                name: string_of(name),
                market: Market::parse_chars(market),
                number: value,
                uhd,
                width,
                height,
                extension: string_of(extension),
            },
        )
    }

    /// Writes the identifier down. It has to say what size it has: that the
    /// image is at native resolution, or its width and its height.
    pub fn to_string(&self) -> (s: String)
        requires
            self@.has_size(),
        ensures
            s@ == self@.spec_format(),
    {
        let mut out = String::new();
        out.push('O');
        out.push('H');
        out.push('R');
        out.push('.');
        assert(out@ =~= prefix());
        let name = chars_of(self.name.as_str());
        push_chars(&mut out, name.as_slice());
        out.push('_');
        match self.market {
            Some(m) => {
                let code = chars_of(m.code());
                let mut i: usize = 0;
                while i < code.len()
                    invariant
                        i <= code.len(),
                        code@ == m.spec_code(),
                        out@ == prefix() + self.name@ + seq!['_'] + market_token(Some(m)).take(
                            i as int,
                        ),
                    decreases code.len() - i,
                {
                    out.push(to_ascii_upper(code[i]));
                    assert(market_token(Some(m)).take(i + 1) =~= market_token(Some(m)).take(
                        i as int,
                    ).push(ascii_upper(code@[i as int])));
                    i += 1;
                }
                assert(market_token(Some(m)).take(i as int) =~= market_token(Some(m)));
            },
            None => {
                out.push('R');
                out.push('O');
                out.push('W');
                assert(out@ =~= prefix() + self.name@ + seq!['_'] + row());
            },
        }
        out.append(self.number.as_str());
        out.push('_');
        if self.uhd {
            out.push('U');
            out.push('H');
            out.push('D');
            assert(out@ =~= prefix() + self.name@ + seq!['_'] + market_token(self.market)
                + self.number@ + seq!['_'] + uhd_token());
        } else {
            match (&self.width, &self.height) {
                (Some(width), Some(height)) => {
                    out.append(width.as_str());
                    out.push('x');
                    out.append(height.as_str());
                    assert(out@ =~= prefix() + self.name@ + seq!['_'] + market_token(self.market)
                        + self.number@ + seq!['_'] + size_token(
                        false,
                        Some(width@),
                        Some(height@),
                    ));
                },
                _ => {},
            }
        }
        out.push('.');
        let extension = chars_of(self.extension.as_str());
        push_chars(&mut out, extension.as_slice());
        out
    }

    /// Writes the identifier down. `None` where it says neither that the
    /// image is at native resolution nor what width and height it has.
    pub fn format(&self) -> (r: Option<String>)
        ensures
            r is Some <==> self@.has_size(),
            r matches Some(s) ==> s@ == self@.spec_format(),
    {
        if self.uhd || (self.width.is_some() && self.height.is_some()) {
            Some(self.to_string())
        } else {
            None
        }
    }
}

impl Parts {
    /// The texts are written as `format` writes them: the market token is
    /// `ROW` or the upper-case code of a market, and no numeral has a
    /// leading zero.
    pub open spec fn canonical(self) -> bool {
        &&& self.market == row() || exists|m: Market| self.market == market_token(Some(m))
        &&& is_canonical_numeral(self.number)
        &&& self.size == uhd_token() || match split_size(self.size) {
            Some((w, h)) => is_canonical_numeral(w) && is_canonical_numeral(h),
            None => false,
        }
    }
}

/// A size token holds digits, `x`, `U`, `H` and `D` only.
pub proof fn lemma_size_token_chars(size: Seq<char>)
    requires
        is_size_token(size),
    ensures
        forall|j: int| 0 <= j < size.len() ==> #[trigger] size[j] != '_',
{
    if size != uhd_token() {
        lemma_first_index_of(size, 'x');
        let i = first_index_of(size, 'x').unwrap();
        let w = size.take(i);
        let h = size.skip(i + 1);
        assert forall|j: int| 0 <= j < size.len() implies #[trigger] size[j] != '_' by {
            if j < i {
                assert(is_digit(w[j]));
            } else if j > i {
                assert(is_digit(h[j - i - 1]));
            }
        }
    }
}

/// The text before the size splits into the texts it was made of.
pub proof fn lemma_head_splits(name: Seq<char>, market: Seq<char>, number: Seq<char>)
    requires
        is_word_text(name),
        is_market_token(market),
        is_numeral(number),
    ensures
        split_head(name + seq!['_'] + market + number) == Some((name, market, number)),
{
    let head = name + seq!['_'] + market + number;
    let n = name.len() as int;
    if market == row() {
        assert forall|j: int| 0 <= j < head.len() implies head[j] != '-' by {
            if j < n {
                assert(is_word(name[j]));
            } else if j >= n + 4 {
                assert(is_digit(number[j - n - 4]));
            }
        }
        lemma_first_index_none(head, '-');
        assert forall|j: int| head.len() - number.len() <= j < head.len() implies is_digit(
            #[trigger] head[j],
        ) by {
            assert(is_digit(number[j - n - 4]));
        }
        assert(head[n + 3] == 'W');
        lemma_trailing_digits_is(head, number.len());
        let k = n + 4;
        assert(head.subrange(k - 4, k) =~= seq!['_'] + row());
        assert(head.take(k - 4) =~= name);
        assert(head.skip(k) =~= number);
    } else {
        let p = n + 3;
        assert(head[p] == market[2]);
        assert forall|j: int| 0 <= j < p implies head[j] != '-' by {
            if j < n {
                assert(is_word(name[j]));
            } else if j == n + 1 {
                assert(head[j] == market[0]);
            } else if j == n + 2 {
                assert(head[j] == market[1]);
            }
        }
        lemma_first_index_is(head, '-', p);
        assert(head[p - 3] == '_');
        assert(head.take(p - 3) =~= name);
        assert(head.subrange(p - 2, p + 3) =~= market);
        assert(head.skip(p + 3) =~= number);
    }
}

/// The grammar is unambiguous: an identifier made of well-shaped texts
/// splits into those texts, and no others.
pub proof fn lemma_join_splits(p: Parts)
    requires
        p.well_shaped(),
    ensures
        split(p.join()) == Some(p),
{
    let s = p.join();
    let head = p.name + seq!['_'] + p.market + p.number;
    let stem = head + seq!['_'] + p.size;
    let body = stem + seq!['.'] + p.extension;
    assert(s =~= prefix() + body);
    assert(s.take(4) =~= prefix());
    assert(s.skip(4) =~= body);
    let dot = stem.len() as int;
    assert(body[dot] == '.');
    assert forall|j: int| dot < j < body.len() implies body[j] != '.' by {
        assert(is_word(p.extension[j - dot - 1]));
    }
    lemma_last_index_is(body, '.', dot);
    assert(body.take(dot) =~= stem);
    assert(body.skip(dot + 1) =~= p.extension);
    let bar = head.len() as int;
    assert(stem[bar] == '_');
    lemma_size_token_chars(p.size);
    assert forall|j: int| bar < j < stem.len() implies stem[j] != '_' by {
        assert(stem[j] == p.size[j - bar - 1]);
    }
    lemma_last_index_is(stem, '_', bar);
    assert(stem.take(bar) =~= head);
    assert(stem.skip(bar + 1) =~= p.size);
    lemma_head_splits(p.name, p.market, p.number);
}

/// The texts that `split_head` gives make up the head again.
pub proof fn lemma_split_head_joins(head: Seq<char>)
    requires
        split_head(head) is Some,
    ensures
        ({
            let (name, market, number) = split_head(head).unwrap();
            name + seq!['_'] + market + number == head
        }),
{
    let (name, market, number) = split_head(head).unwrap();
    match first_index_of(head, '-') {
        Some(p) => {
            lemma_first_index_of(head, '-');
            assert(name + seq!['_'] + market + number =~= head);
        },
        None => {
            let k = head.len() - trailing_digits(head);
            let t = head.subrange(k - 4, k);
            let u = seq!['_'] + row();
            assert(t[0] == u[0] && t[1] == u[1] && t[2] == u[2] && t[3] == u[3]);
            assert(name + seq!['_'] + market + number =~= head);
        },
    }
}

/// The texts that a split gives make up the identifier again.
pub proof fn lemma_split_joins(s: Seq<char>)
    requires
        split(s) is Some,
    ensures
        split(s).unwrap().join() == s,
{
    let p = split(s).unwrap();
    let body = s.skip(4);
    lemma_last_index_in_range(body, '.');
    let dot = last_index_of(body, '.').unwrap();
    let stem = body.take(dot);
    lemma_last_index_in_range(stem, '_');
    let bar = last_index_of(stem, '_').unwrap();
    let head = stem.take(bar);
    lemma_split_head_joins(head);
    lemma_rejoin(stem, bar, '_');
    lemma_rejoin(body, dot, '.');
    lemma_rejoin_prefix(s);
    lemma_join_nests(p);
}

/// The last occurrence of a character is an occurrence of it.
proof fn lemma_last_index_in_range(s: Seq<char>, c: char)
    ensures
        last_index_of(s, c) matches Some(i) ==> 0 <= i < s.len() && s[i] == c,
{
    lemma_last_index_of(s, c);
}

/// A text is its first four characters and the rest.
proof fn lemma_rejoin_prefix(s: Seq<char>)
    requires
        s.len() >= 4,
    ensures
        s.take(4) + s.skip(4) == s,
{
    assert(s.take(4) + s.skip(4) =~= s);
}

/// `join`, with the texts grouped as `split` finds them.
proof fn lemma_join_nests(p: Parts)
    ensures
        p.join() == prefix() + ((p.name + seq!['_'] + p.market + p.number) + seq!['_'] + p.size
            + seq!['.'] + p.extension),
{
    assert(p.join() =~= prefix() + ((p.name + seq!['_'] + p.market + p.number) + seq!['_'] + p.size
        + seq!['.'] + p.extension));
}

/// A text is what stands before one of its characters, that character and
/// what stands after it.
proof fn lemma_rejoin(s: Seq<char>, i: int, c: char)
    requires
        0 <= i < s.len(),
        s[i] == c,
    ensures
        s.take(i) + seq![c] + s.skip(i + 1) == s,
{
    assert(s.take(i) + seq![c] + s.skip(i + 1) =~= s);
}

/// The market token of a market is read as that market, and `ROW` as none.
pub proof fn lemma_market_token_reads(market: Option<Market>)
    ensures
        is_market_token(market_token(market)),
        Market::spec_parse(market_token(market)) == market,
{
    match market {
        Some(m) => {
            let code = m.spec_code();
            let token = market_token(market);
            assert(token.len() == 5);
            assert(token[0] == ascii_upper(code[0]));
            assert(token[1] == ascii_upper(code[1]));
            assert(token[2] == ascii_upper(code[2]));
            assert(token[3] == ascii_upper(code[3]));
            assert(token[4] == ascii_upper(code[4]));
            Market::lemma_code_letters(m);
            assert forall|i: int| 0 <= i < 5 implies ascii_lower(#[trigger] token[i])
                == ascii_lower(code[i]) by {
                if i == 0 {
                } else if i == 1 {
                } else if i == 2 {
                } else if i == 3 {
                } else {
                }
            }
            assert(m.matches(token));
            Market::lemma_parse_matches(token, m);
        },
        None => {
            assert forall|m: Market| !m.matches(row()) by {
                assert(m.spec_code().len() == 5);
            }
        },
    }
}

/// The size token of a size is read as that size.
pub proof fn lemma_size_token_reads(
    uhd: bool,
    width: Option<Seq<char>>,
    height: Option<Seq<char>>,
)
    requires
        uhd ==> width is None && height is None,
        !uhd ==> {
            &&& width matches Some(w) && is_canonical_numeral(w)
            &&& height matches Some(h) && is_canonical_numeral(h)
        },
    ensures
        is_size_token(size_token(uhd, width, height)),
        read_size(size_token(uhd, width, height)) == (uhd, width, height),
        !uhd ==> split_size(size_token(uhd, width, height)) == Some(
            (width.unwrap(), height.unwrap()),
        ),
{
    if !uhd {
        let w = width.unwrap();
        let h = height.unwrap();
        let size = size_token(uhd, width, height);
        lemma_canonical(w);
        lemma_canonical(h);
        let i = w.len() as int;
        assert(size[i] == 'x');
        assert forall|j: int| 0 <= j < i implies size[j] != 'x' by {
            assert(is_digit(w[j]));
        }
        lemma_first_index_is(size, 'x', i);
        assert(size.take(i) =~= w);
        assert(size.skip(i + 1) =~= h);
        assert(size[0] == w[0]);
        assert(is_digit(w[0]));
        assert(size != uhd_token()) by {
            if size == uhd_token() {
                assert(size[0] == 'U');
            }
        }
    }
}

/// Writing a well-formed value down gives well-shaped texts that are read
/// as that value.
pub proof fn lemma_write_reads(id: IdView)
    requires
        id.well_formed(),
    ensures
        id.write().well_shaped(),
        id.write().canonical(),
        id.write().read() == id,
{
    lemma_market_token_reads(id.market);
    lemma_size_token_reads(id.uhd, id.width, id.height);
    lemma_canonical(id.number);
    if let Some(m) = id.market {
        assert(id.write().market == market_token(Some(m)));
    }
}

/// Canonical texts are the ones that writing their value gives.
pub proof fn lemma_read_writes(p: Parts)
    requires
        p.well_shaped(),
        p.canonical(),
    ensures
        p.read().write() == p,
{
    lemma_canonical(p.number);
    if p.market != row() {
        let m = choose|m: Market| p.market == market_token(Some(m));
        lemma_market_token_reads(Some(m));
    } else {
        lemma_market_token_reads(None);
    }
    if p.size != uhd_token() {
        lemma_first_index_of(p.size, 'x');
        let i = first_index_of(p.size, 'x').unwrap();
        let w = p.size.take(i);
        let h = p.size.skip(i + 1);
        lemma_canonical(w);
        lemma_canonical(h);
        assert(w + seq!['x'] + h =~= p.size);
    }
}

/// What well-shaped texts denote is well formed.
pub proof fn lemma_read_is_well_formed(p: Parts)
    requires
        p.well_shaped(),
    ensures
        p.read().well_formed(),
{
    lemma_canonical(p.number);
    if p.size != uhd_token() {
        let (w, h) = split_size(p.size).unwrap();
        lemma_canonical(w);
        lemma_canonical(h);
    }
}

/// What `parse` gives is well formed.
pub proof fn lemma_parse_is_well_formed(s: Seq<char>)
    requires
        spec_parse(s) is Some,
    ensures
        spec_parse(s).unwrap().well_formed(),
{
    lemma_read_is_well_formed(split(s).unwrap());
}

/// Every numeral is read, whatever the size of its number: an identifier
/// made of well-shaped texts denotes what its texts denote.
pub proof fn lemma_parse_of_parts(p: Parts)
    requires
        p.well_shaped(),
    ensures
        spec_parse(p.join()) == Some(p.read()),
{
    lemma_join_splits(p);
}

/// Round trip, from value to text and back: the identifier that writes a
/// well-formed value down is read as that value.
pub proof fn lemma_parse_format(id: IdView)
    requires
        id.well_formed(),
    ensures
        spec_parse(id.spec_format()) == Some(id),
{
    lemma_write_reads(id);
    lemma_join_splits(id.write());
}

/// Round trip, from text to value and back: an identifier of the grammar
/// whose texts are canonical is written down again letter for letter.
pub proof fn lemma_format_parse(s: Seq<char>)
    requires
        spec_parse(s) is Some,
        split(s).unwrap().canonical(),
    ensures
        spec_parse(s).unwrap().spec_format() == s,
{
    let p = split(s).unwrap();
    lemma_read_writes(p);
    lemma_split_joins(s);
}

/// The identifiers that are written down again letter for letter are those
/// whose texts are canonical, and no others.
pub proof fn lemma_format_parse_exactly(s: Seq<char>)
    requires
        spec_parse(s) is Some,
    ensures
        spec_parse(s).unwrap().spec_format() == s <==> split(s).unwrap().canonical(),
{
    let p = split(s).unwrap();
    let id = spec_parse(s).unwrap();
    if p.canonical() {
        lemma_format_parse(s);
    }
    if id.spec_format() == s {
        lemma_parse_is_well_formed(s);
        lemma_write_reads(id);
        lemma_join_splits(id.write());
        assert(id.write() == p);
    }
}

/// The texts of the grammar are the identifiers that are read: a text is
/// read exactly where it is made of well-shaped texts.
pub proof fn lemma_parse_is_grammar(s: Seq<char>)
    ensures
        spec_parse(s) is Some <==> exists|p: Parts| p.well_shaped() && #[trigger] p.join() == s,
{
    if spec_parse(s) is Some {
        lemma_split_joins(s);
        assert(split(s).unwrap().join() == s);
    }
    if exists|p: Parts| p.well_shaped() && #[trigger] p.join() == s {
        let p = choose|p: Parts| p.well_shaped() && #[trigger] p.join() == s;
        lemma_join_splits(p);
    }
}

} // verus!
