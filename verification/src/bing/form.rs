//! Query strings: name and value pairs in the form that HTML forms send.

use crate::decimal::{decimal, decimal_string};
use crate::error::ErrorKind;
use vstd::prelude::*;

verus! {

/// The error of `serde_urlencoded::to_string`.
#[verifier::external_type_specification]
#[verifier::external_body]
pub struct ExFormError(serde_urlencoded::ser::Error);

/// A parameter of a request: its name and its value.
pub type Pair = (String, String);

/// The names and values of a list of parameters.
pub open spec fn pairs_view(pairs: Seq<Pair>) -> Seq<(Seq<char>, Seq<char>)> {
    pairs.map_values(|p: Pair| (p.0@, p.1@))
}

/// The query string that `serde_urlencoded::to_string` gives for a list of
/// pairs of strings; `None` where it gives an error.
pub uninterp spec fn urlencoded(pairs: Seq<(Seq<char>, Seq<char>)>) -> Option<Seq<char>>;

/// Hands the pairs to `serde_urlencoded::to_string`, which writes them as
/// one `application/x-www-form-urlencoded` string.
#[verifier::external_body]
fn to_form_string(pairs: &Vec<Pair>) -> (r: Result<String, serde_urlencoded::ser::Error>)
    ensures
        match r {
            Ok(s) => urlencoded(pairs_view(pairs@)) == Some(s@),
            Err(_) => urlencoded(pairs_view(pairs@)) is None,
        },
{
    serde_urlencoded::to_string(pairs)
}

/// What `encode` gives for the pairs.
pub open spec fn spec_encode(pairs: Seq<(Seq<char>, Seq<char>)>) -> Result<Seq<char>, ErrorKind> {
    match urlencoded(pairs) {
        Some(s) => Ok(s),
        None => Err(ErrorKind::Encode),
    }
}

/// The view of an encoded query string.
pub open spec fn view_of(r: Result<String, ErrorKind>) -> Result<Seq<char>, ErrorKind> {
    match r {
        Ok(s) => Ok(s@),
        Err(e) => Err(e),
    }
}

/// The query string of the pairs, or `ErrorKind::Encode` where they cannot be
/// encoded.
pub fn encode(pairs: &Vec<Pair>) -> (r: Result<String, ErrorKind>)
    ensures
        view_of(r) == spec_encode(pairs_view(pairs@)),
{
    match to_form_string(pairs) {
        Ok(s) => Ok(s),
        Err(_) => Err(ErrorKind::Encode),
    }
}

/// The address made of an endpoint and the query string of the pairs.
pub open spec fn spec_address(endpoint: Seq<char>, pairs: Seq<(Seq<char>, Seq<char>)>) -> Result<
    Seq<char>,
    ErrorKind,
> {
    match urlencoded(pairs) {
        Some(q) => Ok(endpoint + seq!['?'] + q),
        None => Err(ErrorKind::Encode),
    }
}

/// The endpoint, a question mark and what the encoder made of the pairs.
pub fn address_of(endpoint: &str, query: Result<String, ErrorKind>) -> (r: Result<
    String,
    ErrorKind,
>)
    ensures
        view_of(r) == match query {
            Ok(q) => Ok(endpoint@ + seq!['?'] + q@),
            Err(e) => Err(e),
        },
{
    match query {
        Ok(q) => {
            let mut s = endpoint.to_owned();
            s.push('?');
            s.append(q.as_str());
            assert(s@ =~= endpoint@ + seq!['?'] + q@);
            Ok(s)
        },
        Err(e) => Err(e),
    }
}

/// The address made of an endpoint and the query string of the pairs, or
/// `ErrorKind::Encode` where the pairs cannot be encoded.
pub fn address(endpoint: &str, pairs: &Vec<Pair>) -> (r: Result<String, ErrorKind>)
    ensures
        view_of(r) == spec_address(endpoint@, pairs_view(pairs@)),
{
    address_of(endpoint, encode(pairs))
}

/// A parameter that is sent only where it has a value.
pub open spec fn optional(name: Seq<char>, value: Option<Seq<char>>) -> Seq<
    (Seq<char>, Seq<char>),
> {
    match value {
        Some(v) => seq![(name, v)],
        None => Seq::empty(),
    }
}

/// The decimal numeral of an optional number.
pub open spec fn numeral(n: Option<u32>) -> Option<Seq<char>> {
    match n {
        Some(n) => Some(decimal(n as nat)),
        None => None,
    }
}

/// The characters of an optional string.
pub open spec fn text(s: Option<String>) -> Option<Seq<char>> {
    match s {
        Some(s) => Some(s@),
        None => None,
    }
}

/// A copy of an optional string.
pub fn clone_text(s: &Option<String>) -> (r: Option<String>)
    ensures
        text(r) == text(*s),
{
    match s {
        Some(s) => Some(s.clone()),
        None => None,
    }
}

/// Appends a parameter.
pub fn push_pair(pairs: &mut Vec<Pair>, name: &str, value: String)
    ensures
        pairs_view(final(pairs)@) == pairs_view(old(pairs)@).push((name@, value@)),
{
    let ghost before = pairs@;
    pairs.push((name.to_owned(), value));
    assert(pairs_view(pairs@) =~= pairs_view(before).push((name@, value@)));
}

/// Appends a parameter where it has a value.
pub fn push_optional(pairs: &mut Vec<Pair>, name: &str, value: Option<String>)
    ensures
        pairs_view(final(pairs)@) == pairs_view(old(pairs)@) + optional(name@, text(value)),
{
    let ghost before = pairs@;
    match value {
        Some(v) => {
            push_pair(pairs, name, v);
            assert(pairs_view(pairs@) =~= pairs_view(before) + optional(name@, Some(v@)));
        },
        None => {
            assert(pairs_view(pairs@) =~= pairs_view(before) + optional(name@, None));
        },
    }
}

/// The decimal numeral of an optional number, as a string.
pub fn numeral_string(n: Option<u32>) -> (r: Option<String>)
    ensures
        text(r) == numeral(n),
{
    match n {
        Some(n) => Some(decimal_string(n as u64)),
        None => None,
    }
}

} // verus!
