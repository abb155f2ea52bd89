//! The boundary to the `url` crate: resolving references and reading or
//! replacing the query of an address.
//!
//! Addresses cross this boundary as text and queries as lists of pairs. What
//! the `url` crate makes of them is not modelled here; each result only gets a
//! name, so that contracts elsewhere can say which outside result they build
//! on.

use crate::text::byte_length;
use url::Url;
use vstd::prelude::*;

verus! {

/// One `key=value` pair of a query, both parts decoded.
#[derive(Debug, Clone)]
pub struct QueryPair {
    pub key: String,
    pub value: String,
}

impl View for QueryPair {
    type V = (Seq<char>, Seq<char>);

    open spec fn view(&self) -> (Seq<char>, Seq<char>) {
        (self.key@, self.value@)
    }
}

/// The pairs of a list, each as a pair of character sequences.
pub open spec fn pairs_view(pairs: Seq<QueryPair>) -> Seq<(Seq<char>, Seq<char>)> {
    pairs.map_values(|p: QueryPair| p@)
}

/// The characters of an optional text.
pub open spec fn text_view(text: Option<String>) -> Option<Seq<char>> {
    match text {
        Some(t) => Some(t@),
        None => None,
    }
}

/// The characters of each pair of an optional list.
pub open spec fn query_view(pairs: Option<Vec<QueryPair>>) -> Option<Seq<(Seq<char>, Seq<char>)>> {
    match pairs {
        Some(p) => Some(pairs_view(p@)),
        None => None,
    }
}

/// The address that `reference` denotes when it is found in a document at
/// `base`, as `Url::join` gives it; `None` where `Url::parse` does not take
/// `base` for an absolute address or `Url::join` reports an error.
pub uninterp spec fn joined(base: Seq<char>, reference: Seq<char>) -> Option<Seq<char>>;

/// The decoded query pairs of `address`, in the order in which
/// `Url::query_pairs` yields them; `None` where `Url::parse` does not take
/// `address` for an absolute address.
pub uninterp spec fn query_of(address: Seq<char>) -> Option<Seq<(Seq<char>, Seq<char>)>>;

/// `address` with its whole query replaced by `pairs`, as the serializer of
/// `Url::query_pairs_mut` writes them; `None` where `Url::parse` does not
/// take `address` for an absolute address.
pub uninterp spec fn with_query(address: Seq<char>, pairs: Seq<(Seq<char>, Seq<char>)>) -> Option<
    Seq<char>,
>;

/// Calls `Url::join` on `base`, which `Url::parse` turns into an address
/// first. Trusted: the result is a function of the two texts alone; it is
/// the text of the address that `Url::join` returns, and `None` exactly when
/// either call reports an error.
#[verifier::external_body]
pub(crate) fn join(base: &str, reference: &str) -> (r: Option<String>)
    ensures
        text_view(r) == joined(base@, reference@),
{
    let base = Url::parse(base).ok()?;
    base.join(reference).ok().map(String::from)
}

/// Calls `Url::query_pairs` on `address`, which `Url::parse` turns into an
/// address first. Trusted: the result is a function of the text alone; it
/// holds every pair that the iterator yields, in its order, and is `None`
/// exactly when parsing reports an error.
#[verifier::external_body]
pub(crate) fn query_pairs(address: &str) -> (r: Option<Vec<QueryPair>>)
    ensures
        query_view(r) == query_of(address@),
{
    let url = Url::parse(address).ok()?;
    Some(url.query_pairs().map(|(k, v)| QueryPair { key: k.into_owned(), value: v.into_owned() }).collect())
}

/// The longest address whose query is rewritten, and the greatest weight of
/// the pairs written into it, in bytes.
pub const MAX_ADDRESS_BYTES: usize = 0x00FF_FFFF;

/// The room that `pairs` take in memory: the bytes of every key and value,
/// and two more for each pair.
pub open spec fn pairs_weight(pairs: Seq<(Seq<char>, Seq<char>)>) -> nat
    decreases pairs.len(),
{
    if pairs.len() == 0 {
        0
    } else {
        pairs_weight(pairs.drop_last()) + byte_length(pairs.last().0) + byte_length(
            pairs.last().1,
        ) + 2
    }
}

/// Calls `Url::query_pairs_mut` on `address`, which `Url::parse` turns into
/// an address first, and has its serializer clear the query and write
/// `pairs`. The crate keeps positions in an address as 32-bit numbers and
/// panics where the rewritten address is longer than they can tell. The
/// serializer writes at most three bytes for each byte of a pair and two
/// more for each pair, so the `requires` keeps address and pairs far below
/// that length. Trusted: on such arguments the call returns; the result is
/// a function of text and pairs alone; it is the text of the address
/// afterwards, and `None` exactly when parsing reports an error.
#[verifier::external_body]
pub(crate) fn replace_query(address: &str, pairs: &Vec<QueryPair>) -> (r: Option<String>)
    requires
        byte_length(address@) <= MAX_ADDRESS_BYTES,
        pairs_weight(pairs_view(pairs@)) <= MAX_ADDRESS_BYTES,
    ensures
        text_view(r) == with_query(address@, pairs_view(pairs@)),
{
    let mut url = Url::parse(address).ok()?;
    url.query_pairs_mut().clear().extend_pairs(pairs.iter().map(|p| (&p.key, &p.value)));
    Some(String::from(url))
}

} // verus!
