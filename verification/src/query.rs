//! The search query: filters appended to a base address, and the list of
//! query pairs in which the page number is set and found again.

use crate::address::{pairs_view, pairs_weight, text_view, QueryPair};
use crate::text::{byte_len, characters, decimal, lemma_decimal_round_trip, parse_number, parsed_number, render_number};
use vstd::prelude::*;
use vstd::string::*;

verus! {

/// The optional filters of a search.
#[derive(Debug, Clone)]
pub struct Filters {
    pub country: Option<String>,
    pub color: Option<String>,
    pub region: Option<String>,
}

/// The filters with their texts as sequences of characters.
pub struct FiltersView {
    pub country: Option<Seq<char>>,
    pub color: Option<Seq<char>>,
    pub region: Option<Seq<char>>,
}

impl View for Filters {
    type V = FiltersView;

    open spec fn view(&self) -> FiltersView {
        FiltersView {
            country: text_view(self.country),
            color: text_view(self.color),
            region: text_view(self.region),
        }
    }
}

/// The parameter names under which the shop accepts the three filters.
#[derive(Debug, Clone)]
pub struct FilterNames {
    pub country: String,
    pub color: String,
    pub region: String,
}

/// The filter names as sequences of characters.
pub struct FilterNamesView {
    pub country: Seq<char>,
    pub color: Seq<char>,
    pub region: Seq<char>,
}

impl View for FilterNames {
    type V = FilterNamesView;

    open spec fn view(&self) -> FilterNamesView {
        FilterNamesView { country: self.country@, color: self.color@, region: self.region@ }
    }
}

impl FilterNames {
    /// The lower-case names `country`, `color` and `region`.
    pub fn lowercase() -> (r: FilterNames)
        ensures
            r@.country == "country"@,
            r@.color == "color"@,
            r@.region == "region"@,
    {
        FilterNames {
            country: String::from_str("country"),
            color: String::from_str("color"),
            region: String::from_str("region"),
        }
    }
}

/// A filter counts only if it is given and not empty.
pub open spec fn supplied(value: Option<Seq<char>>) -> bool {
    value is Some && value->0.len() > 0
}

/// The one-element list `[(name, value)]` for a supplied filter, the empty
/// list for the others.
pub open spec fn filter_pair(name: Seq<char>, value: Option<Seq<char>>) -> Seq<
    (Seq<char>, Seq<char>),
> {
    if supplied(value) {
        seq![(name, value->0)]
    } else {
        Seq::empty()
    }
}

/// The supplied filters as pairs, in the order country, color, region.
pub open spec fn supplied_pairs(names: FilterNamesView, filters: FiltersView) -> Seq<
    (Seq<char>, Seq<char>),
> {
    filter_pair(names.country, filters.country) + filter_pair(names.color, filters.color)
        + filter_pair(names.region, filters.region)
}

/// The position of the first `c` in `s`, or the length of `s` where it holds
/// none.
pub open spec fn position(s: Seq<char>, c: char) -> nat
    decreases s.len(),
{
    if s.len() == 0 || s.first() == c {
        0
    } else {
        1 + position(s.drop_first(), c)
    }
}

/// Where the fragment of an address begins: at its first `#`, or at its end
/// where it has none.
pub open spec fn fragment_start(address: Seq<char>) -> nat {
    position(address, '#')
}

/// An address without its fragment.
pub open spec fn before_fragment(address: Seq<char>) -> Seq<char> {
    address.subrange(0, fragment_start(address) as int)
}

/// The fragment of an address with its `#`; empty where it has none.
pub open spec fn fragment(address: Seq<char>) -> Seq<char> {
    address.subrange(fragment_start(address) as int, address.len() as int)
}

/// Whether an address carries a query: a `?` in front of its fragment.
pub open spec fn has_query(address: Seq<char>) -> bool {
    before_fragment(address).contains('?')
}

/// One parameter as it is written into an address: `?name=value` where it
/// opens the query, `&name=value` where it follows another; name and value
/// verbatim.
pub open spec fn parameter(pair: (Seq<char>, Seq<char>), opening: bool) -> Seq<char> {
    seq![if opening {
        '?'
    } else {
        '&'
    }] + pair.0 + seq!['='] + pair.1
}

/// The parameters of all `pairs`, one behind the other. Where the address
/// carries no query yet, the first of them opens it.
pub open spec fn parameters(pairs: Seq<(Seq<char>, Seq<char>)>, queried: bool) -> Seq<char>
    decreases pairs.len(),
{
    if pairs.len() == 0 {
        Seq::empty()
    } else {
        parameters(pairs.drop_last(), queried) + parameter(
            pairs.last(),
            !queried && pairs.len() == 1,
        )
    }
}

/// The address of the filtered search: the base address with one parameter
/// for each supplied filter added to its query, in front of its fragment.
pub open spec fn search_url(base: Seq<char>, names: FilterNamesView, filters: FiltersView) -> Seq<
    char,
> {
    before_fragment(base) + parameters(supplied_pairs(names, filters), has_query(base)) + fragment(
        base,
    )
}

/// The filtered search address holds exactly the supplied filters: a pair is
/// among its parameters if and only if it is one of the three filters, given
/// and not empty, under its name.
pub proof fn lemma_search_url_holds_supplied_filters(
    names: FilterNamesView,
    filters: FiltersView,
    pair: (Seq<char>, Seq<char>),
)
    ensures
        supplied_pairs(names, filters).contains(pair) <==> {
            ||| supplied(filters.country) && pair == (names.country, filters.country->0)
            ||| supplied(filters.color) && pair == (names.color, filters.color->0)
            ||| supplied(filters.region) && pair == (names.region, filters.region->0)
        },
{
    let a = filter_pair(names.country, filters.country);
    let b = filter_pair(names.color, filters.color);
    let all = supplied_pairs(names, filters);
    if supplied(filters.country) && pair == (names.country, filters.country->0) {
        assert(all[0] == pair);
    }
    if supplied(filters.color) && pair == (names.color, filters.color->0) {
        assert(all[a.len() as int] == pair);
    }
    if supplied(filters.region) && pair == (names.region, filters.region->0) {
        assert(all[(a.len() + b.len()) as int] == pair);
    }
}

/// Where the first `c` of `s` is: within `s` or at its end, with no `c`
/// before it and a `c` at it unless `s` ends there.
pub proof fn lemma_position_found(s: Seq<char>, c: char)
    ensures
        position(s, c) <= s.len(),
        free_of(s.subrange(0, position(s, c) as int), c),
        position(s, c) < s.len() ==> s[position(s, c) as int] == c,
        s.contains(c) <==> position(s, c) < s.len(),
    decreases s.len(),
{
    if s.len() > 0 && s.first() != c {
        let rest = s.drop_first();
        lemma_position_found(rest, c);
        let at = position(s, c) as int;
        assert forall|i: int| 0 <= i < at implies s.subrange(0, at)[i] != c by {
            if i > 0 {
                assert(s.subrange(0, at)[i] == rest.subrange(0, at - 1)[i - 1]);
            }
        }
        if s.contains(c) {
            let i = choose|i: int| 0 <= i < s.len() && s[i] == c;
            assert(rest[i - 1] == c);
        }
    }
    if position(s, c) == s.len() && s.contains(c) {
        let i = choose|i: int| 0 <= i < s.len() && s[i] == c;
    }
}

/// What an address is made of: the part before the fragment holds no `#`,
/// the fragment is empty or begins with `#`, and the two make up the
/// address.
pub proof fn lemma_fragment(address: Seq<char>)
    ensures
        fragment_start(address) <= address.len(),
        before_fragment(address) + fragment(address) == address,
        free_of(before_fragment(address), '#'),
        fragment(address).len() == 0 || fragment(address).first() == '#',
{
    lemma_position_found(address, '#');
}

/// The filtered search address is the base address where no filter is
/// supplied. Where one is, the parameters stand between the part before the
/// fragment and the fragment; they begin with `?` where the base carries no
/// query and with `&` where it does, and every further one begins with `&`.
pub proof fn lemma_search_url_is_base_and_filters(
    base: Seq<char>,
    names: FilterNamesView,
    filters: FiltersView,
)
    ensures
        supplied_pairs(names, filters).len() == 0 ==> search_url(base, names, filters) == base,
        supplied_pairs(names, filters).len() > 0 ==> parameters(
            supplied_pairs(names, filters),
            has_query(base),
        ).first() == (if has_query(base) {
            '&'
        } else {
            '?'
        }),
        fragment(base).len() == 0 && has_query(base) ==> search_url(base, names, filters) == base
            + parameters(supplied_pairs(names, filters), true),
{
    lemma_fragment(base);
    let pairs = supplied_pairs(names, filters);
    lemma_parameters_begin(pairs, has_query(base));
}

/// The parameters of a list that is not empty begin with the sign of its
/// first parameter.
proof fn lemma_parameters_begin(pairs: Seq<(Seq<char>, Seq<char>)>, queried: bool)
    ensures
        pairs.len() > 0 ==> parameters(pairs, queried).len() > 0 && parameters(
            pairs,
            queried,
        ).first() == (if queried {
            '&'
        } else {
            '?'
        }),
    decreases pairs.len(),
{
    if pairs.len() > 1 {
        lemma_parameters_begin(pairs.drop_last(), queried);
    } else if pairs.len() == 1 {
        assert(parameters(pairs.drop_last(), queried) =~= Seq::empty());
    }
}

/// A text that is not empty holds `c` where it ends with `c` or holds it
/// before its end, and nowhere else.
proof fn lemma_contains_grows(s: Seq<char>, c: char)
    requires
        s.len() > 0,
    ensures
        s.contains(c) <==> s.last() == c || s.drop_last().contains(c),
{
    if s.contains(c) && s.last() != c {
        let at = choose|i: int| 0 <= i < s.len() && s[i] == c;
        assert(s.drop_last()[at] == c);
    }
    if s.drop_last().contains(c) {
        let at = choose|i: int| 0 <= i < s.drop_last().len() && s.drop_last()[i] == c;
        assert(s[at] == c);
    }
    if s.last() == c {
        assert(s[s.len() - 1] == c);
    }
}

/// Writes the parameter of one filter, where it is supplied, and says
/// whether the next parameter still opens the query.
fn append_filter(
    url: &mut String,
    name: &String,
    value: &Option<String>,
    opening: bool,
    Ghost(written): Ghost<Seq<(Seq<char>, Seq<char>)>>,
    Ghost(head): Ghost<Seq<char>>,
    Ghost(queried): Ghost<bool>,
) -> (still_opening: bool)
    requires
        old(url)@ == head + parameters(written, queried),
        opening == (!queried && written.len() == 0),
    ensures
        final(url)@ == head + parameters(
            written + filter_pair(name@, text_view(*value)),
            queried,
        ),
        still_opening == (!queried && (written + filter_pair(
            name@,
            text_view(*value),
        )).len() == 0),
{
    match value {
        Some(v) => {
            if !v.as_str().is_empty() {
                if opening {
                    url.append("?");
                } else {
                    url.append("&");
                }
                url.append(name.as_str());
                url.append("=");
                url.append(v.as_str());
                proof {
                    reveal_strlit("?");
                    reveal_strlit("&");
                    reveal_strlit("=");
                    let all = written + seq![(name@, v@)];
                    assert(all.drop_last() =~= written);
                }
                return false;
            }
            opening
        },
        None => {
            opening
        },
    }
}

/// Builds the address of the filtered search.
pub fn build_search_url(base: &str, names: &FilterNames, filters: &Filters) -> (r: String)
    ensures
        r@ == search_url(base@, names@, filters@),
{
    let chars = characters(base);
    let n: usize = chars.len();
    let mut cut: usize = 0;
    let mut queried = false;
    while cut < n && chars[cut] != '#'
        invariant
            cut <= n,
            n == base@.len(),
            chars@ == base@,
            forall|k: int| 0 <= k < cut ==> base@[k] != '#',
            queried == base@.subrange(0, cut as int).contains('?'),
        decreases n - cut,
    {
        proof {
            lemma_contains_grows(base@.subrange(0, cut + 1), '?');
            assert(base@.subrange(0, cut + 1).drop_last() =~= base@.subrange(0, cut as int));
        }
        if chars[cut] == '?' {
            queried = true;
        }
        cut += 1;
    }
    proof {
        lemma_position(base@, '#', cut as int);
    }
    let head = base.substring_char(0, cut);
    let tail = base.substring_char(cut, n);
    let mut url = String::from_str(head);
    let ghost none = Seq::<(Seq<char>, Seq<char>)>::empty();
    let opening = !queried;
    let opening = append_filter(
        &mut url,
        &names.country,
        &filters.country,
        opening,
        Ghost(none),
        Ghost(head@),
        Ghost(queried),
    );
    let ghost first = none + filter_pair(names@.country, filters@.country);
    let opening = append_filter(
        &mut url,
        &names.color,
        &filters.color,
        opening,
        Ghost(first),
        Ghost(head@),
        Ghost(queried),
    );
    let ghost second = first + filter_pair(names@.color, filters@.color);
    let _ = append_filter(
        &mut url,
        &names.region,
        &filters.region,
        opening,
        Ghost(second),
        Ghost(head@),
        Ghost(queried),
    );
    url.append(tail);
    url
}

/// `pairs` without those whose key is `key`, the others in their order.
pub open spec fn without_key(pairs: Seq<(Seq<char>, Seq<char>)>, key: Seq<char>) -> Seq<
    (Seq<char>, Seq<char>),
>
    decreases pairs.len(),
{
    if pairs.len() == 0 {
        Seq::empty()
    } else if pairs.last().0 == key {
        without_key(pairs.drop_last(), key)
    } else {
        without_key(pairs.drop_last(), key).push(pairs.last())
    }
}

/// `pairs` with `key` set to `value`: every earlier pair of that key is
/// removed and the new pair stands last.
pub open spec fn with_pair(
    pairs: Seq<(Seq<char>, Seq<char>)>,
    key: Seq<char>,
    value: Seq<char>,
) -> Seq<(Seq<char>, Seq<char>)> {
    without_key(pairs, key).push((key, value))
}

/// The value of the last pair whose key is `key`, if there is one.
pub open spec fn last_value(pairs: Seq<(Seq<char>, Seq<char>)>, key: Seq<char>) -> Option<
    Seq<char>,
>
    decreases pairs.len(),
{
    if pairs.len() == 0 {
        None
    } else if pairs.last().0 == key {
        Some(pairs.last().1)
    } else {
        last_value(pairs.drop_last(), key)
    }
}

/// Removing a key from a list that holds none of it changes nothing.
pub proof fn lemma_without_key_twice(pairs: Seq<(Seq<char>, Seq<char>)>, key: Seq<char>)
    ensures
        without_key(without_key(pairs, key), key) == without_key(pairs, key),
    decreases pairs.len(),
{
    if pairs.len() > 0 {
        lemma_without_key_twice(pairs.drop_last(), key);
        if pairs.last().0 != key {
            let kept = without_key(pairs.drop_last(), key);
            assert(kept.push(pairs.last()).drop_last() =~= kept);
        }
    }
}

/// Setting a key to the same value twice gives the same list as setting it
/// once.
pub proof fn lemma_with_pair_idempotent(
    pairs: Seq<(Seq<char>, Seq<char>)>,
    key: Seq<char>,
    value: Seq<char>,
)
    ensures
        with_pair(with_pair(pairs, key, value), key, value) == with_pair(pairs, key, value),
{
    let kept = without_key(pairs, key);
    let once = kept.push((key, value));
    assert(once.drop_last() =~= kept);
    lemma_without_key_twice(pairs, key);
}

/// A key that was set is found again with the value it was set to, and
/// every other key keeps the value it had.
pub proof fn lemma_with_pair_read_back(
    pairs: Seq<(Seq<char>, Seq<char>)>,
    key: Seq<char>,
    value: Seq<char>,
    other: Seq<char>,
)
    ensures
        last_value(with_pair(pairs, key, value), key) == Some(value),
        other != key ==> last_value(with_pair(pairs, key, value), other) == last_value(
            pairs,
            other,
        ),
{
    let kept = without_key(pairs, key);
    assert(kept.push((key, value)).drop_last() =~= kept);
    if other != key {
        lemma_without_key_keeps_others(pairs, key, other);
    }
}

proof fn lemma_without_key_keeps_others(
    pairs: Seq<(Seq<char>, Seq<char>)>,
    key: Seq<char>,
    other: Seq<char>,
)
    requires
        other != key,
    ensures
        last_value(without_key(pairs, key), other) == last_value(pairs, other),
    decreases pairs.len(),
{
    if pairs.len() > 0 {
        lemma_without_key_keeps_others(pairs.drop_last(), key, other);
        if pairs.last().0 != key {
            let kept = without_key(pairs.drop_last(), key);
            assert(kept.push(pairs.last()).drop_last() =~= kept);
        }
    }
}

/// Sets `key` to `value` in a list of query pairs.
pub fn set_pair(pairs: &Vec<QueryPair>, key: &str, value: &str) -> (r: Vec<QueryPair>)
    ensures
        pairs_view(r@) == with_pair(pairs_view(pairs@), key@, value@),
{
    let wanted = String::from_str(key);
    let mut kept: Vec<QueryPair> = Vec::new();
    let n: usize = pairs.len();
    let mut i: usize = 0;
    while i < n
        invariant
            i <= n,
            n == pairs.len(),
            wanted@ == key@,
            pairs_view(kept@) == without_key(pairs_view(pairs@).subrange(0, i as int), key@),
        decreases n - i,
    {
        assert(pairs_view(pairs@).subrange(0, i + 1).drop_last() =~= pairs_view(pairs@).subrange(
            0,
            i as int,
        ));
        if pairs[i].key != wanted {
            let pair = QueryPair { key: pairs[i].key.clone(), value: pairs[i].value.clone() };
            kept.push(pair);
        }
        i += 1;
    }
    assert(pairs_view(pairs@).subrange(0, n as int) =~= pairs_view(pairs@));
    kept.push(QueryPair { key: wanted, value: String::from_str(value) });
    kept
}

/// Finds the value of the last pair whose key is `key`.
pub fn find_last(pairs: &Vec<QueryPair>, key: &str) -> (r: Option<String>)
    ensures
        text_view(r) == last_value(pairs_view(pairs@), key@),
{
    let wanted = String::from_str(key);
    let mut i: usize = pairs.len();
    assert(pairs_view(pairs@).subrange(0, i as int) =~= pairs_view(pairs@));
    while i > 0
        invariant
            i <= pairs.len(),
            wanted@ == key@,
            last_value(pairs_view(pairs@), key@) == last_value(
                pairs_view(pairs@).subrange(0, i as int),
                key@,
            ),
        decreases i,
    {
        let ghost upto = pairs_view(pairs@).subrange(0, i as int);
        proof {
            assert(upto.drop_last() =~= pairs_view(pairs@).subrange(0, i - 1));
        }
        if pairs[i - 1].key == wanted {
            return Some(pairs[i - 1].value.clone());
        }
        i -= 1;
    }
    None
}

/// The key under which the shop takes the number of a result page.
pub open spec fn page_key() -> Seq<char> {
    "Page"@
}

/// `pairs` with the page number set to `page`.
pub open spec fn with_page(pairs: Seq<(Seq<char>, Seq<char>)>, page: u32) -> Seq<
    (Seq<char>, Seq<char>),
> {
    with_pair(pairs, page_key(), decimal(page as nat))
}

/// The page number that `pairs` name, if they name one.
pub open spec fn page_of(pairs: Seq<(Seq<char>, Seq<char>)>) -> Option<u32> {
    match last_value(pairs, page_key()) {
        Some(text) => parsed_number(text),
        None => None,
    }
}

/// Setting the same page number twice gives the same pairs as setting it
/// once, and the number that was set is the number that is read back.
pub proof fn lemma_with_page_idempotent(pairs: Seq<(Seq<char>, Seq<char>)>, page: u32)
    ensures
        with_page(with_page(pairs, page), page) == with_page(pairs, page),
        page_of(with_page(pairs, page)) == Some(page),
{
    lemma_with_pair_idempotent(pairs, page_key(), decimal(page as nat));
    lemma_with_pair_read_back(pairs, page_key(), decimal(page as nat), page_key());
    lemma_decimal_round_trip(page as nat);
}

/// Sets the page number in a list of query pairs.
pub fn set_page(pairs: &Vec<QueryPair>, page: u32) -> (r: Vec<QueryPair>)
    ensures
        pairs_view(r@) == with_page(pairs_view(pairs@), page),
{
    let number = render_number(page);
    set_pair(pairs, "Page", number.as_str())
}

/// Reads the page number from a list of query pairs.
pub fn read_page(pairs: &Vec<QueryPair>) -> (r: Option<u32>)
    ensures
        r == page_of(pairs_view(pairs@)),
{
    match find_last(pairs, "Page") {
        Some(text) => parse_number(text.as_str()),
        None => None,
    }
}

/// A longer list never weighs less than its beginning.
proof fn lemma_weight_grows(pairs: Seq<(Seq<char>, Seq<char>)>, k: int)
    requires
        0 <= k <= pairs.len(),
    ensures
        pairs_weight(pairs.subrange(0, k)) <= pairs_weight(pairs),
    decreases pairs.len() - k,
{
    if k == pairs.len() {
        assert(pairs.subrange(0, k) =~= pairs);
    } else {
        lemma_weight_grows(pairs.drop_last(), k);
        assert(pairs.drop_last().subrange(0, k) =~= pairs.subrange(0, k));
    }
}

/// Whether the pairs weigh `limit` bytes at most.
pub fn weighs_at_most(pairs: &Vec<QueryPair>, limit: usize) -> (r: bool)
    ensures
        r == (pairs_weight(pairs_view(pairs@)) <= limit),
{
    let n: usize = pairs.len();
    let mut total: usize = 0;
    let mut i: usize = 0;
    while i < n
        invariant
            i <= n,
            n == pairs.len(),
            total <= limit,
            total == pairs_weight(pairs_view(pairs@).subrange(0, i as int)),
        decreases n - i,
    {
        assert(pairs_view(pairs@).subrange(0, i + 1).drop_last() =~= pairs_view(pairs@).subrange(
            0,
            i as int,
        ));
        let key: usize = byte_len(pairs[i].key.as_str());
        let value: usize = byte_len(pairs[i].value.as_str());
        let room: usize = limit - total;
        if room < 2 || key > room - 2 || value > room - 2 - key {
            proof {
                lemma_weight_grows(pairs_view(pairs@), i + 1);
            }
            return false;
        }
        total = total + key + value + 2;
        i += 1;
    }
    assert(pairs_view(pairs@).subrange(0, n as int) =~= pairs_view(pairs@));
    true
}

/// What stands behind the last `c` in `s`; all of `s` where it holds none.
pub open spec fn last_piece(s: Seq<char>, c: char) -> Seq<char>
    decreases s.len(),
{
    if s.len() == 0 || s.last() == c {
        Seq::empty()
    } else {
        last_piece(s.drop_last(), c).push(s.last())
    }
}

/// Whether `s` holds no `c`.
pub open spec fn free_of(s: Seq<char>, c: char) -> bool {
    forall|i: int| 0 <= i < s.len() ==> s[i] != c
}

/// The pair that one piece of a query writes: name and value on either side
/// of its first `=`, and an empty value where it has none.
pub open spec fn written_pair(piece: Seq<char>) -> (Seq<char>, Seq<char>) {
    let at = position(piece, '=') as int;
    if at < piece.len() {
        (piece.subrange(0, at), piece.subrange(at + 1, piece.len() as int))
    } else {
        (piece, Seq::empty())
    }
}

/// The pairs that a query writes, as they are written and before any
/// decoding: its pieces between `&`, empty pieces left out.
pub open spec fn written_pairs(query: Seq<char>) -> Seq<(Seq<char>, Seq<char>)>
    decreases query.len(),
{
    let piece = last_piece(query, '&');
    let last = if piece.len() == 0 {
        Seq::empty()
    } else {
        seq![written_pair(piece)]
    };
    if piece.len() < query.len() {
        written_pairs(query.subrange(0, query.len() - piece.len() - 1)) + last
    } else {
        last
    }
}

/// The first `c` of `s` is at `cut` where no `c` stands before `cut` and
/// one stands there, or `s` ends there.
pub proof fn lemma_position(s: Seq<char>, c: char, cut: int)
    requires
        0 <= cut <= s.len(),
        forall|k: int| 0 <= k < cut ==> s[k] != c,
        cut == s.len() || s[cut] == c,
    ensures
        position(s, c) == cut,
    decreases s.len(),
{
    if cut > 0 {
        let rest = s.drop_first();
        assert(forall|k: int| 0 <= k < cut - 1 ==> rest[k] != c);
        lemma_position(rest, c, cut - 1);
    }
}

/// Behind `front`, a `c` and a `back` that holds no `c`, the last piece is
/// `back`.
pub proof fn lemma_last_piece(front: Seq<char>, c: char, back: Seq<char>)
    requires
        free_of(back, c),
    ensures
        last_piece(front.push(c) + back, c) == back,
        last_piece(back, c) == back,
    decreases back.len(),
{
    let whole = front.push(c) + back;
    if back.len() > 0 {
        let shorter = back.drop_last();
        assert(forall|i: int| 0 <= i < shorter.len() ==> shorter[i] != c);
        lemma_last_piece(front, c, shorter);
        assert(whole.drop_last() =~= front.push(c) + shorter);
    }
}

/// A piece `name=value` whose name holds no `=` writes the pair of name and
/// value.
pub proof fn lemma_written_pair(name: Seq<char>, value: Seq<char>)
    requires
        free_of(name, '='),
    ensures
        written_pair(name.push('=') + value) == (name, value),
{
    let piece = name.push('=') + value;
    assert(forall|k: int| 0 <= k < name.len() ==> piece[k] != '=');
    lemma_position(piece, '=', name.len() as int);
}

/// One more piece `&name=value` behind a query writes one more pair behind
/// its pairs, where name and value hold no `&` and the name no `=`. A piece
/// `name=value` alone writes that one pair.
pub proof fn lemma_written_pairs_grow(query: Seq<char>, name: Seq<char>, value: Seq<char>)
    requires
        free_of(name, '&'),
        free_of(value, '&'),
        free_of(name, '='),
    ensures
        written_pairs(query.push('&') + (name.push('=') + value)) == written_pairs(query).push(
            (name, value),
        ),
        written_pairs(name.push('=') + value) == seq![(name, value)],
{
    let piece = name.push('=') + value;
    assert(forall|i: int| 0 <= i < piece.len() ==> piece[i] != '&');
    lemma_last_piece(query, '&', piece);
    lemma_written_pair(name, value);
    let whole = query.push('&') + piece;
    assert(whole.subrange(0, whole.len() - piece.len() - 1) =~= query);
}

/// What stands in front of the query of an address: everything up to its
/// first `?`, or up to its fragment where it carries no query.
pub open spec fn before_query(address: Seq<char>) -> Seq<char> {
    let head = before_fragment(address);
    head.subrange(0, position(head, '?') as int)
}

/// The query of an address as it is written: what stands between its first
/// `?` and its fragment; empty where it carries none.
pub open spec fn query_text(address: Seq<char>) -> Seq<char> {
    let head = before_fragment(address);
    if position(head, '?') < head.len() {
        head.subrange(position(head, '?') as int + 1, head.len() as int)
    } else {
        Seq::empty()
    }
}

/// Pairs that are read back as they are written: names and values hold
/// neither `&` nor `#`, and names no `=`.
pub open spec fn plain_pairs(pairs: Seq<(Seq<char>, Seq<char>)>) -> bool {
    forall|i: int|
        0 <= i < pairs.len() ==> {
            &&& free_of((#[trigger] pairs[i]).0, '&')
            &&& free_of(pairs[i].0, '#')
            &&& free_of(pairs[i].0, '=')
            &&& free_of(pairs[i].1, '&')
            &&& free_of(pairs[i].1, '#')
        }
}

/// The parameters of plain pairs hold no `#`.
proof fn lemma_parameters_hold_no_fragment(pairs: Seq<(Seq<char>, Seq<char>)>, queried: bool)
    requires
        plain_pairs(pairs),
    ensures
        free_of(parameters(pairs, queried), '#'),
    decreases pairs.len(),
{
    if pairs.len() > 0 {
        let before = pairs.drop_last();
        assert(forall|i: int| 0 <= i < before.len() ==> { &&& free_of((#[trigger] before[i]).0, '&') &&& free_of(before[i].0, '#') &&& free_of(before[i].0, '=') &&& free_of(before[i].1, '&') &&& free_of(before[i].1, '#') });
        lemma_parameters_hold_no_fragment(before, queried);
        let front = parameters(before, queried);
        let pair = pairs.last();
        let one = parameter(pair, !queried && pairs.len() == 1);
        assert(forall|i: int| 0 <= i < one.len() ==> one[i] != '#');
        assert(forall|i: int| 0 <= i < (front + one).len() ==> (front + one)[i] != '#');
    }
}

/// Plain pairs stay plain without their last.
proof fn lemma_plain_without_last(pairs: Seq<(Seq<char>, Seq<char>)>)
    requires
        plain_pairs(pairs),
        pairs.len() > 0,
    ensures
        plain_pairs(pairs.drop_last()),
        free_of(pairs.last().0, '&'),
        free_of(pairs.last().0, '='),
        free_of(pairs.last().1, '&'),
{
    let before = pairs.drop_last();
    assert(forall|i: int| 0 <= i < before.len() ==> { &&& free_of((#[trigger] before[i]).0, '&') &&& free_of(before[i].0, '#') &&& free_of(before[i].0, '=') &&& free_of(before[i].1, '&') &&& free_of(before[i].1, '#') });
}

/// Parameters written behind a query are read back as its pairs followed by
/// the pairs written.
proof fn lemma_written_behind_a_query(query: Seq<char>, pairs: Seq<(Seq<char>, Seq<char>)>)
    requires
        plain_pairs(pairs),
    ensures
        written_pairs(query + parameters(pairs, true)) == written_pairs(query) + pairs,
    decreases pairs.len(),
{
    if pairs.len() == 0 {
    } else {
        let before = pairs.drop_last();
        let pair = pairs.last();
        lemma_plain_without_last(pairs);
        lemma_written_behind_a_query(query, before);
        let front = query + parameters(before, true);
        lemma_written_pairs_grow(front, pair.0, pair.1);
        assert(query + parameters(pairs, true) =~= front.push('&') + (pair.0.push('=') + pair.1));
    }
}

/// Parameters that open a query are read back as the pairs written.
proof fn lemma_written_as_a_query(pairs: Seq<(Seq<char>, Seq<char>)>)
    requires
        plain_pairs(pairs),
        pairs.len() > 0,
    ensures
        parameters(pairs, false).len() > 0,
        parameters(pairs, false).first() == '?',
        written_pairs(parameters(pairs, false).drop_first()) == pairs,
    decreases pairs.len(),
{
    let before = pairs.drop_last();
    let pair = pairs.last();
    lemma_plain_without_last(pairs);
    if pairs.len() == 1 {
        assert(parameters(pairs, false).drop_first() =~= pair.0.push('=') + pair.1);
        lemma_written_pairs_grow(Seq::empty(), pair.0, pair.1);
    } else {
        lemma_written_as_a_query(before);
        let front = parameters(before, false).drop_first();
        lemma_written_pairs_grow(front, pair.0, pair.1);
        assert(parameters(pairs, false).drop_first() =~= front.push('&') + (pair.0.push('=')
            + pair.1));
    }
}

/// The filtered search address carries exactly the supplied filters as
/// query parameters, whatever the base: the pairs that its query writes are
/// those of the base followed by one pair for each supplied filter, and
/// what stands in front of the query and the fragment are those of the
/// base. This holds where the names and the supplied values hold neither
/// `&` nor `#` and the names no `=`; pairs are taken as they are written,
/// before any decoding.
pub proof fn lemma_search_url_query_pairs(
    base: Seq<char>,
    names: FilterNamesView,
    filters: FiltersView,
)
    requires
        plain_pairs(supplied_pairs(names, filters)),
    ensures
        written_pairs(query_text(search_url(base, names, filters))) == written_pairs(
            query_text(base),
        ) + supplied_pairs(names, filters),
        before_query(search_url(base, names, filters)) == before_query(base),
        fragment(search_url(base, names, filters)) == fragment(base),
{
    let pairs = supplied_pairs(names, filters);
    let head = before_fragment(base);
    let written = parameters(pairs, has_query(base));
    let built = search_url(base, names, filters);
    let cut = head.len() + written.len();
    lemma_fragment(base);
    lemma_parameters_hold_no_fragment(pairs, has_query(base));
    assert(forall|k: int| 0 <= k < cut ==> built[k] != '#');
    lemma_position(built, '#', cut as int);
    assert(before_fragment(built) =~= head + written);
    lemma_position_found(head, '?');
    let at = position(head, '?') as int;
    assert forall|k: int| 0 <= k < at implies (head + written)[k] != '?' by {
        assert((head + written)[k] == head.subrange(0, at)[k]);
    }
    if pairs.len() > 0 && has_query(base) {
        lemma_position(head + written, '?', at);
        assert(query_text(built) =~= query_text(base) + written);
        lemma_written_behind_a_query(query_text(base), pairs);
    } else if pairs.len() > 0 {
        lemma_written_as_a_query(pairs);
        lemma_position(head + written, '?', at);
        assert(query_text(built) =~= written.drop_first());
    }
}

} // verus!
