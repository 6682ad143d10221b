//! The calls into `rand` and `http`, and what the library relies on of each.

use rand::distr::weighted::WeightedIndex;
use rand::distr::Distribution;
use rand::seq::IndexedRandom;
use rand::{Rng, SeedableRng};
use vstd::prelude::*;
use vstd::utf8::*;

verus! {

/// The sum of a list of weights.
pub open spec fn total_weight(weights: Seq<u64>) -> nat
    decreases weights.len(),
{
    if weights.len() == 0 {
        0
    } else {
        total_weight(weights.drop_last()) + weights.last() as nat
    }
}

/// Whether a list of weights makes a distribution: it is not empty, and its sum
/// is positive and fits in a `u64`.
pub open spec fn is_distribution(weights: Seq<u64>) -> bool {
    weights.len() > 0 && 0 < total_weight(weights) && total_weight(weights) <= u64::MAX
}

/// What is said of a list of weights that makes no distribution.
pub open spec fn refusal_text(weights: Seq<u64>) -> Seq<char> {
    if weights.len() == 0 {
        "Weights sequence is empty/too long/unordered"@
    } else if total_weight(weights) > u64::MAX {
        "Overflow when summing weights"@
    } else {
        "Not enough weights > zero"@
    }
}

/// A distribution over the indices of a list of weights: `rand`'s
/// `WeightedIndex<u64>`.
///
/// The field is private and only `weighted_distribution` fills it, so every
/// value holds a list of weights that `WeightedIndex::new` has accepted.
#[verifier::external_body]
#[derive(Debug)]
pub struct WeightedDistribution {
    inner: WeightedIndex<u64>,
}

/// The weights that a distribution was made from, in their order.
pub uninterp spec fn distribution_weights(distribution: WeightedDistribution) -> Seq<u64>;

impl View for WeightedDistribution {
    type V = Seq<u64>;

    open spec fn view(&self) -> Seq<u64> {
        distribution_weights(*self)
    }
}

/// `rand::distr::weighted::WeightedIndex::new`.
///
/// It accepts a list that is not empty, whose sum is positive and fits in a
/// `u64`, and keeps the weights in their order. Any other list is refused, and
/// the text is the one that `rand` displays for the refusal.
#[verifier::external_body]
pub(crate) fn weighted_distribution(weights: Vec<u64>) -> (made: Result<WeightedDistribution, String>)
    ensures
        made is Ok <==> is_distribution(weights@),
        made matches Ok(distribution) ==> distribution_weights(distribution) == weights@,
        made matches Err(text) ==> text@ == refusal_text(weights@),
{
    match WeightedIndex::new(weights) {
        Ok(inner) => Ok(WeightedDistribution { inner }),
        Err(error) => Err(error.to_string()),
    }
}

/// `rand::distr::weighted::WeightedIndex::weights`: the weights in the order in
/// which they were given.
#[verifier::external_body]
pub(crate) fn read_weights(distribution: &WeightedDistribution) -> (weights: Vec<u64>)
    ensures
        weights@ == distribution_weights(*distribution),
{
    distribution.inner.weights().collect()
}

/// `Distribution::sample` of `rand`'s `WeightedIndex`, with a `SmallRng` that is
/// seeded from the operating system.
///
/// The index is drawn at random. Whatever is drawn is the index of a weight of
/// the distribution, and never of a weight of zero.
#[verifier::external_body]
fn sample_index(distribution: &WeightedDistribution) -> (index: usize)
    ensures
        index < distribution_weights(*distribution).len(),
        distribution_weights(*distribution)[index as int] > 0,
{
    let mut rng = rand::rngs::SmallRng::from_os_rng();
    distribution.inner.sample(&mut rng)
}

/// `rand::seq::IndexedRandom::choose` on a slice, with the thread's generator.
///
/// The item is drawn at random. There is none exactly when the slice is empty,
/// and otherwise it is one of the slice.
#[verifier::external_body]
fn random_item<T>(items: &[T]) -> (item: Option<&T>)
    ensures
        item is None <==> items@.len() == 0,
        item matches Some(x) ==> items@.contains(*x),
{
    items.choose(&mut rand::rng())
}

/// `rand::Rng::random::<u32>`, with the thread's generator. Any number may come.
#[verifier::external_body]
fn random_u32() -> (number: u32) {
    rand::rng().random::<u32>()
}

/// Whether an index is one that a distribution with these weights has handed out,
/// and not just one that it could hand out.
pub closed spec fn is_sampled(weights: Seq<u64>, index: usize) -> bool {
    exists|distribution: WeightedDistribution|
        distribution@ == weights && #[trigger] call_ensures(sample_index, (&distribution,), index)
}

/// Whether an item is one that was drawn from the whole of a list, and not just one
/// of the list.
pub closed spec fn is_drawn_from(items: Seq<usize>, item: usize) -> bool {
    exists|list: &[usize]|
        list@ == items && #[trigger] call_ensures(random_item::<usize>, (list,), Some(&item))
}

/// Whether a number is one that was drawn.
pub closed spec fn is_random_number(number: u32) -> bool {
    call_ensures(random_u32, (), number)
}

/// An index drawn from a distribution.
pub(crate) fn draw_index(distribution: &WeightedDistribution) -> (index: usize)
    ensures
        is_sampled(distribution@, index),
        index < distribution@.len(),
        distribution@[index as int] > 0,
{
    sample_index(distribution)
}

/// An item drawn from a list.
pub(crate) fn draw_item(items: &Vec<usize>) -> (item: Option<usize>)
    ensures
        item is None <==> items@.len() == 0,
        item matches Some(x) ==> is_drawn_from(items@, x) && items@.contains(x),
{
    match random_item(items.as_slice()) {
        Some(item) => Some(*item),
        None => None,
    }
}

/// A number drawn.
pub(crate) fn draw_number() -> (number: u32)
    ensures
        is_random_number(number),
{
    random_u32()
}

/// What a distribution hands out comes from a draw with its weights.
proof fn law_sampled_index_comes_from_a_draw(weights: Seq<u64>, index: usize)
    requires
        is_sampled(weights, index),
    ensures
        exists|distribution: WeightedDistribution|
            distribution@ == weights && #[trigger] call_ensures(
                sample_index,
                (&distribution,),
                index,
            ),
{
}

/// What a distribution hands out has weight.
pub proof fn law_sampled_index_has_weight(weights: Seq<u64>, index: usize)
    requires
        is_sampled(weights, index),
    ensures
        index < weights.len(),
        weights[index as int] > 0,
{
    law_sampled_index_comes_from_a_draw(weights, index);
}

/// What is drawn from a list comes from a draw from all of it.
proof fn law_drawn_item_comes_from_a_draw(items: Seq<usize>, item: usize)
    requires
        is_drawn_from(items, item),
    ensures
        exists|list: &[usize]|
            list@ == items && #[trigger] call_ensures(random_item::<usize>, (list,), Some(&item)),
{
}

/// What is drawn from a list is one of it.
pub proof fn law_drawn_item_is_one_of_the_list(items: Seq<usize>, item: usize)
    requires
        is_drawn_from(items, item),
    ensures
        items.contains(item),
{
    law_drawn_item_comes_from_a_draw(items, item);
}

/// A number that is drawn comes from a draw.
proof fn law_random_number_comes_from_a_draw(number: u32)
    requires
        is_random_number(number),
    ensures
        call_ensures(random_u32, (), number),
{
}

/// Sums of weights add up: of one weight the sum is that weight, and of two lists one
/// after the other it is the sum of theirs.
pub proof fn law_total_weight_adds_up(weight: u64, first: Seq<u64>, second: Seq<u64>)
    ensures
        total_weight(seq![weight]) == weight,
        total_weight(first + second) == total_weight(first) + total_weight(second),
    decreases second.len(),
{
    reveal_with_fuel(total_weight, 2);
    assert(seq![weight].drop_last() =~= Seq::<u64>::empty());
    if second.len() == 0 {
        assert(first + second =~= first);
    } else {
        assert((first + second).drop_last() =~= first + second.drop_last());
        law_total_weight_adds_up(weight, first, second.drop_last());
    }
}

/// The text of the URI that `http` builds from the scheme `http`, an authority,
/// and a path with its query; `None` where `http` refuses one of them.
pub uninterp spec fn http_uri(authority: Seq<char>, path_and_query: Seq<char>) -> Option<Seq<char>>;

/// A path with its query as a request line carries it: it starts with a slash
/// and has no fragment.
pub open spec fn is_origin_form(path_and_query: Seq<char>) -> bool {
    &&& path_and_query.len() > 0
    &&& path_and_query[0] == '/'
    &&& !path_and_query.contains('#')
}

/// What may stand in a path: a visible ASCII character other than `#`, `<`, `>`,
/// `?` and the backtick, or any character beyond ASCII.
pub open spec fn is_path_char(c: char) -> bool {
    ||| '!' <= c <= '~' && c != '#' && c != '<' && c != '>' && c != '?' && c != '`'
    ||| c as u32 >= 0x80
}

/// What may stand in a query: a visible ASCII character other than `"`, `#`, `<`
/// and `>`, or any character beyond ASCII.
pub open spec fn is_query_char(c: char) -> bool {
    ||| '!' <= c <= '~' && c != '"' && c != '#' && c != '<' && c != '>'
    ||| c as u32 >= 0x80
}

/// Whether a text is short enough for a URI, in bytes. A text in ASCII has as many
/// bytes as characters.
pub open spec fn fits_in_uri(text: Seq<char>) -> bool {
    if is_ascii_chars(text) {
        text.len() < u16::MAX
    } else {
        encode_utf8(text).len() < u16::MAX
    }
}

/// Whether a path with its query is short enough and holds only what may stand in
/// them: the path goes up to the first question mark, and the query is the rest.
pub open spec fn is_path_and_query(text: Seq<char>) -> bool {
    &&& fits_in_uri(text)
    &&& forall|i: int|
        0 <= i < text.len() ==> if text.take(i).contains('?') {
            is_query_char(#[trigger] text[i])
        } else {
            is_path_char(text[i]) || text[i] == '?'
        }
}

/// What may stand in the name of a host.
pub open spec fn is_host_char(c: char) -> bool {
    ||| 'a' <= c <= 'z'
    ||| 'A' <= c <= 'Z'
    ||| '0' <= c <= '9'
    ||| c == '-' || c == '.' || c == '_' || c == '~'
    ||| c == '!' || c == '$' || c == '&' || c == '\'' || c == '(' || c == ')'
    ||| c == '*' || c == '+' || c == ',' || c == ';' || c == '='
}

/// A host name or an IPv4 address, with or without a port.
pub open spec fn is_named_host(authority: Seq<char>) -> bool {
    &&& authority.len() > 0
    &&& forall|i: int|
        0 <= i < authority.len() ==> is_host_char(#[trigger] authority[i]) || authority[i] == ':'
    &&& forall|i: int, j: int|
        0 <= i < j < authority.len() ==> !(#[trigger] authority[i] == ':' && #[trigger] authority[j]
            == ':')
}

/// An IPv6 address in brackets, of which `end` closes, with or without a port.
pub open spec fn is_bracketed_host(authority: Seq<char>, end: int) -> bool {
    &&& 0 < end < authority.len()
    &&& authority[0] == '['
    &&& authority[end] == ']'
    &&& forall|i: int|
        0 < i < end ==> is_host_char(#[trigger] authority[i]) || authority[i] == ':' || authority[i]
            == '%'
    &&& authority.subrange(1, end).filter(|c: char| c == ':').len() <= 8
    &&& end + 1 < authority.len() ==> authority[end + 1] == ':'
    &&& forall|i: int| end + 1 < i < authority.len() ==> is_host_char(#[trigger] authority[i])
}

/// The address of a server: a host, with or without a port.
pub open spec fn is_host_and_port(authority: Seq<char>) -> bool {
    ||| is_named_host(authority)
    ||| exists|end: int| is_bracketed_host(authority, end)
}

/// `http::uri::Builder`, with the scheme `http`, and the `Display` of the `Uri`
/// that it builds.
///
/// The text is a function of the two arguments. A path in origin form is kept
/// as it is behind the authority, query included. It is refused if it is too long
/// or holds what may not stand in it, and otherwise never at the address of a
/// server. Which other authorities are refused, and what becomes of a path in
/// another form, is left open.
#[verifier::external_body]
pub(crate) fn build_http_uri(authority: &str, path_and_query: &str) -> (uri: Option<String>)
    ensures
        match uri {
            Some(text) => http_uri(authority@, path_and_query@) == Some(text@),
            None => http_uri(authority@, path_and_query@) is None,
        },
        uri matches Some(text) ==> is_origin_form(path_and_query@) ==> text@ == "http://"@
            + authority@ + path_and_query@,
        is_origin_form(path_and_query@) && is_path_and_query(path_and_query@) && is_host_and_port(
            authority@,
        ) ==> uri is Some,
        is_origin_form(path_and_query@) && !is_path_and_query(path_and_query@) ==> uri is None,
{
    let built = http::uri::Builder::new()
        .scheme("http")
        .authority(authority)
        .path_and_query(path_and_query)
        .build();
    match built {
        Ok(uri) => Some(uri.to_string()),
        Err(_) => None,
    }
}

} // verus!
