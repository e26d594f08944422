//! Random draws. These are the only functions of the crate whose results
//! differ from call to call; each states what holds of every outcome.

use rand::Rng;
use rand::distributions::Alphanumeric;
use rand::seq::IteratorRandom;
use vstd::prelude::*;

verus! {

/// An ASCII letter or digit.
pub open spec fn is_alphanumeric(c: char) -> bool {
    ('0' <= c && c <= '9') || ('a' <= c && c <= 'z') || ('A' <= c && c <= 'Z')
}

/// A lower-case ASCII letter or a digit.
pub open spec fn is_lower_alphanumeric(c: char) -> bool {
    ('0' <= c && c <= '9') || ('a' <= c && c <= 'z')
}

/// What `to_ascii_lowercase` makes of one character: `A` to `Z` become `a` to
/// `z`, everything else stays.
pub open spec fn ascii_lower(c: char) -> char {
    if 'A' <= c && c <= 'Z' {
        ((c as u8) + 32) as char
    } else {
        c
    }
}

/// `size` characters drawn from `rand`'s `Alphanumeric` distribution with the
/// thread's generator. Trusted: `sample_iter` never ends, so `take(size)`
/// yields exactly `size` items, and `Alphanumeric` only ever returns one of
/// the 62 ASCII letters and digits.
#[verifier::external_body]
pub fn get_random_hash(size: usize) -> (r: String)
    ensures
        r@.len() == size,
        forall|i: int| 0 <= i < r@.len() ==> is_alphanumeric(#[trigger] r@[i]),
{
    rand::thread_rng().sample_iter(&Alphanumeric).take(size).map(char::from).collect()
}

/// `str::to_ascii_lowercase`. Trusted: std documents that the copy maps `A`
/// to `Z` onto `a` to `z` and leaves every other character as it is.
#[verifier::external_body]
pub(crate) fn to_ascii_lowercase(s: &String) -> (r: String)
    ensures
        r@.len() == s@.len(),
        forall|i: int| 0 <= i < s@.len() ==> #[trigger] r@[i] == ascii_lower(s@[i]),
{
    s.to_ascii_lowercase()
}

/// One index below `n`, drawn uniformly by `IteratorRandom::choose` over
/// `0..n`. Trusted: `choose` returns `None` if and only if the iterator is
/// empty, and otherwise one of the items it yields.
#[verifier::external_body]
pub(crate) fn choose_index(n: usize) -> (r: Option<usize>)
    ensures
        r is None <==> n == 0,
        r matches Some(i) ==> i < n,
{
    (0..n).choose(&mut rand::thread_rng())
}

/// A random suffix for an instance name: `size` lower-case letters and digits.
pub fn random_suffix(size: usize) -> (r: String)
    ensures
        r@.len() == size,
        forall|i: int| 0 <= i < r@.len() ==> is_lower_alphanumeric(#[trigger] r@[i]),
{
    let raw = get_random_hash(size);
    let lower = to_ascii_lowercase(&raw);
    proof {
        assert forall|i: int| 0 <= i < lower@.len() implies is_lower_alphanumeric(
            #[trigger] lower@[i],
        ) by {
            assert(is_alphanumeric(raw@[i]));
            assert(lower@[i] == ascii_lower(raw@[i]));
            lemma_lower_of_alphanumeric(raw@[i]);
        }
    }
    lower
}

proof fn lemma_lower_of_alphanumeric(c: char)
    requires
        is_alphanumeric(c),
    ensures
        is_lower_alphanumeric(ascii_lower(c)),
{
    if 'A' <= c && c <= 'Z' {
        let b = c as u8;
        assert(65 <= b <= 90);
        let l = (b + 32) as u8;
        assert(97 <= l <= 122);
        assert((l as char) as u8 == l);
    }
}

} // verus!
