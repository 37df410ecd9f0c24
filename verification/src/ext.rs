use vstd::prelude::*;
use fake::Fake;

verus! {

/// Relies on std's `String: FromIterator<char>`: collecting characters
/// yields the string of exactly those characters, in order.
#[verifier::external_body]
pub(crate) fn chars_to_string(v: Vec<char>) -> (r: String)
    ensures
        r@ == v@,
{
    v.into_iter().collect()
}

/// Relies on std's `char::from_u32`: it returns `Some` exactly for Unicode
/// scalar values (below the surrogate range or above it, up to 0x10FFFF),
/// and the character returned has that code point.
#[verifier::external_body]
pub(crate) fn char_from_u32(v: u32) -> (r: Option<char>)
    ensures
        r == (if v < 0xD800 || (0xE000 <= v && v < 0x110000) {
            Some(v as char)
        } else {
            None::<char>
        }),
{
    char::from_u32(v)
}

/// Relies on `uuid::Uuid::new_v4` and uuid's hyphenated `Display` form:
/// a version-4 identifier prints as 36 characters. The value is random,
/// so nothing more is promised of it.
#[verifier::external_body]
pub fn new_token() -> (r: String)
    ensures
        r@.len() == 36,
{
    uuid::Uuid::new_v4().to_string()
}

/// Relies on `uuid::Uuid::new_v4` and `Uuid::as_u64_pair`. The identifier
/// is random, so nothing is promised of the value.
#[verifier::external_body]
pub fn new_numeric_id() -> u64 {
    uuid::Uuid::new_v4().as_u64_pair().0
}

/// Relies on `fake::faker::address::en::CityName`: a generated city name.
/// The value is random, so nothing is promised of it.
#[verifier::external_body]
pub fn fake_city() -> String {
    fake::faker::address::en::CityName().fake()
}

/// Relies on `rand::Rng::gen_range` over `0..n`: the result lies below `n`.
/// The empty range, on which it panics, is excluded by the precondition.
#[verifier::external_body]
pub(crate) fn random_below(n: usize) -> (r: usize)
    requires
        n > 0,
    ensures
        r < n,
{
    rand::Rng::gen_range(&mut rand::thread_rng(), 0..n)
}

} // verus!
