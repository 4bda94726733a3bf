//! Random names.
use vstd::prelude::*;
use rand::Rng;

verus! {

/// Whether every character of `s` is a lowercase ASCII letter.
pub open spec fn all_lowercase_letters(s: Seq<char>) -> bool {
    forall|i: int| 0 <= i < s.len() ==> 'a' <= #[trigger] s[i] <= 'z'
}

/// A byte drawn at random from `lo..=hi` (`Rng::gen_range` on the thread's
/// generator, which panics only on an empty range); any byte of the range
/// may come out.
#[verifier::external_body]
fn random_byte_between(lo: u8, hi: u8) -> (b: u8)
    requires
        lo <= hi,
    ensures
        lo <= b <= hi,
{
    rand::thread_rng().gen_range(lo..=hi)
}

/// A position drawn at random below `len` (`Rng::gen_range(0..len)` on the
/// thread's generator); any position below `len` may come out.
#[verifier::external_body]
pub(crate) fn random_index(len: usize) -> (i: usize)
    requires
        len > 0,
    ensures
        i < len,
{
    rand::thread_rng().gen_range(0..len)
}

/// Appends `c` to `s` (`String::push`).
#[verifier::external_body]
pub(crate) fn push_char(s: &mut String, c: char)
    ensures
        final(s)@ == old(s)@.push(c),
{
    s.push(c)
}

/// A string of `max` lowercase letters drawn at random.
pub fn random_string(max: u16) -> (name: String)
    ensures
        name@.len() == max,
        all_lowercase_letters(name@),
{
    let mut name = String::new();
    let mut i: u16 = 0;
    while i < max
        invariant
            i <= max,
            name@.len() == i,
            all_lowercase_letters(name@),
        decreases max - i,
    {
        let b = random_byte_between(97, 122); // `b'a'..=b'z'`
        push_char(&mut name, b as char);
        i = i + 1;
    }
    name
}

} // verus!
