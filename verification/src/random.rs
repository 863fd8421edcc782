//! Short random identifiers drawn from an alphabet without look-alike
//! characters.

use rand::Rng;
use vstd::prelude::*;
use vstd::string::*;
use crate::text::push_char;

verus! {

/// The number of characters in an identifier.
pub const ID_LENGTH: usize = 17;

/// The number of characters in the alphabet.
pub const ALPHABET_SIZE: usize = 55;

/// The alphabet of identifiers: digits and letters that cannot be mistaken
/// for one another.
pub open spec fn unmistakable_chars() -> Seq<char> {
    "23456789ABCDEFGHJKLMNPQRSTWXYZabcdefghijkmnopqrstuvwxyz"@
}

/// Every character of `s` belongs to the alphabet.
pub open spec fn is_unmistakable(s: Seq<char>) -> bool {
    forall|i: int| 0 <= i < s.len() ==> unmistakable_chars().contains(#[trigger] s[i])
}

/// `s` has the shape of an identifier.
pub open spec fn is_id(s: Seq<char>) -> bool {
    s.len() == ID_LENGTH && is_unmistakable(s)
}

/// `rand::OsRng`, the handle on the operating system's random source. What
/// it holds is of no concern here.
#[verifier::external_type_specification]
#[verifier::external_body]
pub struct ExOsRng(rand::OsRng);

/// `rand::OsRng::new`: a handle on the operating system's random source, or
/// nothing when the system offers none. Nothing is claimed about when it
/// succeeds.
#[verifier::external_body]
fn open_os_rng() -> Option<rand::OsRng> {
    rand::OsRng::new().ok()
}

/// `rand::Rng::gen_range` from zero: some number below `bound`. The call
/// panics on an empty range, which `requires` rules out; which number comes
/// back is up to the random source.
#[verifier::external_body]
fn pick_below(rng: &mut rand::OsRng, bound: usize) -> (r: usize)
    requires
        bound > 0,
    ensures
        r < bound,
{
    rng.gen_range(0, bound)
}

/// The character at `index` in the alphabet.
pub fn letter(index: usize) -> (c: char)
    requires
        index < ALPHABET_SIZE,
    ensures
        c == unmistakable_chars()[index as int],
        unmistakable_chars().contains(c),
{
    let chars = "23456789ABCDEFGHJKLMNPQRSTWXYZabcdefghijkmnopqrstuvwxyz";
    proof {
        reveal_strlit("23456789ABCDEFGHJKLMNPQRSTWXYZabcdefghijkmnopqrstuvwxyz");
    }
    chars.get_char(index)
}

/// A generator of random identifiers.
pub struct Random {
    rng: rand::OsRng,
}

impl Random {
    /// Opens the operating system's random source; `None` when it is not
    /// available.
    pub fn new() -> Option<Random> {
        Random::from_source(open_os_rng())
    }

    /// The random source that the generator draws from.
    pub closed spec fn source(&self) -> rand::OsRng {
        self.rng
    }

    /// A generator that draws from `source`; `None` where there is no
    /// source to draw from.
    pub fn from_source(source: Option<rand::OsRng>) -> (generator: Option<Random>)
        ensures
            generator is Some <==> source is Some,
            generator is Some ==> generator->0.source() == source->0,
    {
        match source {
            Some(rng) => Some(Random { rng: rng }),
            None => None,
        }
    }

    /// A fresh identifier.
    pub fn id(&mut self) -> (id: String)
        ensures
            is_id(id@),
    {
        self.random_string(ID_LENGTH)
    }

    /// A string of `char_count` characters, each drawn from the alphabet.
    pub fn random_string(&mut self, char_count: usize) -> (s: String)
        ensures
            s@.len() == char_count,
            is_unmistakable(s@),
    {
        let mut rand_str = String::new();
        let mut n: usize = 0;
        while n < char_count
            invariant
                n <= char_count,
                rand_str@.len() == n,
                is_unmistakable(rand_str@),
            decreases char_count - n,
        {
            let next: usize = pick_below(&mut self.rng, ALPHABET_SIZE);
            push_char(&mut rand_str, letter(next));
            n = n + 1;
        }
        rand_str
    }
}

} // verus!
