//! Tells the networks apart by the identifier of a chain.

use vstd::prelude::*;
use vstd::string::*;

verus! {

/// Whether `id` begins with `prefix`.
pub fn starts_with(id: &str, prefix: &str) -> (r: bool)
    ensures
        r == prefix@.is_prefix_of(id@),
{
    let n = prefix.unicode_len();
    if id.unicode_len() < n {
        return false;
    }
    let mut i: usize = 0;
    while i < n
        invariant
            0 <= i <= n,
            n == prefix@.len(),
            n <= id@.len(),
            forall|j: int| 0 <= j < i ==> id@[j] == prefix@[j],
        decreases n - i,
    {
        if id.get_char(i) != prefix.get_char(i) {
            assert(id@.subrange(0, n as int)[i as int] != prefix@[i as int]);
            return false;
        }
        i = i + 1;
    }
    assert(prefix@ =~= id@.subrange(0, n as int));
    true
}

/// Tells which network a chain belongs to.
pub trait IdentifyVariant {
    /// The identifier of the chain.
    spec fn chain_id(&self) -> Seq<char>;

    /// Whether the chain belongs to the `Laminar` network.
    fn is_laminar(&self) -> (r: bool)
        ensures
            r == "lami"@.is_prefix_of(self.chain_id()),
    ;

    /// Whether the chain belongs to the `Reynolds` network.
    fn is_reynolds(&self) -> (r: bool)
        ensures
            r == "rey"@.is_prefix_of(self.chain_id()),
    ;

    /// Whether the chain belongs to the `Turbulence` network.
    fn is_turbulence(&self) -> (r: bool)
        ensures
            r == "tur"@.is_prefix_of(self.chain_id()),
    ;
}

/// A chain identifier tells its own network.
impl IdentifyVariant for String {
    open spec fn chain_id(&self) -> Seq<char> {
        self@
    }

    fn is_laminar(&self) -> (r: bool) {
        starts_with(self.as_str(), "lami")
    }

    fn is_reynolds(&self) -> (r: bool) {
        starts_with(self.as_str(), "rey")
    }

    fn is_turbulence(&self) -> (r: bool) {
        starts_with(self.as_str(), "tur")
    }
}

} // verus!
