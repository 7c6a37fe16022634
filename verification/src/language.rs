//! The localization seam: a resource key per user-facing template, resolved
//! by language. Only the empty-listing placeholders live here so far.

use vstd::prelude::*;

verus! {

/// A text resource the views ask for.
pub enum Res {
    /// An empty group listing for an eater.
    EatGroupsEmpty,
    /// An empty restaurant listing for an eater.
    EatRestEmpty,
    /// An empty open-now listing.
    EatRestNowEmpty,
    /// An empty dish listing.
    EatDishEmpty,
    /// An empty group listing for a caterer.
    CatGroupsEmpty,
}

/// Resolves a resource in the given language; every placeholder reads the
/// same for now.
pub fn t(_lang: &str, resource: Res) -> (r: String)
    ensures
        r@ == "   пусто :("@,
{
    match resource {
        Res::EatGroupsEmpty => String::from_str("   пусто :("),
        Res::EatRestEmpty => String::from_str("   пусто :("),
        Res::EatRestNowEmpty => String::from_str("   пусто :("),
        Res::EatDishEmpty => String::from_str("   пусто :("),
        Res::CatGroupsEmpty => String::from_str("   пусто :("),
    }
}

} // verus!
