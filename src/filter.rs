use vstd::prelude::*;

verus! {

/// The sort order asked of asset queries.
#[derive(Debug, Clone, Copy, PartialEq, Eq, Structural)]
pub struct AssetSorting {
    pub sort_by: AssetSortBy,
    pub sort_direction: AssetSortDirection,
}

/// The key that asset queries sort on.
#[derive(Debug, Clone, Copy, PartialEq, Eq, Structural)]
pub enum AssetSortBy {
    Created,
    Updated,
    RecentAction,
}

/// Ascending or descending order.
#[derive(Debug, Clone, Copy, PartialEq, Eq, Structural)]
pub enum AssetSortDirection {
    Asc,
    Desc,
}

/// The key that offer queries sort on.
#[derive(Debug, Clone, Copy, PartialEq, Eq, Structural)]
pub enum OfferSorting {
    Created,
    Updated,
    Price,
}

/// The key that listing queries sort on.
#[derive(Debug, Clone, Copy, PartialEq, Eq, Structural)]
pub enum ListingSorting {
    Created,
    Updated,
    Price,
    NumberOfOffers,
}

} // verus!
