//! The domain model: catalog entries for apps and SDKs, the column selector
//! used both as a matrix axis and as a query filter, and the store error
//! kinds surfaced by fallible operations.

use vstd::prelude::*;

verus! {

/// Why a store interaction failed.  An empty result is never an error.
#[derive(Clone, Copy, Debug, PartialEq, Eq, Structural)]
pub enum StoreError {
    /// The connection to the backing store could not be established or was
    /// lost mid-query.
    StoreUnavailable,
    /// A fetched row did not match the expected shape; surfaced immediately,
    /// never silently skipped.
    MalformedRow,
}

/// One catalog entry for a mobile application: identification, display
/// fields, and the five star-rating tallies.  A value is a read-only
/// snapshot fetched per query; the engine never mutates it.
#[derive(Debug)]
pub struct App {
    pub id: i32,
    pub name: String,
    pub company_url: String,
    pub release_date: String,
    pub genre_id: i32,
    pub artwork_large_url: String,
    pub seller_name: String,
    pub five_star_ratings: u32,
    pub four_star_ratings: u32,
    pub three_star_ratings: u32,
    pub two_star_ratings: u32,
    pub one_star_ratings: u32,
}

/// The mathematical value of an [`App`]: strings as character sequences,
/// counters as unbounded naturals.
#[verifier::ext_equal]
pub struct AppV {
    pub id: int,
    pub name: Seq<char>,
    pub company_url: Seq<char>,
    pub release_date: Seq<char>,
    pub genre_id: int,
    pub artwork_large_url: Seq<char>,
    pub seller_name: Seq<char>,
    pub five_star_ratings: nat,
    pub four_star_ratings: nat,
    pub three_star_ratings: nat,
    pub two_star_ratings: nat,
    pub one_star_ratings: nat,
}

impl AppV {
    /// How many ratings the app has received in total.
    pub open spec fn rating_count(self) -> nat {
        self.one_star_ratings + self.two_star_ratings + self.three_star_ratings
            + self.four_star_ratings + self.five_star_ratings
    }

    /// The weighted sum of the ratings; the average rating is this value
    /// divided by [`AppV::rating_count`].
    pub open spec fn rating_total(self) -> nat {
        self.one_star_ratings + 2 * self.two_star_ratings + 3 * self.three_star_ratings
            + 4 * self.four_star_ratings + 5 * self.five_star_ratings
    }
}

impl View for App {
    type V = AppV;

    open spec fn view(&self) -> AppV {
        AppV {
            id: self.id as int,
            name: self.name@,
            company_url: self.company_url@,
            release_date: self.release_date@,
            genre_id: self.genre_id as int,
            artwork_large_url: self.artwork_large_url@,
            seller_name: self.seller_name@,
            five_star_ratings: self.five_star_ratings as nat,
            four_star_ratings: self.four_star_ratings as nat,
            three_star_ratings: self.three_star_ratings as nat,
            two_star_ratings: self.two_star_ratings as nat,
            one_star_ratings: self.one_star_ratings as nat,
        }
    }
}

impl DeepView for App {
    type V = AppV;

    open spec fn deep_view(&self) -> AppV {
        self.view()
    }
}

impl Clone for App {
    fn clone(&self) -> (res: Self)
        ensures
            res@ == self@,
    {
        App {
            id: self.id,
            name: self.name.clone(),
            company_url: self.company_url.clone(),
            release_date: self.release_date.clone(),
            genre_id: self.genre_id,
            artwork_large_url: self.artwork_large_url.clone(),
            seller_name: self.seller_name.clone(),
            five_star_ratings: self.five_star_ratings,
            four_star_ratings: self.four_star_ratings,
            three_star_ratings: self.three_star_ratings,
            two_star_ratings: self.two_star_ratings,
            one_star_ratings: self.one_star_ratings,
        }
    }
}

impl App {
    /// The number of ratings the app has received: the sum of the five
    /// star counters.
    pub fn rating_count(&self) -> (r: u64)
        ensures
            r == self@.rating_count(),
    {
        self.one_star_ratings as u64 + self.two_star_ratings as u64
            + self.three_star_ratings as u64 + self.four_star_ratings as u64
            + self.five_star_ratings as u64
    }

    /// The average rating as an exact fraction `(numerator, denominator)`:
    /// the weighted rating sum over the rating count.  Returns `None` when
    /// the app has no ratings at all, so a caller can never mistake the
    /// zero-denominator case for a rating value.
    pub fn rating(&self) -> (r: Option<(u64, u64)>)
        ensures
            r is Some <==> self@.rating_count() > 0,
            (r matches Some(p) ==> p.0 == self@.rating_total() && p.1 == self@.rating_count()),
    {
        let count = self.rating_count();
        if count == 0 {
            None
        } else {
            let total = self.one_star_ratings as u64 + 2 * (self.two_star_ratings as u64)
                + 3 * (self.three_star_ratings as u64) + 4 * (self.four_star_ratings as u64)
                + 5 * (self.five_star_ratings as u64);
            Some((total, count))
        }
    }
}

/// One catalog entry for a software development kit.  Equality is by full
/// value, so two fetches of the same row are interchangeable as keys.
#[derive(Debug, Eq, Hash)]
pub struct Sdk {
    pub id: i32,
    pub name: String,
    pub slug: String,
    pub url: String,
    pub description: String,
}

/// The mathematical value of an [`Sdk`].
#[verifier::ext_equal]
pub struct SdkV {
    pub id: int,
    pub name: Seq<char>,
    pub slug: Seq<char>,
    pub url: Seq<char>,
    pub description: Seq<char>,
}

impl View for Sdk {
    type V = SdkV;

    open spec fn view(&self) -> SdkV {
        SdkV {
            id: self.id as int,
            name: self.name@,
            slug: self.slug@,
            url: self.url@,
            description: self.description@,
        }
    }
}

impl DeepView for Sdk {
    type V = SdkV;

    open spec fn deep_view(&self) -> SdkV {
        self.view()
    }
}

impl Clone for Sdk {
    fn clone(&self) -> (res: Self)
        ensures
            res@ == self@,
    {
        Sdk {
            id: self.id,
            name: self.name.clone(),
            slug: self.slug.clone(),
            url: self.url.clone(),
            description: self.description.clone(),
        }
    }
}

impl PartialEq for Sdk {
    fn eq(&self, other: &Sdk) -> (r: bool) {
        self.id == other.id && self.name == other.name && self.slug == other.slug
            && self.url == other.url && self.description == other.description
    }
}

impl vstd::std_specs::cmp::PartialEqSpecImpl for Sdk {
    open spec fn obeys_eq_spec() -> bool {
        true
    }

    open spec fn eq_spec(&self, other: &Sdk) -> bool {
        self@ == other@
    }
}

/// A column selector: match exactly one SDK, or match any SDK at all.  The
/// two meanings are kept as a closed sum so that "no SDK" and "any SDK" can
/// never collapse into the same path.
#[derive(Debug, Eq, Hash)]
pub enum Column {
    /// Match usage rows whose SDK equals the carried catalog entry.
    Sdk(Sdk),
    /// Match every usage row, whatever its SDK: the wildcard selector.
    All,
}

/// The mathematical value of a [`Column`].
#[verifier::ext_equal]
pub enum ColumnV {
    Sdk(SdkV),
    All,
}

impl View for Column {
    type V = ColumnV;

    open spec fn view(&self) -> ColumnV {
        match self {
            Column::Sdk(s) => ColumnV::Sdk(s@),
            Column::All => ColumnV::All,
        }
    }
}

impl DeepView for Column {
    type V = ColumnV;

    open spec fn deep_view(&self) -> ColumnV {
        self.view()
    }
}

impl Clone for Column {
    fn clone(&self) -> (res: Self)
        ensures
            res@ == self@,
    {
        match self {
            Column::Sdk(s) => Column::Sdk(s.clone()),
            Column::All => Column::All,
        }
    }
}

impl PartialEq for Column {
    fn eq(&self, other: &Column) -> (r: bool) {
        match (self, other) {
            (Column::Sdk(a), Column::Sdk(b)) => a == b,
            (Column::All, Column::All) => true,
            _ => false,
        }
    }
}

impl vstd::std_specs::cmp::PartialEqSpecImpl for Column {
    open spec fn obeys_eq_spec() -> bool {
        true
    }

    open spec fn eq_spec(&self, other: &Column) -> bool {
        self@ == other@
    }
}

} // verus!
