//! The terms of a collection: who its authority is and how payments are
//! split. They are fixed when the collection is made.

use vstd::prelude::*;
use crate::address::Address;
use crate::error::ErrorCode;
use crate::split::{allocated, ArtistPercentage, ONE_HUNDRED_PERCENT};

verus! {

/// What a collection's terms say.
pub struct Terms {
    pub collection_authority: Address,
    pub artist_mint_percentage: u64,
    pub label_mint_percentage: u64,
    pub artist_secondary_percentage: u64,
    pub label_secondary_percentage: u64,
    pub artist_splits: Seq<ArtistPercentage>,
}

/// Whether the percentages can be the terms of a collection: the mint pair,
/// the secondary pair and the artists' shares each add up to 100%.
pub open spec fn adds_up(
    artist_mint_percentage: u64,
    label_mint_percentage: u64,
    artist_secondary_percentage: u64,
    label_secondary_percentage: u64,
    artist_splits: Seq<ArtistPercentage>,
) -> bool {
    &&& artist_mint_percentage + label_mint_percentage == 10000
    &&& artist_secondary_percentage + label_secondary_percentage == 10000
    &&& allocated(artist_splits) == 10000
}

/// Where the artists' shares add up, it is the two pairs that decide whether
/// the percentages can be the terms of a collection.
pub proof fn lemma_pairs_decide(
    artist_mint_percentage: u64,
    label_mint_percentage: u64,
    artist_secondary_percentage: u64,
    label_secondary_percentage: u64,
    artist_splits: Seq<ArtistPercentage>,
)
    requires
        allocated(artist_splits) == 10000,
    ensures
        adds_up(
            artist_mint_percentage,
            label_mint_percentage,
            artist_secondary_percentage,
            label_secondary_percentage,
            artist_splits,
        ) <==> artist_mint_percentage + label_mint_percentage == 10000
            && artist_secondary_percentage + label_secondary_percentage == 10000,
{
}

impl Terms {
    /// Whether these terms add up.
    pub open spec fn valid(self) -> bool {
        adds_up(
            self.artist_mint_percentage,
            self.label_mint_percentage,
            self.artist_secondary_percentage,
            self.label_secondary_percentage,
            self.artist_splits,
        )
    }
}

/// The terms of a collection. A value of this type always holds terms that
/// add up: percentages are in basis points, 3000 for 30%.
#[derive(Debug, PartialEq, Eq)]
pub struct CollectionConfiguration {
    collection_authority: Address,
    artist_mint_percentage: u64,
    label_mint_percentage: u64,
    artist_secondary_percentage: u64,
    label_secondary_percentage: u64,
    artist_splits: Vec<ArtistPercentage>,
}

impl View for CollectionConfiguration {
    type V = Terms;

    closed spec fn view(&self) -> Terms {
        Terms {
            collection_authority: self.collection_authority,
            artist_mint_percentage: self.artist_mint_percentage,
            label_mint_percentage: self.label_mint_percentage,
            artist_secondary_percentage: self.artist_secondary_percentage,
            label_secondary_percentage: self.label_secondary_percentage,
            artist_splits: self.artist_splits@,
        }
    }
}

/// Whether two percentages are 100% together.
fn is_whole(first: u64, second: u64) -> (r: bool)
    ensures
        r == (first + second == 10000),
{
    first <= ONE_HUNDRED_PERCENT && second == ONE_HUNDRED_PERCENT - first
}

/// Whether the shares of `artist_splits` are 100% together.
fn splits_are_whole(artist_splits: &Vec<ArtistPercentage>) -> (r: bool)
    ensures
        r == (allocated(artist_splits@) == 10000),
{
    let m = artist_splits.len();
    let mut sum: u64 = 0;
    let mut j: usize = 0;
    assert(artist_splits@.take(0) =~= Seq::<ArtistPercentage>::empty());
    while j < m
        invariant
            j <= m,
            m == artist_splits@.len(),
            sum == allocated(artist_splits@.take(j as int)),
            sum <= 10000,
        decreases m - j,
    {
        let bp = artist_splits[j].allocated_percentage;
        assert(artist_splits@.take(j + 1).drop_last() =~= artist_splits@.take(j as int));
        if bp > ONE_HUNDRED_PERCENT - sum {
            proof {
                lemma_allocated_grows(artist_splits@, j + 1);
            }
            return false;
        }
        sum = sum + bp;
        j = j + 1;
    }
    assert(artist_splits@.take(m as int) =~= artist_splits@);
    sum == ONE_HUNDRED_PERCENT
}

/// The shares allocated only grow as splits are added.
proof fn lemma_allocated_grows(splits: Seq<ArtistPercentage>, k: int)
    requires
        0 <= k <= splits.len(),
    ensures
        allocated(splits.take(k)) <= allocated(splits),
    decreases splits.len() - k,
{
    if k == splits.len() {
        assert(splits.take(k) =~= splits);
    } else {
        lemma_allocated_grows(splits, k + 1);
        assert(splits.take(k + 1).drop_last() =~= splits.take(k));
    }
}

impl CollectionConfiguration {
    #[verifier::type_invariant]
    spec fn terms_add_up(self) -> bool {
        self@.valid()
    }

    /// Makes the terms of a collection, if they add up.
    pub fn new(
        collection_authority: Address,
        artist_mint_percentage: u64,
        label_mint_percentage: u64,
        artist_secondary_percentage: u64,
        label_secondary_percentage: u64,
        artist_splits: Vec<ArtistPercentage>,
    ) -> (r: Result<CollectionConfiguration, ErrorCode>)
        ensures
            match r {
                Ok(config) => config@ == (Terms {
                    collection_authority,
                    artist_mint_percentage,
                    label_mint_percentage,
                    artist_secondary_percentage,
                    label_secondary_percentage,
                    artist_splits: artist_splits@,
                }) && config@.valid(),
                Err(e) => e == ErrorCode::InvalidCollectionConfig && !adds_up(
                    artist_mint_percentage,
                    label_mint_percentage,
                    artist_secondary_percentage,
                    label_secondary_percentage,
                    artist_splits@,
                ),
            },
    {
        if !is_whole(artist_mint_percentage, label_mint_percentage) || !is_whole(
            artist_secondary_percentage,
            label_secondary_percentage,
        ) {
            return Err(ErrorCode::InvalidCollectionConfig);
        }
        if !splits_are_whole(&artist_splits) {
            return Err(ErrorCode::InvalidCollectionConfig);
        }
        Ok(
            CollectionConfiguration {
                collection_authority,
                artist_mint_percentage,
                label_mint_percentage,
                artist_secondary_percentage,
                label_secondary_percentage,
                artist_splits,
            },
        )
    }

    /// Who may register NFTs.
    pub fn collection_authority(&self) -> (a: Address)
        ensures
            a == self@.collection_authority,
            self@.valid(),
    {
        proof {
            use_type_invariant(self);
        }
        self.collection_authority
    }

    /// The artists' part of what a mint pays, in basis points.
    pub fn artist_mint_percentage(&self) -> (bp: u64)
        ensures
            bp == self@.artist_mint_percentage,
            self@.valid(),
    {
        proof {
            use_type_invariant(self);
        }
        self.artist_mint_percentage
    }

    /// The label's part of what a mint pays, in basis points.
    pub fn label_mint_percentage(&self) -> (bp: u64)
        ensures
            bp == self@.label_mint_percentage,
            self@.valid(),
    {
        proof {
            use_type_invariant(self);
        }
        self.label_mint_percentage
    }

    /// The artists' part of resale and licensing income, in basis points.
    pub fn artist_secondary_percentage(&self) -> (bp: u64)
        ensures
            bp == self@.artist_secondary_percentage,
            self@.valid(),
    {
        proof {
            use_type_invariant(self);
        }
        self.artist_secondary_percentage
    }

    /// The label's part of resale and licensing income, in basis points.
    pub fn label_secondary_percentage(&self) -> (bp: u64)
        ensures
            bp == self@.label_secondary_percentage,
            self@.valid(),
    {
        proof {
            use_type_invariant(self);
        }
        self.label_secondary_percentage
    }

    /// How the artists' part is split among them.
    pub fn artist_splits(&self) -> (splits: &Vec<ArtistPercentage>)
        ensures
            splits@ == self@.artist_splits,
            self@.valid(),
    {
        proof {
            use_type_invariant(self);
        }
        &self.artist_splits
    }
}

} // verus!
