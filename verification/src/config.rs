//! Static configuration of the pipeline: which providers host which remote
//! collections and decks, and under which owner label each one is shown.

use vstd::prelude::*;

verus! {

/// The closed set of supported collection-hosting providers.
#[derive(Clone, Copy, PartialEq, Eq, Structural, Debug)]
pub enum MTGCollectionProvider {
    Archidekt,
    Moxfield,
}

impl MTGCollectionProvider {
    /// The lower-case name under which the provider is reported.
    pub open spec fn spec_label(self) -> Seq<char> {
        match self {
            MTGCollectionProvider::Archidekt => "archidekt"@,
            MTGCollectionProvider::Moxfield => "moxfield"@,
        }
    }

    pub fn label(&self) -> (r: String)
        ensures
            r@ == self.spec_label(),
    {
        match self {
            MTGCollectionProvider::Archidekt => String::from_str("archidekt"),
            MTGCollectionProvider::Moxfield => String::from_str("moxfield"),
        }
    }

    /// Whether the provider enforces a request-rate ceiling, so that calls to
    /// it must run on the paced sequential path rather than concurrently.
    pub open spec fn spec_is_rate_limited(self) -> bool {
        match self {
            MTGCollectionProvider::Archidekt => false,
            MTGCollectionProvider::Moxfield => true,
        }
    }

    pub fn is_rate_limited(&self) -> (r: bool)
        ensures
            r == self.spec_is_rate_limited(),
    {
        match self {
            MTGCollectionProvider::Archidekt => false,
            MTGCollectionProvider::Moxfield => true,
        }
    }
}

/// Minimum delay, in seconds, between successive calls to a rate-sensitive
/// provider, measured from the end of one call to the start of the next.
pub const INTER_REQUEST_DELAY_SECS: u64 = 1;

/// One configured collection source: a provider, the owning user's label and
/// the provider-side collection id. Identified by its position in the
/// configured sequence.
pub struct MTGCollectionConfig {
    pub provider: MTGCollectionProvider,
    pub discord_user: String,
    pub provider_collection: String,
}

/// One configured community deck: a provider, the owning user's label and the
/// provider-side deck id.
pub struct MTGCommunityDeck {
    pub provider: MTGCollectionProvider,
    pub discord_user: String,
    pub provider_deck: String,
}

/// The pipeline's whole static configuration: ordered sources and decks.
pub struct MTGConfig {
    pub collections: Vec<MTGCollectionConfig>,
    pub community_decks: Vec<MTGCommunityDeck>,
}

/// Configuration shared outside the card pipeline.
pub struct CommonConfig {
    pub general_channel_id: u64,
}

} // verus!
