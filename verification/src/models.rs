//! Data model of the collection-search pipeline: raw per-source card records,
//! consolidated per-card display data, deck metadata, and the bounded output
//! message handed to the delivery layer.

use vstd::prelude::*;

verus! {

/// Longest card name the command surface accepts.
pub const CARD_NAME_MAX_LEN: u16 = 128;

/// Hard ceiling on the length (in characters) of one embed description body.
pub const EMBED_DESCRIPTION_MAX_LEN: u16 = 4096;

/// Most rich display units one message may carry.
pub const EMBED_MAX_COUNT: usize = 10;

/// One raw match returned by a provider for a single owner's collection.
pub struct SearchResultCard {
    pub name: String,
    pub set: String,
    pub cn: String,
    pub quantity: i64,
    pub owner: String,
    pub ck_price: String,
}

/// Mathematical image of a `SearchResultCard`.
pub struct CardRec {
    pub name: Seq<char>,
    pub set: Seq<char>,
    pub cn: Seq<char>,
    pub quantity: int,
    pub owner: Seq<char>,
    pub ck_price: Seq<char>,
}

impl View for SearchResultCard {
    type V = CardRec;

    open spec fn view(&self) -> CardRec {
        CardRec {
            name: self.name@,
            set: self.set@,
            cn: self.cn@,
            quantity: self.quantity as int,
            owner: self.owner@,
            ck_price: self.ck_price@,
        }
    }
}

impl DeepView for SearchResultCard {
    type V = CardRec;

    open spec fn deep_view(&self) -> CardRec {
        self.view()
    }
}

/// One consolidated card, ready to be shown: all owners of one printing with
/// their summed quantities (already rendered as decimal strings).
pub struct SearchResultEmbed {
    pub title: String,
    pub name: String,
    pub set: String,
    pub cn: String,
    pub owners: Vec<String>,
    pub quantities: Vec<String>,
    pub ck_price: String,
}

/// Mathematical image of a `SearchResultEmbed`.
pub struct EmbedRec {
    pub title: Seq<char>,
    pub name: Seq<char>,
    pub set: Seq<char>,
    pub cn: Seq<char>,
    pub owners: Seq<Seq<char>>,
    pub quantities: Seq<Seq<char>>,
    pub ck_price: Seq<char>,
}

impl View for SearchResultEmbed {
    type V = EmbedRec;

    open spec fn view(&self) -> EmbedRec {
        EmbedRec {
            title: self.title@,
            name: self.name@,
            set: self.set@,
            cn: self.cn@,
            owners: self.owners.deep_view(),
            quantities: self.quantities.deep_view(),
            ck_price: self.ck_price@,
        }
    }
}

impl DeepView for SearchResultEmbed {
    type V = EmbedRec;

    open spec fn deep_view(&self) -> EmbedRec {
        self.view()
    }
}

/// Metadata of one successfully fetched community deck.
pub struct CommunityDeckMetadata {
    pub title: String,
    pub url: String,
    pub thumbnail: String,
    pub original_owner: String,
    pub last_updated_at: String,
}

/// Mathematical image of a `CommunityDeckMetadata`.
pub struct DeckRec {
    pub title: Seq<char>,
    pub url: Seq<char>,
    pub thumbnail: Seq<char>,
    pub original_owner: Seq<char>,
    pub last_updated_at: Seq<char>,
}

impl View for CommunityDeckMetadata {
    type V = DeckRec;

    open spec fn view(&self) -> DeckRec {
        DeckRec {
            title: self.title@,
            url: self.url@,
            thumbnail: self.thumbnail@,
            original_owner: self.original_owner@,
            last_updated_at: self.last_updated_at@,
        }
    }
}

impl DeepView for CommunityDeckMetadata {
    type V = DeckRec;

    open spec fn deep_view(&self) -> DeckRec {
        self.view()
    }
}

/// One named field of a rich display unit.
pub struct EmbedField {
    pub name: String,
    pub value: String,
    pub inline: bool,
}

/// Mathematical image of an `EmbedField`.
pub struct FieldRec {
    pub name: Seq<char>,
    pub value: Seq<char>,
    pub inline: bool,
}

impl View for EmbedField {
    type V = FieldRec;

    open spec fn view(&self) -> FieldRec {
        FieldRec { name: self.name@, value: self.value@, inline: self.inline }
    }
}

impl DeepView for EmbedField {
    type V = FieldRec;

    open spec fn deep_view(&self) -> FieldRec {
        self.view()
    }
}

/// One rich display unit: the platform-independent shape of an embed.
pub struct DisplayUnit {
    pub title: String,
    pub description: Option<String>,
    pub url: Option<String>,
    pub thumbnail: Option<String>,
    pub fields: Vec<EmbedField>,
}

/// Mathematical image of a `DisplayUnit`.
pub struct UnitRec {
    pub title: Seq<char>,
    pub description: Option<Seq<char>>,
    pub url: Option<Seq<char>>,
    pub thumbnail: Option<Seq<char>>,
    pub fields: Seq<FieldRec>,
}

impl View for DisplayUnit {
    type V = UnitRec;

    open spec fn view(&self) -> UnitRec {
        UnitRec {
            title: self.title@,
            description: self.description.deep_view(),
            url: self.url.deep_view(),
            thumbnail: self.thumbnail.deep_view(),
            fields: self.fields.deep_view(),
        }
    }
}

impl DeepView for DisplayUnit {
    type V = UnitRec;

    open spec fn deep_view(&self) -> UnitRec {
        self.view()
    }
}

/// The final terminal message of one pass: a bounded text body plus a bounded
/// number of rich display units. The pipeline produces it; delivery is the
/// interaction layer's job.
pub struct OutputMessage {
    pub content: String,
    pub embeds: Vec<DisplayUnit>,
}

} // verus!
