//! Community-deck rendering: one rich display unit per successfully fetched
//! deck, error lines attributing failed fetches, and the helpers that derive
//! a deck's page address and thumbnail.

use vstd::prelude::*;

use crate::assemble::count_successes;
use crate::assemble::PassResult;
use crate::assemble::SourceOutcome;
use crate::config::MTGCommunityDeck;
use crate::models::CommunityDeckMetadata;
use crate::models::DeckRec;
use crate::models::DisplayUnit;
use crate::models::EmbedField;
use crate::models::FieldRec;
use crate::models::OutputMessage;
use crate::models::UnitRec;
use crate::text::dec_digits;
use crate::text::usize_to_dec_string;

verus! {

/// One card of a remote deck, as far as deck rendering reads it: its set
/// code and collector number, and whether the deck categorises it as a
/// commander.
pub struct DeckCardInfo {
    pub set: String,
    pub cn: String,
    pub is_commander: bool,
}

/// Mathematical image of a `DeckCardInfo`.
pub struct DeckCardRec {
    pub set: Seq<char>,
    pub cn: Seq<char>,
    pub is_commander: bool,
}

impl View for DeckCardInfo {
    type V = DeckCardRec;

    open spec fn view(&self) -> DeckCardRec {
        DeckCardRec { set: self.set@, cn: self.cn@, is_commander: self.is_commander }
    }
}

impl DeepView for DeckCardInfo {
    type V = DeckCardRec;

    open spec fn deep_view(&self) -> DeckCardRec {
        self.view()
    }
}

/// The first card categorised as a commander, as its set code and collector
/// number; nothing when the deck has none.
pub fn pick_commander(cards: &Vec<DeckCardInfo>) -> (r: Option<(String, String)>)
    ensures
        match r {
            Some(p) => exists|i: int|
                0 <= i < cards.deep_view().len() && (#[trigger] cards.deep_view()[i]).is_commander
                    && p.0@ == cards.deep_view()[i].set && p.1@ == cards.deep_view()[i].cn && (
                forall|m: int| 0 <= m < i ==> !(#[trigger] cards.deep_view()[m]).is_commander),
            None => forall|i: int|
                0 <= i < cards.deep_view().len() ==> !(#[trigger] cards.deep_view()[i]).is_commander,
        },
{
    let mut i: usize = 0;
    while i < cards.len()
        invariant
            i <= cards@.len(),
            forall|m: int| 0 <= m < i ==> !(#[trigger] cards.deep_view()[m]).is_commander,
        decreases cards@.len() - i,
    {
        proof {
            assert(cards.deep_view()[i as int] == cards@[i as int]@);
        }
        if cards[i].is_commander {
            return Some((cards[i].set.clone(), cards[i].cn.clone()));
        }
        i = i + 1;
    }
    None
}

/// The page address of a remote deck.
pub open spec fn deck_page_url_of(deck_id: Seq<char>) -> Seq<char> {
    "https://archidekt.com/decks/"@ + deck_id
}

pub fn deck_page_url(deck_id: &String) -> (r: String)
    ensures
        r@ == deck_page_url_of(deck_id@),
{
    let mut s = String::from_str("https://archidekt.com/decks/");
    s.append(deck_id.as_str());
    s
}

/// The rich display unit of one fetched deck: title, page link, thumbnail,
/// and the original creator and last-update fields.
pub open spec fn deck_unit_of(d: DeckRec) -> UnitRec {
    UnitRec {
        title: d.title,
        description: None,
        url: Some(d.url),
        thumbnail: Some(d.thumbnail),
        fields: seq![
            FieldRec { name: "Original Creator"@, value: d.original_owner, inline: false },
            FieldRec { name: "Last Updated At"@, value: d.last_updated_at, inline: false },
        ],
    }
}

/// The display units of the successfully fetched decks among the first `i`
/// outcomes, in source order.
pub open spec fn deck_units_upto(s: Seq<SourceOutcome<CommunityDeckMetadata>>, i: int) -> Seq<
    UnitRec,
>
    decreases i,
{
    if i <= 0 {
        Seq::empty()
    } else {
        deck_units_upto(s, i - 1) + (match s[i - 1] {
            SourceOutcome::Success(d) => seq![deck_unit_of(d@)],
            SourceOutcome::Failure(_) => Seq::empty(),
        })
    }
}

/// The display units of all successfully fetched decks, in source order.
pub open spec fn deck_units(s: Seq<SourceOutcome<CommunityDeckMetadata>>) -> Seq<UnitRec> {
    deck_units_upto(s, s.len() as int)
}

/// The annotated error line attributing a failed deck fetch to its deck id.
pub open spec fn deck_error_line_of(deck_id: Seq<char>, err: Seq<char>) -> Seq<char> {
    "*Could not load deck for deck id `"@ + deck_id + "`: "@ + err + "*\n"@
}

/// The error lines of the first `i` deck sources, in source order.
pub open spec fn deck_error_lines_upto(
    decks: Seq<MTGCommunityDeck>,
    outcomes: Seq<SourceOutcome<CommunityDeckMetadata>>,
    i: int,
) -> Seq<char>
    decreases i,
{
    if i <= 0 {
        Seq::empty()
    } else {
        deck_error_lines_upto(decks, outcomes, i - 1) + (match outcomes[i - 1] {
            SourceOutcome::Failure(e) => deck_error_line_of(decks[i - 1].provider_deck@, e@),
            SourceOutcome::Success(_) => Seq::empty(),
        })
    }
}

/// All deck error lines of a pass, in source order.
pub open spec fn deck_error_lines(
    decks: Seq<MTGCommunityDeck>,
    outcomes: Seq<SourceOutcome<CommunityDeckMetadata>>,
) -> Seq<char> {
    deck_error_lines_upto(decks, outcomes, outcomes.len() as int)
}

/// The header of the deck listing: how many of the configured decks are
/// shown, followed by any error lines.
pub open spec fn deck_header_of(success_count: int, total: int, errors: Seq<char>) -> Seq<char> {
    "Displaying `"@ + dec_digits(success_count) + "` of `"@ + dec_digits(total)
        + "` configured community decks:\n"@ + errors
}

/// The count of successes among the first `i` outcomes.
spec fn successes_upto(s: Seq<SourceOutcome<CommunityDeckMetadata>>, i: int) -> int
    decreases i,
{
    if i <= 0 {
        0
    } else {
        successes_upto(s, i - 1) + if s[i - 1] is Success {
            1int
        } else {
            0int
        }
    }
}

proof fn lemma_successes_upto_matches(s: Seq<SourceOutcome<CommunityDeckMetadata>>, i: int)
    requires
        0 <= i <= s.len(),
    ensures
        successes_upto(s, i) == count_successes(s.take(i)),
    decreases i,
{
    if i > 0 {
        lemma_successes_upto_matches(s, i - 1);
        assert(s.take(i).drop_last() =~= s.take(i - 1));
        assert(s.take(i).last() == s[i - 1]);
    }
}

/// Renders the community-deck listing: one rich unit per successfully
/// fetched deck in source order, an error line for each failed fetch, and a
/// header stating how many of the configured decks are displayed.
pub fn render_community_decks(
    decks: &Vec<MTGCommunityDeck>,
    pass: PassResult<CommunityDeckMetadata>,
) -> (r: OutputMessage)
    requires
        pass.outcomes@.len() == decks@.len(),
    ensures
        r.embeds.deep_view() == deck_units(pass.outcomes@),
        r.content@ == deck_header_of(
            count_successes(pass.outcomes@),
            decks@.len() as int,
            deck_error_lines(decks@, pass.outcomes@),
        ),
{
    let n = pass.outcomes.len();
    let mut embeds: Vec<DisplayUnit> = Vec::new();
    let mut errors = String::new();
    let mut i: usize = 0;
    while i < n
        invariant
            i <= n,
            n == pass.outcomes@.len(),
            pass.outcomes@.len() == decks@.len(),
            embeds.deep_view() == deck_units_upto(pass.outcomes@, i as int),
            embeds@.len() == successes_upto(pass.outcomes@, i as int),
            errors@ == deck_error_lines_upto(decks@, pass.outcomes@, i as int),
        decreases n - i,
    {
        match &pass.outcomes[i] {
            SourceOutcome::Success(d) => {
                let mut fields: Vec<EmbedField> = Vec::new();
                fields.push(
                    EmbedField {
                        name: String::from_str("Original Creator"),
                        value: d.original_owner.clone(),
                        inline: false,
                    },
                );
                fields.push(
                    EmbedField {
                        name: String::from_str("Last Updated At"),
                        value: d.last_updated_at.clone(),
                        inline: false,
                    },
                );
                let unit = DisplayUnit {
                    title: d.title.clone(),
                    description: None,
                    url: Some(d.url.clone()),
                    thumbnail: Some(d.thumbnail.clone()),
                    fields,
                };
                proof {
                    assert(unit@.fields =~= deck_unit_of(d@).fields);
                    assert(unit@ == deck_unit_of(d@));
                }
                let ghost pre = embeds.deep_view();
                embeds.push(unit);
                proof {
                    assert(embeds.deep_view() =~= pre.push(deck_unit_of(d@)));
                    assert(embeds.deep_view() =~= deck_units_upto(pass.outcomes@, i as int + 1));
                    assert(errors@ =~= deck_error_lines_upto(decks@, pass.outcomes@, i as int + 1));
                }
            },
            SourceOutcome::Failure(e) => {
                errors.append("*Could not load deck for deck id `");
                errors.append(decks[i].provider_deck.as_str());
                errors.append("`: ");
                errors.append(e.as_str());
                errors.append("*\n");
                proof {
                    assert(embeds.deep_view() =~= deck_units_upto(pass.outcomes@, i as int + 1));
                    assert(errors@ =~= deck_error_lines_upto(decks@, pass.outcomes@, i as int + 1));
                }
            },
        }
        i = i + 1;
    }
    proof {
        lemma_successes_upto_matches(pass.outcomes@, n as int);
        assert(pass.outcomes@.take(n as int) =~= pass.outcomes@);
    }
    let mut content = String::from_str("Displaying `");
    let sc = usize_to_dec_string(embeds.len());
    content.append(sc.as_str());
    content.append("` of `");
    let tc = usize_to_dec_string(decks.len());
    content.append(tc.as_str());
    content.append("` configured community decks:\n");
    content.append(errors.as_str());
    OutputMessage { content, embeds }
}

} // verus!
