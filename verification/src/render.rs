//! The renderer: turns consolidated entries into rich display units or into a
//! single compact summary bounded by the platform's description ceiling.

use vstd::prelude::*;

use crate::models::DisplayUnit;
use crate::models::EmbedField;
use crate::models::EmbedRec;
use crate::models::FieldRec;
use crate::models::SearchResultEmbed;
use crate::models::UnitRec;
use crate::models::EMBED_DESCRIPTION_MAX_LEN;
use crate::text::dec_digits;
use crate::text::join_sep;
use crate::text::join_with;
use crate::text::lemma_dec_digits_len;
use crate::text::lower_of;
use crate::text::pow10;
use crate::text::push_char;
use crate::text::to_lowercase;
use crate::text::url_encode;
use crate::text::url_encoded_of;
use crate::text::usize_to_dec_string;

verus! {

/// Spaces replaced by dashes, character for character.
pub open spec fn dashed(s: Seq<char>) -> Seq<char> {
    s.map_values(
        |c: char|
            if c == ' ' {
                '-'
            } else {
                c
            },
    )
}

fn dash_spaces(s: &str) -> (r: String)
    ensures
        r@ == dashed(s@),
{
    let n = s.unicode_len();
    let mut r = String::new();
    let mut i: usize = 0;
    while i < n
        invariant
            i <= n,
            n == s@.len(),
            r@ == dashed(s@).take(i as int),
        decreases n - i,
    {
        let c = s.get_char(i);
        if c == ' ' {
            push_char(&mut r, '-');
        } else {
            push_char(&mut r, c);
        }
        proof {
            assert(r@ =~= dashed(s@).take(i as int + 1));
        }
        i = i + 1;
    }
    proof {
        assert(dashed(s@).take(n as int) =~= dashed(s@));
    }
    r
}

/// The slug under which the card's page is addressed: the lower-cased name
/// with spaces dashed.
pub open spec fn slug_of(name: Seq<char>) -> Seq<char> {
    dashed(lower_of(name))
}

fn card_name_slug(name: &String) -> (r: String)
    ensures
        r@ == slug_of(name@),
{
    let low = to_lowercase(name.as_str());
    dash_spaces(low.as_str())
}

/// The markdown link to a card's page, labelled with the display title.
pub open spec fn page_link_of(
    title: Seq<char>,
    name: Seq<char>,
    set: Seq<char>,
    cn: Seq<char>,
) -> Seq<char> {
    "["@ + title + "](https://scryfall.com/card/"@ + set + "/"@ + cn + "/"@ + slug_of(name)
        + ")"@
}

pub fn generate_scryfall_page_link(
    title: &String,
    card_name: &String,
    set: &String,
    cn: &String,
) -> (r: String)
    ensures
        r@ == page_link_of(title@, card_name@, set@, cn@),
{
    let mut s = String::from_str("[");
    s.append(title.as_str());
    s.append("](https://scryfall.com/card/");
    s.append(set.as_str());
    s.append("/");
    s.append(cn.as_str());
    s.append("/");
    let slug = card_name_slug(card_name);
    s.append(slug.as_str());
    s.append(")");
    s
}

/// The image address of a card's thumbnail.
pub open spec fn image_link_of(set: Seq<char>, cn: Seq<char>) -> Seq<char> {
    "https://api.scryfall.com/cards/"@ + set + "/"@ + cn + "?format=image"@
}

pub fn generate_scryfall_image_link(set: &String, cn: &String) -> (r: String)
    ensures
        r@ == image_link_of(set@, cn@),
{
    let mut s = String::from_str("https://api.scryfall.com/cards/");
    s.append(set.as_str());
    s.append("/");
    s.append(cn.as_str());
    s.append("?format=image");
    s
}

/// The address of a card's page, with the slug percent-encoded.
pub open spec fn card_url_of(name: Seq<char>, set: Seq<char>, cn: Seq<char>) -> Seq<char> {
    "https://scryfall.com/card/"@ + set + "/"@ + cn + "/"@ + url_encoded_of(slug_of(name))
}

fn card_url(name: &String, set: &String, cn: &String) -> (r: String)
    ensures
        r@ == card_url_of(name@, set@, cn@),
{
    let mut s = String::from_str("https://scryfall.com/card/");
    s.append(set.as_str());
    s.append("/");
    s.append(cn.as_str());
    s.append("/");
    let slug = card_name_slug(name);
    let enc = url_encode(slug.as_str());
    s.append(enc.as_str());
    s
}

/// The price annotation under a card.
pub open spec fn price_note_of(price: Seq<char>) -> Seq<char> {
    "*$"@ + price + " (Card Kingdom)*"@
}

fn price_note(price: &String) -> (r: String)
    ensures
        r@ == price_note_of(price@),
{
    let mut s = String::from_str("*$");
    s.append(price.as_str());
    s.append(" (Card Kingdom)*");
    s
}

/// The rich display unit of one consolidated card: title, price annotation,
/// page link, thumbnail, and the owners and quantities as two aligned
/// newline-joined columns.
pub open spec fn card_unit_of(e: EmbedRec) -> UnitRec {
    UnitRec {
        title: e.title,
        description: Some(price_note_of(e.ck_price)),
        url: Some(card_url_of(e.name, e.set, e.cn)),
        thumbnail: Some(image_link_of(e.set, e.cn)),
        fields: seq![
            FieldRec { name: "Owner"@, value: join_sep(e.owners, "\n"@), inline: true },
            FieldRec { name: "Quantity"@, value: join_sep(e.quantities, "\n"@), inline: true },
        ],
    }
}

/// The rich display units of all consolidated cards, in order.
pub open spec fn card_units_of(es: Seq<EmbedRec>) -> Seq<UnitRec> {
    es.map_values(|e: EmbedRec| card_unit_of(e))
}

/// One rich display unit per consolidated card, in order.
pub fn create_card_embeds(consolidated_results: &Vec<SearchResultEmbed>) -> (r: Vec<DisplayUnit>)
    ensures
        r.deep_view() == card_units_of(consolidated_results.deep_view()),
{
    let mut out: Vec<DisplayUnit> = Vec::new();
    let mut i: usize = 0;
    while i < consolidated_results.len()
        invariant
            i <= consolidated_results.len(),
            out.deep_view() == card_units_of(consolidated_results.deep_view()).take(i as int),
        decreases consolidated_results.len() - i,
    {
        let e = &consolidated_results[i];
        let ghost ev = consolidated_results.deep_view()[i as int];
        proof {
            assert(ev == e@);
        }
        let mut fields: Vec<EmbedField> = Vec::new();
        fields.push(
            EmbedField { name: String::from_str("Owner"), value: join_with(&e.owners, "\n"), inline: true },
        );
        fields.push(
            EmbedField {
                name: String::from_str("Quantity"),
                value: join_with(&e.quantities, "\n"),
                inline: true,
            },
        );
        let unit = DisplayUnit {
            title: e.title.clone(),
            description: Some(price_note(&e.ck_price)),
            url: Some(card_url(&e.name, &e.set, &e.cn)),
            thumbnail: Some(generate_scryfall_image_link(&e.set, &e.cn)),
            fields,
        };
        proof {
            assert(unit@.fields =~= card_unit_of(ev).fields);
            assert(unit@ == card_unit_of(ev));
        }
        let ghost pre = out.deep_view();
        out.push(unit);
        proof {
            let target = card_units_of(consolidated_results.deep_view());
            assert(out.deep_view() =~= pre.push(card_unit_of(ev)));
            assert(target[i as int] == card_unit_of(ev));
            assert(target.take(i as int + 1) =~= target.take(i as int).push(target[i as int]));
        }
        i = i + 1;
    }
    proof {
        assert(card_units_of(consolidated_results.deep_view()).take(
            consolidated_results.len() as int,
        ) =~= card_units_of(consolidated_results.deep_view()));
    }
    out
}

/// The per-owner lines of one compact entry, over the first `i` owner slots.
pub open spec fn owner_lines_upto(
    owners: Seq<Seq<char>>,
    quantities: Seq<Seq<char>>,
    i: int,
) -> Seq<char>
    decreases i,
{
    if i <= 0 {
        Seq::empty()
    } else {
        owner_lines_upto(owners, quantities, i - 1) + "`"@ + quantities[i - 1] + "` owned by `"@
            + owners[i - 1] + "`\n"@
    }
}

/// How many owner lines one entry shows: its owners and quantities zipped.
pub open spec fn owner_line_count(e: EmbedRec) -> int {
    if e.owners.len() <= e.quantities.len() {
        e.owners.len() as int
    } else {
        e.quantities.len() as int
    }
}

/// The head of one compact entry: the page link and the price line.
pub open spec fn entry_head_of(e: EmbedRec) -> Seq<char> {
    page_link_of(e.title, e.name, e.set, e.cn) + ":\n*$"@ + e.ck_price + " (Card Kingdom)*\n"@
}

/// One whole compact entry: head, owner lines, and a blank separator line.
pub open spec fn compact_entry_of(e: EmbedRec) -> Seq<char> {
    entry_head_of(e) + owner_lines_upto(e.owners, e.quantities, owner_line_count(e)) + "\n"@
}

/// The marker closing a truncated compact body.
pub open spec fn truncation_marker_of(omitted: int) -> Seq<char> {
    "...\n\n*"@ + dec_digits(omitted) + " additional results truncated*"@
}

/// The compact body from entry `i` on, with `cur` characters already taken:
/// entries are appended while they fit; the first entry that would leave no
/// room (its own length plus a 50-character reserve for the marker) stops the
/// body with a marker stating how many entries were left out.
pub open spec fn compact_body_from(cards: Seq<EmbedRec>, i: int, cur: int) -> Seq<char>
    decreases cards.len() - i,
{
    if i < 0 || i >= cards.len() {
        Seq::empty()
    } else {
        let e = compact_entry_of(cards[i]);
        if cur + e.len() + 50 > EMBED_DESCRIPTION_MAX_LEN as int {
            truncation_marker_of(cards.len() - i)
        } else {
            e + compact_body_from(cards, i + 1, cur + e.len())
        }
    }
}

/// The whole compact body.
pub open spec fn compact_body_of(cards: Seq<EmbedRec>) -> Seq<char> {
    compact_body_from(cards, 0, 0)
}

/// How many entries the compact body renders, from entry `i` on.
pub open spec fn compact_rendered_from(cards: Seq<EmbedRec>, i: int, cur: int) -> int
    decreases cards.len() - i,
{
    if i < 0 || i >= cards.len() {
        0
    } else {
        let e = compact_entry_of(cards[i]);
        if cur + e.len() + 50 > EMBED_DESCRIPTION_MAX_LEN as int {
            0
        } else {
            1 + compact_rendered_from(cards, i + 1, cur + e.len())
        }
    }
}

/// How many entries the whole compact body renders.
pub open spec fn compact_rendered(cards: Seq<EmbedRec>) -> int {
    compact_rendered_from(cards, 0, 0)
}

/// The compact entries of `cards[i..j]`, concatenated.
pub open spec fn entries_cat(cards: Seq<EmbedRec>, i: int, j: int) -> Seq<char>
    decreases j - i,
{
    if i < 0 || i >= j || j > cards.len() {
        Seq::empty()
    } else {
        compact_entry_of(cards[i]) + entries_cat(cards, i + 1, j)
    }
}

/// The compact body never exceeds the description ceiling: entries are only
/// appended while they leave the 50-character reserve, and the closing
/// marker itself fits inside that reserve.
pub proof fn lemma_compact_body_within_ceiling(cards: Seq<EmbedRec>, i: int, cur: int)
    requires
        0 <= i <= cards.len(),
        0 <= cur,
        cur + 50 <= EMBED_DESCRIPTION_MAX_LEN as int,
        cards.len() < 100_000_000_000_000,
    ensures
        cur + compact_body_from(cards, i, cur).len() <= EMBED_DESCRIPTION_MAX_LEN as int,
    decreases cards.len() - i,
{
    if i < cards.len() {
        let e = compact_entry_of(cards[i]);
        if cur + e.len() + 50 > EMBED_DESCRIPTION_MAX_LEN as int {
            let omitted = cards.len() - i;
            assert(dec_digits(omitted).len() <= 14) by {
                assert(pow10(14) == 100_000_000_000_000) by {
                    reveal_with_fuel(pow10, 15);
                }
                lemma_dec_digits_len(omitted, 14);
            }
            assert("...\n\n*"@.len() == 6) by {
                reveal_strlit("...\n\n*");
            }
            assert(" additional results truncated*"@.len() == 30) by {
                reveal_strlit(" additional results truncated*");
            }
        } else {
            lemma_compact_body_within_ceiling(cards, i + 1, cur + e.len());
        }
    }
}

/// Truncation accounting: the compact body consists of exactly the rendered
/// entries, and when entries were left out, the closing marker states
/// exactly their number, so that the rendered count plus the stated count
/// equals the total entry count.
pub proof fn lemma_compact_accounting(cards: Seq<EmbedRec>, i: int, cur: int)
    requires
        0 <= i <= cards.len(),
    ensures
        0 <= compact_rendered_from(cards, i, cur) <= cards.len() - i,
        ({
            let r = compact_rendered_from(cards, i, cur);
            compact_body_from(cards, i, cur) == entries_cat(cards, i, i + r) + (if i + r
                < cards.len() {
                truncation_marker_of(cards.len() - (i + r))
            } else {
                Seq::<char>::empty()
            })
        }),
    decreases cards.len() - i,
{
    if i >= cards.len() {
        assert(compact_body_from(cards, i, cur) =~= entries_cat(cards, i, i) + Seq::<
            char,
        >::empty());
    } else {
        let e = compact_entry_of(cards[i]);
        if cur + e.len() + 50 > EMBED_DESCRIPTION_MAX_LEN as int {
            assert(compact_body_from(cards, i, cur) =~= entries_cat(cards, i, i)
                + truncation_marker_of(cards.len() - i));
        } else {
            lemma_compact_accounting(cards, i + 1, cur + e.len());
            let r2 = compact_rendered_from(cards, i + 1, cur + e.len());
            let tail = if i + 1 + r2 < cards.len() {
                truncation_marker_of(cards.len() - (i + 1 + r2))
            } else {
                Seq::<char>::empty()
            };
            assert(e + (entries_cat(cards, i + 1, i + 1 + r2) + tail) =~= (e + entries_cat(
                cards,
                i + 1,
                i + 1 + r2,
            )) + tail);
            assert(e + entries_cat(cards, i + 1, i + 1 + r2) == entries_cat(cards, i, i + 1 + r2));
        }
    }
}

fn build_compact_entry(e: &SearchResultEmbed) -> (r: String)
    ensures
        r@ == compact_entry_of(e@),
{
    let mut s = generate_scryfall_page_link(&e.title, &e.name, &e.set, &e.cn);
    s.append(":\n*$");
    s.append(e.ck_price.as_str());
    s.append(" (Card Kingdom)*\n");
    let zips = if e.owners.len() <= e.quantities.len() {
        e.owners.len()
    } else {
        e.quantities.len()
    };
    proof {
        assert(zips as int == owner_line_count(e@));
    }
    let mut m: usize = 0;
    while m < zips
        invariant
            m <= zips,
            zips as int == owner_line_count(e@),
            zips <= e.owners@.len() && zips <= e.quantities@.len(),
            s@ == entry_head_of(e@) + owner_lines_upto(e@.owners, e@.quantities, m as int),
        decreases zips - m,
    {
        proof {
            assert(e@.quantities[m as int] == e.quantities@[m as int]@);
            assert(e@.owners[m as int] == e.owners@[m as int]@);
        }
        s.append("`");
        s.append(e.quantities[m].as_str());
        s.append("` owned by `");
        s.append(e.owners[m].as_str());
        s.append("`\n");
        proof {
            assert(s@ =~= entry_head_of(e@) + owner_lines_upto(
                e@.owners,
                e@.quantities,
                m as int + 1,
            ));
        }
        m = m + 1;
    }
    s.append("\n");
    proof {
        assert(s@ =~= compact_entry_of(e@));
    }
    s
}

/// The compact fallback body: per card a page link line, a price line and
/// one line per owner, in consolidated order, cut off with an explicit
/// omitted-count marker before the description ceiling would be crossed.
#[verifier::loop_isolation(false)]
pub fn create_card_compact_str(consolidated_results: &Vec<SearchResultEmbed>) -> (r: String)
    requires
        consolidated_results@.len() < 100_000_000_000_000,
    ensures
        r@ == compact_body_of(consolidated_results.deep_view()),
        r@.len() <= EMBED_DESCRIPTION_MAX_LEN as int,
{
    let ghost cards = consolidated_results.deep_view();
    proof {
        lemma_compact_body_within_ceiling(cards, 0, 0);
    }
    let max_len: usize = EMBED_DESCRIPTION_MAX_LEN as usize;
    let n = consolidated_results.len();
    let mut body = String::new();
    let mut cur_len: usize = 0;
    let mut i: usize = 0;
    while i < n
        invariant
            i <= n,
            cur_len as int == body@.len(),
            cur_len + 50 <= EMBED_DESCRIPTION_MAX_LEN as int,
            compact_body_of(cards) == body@ + compact_body_from(cards, i as int, cur_len as int),
        decreases n - i,
    {
        let entry = build_compact_entry(&consolidated_results[i]);
        proof {
            assert(cards[i as int] == consolidated_results@[i as int]@);
        }
        let entry_chars = entry.as_str().unicode_len();
        if entry_chars > max_len - 50 - cur_len {
            let ghost b0 = body@;
            body.append("...\n\n*");
            let num = usize_to_dec_string(n - i);
            body.append(num.as_str());
            body.append(" additional results truncated*");
            proof {
                assert(compact_body_from(cards, i as int, cur_len as int)
                    == truncation_marker_of(n as int - i as int));
                assert(body@ =~= b0 + truncation_marker_of(n as int - i as int));
                assert(body@ =~= compact_body_of(cards));
            }
            return body;
        }
        let ghost b0 = body@;
        body.append(entry.as_str());
        proof {
            let rest = compact_body_from(cards, i as int + 1, cur_len as int + entry@.len());
            assert(compact_body_from(cards, i as int, cur_len as int) == entry@ + rest);
            assert(b0 + (entry@ + rest) =~= (b0 + entry@) + rest);
        }
        cur_len = cur_len + entry_chars;
        i = i + 1;
    }
    proof {
        assert(body@ + compact_body_from(cards, n as int, cur_len as int) =~= body@);
    }
    body
}

} // verus!
