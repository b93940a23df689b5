use mtg_search::models::SearchResultEmbed;
use mtg_search::render::create_card_compact_str;
use mtg_search::render::create_card_embeds;
use mtg_search::render::generate_scryfall_image_link;
use mtg_search::render::generate_scryfall_page_link;

fn embed(
    title: &str,
    name: &str,
    set: &str,
    cn: &str,
    owners: Vec<&str>,
    quantities: Vec<&str>,
    price: &str,
) -> SearchResultEmbed {
    SearchResultEmbed {
        title: title.to_string(),
        name: name.to_string(),
        set: set.to_string(),
        cn: cn.to_string(),
        owners: owners.into_iter().map(|s| s.to_string()).collect(),
        quantities: quantities.into_iter().map(|s| s.to_string()).collect(),
        ck_price: price.to_string(),
    }
}

#[test]
fn page_link_lowercases_and_dashes_the_name() {
    let link = generate_scryfall_page_link(
        &"Llanowar Elves [NEO:123]".to_string(),
        &"Llanowar Elves".to_string(),
        &"neo".to_string(),
        &"123".to_string(),
    );
    assert_eq!(
        link,
        "[Llanowar Elves [NEO:123]](https://scryfall.com/card/neo/123/llanowar-elves)"
    );
}

#[test]
fn image_link_names_set_and_collector_number() {
    let link = generate_scryfall_image_link(&"neo".to_string(), &"123".to_string());
    assert_eq!(link, "https://api.scryfall.com/cards/neo/123?format=image");
}

#[test]
fn card_embed_carries_links_fields_and_price() {
    let e = embed(
        "Llanowar Elves [NEO:123]",
        "Llanowar Elves",
        "neo",
        "123",
        vec!["alice", "bob"],
        vec!["1", "2"],
        "0.25",
    );
    let units = create_card_embeds(&vec![e]);
    assert_eq!(units.len(), 1);
    assert_eq!(units[0].title, "Llanowar Elves [NEO:123]");
    assert_eq!(
        units[0].description,
        Some("*$0.25 (Card Kingdom)*".to_string())
    );
    assert_eq!(
        units[0].url,
        Some("https://scryfall.com/card/neo/123/llanowar-elves".to_string())
    );
    assert_eq!(
        units[0].thumbnail,
        Some("https://api.scryfall.com/cards/neo/123?format=image".to_string())
    );
    assert_eq!(units[0].fields.len(), 2);
    assert_eq!(units[0].fields[0].name, "Owner");
    assert_eq!(units[0].fields[0].value, "alice\nbob");
    assert!(units[0].fields[0].inline);
    assert_eq!(units[0].fields[1].name, "Quantity");
    assert_eq!(units[0].fields[1].value, "1\n2");
    assert!(units[0].fields[1].inline);
}

#[test]
fn card_embed_url_percent_encodes_the_slug() {
    let e = embed(
        "Fire // Ice [MH2:290]",
        "Fire // Ice",
        "mh2",
        "290",
        vec!["alice"],
        vec!["1"],
        "0.50",
    );
    let units = create_card_embeds(&vec![e]);
    assert_eq!(
        units[0].url,
        Some("https://scryfall.com/card/mh2/290/fire-%2F%2F-ice".to_string())
    );
}

#[test]
fn compact_body_renders_link_price_and_owner_lines() {
    let e = embed(
        "Llanowar Elves [NEO:123]",
        "Llanowar Elves",
        "neo",
        "123",
        vec!["alice", "bob"],
        vec!["1", "2"],
        "0.25",
    );
    let body = create_card_compact_str(&vec![e]);
    assert_eq!(
        body,
        "[Llanowar Elves [NEO:123]](https://scryfall.com/card/neo/123/llanowar-elves):\n\
         *$0.25 (Card Kingdom)*\n\
         `1` owned by `alice`\n\
         `2` owned by `bob`\n\n"
    );
}

#[test]
fn compact_body_never_exceeds_the_ceiling() {
    let mut embeds = Vec::new();
    for i in 0..200 {
        embeds.push(embed(
            &format!("Card Number {i} [SET:{i}]"),
            &format!("Card Number {i}"),
            "set",
            &i.to_string(),
            vec!["somebody", "somebody else"],
            vec!["12", "34"],
            "123.45",
        ));
    }
    let body = create_card_compact_str(&embeds);
    assert!(body.chars().count() <= 4096);
    assert!(body.ends_with(" additional results truncated*"));
}

#[test]
fn truncation_accounts_for_every_card() {
    let total = 150;
    let mut embeds = Vec::new();
    for i in 0..total {
        embeds.push(embed(
            &format!("Card Number {i} [SET:{i}]"),
            &format!("Card Number {i}"),
            "set",
            &i.to_string(),
            vec!["somebody"],
            vec!["3"],
            "9.99",
        ));
    }
    let body = create_card_compact_str(&embeds);
    let rendered = body.matches(" (Card Kingdom)*\n").count();
    assert!(rendered < total);
    let marker_start = body.rfind("...\n\n*").expect("marker missing");
    let stated: usize = body[marker_start + 6..]
        .strip_suffix(" additional results truncated*")
        .expect("marker tail missing")
        .parse()
        .expect("marker count not a number");
    assert_eq!(rendered + stated, total);
}

#[test]
fn short_compact_body_is_not_truncated() {
    let e = embed("Fog [M10:7]", "Fog", "m10", "7", vec!["alice"], vec!["1"], "0.10");
    let body = create_card_compact_str(&vec![e]);
    assert!(!body.contains("truncated"));
}
