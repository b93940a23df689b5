use mtg_search::assemble::assemble_search_output;
use mtg_search::assemble::render_collection_matches;
use mtg_search::assemble::CollectionMatch;
use mtg_search::assemble::PassResult;
use mtg_search::assemble::SourceOutcome;
use mtg_search::config::MTGCollectionConfig;
use mtg_search::config::MTGCollectionProvider;
use mtg_search::config::MTGCommunityDeck;
use mtg_search::decks::deck_page_url;
use mtg_search::decks::pick_commander;
use mtg_search::decks::render_community_decks;
use mtg_search::decks::DeckCardInfo;
use mtg_search::models::CommunityDeckMetadata;
use mtg_search::models::SearchResultCard;
use mtg_search::notify::should_announce;
use mtg_search::text::i64_to_dec_string;
use mtg_search::text::join_with;
use mtg_search::text::u64_to_dec_string;

fn source(provider: MTGCollectionProvider, user: &str, collection: &str) -> MTGCollectionConfig {
    MTGCollectionConfig {
        provider,
        discord_user: user.to_string(),
        provider_collection: collection.to_string(),
    }
}

fn card(name: &str, set: &str, cn: &str, quantity: i64, owner: &str) -> SearchResultCard {
    SearchResultCard {
        name: name.to_string(),
        set: set.to_string(),
        cn: cn.to_string(),
        quantity,
        owner: owner.to_string(),
        ck_price: "0.25".to_string(),
    }
}

#[test]
fn failing_source_keeps_other_sources_visible() {
    // Three sources; the second fails with a transport error.
    let sources = vec![
        source(MTGCollectionProvider::Archidekt, "alice", "c1"),
        source(MTGCollectionProvider::Moxfield, "bob", "c2"),
        source(MTGCollectionProvider::Archidekt, "carol", "c3"),
    ];
    let pass = PassResult {
        outcomes: vec![
            SourceOutcome::Success(vec![card("Fog", "m10", "7", 1, "alice")]),
            SourceOutcome::Failure(
                "Moxfield collection search failed with status code 500".to_string(),
            ),
            SourceOutcome::Success(vec![card("Llanowar Elves", "neo", "123", 2, "carol")]),
        ],
    };
    let out = assemble_search_output(&"Elf".to_string(), &sources, pass);
    assert_eq!(
        out.content,
        "Found `2` matches in `3` searched collection(s) for card name `Elf`:\n\
         *Could not search collection for user `bob`: Moxfield collection search failed with status code 500*\n"
    );
    assert_eq!(out.embeds.len(), 2);
    assert_eq!(out.embeds[0].title, "Fog [M10:7]");
    assert_eq!(out.embeds[1].title, "Llanowar Elves [NEO:123]");
}

#[test]
fn zero_sources_report_no_matches() {
    let sources: Vec<MTGCollectionConfig> = Vec::new();
    let pass: PassResult<Vec<SearchResultCard>> = PassResult { outcomes: Vec::new() };
    let out = assemble_search_output(&"Elf".to_string(), &sources, pass);
    assert_eq!(
        out.content,
        "No matches found in `0` searched collection(s) for card name `Elf`"
    );
    assert!(out.embeds.is_empty());
}

#[test]
fn errors_precede_the_no_matches_line() {
    let sources = vec![source(MTGCollectionProvider::Archidekt, "alice", "c1")];
    let pass = PassResult {
        outcomes: vec![SourceOutcome::Failure("status code 404".to_string())],
    };
    let out = assemble_search_output(&"Elf".to_string(), &sources, pass);
    assert_eq!(
        out.content,
        "*Could not search collection for user `alice`: status code 404*\n\
         No matches found in `1` searched collection(s) for card name `Elf`"
    );
    assert!(out.embeds.is_empty());
}

#[test]
fn many_consolidated_cards_fall_back_to_compact() {
    // Fifteen distinct cards against the ceiling of ten rich units.
    let mut records = Vec::new();
    for i in 0..15 {
        records.push(card(&format!("Card {i}"), "set", &i.to_string(), 1, "alice"));
    }
    let sources = vec![source(MTGCollectionProvider::Archidekt, "alice", "c1")];
    let pass = PassResult {
        outcomes: vec![SourceOutcome::Success(records)],
    };
    let out = assemble_search_output(&"Card".to_string(), &sources, pass);
    assert_eq!(out.embeds.len(), 1);
    assert_eq!(out.embeds[0].title, "Search Results (compact)");
    assert!(out.embeds[0].description.as_ref().unwrap().contains("Card 0"));
    assert!(out.embeds[0].url.is_none());
    assert!(out
        .content
        .starts_with("Found `15` matches in `1` searched collection(s)"));
}

#[test]
fn ten_consolidated_cards_still_render_richly() {
    let mut records = Vec::new();
    for i in 0..10 {
        records.push(card(&format!("Card {i}"), "set", &i.to_string(), 1, "alice"));
    }
    let sources = vec![source(MTGCollectionProvider::Archidekt, "alice", "c1")];
    let pass = PassResult {
        outcomes: vec![SourceOutcome::Success(records)],
    };
    let out = assemble_search_output(&"Card".to_string(), &sources, pass);
    assert_eq!(out.embeds.len(), 10);
    assert_ne!(out.embeds[0].title, "Search Results (compact)");
}

#[test]
fn deck_listing_shows_successes_and_attributes_failures() {
    let decks = vec![
        MTGCommunityDeck {
            provider: MTGCollectionProvider::Archidekt,
            discord_user: "alice".to_string(),
            provider_deck: "d1".to_string(),
        },
        MTGCommunityDeck {
            provider: MTGCollectionProvider::Moxfield,
            discord_user: "bob".to_string(),
            provider_deck: "d2".to_string(),
        },
    ];
    let pass = PassResult {
        outcomes: vec![
            SourceOutcome::Success(CommunityDeckMetadata {
                title: "My Deck".to_string(),
                url: "https://archidekt.com/decks/d1".to_string(),
                thumbnail: "https://api.scryfall.com/cards/neo/123?format=image".to_string(),
                original_owner: "alice".to_string(),
                last_updated_at: "2024-05-01".to_string(),
            }),
            SourceOutcome::Failure("deck lookup failed with status code 404".to_string()),
        ],
    };
    let out = render_community_decks(&decks, pass);
    assert_eq!(
        out.content,
        "Displaying `1` of `2` configured community decks:\n\
         *Could not load deck for deck id `d2`: deck lookup failed with status code 404*\n"
    );
    assert_eq!(out.embeds.len(), 1);
    assert_eq!(out.embeds[0].title, "My Deck");
    assert_eq!(out.embeds[0].url, Some("https://archidekt.com/decks/d1".to_string()));
    assert_eq!(out.embeds[0].fields[0].name, "Original Creator");
    assert_eq!(out.embeds[0].fields[0].value, "alice");
    assert!(!out.embeds[0].fields[0].inline);
    assert_eq!(out.embeds[0].fields[1].name, "Last Updated At");
    assert_eq!(out.embeds[0].fields[1].value, "2024-05-01");
}

#[test]
fn commander_pick_takes_the_first_commander_card() {
    let cards = vec![
        DeckCardInfo { set: "a".to_string(), cn: "1".to_string(), is_commander: false },
        DeckCardInfo { set: "b".to_string(), cn: "2".to_string(), is_commander: true },
        DeckCardInfo { set: "c".to_string(), cn: "3".to_string(), is_commander: true },
    ];
    assert_eq!(pick_commander(&cards), Some(("b".to_string(), "2".to_string())));
    let none = vec![DeckCardInfo {
        set: "a".to_string(),
        cn: "1".to_string(),
        is_commander: false,
    }];
    assert_eq!(pick_commander(&none), None);
}

#[test]
fn deck_page_url_names_the_deck_id() {
    assert_eq!(
        deck_page_url(&"abc123".to_string()),
        "https://archidekt.com/decks/abc123"
    );
}

#[test]
fn collection_report_lists_quantity_and_name() {
    let matches = vec![
        CollectionMatch { quantity: 3, name: "Llanowar Elves".to_string() },
        CollectionMatch { quantity: 1, name: "Fog".to_string() },
    ];
    let report = render_collection_matches(&"l".to_string(), &matches);
    assert_eq!(
        report,
        "Tucker's collection has `2` matches for the search term `l`:\n\
         3\tLlanowar Elves\n\
         1\tFog\n"
    );
}

#[test]
fn decimal_rendering_is_exact() {
    assert_eq!(u64_to_dec_string(0), "0");
    assert_eq!(u64_to_dec_string(7), "7");
    assert_eq!(u64_to_dec_string(1234567890), "1234567890");
    assert_eq!(i64_to_dec_string(-5), "-5");
    assert_eq!(i64_to_dec_string(42), "42");
    assert_eq!(i64_to_dec_string(i64::MIN), "-9223372036854775808");
}

#[test]
fn join_with_separates_neighbours_only() {
    let items = vec!["a".to_string(), "b".to_string(), "c".to_string()];
    assert_eq!(join_with(&items, "\n"), "a\nb\nc");
    assert_eq!(join_with(&vec!["solo".to_string()], "\n"), "solo");
    assert_eq!(join_with(&Vec::new(), "\n"), "");
}

#[test]
fn announcement_waits_out_the_reset_window() {
    // The reset window is twelve hours.
    assert!(!should_announce(0, 43200));
    assert!(should_announce(0, 43201));
    assert!(!should_announce(1000, 1000));
}

#[test]
fn provider_labels_and_pacing() {
    assert_eq!(MTGCollectionProvider::Archidekt.label(), "archidekt");
    assert_eq!(MTGCollectionProvider::Moxfield.label(), "moxfield");
    assert!(!MTGCollectionProvider::Archidekt.is_rate_limited());
    assert!(MTGCollectionProvider::Moxfield.is_rate_limited());
}

#[test]
fn pass_result_records_outcomes_in_order() {
    let mut pass: PassResult<Vec<SearchResultCard>> = PassResult::new();
    assert_eq!(pass.len(), 0);
    pass.record_success(vec![card("Fog", "m10", "7", 1, "alice")]);
    pass.record_failure("status code 500".to_string());
    assert_eq!(pass.len(), 2);
    assert!(matches!(pass.outcomes[0], SourceOutcome::Success(_)));
    assert!(matches!(pass.outcomes[1], SourceOutcome::Failure(_)));
}
