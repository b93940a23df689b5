use mtg_search::aggregate::consolidate_search_results;
use mtg_search::aggregate::generate_embed_data_from_search_results;
use mtg_search::models::SearchResultCard;

fn card(name: &str, set: &str, cn: &str, quantity: i64, owner: &str, price: &str) -> SearchResultCard {
    SearchResultCard {
        name: name.to_string(),
        set: set.to_string(),
        cn: cn.to_string(),
        quantity,
        owner: owner.to_string(),
        ck_price: price.to_string(),
    }
}

#[test]
fn two_sources_merge_into_one_card() {
    // Two sources, each one record for the same printing.
    let records = vec![
        card("Llanowar Elves", "neo", "123", 1, "alice", "0.25"),
        card("Llanowar Elves", "neo", "123", 2, "bob", "0.25"),
    ];
    let embeds = generate_embed_data_from_search_results(records);
    assert_eq!(embeds.len(), 1);
    assert_eq!(embeds[0].title, "Llanowar Elves [NEO:123]");
    assert_eq!(embeds[0].owners, vec!["alice".to_string(), "bob".to_string()]);
    assert_eq!(embeds[0].quantities, vec!["1".to_string(), "2".to_string()]);
    assert_eq!(embeds[0].name, "Llanowar Elves");
    assert_eq!(embeds[0].set, "neo");
    assert_eq!(embeds[0].cn, "123");
    assert_eq!(embeds[0].ck_price, "0.25");
}

#[test]
fn same_owner_quantities_are_summed() {
    let records = vec![
        card("Fog", "m10", "7", 1, "alice", "0.10"),
        card("Fog", "m10", "7", 3, "alice", "0.10"),
    ];
    let embeds = generate_embed_data_from_search_results(records);
    assert_eq!(embeds.len(), 1);
    assert_eq!(embeds[0].owners, vec!["alice".to_string()]);
    assert_eq!(embeds[0].quantities, vec!["4".to_string()]);
}

#[test]
fn set_code_case_does_not_split_identities() {
    let records = vec![
        card("Fog", "m10", "7", 1, "alice", "0.10"),
        card("Fog", "M10", "7", 2, "bob", "0.10"),
    ];
    let embeds = generate_embed_data_from_search_results(records);
    assert_eq!(embeds.len(), 1);
    assert_eq!(embeds[0].title, "Fog [M10:7]");
    // Representative fields come from the first-seen record.
    assert_eq!(embeds[0].set, "m10");
}

#[test]
fn different_collector_numbers_stay_apart() {
    let records = vec![
        card("Fog", "m10", "7", 1, "alice", "0.10"),
        card("Fog", "m10", "8", 2, "alice", "0.10"),
    ];
    let embeds = generate_embed_data_from_search_results(records);
    assert_eq!(embeds.len(), 2);
    assert_eq!(embeds[0].title, "Fog [M10:7]");
    assert_eq!(embeds[1].title, "Fog [M10:8]");
}

#[test]
fn empty_input_yields_empty_output() {
    let embeds = generate_embed_data_from_search_results(Vec::new());
    assert!(embeds.is_empty());
}

#[test]
fn reordering_input_keeps_identity_totals() {
    let records = vec![
        card("Fog", "m10", "7", 1, "alice", "0.10"),
        card("Llanowar Elves", "neo", "123", 2, "bob", "0.25"),
        card("Fog", "m10", "7", 4, "bob", "0.10"),
        card("Llanowar Elves", "neo", "123", 3, "alice", "0.25"),
    ];
    let mut reversed = vec![
        card("Llanowar Elves", "neo", "123", 3, "alice", "0.25"),
        card("Fog", "m10", "7", 4, "bob", "0.10"),
        card("Llanowar Elves", "neo", "123", 2, "bob", "0.25"),
        card("Fog", "m10", "7", 1, "alice", "0.10"),
    ];
    reversed.reverse();
    let a = generate_embed_data_from_search_results(records);
    let b = generate_embed_data_from_search_results(reversed);
    let totals = |embeds: &Vec<mtg_search::models::SearchResultEmbed>| {
        let mut t: Vec<(String, i64)> = embeds
            .iter()
            .map(|e| {
                (
                    e.title.clone(),
                    e.quantities.iter().map(|q| q.parse::<i64>().unwrap()).sum(),
                )
            })
            .collect();
        t.sort();
        t
    };
    assert_eq!(totals(&a), totals(&b));
    assert_eq!(
        totals(&a),
        vec![
            ("Fog [M10:7]".to_string(), 5),
            ("Llanowar Elves [NEO:123]".to_string(), 5)
        ]
    );
}

#[test]
fn no_owner_listed_twice() {
    let records = vec![
        card("Fog", "m10", "7", 1, "alice", "0.10"),
        card("Fog", "m10", "7", 2, "bob", "0.10"),
        card("Fog", "m10", "7", 3, "alice", "0.10"),
        card("Fog", "m10", "7", 4, "bob", "0.10"),
    ];
    let embeds = generate_embed_data_from_search_results(records);
    assert_eq!(embeds.len(), 1);
    assert_eq!(embeds[0].owners, vec!["alice".to_string(), "bob".to_string()]);
    assert_eq!(embeds[0].quantities, vec!["4".to_string(), "6".to_string()]);
}

#[test]
fn consolidated_cards_keep_first_seen_order() {
    let records = vec![
        card("Beta", "b", "2", 1, "alice", "0.10"),
        card("Alpha", "a", "1", 1, "alice", "0.10"),
        card("Beta", "b", "2", 1, "bob", "0.10"),
    ];
    let cards = consolidate_search_results(records);
    assert_eq!(cards.len(), 2);
    assert_eq!(cards[0].name, "Beta");
    assert_eq!(cards[1].name, "Alpha");
    assert_eq!(cards[0].owners, vec!["alice".to_string(), "bob".to_string()]);
    assert_eq!(cards[0].quantities, vec![1, 1]);
    assert_eq!(cards[0].set_upper, "B");
}

#[test]
fn zero_quantities_are_kept_not_dropped() {
    let records = vec![card("Fog", "m10", "7", 0, "alice", "0.10")];
    let embeds = generate_embed_data_from_search_results(records);
    assert_eq!(embeds.len(), 1);
    assert_eq!(embeds[0].quantities, vec!["0".to_string()]);
}
