use mtga_stats::records::{
    counts_equal, deck_cards_from_json, deck_cards_json, infer_local_user, recent_players,
    PlayerRow,
};
use std::collections::HashMap;

fn counts(pairs: &[(u32, u32)]) -> HashMap<u32, u32> {
    pairs.iter().copied().collect()
}

fn prow(u1: &str, n1: &str, u2: &str, n2: &str) -> PlayerRow {
    PlayerRow {
        player1_user_id: u1.to_string(),
        player1_name: n1.to_string(),
        player2_user_id: u2.to_string(),
        player2_name: n2.to_string(),
    }
}

#[test]
fn compositions_compare_by_content() {
    assert!(counts_equal(&counts(&[(1, 4), (2, 2)]), &counts(&[(2, 2), (1, 4)])));
    assert!(!counts_equal(&counts(&[(1, 4), (2, 2)]), &counts(&[(1, 4), (2, 3)])));
    assert!(!counts_equal(&counts(&[(1, 4)]), &counts(&[(1, 4), (2, 2)])));
    assert!(!counts_equal(&counts(&[(1, 4), (3, 2)]), &counts(&[(1, 4), (2, 2)])));
    assert!(counts_equal(&HashMap::new(), &HashMap::new()));
}

#[test]
fn stored_composition_reads_back() {
    let cards = counts(&[(68001, 4), (68002, 1), (70000, 24)]);
    let text = deck_cards_json(&cards);
    assert_eq!(deck_cards_from_json(&text), cards);
    assert_eq!(deck_cards_json(&HashMap::new()), "{}");
}

#[test]
fn stored_composition_text_is_read() {
    assert_eq!(deck_cards_from_json("{\"12\": 3, \"7\": 1}"), counts(&[(12, 3), (7, 1)]));
}

#[test]
fn unreadable_composition_is_empty() {
    assert!(deck_cards_from_json("not json").is_empty());
    assert!(deck_cards_from_json("{\"x\": 1}").is_empty());
    assert!(deck_cards_from_json("").is_empty());
}

#[test]
fn recent_players_are_distinct_in_order_first_seen() {
    let rows = vec![
        prow("me", "Me", "opp1", "Opp One"),
        prow("opp2", "Opp Two", "me", "Me Later"),
        prow("me", "Me", "opp1", "Opp One Again"),
    ];
    let players = recent_players(&rows);
    assert_eq!(
        players,
        vec![
            ("me".to_string(), "Me".to_string()),
            ("opp1".to_string(), "Opp One".to_string()),
            ("opp2".to_string(), "Opp Two".to_string()),
        ]
    );
}

#[test]
fn local_user_is_the_one_in_every_match() {
    let rows = vec![
        prow("me", "Me", "opp1", "Opp One"),
        prow("opp2", "Opp Two", "me", "Me"),
        prow("me", "Me", "opp3", "Opp Three"),
    ];
    assert_eq!(infer_local_user(&rows), Some(("me".to_string(), "Me".to_string())));
}

#[test]
fn local_user_is_unknown_when_ambiguous() {
    // One match only.
    assert_eq!(infer_local_user(&vec![prow("a", "A", "b", "B")]), None);
    // The same two players twice: both appear in every match.
    let rematch = vec![prow("a", "A", "b", "B"), prow("b", "B", "a", "A")];
    assert_eq!(infer_local_user(&rematch), None);
    // Nobody appears in every match.
    let scattered = vec![prow("a", "A", "b", "B"), prow("c", "C", "d", "D")];
    assert_eq!(infer_local_user(&scattered), None);
    assert_eq!(infer_local_user(&vec![]), None);
}

#[test]
fn a_user_counts_once_per_match() {
    // "u" plays both seats of the first match but not the second one.
    let rows = vec![prow("u", "U", "u", "U"), prow("x", "X", "y", "Y")];
    assert_eq!(infer_local_user(&rows), None);
}
