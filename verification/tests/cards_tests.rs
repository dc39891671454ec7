use mtga_stats::cards::{
    has_land_type, parse_mana_cost, strip_html_tags, CardDatabase, CardRow, CardSource,
};

#[test]
fn mana_cost_examples() {
    assert_eq!(parse_mana_cost("o2oW"), Some("{2}{W}".to_string()));
    assert_eq!(parse_mana_cost("oB"), Some("{B}".to_string()));
    assert_eq!(parse_mana_cost("o(R/G)"), Some("{R/G}".to_string()));
    assert_eq!(parse_mana_cost("oXoXoR"), Some("{X}{X}{R}".to_string()));
}

#[test]
fn mana_cost_without_symbols_is_none() {
    assert_eq!(parse_mana_cost(""), None);
    assert_eq!(parse_mana_cost("o"), None);
    assert_eq!(parse_mana_cost("oo"), None);
}

#[test]
fn mana_cost_is_braced() {
    for raw in ["o1", "oGoG", "o(W/U)o(W/U)", "x"] {
        let c = parse_mana_cost(raw).unwrap();
        assert!(c.starts_with('{') && c.ends_with('}'), "{}", c);
    }
}

#[test]
fn html_tags_are_stripped() {
    assert_eq!(strip_html_tags("<nobr>Wind-Scarred</nobr> Crag"), "Wind-Scarred Crag");
    assert_eq!(strip_html_tags("Plain name"), "Plain name");
    assert_eq!(strip_html_tags("<i>a<b>c</b></i>d"), "acd");
    assert_eq!(strip_html_tags("a > b"), "a > b");
    assert_eq!(strip_html_tags("open <tag"), "open ");
}

#[test]
fn stripping_twice_strips_nothing_more() {
    let once = strip_html_tags("x<a>y>z</a>");
    assert_eq!(once, "xy>z");
    assert!(!once.contains('<'));
    assert_eq!(strip_html_tags(&once), once);
}

#[test]
fn land_type_is_five_in_the_type_list() {
    assert!(has_land_type("5"));
    assert!(has_land_type("2, 5"));
    assert!(has_land_type(" 5 ,1"));
    assert!(!has_land_type("15"));
    assert!(!has_land_type("2,3"));
    assert!(!has_land_type(""));
}

fn row(grp_id: u32, is_token: bool, types: &str, name: &str, cmc: u32, raw_cost: &str) -> CardRow {
    CardRow {
        grp_id,
        is_token,
        types: types.to_string(),
        name: name.to_string(),
        cmc,
        raw_cost: raw_cost.to_string(),
    }
}

fn sample_rows() -> Vec<CardRow> {
    vec![
        row(100, false, "2", "Lightning Bolt", 1, "oR"),
        row(200, false, "5", "<nobr>Wind-Scarred</nobr> Crag", 0, ""),
        row(300, true, "2", "Goblin", 0, ""),
        row(400, false, "2", "Hybrid Thing", 2, "o(R/G)o(R/G)"),
    ]
}

#[test]
fn database_answers_from_rows() {
    let db = CardDatabase::from_rows(&sample_rows(), "/tmp/Raw_CardDatabase_x.mtga");
    assert_eq!(db.name_count(), 4);
    assert_eq!(db.loaded_path(), Some("/tmp/Raw_CardDatabase_x.mtga".to_string()));
    assert!(db.is_token(300));
    assert!(!db.is_token(100));
    let info = db.get_info(&[100, 200, 300, 400, 999]);
    assert_eq!(info.len(), 4);
    assert!(!info.contains_key(&999));
    let bolt = &info[&100];
    assert_eq!(bolt.name, "Lightning Bolt");
    assert_eq!(bolt.cmc, 1);
    assert_eq!(bolt.mana_cost, Some("{R}".to_string()));
    assert!(!bolt.is_land);
    let crag = &info[&200];
    assert_eq!(crag.name, "Wind-Scarred Crag");
    assert!(crag.is_land);
    assert_eq!(crag.cmc, 0);
    assert_eq!(crag.mana_cost, None);
    assert!(info[&300].is_token);
    assert_eq!(info[&400].mana_cost, Some("{R/G}{R/G}".to_string()));
}

#[test]
fn later_row_for_the_same_card_wins() {
    let rows = vec![row(7, false, "2", "Old", 3, "o3"), row(7, false, "2", "New", 2, "o2")];
    let db = CardDatabase::from_rows(&rows, "p");
    let info = db.get_info(&[7]);
    assert_eq!(info[&7].name, "New");
    assert_eq!(info[&7].cmc, 2);
    assert_eq!(info[&7].mana_cost, Some("{2}".to_string()));
}

#[test]
fn unreadable_database_knows_no_card() {
    let db = CardDatabase::load(Err("no Raw_CardDatabase_*.mtga found".to_string()));
    assert_eq!(db.name_count(), 0);
    assert_eq!(db.loaded_path(), None);
    assert!(db.get_info(&[1, 2]).is_empty());
    let d = CardDatabase::default();
    assert_eq!(d.name_count(), 0);
}

#[test]
fn loaded_database_keeps_its_path() {
    let db = CardDatabase::load(Ok(CardSource { rows: sample_rows(), path: "db.mtga".to_string() }));
    assert_eq!(db.name_count(), 4);
    assert_eq!(db.loaded_path(), Some("db.mtga".to_string()));
}

#[test]
fn lands_have_no_mana_value_or_cost() {
    let rows = vec![row(50, false, "5", "Odd Land", 3, "oG"), row(51, false, "2,5", "Dryad Arbor", 1, "")];
    let db = CardDatabase::from_rows(&rows, "p");
    let info = db.get_info(&[50, 51]);
    assert!(info[&50].is_land);
    assert_eq!(info[&50].cmc, 0);
    assert_eq!(info[&50].mana_cost, None);
    assert_eq!(info[&51].cmc, 0);
}

#[test]
fn every_token_is_reported_by_get_info() {
    let db = CardDatabase::from_rows(&sample_rows(), "p");
    for id in [100u32, 200, 300, 400, 999] {
        let from_info = db.get_info(&[id]).get(&id).map_or(false, |i| i.is_token);
        assert_eq!(db.is_token(id), from_info);
    }
    assert!(!CardDatabase::default().is_token(300));
}
