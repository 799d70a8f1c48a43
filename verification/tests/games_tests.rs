use owl_control::games::{
    reason_heading, splice_games_list, GamesListing, InstalledGame, UnsupportedGame,
    UnsupportedGames, UnsupportedReason,
};

fn game(name: &str, binaries: &[&str], reason: UnsupportedReason) -> UnsupportedGame {
    UnsupportedGame {
        name: name.to_string(),
        binaries: binaries.iter().map(|b| b.to_string()).collect(),
        reason,
    }
}

fn sample() -> UnsupportedGames {
    UnsupportedGames {
        games: vec![
            game("Zeta", &["ZetaGame"], UnsupportedReason::EnoughData),
            game("Desktop", &["explorer"], UnsupportedReason::NotAGame),
            game("alpha", &["Alpha", "AlphaLauncher"], UnsupportedReason::EnoughData),
            game("Broken", &["broken"], UnsupportedReason::Other("Anti-cheat".to_string())),
            game("Zeta", &["ZetaGame2"], UnsupportedReason::EnoughData),
        ],
    }
}

#[test]
fn get_matches_exact_name_ignoring_case() {
    let games = sample();
    let g = games.get("zetagame").expect("match");
    assert_eq!(g.name, "Zeta");
    let g = games.get("ALPHA").expect("match");
    assert_eq!(g.name, "alpha");
}

#[test]
fn get_matches_suffixed_executables() {
    let games = sample();
    assert_eq!(games.get("Alpha_DX12").unwrap().name, "alpha");
    assert_eq!(games.get("alpha-Win64-Shipping").unwrap().name, "alpha");
    assert_eq!(games.get("AlphaEpicGamesStore").unwrap().name, "alpha");
}

#[test]
fn get_rejects_other_names() {
    let games = sample();
    assert!(games.get("alphax").is_none());
    assert!(games.get("alph").is_none());
    assert!(games.get("notepad").is_none());
}

#[test]
fn get_returns_the_first_matching_game() {
    let games = UnsupportedGames {
        games: vec![
            game("First", &["shared"], UnsupportedReason::NotAGame),
            game("Second", &["shared"], UnsupportedReason::EnoughData),
        ],
    };
    assert_eq!(games.get("shared").unwrap().name, "First");
}

#[test]
fn reason_texts_are_the_user_facing_messages() {
    assert_eq!(
        UnsupportedReason::EnoughData.reason_text(),
        "We have collected enough data for this game."
    );
    assert_eq!(UnsupportedReason::NotAGame.reason_text(), "This is not a game.");
    assert_eq!(UnsupportedReason::Other("custom".to_string()).reason_text(), "custom");
}

#[test]
fn reason_headings_hide_non_games() {
    assert_eq!(reason_heading(&UnsupportedReason::EnoughData), Some("Sufficient Data Collected"));
    assert_eq!(reason_heading(&UnsupportedReason::NotAGame), None);
    assert_eq!(reason_heading(&UnsupportedReason::Other("x".to_string())), Some("Other"));
}

#[test]
fn listing_sorts_by_lowercase_name_and_drops_repeats() {
    let listing = sample().listing();
    assert_eq!(listing.enough_data, vec!["alpha".to_string(), "Zeta".to_string()]);
    assert_eq!(listing.other, vec![("Broken".to_string(), "Anti-cheat".to_string())]);
    assert_eq!(listing.visible_count(), 3);
}

#[test]
fn render_writes_both_sections_separated_by_a_blank_line() {
    let listing = sample().listing();
    assert_eq!(
        listing.render(),
        "### Sufficient Data Collected\n\n- alpha\n- Zeta\n\n### Other\n\n- Broken (Anti-cheat)\n"
    );
}

#[test]
fn render_of_an_empty_listing_is_empty() {
    let listing = GamesListing { enough_data: vec![], other: vec![] };
    assert_eq!(listing.render(), "");
    assert_eq!(listing.visible_count(), 0);
}

#[test]
fn splice_replaces_everything_after_the_marker() {
    let md = "# Games\n<!-- MARKER: generated -->\nold list\n";
    let out = splice_games_list(md, "- new\n").expect("marker present");
    assert_eq!(out, "# Games\n<!-- MARKER: generated -->\n\n- new\n");
}

#[test]
fn splice_fails_without_a_closed_marker() {
    assert_eq!(splice_games_list("# Games\nno marker\n", "x"), None);
    assert_eq!(splice_games_list("--> before <!-- MARKER: open", "x"), None);
}

#[test]
fn installed_game_holds_name_and_app_id() {
    let g = InstalledGame { name: "Half-Life".to_string(), steam_app_id: 70 };
    assert_eq!(g.clone(), g);
    assert_eq!(g.steam_app_id, 70);
}
