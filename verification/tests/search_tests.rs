use krun::config::{Config, LaunchItem};
use krun::search::{match_score, results, subsequence_gaps};

#[test]
fn exact_name_wins_over_path_and_subsequence() {
    let mut config = Config::default();
    config.categories[0].items = vec![
        LaunchItem {
            name: "VS Code".into(),
            path: "C:\\Apps\\code.exe".into(),
            ..LaunchItem::default()
        },
        LaunchItem {
            name: "code".into(),
            path: "C:\\Other.exe".into(),
            ..LaunchItem::default()
        },
    ];
    let matches = results(&config, "code");
    assert_eq!(matches[0].item, 1);
}

#[test]
fn sequence_match_works() {
    assert!(match_score("visual studio code", "", "vsc").is_some());
    assert!(match_score("visual studio code", "", "xyz").is_none());
}

#[test]
fn blank_query_matches_nothing() {
    let mut config = Config::default();
    config.categories[0].items.push(LaunchItem { name: "code".into(), ..LaunchItem::default() });
    assert!(results(&config, "   ").is_empty());
}

#[test]
fn query_case_and_spaces_are_ignored() {
    let mut config = Config::default();
    config.categories[0].items.push(LaunchItem { name: "Notepad".into(), ..LaunchItem::default() });
    config.categories[0].items.push(LaunchItem { name: "Paint".into(), ..LaunchItem::default() });
    let matches = results(&config, "  NOTE ");
    assert_eq!(matches.len(), 1);
    assert_eq!(matches[0].item, 0);
}

#[test]
fn results_are_ranked_best_first() {
    let mut config = Config::default();
    config.categories[0].items = vec![
        LaunchItem { name: "my code tool".into(), ..LaunchItem::default() },
        LaunchItem { name: "code".into(), ..LaunchItem::default() },
        LaunchItem { name: "codex".into(), ..LaunchItem::default() },
    ];
    let matches = results(&config, "code");
    assert_eq!(matches.len(), 3);
    assert_eq!(matches[0].item, 1);
    let scores: Vec<_> = matches
        .iter()
        .map(|r| {
            let item = &config.categories[r.category].items[r.item];
            match_score(&item.name.to_lowercase(), &item.path.to_lowercase(), "code").unwrap()
        })
        .collect();
    assert!(scores.windows(2).all(|w| w[0] <= w[1]));
}

#[test]
fn gaps_count_skipped_characters() {
    let text: Vec<char> = "a-b-c".chars().collect();
    let query: Vec<char> = "abc".chars().collect();
    assert_eq!(subsequence_gaps(&text, &query), Some(2));
    let missing: Vec<char> = "abd".chars().collect();
    assert_eq!(subsequence_gaps(&text, &missing), None);
}

#[test]
fn surrounding_space_does_not_change_results() {
    let mut config = Config::default();
    config.categories[0].items = vec![
        LaunchItem { name: "code".into(), ..LaunchItem::default() },
        LaunchItem { name: "VS Code".into(), ..LaunchItem::default() },
        LaunchItem { name: "Notepad".into(), ..LaunchItem::default() },
    ];
    let plain = results(&config, "code");
    let padded = results(&config, " \t code  \n");
    assert_eq!(plain.len(), 2);
    assert_eq!(
        plain.iter().map(|r| (r.category, r.item)).collect::<Vec<_>>(),
        padded.iter().map(|r| (r.category, r.item)).collect::<Vec<_>>()
    );
}
