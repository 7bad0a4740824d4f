use project_man::registry::RepositoryConfig;
use project_man::search::FuzzySearch;
use project_man::time::Timestamp;

fn entries(names: &[&str]) -> Vec<(String, RepositoryConfig)> {
    names
        .iter()
        .map(|n| {
            let rec = RepositoryConfig::new_at(
                format!("x/{}", n),
                String::new(),
                vec![],
                Timestamp { seconds: 0, nanos: 0 },
            );
            (n.to_string(), rec)
        })
        .collect()
}

fn names_of(found: &[project_man::search::SearchResult]) -> Vec<String> {
    found.iter().map(|r| r.name.clone()).collect()
}

#[test]
fn empty_candidates_give_nothing() {
    let search = FuzzySearch::new();
    assert!(search.search(&entries(&[]), "a").is_empty());
}

#[test]
fn exact_name_ranks_first_over_superstring() {
    let search = FuzzySearch::new();
    let found = search.search(&entries(&["ab", "a"]), "a");
    assert_eq!(names_of(&found), vec!["a".to_string(), "ab".to_string()]);
}

#[test]
fn out_of_order_characters_are_excluded() {
    let search = FuzzySearch::new();
    let found = search.search(&entries(&["a", "ab", "ba"]), "ab");
    assert_eq!(names_of(&found), vec!["ab".to_string()]);
}

#[test]
fn query_equal_to_name_ranks_above_scattered_match() {
    let search = FuzzySearch::new();
    let found = search.search(&entries(&["xaxbxc", "abc"]), "abc");
    assert_eq!(found.len(), 2);
    assert_eq!(found[0].name, "abc");
    assert!(found[0].score > found[1].score);
}

#[test]
fn missing_character_excludes_name() {
    let search = FuzzySearch::new();
    assert!(search.search(&entries(&["abc", "bcd"]), "az").is_empty());
}

#[test]
fn case_is_ignored_by_default() {
    let search = FuzzySearch::new();
    let found = search.search(&entries(&["project-man"]), "PM");
    assert_eq!(names_of(&found), vec!["project-man".to_string()]);
    let strict = FuzzySearch::with_case_sensitivity(true);
    assert!(strict.search(&entries(&["project-man"]), "PM").is_empty());
}

#[test]
fn equal_scores_keep_input_order() {
    let search = FuzzySearch::new();
    let mut es = entries(&["same", "same"]);
    es[1].1.path = "second".to_string();
    let found = search.search(&es, "same");
    assert_eq!(found.len(), 2);
    assert_eq!(found[0].repo_config.path, "x/same");
    assert_eq!(found[1].repo_config.path, "second");
}

#[test]
fn results_descend_by_score() {
    let search = FuzzySearch::new();
    let found = search.search(&entries(&["tool", "my-tool", "t-o-o-l", "other"]), "tool");
    assert_eq!(found[0].name, "tool");
    for w in found[1..].windows(2) {
        assert!(w[0].score >= w[1].score);
    }
    assert!(!names_of(&found).contains(&"other".to_string()));
}

#[test]
fn registry_scenario_single_letter_query() {
    let search = FuzzySearch::new();
    let found = search.search(&entries(&["a", "ab", "ba"]), "a");
    let names = names_of(&found);
    assert_eq!(names[0], "a");
    assert_eq!(found[0].repo_config.path, "x/a");
    assert!(names.contains(&"ab".to_string()));
    // "a" occurs in "ba", so the sub-sequence rule keeps it for this query
    assert!(names.contains(&"ba".to_string()));
}

#[test]
fn registry_scenario_out_of_order_name_excluded() {
    let search = FuzzySearch::new();
    let found = search.search(&entries(&["ba", "ab", "a"]), "ab");
    assert_eq!(names_of(&found), vec!["ab".to_string()]);
}

#[test]
fn search_result_clone_keeps_fields() {
    let search = FuzzySearch::new();
    let found = search.search(&entries(&["tool"]), "tl");
    let copy = found[0].clone();
    assert_eq!(copy.name, "tool");
    assert_eq!(copy.score, found[0].score);
    assert_eq!(copy.repo_config.path, "x/tool");
}
