use picker::{contains_query, filter, get_projects, get_sequences, move_highlight, reconcile, Direction};

fn strings(items: &[&str]) -> Vec<String> {
    items.iter().map(|s| s.to_string()).collect()
}

#[test]
fn contains_query_is_case_sensitive_substring() {
    assert!(contains_query("project_001", "ject"));
    assert!(contains_query("project_001", ""));
    assert!(contains_query("", ""));
    assert!(contains_query("abc", "abc"));
    assert!(!contains_query("project_001", "Project"));
    assert!(!contains_query("ab", "abc"));
    assert!(!contains_query("a_b_c", "abc"));
    assert!(contains_query("aaab", "aab"));
}

#[test]
fn filter_keeps_matching_items_in_order() {
    let c = strings(&["project_001", "project_002", "man_vs_bee"]);
    assert_eq!(filter("p", &c), strings(&["project_001", "project_002"]));
    assert_eq!(filter("_", &c), c);
    assert_eq!(filter("bee", &c), strings(&["man_vs_bee"]));
    assert_eq!(filter("xyz", &c), Vec::<String>::new());
}

#[test]
fn filter_results_contain_query_and_keep_order() {
    let c = get_projects();
    let out = filter("sandbox", &c);
    assert_eq!(out, strings(&["rt_sandbox_2024", "rnd_sandbox_2024"]));
    for item in &out {
        assert!(item.contains("sandbox"));
    }
    let mut pos = 0;
    for item in &out {
        let found = c[pos..].iter().position(|x| x == item).unwrap();
        pos += found + 1;
    }
}

#[test]
fn filter_empty_query_keeps_everything() {
    let c = get_projects();
    assert_eq!(filter("", &c), c);
    assert_eq!(filter("", &Vec::new()), Vec::<String>::new());
}

#[test]
fn filter_twice_is_filter_once() {
    let c = get_projects();
    let once = filter("asset", &c);
    assert_eq!(once, strings(&["asset_library_2024", "asset_library_2023"]));
    assert_eq!(filter("asset", &once), once);
}

#[test]
fn filter_keeps_duplicates() {
    let c = strings(&["ab", "cd", "ab"]);
    assert_eq!(filter("a", &c), strings(&["ab", "ab"]));
}

#[test]
fn move_highlight_saturates() {
    assert_eq!(move_highlight(0, 3, Direction::Next), 1);
    assert_eq!(move_highlight(1, 3, Direction::Next), 2);
    assert_eq!(move_highlight(2, 3, Direction::Next), 2);
    assert_eq!(move_highlight(2, 3, Direction::Previous), 1);
    assert_eq!(move_highlight(1, 3, Direction::Previous), 0);
    assert_eq!(move_highlight(0, 3, Direction::Previous), 0);
    assert_eq!(move_highlight(0, 1, Direction::Next), 0);
    assert_eq!(move_highlight(7, 3, Direction::Next), 2);
}

#[test]
fn move_highlight_on_empty_list_is_zero() {
    assert_eq!(move_highlight(0, 0, Direction::Next), 0);
    assert_eq!(move_highlight(0, 0, Direction::Previous), 0);
}

#[test]
fn move_highlight_at_largest_size() {
    assert_eq!(move_highlight(usize::MAX - 1, usize::MAX, Direction::Next), usize::MAX - 1);
    assert_eq!(move_highlight(usize::MAX - 2, usize::MAX, Direction::Next), usize::MAX - 1);
}

#[test]
fn reconcile_finds_item_in_new_list() {
    let old = strings(&["a", "b", "c"]);
    let new = strings(&["c", "b"]);
    assert_eq!(reconcile(&old, 1, &new), 1);
    assert_eq!(reconcile(&old, 2, &new), 0);
    assert_eq!(reconcile(&old, 0, &new), 0);
}

#[test]
fn reconcile_takes_first_of_equal_items() {
    let old = strings(&["x", "y"]);
    let new = strings(&["z", "y", "y"]);
    assert_eq!(reconcile(&old, 1, &new), 1);
}

#[test]
fn reconcile_out_of_bounds_or_empty_is_zero() {
    let old = strings(&["a", "b"]);
    let new = strings(&["b", "a"]);
    assert_eq!(reconcile(&old, 5, &new), 0);
    assert_eq!(reconcile(&Vec::new(), 0, &new), 0);
    assert_eq!(reconcile(&old, 0, &Vec::new()), 0);
}

#[test]
fn projects_list() {
    let p = get_projects();
    assert_eq!(p.len(), 10);
    assert_eq!(p[0], "some_very_long_project_name");
    assert_eq!(p[2], "project_001");
    assert_eq!(p[9], "rnd_sandbox_2024");
}

#[test]
fn sequences_of_projects() {
    assert_eq!(get_sequences("project_001"), strings(&["seq002", "seq003"]));
    assert_eq!(get_sequences("project_002"), strings(&["seq001", "seq002"]));
    assert_eq!(
        get_sequences("some_very_long_project_name"),
        strings(&["seq001", "seq002"])
    );
    assert_eq!(get_sequences("man_vs_bee"), Vec::<String>::new());
    assert_eq!(get_sequences(""), Vec::<String>::new());
}
