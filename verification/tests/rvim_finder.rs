//! Fuzzy matching and the picker.

use pocketdeck::rvim::finder::{FinderAction, FinderState, FinderTarget};
use pocketdeck::rvim::fuzzy::fuzzy_match;
use pocketdeck::rvim::keys::Key;

fn score(query: &str, cand: &str) -> i32 {
    fuzzy_match(query, cand).expect("expected a match").0
}

fn indices(query: &str, cand: &str) -> Vec<usize> {
    fuzzy_match(query, cand).expect("expected a match").1
}

#[test]
fn empty_query_matches_everything() {
    assert_eq!(fuzzy_match("", "main.rs"), Some((0, Vec::new())));
    assert_eq!(fuzzy_match("", ""), Some((0, Vec::new())));
}

#[test]
fn non_subsequence_is_none() {
    assert!(fuzzy_match("xyz", "main.rs").is_none());
    assert!(fuzzy_match("sm", "m.s").is_none());
    assert!(fuzzy_match("aa", "a").is_none());
}

#[test]
fn query_longer_than_candidate_is_none() {
    assert!(fuzzy_match("main.rs!", "main.rs").is_none());
}

#[test]
fn mrs_prefers_main_rs_over_mars_txt() {
    assert!(score("mrs", "main.rs") > score("mrs", "mars.txt"));
}

#[test]
fn matched_indices_are_char_positions() {
    assert_eq!(indices("mrs", "main.rs"), vec![0, 5, 6]);
    assert_eq!(indices("main", "main.rs"), vec![0, 1, 2, 3]);
}

#[test]
fn start_of_name_bonus() {
    assert!(score("ma", "main.rs") > score("ma", "omar.rs"));
}

#[test]
fn boundary_bonus_after_separator() {
    assert!(score("s", "x/s.rs") > score("s", "xs.rs"));
    assert_eq!(indices("s", "x/s.rs"), vec![2]);
    assert!(score("r", "a_r.txt") > score("r", "ar.txt"));
    assert!(score("r", "a-r.txt") > score("r", "ar.txt"));
    assert!(score("r", "a.r") > score("r", "ar"));
}

#[test]
fn extension_boundary_beats_buried_match() {
    // 'r' after '.' outscores an 'r' buried mid-word.
    assert_eq!(indices("rs", "main.rs"), vec![5, 6]);
}

#[test]
fn camel_case_bonus() {
    assert!(score("b", "fooBar.rs") > score("b", "foobar.rs"));
    assert_eq!(indices("b", "fooBar.rs"), vec![3]);
}

#[test]
fn consecutive_beats_gapped() {
    assert!(score("mn", "mn.rs") > score("mn", "moon.rs"));
}

#[test]
fn wider_gap_scores_lower() {
    assert!(score("mn", "man.rs") > score("mn", "maan.rs"));
}

#[test]
fn case_insensitive_matching() {
    assert_eq!(indices("MAIN", "main.rs"), vec![0, 1, 2, 3]);
    assert_eq!(indices("readme", "README.md"), vec![0, 1, 2, 3, 4, 5]);
    assert_eq!(score("main", "main.rs"), score("MAIN", "main.rs"));
}

#[test]
fn unicode_indices() {
    assert_eq!(indices("é", "café.rs"), vec![3]);
    assert_eq!(indices("中", "你好中国.txt"), vec![2]);
    assert_eq!(indices("é中", "aé中b"), vec![1, 2]);
}

fn finder() -> FinderState {
    FinderState::new(vec![
        "lib.rs".to_string(),
        "main.rs".to_string(),
        "notes.md".to_string(),
    ])
}

fn names(f: &FinderState) -> Vec<&str> {
    f.results.iter().map(|(n, _)| n.as_str()).collect()
}

#[test]
fn empty_query_lists_all_sorted() {
    let f = finder();
    assert_eq!(names(&f), vec!["lib.rs", "main.rs", "notes.md"]);
    assert!(f.results.iter().all(|(_, idx)| idx.is_empty()));
    assert_eq!(f.selected, 0);
}

#[test]
fn typing_filters_and_backspace_restores() {
    let mut f = finder();
    assert!(matches!(f.handle_key(Key::Char('l')), FinderAction::Stay));
    assert!(matches!(f.handle_key(Key::Char('i')), FinderAction::Stay));
    assert_eq!(f.query, "li");
    assert_eq!(names(&f), vec!["lib.rs"]);
    f.handle_key(Key::Backspace);
    assert_eq!(f.query, "l");
    assert_eq!(names(&f), vec!["lib.rs"]);
    f.handle_key(Key::Backspace);
    assert_eq!(f.query, "");
    assert_eq!(names(&f).len(), 3);
    f.handle_key(Key::Backspace);
    assert_eq!(f.query, "");
}

#[test]
fn selection_moves_and_clamps() {
    let mut f = finder();
    f.handle_key(Key::Up);
    assert_eq!(f.selected, 0);
    f.handle_key(Key::Down);
    assert_eq!(f.selected, 1);
    f.handle_key(Key::Tab);
    assert_eq!(f.selected, 2);
    f.handle_key(Key::Ctrl('n'));
    assert_eq!(f.selected, 2);
    f.handle_key(Key::Ctrl('p'));
    assert_eq!(f.selected, 1);
    f.handle_key(Key::Up);
    assert_eq!(f.selected, 0);
}

#[test]
fn selection_clamps_when_results_shrink() {
    let mut f = finder();
    f.handle_key(Key::Down);
    f.handle_key(Key::Down);
    assert_eq!(f.selected, 2);
    f.handle_key(Key::Char('m'));
    // "m" matches main.rs and notes.md but not lib.rs.
    assert_eq!(names(&f).len(), 2);
    assert_eq!(f.selected, 1);
}

#[test]
fn enter_opens_selected() {
    let mut f = finder();
    f.handle_key(Key::Down);
    let picked = names(&f)[1].to_string();
    assert_eq!(f.handle_key(Key::Enter), FinderAction::Open(picked));
}

#[test]
fn enter_with_no_results_creates_from_query() {
    let mut f = finder();
    for c in "zzz".chars() {
        f.handle_key(Key::Char(c));
    }
    assert!(f.results.is_empty());
    assert_eq!(f.handle_key(Key::Enter), FinderAction::Open("zzz".to_string()));
}

#[test]
fn enter_with_nothing_stays_open() {
    let mut f = FinderState::new(Vec::new());
    assert_eq!(f.handle_key(Key::Enter), FinderAction::Stay);
}

#[test]
fn buffers_target_never_creates_on_open() {
    let mut f = FinderState::buffers(vec!["main.rs".to_string()]);
    assert_eq!(f.target, FinderTarget::Buffers);
    for c in "zzz".chars() {
        f.handle_key(Key::Char(c));
    }
    assert!(f.results.is_empty());
    assert_eq!(f.handle_key(Key::Enter), FinderAction::Close);
    let mut f = FinderState::buffers(Vec::new());
    assert_eq!(f.handle_key(Key::Enter), FinderAction::Close);
}

#[test]
fn esc_and_ctrl_c_close() {
    let mut f = finder();
    assert_eq!(f.handle_key(Key::Esc), FinderAction::Close);
    assert_eq!(f.handle_key(Key::Ctrl('c')), FinderAction::Close);
}

#[test]
fn unhandled_keys_are_ignored() {
    let mut f = finder();
    assert_eq!(f.handle_key(Key::Left), FinderAction::Stay);
    assert_eq!(f.handle_key(Key::Home), FinderAction::Stay);
    assert_eq!(f.query, "");
    assert_eq!(names(&f).len(), 3);
}

#[test]
fn results_sorted_by_score_then_name() {
    let mut f = FinderState::new(vec![
        "mars.txt".to_string(),
        "main.rs".to_string(),
    ]);
    for c in "mrs".chars() {
        f.handle_key(Key::Char(c));
    }
    assert_eq!(names(&f), vec!["main.rs", "mars.txt"]);
}
