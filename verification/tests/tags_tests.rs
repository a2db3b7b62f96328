use hannahanna::error::HnError;
use hannahanna::tags::{add_tags, list_all_tags, validate_tag_name, TagIndex};

fn strings(v: &[&str]) -> Vec<String> {
    v.iter().map(|s| s.to_string()).collect()
}

#[test]
fn test_tag_validation() {
    assert!(validate_tag_name("backend").is_ok());
    assert!(validate_tag_name("urgent-fix").is_ok());
    assert!(validate_tag_name("test_123").is_ok());

    assert!(validate_tag_name("").is_err());
    assert!(validate_tag_name("a".repeat(51).as_str()).is_err());
    assert!(validate_tag_name("invalid tag").is_err());
    assert!(validate_tag_name("invalid/tag").is_err());
}

#[test]
fn tag_errors_say_why() {
    match validate_tag_name("") {
        Err(HnError::ValidationError(m)) => assert_eq!(m, "Tag cannot be empty"),
        other => panic!("unexpected: {:?}", other),
    }
    match validate_tag_name("a".repeat(51).as_str()) {
        Err(HnError::ValidationError(m)) => assert_eq!(m, "Tag cannot be longer than 50 characters"),
        other => panic!("unexpected: {:?}", other),
    }
    assert!(validate_tag_name("a".repeat(50).as_str()).is_ok());
    // 26 two-byte letters are 52 bytes.
    assert!(validate_tag_name("é".repeat(26).as_str()).is_err());
    assert!(validate_tag_name("é".repeat(25).as_str()).is_ok());
    match validate_tag_name("x!") {
        Err(HnError::ValidationError(m)) => {
            assert_eq!(m, "Tag can only contain letters, numbers, hyphens, and underscores")
        }
        other => panic!("unexpected: {:?}", other),
    }
}

#[test]
fn tag_index_lookups() {
    let mut index = TagIndex::default();
    index.add_tags("wt1", &strings(&["backend", "urgent"]));
    index.add_tags("wt2", &strings(&["frontend"]));
    index.add_tags("wt3", &strings(&["backend"]));

    assert_eq!(index.get_worktree_tags("wt1"), vec!["backend", "urgent"]);
    assert_eq!(index.get_worktree_tags("wt2"), vec!["frontend"]);
    assert_eq!(index.get_worktrees_by_tag("backend"), vec!["wt1", "wt3"]);
    assert_eq!(index.get_tag_count("backend"), 2);
    assert_eq!(index.get_all_tags(), vec!["backend", "frontend", "urgent"]);
    assert_eq!(index.get_tag_count("missing"), 0);
    assert!(index.get_worktree_tags("nope").is_empty());
}

#[test]
fn removing_tags_drops_empty_entries() {
    let mut index = TagIndex::default();
    index.add_tags("wt1", &strings(&["a", "b"]));
    index.add_tags("wt2", &strings(&["a"]));
    index.remove_tags("wt1", &strings(&["a", "b"]));
    assert!(index.get_worktree_tags("wt1").is_empty());
    assert!(index.worktree_names() == vec!["wt2".to_string()]);
    assert_eq!(index.get_all_tags(), vec!["a"]);
    assert_eq!(index.get_worktrees_by_tag("a"), vec!["wt2"]);
    index.remove_worktree("wt2");
    assert!(index.get_all_tags().is_empty());
    assert!(index.worktree_names().is_empty());
}

#[test]
fn removing_a_worktree_clears_it_from_every_tag() {
    let mut index = TagIndex::default();
    index.add_tags("wt1", &strings(&["x", "y"]));
    index.add_tags("wt2", &strings(&["y"]));
    index.remove_worktree("wt1");
    assert!(index.get_worktrees_by_tag("x").is_empty());
    assert_eq!(index.get_worktrees_by_tag("y"), vec!["wt2"]);
    assert_eq!(index.get_all_tags(), vec!["y"]);
}

#[test]
fn validated_tagging_rejects_bad_tags_and_changes_nothing() {
    let mut index = TagIndex::default();
    match add_tags(&mut index, "wt1", &strings(&["good", "bad tag"])) {
        Err(HnError::ValidationError(_)) => {}
        other => panic!("unexpected: {:?}", other),
    }
    assert!(index.get_all_tags().is_empty());
    add_tags(&mut index, "wt1", &strings(&["good", "also-good"])).unwrap();
    assert_eq!(list_all_tags(&index), vec![("also-good".to_string(), 1), ("good".to_string(), 1)]);
}

#[test]
fn tagging_with_no_tags_creates_an_empty_entry() {
    let mut index = TagIndex::default();
    index.add_tags("wt1", &[]);
    assert_eq!(index.worktree_names(), vec!["wt1"]);
    assert!(index.get_worktree_tags("wt1").is_empty());
}

#[test]
fn tags_put_on_and_taken_off_leave_the_index_as_it_was() {
    let mut index = TagIndex::default();
    index.add_tags("wt1", &strings(&["backend"]));
    index.add_tags("wt2", &strings(&["backend", "ui"]));
    index.add_tags("wt1", &strings(&["urgent", "ui"]));
    index.remove_tags("wt1", &strings(&["urgent", "ui"]));
    assert_eq!(index.get_worktree_tags("wt1"), strings(&["backend"]));
    assert_eq!(index.get_worktrees_by_tag("ui"), strings(&["wt2"]));
    assert!(index.get_worktrees_by_tag("urgent").is_empty());
    assert_eq!(index.get_all_tags(), strings(&["backend", "ui"]));
}
