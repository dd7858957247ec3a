use inodegen::order::compact;
use inodegen::pool::{
    absorb, generate_filenames, generate_filenames_within, settle, NamePool, BATCH,
};

fn owned(names: &[&str]) -> Vec<String> {
    names.iter().map(|n| n.to_string()).collect()
}

fn strictly_ascending(names: &[String]) -> bool {
    names.windows(2).all(|w| w[0] < w[1])
}

#[test]
fn compact_sorts_and_drops_duplicates() {
    let mut names = owned(&["b", "a", "b", "c", "a"]);
    compact(&mut names);
    assert_eq!(names, owned(&["a", "b", "c"]));
}

#[test]
fn compact_orders_by_code_point_and_puts_prefixes_first() {
    let mut names = owned(&["ab", "a", "B", "0", "aa", "b", "-"]);
    compact(&mut names);
    assert_eq!(names, owned(&["-", "0", "B", "a", "aa", "ab", "b"]));
}

#[test]
fn compact_leaves_an_empty_list_empty() {
    let mut names: Vec<String> = Vec::new();
    compact(&mut names);
    assert!(names.is_empty());
}

#[test]
fn compact_reduces_equal_names_to_one() {
    let mut names = owned(&["same", "same", "same"]);
    compact(&mut names);
    assert_eq!(names, owned(&["same"]));
}

#[test]
fn settle_leaves_a_partial_batch_alone() {
    let mut names = owned(&["b", "a", "b"]);
    assert!(!settle(&mut names, 10));
    assert_eq!(names, owned(&["b", "a", "b"]));
}

#[test]
fn settle_clears_duplicates_when_the_list_seems_complete() {
    let mut names = owned(&["b", "a", "b"]);
    assert!(!settle(&mut names, 3));
    assert_eq!(names, owned(&["a", "b"]));
}

#[test]
fn settle_reports_a_complete_list() {
    let mut names = owned(&["c", "a", "b"]);
    assert!(settle(&mut names, 3));
    assert_eq!(names, owned(&["a", "b", "c"]));
}

#[test]
fn settle_clears_duplicates_at_a_full_batch() {
    let mut names: Vec<String> = (0..BATCH).map(|i| format!("n{:04}", (BATCH - 1 - i) / 2)).collect();
    assert_eq!(names.len(), 1000);
    assert!(!settle(&mut names, 5000));
    assert_eq!(names.len(), 500);
    assert!(strictly_ascending(&names));
    assert_eq!(names[0], "n0000");
    assert_eq!(names[499], "n0499");
}

#[test]
fn settle_on_an_empty_list_asked_for_nothing_is_complete() {
    let mut names: Vec<String> = Vec::new();
    assert!(settle(&mut names, 0));
    assert!(names.is_empty());
}

#[test]
fn absorb_adds_a_candidate_to_a_partial_batch() {
    let mut names = owned(&["b"]);
    assert!(!absorb(&mut names, "a".to_string(), 5));
    assert_eq!(names, owned(&["b", "a"]));
    assert!(!absorb(&mut names, "a".to_string(), 5));
    assert_eq!(names, owned(&["b", "a", "a"]));
}

#[test]
fn absorb_finds_a_duplicate_when_the_list_seems_complete() {
    let mut names = owned(&["b", "a"]);
    assert!(!absorb(&mut names, "a".to_string(), 3));
    assert_eq!(names, owned(&["a", "b"]));
}

#[test]
fn absorb_completes_the_list_with_a_new_name() {
    let mut names = owned(&["b", "a"]);
    assert!(absorb(&mut names, "c".to_string(), 3));
    assert_eq!(names, owned(&["a", "b", "c"]));
}

#[test]
fn absorb_settles_at_a_full_batch() {
    let mut names: Vec<String> = (0..BATCH - 1).map(|i| format!("n{:04}", i % 10)).collect();
    assert!(!absorb(&mut names, "n0003".to_string(), 5000));
    assert_eq!(names.len(), 10);
    assert_eq!(names[0], "n0000");
    assert_eq!(names[9], "n0009");
}

#[test]
fn generating_no_names_gives_an_empty_pool() {
    assert_eq!(generate_filenames(0), Some(Vec::new()));
    assert_eq!(generate_filenames_within(0, 0), Some(Vec::new()));
}

#[test]
fn a_single_name_comes_with_the_first_draw() {
    for _ in 0..50 {
        let names = generate_filenames_within(1, 1).expect("one name");
        assert_eq!(names.len(), 1);
        assert_eq!(names[0].len(), 8);
        assert_eq!(generate_filenames(1).expect("one name").len(), 1);
        assert_eq!(NamePool::generate(1).expect("a pool").len(), 1);
    }
}

#[test]
fn generating_with_too_few_draws_gives_none() {
    assert_eq!(generate_filenames_within(5, 0), None);
    assert_eq!(generate_filenames_within(5, 4), None);
    assert_eq!(generate_filenames_within(1, 0), None);
}

#[test]
fn generated_names_are_as_many_as_asked_for() {
    for how_many in [1u64, 2, 7, 999, 1000, 1001, 2500] {
        let names = generate_filenames(how_many).expect("a pool");
        assert_eq!(names.len() as u64, how_many);
    }
}

#[test]
fn generated_names_are_distinct_short_names_in_order() {
    let names = generate_filenames(2500).expect("a pool");
    assert!(strictly_ascending(&names));
    for i in 1..names.len() {
        assert_ne!(names[i - 1], names[i]);
    }
    for name in &names {
        assert_eq!(name.len(), 8);
        assert!(name.chars().all(|c| c.is_ascii_alphanumeric()));
    }
}

#[test]
fn generating_with_just_enough_draws_may_succeed() {
    let names = generate_filenames_within(50, 50);
    if let Some(names) = names {
        assert_eq!(names.len(), 50);
        assert!(strictly_ascending(&names));
    }
}

#[test]
fn empty_pool_has_no_names() {
    let pool = NamePool::empty();
    assert_eq!(pool.len(), 0);
    let (pool, name) = pool.take();
    assert_eq!(name, None);
    assert_eq!(pool.len(), 0);
}

#[test]
fn pool_from_names_holds_each_name_once() {
    let pool = NamePool::from_names(owned(&["b", "a", "a", "c", "b"])).expect("a pool");
    assert_eq!(pool.len(), 3);
}

#[test]
fn pool_from_names_rejects_an_unsafe_name() {
    assert!(NamePool::from_names(owned(&["ok", "not/ok"])).is_none());
    assert!(NamePool::from_names(owned(&[""])).is_none());
    assert!(NamePool::from_names(owned(&[".."])).is_none());
}

#[test]
fn pool_gives_its_names_from_the_last_down_and_never_twice() {
    let pool = NamePool::from_names(owned(&["b", "a", "c", "a"])).expect("a pool");
    let (pool, first) = pool.take();
    let (pool, second) = pool.take();
    let (pool, third) = pool.take();
    let (pool, fourth) = pool.take();
    assert_eq!(first, Some("c".to_string()));
    assert_eq!(second, Some("b".to_string()));
    assert_eq!(third, Some("a".to_string()));
    assert_eq!(fourth, None);
    assert_eq!(pool.len(), 0);
}

#[test]
fn generated_pool_has_the_size_asked_for() {
    let pool = NamePool::generate(1234).expect("a pool");
    assert_eq!(pool.len(), 1234);
    let pool = NamePool::generate(0).expect("a pool");
    assert_eq!(pool.len(), 0);
}

#[test]
fn names_taken_from_a_generated_pool_are_pairwise_distinct() {
    let mut pool = NamePool::generate(300).expect("a pool");
    let mut taken: Vec<String> = Vec::new();
    loop {
        let (rest, name) = pool.take();
        pool = rest;
        match name {
            Some(name) => taken.push(name),
            None => break,
        }
    }
    assert_eq!(taken.len(), 300);
    for i in 0..taken.len() {
        for j in (i + 1)..taken.len() {
            assert_ne!(taken[i], taken[j]);
        }
    }
}
