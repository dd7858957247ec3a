use inodegen::error::RunError;
use inodegen::plan::Target;

fn target(total: u64, depth: u64) -> Target {
    Target::new("/tmp".to_string(), total, depth).expect("a workable target")
}

#[test]
fn even_split_makes_depth_directories() {
    let t = target(100, 5);
    assert_eq!(t.inodes_per_dir(), 20);
    assert_eq!(t.levels(), 5);
    assert_eq!(t.files_placed(), 100);
}

#[test]
fn uneven_split_overshoots_by_less_than_one_share() {
    let t = target(7, 3);
    assert_eq!(t.inodes_per_dir(), 2);
    assert_eq!(t.levels(), 4);
    assert_eq!(t.files_placed(), 8);
}

#[test]
fn default_budget_and_depth() {
    let t = target(1_000_000, 20);
    assert_eq!(t.inodes_per_dir(), 50_000);
    assert_eq!(t.levels(), 20);
    assert_eq!(t.files_placed(), 1_000_000);
}

#[test]
fn depth_one_puts_everything_in_one_directory() {
    let t = target(9, 1);
    assert_eq!(t.inodes_per_dir(), 9);
    assert_eq!(t.levels(), 1);
    assert_eq!(t.files_placed(), 9);
}

#[test]
fn depth_equal_to_budget_gives_one_file_each() {
    let t = target(6, 6);
    assert_eq!(t.inodes_per_dir(), 1);
    assert_eq!(t.levels(), 6);
    assert_eq!(t.files_placed(), 6);
}

#[test]
fn remainder_just_below_depth() {
    let t = target(11, 4);
    assert_eq!(t.inodes_per_dir(), 2);
    assert_eq!(t.levels(), 6);
    assert_eq!(t.files_placed(), 12);
}

#[test]
fn largest_budget_does_not_overflow() {
    let t = target(u64::MAX, 2);
    assert_eq!(t.inodes_per_dir(), u64::MAX / 2);
    assert_eq!(t.levels(), 3);
    assert_eq!(t.files_placed(), 3 * ((u64::MAX / 2) as u128));
    let t = target(u64::MAX, 1);
    assert_eq!(t.levels(), 1);
    assert_eq!(t.files_placed(), u64::MAX as u128);
}

#[test]
fn target_keeps_its_parts() {
    let t = Target::new("/data/root".to_string(), 42, 6).expect("a workable target");
    assert_eq!(t.root(), "/data/root");
    assert_eq!(t.total_inodes(), 42);
    assert_eq!(t.depth(), 6);
}

#[test]
fn zero_depth_is_no_target() {
    let e = Target::new("/tmp".to_string(), 10, 0).err().expect("an error");
    assert_eq!(e, RunError::InvalidTarget { total_inodes: 10, depth: 0 });
}

#[test]
fn budget_below_depth_is_no_target() {
    let e = Target::new("/tmp".to_string(), 3, 5).err().expect("an error");
    assert_eq!(e, RunError::InvalidTarget { total_inodes: 3, depth: 5 });
}

#[test]
fn zero_budget_is_no_target() {
    let e = Target::new("/tmp".to_string(), 0, 5).err().expect("an error");
    assert_eq!(e, RunError::InvalidTarget { total_inodes: 0, depth: 5 });
    assert!(Target::new("/tmp".to_string(), 0, 0).is_err());
}
