use std::collections::HashSet;

use inodegen::error::{DirRole, FileStep, RunError};
use inodegen::model::{Phase, Stage, FILE_BYTE};
use inodegen::pool::NamePool;
use inodegen::run::{Reply, Request, Run};

/// A stand-in for the filesystem: the paths that exist, and what was asked for.
struct Disk {
    entries: HashSet<String>,
    probed: Vec<String>,
    dirs_made: Vec<String>,
    files_written: Vec<(String, u8)>,
    notes: Vec<String>,
}

impl Disk {
    fn with_root(root: &str) -> Disk {
        let mut entries = HashSet::new();
        entries.insert(root.to_string());
        Disk {
            entries,
            probed: Vec::new(),
            dirs_made: Vec::new(),
            files_written: Vec::new(),
            notes: Vec::new(),
        }
    }

    fn empty() -> Disk {
        Disk {
            entries: HashSet::new(),
            probed: Vec::new(),
            dirs_made: Vec::new(),
            files_written: Vec::new(),
            notes: Vec::new(),
        }
    }

    fn forget_requests(&mut self) {
        self.probed.clear();
        self.dirs_made.clear();
        self.files_written.clear();
        self.notes.clear();
    }

    /// Does what a request for the driver says. `None` tells that the run is over.
    fn serve(&mut self, request: &Request) -> Option<Reply> {
        match request {
            Request::Probe { path } => {
                self.probed.push(path.clone());
                if self.entries.contains(path) {
                    Some(Reply::Present)
                } else {
                    Some(Reply::Absent)
                }
            }
            Request::MakeDir { path } => {
                self.entries.insert(path.clone());
                self.dirs_made.push(path.clone());
                Some(Reply::Done)
            }
            Request::WriteFile { path, content } => {
                self.entries.insert(path.clone());
                self.files_written.push((path.clone(), *content));
                Some(Reply::Done)
            }
            Request::StartNaming => {
                self.notes.push("naming".to_string());
                Some(Reply::Done)
            }
            Request::StartBuilding => {
                self.notes.push("building".to_string());
                Some(Reply::Done)
            }
            Request::Report { inodes } => {
                self.notes.push(format!("report {}", inodes));
                Some(Reply::Done)
            }
            Request::Exit | Request::Abort { .. } => None,
            Request::DrawName | Request::DrawNames { .. } => {
                panic!("a request for names reached the driver")
            }
        }
    }
}

/// Drives a run to its end with `step`, which draws the names.
fn drive(mut run: Run, disk: &mut Disk) -> Run {
    loop {
        let request = run.request();
        match disk.serve(&request) {
            Some(reply) => run = run.step(reply),
            None => return run,
        }
    }
}

/// Drives a run to its end with `advance`, supplying the names `d0000`, ... for
/// directories and `f-<level>-<index>` for files.
fn drive_with_names(mut run: Run, disk: &mut Disk) -> Run {
    let mut files_named = 0u64;
    loop {
        let request = run.request();
        let reply = match &request {
            Request::DrawNames { count } => {
                let names: Vec<String> = (0..*count).map(|i| format!("d{:04}", i)).collect();
                Reply::Names(NamePool::from_names(names).expect("safe names"))
            }
            Request::DrawName => {
                files_named += 1;
                Reply::Name(format!("f-{}-{}", run.levels_done(), files_named))
            }
            other => match disk.serve(other) {
                Some(reply) => reply,
                None => return run,
            },
        };
        run = run.advance(reply);
    }
}

fn parent(path: &str) -> &str {
    &path[..path.rfind('/').expect("a separator")]
}

fn start(root: &str, total: u64, depth: u64) -> Run {
    Run::start(root.to_string(), total, depth).expect("a workable target")
}

#[test]
fn hundred_inodes_at_depth_five() {
    let mut disk = Disk::with_root("/root");
    let run = drive(start("/root", 100, 5), &mut disk);
    assert_eq!(run.request(), Request::Exit);
    assert_eq!(run.stage(), Stage::Done);
    assert_eq!(run.levels_done(), 5);
    assert_eq!(run.inodes_done(), 100);
    assert_eq!(disk.dirs_made.len(), 6);
    assert_eq!(disk.dirs_made[0], "/root/defendertest_data");
    for level in 1..=5 {
        assert_eq!(parent(&disk.dirs_made[level]), disk.dirs_made[level - 1]);
        let inside = disk
            .files_written
            .iter()
            .filter(|(path, _)| parent(path) == disk.dirs_made[level])
            .count();
        assert_eq!(inside, 20);
    }
    assert_eq!(disk.files_written.len(), 100);
    assert_eq!(disk.notes, vec!["naming", "building", "report 100"]);
    assert_eq!(run.cursor(), &disk.dirs_made[5]);
}

#[test]
fn seven_inodes_at_depth_three_make_four_directories_of_two() {
    let mut disk = Disk::with_root("/root");
    let run = drive(start("/root", 7, 3), &mut disk);
    assert_eq!(run.request(), Request::Exit);
    assert_eq!(run.levels_done(), 4);
    assert_eq!(run.inodes_done(), 8);
    assert_eq!(disk.dirs_made.len(), 5);
    assert_eq!(disk.files_written.len(), 8);
    for level in 1..=4 {
        assert_eq!(parent(&disk.dirs_made[level]), disk.dirs_made[level - 1]);
        let inside = disk
            .files_written
            .iter()
            .filter(|(path, _)| parent(path) == disk.dirs_made[level])
            .count();
        assert_eq!(inside, 2);
    }
    assert_eq!(disk.notes, vec!["naming", "building", "report 7"]);
}

#[test]
fn missing_root_fails_at_once() {
    let mut disk = Disk::empty();
    let run = drive(start("/no/such/root", 100, 5), &mut disk);
    assert_eq!(
        run.request(),
        Request::Abort { error: RunError::InvalidRootPath { path: "/no/such/root".to_string() } }
    );
    assert_eq!(run.stage(), Stage::Failed);
    assert_eq!(disk.probed, vec!["/no/such/root"]);
    assert!(disk.dirs_made.is_empty());
    assert!(disk.files_written.is_empty());
    assert!(disk.notes.is_empty());
    match run.request() {
        Request::Abort { error } => {
            assert_eq!(error.message(), "Provided path /no/such/root does not exist")
        }
        other => panic!("unexpected request {:?}", other),
    }
}

#[test]
fn every_file_holds_the_one_byte() {
    let mut disk = Disk::with_root("/r");
    drive(start("/r", 60, 4), &mut disk);
    assert_eq!(FILE_BYTE, 0x58);
    assert_eq!(FILE_BYTE, b'X');
    assert_eq!(disk.files_written.len(), 60);
    for (_, content) in &disk.files_written {
        assert_eq!(*content, 0x58);
    }
}

#[test]
fn names_within_a_directory_are_distinct_tokens() {
    let mut disk = Disk::with_root("/r");
    drive(start("/r", 90, 3), &mut disk);
    let mut seen = HashSet::new();
    for (path, _) in &disk.files_written {
        let name = &path[parent(path).len() + 1..];
        assert_eq!(name.len(), 36);
        assert!(seen.insert(path.clone()));
    }
    let mut dirs = HashSet::new();
    for dir in &disk.dirs_made[1..] {
        let name = &dir[parent(dir).len() + 1..];
        assert_eq!(name.len(), 8);
        assert!(name.chars().all(|c| c.is_ascii_alphanumeric()));
        assert!(dirs.insert(name.to_string()));
    }
}

#[test]
fn existing_working_directory_is_not_made_again() {
    let mut disk = Disk::with_root("/r");
    disk.entries.insert("/r/defendertest_data".to_string());
    let run = drive(start("/r", 4, 2), &mut disk);
    assert_eq!(run.request(), Request::Exit);
    assert_eq!(disk.dirs_made.len(), 2);
    assert!(!disk.dirs_made.contains(&"/r/defendertest_data".to_string()));
    assert_eq!(disk.files_written.len(), 4);
}

#[test]
fn given_names_give_the_expected_tree() {
    let mut disk = Disk::with_root("/r");
    let run = drive_with_names(start("/r", 4, 2), &mut disk);
    assert_eq!(run.request(), Request::Exit);
    assert_eq!(
        disk.dirs_made,
        vec!["/r/defendertest_data", "/r/defendertest_data/d0003", "/r/defendertest_data/d0003/d0002"]
    );
    assert_eq!(
        disk.files_written,
        vec![
            ("/r/defendertest_data/d0003/f-0-1".to_string(), 0x58),
            ("/r/defendertest_data/d0003/f-0-2".to_string(), 0x58),
            ("/r/defendertest_data/d0003/d0002/f-1-3".to_string(), 0x58),
            ("/r/defendertest_data/d0003/d0002/f-1-4".to_string(), 0x58),
        ]
    );
    assert_eq!(
        disk.probed,
        vec![
            "/r",
            "/r/defendertest_data",
            "/r/defendertest_data/d0003",
            "/r/defendertest_data/d0003/f-0-1",
            "/r/defendertest_data/d0003/f-0-2",
            "/r/defendertest_data/d0003/d0002",
            "/r/defendertest_data/d0003/d0002/f-1-3",
            "/r/defendertest_data/d0003/d0002/f-1-4",
        ]
    );
}

#[test]
fn a_tree_that_exists_is_left_as_it_is() {
    let mut disk = Disk::with_root("/r");
    let first = drive_with_names(start("/r", 12, 3), &mut disk);
    assert_eq!(first.request(), Request::Exit);
    assert_eq!(disk.dirs_made.len(), 4);
    assert_eq!(disk.files_written.len(), 12);
    let before = disk.entries.clone();
    disk.forget_requests();
    let second = drive_with_names(start("/r", 12, 3), &mut disk);
    assert_eq!(second.request(), Request::Exit);
    assert_eq!(second.levels_done(), 3);
    assert!(disk.dirs_made.is_empty());
    assert!(disk.files_written.is_empty());
    assert_eq!(disk.probed.len(), 2 + 3 + 12);
    assert_eq!(disk.entries, before);
}

#[test]
fn a_partly_built_tree_is_completed() {
    let mut disk = Disk::with_root("/r");
    disk.entries.insert("/r/defendertest_data".to_string());
    disk.entries.insert("/r/defendertest_data/d0003".to_string());
    disk.entries.insert("/r/defendertest_data/d0003/f-0-2".to_string());
    let run = drive_with_names(start("/r", 4, 2), &mut disk);
    assert_eq!(run.request(), Request::Exit);
    assert_eq!(disk.dirs_made, vec!["/r/defendertest_data/d0003/d0002"]);
    let written: Vec<&str> = disk.files_written.iter().map(|(p, _)| p.as_str()).collect();
    assert_eq!(
        written,
        vec![
            "/r/defendertest_data/d0003/f-0-1",
            "/r/defendertest_data/d0003/d0002/f-1-3",
            "/r/defendertest_data/d0003/d0002/f-1-4",
        ]
    );
}

#[test]
fn a_rerun_with_fresh_names_does_not_fail() {
    let mut disk = Disk::with_root("/r");
    drive(start("/r", 10, 2), &mut disk);
    disk.forget_requests();
    let run = drive(start("/r", 10, 2), &mut disk);
    assert_eq!(run.request(), Request::Exit);
    assert_eq!(disk.files_written.len(), 10);
}

#[test]
fn run_starts_by_probing_the_root() {
    let run = start("/some/root", 10, 2);
    assert_eq!(run.phase(), Phase::ProbingRoot);
    assert_eq!(run.stage(), Stage::Validating);
    assert_eq!(run.request(), Request::Probe { path: "/some/root".to_string() });
    assert_eq!(run.levels_done(), 0);
    assert_eq!(run.inodes_done(), 0);
    assert_eq!(run.target().total_inodes(), 10);
    assert_eq!(run.target().depth(), 2);
    assert_eq!(run.cursor(), "/some/root");
}

#[test]
fn unworkable_target_starts_no_run() {
    assert_eq!(
        Run::start("/r".to_string(), 3, 5).err(),
        Some(RunError::InvalidTarget { total_inodes: 3, depth: 5 })
    );
    assert_eq!(
        Run::start("/r".to_string(), 3, 0).err(),
        Some(RunError::InvalidTarget { total_inodes: 3, depth: 0 })
    );
}

#[test]
fn stages_follow_one_another() {
    let run = start("/r", 2, 1);
    assert_eq!(run.stage(), Stage::Validating);
    let run = run.advance(Reply::Present);
    assert_eq!(run.phase(), Phase::ProbingWorkDir);
    assert_eq!(run.request(), Request::Probe { path: "/r/defendertest_data".to_string() });
    let run = run.advance(Reply::Absent);
    assert_eq!(run.phase(), Phase::MakingWorkDir);
    assert_eq!(run.stage(), Stage::Validating);
    assert_eq!(run.request(), Request::MakeDir { path: "/r/defendertest_data".to_string() });
    let run = run.advance(Reply::Done);
    assert_eq!(run.phase(), Phase::AnnouncingNames);
    assert_eq!(run.stage(), Stage::Generating);
    assert_eq!(run.request(), Request::StartNaming);
    let run = run.advance(Reply::Done);
    assert_eq!(run.phase(), Phase::DrawingPool);
    assert_eq!(run.request(), Request::DrawNames { count: 2 });
    let pool = NamePool::from_names(vec!["aa".to_string(), "bb".to_string()]).expect("safe names");
    let run = run.advance(Reply::Names(pool));
    assert_eq!(run.phase(), Phase::AnnouncingBuild);
    assert_eq!(run.stage(), Stage::Generating);
    assert_eq!(run.request(), Request::StartBuilding);
    let run = run.advance(Reply::Done);
    assert_eq!(run.phase(), Phase::ProbingDir);
    assert_eq!(run.stage(), Stage::Building);
    assert_eq!(run.request(), Request::Probe { path: "/r/defendertest_data/bb".to_string() });
    let run = run.advance(Reply::Absent);
    assert_eq!(run.phase(), Phase::MakingDir);
    assert_eq!(run.request(), Request::MakeDir { path: "/r/defendertest_data/bb".to_string() });
    let run = run.advance(Reply::Done);
    assert_eq!(run.phase(), Phase::DrawingName);
    assert_eq!(run.request(), Request::DrawName);
    assert_eq!(run.cursor(), "/r/defendertest_data/bb");
    let run = run.advance(Reply::Name("one".to_string()));
    assert_eq!(run.phase(), Phase::ProbingFile);
    assert_eq!(run.request(), Request::Probe { path: "/r/defendertest_data/bb/one".to_string() });
    let run = run.advance(Reply::Absent);
    assert_eq!(run.phase(), Phase::WritingFile);
    assert_eq!(
        run.request(),
        Request::WriteFile { path: "/r/defendertest_data/bb/one".to_string(), content: 0x58 }
    );
    let run = run.advance(Reply::Done);
    assert_eq!(run.phase(), Phase::DrawingName);
    assert_eq!(run.levels_done(), 0);
    let run = run.advance(Reply::Name("two".to_string()));
    let run = run.advance(Reply::Present);
    assert_eq!(run.phase(), Phase::Reporting);
    assert_eq!(run.stage(), Stage::Reporting);
    assert_eq!(run.request(), Request::Report { inodes: 2 });
    assert_eq!(run.levels_done(), 1);
    assert_eq!(run.inodes_done(), 2);
    let run = run.advance(Reply::Done);
    assert_eq!(run.phase(), Phase::Finished);
    assert_eq!(run.stage(), Stage::Done);
    assert_eq!(run.request(), Request::Exit);
}

/// A run for two files in each of two directories, about to name its first file.
fn at_first_file() -> Run {
    let pool = NamePool::from_names(vec![
        "d1".to_string(),
        "d2".to_string(),
        "d3".to_string(),
        "d4".to_string(),
    ])
    .expect("safe names");
    start("/r", 4, 2)
        .advance(Reply::Present)
        .advance(Reply::Present)
        .advance(Reply::Done)
        .advance(Reply::Names(pool))
        .advance(Reply::Done)
        .advance(Reply::Present)
}

#[test]
fn a_name_issued_before_is_turned_down() {
    let run = at_first_file();
    assert_eq!(run.request(), Request::DrawName);
    let run = run.advance(Reply::Name("same".to_string())).advance(Reply::Present);
    assert_eq!(run.request(), Request::DrawName);
    let run = run.advance(Reply::Name("same".to_string()));
    assert_eq!(run.phase(), Phase::DrawingName);
    assert_eq!(run.request(), Request::DrawName);
    let run = run.advance(Reply::Name("other".to_string()));
    assert_eq!(run.request(), Request::Probe { path: "/r/defendertest_data/d4/other".to_string() });
}

#[test]
fn a_name_may_come_again_in_the_next_directory() {
    let run = at_first_file()
        .advance(Reply::Name("one".to_string()))
        .advance(Reply::Present)
        .advance(Reply::Name("two".to_string()))
        .advance(Reply::Present);
    assert_eq!(run.request(), Request::Probe { path: "/r/defendertest_data/d4/d3".to_string() });
    assert_eq!(run.levels_done(), 1);
    let run = run.advance(Reply::Present).advance(Reply::Name("one".to_string()));
    assert_eq!(run.request(), Request::Probe { path: "/r/defendertest_data/d4/d3/one".to_string() });
}

#[test]
fn a_name_that_is_not_path_safe_is_turned_down() {
    let run = at_first_file();
    for bad in ["", "a/b", "..", "x y", "../../etc"] {
        let run = at_first_file().advance(Reply::Name(bad.to_string()));
        assert_eq!(run.request(), Request::DrawName);
    }
    assert_eq!(run.request(), Request::DrawName);
}

#[test]
fn no_name_to_be_had_ends_the_run() {
    let run = at_first_file().advance(Reply::Exhausted);
    assert_eq!(run.request(), Request::Abort { error: RunError::NamesExhausted });
    let run = start("/r", 4, 2)
        .advance(Reply::Present)
        .advance(Reply::Present)
        .advance(Reply::Done)
        .advance(Reply::Exhausted);
    assert_eq!(run.request(), Request::Abort { error: RunError::NamesExhausted });
    assert_eq!(run.stage(), Stage::Failed);
}

#[test]
fn a_pool_of_the_wrong_size_is_not_taken() {
    let pool = NamePool::from_names(vec!["d1".to_string()]).expect("safe names");
    let run = start("/r", 4, 2)
        .advance(Reply::Present)
        .advance(Reply::Present)
        .advance(Reply::Done)
        .advance(Reply::Names(pool));
    assert_eq!(run.request(), Request::Abort { error: RunError::UnexpectedReply });
}

#[test]
fn working_directory_that_cannot_be_made_ends_the_run() {
    let run = start("/r", 4, 2).advance(Reply::Present).advance(Reply::Absent).advance(
        Reply::CreateFailed,
    );
    assert_eq!(
        run.request(),
        Request::Abort {
            error: RunError::DirectoryCreation {
                path: "/r/defendertest_data".to_string(),
                role: DirRole::WorkRoot,
            }
        }
    );
}

#[test]
fn directory_that_cannot_be_made_ends_the_run() {
    let pool =
        NamePool::from_names(["a", "b", "c", "d"].iter().map(|s| s.to_string()).collect())
            .expect("safe names");
    let run = start("/r", 4, 2)
        .advance(Reply::Present)
        .advance(Reply::Present)
        .advance(Reply::Done)
        .advance(Reply::Names(pool))
        .advance(Reply::Done)
        .advance(Reply::Absent)
        .advance(Reply::CreateFailed);
    assert_eq!(
        run.request(),
        Request::Abort {
            error: RunError::DirectoryCreation {
                path: "/r/defendertest_data/d".to_string(),
                role: DirRole::Level,
            }
        }
    );
}

#[test]
fn file_that_cannot_be_created_or_written_ends_the_run() {
    let run = at_first_file()
        .advance(Reply::Name("f".to_string()))
        .advance(Reply::Absent)
        .advance(Reply::CreateFailed);
    assert_eq!(
        run.request(),
        Request::Abort {
            error: RunError::InodeCreation {
                path: "/r/defendertest_data/d4/f".to_string(),
                step: FileStep::Create,
            }
        }
    );
    let run = at_first_file()
        .advance(Reply::Name("f".to_string()))
        .advance(Reply::Absent)
        .advance(Reply::WriteFailed);
    assert_eq!(
        run.request(),
        Request::Abort {
            error: RunError::InodeCreation {
                path: "/r/defendertest_data/d4/f".to_string(),
                step: FileStep::Write,
            }
        }
    );
}

#[test]
fn failure_after_some_files_leaves_them_and_stops() {
    let mut disk = Disk::with_root("/r");
    let mut run = start("/r", 6, 2);
    let mut written = 0;
    loop {
        let request = run.request();
        let reply = match &request {
            Request::WriteFile { .. } if written == 4 => Reply::WriteFailed,
            Request::WriteFile { .. } => {
                written += 1;
                disk.serve(&request).expect("a reply")
            }
            other => match disk.serve(other) {
                Some(reply) => reply,
                None => break,
            },
        };
        run = run.step(reply);
    }
    assert_eq!(disk.files_written.len(), 4);
    assert_eq!(run.stage(), Stage::Failed);
    assert_eq!(run.levels_done(), 1);
    assert!(matches!(
        run.request(),
        Request::Abort { error: RunError::InodeCreation { step: FileStep::Write, .. } }
    ));
}

#[test]
fn a_reply_that_does_not_answer_ends_the_run() {
    let run = start("/r", 4, 2).advance(Reply::Done);
    assert_eq!(run.request(), Request::Abort { error: RunError::UnexpectedReply });
    let run = start("/r", 4, 2).advance(Reply::Present).advance(Reply::Name("x".to_string()));
    assert_eq!(run.request(), Request::Abort { error: RunError::UnexpectedReply });
    let run = at_first_file().advance(Reply::Present);
    assert_eq!(run.request(), Request::Abort { error: RunError::UnexpectedReply });
    let run = at_first_file().advance(Reply::Name("f".to_string())).advance(Reply::Done);
    assert_eq!(run.request(), Request::Abort { error: RunError::UnexpectedReply });
    let run = at_first_file()
        .advance(Reply::Name("f".to_string()))
        .advance(Reply::Absent)
        .advance(Reply::Absent);
    assert_eq!(run.request(), Request::Abort { error: RunError::UnexpectedReply });
}

#[test]
fn a_run_that_is_over_stays_as_it_is() {
    let failed = start("/gone", 4, 2).advance(Reply::Absent);
    let expected =
        Request::Abort { error: RunError::InvalidRootPath { path: "/gone".to_string() } };
    assert_eq!(failed.request(), expected);
    let failed = failed.advance(Reply::Present).advance(Reply::Done).advance(Reply::Exhausted);
    assert_eq!(failed.request(), expected);
    let failed = failed.step(Reply::Done);
    assert_eq!(failed.request(), expected);

    let mut disk = Disk::with_root("/r");
    let done = drive(start("/r", 2, 2), &mut disk);
    let done = done.advance(Reply::Absent).step(Reply::Done).advance(Reply::CreateFailed);
    assert_eq!(done.request(), Request::Exit);
    assert_eq!(done.levels_done(), 2);
}

#[test]
fn step_answers_every_request_for_names() {
    let mut run = start("/r", 9, 3);
    let mut disk = Disk::with_root("/r");
    let mut steps = 0;
    loop {
        let request = run.request();
        assert!(!matches!(request, Request::DrawName | Request::DrawNames { .. }));
        match disk.serve(&request) {
            Some(reply) => run = run.step(reply),
            None => break,
        }
        steps += 1;
    }
    assert_eq!(run.request(), Request::Exit);
    assert_eq!(steps, 3 + 2 + 3 * 2 + 9 * 2 + 1);
}

#[test]
fn a_run_for_one_inode_always_gets_its_names() {
    for _ in 0..20 {
        let mut disk = Disk::with_root("/r");
        let run = drive(start("/r", 1, 1), &mut disk);
        assert_eq!(run.request(), Request::Exit);
        assert_eq!(disk.dirs_made.len(), 2);
        assert_eq!(disk.files_written.len(), 1);
    }
}

#[test]
fn the_first_file_of_a_directory_takes_the_first_token() {
    let pool = NamePool::from_names(vec!["d1".to_string(), "d2".to_string()])
        .expect("safe names");
    let run = start("/r", 2, 2)
        .advance(Reply::Present)
        .advance(Reply::Present)
        .advance(Reply::Done)
        .advance(Reply::Names(pool))
        .advance(Reply::Done);
    assert_eq!(run.phase(), Phase::ProbingDir);
    let run = run.step(Reply::Present);
    assert_eq!(run.phase(), Phase::ProbingFile);
    match run.request() {
        Request::Probe { path } => {
            assert_eq!(parent(&path), "/r/defendertest_data/d2");
            assert_eq!(path.len(), "/r/defendertest_data/d2/".len() + 36);
        }
        other => panic!("unexpected request {:?}", other),
    }
}

#[test]
fn inodes_done_never_goes_down() {
    let mut run = start("/r", 10, 4);
    let mut disk = Disk::with_root("/r");
    let mut last = 0u128;
    loop {
        let request = run.request();
        match disk.serve(&request) {
            Some(reply) => run = run.step(reply),
            None => break,
        }
        assert!(run.inodes_done() >= last);
        assert_eq!(run.inodes_done(), run.levels_done() as u128 * 2);
        last = run.inodes_done();
    }
    assert_eq!(last, 10);
    assert_eq!(run.levels_done(), 5);
}
