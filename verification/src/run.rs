//! A run, ready to be driven.
//!
//! The driver asks a run for its open request, does what it says, and hands
//! the outcome back as a reply; the run then holds the next request.  `advance`
//! takes any reply, those that supply names included; `step` takes news of the
//! filesystem only and draws the names itself.

use crate::error::{DirRole, FileStep, RunError};
use crate::model::{
    close_level, enter_dir, failed, initial, next, open_level, request_of, settle_file, stage_of,
    valid, Phase, ReplyView, RequestView, RunModel, Stage, FILE_BYTE,
};
use crate::names::{check_path_safe, get_random_token, holds_token, is_token, issue};
use crate::plan::{share, Target};
use crate::pool::{all_short, NamePool, DRAW_LIMIT};
use crate::text::join;
use vstd::prelude::*;

verus! {

/// What the driver tells a run.
pub enum Reply {
    /// An entry exists at the path asked about.
    Present,
    /// No entry exists at the path asked about.
    Absent,
    /// What was asked for is done.
    Done,
    /// The directory or file could not be created.
    CreateFailed,
    /// The file was created, but its content could not be written.
    WriteFailed,
    /// A candidate for a file name.
    Name(String),
    /// The pool of directory names.
    Names(NamePool),
    /// No name, or no pool, could be had.
    Exhausted,
}

impl View for Reply {
    type V = ReplyView;

    open spec fn view(&self) -> ReplyView {
        match self {
            Reply::Present => ReplyView::Present,
            Reply::Absent => ReplyView::Absent,
            Reply::Done => ReplyView::Done,
            Reply::CreateFailed => ReplyView::CreateFailed,
            Reply::WriteFailed => ReplyView::WriteFailed,
            Reply::Name(name) => ReplyView::Name(name@),
            Reply::Names(pool) => ReplyView::Names(pool@),
            Reply::Exhausted => ReplyView::Exhausted,
        }
    }
}

/// What a run asks of its driver.
#[derive(Debug, PartialEq, Eq)]
pub enum Request {
    /// Tell whether an entry exists at `path`: `Present` or `Absent`.
    Probe { path: String },
    /// Create the directory `path`: `Done` or `CreateFailed`.
    MakeDir { path: String },
    /// Create the file `path` and write the one byte `content` to it: `Done`,
    /// `CreateFailed` or `WriteFailed`.
    WriteFile { path: String, content: u8 },
    /// Supply a candidate for a file name: `Name` or `Exhausted`.  A candidate
    /// that is not path-safe, or that was issued in this directory before, is
    /// turned down: the request stays open.
    DrawName,
    /// Supply a pool of `count` directory names: `Names` or `Exhausted`.  A
    /// pool of another size is not taken.
    DrawNames { count: u64 },
    /// Note that the pool of names is about to be made: `Done`.
    StartNaming,
    /// Note that creation is about to start: `Done`.
    StartBuilding,
    /// Print the summary for `inodes` inodes: `Done`.
    Report { inodes: u64 },
    /// Leave: the run is complete.
    Exit,
    /// Leave: the run has failed.
    Abort { error: RunError },
}

impl View for Request {
    type V = RequestView;

    open spec fn view(&self) -> RequestView {
        match self {
            Request::Probe { path } => RequestView::Probe { path: path@ },
            Request::MakeDir { path } => RequestView::MakeDir { path: path@ },
            Request::WriteFile { path, content } => RequestView::WriteFile {
                path: path@,
                content: *content,
            },
            Request::DrawName => RequestView::DrawName,
            Request::DrawNames { count } => RequestView::DrawNames { count: *count as nat },
            Request::StartNaming => RequestView::StartNaming,
            Request::StartBuilding => RequestView::StartBuilding,
            Request::Report { inodes } => RequestView::Report { inodes: *inodes as nat },
            Request::Exit => RequestView::Exit,
            Request::Abort { error } => RequestView::Abort { error: error@ },
        }
    }
}

/// A run: the state machine of `model`, holding real strings.
pub struct Run {
    target: Target,
    phase: Phase,
    pool: NamePool,
    cursor: String,
    entry: String,
    issued: Vec<String>,
    levels_done: u64,
    failure: Option<RunError>,
}

impl View for Run {
    type V = RunModel;

    closed spec fn view(&self) -> RunModel {
        RunModel {
            root: self.target@.root,
            total: self.target@.total,
            depth: self.target@.depth,
            phase: self.phase,
            pool: self.pool@,
            cursor: self.cursor@,
            entry: self.entry@,
            issued: self.issued.deep_view(),
            levels_done: self.levels_done as nat,
            failure: match self.failure {
                Some(error) => Some(error@),
                None => None,
            },
        }
    }
}

impl Run {
    #[verifier::type_invariant]
    spec fn inv(self) -> bool {
        valid(self@)
    }

    /// A run for `target`, about to ask whether the root exists.
    pub fn new(target: Target) -> (run: Run)
        ensures
            run@ == initial(target@.root, target@.total, target@.depth),
            valid(run@),
    {
        proof {
            use_type_invariant(&target);
        }
        let cursor = target.root().clone();
        let entry = String::from_str("defendertest_data");
        let issued: Vec<String> = Vec::new();
        let pool = NamePool::empty();
        assert(issued.deep_view() =~= Seq::<Seq<char>>::empty());
        assert(pool@ =~= Seq::<Seq<char>>::empty());
        Run {
            target,
            phase: Phase::ProbingRoot,
            pool,
            cursor,
            entry,
            issued,
            levels_done: 0,
            failure: None,
        }
    }

    /// A run for the target with these parts, or `InvalidTarget` if they make none.
    pub fn start(root: String, total_inodes: u64, depth: u64) -> (run: Result<Run, RunError>)
        ensures
            run is Ok <==> crate::plan::workable(total_inodes as nat, depth as nat),
            run matches Ok(r) ==> r@ == initial(root@, total_inodes as nat, depth as nat) && valid(
                r@,
            ),
            run matches Err(e) ==> e@ == (crate::error::RunErrorView::InvalidTarget {
                total_inodes: total_inodes as nat,
                depth: depth as nat,
            }),
    {
        match Target::new(root, total_inodes, depth) {
            Ok(target) => Ok(Run::new(target)),
            Err(error) => Err(error),
        }
    }

    /// The request that is open.
    pub fn request(&self) -> (request: Request)
        ensures
            request@ == request_of(self@),
    {
        match self.phase {
            Phase::ProbingRoot => Request::Probe { path: self.target.root().clone() },
            Phase::ProbingWorkDir | Phase::ProbingDir | Phase::ProbingFile => Request::Probe {
                path: join(self.cursor.as_str(), self.entry.as_str()),
            },
            Phase::MakingWorkDir | Phase::MakingDir => Request::MakeDir {
                path: join(self.cursor.as_str(), self.entry.as_str()),
            },
            Phase::WritingFile => Request::WriteFile {
                path: join(self.cursor.as_str(), self.entry.as_str()),
                content: FILE_BYTE,
            },
            Phase::AnnouncingNames => Request::StartNaming,
            Phase::DrawingPool => Request::DrawNames { count: self.target.total_inodes() },
            Phase::AnnouncingBuild => Request::StartBuilding,
            Phase::DrawingName => Request::DrawName,
            Phase::Reporting => Request::Report { inodes: self.target.total_inodes() },
            Phase::Finished => Request::Exit,
            Phase::Failed => Request::Abort {
                error: match &self.failure {
                    Some(error) => error.duplicate(),
                    None => RunError::UnexpectedReply,
                },
            },
        }
    }

    /// The run, failed.
    fn fail(self, error: RunError) -> (out: Run)
        ensures
            out@ == failed(self@, error@),
            valid(out@),
    {
        proof {
            use_type_invariant(&self);
        }
        Run { phase: Phase::Failed, failure: Some(error), ..self }
    }

    /// The run, with the next directory of the chain opened, `done` being
    /// the directories filled.
    fn open_level(self, done: u64) -> (out: Run)
        requires
            self@.failure is None,
            done * share(self@.total, self@.depth) < self@.total,
            self@.pool.len() + done == self@.total,
            crate::model::anchored(self@),
        ensures
            out@ == open_level(RunModel { levels_done: done as nat, ..self@ }),
            valid(out@),
    {
        proof {
            use_type_invariant(&self);
            crate::model::lemma_open_level_valid(RunModel { levels_done: done as nat, ..self@ });
        }
        let (pool, name) = self.pool.take();
        match name {
            Some(entry) => Run { phase: Phase::ProbingDir, pool, entry, levels_done: done, ..self },
            None => Run {
                phase: Phase::Failed,
                failure: Some(RunError::NamesExhausted),
                pool,
                levels_done: done,
                ..self
            },
        }
    }

    /// The run, stepped into the directory that was probed or made.
    fn enter_dir(self) -> (out: Run)
        requires
            self@.phase is ProbingDir || self@.phase is MakingDir,
        ensures
            out@ == enter_dir(self@),
            valid(out@),
    {
        proof {
            use_type_invariant(&self);
            crate::model::lemma_joined_keeps_prefix(
                crate::text::joined(self@.root, crate::model::work_dir_name()),
                self@.cursor,
                self@.entry,
            );
        }
        let cursor = join(self.cursor.as_str(), self.entry.as_str());
        let issued: Vec<String> = Vec::new();
        assert(issued.deep_view() =~= Seq::<Seq<char>>::empty());
        Run { phase: Phase::DrawingName, cursor, issued, ..self }
    }

    /// The run, with the directory just filled counted.
    fn close_level(self) -> (out: Run)
        requires
            self@.phase is ProbingFile || self@.phase is WritingFile,
        ensures
            out@ == close_level(self@),
            valid(out@),
    {
        proof {
            use_type_invariant(&self);
            crate::model::lemma_close_level_valid(self@);
            let q = share(self@.total, self@.depth) as int;
            let d = self@.levels_done as int;
            let t = self@.total as int;
            assert(d < t) by (nonlinear_arith)
                requires
                    d * q < t,
                    q >= 1,
                    d >= 0,
            ;
        }
        let per_dir: u64 = self.target.inodes_per_dir();
        let total: u64 = self.target.total_inodes();
        let done: u64 = self.levels_done + 1;
        assert(done * per_dir < 0x1_0000_0000_0000_0000 * 0x1_0000_0000_0000_0000)
            by (nonlinear_arith)
            requires
                done < 0x1_0000_0000_0000_0000,
                per_dir < 0x1_0000_0000_0000_0000,
        ;
        let placed: u128 = (done as u128) * (per_dir as u128);
        if placed >= total as u128 {
            Run { phase: Phase::Reporting, levels_done: done, ..self }
        } else {
            self.open_level(done)
        }
    }

    /// The run, gone on after a file is dealt with.
    fn settle_file(self) -> (out: Run)
        requires
            self@.phase is ProbingFile || self@.phase is WritingFile,
        ensures
            out@ == settle_file(self@),
            valid(out@),
    {
        proof {
            use_type_invariant(&self);
        }
        let per_dir: u64 = self.target.inodes_per_dir();
        if (self.issued.len() as u64) < per_dir {
            Run { phase: Phase::DrawingName, ..self }
        } else {
            self.close_level()
        }
    }

    /// The run after `reply`: the state that follows from the state it was in
    /// and the reply.
    pub fn advance(self, reply: Reply) -> (out: Run)
        ensures
            out@ == next(self@, reply@),
            valid(out@),
    {
        proof {
            use_type_invariant(&self);
        }
        match self.phase {
            Phase::ProbingRoot => match reply {
                Reply::Present => Run { phase: Phase::ProbingWorkDir, ..self },
                Reply::Absent => {
                    let path = self.target.root().clone();
                    self.fail(RunError::InvalidRootPath { path })
                },
                _ => self.fail(RunError::UnexpectedReply),
            },
            Phase::ProbingWorkDir => match reply {
                Reply::Present => {
                    let cursor = join(self.cursor.as_str(), self.entry.as_str());
                    Run { phase: Phase::AnnouncingNames, cursor, ..self }
                },
                Reply::Absent => Run { phase: Phase::MakingWorkDir, ..self },
                _ => self.fail(RunError::UnexpectedReply),
            },
            Phase::MakingWorkDir => match reply {
                Reply::Done => {
                    let cursor = join(self.cursor.as_str(), self.entry.as_str());
                    Run { phase: Phase::AnnouncingNames, cursor, ..self }
                },
                Reply::CreateFailed => {
                    let path = join(self.cursor.as_str(), self.entry.as_str());
                    self.fail(RunError::DirectoryCreation { path, role: DirRole::WorkRoot })
                },
                _ => self.fail(RunError::UnexpectedReply),
            },
            Phase::AnnouncingNames => match reply {
                Reply::Done => Run { phase: Phase::DrawingPool, ..self },
                _ => self.fail(RunError::UnexpectedReply),
            },
            Phase::DrawingPool => match reply {
                Reply::Names(pool) => {
                    proof {
                        use_type_invariant(&pool);
                    }
                    if pool.len() as u64 == self.target.total_inodes() {
                        Run { phase: Phase::AnnouncingBuild, pool, ..self }
                    } else {
                        self.fail(RunError::UnexpectedReply)
                    }
                },
                Reply::Exhausted => self.fail(RunError::NamesExhausted),
                _ => self.fail(RunError::UnexpectedReply),
            },
            Phase::AnnouncingBuild => match reply {
                Reply::Done => {
                    proof {
                        crate::model::lemma_first_level(self@);
                    }
                    self.open_level(0)
                },
                _ => self.fail(RunError::UnexpectedReply),
            },
            Phase::ProbingDir => match reply {
                Reply::Present => self.enter_dir(),
                Reply::Absent => Run { phase: Phase::MakingDir, ..self },
                _ => self.fail(RunError::UnexpectedReply),
            },
            Phase::MakingDir => match reply {
                Reply::Done => self.enter_dir(),
                Reply::CreateFailed => {
                    let path = join(self.cursor.as_str(), self.entry.as_str());
                    self.fail(RunError::DirectoryCreation { path, role: DirRole::Level })
                },
                _ => self.fail(RunError::UnexpectedReply),
            },
            Phase::DrawingName => match reply {
                Reply::Name(name) => {
                    if check_path_safe(name.as_str()) {
                        let entry = name.clone();
                        let mut issued = self.issued;
                        if issue(&mut issued, name) {
                            Run { phase: Phase::ProbingFile, entry, issued, ..self }
                        } else {
                            Run { issued, ..self }
                        }
                    } else {
                        self
                    }
                },
                Reply::Exhausted => self.fail(RunError::NamesExhausted),
                _ => self.fail(RunError::UnexpectedReply),
            },
            Phase::ProbingFile => match reply {
                Reply::Present => self.settle_file(),
                Reply::Absent => Run { phase: Phase::WritingFile, ..self },
                _ => self.fail(RunError::UnexpectedReply),
            },
            Phase::WritingFile => match reply {
                Reply::Done => self.settle_file(),
                Reply::CreateFailed => {
                    let path = join(self.cursor.as_str(), self.entry.as_str());
                    self.fail(RunError::InodeCreation { path, step: FileStep::Create })
                },
                Reply::WriteFailed => {
                    let path = join(self.cursor.as_str(), self.entry.as_str());
                    self.fail(RunError::InodeCreation { path, step: FileStep::Write })
                },
                _ => self.fail(RunError::UnexpectedReply),
            },
            Phase::Reporting => match reply {
                Reply::Done => Run { phase: Phase::Finished, ..self },
                _ => self.fail(RunError::UnexpectedReply),
            },
            Phase::Finished => self,
            Phase::Failed => self,
        }
    }

    /// The run after `reply`, with every request for names answered: where
    /// the run then wants a file name, tokens are drawn until it takes one,
    /// and where it wants its pool, the pool is made.  The request that is
    /// open afterwards is one for the driver.  A directory that holds no
    /// token yet takes the first one drawn, and a pool of one name is always
    /// had; elsewhere the draws decide whether the run goes on or fails for
    /// want of names.
    pub fn step(self, reply: Reply) -> (out: Run)
        ensures
            valid(out@),
            !(out@.phase is DrawingName),
            !(out@.phase is DrawingPool),
            match next(self@, reply@).phase {
                Phase::DrawingName => {
                    ||| out@ == next(next(self@, reply@), ReplyView::Exhausted)
                    ||| {
                        &&& out@.phase is ProbingFile
                        &&& is_token(out@.entry)
                        &&& out@ == next(next(self@, reply@), ReplyView::Name(out@.entry))
                    }
                },
                Phase::DrawingPool => {
                    ||| out@ == next(next(self@, reply@), ReplyView::Exhausted)
                    ||| {
                        &&& out@.phase is AnnouncingBuild
                        &&& all_short(out@.pool)
                        &&& out@ == next(next(self@, reply@), ReplyView::Names(out@.pool))
                    }
                },
                _ => out@ == next(self@, reply@),
            },
            next(self@, reply@).phase is DrawingName && !holds_token(next(self@, reply@).issued)
                ==> out@.phase is ProbingFile,
            next(self@, reply@).phase is DrawingPool && self@.total == 1 ==> out@.phase
                is AnnouncingBuild,
    {
        let ghost start = next(self@, reply@);
        let mut run = self.advance(reply);
        match run.phase {
            Phase::DrawingPool => {
                let count = run.target.total_inodes();
                let supply = match NamePool::generate(count) {
                    Some(pool) => Reply::Names(pool),
                    None => Reply::Exhausted,
                };
                return run.advance(supply);
            },
            Phase::DrawingName => {},
            _ => {
                return run;
            },
        }
        let mut attempts: u64 = DRAW_LIMIT;
        while attempts > 0
            invariant
                run@ == start,
                start == next(self@, reply@),
                start.phase is DrawingName,
                attempts == DRAW_LIMIT || holds_token(start.issued),
            decreases attempts,
        {
            attempts = attempts - 1;
            let token = get_random_token();
            let ghost name = token@;
            run = run.advance(Reply::Name(token));
            match run.phase {
                Phase::DrawingName => {
                    proof {
                        let at = choose|i: int|
                            0 <= i < start.issued.len() && start.issued[i] == name;
                        assert(is_token(start.issued[at]));
                    }
                },
                _ => {
                    return run;
                },
            }
        }
        run.advance(Reply::Exhausted)
    }

    /// Where the run stands.
    pub fn phase(&self) -> (phase: Phase)
        ensures
            phase == self@.phase,
    {
        self.phase
    }

    /// The coarse state of the run.
    pub fn stage(&self) -> (stage: Stage)
        ensures
            stage == stage_of(self@.phase),
    {
        match self.phase {
            Phase::ProbingRoot | Phase::ProbingWorkDir | Phase::MakingWorkDir => Stage::Validating,
            Phase::AnnouncingNames | Phase::DrawingPool | Phase::AnnouncingBuild => {
                Stage::Generating
            },
            Phase::ProbingDir | Phase::MakingDir | Phase::DrawingName | Phase::ProbingFile
            | Phase::WritingFile => Stage::Building,
            Phase::Reporting => Stage::Reporting,
            Phase::Finished => Stage::Done,
            Phase::Failed => Stage::Failed,
        }
    }

    /// What the run was asked for.
    pub fn target(&self) -> (target: &Target)
        ensures
            target@.root == self@.root,
            target@.total == self@.total,
            target@.depth == self@.depth,
    {
        &self.target
    }

    /// The directory that the run works in.
    pub fn cursor(&self) -> (cursor: &String)
        ensures
            cursor@ == self@.cursor,
    {
        &self.cursor
    }

    /// Number of directories of the chain that are filled.
    pub fn levels_done(&self) -> (count: u64)
        ensures
            count == self@.levels_done,
    {
        self.levels_done
    }

    /// Number of files in the directories that are filled: the count of
    /// inodes created so far, which never goes down.
    pub fn inodes_done(&self) -> (count: u128)
        ensures
            count == self@.levels_done * share(self@.total, self@.depth),
    {
        let per_dir: u64 = self.target.inodes_per_dir();
        let done: u64 = self.levels_done;
        assert(done * per_dir < 0x1_0000_0000_0000_0000 * 0x1_0000_0000_0000_0000)
            by (nonlinear_arith)
            requires
                done < 0x1_0000_0000_0000_0000,
                per_dir < 0x1_0000_0000_0000_0000,
        ;
        (done as u128) * (per_dir as u128)
    }
}

} // verus!
