//! A run as a state machine over plain values: its states, the requests it
//! puts to its driver, the replies it takes, and what follows from them.
//!
//! A run checks that the root exists and makes the working directory in it,
//! gets its pool of directory names, and then builds the chain: it opens one
//! directory inside the last, fills it with files, and goes on until the
//! files placed reach the budget.  Whatever already exists is left as it is.

use crate::error::{DirRole, FileStep, RunErrorView};
use crate::names::is_path_safe;
use crate::order::strictly_ascending;
use crate::plan::{lemma_even_split, lemma_levels_bracket, lemma_levels_unique, levels, share, workable};
use crate::pool::all_path_safe;
use crate::text::joined;
use vstd::prelude::*;

verus! {

/// The one byte that every file holds: the letter `X`.
pub const FILE_BYTE: u8 = 0x58;

/// Name of the working directory, which holds everything a run creates.
pub open spec fn work_dir_name() -> Seq<char> {
    "defendertest_data"@
}

/// Where a run stands.  In all but the last two a request is open.
#[derive(Clone, Copy, Debug, PartialEq, Eq)]
pub enum Phase {
    /// Asking whether the root exists.
    ProbingRoot,
    /// Asking whether the working directory exists.
    ProbingWorkDir,
    /// Having the working directory made.
    MakingWorkDir,
    /// Telling that the pool of names is about to be made.
    AnnouncingNames,
    /// Waiting for the pool of names.
    DrawingPool,
    /// Telling that creation is about to start.
    AnnouncingBuild,
    /// Asking whether the next directory of the chain exists.
    ProbingDir,
    /// Having the next directory of the chain made.
    MakingDir,
    /// Waiting for a candidate name for the next file.
    DrawingName,
    /// Asking whether the next file exists.
    ProbingFile,
    /// Having the next file made.
    WritingFile,
    /// Asking for the summary to be printed.
    Reporting,
    /// The run is complete.
    Finished,
    /// The run has failed.
    Failed,
}

/// The coarse state of a run.
#[derive(Clone, Copy, Debug, PartialEq, Eq)]
pub enum Stage {
    Validating,
    Generating,
    Building,
    Reporting,
    Done,
    Failed,
}

/// The coarse state that a phase belongs to.
pub open spec fn stage_of(phase: Phase) -> Stage {
    match phase {
        Phase::ProbingRoot | Phase::ProbingWorkDir | Phase::MakingWorkDir => Stage::Validating,
        Phase::AnnouncingNames | Phase::DrawingPool | Phase::AnnouncingBuild => Stage::Generating,
        Phase::ProbingDir | Phase::MakingDir | Phase::DrawingName | Phase::ProbingFile
        | Phase::WritingFile => Stage::Building,
        Phase::Reporting => Stage::Reporting,
        Phase::Finished => Stage::Done,
        Phase::Failed => Stage::Failed,
    }
}

/// The state of a run.
pub struct RunModel {
    /// The root path.
    pub root: Seq<char>,
    /// The number of inodes asked for.
    pub total: nat,
    /// The depth asked for.
    pub depth: nat,
    /// Where the run stands.
    pub phase: Phase,
    /// The directory names not used yet.
    pub pool: Seq<Seq<char>>,
    /// The directory that the run works in: the deepest one made so far.
    pub cursor: Seq<char>,
    /// The name of the entry of `cursor` that the run deals with.
    pub entry: Seq<char>,
    /// The file names issued in `cursor`.
    pub issued: Seq<Seq<char>>,
    /// The directories of the chain that are filled.
    pub levels_done: nat,
    /// Why the run failed, if it did.
    pub failure: Option<RunErrorView>,
}

/// What the driver tells a run.
pub enum ReplyView {
    /// An entry exists at the path asked about.
    Present,
    /// No entry exists at the path asked about.
    Absent,
    /// What was asked for is done.
    Done,
    /// The directory or file could not be created.
    CreateFailed,
    /// The file was created, but its content could not be written.
    WriteFailed,
    /// A candidate for a file name.
    Name(Seq<char>),
    /// The pool of directory names.
    Names(Seq<Seq<char>>),
    /// No name, or no pool, could be had.
    Exhausted,
}

/// What a run asks of its driver.
pub enum RequestView {
    /// Tell whether an entry exists at `path`.
    Probe { path: Seq<char> },
    /// Create the directory `path`.
    MakeDir { path: Seq<char> },
    /// Create the file `path` and write the one byte `content` to it.
    WriteFile { path: Seq<char>, content: u8 },
    /// Supply a candidate for a file name.
    DrawName,
    /// Supply a pool of `count` directory names.
    DrawNames { count: nat },
    /// Note that the pool of names is about to be made.
    StartNaming,
    /// Note that creation is about to start.
    StartBuilding,
    /// Print the summary for `inodes` inodes.
    Report { inodes: nat },
    /// Leave: the run is complete.
    Exit,
    /// Leave: the run has failed.
    Abort { error: RunErrorView },
}

/// The state in which a run for this target starts.
pub open spec fn initial(root: Seq<char>, total: nat, depth: nat) -> RunModel {
    RunModel {
        root,
        total,
        depth,
        phase: Phase::ProbingRoot,
        pool: Seq::empty(),
        cursor: root,
        entry: work_dir_name(),
        issued: Seq::empty(),
        levels_done: 0,
        failure: None,
    }
}

/// The request that is open in a state.
pub open spec fn request_of(m: RunModel) -> RequestView {
    match m.phase {
        Phase::ProbingRoot => RequestView::Probe { path: m.root },
        Phase::ProbingWorkDir | Phase::ProbingDir | Phase::ProbingFile => RequestView::Probe {
            path: joined(m.cursor, m.entry),
        },
        Phase::MakingWorkDir | Phase::MakingDir => RequestView::MakeDir {
            path: joined(m.cursor, m.entry),
        },
        Phase::WritingFile => RequestView::WriteFile {
            path: joined(m.cursor, m.entry),
            content: FILE_BYTE,
        },
        Phase::AnnouncingNames => RequestView::StartNaming,
        Phase::DrawingPool => RequestView::DrawNames { count: m.total },
        Phase::AnnouncingBuild => RequestView::StartBuilding,
        Phase::DrawingName => RequestView::DrawName,
        Phase::Reporting => RequestView::Report { inodes: m.total },
        Phase::Finished => RequestView::Exit,
        Phase::Failed => RequestView::Abort {
            error: match m.failure {
                Some(error) => error,
                None => RunErrorView::UnexpectedReply,
            },
        },
    }
}

/// The state after a failure.
pub open spec fn failed(m: RunModel, error: RunErrorView) -> RunModel {
    RunModel { phase: Phase::Failed, failure: Some(error), ..m }
}

/// Opens the next directory of the chain: its name is the last of the pool.
pub open spec fn open_level(m: RunModel) -> RunModel {
    if m.pool.len() == 0 {
        failed(m, RunErrorView::NamesExhausted)
    } else {
        RunModel { phase: Phase::ProbingDir, entry: m.pool.last(), pool: m.pool.drop_last(), ..m }
    }
}

/// Steps into the directory that was probed or made: it becomes the
/// directory the run works in, and no file name is issued in it yet.
pub open spec fn enter_dir(m: RunModel) -> RunModel {
    RunModel {
        phase: Phase::DrawingName,
        cursor: joined(m.cursor, m.entry),
        issued: Seq::empty(),
        ..m
    }
}

/// Counts the directory just filled, and reports if the files placed reach
/// the budget; otherwise opens the next directory.
pub open spec fn close_level(m: RunModel) -> RunModel {
    let done = m.levels_done + 1;
    if done * share(m.total, m.depth) >= m.total {
        RunModel { phase: Phase::Reporting, levels_done: done, ..m }
    } else {
        open_level(RunModel { levels_done: done, ..m })
    }
}

/// Goes on after a file is dealt with: to the next file of the directory, or,
/// when the directory has its share, to the next directory.
pub open spec fn settle_file(m: RunModel) -> RunModel {
    if m.issued.len() < share(m.total, m.depth) {
        RunModel { phase: Phase::DrawingName, ..m }
    } else {
        close_level(m)
    }
}

/// Whether a pool can serve a run that is asked for `total` inodes.
pub open spec fn pool_fits(pool: Seq<Seq<char>>, total: nat) -> bool {
    pool.len() == total && strictly_ascending(pool) && all_path_safe(pool)
}

/// The state that follows from a state and a reply.
pub open spec fn next(m: RunModel, reply: ReplyView) -> RunModel {
    match m.phase {
        Phase::ProbingRoot => match reply {
            ReplyView::Present => RunModel { phase: Phase::ProbingWorkDir, ..m },
            ReplyView::Absent => failed(m, RunErrorView::InvalidRootPath { path: m.root }),
            _ => failed(m, RunErrorView::UnexpectedReply),
        },
        Phase::ProbingWorkDir => match reply {
            ReplyView::Present => RunModel {
                phase: Phase::AnnouncingNames,
                cursor: joined(m.cursor, m.entry),
                ..m
            },
            ReplyView::Absent => RunModel { phase: Phase::MakingWorkDir, ..m },
            _ => failed(m, RunErrorView::UnexpectedReply),
        },
        Phase::MakingWorkDir => match reply {
            ReplyView::Done => RunModel {
                phase: Phase::AnnouncingNames,
                cursor: joined(m.cursor, m.entry),
                ..m
            },
            ReplyView::CreateFailed => failed(
                m,
                RunErrorView::DirectoryCreation {
                    path: joined(m.cursor, m.entry),
                    role: DirRole::WorkRoot,
                },
            ),
            _ => failed(m, RunErrorView::UnexpectedReply),
        },
        Phase::AnnouncingNames => match reply {
            ReplyView::Done => RunModel { phase: Phase::DrawingPool, ..m },
            _ => failed(m, RunErrorView::UnexpectedReply),
        },
        Phase::DrawingPool => match reply {
            ReplyView::Names(pool) => if pool_fits(pool, m.total) {
                RunModel { phase: Phase::AnnouncingBuild, pool, ..m }
            } else {
                failed(m, RunErrorView::UnexpectedReply)
            },
            ReplyView::Exhausted => failed(m, RunErrorView::NamesExhausted),
            _ => failed(m, RunErrorView::UnexpectedReply),
        },
        Phase::AnnouncingBuild => match reply {
            ReplyView::Done => open_level(m),
            _ => failed(m, RunErrorView::UnexpectedReply),
        },
        Phase::ProbingDir => match reply {
            ReplyView::Present => enter_dir(m),
            ReplyView::Absent => RunModel { phase: Phase::MakingDir, ..m },
            _ => failed(m, RunErrorView::UnexpectedReply),
        },
        Phase::MakingDir => match reply {
            ReplyView::Done => enter_dir(m),
            ReplyView::CreateFailed => failed(
                m,
                RunErrorView::DirectoryCreation {
                    path: joined(m.cursor, m.entry),
                    role: DirRole::Level,
                },
            ),
            _ => failed(m, RunErrorView::UnexpectedReply),
        },
        Phase::DrawingName => match reply {
            ReplyView::Name(name) => if is_path_safe(name) && !m.issued.contains(name) {
                RunModel { phase: Phase::ProbingFile, entry: name, issued: m.issued.push(name), ..m }
            } else {
                m
            },
            ReplyView::Exhausted => failed(m, RunErrorView::NamesExhausted),
            _ => failed(m, RunErrorView::UnexpectedReply),
        },
        Phase::ProbingFile => match reply {
            ReplyView::Present => settle_file(m),
            ReplyView::Absent => RunModel { phase: Phase::WritingFile, ..m },
            _ => failed(m, RunErrorView::UnexpectedReply),
        },
        Phase::WritingFile => match reply {
            ReplyView::Done => settle_file(m),
            ReplyView::CreateFailed => failed(
                m,
                RunErrorView::InodeCreation {
                    path: joined(m.cursor, m.entry),
                    step: FileStep::Create,
                },
            ),
            ReplyView::WriteFailed => failed(
                m,
                RunErrorView::InodeCreation {
                    path: joined(m.cursor, m.entry),
                    step: FileStep::Write,
                },
            ),
            _ => failed(m, RunErrorView::UnexpectedReply),
        },
        Phase::Reporting => match reply {
            ReplyView::Done => RunModel { phase: Phase::Finished, ..m },
            _ => failed(m, RunErrorView::UnexpectedReply),
        },
        Phase::Finished => m,
        Phase::Failed => m,
    }
}

/// The state after a row of replies.
pub open spec fn play(m: RunModel, replies: Seq<ReplyView>) -> RunModel
    decreases replies.len(),
{
    if replies.len() == 0 {
        m
    } else {
        next(play(m, replies.drop_last()), replies.last())
    }
}

/// The directory the run works in is the working directory or lies below it.
pub open spec fn anchored(m: RunModel) -> bool {
    joined(m.root, work_dir_name()).is_prefix_of(m.cursor)
}

/// A directory of the chain is open and not yet counted: the files counted
/// so far fall short of the budget, the pool has given one name for each
/// directory opened, and the run works below the working directory.
pub open spec fn in_level(m: RunModel) -> bool {
    &&& m.levels_done * share(m.total, m.depth) < m.total
    &&& m.pool.len() + m.levels_done + 1 == m.total
    &&& anchored(m)
}

/// An entry of a directory lies below whatever the directory lies below.
pub proof fn lemma_joined_keeps_prefix(base: Seq<char>, dir: Seq<char>, name: Seq<char>)
    requires
        base.is_prefix_of(dir),
    ensures
        base.is_prefix_of(joined(dir, name)),
        joined(dir, name).len() == dir.len() + 1 + name.len(),
        dir.is_prefix_of(joined(dir, name)),
{
    let path = joined(dir, name);
    assert(path.subrange(0, base.len() as int) =~= dir.subrange(0, base.len() as int));
    assert(path.subrange(0, dir.len() as int) =~= dir);
}

/// What holds of every state that a run can reach.
pub open spec fn valid(m: RunModel) -> bool {
    &&& workable(m.total, m.depth)
    &&& strictly_ascending(m.pool)
    &&& all_path_safe(m.pool)
    &&& m.issued.no_duplicates()
    &&& all_path_safe(m.issued)
    &&& m.issued.len() <= share(m.total, m.depth)
    &&& (m.phase is Failed <==> m.failure is Some)
    &&& match m.phase {
        Phase::ProbingRoot | Phase::ProbingWorkDir | Phase::MakingWorkDir => {
            &&& m.levels_done == 0
            &&& m.cursor == m.root
            &&& m.entry == work_dir_name()
        },
        Phase::AnnouncingNames | Phase::DrawingPool => {
            &&& m.levels_done == 0
            &&& m.cursor == joined(m.root, work_dir_name())
        },
        Phase::AnnouncingBuild => {
            &&& m.levels_done == 0
            &&& m.cursor == joined(m.root, work_dir_name())
            &&& m.pool.len() == m.total
        },
        Phase::ProbingDir | Phase::MakingDir => in_level(m) && is_path_safe(m.entry),
        Phase::DrawingName => in_level(m) && m.issued.len() < share(m.total, m.depth),
        Phase::ProbingFile | Phase::WritingFile => {
            &&& in_level(m)
            &&& m.issued.len() >= 1
            &&& m.entry == m.issued.last()
        },
        Phase::Reporting | Phase::Finished => m.levels_done == levels(m.total, m.depth),
        Phase::Failed => true,
    }
}

/// Whether a reply is one that the open request allows for.
pub open spec fn answers(m: RunModel, reply: ReplyView) -> bool {
    match request_of(m) {
        RequestView::Probe { .. } => reply is Present || reply is Absent,
        RequestView::MakeDir { .. } => reply is Done || reply is CreateFailed,
        RequestView::WriteFile { .. } => reply is Done || reply is CreateFailed
            || reply is WriteFailed,
        RequestView::DrawName => reply is Name || reply is Exhausted,
        RequestView::DrawNames { .. } => match reply {
            ReplyView::Names(pool) => pool_fits(pool, m.total),
            ReplyView::Exhausted => true,
            _ => false,
        },
        RequestView::StartNaming => reply is Done,
        RequestView::StartBuilding => reply is Done,
        RequestView::Report { .. } => reply is Done,
        RequestView::Exit => true,
        RequestView::Abort { .. } => true,
    }
}

/// A reply that tells of nothing missing: no entry absent, no name wanting.
pub open spec fn finds_all(reply: ReplyView) -> bool {
    !(reply is Absent) && !(reply is Exhausted)
}

/// The run has not failed, and what it asks for creates nothing.
pub open spec fn untouched(m: RunModel) -> bool {
    !(m.phase is Failed) && !(request_of(m) is MakeDir) && !(request_of(m) is WriteFile)
}

/// A run for a workable target starts in a valid state.
pub proof fn lemma_initial_valid(root: Seq<char>, total: nat, depth: nat)
    requires
        workable(total, depth),
    ensures
        valid(initial(root, total, depth)),
{
}

/// Opening a directory from a valid state with a name left in the pool.
pub proof fn lemma_open_level_valid(m: RunModel)
    requires
        workable(m.total, m.depth),
        strictly_ascending(m.pool),
        all_path_safe(m.pool),
        m.issued.no_duplicates(),
        all_path_safe(m.issued),
        m.issued.len() <= share(m.total, m.depth),
        m.failure is None,
        m.levels_done * share(m.total, m.depth) < m.total,
        m.pool.len() + m.levels_done == m.total,
        anchored(m),
    ensures
        valid(open_level(m)),
        open_level(m).phase is ProbingDir,
{
    let q = share(m.total, m.depth) as int;
    let d = m.levels_done as int;
    let t = m.total as int;
    assert(d < t) by (nonlinear_arith)
        requires
            d * q < t,
            q >= 1,
            d >= 0,
    ;
    let n = open_level(m);
    assert(m.pool.len() > 0);
    assert(is_path_safe(m.pool[m.pool.len() - 1]));
    assert forall|i: int, j: int| 0 <= i < j < n.pool.len() implies crate::order::name_le(
        #[trigger] n.pool[i],
        #[trigger] n.pool[j],
    ) && n.pool[i] != n.pool[j] by {
        assert(crate::order::name_le(m.pool[i], m.pool[j]) && m.pool[i] != m.pool[j]);
    }
    assert forall|i: int| 0 <= i < n.pool.len() implies is_path_safe(#[trigger] n.pool[i]) by {
        assert(is_path_safe(m.pool[i]));
    }
}

/// A run that is about to build has no directory filled, has its whole
/// budget ahead, and works in the working directory.
pub proof fn lemma_first_level(m: RunModel)
    requires
        valid(m),
        m.phase is AnnouncingBuild,
    ensures
        m.levels_done * share(m.total, m.depth) < m.total,
        m.pool.len() + m.levels_done == m.total,
        anchored(m),
        m.failure is None,
{
    crate::plan::lemma_levels_range(m.total, m.depth);
    assert(m.levels_done * share(m.total, m.depth) == 0) by (nonlinear_arith)
        requires
            m.levels_done == 0,
    ;
    assert(m.cursor.subrange(0, m.cursor.len() as int) =~= m.cursor);
}

/// Closing a directory that has its share of files.
pub proof fn lemma_close_level_valid(m: RunModel)
    requires
        valid(m),
        m.phase is ProbingFile || m.phase is WritingFile,
    ensures
        valid(close_level(m)),
        !(close_level(m).phase is Failed),
{
    let q = share(m.total, m.depth) as int;
    let done = m.levels_done + 1;
    let d = m.levels_done as int;
    assert((d + 1) * q == d * q + q) by (nonlinear_arith);
    if done * share(m.total, m.depth) >= m.total {
        lemma_levels_unique(m.total, m.depth, done);
    } else {
        lemma_open_level_valid(RunModel { levels_done: done, ..m });
    }
}

/// Where a run turns from one directory to the next: opening the first
/// directory, and closing one that has its share, both lead to a valid state,
/// and neither makes the run fail.
pub proof fn lemma_level_turns(m: RunModel)
    requires
        valid(m),
    ensures
        m.phase is AnnouncingBuild ==> valid(open_level(m)) && open_level(m).phase is ProbingDir,
        m.phase is ProbingFile || m.phase is WritingFile ==> valid(close_level(m)) && !(close_level(
            m,
        ).phase is Failed),
{
    match m.phase {
        Phase::AnnouncingBuild => {
            lemma_first_level(m);
            lemma_open_level_valid(m);
        },
        Phase::ProbingFile | Phase::WritingFile => {
            lemma_close_level_valid(m);
        },
        _ => {},
    }
}

/// Every reply takes a valid state to a valid state.
pub proof fn lemma_next_valid(m: RunModel, reply: ReplyView)
    requires
        valid(m),
    ensures
        valid(next(m, reply)),
{
    let n = next(m, reply);
    lemma_level_turns(m);
    match m.phase {
        Phase::ProbingDir | Phase::MakingDir => {
            lemma_levels_bracket(m.total, m.depth);
            lemma_joined_keeps_prefix(joined(m.root, work_dir_name()), m.cursor, m.entry);
        },
        Phase::DrawingName => {
            if let ReplyView::Name(name) = reply {
                if is_path_safe(name) && !m.issued.contains(name) {
                    crate::names::lemma_push_keeps_distinct(m.issued, name);
                    assert forall|i: int| 0 <= i < n.issued.len() implies is_path_safe(
                        #[trigger] n.issued[i],
                    ) by {
                        if i < m.issued.len() {
                            assert(is_path_safe(m.issued[i]));
                        }
                    }
                }
            }
        },
        _ => {},
    }
}

/// Every row of replies takes a valid state to a valid state.
pub proof fn lemma_play_valid(m: RunModel, replies: Seq<ReplyView>)
    requires
        valid(m),
    ensures
        valid(play(m, replies)),
    decreases replies.len(),
{
    if replies.len() > 0 {
        lemma_play_valid(m, replies.drop_last());
        lemma_next_valid(play(m, replies.drop_last()), replies.last());
    }
}

/// The pool never runs dry: a run fails for want of names only when its
/// driver says that none could be had.
pub proof fn lemma_pool_suffices(m: RunModel, reply: ReplyView)
    requires
        valid(m),
        !(m.phase is Failed),
        next(m, reply).failure == Some(RunErrorView::NamesExhausted),
    ensures
        reply is Exhausted,
        m.phase is DrawingPool || m.phase is DrawingName,
{
    lemma_level_turns(m);
}

/// Whatever exists is left alone: when a probe finds an entry present, the
/// run asks neither for a directory to be made nor for a file to be written,
/// and it does not fail.
pub proof fn lemma_present_leaves_alone(m: RunModel)
    requires
        valid(m),
        request_of(m) is Probe,
    ensures
        !(request_of(next(m, ReplyView::Present)) is MakeDir),
        !(request_of(next(m, ReplyView::Present)) is WriteFile),
        !(request_of(next(m, ReplyView::Present)) is Abort),
{
    lemma_level_turns(m);
}

/// While nothing is found missing, a run creates nothing and does not fail.
pub proof fn lemma_found_keeps_untouched(m: RunModel, reply: ReplyView)
    requires
        valid(m),
        untouched(m),
        answers(m, reply),
        finds_all(reply),
    ensures
        untouched(next(m, reply)),
{
    lemma_level_turns(m);
}

/// A run over a tree that exists in full leaves it as it is: after any row
/// of replies in which every probe finds its entry present and names are
/// supplied as asked, the run has not failed and asks for nothing to be
/// created.  Every beginning of such a row is such a row, so this holds at
/// each point of the run.
pub proof fn lemma_existing_tree_untouched(m: RunModel, replies: Seq<ReplyView>)
    requires
        valid(m),
        untouched(m),
        forall|i: int|
            0 <= i < replies.len() ==> answers(play(m, replies.take(i)), #[trigger] replies[i])
                && finds_all(replies[i]),
    ensures
        valid(play(m, replies)),
        untouched(play(m, replies)),
    decreases replies.len(),
{
    if replies.len() > 0 {
        let front = replies.drop_last();
        let at = replies.len() - 1;
        assert forall|i: int| 0 <= i < front.len() implies answers(
            play(m, front.take(i)),
            #[trigger] front[i],
        ) && finds_all(front[i]) by {
            assert(front.take(i) =~= replies.take(i));
            assert(front[i] == replies[i]);
        }
        lemma_existing_tree_untouched(m, front);
        assert(replies.take(at) =~= front);
        assert(answers(play(m, replies.take(at)), replies[at]) && finds_all(replies[at]));
        lemma_found_keeps_untouched(play(m, front), replies[at]);
        lemma_next_valid(play(m, front), replies[at]);
    }
}

/// Nothing is overwritten: a run comes to ask for a file to be written only
/// when a probe of that very path has found no entry there, and for a
/// directory to be made only when a probe of that very path has found none.
pub proof fn lemma_creates_only_absent(m: RunModel, reply: ReplyView)
    requires
        valid(m),
    ensures
        request_of(next(m, reply)) matches RequestView::WriteFile { path, .. } ==> reply is Absent
            && request_of(m) == (RequestView::Probe { path }),
        request_of(next(m, reply)) matches RequestView::MakeDir { path } ==> reply is Absent
            && request_of(m) == (RequestView::Probe { path }),
{
    lemma_level_turns(m);
}

/// A run creates nothing outside its working directory: every directory it
/// asks to be made and every file it asks to be written is the working
/// directory or lies below it, and each file is an entry, under a path-safe
/// name, of the directory the run works in.
pub proof fn lemma_creates_inside(m: RunModel)
    requires
        valid(m),
    ensures
        request_of(m) matches RequestView::MakeDir { path } ==> joined(
            m.root,
            work_dir_name(),
        ).is_prefix_of(path),
        request_of(m) matches RequestView::WriteFile { path, .. } ==> joined(
            m.root,
            work_dir_name(),
        ).is_prefix_of(path) && path == joined(m.cursor, m.entry) && is_path_safe(m.entry),
        m.phase is MakingDir ==> is_path_safe(m.entry),
{
    let base = joined(m.root, work_dir_name());
    match m.phase {
        Phase::MakingWorkDir => {
            assert(base.subrange(0, base.len() as int) =~= base);
        },
        Phase::MakingDir => {
            lemma_joined_keeps_prefix(base, m.cursor, m.entry);
        },
        Phase::WritingFile => {
            lemma_joined_keeps_prefix(base, m.cursor, m.entry);
            assert(is_path_safe(m.issued[m.issued.len() - 1]));
        },
        _ => {},
    }
}

/// Every file that a run asks to be written is to hold the one byte `X` and
/// nothing else.
pub proof fn lemma_file_content(m: RunModel)
    ensures
        request_of(m) matches RequestView::WriteFile { content, .. } ==> content == 0x58,
{
}

/// Every file is asked for directly inside the directory the run works in,
/// under a path-safe name that no other file of that directory was given.
pub proof fn lemma_file_paths(m: RunModel)
    requires
        valid(m),
        m.phase is ProbingFile || m.phase is WritingFile,
    ensures
        is_path_safe(m.entry),
        !m.issued.drop_last().contains(m.entry),
        request_of(m) is Probe ==> request_of(m)->Probe_path == joined(m.cursor, m.entry),
        request_of(m) is WriteFile ==> request_of(m)->WriteFile_path == joined(m.cursor, m.entry),
{
    let last = m.issued.len() - 1;
    assert(is_path_safe(m.issued[last]));
    assert forall|k: int| 0 <= k < m.issued.drop_last().len() implies m.issued.drop_last()[k]
        != m.entry by {
        assert(m.issued[k] != m.issued[last]);
    }
}

/// A directory is left for the next only when it holds exactly its share of
/// files, and from then on it counts as filled.
pub proof fn lemma_level_holds_share(m: RunModel, reply: ReplyView)
    requires
        valid(m),
        next(m, reply).levels_done != m.levels_done,
    ensures
        next(m, reply).levels_done == m.levels_done + 1,
        m.issued.len() == share(m.total, m.depth),
        m.phase is ProbingFile && reply is Present || m.phase is WritingFile && reply is Done,
{
}

/// What a finished run has made: as many directories as it takes for the
/// files placed to reach the budget, each with its share of files.
pub proof fn lemma_finished_counts(m: RunModel)
    requires
        valid(m),
        m.phase is Reporting || m.phase is Finished,
    ensures
        m.levels_done == levels(m.total, m.depth),
        m.total <= m.levels_done * share(m.total, m.depth) < m.total + share(m.total, m.depth),
        m.levels_done >= m.depth,
{
    lemma_levels_bracket(m.total, m.depth);
    crate::plan::lemma_levels_range(m.total, m.depth);
}

/// When the depth divides the budget, a finished run has made exactly `depth`
/// directories, and the files in them number `depth * (total / depth)`, which
/// is the budget.
pub proof fn lemma_finished_even(m: RunModel)
    requires
        valid(m),
        m.phase is Reporting || m.phase is Finished,
        m.total % m.depth == 0,
    ensures
        m.levels_done == m.depth,
        m.levels_done * share(m.total, m.depth) == m.depth * (m.total / m.depth),
        m.levels_done * share(m.total, m.depth) == m.total,
{
    lemma_even_split(m.total, m.depth);
}

/// What a run is asked for never changes, the count of directories filled
/// never goes down, and the directory the run works in changes only by the
/// run stepping into the entry it has just probed or made.
pub proof fn lemma_progress(m: RunModel, reply: ReplyView)
    ensures
        next(m, reply).root == m.root,
        next(m, reply).total == m.total,
        next(m, reply).depth == m.depth,
        next(m, reply).levels_done >= m.levels_done,
        next(m, reply).cursor == m.cursor || next(m, reply).cursor == joined(m.cursor, m.entry),
{
}

/// A run that is complete or has failed stays as it is.
pub proof fn lemma_final_states(m: RunModel, reply: ReplyView)
    requires
        m.phase is Finished || m.phase is Failed,
    ensures
        next(m, reply) == m,
{
}

} // verus!
