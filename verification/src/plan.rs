//! Splitting an inode budget over the levels of a directory chain.

use crate::error::{RunError, RunErrorView};
use vstd::prelude::*;

verus! {

/// Files placed in each directory: the budget divided by the depth, rounded down.
pub open spec fn share(total: nat, depth: nat) -> nat
    recommends
        depth >= 1,
{
    total / depth
}

/// A budget and depth are workable when the depth is at least one and every
/// directory receives at least one file.
pub open spec fn workable(total: nat, depth: nat) -> bool {
    depth >= 1 && share(total, depth) >= 1
}

/// Number of directories a run creates: directories are added, each holding
/// `share` files, until the files placed reach the budget.
pub open spec fn levels(total: nat, depth: nat) -> nat
    recommends
        workable(total, depth),
{
    let q = share(total, depth);
    ((total + q - 1) / (q as int)) as nat
}

/// Number of files a run creates over all its directories.
pub open spec fn files_placed(total: nat, depth: nat) -> nat
    recommends
        workable(total, depth),
{
    levels(total, depth) * share(total, depth)
}

/// `levels` is the one count `k` at which the files placed first reach the budget.
pub proof fn lemma_levels_unique(total: nat, depth: nat, k: nat)
    requires
        workable(total, depth),
        k >= 1,
        (k - 1) * share(total, depth) < total <= k * share(total, depth),
    ensures
        k == levels(total, depth),
{
    let q = share(total, depth) as int;
    let t = total as int;
    let k = k as int;
    assert(k == (t + q - 1) / q) by (nonlinear_arith)
        requires
            q >= 1,
            k >= 1,
            (k - 1) * q < t <= k * q,
    ;
}

/// The last directory is the first at which the files placed reach the
/// budget: one directory fewer falls short, and the overshoot is less than
/// one directory's share.
pub proof fn lemma_levels_bracket(total: nat, depth: nat)
    requires
        workable(total, depth),
    ensures
        levels(total, depth) >= 1,
        (levels(total, depth) - 1) * share(total, depth) < total,
        total <= files_placed(total, depth) < total + share(total, depth),
{
    let q = share(total, depth) as int;
    let t = total as int;
    let k = (t + q - 1) / q;
    assert(k >= 1 && (k - 1) * q < t && t <= k * q && k * q < t + q) by (nonlinear_arith)
        requires
            q >= 1,
            t >= q,
            k == (t + q - 1) / q,
    ;
    assert(total >= share(total, depth)) by (nonlinear_arith)
        requires
            depth >= 1,
    ;
}

/// A run never makes fewer directories than the depth asked for, and never
/// more than the budget has inodes.
pub proof fn lemma_levels_range(total: nat, depth: nat)
    requires
        workable(total, depth),
    ensures
        depth <= levels(total, depth) <= total,
{
    let q = share(total, depth) as int;
    let t = total as int;
    let d = depth as int;
    let k = (t + q - 1) / q;
    assert(d <= k <= t) by (nonlinear_arith)
        requires
            d >= 1,
            q >= 1,
            q == t / d,
            k == (t + q - 1) / q,
    ;
}

/// When the depth divides the budget, a run makes exactly `depth` directories
/// and places exactly `depth * (total / depth)` files, which is the budget.
pub proof fn lemma_even_split(total: nat, depth: nat)
    requires
        workable(total, depth),
        total % depth == 0,
    ensures
        levels(total, depth) == depth,
        files_placed(total, depth) == depth * (total / depth),
        files_placed(total, depth) == total,
{
    let q = share(total, depth) as int;
    let t = total as int;
    let d = depth as int;
    assert(t == d * q) by (nonlinear_arith)
        requires
            d >= 1,
            q == t / d,
            t % d == 0,
    ;
    assert((d - 1) * q < t && t <= d * q) by (nonlinear_arith)
        requires
            d >= 1,
            q >= 1,
            t == d * q,
    ;
    lemma_levels_unique(total, depth, depth);
    assert(depth * share(total, depth) == d * q);
}

/// What a run is asked for: a root path that must exist, the number of
/// inodes to create, and the depth of the chain of directories.  Only workable
/// budgets and depths make a target.
pub struct Target {
    root: String,
    total_inodes: u64,
    depth: u64,
}

/// The three parts of a target.
pub struct TargetView {
    pub root: Seq<char>,
    pub total: nat,
    pub depth: nat,
}

impl View for Target {
    type V = TargetView;

    closed spec fn view(&self) -> TargetView {
        TargetView {
            root: self.root@,
            total: self.total_inodes as nat,
            depth: self.depth as nat,
        }
    }
}

impl Target {
    /// What holds of every target: its budget and depth are workable.
    #[verifier::type_invariant]
    pub open spec fn well_formed(self) -> bool {
        workable(self@.total, self@.depth)
    }

    /// The target with these parts, or `InvalidTarget` if the depth is zero or
    /// exceeds the budget.
    pub fn new(root: String, total_inodes: u64, depth: u64) -> (target: Result<Target, RunError>)
        ensures
            target is Ok <==> workable(total_inodes as nat, depth as nat),
            target matches Ok(t) ==> t@ == (TargetView {
                root: root@,
                total: total_inodes as nat,
                depth: depth as nat,
            }) && t.well_formed(),
            target matches Err(e) ==> e@ == (RunErrorView::InvalidTarget {
                total_inodes: total_inodes as nat,
                depth: depth as nat,
            }),
    {
        if depth == 0 || total_inodes / depth == 0 {
            Err(RunError::InvalidTarget { total_inodes, depth })
        } else {
            Ok(Target { root, total_inodes, depth })
        }
    }

    /// The root path.
    pub fn root(&self) -> (root: &String)
        ensures
            root@ == self@.root,
    {
        &self.root
    }

    /// The number of inodes asked for.
    pub fn total_inodes(&self) -> (total: u64)
        ensures
            total == self@.total,
            total >= 1,
    {
        proof {
            use_type_invariant(self);
            lemma_levels_range(self@.total, self@.depth);
        }
        self.total_inodes
    }

    /// The depth asked for.
    pub fn depth(&self) -> (depth: u64)
        ensures
            depth == self@.depth,
            depth >= 1,
    {
        proof {
            use_type_invariant(self);
        }
        self.depth
    }

    /// Files placed in each directory.
    pub fn inodes_per_dir(&self) -> (per_dir: u64)
        ensures
            per_dir == share(self@.total, self@.depth),
            per_dir >= 1,
    {
        proof {
            use_type_invariant(self);
        }
        self.total_inodes / self.depth
    }

    /// Number of directories a run for this target creates.
    pub fn levels(&self) -> (count: u64)
        ensures
            count == levels(self@.total, self@.depth),
    {
        proof {
            use_type_invariant(self);
            lemma_levels_range(self@.total, self@.depth);
        }
        let q: u128 = (self.total_inodes / self.depth) as u128;
        let count: u128 = (self.total_inodes as u128 + q - 1) / q;
        count as u64
    }

    /// Number of files a run for this target creates.
    pub fn files_placed(&self) -> (count: u128)
        ensures
            count == files_placed(self@.total, self@.depth),
    {
        proof {
            use_type_invariant(self);
            lemma_levels_bracket(self@.total, self@.depth);
        }
        let q: u128 = (self.total_inodes / self.depth) as u128;
        let count: u128 = self.levels() as u128;
        assert(count * q < 0x2_0000_0000_0000_0000) by (nonlinear_arith)
            requires
                count * q < self@.total + q,
                self@.total < 0x1_0000_0000_0000_0000,
                q < 0x1_0000_0000_0000_0000,
        ;
        count * q
    }
}

} // verus!
