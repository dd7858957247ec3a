//! The pool of directory names: made once, before anything is created, and
//! then used up one name at a time.
//!
//! Random short names are collected in a list.  Duplicates are not looked for
//! at each insertion; instead the list is sorted and cleared of duplicates
//! whenever its length is a multiple of the batch size, and once more before
//! it is handed out, so that the pool holds exactly the number of names asked
//! for and no name twice.

use crate::names::{check_path_safe, get_random_filename, is_path_safe, is_short_name};
use crate::order::{compact, lemma_strictly_ascending_distinct, name_le, strictly_ascending};
use vstd::prelude::*;

verus! {

/// The list is cleared of duplicates each time its length is a multiple of this.
pub const BATCH: usize = 1000;

/// The largest number of random names that `generate_filenames` draws.
pub const DRAW_LIMIT: u64 = 0xffff_ffff_ffff_ffff;

/// Every name of the list is path-safe.
pub open spec fn all_path_safe(names: Seq<Seq<char>>) -> bool {
    forall|i: int| 0 <= i < names.len() ==> is_path_safe(#[trigger] names[i])
}

/// Every name of the list is a short name.
pub open spec fn all_short(names: Seq<Seq<char>>) -> bool {
    forall|i: int| 0 <= i < names.len() ==> is_short_name(#[trigger] names[i])
}

/// Whether a list of `len` names, `how_many` being asked for, is due to be
/// cleared of duplicates: at every full batch, and when it seems complete.
pub open spec fn settle_due(len: nat, how_many: nat) -> bool {
    len % (BATCH as nat) == 0 || len >= how_many
}

/// A list that holds only names of another holds only short names if the
/// other does, and only path-safe names if the other does.
pub proof fn lemma_members_keep(before: Seq<Seq<char>>, after: Seq<Seq<char>>)
    requires
        after.to_set() == before.to_set(),
    ensures
        all_short(before) ==> all_short(after),
        all_path_safe(before) ==> all_path_safe(after),
{
    assert forall|i: int| 0 <= i < after.len() implies (all_short(before) ==> is_short_name(
        #[trigger] after[i],
    )) && (all_path_safe(before) ==> is_path_safe(after[i])) by {
        assert(after.contains(after[i]));
        assert(before.to_set().contains(after[i]));
        let k = choose|k: int| 0 <= k < before.len() && before[k] == after[i];
        assert(before[k] == after[i]);
    }
}

/// The first `n` names that a pool gives out, in the order in which it gives
/// them: from its last name down.
pub open spec fn taken(pool: Seq<Seq<char>>, n: nat) -> Seq<Seq<char>>
    recommends
        n <= pool.len(),
{
    Seq::new(n, |i: int| pool[pool.len() - 1 - i])
}

/// The names that a pool gives out, however many are taken, are pairwise
/// distinct.
pub proof fn lemma_taken_names_distinct(pool: Seq<Seq<char>>, n: nat)
    requires
        strictly_ascending(pool),
        n <= pool.len(),
    ensures
        taken(pool, n).no_duplicates(),
        n > 0 ==> taken(pool, n).last() == pool[pool.len() - n] && taken(pool, n).drop_last()
            == taken(pool, (n - 1) as nat),
{
    lemma_strictly_ascending_distinct(pool);
    let out = taken(pool, n);
    assert forall|i: int, j: int| 0 <= i < out.len() && 0 <= j < out.len() && i != j implies out[i]
        != out[j] by {
        assert(pool[pool.len() - 1 - i] != pool[pool.len() - 1 - j]);
    }
    if n > 0 {
        assert(out.drop_last() =~= taken(pool, (n - 1) as nat));
    }
}

/// One round of pool keeping: clears the list of duplicates if that is due,
/// and tells whether it then holds as many names as are asked for.
pub fn settle(names: &mut Vec<String>, how_many: u64) -> (complete: bool)
    ensures
        settle_due(old(names).len() as nat, how_many as nat) ==> strictly_ascending(
            final(names).deep_view(),
        ) && final(names).deep_view().to_set() == old(names).deep_view().to_set(),
        !settle_due(old(names).len() as nat, how_many as nat) ==> final(names).deep_view() == old(
            names,
        ).deep_view(),
        final(names).len() <= old(names).len(),
        complete == (final(names).len() >= how_many),
        all_short(old(names).deep_view()) ==> all_short(final(names).deep_view()),
{
    if names.len() % BATCH == 0 || names.len() as u64 >= how_many {
        compact(names);
        proof {
            lemma_members_keep(old(names).deep_view(), names.deep_view());
        }
    }
    names.len() as u64 >= how_many
}

/// Takes one more candidate into the list, clears the list of duplicates if
/// that is due, and tells whether it then holds as many names as are asked
/// for.
pub fn absorb(names: &mut Vec<String>, candidate: String, how_many: u64) -> (complete: bool)
    ensures
        settle_due((old(names).len() + 1) as nat, how_many as nat) ==> strictly_ascending(
            final(names).deep_view(),
        ) && final(names).deep_view().to_set() == old(names).deep_view().push(candidate@).to_set(),
        !settle_due((old(names).len() + 1) as nat, how_many as nat) ==> final(names).deep_view()
            == old(names).deep_view().push(candidate@),
        final(names).len() <= old(names).len() + 1,
        complete == (final(names).len() >= how_many),
        all_short(old(names).deep_view()) && is_short_name(candidate@) ==> all_short(
            final(names).deep_view(),
        ),
{
    let ghost grown = names.deep_view().push(candidate@);
    names.push(candidate);
    assert(names.deep_view() =~= grown);
    settle(names, how_many)
}

/// Makes `how_many` distinct random short names, drawing at most `draws`
/// names for them.  `None` tells that the draws ran out before that many
/// distinct names had come up; a single name comes with the first draw.
pub fn generate_filenames_within(how_many: u64, draws: u64) -> (pool: Option<Vec<String>>)
    ensures
        match pool {
            Some(names) => {
                &&& names.len() == how_many
                &&& strictly_ascending(names.deep_view())
                &&& names.deep_view().no_duplicates()
                &&& all_short(names.deep_view())
            },
            None => how_many > 0,
        },
        how_many == 0 ==> pool is Some,
        how_many == 1 && draws >= 1 ==> pool is Some,
        draws < how_many ==> pool is None,
{
    let mut names: Vec<String> = Vec::new();
    let mut left: u64 = draws;
    let mut complete = settle(&mut names, how_many);
    while !complete && left > 0
        invariant
            names.len() <= how_many,
            names.len() + left <= draws,
            all_short(names.deep_view()),
            complete == (names.len() >= how_many),
            complete ==> strictly_ascending(names.deep_view()),
            how_many == 1 && !complete ==> names.len() == 0 && left == draws,
        decreases left,
    {
        left = left - 1;
        let name = get_random_filename();
        let ghost grown = names.deep_view().push(name@);
        complete = absorb(&mut names, name, how_many);
        proof {
            if how_many == 1 {
                assert(grown[grown.len() - 1] == name@);
                assert(grown.to_set().contains(name@));
                assert(names.deep_view().contains(name@));
            }
        }
    }
    if complete {
        proof {
            lemma_strictly_ascending_distinct(names.deep_view());
        }
        Some(names)
    } else {
        None
    }
}

/// Makes `how_many` distinct random short names.  No more than one name
/// asked for, the names are always had.
pub fn generate_filenames(how_many: u64) -> (pool: Option<Vec<String>>)
    ensures
        match pool {
            Some(names) => {
                &&& names.len() == how_many
                &&& strictly_ascending(names.deep_view())
                &&& names.deep_view().no_duplicates()
                &&& all_short(names.deep_view())
            },
            None => how_many > 1,
        },
        how_many <= 1 ==> pool is Some,
{
    generate_filenames_within(how_many, DRAW_LIMIT)
}

/// A stock of directory names, each path-safe and none occurring twice.  A
/// name taken from it is gone from it.
pub struct NamePool {
    names: Vec<String>,
}

impl View for NamePool {
    type V = Seq<Seq<char>>;

    closed spec fn view(&self) -> Seq<Seq<char>> {
        self.names.deep_view()
    }
}

impl NamePool {
    /// What holds of every pool: its names stand in strictly ascending order
    /// and are path-safe.
    #[verifier::type_invariant]
    pub open spec fn well_formed(self) -> bool {
        strictly_ascending(self@) && all_path_safe(self@)
    }

    /// A pool without names.
    pub fn empty() -> (pool: NamePool)
        ensures
            pool@.len() == 0,
            pool.well_formed(),
    {
        let names: Vec<String> = Vec::new();
        NamePool { names }
    }

    /// A pool of `how_many` random short names.  No more than one name
    /// asked for, the pool is always had.
    pub fn generate(how_many: u64) -> (pool: Option<NamePool>)
        ensures
            match pool {
                Some(p) => p@.len() == how_many && all_short(p@) && p.well_formed(),
                None => how_many > 1,
            },
            how_many <= 1 ==> pool is Some,
    {
        match generate_filenames(how_many) {
            Some(names) => {
                proof {
                    assert forall|i: int| 0 <= i < names.deep_view().len() implies is_path_safe(
                        #[trigger] names.deep_view()[i],
                    ) by {
                        crate::names::lemma_short_name_path_safe(names.deep_view()[i]);
                    }
                }
                Some(NamePool { names })
            },
            None => None,
        }
    }

    /// A pool of the given names, each once.  `None` tells that one of them
    /// is not path-safe.
    pub fn from_names(names: Vec<String>) -> (pool: Option<NamePool>)
        ensures
            pool is Some <==> all_path_safe(names.deep_view()),
            pool matches Some(p) ==> p@.to_set() == names.deep_view().to_set() && p.well_formed(),
    {
        let mut i: usize = 0;
        while i < names.len()
            invariant
                i <= names.len(),
                forall|k: int| 0 <= k < i ==> is_path_safe(#[trigger] names.deep_view()[k]),
            decreases names.len() - i,
        {
            assert(names.deep_view()[i as int] == names[i as int]@);
            if !check_path_safe(names[i].as_str()) {
                return None;
            }
            i = i + 1;
        }
        let mut kept = names;
        compact(&mut kept);
        proof {
            lemma_members_keep(names.deep_view(), kept.deep_view());
        }
        Some(NamePool { names: kept })
    }

    /// Number of names left.
    pub fn len(&self) -> (n: usize)
        ensures
            n == self@.len(),
    {
        self.names.len()
    }

    /// Takes the last name out of the pool.  The name taken is path-safe and
    /// is not among the names left.
    pub fn take(self) -> (out: (NamePool, Option<String>))
        ensures
            out.0.well_formed(),
            self@.len() == 0 ==> out.1 is None && out.0@ == self@,
            self@.len() > 0 ==> out.0@ == self@.drop_last() && out.1 is Some,
            out.1 matches Some(name) ==> name@ == self@.last() && is_path_safe(name@)
                && !out.0@.contains(name@),
    {
        proof {
            use_type_invariant(&self);
        }
        let mut names = self.names;
        let ghost before = names.deep_view();
        let last = names.pop();
        proof {
            if before.len() > 0 {
                assert(names.deep_view() =~= before.drop_last());
                assert(is_path_safe(before[before.len() - 1]));
                assert forall|k: int| 0 <= k < names.deep_view().len() implies names.deep_view()[k]
                    != before.last() by {
                    assert(name_le(before[k], before[before.len() - 1]) && before[k]
                        != before[before.len() - 1]);
                }
            } else {
                assert(names.deep_view() =~= before);
            }
        }
        (NamePool { names }, last)
    }
}

} // verus!
