//! Names for the directories and files of a tree, and where fresh ones come from.
//!
//! Two kinds of name are in use.  A *short name* is eight ASCII letters and
//! digits; directory names are short names.  A *token* is a random 128-bit
//! identifier in its hyphenated lower-case hexadecimal form; file names are
//! tokens.  Both are made of letters, digits and hyphens only, so neither can
//! hold a path separator.

use vstd::prelude::*;

verus! {

/// Number of characters in a short name.
pub const SHORT_NAME_LEN: usize = 8;

/// Number of characters in a token.
pub const TOKEN_LEN: usize = 36;

/// An ASCII letter or digit.
pub open spec fn is_alphanumeric(c: char) -> bool {
    ('0' <= c <= '9') || ('a' <= c <= 'z') || ('A' <= c <= 'Z')
}

/// A character that may occur in a name: an ASCII letter, a digit or a hyphen.
pub open spec fn is_name_char(c: char) -> bool {
    is_alphanumeric(c) || c == '-'
}

/// A name is path-safe when it is not empty and holds name characters only.
pub open spec fn is_path_safe(name: Seq<char>) -> bool {
    name.len() > 0 && forall|i: int| 0 <= i < name.len() ==> is_name_char(#[trigger] name[i])
}

/// Eight ASCII letters and digits.
pub open spec fn is_short_name(name: Seq<char>) -> bool {
    name.len() == SHORT_NAME_LEN && forall|i: int|
        0 <= i < name.len() ==> is_alphanumeric(#[trigger] name[i])
}

/// A lower-case hexadecimal digit.
pub open spec fn is_lower_hex(c: char) -> bool {
    ('0' <= c <= '9') || ('a' <= c <= 'f')
}

/// The places of a token that hold a hyphen.
pub open spec fn is_hyphen_slot(i: int) -> bool {
    i == 8 || i == 13 || i == 18 || i == 23
}

/// The text of a random (version 4) identifier: thirty-two lower-case
/// hexadecimal digits in groups of 8, 4, 4, 4 and 12 with hyphens between
/// them, the third group starting with `4` and the fourth with one of `8`,
/// `9`, `a`, `b`.
pub open spec fn is_token(name: Seq<char>) -> bool {
    &&& name.len() == TOKEN_LEN
    &&& forall|i: int|
        0 <= i < name.len() ==> if is_hyphen_slot(i) {
            #[trigger] name[i] == '-'
        } else {
            is_lower_hex(name[i])
        }
    &&& name[14] == '4'
    &&& (name[19] == '8' || name[19] == '9' || name[19] == 'a' || name[19] == 'b')
}

/// A path-safe name holds no path separator and no NUL, and is neither `.`
/// nor `..`.
pub proof fn lemma_path_safe_plain(name: Seq<char>)
    requires
        is_path_safe(name),
    ensures
        forall|i: int|
            0 <= i < name.len() ==> #[trigger] name[i] != '/' && name[i] != '\\' && name[i] != '\0'
                && name[i] != '.',
{
    assert forall|i: int| 0 <= i < name.len() implies #[trigger] name[i] != '/' && name[i] != '\\'
        && name[i] != '\0' && name[i] != '.' by {
        assert(is_name_char(name[i]));
    }
}

/// Every short name is path-safe.
pub proof fn lemma_short_name_path_safe(name: Seq<char>)
    requires
        is_short_name(name),
    ensures
        is_path_safe(name),
{
    assert forall|i: int| 0 <= i < name.len() implies is_name_char(#[trigger] name[i]) by {
        assert(is_alphanumeric(name[i]));
    }
}

/// Every token is path-safe.
pub proof fn lemma_token_path_safe(name: Seq<char>)
    requires
        is_token(name),
    ensures
        is_path_safe(name),
{
    assert forall|i: int| 0 <= i < name.len() implies is_name_char(#[trigger] name[i]) by {
        if is_hyphen_slot(i) {
            assert(name[i] == '-');
        } else {
            assert(is_lower_hex(name[i]));
        }
    }
}

/// Draws `len` characters, each uniformly from the ASCII letters and digits,
/// with `rand`'s thread-local generator (`rand::Rng::sample_iter` over
/// `rand::distributions::Alphanumeric`).  Trusted: the result has `len`
/// characters and each is an ASCII letter or digit.  Which ones is left open.
#[verifier::external_body]
fn random_alphanumeric(len: usize) -> (name: String)
    ensures
        name@.len() == len,
        forall|i: int| 0 <= i < name@.len() ==> is_alphanumeric(#[trigger] name@[i]),
{
    rand::Rng::sample_iter(rand::thread_rng(), &rand::distributions::Alphanumeric)
        .take(len)
        .map(char::from)
        .collect()
}

/// Makes a random identifier with `uuid::Uuid::new_v4` and renders it with
/// its `Display` form.  Trusted: the text has the shape of a token.  Which
/// digits it holds is left open.
#[verifier::external_body]
fn random_token() -> (token: String)
    ensures
        is_token(token@),
{
    uuid::Uuid::new_v4().to_string()
}

/// A random short name, for a directory.
pub fn get_random_filename() -> (name: String)
    ensures
        is_short_name(name@),
        is_path_safe(name@),
{
    let name = random_alphanumeric(SHORT_NAME_LEN);
    proof {
        lemma_short_name_path_safe(name@);
    }
    name
}

/// A random token, for a file.
pub fn get_random_token() -> (token: String)
    ensures
        is_token(token@),
        is_path_safe(token@),
{
    let token = random_token();
    proof {
        lemma_token_path_safe(token@);
    }
    token
}

/// Whether `b` is the code of a name character.
fn byte_is_name_char(b: u8) -> (ok: bool)
    ensures
        ok == (b < 128 && is_name_char(b as char)),
{
    (48 <= b && b <= 57) || (97 <= b && b <= 122) || (65 <= b && b <= 90) || b == 45
}

/// Decides whether a name is path-safe.
pub fn check_path_safe(name: &str) -> (ok: bool)
    ensures
        ok == is_path_safe(name@),
{
    if !name.is_ascii() {
        proof {
            if is_path_safe(name@) {
                assert forall|i: int| 0 <= i < name@.len() implies '\0' <= #[trigger] name@[i]
                    <= '\u{7f}' by {
                    assert(is_name_char(name@[i]));
                }
            }
        }
        return false;
    }
    let n = name.unicode_len();
    if n == 0 {
        return false;
    }
    let mut i: usize = 0;
    while i < n
        invariant
            n == name@.len(),
            i <= n,
            name.is_ascii(),
            forall|k: int| 0 <= k < i ==> is_name_char(#[trigger] name@[k]),
        decreases n - i,
    {
        let b = name.get_ascii(i);
        assert(b as char == name@[i as int]);
        if !byte_is_name_char(b) {
            return false;
        }
        i = i + 1;
    }
    true
}

/// Whether `name` is among the names issued so far.
pub fn contains_name(issued: &Vec<String>, name: &String) -> (found: bool)
    ensures
        found == issued.deep_view().contains(name@),
{
    let mut i: usize = 0;
    while i < issued.len()
        invariant
            i <= issued.len(),
            forall|k: int| 0 <= k < i ==> issued.deep_view()[k] != name@,
        decreases issued.len() - i,
    {
        assert(issued.deep_view()[i as int] == issued[i as int]@);
        if issued[i] == *name {
            return true;
        }
        i = i + 1;
    }
    false
}

/// Issues `candidate` within a scope unless the scope has issued it before:
/// the candidate is recorded when, and only when, it is new.
pub fn issue(issued: &mut Vec<String>, candidate: String) -> (fresh: bool)
    ensures
        fresh == !old(issued).deep_view().contains(candidate@),
        fresh ==> final(issued).deep_view() == old(issued).deep_view().push(candidate@),
        !fresh ==> final(issued).deep_view() == old(issued).deep_view(),
        old(issued).deep_view().no_duplicates() ==> final(issued).deep_view().no_duplicates(),
{
    if contains_name(issued, &candidate) {
        false
    } else {
        let ghost before = issued.deep_view();
        issued.push(candidate);
        assert(issued.deep_view() =~= before.push(candidate@));
        proof {
            if before.no_duplicates() {
                lemma_push_keeps_distinct(before, candidate@);
            }
        }
        true
    }
}

/// Adding a name that a scope has not issued keeps its names pairwise distinct.
pub proof fn lemma_push_keeps_distinct(issued: Seq<Seq<char>>, name: Seq<char>)
    requires
        issued.no_duplicates(),
        !issued.contains(name),
    ensures
        issued.push(name).no_duplicates(),
{
    let after = issued.push(name);
    assert forall|i: int, j: int| 0 <= i < after.len() && 0 <= j < after.len() && i != j implies after[i]
        != after[j] by {
        if i < issued.len() && j < issued.len() {
        } else if i < issued.len() {
            assert(issued.contains(issued[i]));
        } else {
            assert(issued.contains(issued[j]));
        }
    }
}

/// Names that a scope returns one after the other, each of them new to the
/// scope when it is returned, are pairwise distinct, whatever the scope had
/// issued before and however many are returned.
pub proof fn lemma_returned_names_distinct(issued: Seq<Seq<char>>, returned: Seq<Seq<char>>)
    requires
        forall|k: int|
            0 <= k < returned.len() ==> !(issued + returned.take(k)).contains(
                #[trigger] returned[k],
            ),
    ensures
        returned.no_duplicates(),
        issued.no_duplicates() ==> (issued + returned).no_duplicates(),
{
    assert forall|i: int, j: int|
        0 <= i < returned.len() && 0 <= j < returned.len() && i != j implies returned[i]
        != returned[j] by {
        let (lo, hi) = if i < j {
            (i, j)
        } else {
            (j, i)
        };
        let seen = issued + returned.take(hi);
        assert(seen[issued.len() + lo] == returned[lo]);
        assert(!seen.contains(returned[hi]));
    }
    if issued.no_duplicates() {
        let all = issued + returned;
        assert forall|i: int, j: int| 0 <= i < all.len() && 0 <= j < all.len() && i != j implies all[i]
            != all[j] by {
            let (lo, hi) = if i < j {
                (i, j)
            } else {
                (j, i)
            };
            if hi < issued.len() {
            } else {
                let k = hi - issued.len();
                let seen = issued + returned.take(k);
                assert(all[hi] == returned[k]);
                assert(seen[lo] == all[lo]);
                assert(!seen.contains(returned[k]));
            }
        }
    }
}

/// The next name of a scope: tokens are drawn, at most `attempts` of them,
/// until one is new to the scope; it is recorded and returned.  `None` leaves
/// the scope as it was, and comes only where no draw was allowed or the scope
/// holds a token already: one that holds none gets its name at the first draw.
pub fn next_unique_name(issued: &mut Vec<String>, attempts: u64) -> (name: Option<String>)
    ensures
        match name {
            Some(n) => {
                &&& is_token(n@)
                &&& is_path_safe(n@)
                &&& !old(issued).deep_view().contains(n@)
                &&& final(issued).deep_view() == old(issued).deep_view().push(n@)
                &&& attempts > 0
            },
            None => {
                &&& final(issued).deep_view() == old(issued).deep_view()
                &&& attempts == 0 || holds_token(old(issued).deep_view())
            },
        },
        attempts > 0 && !holds_token(old(issued).deep_view()) ==> name is Some,
        old(issued).deep_view().no_duplicates() ==> final(issued).deep_view().no_duplicates(),
{
    let mut left: u64 = attempts;
    while left > 0
        invariant
            left <= attempts,
            issued.deep_view() == old(issued).deep_view(),
            left == attempts || holds_token(old(issued).deep_view()),
        decreases left,
    {
        left = left - 1;
        let token = get_random_token();
        let kept = token.clone();
        if issue(issued, token) {
            return Some(kept);
        }
        proof {
            let held = old(issued).deep_view();
            let at = choose|i: int| 0 <= i < held.len() && held[i] == kept@;
            assert(is_token(held[at]));
        }
    }
    None
}

/// Whether one of the names is a token.
pub open spec fn holds_token(names: Seq<Seq<char>>) -> bool {
    exists|i: int| 0 <= i < names.len() && is_token(#[trigger] names[i])
}

} // verus!
