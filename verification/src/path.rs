//! Paths: the part that a route's prefix is compared with, and the part
//! that holds the handler's arguments.

use vstd::prelude::*;

use crate::text::find_char;
use crate::text::first_index;
use crate::text::lemma_first_index;
use crate::text::split_on;

verus! {

/// Length of the part of `path` that a prefix is compared with: everything
/// before the second `/`, or all of `path` if it has no second `/`.
pub open spec fn head_len(path: Seq<char>) -> int {
    let first = first_index(path, '/');
    if first < path.len() {
        first + 1 + first_index(path.skip(first + 1), '/')
    } else {
        path.len() as int
    }
}

/// The part of `path` before its second `/`.
pub open spec fn path_head(path: Seq<char>) -> Seq<char> {
    path.take(head_len(path))
}

/// The part of `path` from its second `/` on.
pub open spec fn path_rest(path: Seq<char>) -> Seq<char> {
    path.skip(head_len(path))
}

/// What is left of `path` once `prefix` has answered it, if it does.
pub open spec fn prefix_match(path: Seq<char>, prefix: Seq<char>) -> Option<Seq<char>> {
    if path_head(path) == prefix {
        Some(path_rest(path))
    } else {
        None
    }
}

/// The arguments that the remainder of a path hands to a handler: its pieces
/// between `/`, without the piece before the first `/`.
pub open spec fn route_args(rest: Seq<char>) -> Seq<Seq<char>> {
    split_on(rest, '/').skip(1)
}

/// The number of `/` in `s`.
pub open spec fn slash_count(s: Seq<char>) -> nat
    decreases s.len(),
{
    if s.len() == 0 {
        0
    } else {
        slash_count(s.drop_last()) + (if s.last() == '/' {
            1nat
        } else {
            0nat
        })
    }
}

/// A sequence without `/` counts none, and one that counts none has none.
pub proof fn lemma_slash_count_zero(s: Seq<char>)
    ensures
        slash_count(s) == 0 <==> (forall|j: int| 0 <= j < s.len() ==> s[j] != '/'),
    decreases s.len(),
{
    if s.len() > 0 {
        let t = s.drop_last();
        lemma_slash_count_zero(t);
        if slash_count(s) == 0 {
            assert forall|j: int| 0 <= j < s.len() implies s[j] != '/' by {
                if j < t.len() {
                    assert(t[j] == s[j]);
                }
            }
        } else if s.last() != '/' {
            let j = choose|j: int| 0 <= j < t.len() && t[j] == '/';
            assert(s[j] == '/');
        }
    }
}

/// The count of `/` in `s` is the count before `k` plus the count from `k` on.
pub proof fn lemma_slash_count_split(s: Seq<char>, k: int)
    requires
        0 <= k <= s.len(),
    ensures
        slash_count(s) == slash_count(s.take(k)) + slash_count(s.skip(k)),
    decreases s.len() - k,
{
    if k == s.len() {
        assert(s.take(k) =~= s);
        assert(s.skip(k) =~= Seq::<char>::empty());
    } else {
        let t = s.drop_last();
        lemma_slash_count_split(t, k);
        assert(t.take(k) =~= s.take(k));
        assert(s.skip(k).drop_last() =~= t.skip(k));
    }
}

/// The head of a path ends inside the path, and head and remainder make up
/// the path.
pub proof fn lemma_head_len(path: Seq<char>)
    ensures
        0 <= head_len(path) <= path.len(),
        path_head(path) + path_rest(path) == path,
        path_head(path).len() == head_len(path),
{
    lemma_first_index(path, '/');
    let first = first_index(path, '/');
    if first < path.len() {
        lemma_first_index(path.skip(first + 1), '/');
    }
    assert(path.take(head_len(path)) + path.skip(head_len(path)) =~= path);
}

/// The head of a path ends at the path's second `/`: the head holds exactly
/// one `/` and the remainder starts with one. A path with fewer than two `/`
/// is all head.
pub proof fn lemma_head_ends_at_second_slash(path: Seq<char>)
    ensures
        slash_count(path) < 2 ==> path_head(path) == path && path_rest(path).len() == 0,
        slash_count(path) >= 2 ==> slash_count(path_head(path)) == 1 && path_rest(path).len() > 0
            && path_rest(path)[0] == '/',
{
    lemma_head_len(path);
    lemma_first_index(path, '/');
    let first = first_index(path, '/');
    let h = head_len(path);
    if first < path.len() {
        let tail = path.skip(first + 1);
        lemma_first_index(tail, '/');
        let second = first_index(tail, '/');
        // exactly one `/` in the head
        lemma_slash_count_split(path.take(h), first);
        assert(path.take(h).take(first) =~= path.take(first));
        lemma_slash_count_zero(path.take(first));
        lemma_slash_count_split(path.take(h).skip(first), 1);
        assert(path.take(h).skip(first).take(1) =~= seq![path[first]]);
        assert(seq![path[first]].drop_last() =~= Seq::<char>::empty());
        assert(slash_count(Seq::<char>::empty()) == 0);
        assert(seq![path[first]].last() == '/');
        assert(slash_count(seq![path[first]]) == 1);
        assert(path.take(h).skip(first).skip(1) =~= tail.take(second));
        lemma_slash_count_zero(tail.take(second));
        assert(slash_count(path.take(h)) == 1);
        // the whole path
        lemma_slash_count_split(path, h);
        if h < path.len() {
            assert(path.skip(h)[0] == tail[second]);
            lemma_slash_count_zero(path.skip(h));
        } else {
            assert(path.take(h) =~= path);
            assert(path.skip(h) =~= Seq::<char>::empty());
        }
    } else {
        lemma_slash_count_zero(path);
        assert(path.take(h) =~= path);
    }
}

/// Leaving out the first piece of the remainder loses nothing: the remainder
/// of a path is empty or starts with `/`, so that piece is empty.
pub proof fn lemma_arguments_lose_nothing(path: Seq<char>)
    ensures
        split_on(path_rest(path), '/')[0].len() == 0,
        seq![Seq::<char>::empty()] + route_args(path_rest(path)) == split_on(path_rest(path), '/'),
{
    let rest = path_rest(path);
    lemma_head_ends_at_second_slash(path);
    crate::text::lemma_split_has_a_piece(rest, '/');
    let pieces = split_on(rest, '/');
    if rest.len() > 0 {
        crate::text::lemma_first_index_is(rest, '/', 0);
        assert(pieces == seq![rest.take(0)] + split_on(rest.skip(1), '/'));
        assert(pieces[0] == rest.take(0));
        assert(rest.take(0) =~= Seq::<char>::empty());
    } else {
        assert(pieces == seq![rest]);
        assert(pieces[0] == rest);
    }
    assert(pieces[0] =~= Seq::<char>::empty());
    assert(seq![Seq::<char>::empty()] + pieces.skip(1) =~= pieces);
}

/// A prefix that equals the part of a path before its second `/` answers the
/// path, and what is left is the path with that prefix removed.
pub proof fn lemma_prefix_match(path: Seq<char>, prefix: Seq<char>)
    requires
        prefix == path_head(path),
    ensures
        prefix_match(path, prefix) == Some(path.skip(prefix.len() as int)),
        prefix + path.skip(prefix.len() as int) == path,
{
    lemma_head_len(path);
}

/// Where the head of `path` ends.
pub(crate) fn head_end(path: &Vec<char>) -> (h: usize)
    ensures
        h == head_len(path@),
        h <= path.len(),
{
    proof {
        lemma_first_index(path@, '/');
        assert(path@.skip(0) =~= path@);
    }
    let first: usize = find_char(path, '/', 0);
    if first < path.len() {
        find_char(path, '/', first + 1)
    } else {
        path.len()
    }
}

} // verus!
