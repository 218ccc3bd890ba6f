//! The rules for a whole path: its length, and the file name rules for each
//! of its normal components.

use crate::components::{
    is_normal_segment, lemma_normal_components_are_the_normal_segments,
    lemma_normal_components_of_joined, lemma_normal_components_of_one,
    lemma_repeated_separators_collapse, normal_components, normal_segment, segment_end, segments,
    SEPARATOR,
};
use crate::filename::{filename_valid_portable, filename_verdict};
use crate::verdict::{Rejection, Verdict, MAX_PATH_LEN};
use vstd::prelude::*;
use vstd::slice::slice_subrange;

verus! {

/// The verdict on the first of `names` that the file name rules reject, or
/// acceptance where they reject none.
pub open spec fn first_rejection(names: Seq<Seq<u8>>) -> Verdict
    decreases names.len(),
{
    if names.len() == 0 {
        Ok(())
    } else if filename_verdict(names[0]) is Err {
        filename_verdict(names[0])
    } else {
        first_rejection(names.drop_first())
    }
}

/// The verdict on a path: empty and overlong paths are rejected as such, and
/// any other path by the first of its normal components that is rejected.
pub open spec fn path_verdict(path: Seq<u8>) -> Verdict {
    if path.len() == 0 {
        Err(Rejection::PathEmpty)
    } else if path.len() > MAX_PATH_LEN {
        Err(Rejection::PathTooLong { len: path.len() as usize })
    } else {
        first_rejection(normal_components(path))
    }
}

/// The verdict on a segment as a part of a path: that of the file name rules
/// where it is a normal component, acceptance where it is not.
pub open spec fn segment_verdict(segment: Seq<u8>) -> Verdict {
    if normal_segment(segment) {
        filename_verdict(segment)
    } else {
        Ok(())
    }
}

/// The verdict on names in a row is the first rejection among the first
/// names or, where they are all accepted, the verdict on the others.
pub proof fn lemma_first_rejection_add(head: Seq<Seq<u8>>, tail: Seq<Seq<u8>>)
    ensures
        first_rejection(head + tail) == if first_rejection(head) is Err {
            first_rejection(head)
        } else {
            first_rejection(tail)
        },
    decreases head.len(),
{
    if head.len() == 0 {
        assert(head + tail =~= tail);
    } else {
        assert((head + tail).drop_first() =~= head.drop_first() + tail);
        lemma_first_rejection_add(head.drop_first(), tail);
    }
}

/// Names are accepted together exactly when each of them is accepted; and
/// where they are rejected, the rejection is that of the first name that is
/// rejected alone.
pub proof fn lemma_first_rejection(names: Seq<Seq<u8>>)
    ensures
        first_rejection(names) is Ok <==> forall|i: int|
            0 <= i < names.len() ==> filename_verdict(#[trigger] names[i]) is Ok,
        first_rejection(names) is Err ==> exists|i: int|
            {
                &&& 0 <= i < names.len()
                &&& filename_verdict(#[trigger] names[i]) == first_rejection(names)
                &&& forall|j: int| 0 <= j < i ==> filename_verdict(#[trigger] names[j]) is Ok
            },
    decreases names.len(),
{
    if names.len() > 0 {
        let rest = names.drop_first();
        lemma_first_rejection(rest);
        if filename_verdict(names[0]) is Err {
        } else {
            assert forall|i: int| 0 <= i < rest.len() implies rest[i] == names[i + 1] by {}
            if first_rejection(rest) is Ok {
                assert forall|i: int| 0 <= i < names.len() implies filename_verdict(
                    #[trigger] names[i],
                ) is Ok by {
                    if i > 0 {
                        assert(names[i] == rest[i - 1]);
                    }
                }
            } else {
                let at = choose|i: int|
                    {
                        &&& 0 <= i < rest.len()
                        &&& filename_verdict(#[trigger] rest[i]) == first_rejection(rest)
                        &&& forall|j: int|
                            0 <= j < i ==> filename_verdict(#[trigger] rest[j]) is Ok
                    };
                assert(names[at + 1] == rest[at]);
                assert forall|j: int| 0 <= j < at + 1 implies filename_verdict(
                    #[trigger] names[j],
                ) is Ok by {
                    if j > 0 {
                        assert(names[j] == rest[j - 1]);
                    }
                }
            }
        }
    }
}

/// The components of a path are judged segment by segment: the first
/// segment, then what stands after the first separator.
pub proof fn lemma_first_rejection_unfold(path: Seq<u8>)
    ensures
        match path.index_of_first(SEPARATOR) {
            Some(at) => {
                &&& 0 <= at < path.len()
                &&& first_rejection(normal_components(path)) == if segment_verdict(
                    path.take(at),
                ) is Err {
                    segment_verdict(path.take(at))
                } else {
                    first_rejection(normal_components(path.skip(at + 1)))
                }
            },
            None => first_rejection(normal_components(path)) == segment_verdict(path),
        },
{
    reveal_with_fuel(first_rejection, 2);
    path.index_of_first_ensures(SEPARATOR);
    match path.index_of_first(SEPARATOR) {
        Some(at) => {
            let head = path.take(at);
            let tail = path.skip(at + 1);
            assert(head + seq![SEPARATOR] + tail =~= path);
            lemma_normal_components_of_joined(head, tail);
            lemma_normal_components_of_one(head);
            lemma_first_rejection_add(normal_components(head), normal_components(tail));
            if normal_segment(head) {
                assert(seq![head].drop_first() =~= Seq::<Seq<u8>>::empty());
            }
        },
        None => {
            lemma_normal_components_of_one(path);
            if normal_segment(path) {
                assert(seq![path].drop_first() =~= Seq::<Seq<u8>>::empty());
            }
        },
    }
}

/// A path of a length within the limits is accepted exactly when the file
/// name rules accept each of its normal components. The empty segments that
/// repeated separators leave, `.` and `..` are no normal components, so none
/// of them ever has a path rejected.
pub proof fn lemma_path_accepted_iff_components_accepted(path: Seq<u8>)
    requires
        0 < path.len() <= MAX_PATH_LEN,
    ensures
        path_verdict(path) is Ok <==> forall|i: int|
            0 <= i < normal_components(path).len() ==> filename_verdict(
                #[trigger] normal_components(path)[i],
            ) is Ok,
        path_verdict(path) is Ok <==> forall|i: int|
            0 <= i < segments(path).len() ==> segment_verdict(#[trigger] segments(path)[i]) is Ok,
{
    let names = normal_components(path);
    let all = segments(path);
    lemma_first_rejection(names);
    lemma_normal_components_are_the_normal_segments(path);
    if path_verdict(path) is Ok {
        assert forall|i: int| 0 <= i < all.len() implies segment_verdict(#[trigger] all[i]) is Ok by {
            if normal_segment(all[i]) {
                assert(names.contains(all[i]));
                let at = choose|k: int| 0 <= k < names.len() && names[k] == all[i];
                assert(filename_verdict(names[at]) is Ok);
            }
        }
    }
    if forall|i: int| 0 <= i < all.len() ==> segment_verdict(#[trigger] all[i]) is Ok {
        assert forall|i: int| 0 <= i < names.len() implies filename_verdict(
            #[trigger] names[i],
        ) is Ok by {
            assert(normal_segment(names[i]));
            assert(all.contains(names[i]));
            let at = choose|k: int| 0 <= k < all.len() && all[k] == names[i];
            assert(segment_verdict(all[at]) is Ok);
        }
    }
}

/// A rejected path of a length within the limits owes its rejection to a
/// normal component: the first one that the file name rules reject.
pub proof fn lemma_path_rejected_by_first_rejected_component(path: Seq<u8>)
    requires
        0 < path.len() <= MAX_PATH_LEN,
        path_verdict(path) is Err,
    ensures
        exists|i: int|
            {
                &&& 0 <= i < normal_components(path).len()
                &&& filename_verdict(#[trigger] normal_components(path)[i]) == path_verdict(path)
                &&& forall|j: int|
                    0 <= j < i ==> filename_verdict(#[trigger] normal_components(path)[j]) is Ok
            },
{
    lemma_first_rejection(normal_components(path));
}

/// A path longer than the limit is rejected for its length, whatever it
/// holds.
pub proof fn lemma_overlong_path_rejected(path: Seq<u8>)
    requires
        path.len() > MAX_PATH_LEN,
    ensures
        path_verdict(path) == Err::<(), Rejection>(
            Rejection::PathTooLong { len: path.len() as usize },
        ),
{
}

/// Two paths that differ by one separator beside another get the same
/// verdict, as long as the longer of them is within the length limit.
pub proof fn lemma_verdict_ignores_repeated_separators(a: Seq<u8>, b: Seq<u8>)
    requires
        a.len() + b.len() + 2 <= MAX_PATH_LEN,
    ensures
        path_verdict(a + seq![SEPARATOR, SEPARATOR] + b) == path_verdict(a + seq![SEPARATOR] + b),
{
    lemma_repeated_separators_collapse(a, b);
}

/// Decides whether `path` can be made on every major file system, and says
/// which rule it breaks first where it cannot.
pub fn path_valid_portable(path: &[u8]) -> (verdict: Verdict)
    ensures
        verdict == path_verdict(path@),
{
    let len = path.len();
    if len == 0 {
        return Err(Rejection::PathEmpty);
    }
    if len > MAX_PATH_LEN {
        return Err(Rejection::PathTooLong { len });
    }
    let mut start: usize = 0;
    assert(path@.skip(0) =~= path@);
    loop
        invariant
            len == path.len(),
            0 < len <= MAX_PATH_LEN,
            start <= len,
            first_rejection(normal_components(path@)) == first_rejection(
                normal_components(path@.skip(start as int)),
            ),
        decreases len - start,
    {
        let end = segment_end(path, start);
        let segment = slice_subrange(path, start, end);
        proof {
            let rest = path@.skip(start as int);
            lemma_first_rejection_unfold(rest);
            if end < len {
                assert(segment@ =~= rest.take(end - start));
                assert(rest.skip(end - start + 1) =~= path@.skip(end + 1));
            } else {
                assert(segment@ =~= rest);
            }
        }
        if is_normal_segment(segment) {
            match filename_valid_portable(segment) {
                Err(rejection) => {
                    return Err(rejection);
                },
                Ok(()) => {},
            }
        }
        if end == len {
            return Ok(());
        }
        start = end + 1;
    }
}

} // verus!
