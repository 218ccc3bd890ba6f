//! How a path falls into components.
//!
//! Components are parted by `/`, as on POSIX systems. A `\` or a `:` is then
//! a byte inside a component, where the file name rules refuse it.

use crate::charset::{PERIOD, SLASH};
use vstd::prelude::*;

verus! {

/// The byte that parts the components of a path.
pub const SEPARATOR: u8 = SLASH;

/// What stands between the separators of `path`, in order. Two separators
/// in a row, or one at either end, leave an empty segment.
pub open spec fn segments(path: Seq<u8>) -> Seq<Seq<u8>>
    decreases path.len(),
{
    match path.index_of_first(SEPARATOR) {
        Some(at) => {
            proof {
                path.index_of_first_ensures(SEPARATOR);
            }
            seq![path.take(at)] + segments(path.skip(at + 1))
        },
        None => seq![path],
    }
}

/// The path that has `parts` as its segments: the parts in order, with one
/// separator between each two.
pub open spec fn join(parts: Seq<Seq<u8>>) -> Seq<u8>
    decreases parts.len(),
{
    if parts.len() == 0 {
        Seq::empty()
    } else if parts.len() == 1 {
        parts[0]
    } else {
        parts[0] + seq![SEPARATOR] + join(parts.drop_first())
    }
}

/// A segment that names a file or a folder: not empty, and neither `.` (the
/// current directory) nor `..` (its parent).
pub open spec fn normal_segment(segment: Seq<u8>) -> bool {
    segment.len() > 0 && segment != seq![PERIOD] && segment != seq![PERIOD, PERIOD]
}

/// The normal components of `path`, in order.
pub open spec fn normal_components(path: Seq<u8>) -> Seq<Seq<u8>> {
    segments(path).filter(|segment: Seq<u8>| normal_segment(segment))
}

/// An index that holds `b` and has no `b` before it is the first index of
/// `b`.
pub proof fn lemma_index_of_first(s: Seq<u8>, b: u8, at: int)
    requires
        0 <= at < s.len(),
        s[at] == b,
        forall|j: int| 0 <= j < at ==> s[j] != b,
    ensures
        s.index_of_first(b) == Some(at),
{
    s.index_of_first_ensures(b);
}

/// A path without a separator is its own and only segment.
pub proof fn lemma_segments_of_one(part: Seq<u8>)
    requires
        !part.contains(SEPARATOR),
    ensures
        segments(part) == seq![part],
{
    part.index_of_first_ensures(SEPARATOR);
}

/// The segments of two paths joined by a separator are the segments of the
/// first followed by those of the second.
pub proof fn lemma_segments_of_joined(a: Seq<u8>, b: Seq<u8>)
    ensures
        segments(a + seq![SEPARATOR] + b) == segments(a) + segments(b),
    decreases a.len(),
{
    let whole = a + seq![SEPARATOR] + b;
    a.index_of_first_ensures(SEPARATOR);
    match a.index_of_first(SEPARATOR) {
        Some(at) => {
            lemma_index_of_first(whole, SEPARATOR, at);
            assert(whole.take(at) =~= a.take(at));
            assert(whole.skip(at + 1) =~= a.skip(at + 1) + seq![SEPARATOR] + b);
            lemma_segments_of_joined(a.skip(at + 1), b);
            assert(segments(whole) =~= segments(a) + segments(b));
        },
        None => {
            assert forall|j: int| 0 <= j < a.len() implies whole[j] != SEPARATOR by {
                assert(a.contains(a[j]));
            }
            lemma_index_of_first(whole, SEPARATOR, a.len() as int);
            assert(whole.take(a.len() as int) =~= a);
            assert(whole.skip(a.len() as int + 1) =~= b);
        },
    }
}

/// Splitting undoes joining: the segments of a path hold no separator, there
/// is at least one of them, and joined again they give the path.
pub proof fn lemma_join_of_segments(path: Seq<u8>)
    ensures
        segments(path).len() >= 1,
        forall|i: int| 0 <= i < segments(path).len() ==> !(#[trigger] segments(path)[i]).contains(
            SEPARATOR,
        ),
        join(segments(path)) == path,
    decreases path.len(),
{
    path.index_of_first_ensures(SEPARATOR);
    match path.index_of_first(SEPARATOR) {
        Some(at) => {
            let head = path.take(at);
            let tail = path.skip(at + 1);
            lemma_join_of_segments(tail);
            assert(!head.contains(SEPARATOR));
            assert forall|i: int| 0 <= i < segments(path).len() implies !(
            #[trigger] segments(path)[i]).contains(SEPARATOR) by {
                if i > 0 {
                    assert(segments(path)[i] == segments(tail)[i - 1]);
                }
            }
            assert(segments(path).drop_first() =~= segments(tail));
            assert(head + seq![SEPARATOR] + tail =~= path);
        },
        None => {},
    }
}

/// Joining undoes splitting: parts that hold no separator, and are at least
/// one, are the segments of the path they are joined to.
pub proof fn lemma_segments_of_join(parts: Seq<Seq<u8>>)
    requires
        parts.len() >= 1,
        forall|i: int| 0 <= i < parts.len() ==> !(#[trigger] parts[i]).contains(SEPARATOR),
    ensures
        segments(join(parts)) == parts,
    decreases parts.len(),
{
    lemma_segments_of_one(parts[0]);
    if parts.len() > 1 {
        let rest = parts.drop_first();
        assert forall|i: int| 0 <= i < rest.len() implies !(#[trigger] rest[i]).contains(
            SEPARATOR,
        ) by {
            assert(rest[i] == parts[i + 1]);
        }
        lemma_segments_of_join(rest);
        lemma_segments_of_joined(parts[0], join(rest));
        assert(seq![parts[0]] + rest =~= parts);
    } else {
        assert(seq![parts[0]] =~= parts);
    }
}

/// The normal components of one segment alone: itself, or nothing.
proof fn lemma_filter_one(segment: Seq<u8>)
    ensures
        seq![segment].filter(|s: Seq<u8>| normal_segment(s)) == if normal_segment(segment) {
            seq![segment]
        } else {
            Seq::<Seq<u8>>::empty()
        },
{
    let keep = |s: Seq<u8>| normal_segment(s);
    reveal_with_fuel(Seq::filter, 2);
    assert(seq![segment].drop_last() =~= Seq::<Seq<u8>>::empty());
    assert(seq![segment].filter(keep) =~= if normal_segment(segment) {
        seq![segment]
    } else {
        Seq::<Seq<u8>>::empty()
    });
}

/// A path without a separator has itself as its one component where it is a
/// normal segment, and has none where it is not.
pub proof fn lemma_normal_components_of_one(part: Seq<u8>)
    requires
        !part.contains(SEPARATOR),
    ensures
        normal_components(part) == if normal_segment(part) {
            seq![part]
        } else {
            Seq::<Seq<u8>>::empty()
        },
{
    lemma_segments_of_one(part);
    lemma_filter_one(part);
}

/// The normal components of two paths joined by a separator are those of the
/// first followed by those of the second.
pub proof fn lemma_normal_components_of_joined(a: Seq<u8>, b: Seq<u8>)
    ensures
        normal_components(a + seq![SEPARATOR] + b) == normal_components(a) + normal_components(b),
{
    lemma_segments_of_joined(a, b);
    Seq::filter_distributes_over_add(segments(a), segments(b), |s: Seq<u8>| normal_segment(s));
}

/// Every normal component is a normal segment of the path, and every normal
/// segment of the path is among its normal components: the empty segments
/// that repeated separators leave, `.` and `..` are dropped and nothing else.
pub proof fn lemma_normal_components_are_the_normal_segments(path: Seq<u8>)
    ensures
        forall|i: int|
            0 <= i < normal_components(path).len() ==> {
                &&& normal_segment(#[trigger] normal_components(path)[i])
                &&& segments(path).contains(normal_components(path)[i])
            },
        forall|i: int|
            0 <= i < segments(path).len() && normal_segment(#[trigger] segments(path)[i])
                ==> normal_components(path).contains(segments(path)[i]),
{
    let keep = |s: Seq<u8>| normal_segment(s);
    let all = segments(path);
    assert forall|i: int| 0 <= i < all.filter(keep).len() implies {
        &&& normal_segment(#[trigger] all.filter(keep)[i])
        &&& all.contains(all.filter(keep)[i])
    } by {
        all.lemma_filter_pred(keep, i);
        assert(all.filter(keep).contains(all.filter(keep)[i]));
        all.lemma_filter_contains_rev(keep, all.filter(keep)[i]);
    }
    assert forall|i: int| 0 <= i < all.len() && normal_segment(#[trigger] all[i]) implies all.filter(
        keep,
    ).contains(all[i]) by {
        all.lemma_filter_contains(keep, i);
    }
}

/// A second separator beside a first changes no component: repeated
/// separators collapse.
pub proof fn lemma_repeated_separators_collapse(a: Seq<u8>, b: Seq<u8>)
    ensures
        normal_components(a + seq![SEPARATOR, SEPARATOR] + b) == normal_components(
            a + seq![SEPARATOR] + b,
        ),
{
    let nothing = Seq::<u8>::empty();
    assert(a + seq![SEPARATOR, SEPARATOR] + b =~= a + seq![SEPARATOR] + (nothing + seq![SEPARATOR]
        + b));
    lemma_normal_components_of_joined(a, nothing + seq![SEPARATOR] + b);
    lemma_normal_components_of_joined(nothing, b);
    lemma_normal_components_of_joined(a, b);
    assert(!nothing.contains(SEPARATOR));
    lemma_normal_components_of_one(nothing);
    assert(normal_components(nothing) + normal_components(b) =~= normal_components(b));
}

/// Whether `segment` is neither empty, nor `.`, nor `..`.
pub fn is_normal_segment(segment: &[u8]) -> (normal: bool)
    ensures
        normal == normal_segment(segment@),
{
    let len = segment.len();
    if len == 0 {
        false
    } else if len == 1 {
        proof {
            assert(segment@ == seq![PERIOD] <==> segment@[0] == PERIOD) by {
                if segment@[0] == PERIOD {
                    assert(segment@ =~= seq![PERIOD]);
                }
            }
        }
        segment[0] != PERIOD
    } else if len == 2 {
        proof {
            assert(segment@ == seq![PERIOD, PERIOD] <==> segment@[0] == PERIOD && segment@[1]
                == PERIOD) by {
                if segment@[0] == PERIOD && segment@[1] == PERIOD {
                    assert(segment@ =~= seq![PERIOD, PERIOD]);
                }
            }
        }
        !(segment[0] == PERIOD && segment[1] == PERIOD)
    } else {
        true
    }
}

/// The index of the first separator at or after `start`, or the length of
/// `path` where there is none.
pub fn segment_end(path: &[u8], start: usize) -> (end: usize)
    requires
        start <= path.len(),
    ensures
        start <= end <= path.len(),
        match path@.skip(start as int).index_of_first(SEPARATOR) {
            Some(at) => end == start + at,
            None => end == path.len(),
        },
{
    let mut end: usize = start;
    while end < path.len() && path[end] != SEPARATOR
        invariant
            start <= end <= path.len(),
            forall|j: int| start <= j < end ==> path@[j] != SEPARATOR,
        decreases path.len() - end,
    {
        end += 1;
    }
    proof {
        let rest = path@.skip(start as int);
        if end < path.len() {
            lemma_index_of_first(rest, SEPARATOR, end - start);
        } else {
            rest.index_of_first_ensures(SEPARATOR);
        }
    }
    end
}

} // verus!
