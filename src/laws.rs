//! Properties of selection, proved over the specifications that the
//! executable functions meet.
use vstd::prelude::*;

use crate::glob::{any_glob_matches, glob_matches};
use crate::path::{anchor, is_absolute, join_spec, relative_spec, trim_front};
use crate::select::{anchored, is_selected, select_spec, walked_file, WalkItem};

verus! {

/// A path is in the selection exactly when it is the path of a walked
/// regular file that the patterns select.
pub proof fn lemma_select_members(
    base: Seq<char>,
    inc: Seq<Seq<char>>,
    exc: Seq<Seq<char>>,
    walk: Seq<WalkItem>,
)
    ensures
        forall|p: Seq<char>|
            #[trigger] select_spec(base, inc, exc, walk).contains(p) <==> (walked_file(walk, p)
                && is_selected(base, inc, exc, p)),
    decreases walk.len(),
{
    if walk.len() > 0 {
        let w = walk.drop_last();
        lemma_select_members(base, inc, exc, w);
        let prev = select_spec(base, inc, exc, w);
        let last = walk.last();
        assert forall|p: Seq<char>|
            walked_file(walk, p) <==> (walked_file(w, p) || (last matches WalkItem::File(q)
                && q@ == p)) by {
            if walked_file(walk, p) {
                let k = choose|k: int|
                    0 <= k < walk.len() && (#[trigger] walk[k] matches WalkItem::File(q) && q@
                        == p);
                if k < walk.len() - 1 {
                    assert(w[k] == walk[k]);
                }
            }
            if walked_file(w, p) {
                let k = choose|k: int|
                    0 <= k < w.len() && (#[trigger] w[k] matches WalkItem::File(q) && q@ == p);
                assert(walk[k] == w[k]);
            }
            assert(walk[walk.len() - 1] == last);
        }
        assert forall|p: Seq<char>|
            #[trigger] select_spec(base, inc, exc, walk).contains(p) <==> (walked_file(walk, p)
                && is_selected(base, inc, exc, p)) by {
            assert(prev.contains(p) <==> (walked_file(w, p) && is_selected(base, inc, exc, p)));
            assert(walked_file(walk, p) <==> (walked_file(w, p) || (last matches WalkItem::File(q)
                && q@ == p)));
            match last {
                WalkItem::File(q) => {
                    if is_selected(base, inc, exc, q@) && !prev.contains(q@) {
                        assert(select_spec(base, inc, exc, walk) == prev.push(q@));
                        if p == q@ {
                            assert(prev.push(q@)[prev.len() as int] == p);
                        }
                        if prev.push(q@).contains(p) && p != q@ {
                            let k = choose|k: int| 0 <= k < prev.len() + 1 && prev.push(q@)[k] == p;
                            assert(prev[k] == p);
                        }
                        if prev.contains(p) {
                            let k = choose|k: int| 0 <= k < prev.len() && prev[k] == p;
                            assert(prev.push(q@)[k] == p);
                        }
                        assert(select_spec(base, inc, exc, walk).contains(p) <==> (walked_file(walk, p)
                            && is_selected(base, inc, exc, p)));
                    } else {
                        assert(select_spec(base, inc, exc, walk) == prev);
                        assert(select_spec(base, inc, exc, walk).contains(p) <==> (walked_file(walk, p)
                            && is_selected(base, inc, exc, p)));
                    }
                },
                _ => {
                    assert(select_spec(base, inc, exc, walk) == prev);
                    assert(select_spec(base, inc, exc, walk).contains(p) <==> (walked_file(walk, p)
                        && is_selected(base, inc, exc, p)));
                },
            }
        }
    }
}

/// The selection holds each path at most once.
pub proof fn lemma_select_no_duplicates(
    base: Seq<char>,
    inc: Seq<Seq<char>>,
    exc: Seq<Seq<char>>,
    walk: Seq<WalkItem>,
)
    ensures
        select_spec(base, inc, exc, walk).no_duplicates(),
    decreases walk.len(),
{
    if walk.len() > 0 {
        lemma_select_no_duplicates(base, inc, exc, walk.drop_last());
    }
}

/// With no excluded pattern and at least one included pattern, the selection
/// is exactly the walked regular files whose path relative to the base matches
/// an included pattern.
pub proof fn lemma_no_exclusions_select_matches(
    base: Seq<char>,
    included: Seq<String>,
    walk: Seq<WalkItem>,
)
    requires
        included.len() > 0,
    ensures
        forall|p: Seq<char>|
            #[trigger] select_spec(
                base,
                anchored(base, included),
                Seq::empty(),
                walk,
            ).contains(p) <==> (walked_file(walk, p) && (relative_spec(base, p) matches Some(rel)
                && any_glob_matches(anchored(base, included), rel))),
{
    let excluded: Seq<String> = Seq::empty();
    assert(anchored(base, excluded) =~= Seq::<Seq<char>>::empty());
    lemma_select_members(base, anchored(base, included), Seq::empty(), walk);
}

/// A file whose relative path matches both an included and an excluded
/// pattern is not selected: exclusion wins.
pub proof fn lemma_exclusion_wins(
    base: Seq<char>,
    included: Seq<String>,
    excluded: Seq<String>,
    walk: Seq<WalkItem>,
    p: Seq<char>,
    i: int,
    j: int,
)
    requires
        relative_spec(base, p) is Some,
        0 <= i < included.len(),
        0 <= j < excluded.len(),
        glob_matches(anchor(base, included[i]@), relative_spec(base, p)->0),
        glob_matches(anchor(base, excluded[j]@), relative_spec(base, p)->0),
    ensures
        !select_spec(base, anchored(base, included), anchored(base, excluded), walk).contains(p),
{
    let exc = anchored(base, excluded);
    assert(exc[j] == anchor(base, excluded[j]@));
    assert(any_glob_matches(exc, relative_spec(base, p)->0));
    lemma_select_members(base, anchored(base, included), exc, walk);
}

/// Two walks that visit the same regular files, in any order and with any
/// other entries, give the same set of selected files.
pub proof fn lemma_select_same_set(
    base: Seq<char>,
    inc: Seq<Seq<char>>,
    exc: Seq<Seq<char>>,
    walk1: Seq<WalkItem>,
    walk2: Seq<WalkItem>,
)
    requires
        forall|p: Seq<char>| walked_file(walk1, p) <==> walked_file(walk2, p),
    ensures
        select_spec(base, inc, exc, walk1).to_set() == select_spec(base, inc, exc, walk2).to_set(),
{
    lemma_select_members(base, inc, exc, walk1);
    lemma_select_members(base, inc, exc, walk2);
    assert(select_spec(base, inc, exc, walk1).to_set() =~= select_spec(
        base,
        inc,
        exc,
        walk2,
    ).to_set());
}

/// With no included pattern nothing is selected, whatever the excluded
/// patterns, the base path and the walk.
pub proof fn lemma_no_inclusions_select_nothing(
    base: Seq<char>,
    excluded: Seq<String>,
    walk: Seq<WalkItem>,
)
    ensures
        select_spec(base, anchored(base, Seq::empty()), anchored(base, excluded), walk)
            == Seq::<Seq<char>>::empty(),
    decreases walk.len(),
{
    let inc = anchored(base, Seq::<String>::empty());
    assert(inc =~= Seq::<Seq<char>>::empty());
    if walk.len() > 0 {
        lemma_no_inclusions_select_nothing(base, excluded, walk.drop_last());
    }
}

/// A walked file that two included patterns both select, and no excluded
/// pattern rejects, is in the selection exactly once.
pub proof fn lemma_matched_twice_selected_once(
    base: Seq<char>,
    included: Seq<String>,
    excluded: Seq<String>,
    walk: Seq<WalkItem>,
    p: Seq<char>,
    i: int,
    j: int,
)
    requires
        walked_file(walk, p),
        relative_spec(base, p) is Some,
        0 <= i < included.len(),
        0 <= j < included.len(),
        i != j,
        glob_matches(anchor(base, included[i]@), relative_spec(base, p)->0),
        glob_matches(anchor(base, included[j]@), relative_spec(base, p)->0),
        !any_glob_matches(anchored(base, excluded), relative_spec(base, p)->0),
    ensures
        select_spec(base, anchored(base, included), anchored(base, excluded), walk).contains(p),
        select_spec(
            base,
            anchored(base, included),
            anchored(base, excluded),
            walk,
        ).no_duplicates(),
{
    let inc = anchored(base, included);
    assert(inc[i] == anchor(base, included[i]@));
    lemma_select_members(base, inc, anchored(base, excluded), walk);
    lemma_select_no_duplicates(base, inc, anchored(base, excluded), walk);
}

/// A pattern written as the base path, a separator and a relative pattern is
/// anchored, and joined then anchored, to what the relative pattern is.
pub proof fn lemma_absolute_pattern_as_relative(base: Seq<char>, r: Seq<char>)
    requires
        is_absolute(base),
        !is_absolute(r),
    ensures
        anchor(base, base + seq!['/'] + r) == anchor(base, r),
        anchor(base, join_spec(base, base + seq!['/'] + r)) == anchor(base, join_spec(base, r)),
{
    let a = base + seq!['/'] + r;
    assert(a[0] == base[0]);
    assert(base.is_prefix_of(a)) by {
        assert(a.take(base.len() as int) =~= base);
    }
    assert(a[base.len() as int] == '/');
    assert(a.skip(base.len() as int).drop_first() =~= r);
    assert(trim_front(a.skip(base.len() as int)) == trim_front(r));
    if base.last() == '/' {
        let b = base + r;
        assert(b[0] == base[0]);
        assert(base.is_prefix_of(b)) by {
            assert(b.take(base.len() as int) =~= base);
        }
        assert(b.skip(base.len() as int) =~= r);
    }
}

/// Patterns that differ only in being written relative to the base path or
/// as the base path followed by the same relative pattern select the same
/// files.
pub proof fn lemma_absolute_patterns_select_alike(
    base: Seq<char>,
    inc_a: Seq<String>,
    inc_r: Seq<String>,
    exc_a: Seq<String>,
    exc_r: Seq<String>,
    walk: Seq<WalkItem>,
)
    requires
        is_absolute(base),
        inc_a.len() == inc_r.len(),
        exc_a.len() == exc_r.len(),
        forall|i: int|
            0 <= i < inc_a.len() ==> #[trigger] inc_a[i]@ == inc_r[i]@ || (!is_absolute(inc_r[i]@)
                && inc_a[i]@ == base + seq!['/'] + inc_r[i]@),
        forall|i: int|
            0 <= i < exc_a.len() ==> #[trigger] exc_a[i]@ == exc_r[i]@ || (!is_absolute(exc_r[i]@)
                && exc_a[i]@ == base + seq!['/'] + exc_r[i]@),
    ensures
        anchored(base, inc_a) == anchored(base, inc_r),
        anchored(base, exc_a) == anchored(base, exc_r),
        select_spec(base, anchored(base, inc_a), anchored(base, exc_a), walk) == select_spec(
            base,
            anchored(base, inc_r),
            anchored(base, exc_r),
            walk,
        ),
{
    assert forall|i: int| 0 <= i < inc_a.len() implies anchor(base, inc_a[i]@) == anchor(
        base,
        inc_r[i]@,
    ) by {
        if inc_a[i]@ != inc_r[i]@ {
            lemma_absolute_pattern_as_relative(base, inc_r[i]@);
        }
    }
    assert forall|i: int| 0 <= i < exc_a.len() implies anchor(base, exc_a[i]@) == anchor(
        base,
        exc_r[i]@,
    ) by {
        if exc_a[i]@ != exc_r[i]@ {
            lemma_absolute_pattern_as_relative(base, exc_r[i]@);
        }
    }
    assert(anchored(base, inc_a) =~= anchored(base, inc_r));
    assert(anchored(base, exc_a) =~= anchored(base, exc_r));
}

} // verus!
