//! The selector: patterns anchored at a base path are compiled into glob
//! sets, and the entries of a walk below the base are kept when their
//! relative path matches an included pattern and no excluded pattern.
use vstd::prelude::*;

use globset::GlobSet;

use crate::glob::{
    add_glob, any_glob_matches, build_set, glob_parses, new_builder, set_builds, set_globs,
    set_is_match,
};
use crate::laws::lemma_select_no_duplicates;
use crate::path::{anchor, anchor_pattern, relative_path, relative_spec};

verus! {

/// One entry met while walking the tree below a base path.
pub enum WalkItem {
    /// A regular file, by its full path.
    File(String),
    /// A directory, or anything else that is not a regular file.
    Other,
    /// An entry that could not be read; the walk went on without it.
    Unreadable,
}

/// What can make a selection fail.
#[derive(Debug)]
pub enum KatError {
    /// No profile of this name is known.
    ProfileNotFound(String),
    /// The base path could not be resolved.
    PathNotFound(String),
    /// This pattern is not a valid glob.
    PatternSyntax(String),
    /// The patterns are valid, but together they are too large to compile.
    MatcherLimit,
}

/// The outcome of a selection: the selected files, in walk order and without
/// repeats, and the number of entries that could not be read.
pub struct Selection {
    pub files: Vec<String>,
    pub skipped: usize,
}

/// The characters of each string.
pub open spec fn views(v: Seq<String>) -> Seq<Seq<char>> {
    v.map_values(|s: String| s@)
}

/// Each pattern anchored at `base`.
pub open spec fn anchored(base: Seq<char>, pats: Seq<String>) -> Seq<Seq<char>> {
    Seq::new(pats.len(), |i: int| anchor(base, pats[i]@))
}

/// Every pattern, once anchored at `base`, is a valid glob.
pub open spec fn all_parse(base: Seq<char>, pats: Seq<String>) -> bool {
    forall|i: int| 0 <= i < pats.len() ==> glob_parses(#[trigger] anchor(base, pats[i]@))
}

/// `pats[i]` is the first pattern that is not a valid glob once anchored.
pub open spec fn is_first_unparsable(base: Seq<char>, pats: Seq<String>, i: int) -> bool {
    &&& 0 <= i < pats.len()
    &&& !glob_parses(anchor(base, pats[i]@))
    &&& all_parse(base, pats.take(i))
}

/// A walked file is selected when it has a path relative to the base, some
/// included glob matches that path, and no excluded glob does.
pub open spec fn is_selected(
    base: Seq<char>,
    inc: Seq<Seq<char>>,
    exc: Seq<Seq<char>>,
    path: Seq<char>,
) -> bool {
    match relative_spec(base, path) {
        Some(rel) => any_glob_matches(inc, rel) && !any_glob_matches(exc, rel),
        None => false,
    }
}

/// The paths of the selected files of `walk`, each at its first occurrence.
pub open spec fn select_spec(
    base: Seq<char>,
    inc: Seq<Seq<char>>,
    exc: Seq<Seq<char>>,
    walk: Seq<WalkItem>,
) -> Seq<Seq<char>>
    decreases walk.len(),
{
    if walk.len() == 0 {
        Seq::empty()
    } else {
        let prev = select_spec(base, inc, exc, walk.drop_last());
        match walk.last() {
            WalkItem::File(p) => if is_selected(base, inc, exc, p@) && !prev.contains(p@) {
                prev.push(p@)
            } else {
                prev
            },
            _ => prev,
        }
    }
}

/// The number of entries of `walk` that could not be read.
pub open spec fn unreadable_count(walk: Seq<WalkItem>) -> nat
    decreases walk.len(),
{
    if walk.len() == 0 {
        0
    } else {
        unreadable_count(walk.drop_last()) + if walk.last() is Unreadable {
            1nat
        } else {
            0nat
        }
    }
}

/// `p` is the path of some regular file of `walk`.
pub open spec fn walked_file(walk: Seq<WalkItem>, p: Seq<char>) -> bool {
    exists|k: int| 0 <= k < walk.len() && (#[trigger] walk[k] matches WalkItem::File(q) && q@ == p)
}

/// Include and excluded glob sets anchored at one base path.
pub struct Matchers {
    base: String,
    included: GlobSet,
    excluded: GlobSet,
}

impl Matchers {
    /// The base path the patterns are anchored at.
    pub closed spec fn base_path(&self) -> Seq<char> {
        self.base@
    }

    /// The anchored included patterns.
    pub closed spec fn included_globs(&self) -> Seq<Seq<char>> {
        set_globs(self.included)
    }

    /// The anchored excluded patterns.
    pub closed spec fn excluded_globs(&self) -> Seq<Seq<char>> {
        set_globs(self.excluded)
    }

    /// Keeps the regular files of `walk` that the included patterns select and
    /// the excluded patterns do not, each once, in walk order.
    pub fn select(&self, walk: &Vec<WalkItem>) -> (r: Selection)
        ensures
            views(r.files@) == select_spec(
                self.base_path(),
                self.included_globs(),
                self.excluded_globs(),
                walk@,
            ),
            views(r.files@).no_duplicates(),
            r.skipped == unreadable_count(walk@),
    {
        let ghost base = self.base_path();
        let ghost inc = self.included_globs();
        let ghost exc = self.excluded_globs();
        let mut files: Vec<String> = Vec::new();
        let mut skipped: usize = 0;
        let n = walk.len();
        let mut i: usize = 0;
        while i < n
            invariant
                n == walk@.len(),
                i <= n,
                base == self.base_path(),
                inc == self.included_globs(),
                exc == self.excluded_globs(),
                views(files@) == select_spec(base, inc, exc, walk@.take(i as int)),
                skipped == unreadable_count(walk@.take(i as int)),
                skipped <= i,
            decreases n - i,
        {
            proof {
                assert(walk@.take(i + 1).drop_last() =~= walk@.take(i as int));
            }
            match &walk[i] {
                WalkItem::File(p) => {
                    match relative_path(&self.base, p) {
                        Some(rel) => {
                            let included = set_is_match(&self.included, &rel);
                            if included && !set_is_match(&self.excluded, &rel) {
                                if !contains_path(&files, p) {
                                    files.push(p.clone());
                                    proof {
                                        assert(views(files@) =~= select_spec(
                                            base,
                                            inc,
                                            exc,
                                            walk@.take(i as int),
                                        ).push(p@));
                                    }
                                }
                            }
                        },
                        None => {},
                    }
                },
                WalkItem::Other => {},
                WalkItem::Unreadable => {
                    skipped = skipped + 1;
                },
            }
            i = i + 1;
        }
        proof {
            assert(walk@.take(n as int) =~= walk@);
            lemma_select_no_duplicates(base, inc, exc, walk@);
        }
        Selection { files, skipped }
    }
}

/// Whether `p` is among `files`.
pub(crate) fn contains_path(files: &Vec<String>, p: &String) -> (r: bool)
    ensures
        r == views(files@).contains(p@),
{
    let mut j: usize = 0;
    while j < files.len()
        invariant
            j <= files@.len(),
            forall|k: int| 0 <= k < j ==> files@[k]@ != p@,
        decreases files@.len() - j,
    {
        if files[j] == *p {
            assert(views(files@)[j as int] == p@);
            return true;
        }
        j = j + 1;
    }
    proof {
        if views(files@).contains(p@) {
            let k = choose|k: int| 0 <= k < views(files@).len() && views(files@)[k] == p@;
            assert(files@[k]@ == p@);
        }
    }
    false
}

/// Compiles `pats`, anchored at `base`, into one glob set.
fn compile_set(base: &str, pats: &Vec<String>) -> (r: Result<GlobSet, KatError>)
    ensures
        r matches Ok(s) ==> all_parse(base@, pats@) && set_globs(s) == anchored(base@, pats@),
        r matches Err(KatError::PatternSyntax(p)) ==> exists|i: int|
            is_first_unparsable(base@, pats@, i) && pats@[i]@ == p@,
        r matches Err(e) ==> (e is PatternSyntax || e is MatcherLimit),
        r matches Err(KatError::PatternSyntax(_)) <==> !all_parse(base@, pats@),
        r is Ok <==> (all_parse(base@, pats@) && set_builds(anchored(base@, pats@))),
        pats@.len() == 0 ==> r is Ok,
{
    let mut builder = new_builder();
    let n = pats.len();
    let mut i: usize = 0;
    while i < n
        invariant
            n == pats@.len(),
            i <= n,
            all_parse(base@, pats@.take(i as int)),
            crate::glob::builder_globs(builder) == anchored(base@, pats@.take(i as int)),
        decreases n - i,
    {
        let anchored_pat = anchor_pattern(base, &pats[i]);
        match add_glob(&mut builder, &anchored_pat) {
            Ok(()) => {},
            Err(_) => {
                proof {
                    assert(is_first_unparsable(base@, pats@, i as int));
                }
                return Err(KatError::PatternSyntax(pats[i].clone()));
            },
        }
        proof {
            assert(anchored(base@, pats@.take(i + 1)) =~= anchored(
                base@,
                pats@.take(i as int),
            ).push(anchor(base@, pats@[i as int]@)));
            assert forall|j: int| 0 <= j < i + 1 implies glob_parses(
                #[trigger] anchor(base@, pats@.take(i + 1)[j]@),
            ) by {
                if j < i {
                    assert(pats@.take(i + 1)[j] == pats@.take(i as int)[j]);
                }
            }
        }
        i = i + 1;
    }
    proof {
        assert(pats@.take(n as int) =~= pats@);
    }
    match build_set(&builder) {
        Ok(s) => Ok(s),
        Err(_) => Err(KatError::MatcherLimit),
    }
}

/// Anchors the included and excluded patterns at `base` and compiles them.
/// An invalid pattern fails the whole compilation and is named in the error,
/// the first one in included-then-excluded order.
pub fn compile_matchers(base: &str, included: &Vec<String>, excluded: &Vec<String>) -> (r: Result<
    Matchers,
    KatError,
>)
    ensures
        r matches Ok(m) ==> {
            &&& m.base_path() == base@
            &&& m.included_globs() == anchored(base@, included@)
            &&& m.excluded_globs() == anchored(base@, excluded@)
        },
        r matches Err(KatError::PatternSyntax(_)) <==> !(all_parse(base@, included@) && all_parse(
            base@,
            excluded@,
        )),
        r matches Err(KatError::PatternSyntax(p)) ==> (exists|i: int|
            is_first_unparsable(base@, included@, i) && included@[i]@ == p@) || (all_parse(
            base@,
            included@,
        ) && exists|i: int| is_first_unparsable(base@, excluded@, i) && excluded@[i]@ == p@),
        r matches Err(e) ==> (e is PatternSyntax || e is MatcherLimit),
        r is Ok <==> (all_parse(base@, included@) && all_parse(base@, excluded@) && set_builds(
            anchored(base@, included@),
        ) && set_builds(anchored(base@, excluded@))),
        included@.len() == 0 && excluded@.len() == 0 ==> r is Ok,
{
    let inc = compile_set(base, included);
    if let Err(KatError::PatternSyntax(p)) = inc {
        return Err(KatError::PatternSyntax(p));
    }
    // Every included pattern parses: an invalid excluded pattern is reported
    // before a set that grew too large.
    let exc = compile_set(base, excluded);
    match (inc, exc) {
        (Ok(i), Ok(e)) => Ok(Matchers { base: base.to_owned(), included: i, excluded: e }),
        (_, Err(KatError::PatternSyntax(p))) => Err(KatError::PatternSyntax(p)),
        _ => Err(KatError::MatcherLimit),
    }
}

} // verus!
