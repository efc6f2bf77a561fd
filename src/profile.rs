//! Profiles and the store that holds them, by name.
use vstd::prelude::*;

use crate::glob::set_builds;
use crate::path::{chars_of, join_path, join_spec};
use crate::select::{
    all_parse, anchored, compile_matchers, contains_path, is_first_unparsable, select_spec, views, KatError,
    WalkItem,
};

verus! {

/// A named set of rules for selecting files.
///
/// The type lists are carried as given and play no part in selection.
pub struct Config {
    pub name: String,
    pub about: String,
    pub included_paths: Vec<String>,
    pub excluded_paths: Vec<String>,
    pub included_types: Vec<String>,
    pub excluded_types: Vec<String>,
}

/// A profile's patterns joined to a base path.
pub struct ResolvedPatterns {
    pub included: Vec<String>,
    pub excluded: Vec<String>,
}

/// Each pattern joined to `base`.
pub open spec fn joined(base: Seq<char>, pats: Seq<String>) -> Seq<Seq<char>> {
    Seq::new(pats.len(), |i: int| join_spec(base, pats[i]@))
}

/// The last profile of `s` with the given name: a later profile replaces an
/// earlier one of the same name.
pub open spec fn last_named(s: Seq<Config>, name: Seq<char>) -> Option<Config>
    decreases s.len(),
{
    if s.len() == 0 {
        None
    } else if s.last().name@ == name {
        Some(s.last())
    } else {
        last_named(s.drop_last(), name)
    }
}

/// The position of the last `.` of `s`, or -1 when it has none.
pub open spec fn last_dot(s: Seq<char>) -> int
    decreases s.len(),
{
    if s.len() == 0 {
        -1
    } else if s.last() == '.' {
        s.len() - 1
    } else {
        last_dot(s.drop_last())
    }
}

/// The profile name a file of this name defines: its stem, when its
/// extension is `yml` or `yaml`. A leading dot starts no extension.
pub open spec fn profile_name_spec(f: Seq<char>) -> Option<Seq<char>> {
    let d = last_dot(f);
    if d > 0 && (f.skip(d + 1) == seq!['y', 'm', 'l'] || f.skip(d + 1) == seq![
        'y',
        'a',
        'm',
        'l',
    ]) {
        Some(f.take(d))
    } else {
        None
    }
}

/// Profiles by name.
pub struct Kat {
    configs: Vec<Config>,
}

impl View for Kat {
    type V = Seq<Config>;

    closed spec fn view(&self) -> Seq<Config> {
        self.configs@
    }
}

/// Joins each pattern to `base`.
pub fn resolve_patterns(base: &str, pats: &Vec<String>) -> (r: Vec<String>)
    ensures
        views(r@) == joined(base@, pats@),
{
    let mut r: Vec<String> = Vec::new();
    let n = pats.len();
    let mut i: usize = 0;
    while i < n
        invariant
            n == pats@.len(),
            i <= n,
            views(r@) == joined(base@, pats@.take(i as int)),
        decreases n - i,
    {
        let ghost prev = r@;
        let s = join_path(base, &pats[i]);
        r.push(s);
        proof {
            assert(r@ == prev.push(s));
            assert(views(r@) =~= views(prev).push(s@));
            assert(joined(base@, pats@.take(i + 1)) =~= joined(base@, pats@.take(i as int)).push(
                join_spec(base@, pats@[i as int]@),
            ));
        }
        i = i + 1;
    }
    assert(pats@.take(n as int) =~= pats@);
    r
}

/// The name of the profile that a file of this name defines (see
/// `profile_name_spec`).
pub fn profile_name_for_file(file_name: &str) -> (r: Option<String>)
    ensures
        r matches Some(s) ==> profile_name_spec(file_name@) == Some(s@),
        r is None ==> profile_name_spec(file_name@) is None,
{
    let c = chars_of(file_name);
    let n = c.len();
    let mut k: usize = n;
    assert(c@.take(n as int) =~= c@);
    while k > 0 && c[k - 1] != '.'
        invariant
            k <= n,
            n == c@.len(),
            last_dot(c@) == last_dot(c@.take(k as int)),
        decreases k,
    {
        assert(c@.take(k as int).drop_last() =~= c@.take(k - 1));
        k = k - 1;
    }
    proof {
        if k > 0 {
            assert(c@.take(k as int).last() == '.');
        }
        assert(c@.take(0) =~= Seq::<char>::empty());
    }
    if k <= 1 {
        return None;
    }
    let d = k - 1;
    let ext_len = n - k;
    let is_yml = ext_len == 3 && c[k] == 'y' && c[k + 1] == 'm' && c[k + 2] == 'l';
    let is_yaml = ext_len == 4 && c[k] == 'y' && c[k + 1] == 'a' && c[k + 2] == 'm' && c[k + 3]
        == 'l';
    proof {
        let ext = c@.skip(k as int);
        if ext =~= seq!['y', 'm', 'l'] {
            assert(ext[0] == 'y' && ext[1] == 'm' && ext[2] == 'l');
        }
        if ext =~= seq!['y', 'a', 'm', 'l'] {
            assert(ext[0] == 'y' && ext[1] == 'a' && ext[2] == 'm' && ext[3] == 'l');
        }
        if is_yml {
            assert(ext =~= seq!['y', 'm', 'l']);
        }
        if is_yaml {
            assert(ext =~= seq!['y', 'a', 'm', 'l']);
        }
    }
    if is_yml || is_yaml {
        let s = file_name.substring_char(0, d).to_owned();
        Some(s)
    } else {
        None
    }
}

impl Kat {
    /// A store of the given profiles. Where two share a name, the later one
    /// is the one found.
    pub fn new(configs: Vec<Config>) -> (r: Kat)
        ensures
            r@ == configs@,
    {
        Kat { configs }
    }

    /// The names of the profiles, each once.
    pub fn names(&self) -> (r: Vec<String>)
        ensures
            views(r@).no_duplicates(),
            forall|n: Seq<char>|
                #[trigger] views(r@).contains(n) <==> exists|k: int|
                    0 <= k < self@.len() && (#[trigger] self@[k]).name@ == n,
    {
        let mut r: Vec<String> = Vec::new();
        let n = self.configs.len();
        let mut i: usize = 0;
        while i < n
            invariant
                n == self@.len(),
                i <= n,
                views(r@).no_duplicates(),
                forall|m: Seq<char>|
                    #[trigger] views(r@).contains(m) <==> exists|k: int|
                        0 <= k < i && (#[trigger] self@[k]).name@ == m,
            decreases n - i,
        {
            let name = &self.configs[i].name;
            let ghost prev = r@;
            if !contains_path(&r, name) {
                r.push(name.clone());
                proof {
                    assert(views(r@) =~= views(prev).push(name@));
                    assert forall|m: Seq<char>|
                        #[trigger] views(r@).contains(m) <==> exists|k: int|
                            0 <= k < i + 1 && (#[trigger] self@[k]).name@ == m by {
                        if views(prev).contains(m) {
                            let j = choose|j: int| 0 <= j < views(prev).len() && views(prev)[j] == m;
                            assert(views(r@)[j] == m);
                        }
                        if views(r@).contains(m) && m != name@ {
                            let j = choose|j: int| 0 <= j < views(r@).len() && views(r@)[j] == m;
                            assert(views(prev)[j] == m);
                        }
                        if m == name@ {
                            assert(views(r@)[views(prev).len() as int] == m);
                            assert(self@[i as int].name@ == m);
                        }
                    }
                }
            } else {
                proof {
                    assert forall|m: Seq<char>|
                        #[trigger] views(r@).contains(m) <==> exists|k: int|
                            0 <= k < i + 1 && (#[trigger] self@[k]).name@ == m by {
                        if m == name@ {
                            assert(self@[i as int].name@ == m);
                        }
                    }
                }
            }
            i = i + 1;
        }
        r
    }

    /// The profile of this name.
    pub fn profile(&self, name: &str) -> (r: Option<&Config>)
        ensures
            r matches Some(c) ==> last_named(self@, name@) == Some(*c),
            r is None <==> last_named(self@, name@) is None,
    {
        let key = name.to_owned();
        let mut k: usize = self.configs.len();
        assert(self@.take(k as int) =~= self@);
        while k > 0
            invariant
                k <= self@.len(),
                key@ == name@,
                last_named(self@, name@) == last_named(self@.take(k as int), name@),
            decreases k,
        {
            assert(self@.take(k as int).drop_last() =~= self@.take(k - 1));
            if self.configs[k - 1].name == key {
                return Some(&self.configs[k - 1]);
            }
            k = k - 1;
        }
        assert(self@.take(0) =~= Seq::<Config>::empty());
        None
    }

    /// The patterns of the named profile, joined to `base`. They are what a
    /// selection under that profile matches against, and can be had without
    /// walking anything.
    pub fn resolve(&self, name: &str, base: &str) -> (r: Result<ResolvedPatterns, KatError>)
        ensures
            last_named(self@, name@) is None ==> (r matches Err(KatError::ProfileNotFound(n))
                && n@ == name@),
            last_named(self@, name@) matches Some(c) ==> (r matches Ok(rp) && views(
                rp.included@,
            ) == joined(base@, c.included_paths@) && views(rp.excluded@) == joined(
                base@,
                c.excluded_paths@,
            )),
    {
        match self.profile(name) {
            None => Err(KatError::ProfileNotFound(name.to_owned())),
            Some(c) => Ok(
                ResolvedPatterns {
                    included: resolve_patterns(base, &c.included_paths),
                    excluded: resolve_patterns(base, &c.excluded_paths),
                },
            ),
        }
    }

    /// The files of `walk` selected by the patterns, anchored at `base`: those
    /// whose path relative to `base` matches an included pattern and no
    /// excluded one, each once, in walk order.
    pub fn find_and_filter_files(
        &self,
        base: &str,
        included: &Vec<String>,
        excluded: &Vec<String>,
        walk: &Vec<WalkItem>,
    ) -> (r: Result<Vec<String>, KatError>)
        ensures
            r matches Ok(files) ==> views(files@) == select_spec(
                base@,
                anchored(base@, included@),
                anchored(base@, excluded@),
                walk@,
            ),
            r matches Err(KatError::PatternSyntax(_)) <==> !(all_parse(base@, included@)
                && all_parse(base@, excluded@)),
            r matches Err(KatError::PatternSyntax(p)) ==> (exists|i: int|
                is_first_unparsable(base@, included@, i) && included@[i]@ == p@) || (all_parse(
                base@,
                included@,
            ) && exists|i: int| is_first_unparsable(base@, excluded@, i) && excluded@[i]@ == p@),
            r matches Err(e) ==> (e is PatternSyntax || e is MatcherLimit),
            r is Ok <==> (all_parse(base@, included@) && all_parse(base@, excluded@) && set_builds(
                anchored(base@, included@),
            ) && set_builds(anchored(base@, excluded@))),
            included@.len() == 0 && excluded@.len() == 0 ==> r is Ok,
    {
        match compile_matchers(base, included, excluded) {
            Ok(m) => Ok(m.select(walk).files),
            Err(e) => Err(e),
        }
    }
}

} // verus!
