//! Textual path helpers: joining a pattern to a base path, re-expressing an
//! absolute path relative to a base, and naming a walked file relative to
//! the base it was found under. Paths use `/` as their separator.
use vstd::prelude::*;

verus! {

/// A path is absolute when it starts at the root.
pub open spec fn is_absolute(p: Seq<char>) -> bool {
    p.len() > 0 && p[0] == '/'
}

/// `base` joined with `p`: an absolute `p` replaces the base; otherwise a
/// separator is put between the two unless the base is empty or already ends
/// with one.
pub open spec fn join_spec(base: Seq<char>, p: Seq<char>) -> Seq<char> {
    if is_absolute(p) {
        p
    } else if base.len() == 0 || base.last() == '/' {
        base + p
    } else {
        base + seq!['/'] + p
    }
}

/// `s` without its leading separators and `.` components.
pub open spec fn trim_front(s: Seq<char>) -> Seq<char>
    decreases s.len(),
{
    if s.len() > 0 && (s[0] == '/' || (s[0] == '.' && (s.len() == 1 || s[1] == '/'))) {
        trim_front(s.drop_first())
    } else {
        s
    }
}

/// `s` without its trailing separators and `.` components.
pub open spec fn trim_back(s: Seq<char>) -> Seq<char>
    decreases s.len(),
{
    if s.len() > 0 && (s.last() == '/' || (s.last() == '.' && (s.len() == 1 || s[s.len() - 2]
        == '/'))) {
        trim_back(s.drop_last())
    } else {
        s
    }
}

/// A relative path with the separators and `.` components at either end
/// taken off, as a relative path is once joined to a base and taken back off.
pub open spec fn normalize_rel(s: Seq<char>) -> Seq<char> {
    trim_back(trim_front(s))
}

/// `path` lies at or below `base`: `base` is a prefix of it that ends on a
/// component boundary.
pub open spec fn is_under(base: Seq<char>, path: Seq<char>) -> bool {
    &&& base.is_prefix_of(path)
    &&& (path.len() == base.len() || (base.len() > 0 && base.last() == '/')
        || path[base.len() as int] == '/')
}

/// What remains of `path` once the base is taken off, without separators or
/// `.` components at either end.
pub open spec fn strip_base(base: Seq<char>, path: Seq<char>) -> Seq<char> {
    normalize_rel(path.skip(base.len() as int))
}

/// A pattern anchored at `base`: an absolute pattern under the base is
/// re-expressed relative to it, an absolute pattern elsewhere is kept as it
/// is, and a relative pattern is taken as relative to the base.
pub open spec fn anchor(base: Seq<char>, pat: Seq<char>) -> Seq<char> {
    if !is_absolute(pat) {
        normalize_rel(pat)
    } else if is_under(base, pat) {
        strip_base(base, pat)
    } else {
        pat
    }
}

/// The position just after the last separator of `s` (0 when it has none).
pub open spec fn name_start(s: Seq<char>) -> nat
    decreases s.len(),
{
    if s.len() == 0 {
        0
    } else if s.last() == '/' {
        s.len()
    } else {
        name_start(s.drop_last())
    }
}

/// The last component of `s`.
pub open spec fn file_name(s: Seq<char>) -> Seq<char> {
    s.skip(name_start(s) as int)
}

/// The path by which a walked entry is matched: the base itself (a base that
/// is a single file) goes by its file name, an entry below the base by its
/// path relative to the base. An entry elsewhere has none.
pub open spec fn relative_spec(base: Seq<char>, path: Seq<char>) -> Option<Seq<char>> {
    if path == base {
        Some(file_name(base))
    } else if is_under(base, path) {
        Some(strip_base(base, path))
    } else {
        None
    }
}

/// The characters of `s`, one by one.
pub fn chars_of(s: &str) -> (r: Vec<char>)
    ensures
        r@ == s@,
{
    let n = s.unicode_len();
    let mut r: Vec<char> = Vec::new();
    let mut i: usize = 0;
    while i < n
        invariant
            n == s@.len(),
            i <= n,
            r@ == s@.take(i as int),
        decreases n - i,
    {
        let c = s.get_char(i);
        r.push(c);
        i = i + 1;
        assert(r@ =~= s@.take(i as int));
    }
    assert(r@ =~= s@);
    r
}

/// Joins `p` to `base` (see `join_spec`).
pub fn join_path(base: &str, p: &str) -> (r: String)
    ensures
        r@ == join_spec(base@, p@),
{
    let pn = p.unicode_len();
    if pn > 0 && p.get_char(0) == '/' {
        return p.to_owned();
    }
    let bn = base.unicode_len();
    let mut r = base.to_owned();
    if bn > 0 && base.get_char(bn - 1) != '/' {
        r.append("/");
        proof {
            reveal_strlit("/");
        }
        assert(r@ == base@ + seq!['/']);
    }
    r.append(p);
    r
}

/// Whether `path` lies at or below `base`, on their characters.
fn is_under_chars(base: &Vec<char>, path: &Vec<char>) -> (r: bool)
    ensures
        r == is_under(base@, path@),
{
    let bn = base.len();
    if bn > path.len() {
        return false;
    }
    let mut i: usize = 0;
    while i < bn
        invariant
            bn == base@.len(),
            bn <= path@.len(),
            i <= bn,
            forall|j: int| 0 <= j < i ==> base@[j] == path@[j],
        decreases bn - i,
    {
        if base[i] != path[i] {
            return false;
        }
        i = i + 1;
    }
    assert(base@.is_prefix_of(path@));
    path.len() == bn || (bn > 0 && base[bn - 1] == '/') || path[bn] == '/'
}

/// The bounds of what `normalize_rel` keeps of `s` from position `from` on.
fn normalized_bounds(s: &Vec<char>, from: usize) -> (r: (usize, usize))
    requires
        from <= s@.len(),
    ensures
        from <= r.0 <= r.1 <= s@.len(),
        normalize_rel(s@.skip(from as int)) == s@.subrange(r.0 as int, r.1 as int),
{
    let n = s.len();
    let mut i: usize = from;
    while i < n && (s[i] == '/' || (s[i] == '.' && (i + 1 == n || s[i + 1] == '/')))
        invariant
            n == s@.len(),
            from <= i <= n,
            trim_front(s@.skip(from as int)) == trim_front(s@.skip(i as int)),
        decreases n - i,
    {
        proof {
            let t = s@.skip(i as int);
            assert(t[0] == s@[i as int]);
            if i + 1 < n {
                assert(t[1] == s@[i + 1]);
            }
            assert(t.drop_first() =~= s@.skip(i + 1));
        }
        i = i + 1;
    }
    proof {
        let t = s@.skip(i as int);
        if t.len() > 0 {
            assert(t[0] == s@[i as int]);
        }
        if t.len() > 1 {
            assert(t[1] == s@[i + 1]);
        }
        assert(trim_front(t) == t);
        assert(t =~= s@.subrange(i as int, n as int));
    }
    let mut j: usize = n;
    while j > i && (s[j - 1] == '/' || (s[j - 1] == '.' && (j - 1 == i || s[j - 2] == '/')))
        invariant
            n == s@.len(),
            from <= i <= j <= n,
            trim_back(s@.subrange(i as int, n as int)) == trim_back(s@.subrange(i as int, j as int)),
        decreases j - i,
    {
        proof {
            let u = s@.subrange(i as int, j as int);
            assert(u.last() == s@[j - 1]);
            if j - 1 > i {
                assert(u[u.len() - 2] == s@[j - 2]);
            }
            assert(u.drop_last() =~= s@.subrange(i as int, j - 1));
        }
        j = j - 1;
    }
    proof {
        let u = s@.subrange(i as int, j as int);
        if u.len() > 0 {
            assert(u.last() == s@[j - 1]);
        }
        if u.len() > 1 {
            assert(u[u.len() - 2] == s@[j - 2]);
        }
        assert(trim_back(u) == u);
    }
    (i, j)
}

/// Anchors `pat` at `base` (see `anchor`).
pub fn anchor_pattern(base: &str, pat: &str) -> (r: String)
    ensures
        r@ == anchor(base@, pat@),
{
    let pc = chars_of(pat);
    let from = if pc.len() == 0 || pc[0] != '/' {
        assert(pc@.skip(0) =~= pc@);
        0
    } else {
        let bc = chars_of(base);
        if !is_under_chars(&bc, &pc) {
            return pat.to_owned();
        }
        bc.len()
    };
    let (lo, hi) = normalized_bounds(&pc, from);
    let r = pat.substring_char(lo, hi).to_owned();
    r
}

/// The path by which `path` is matched against patterns anchored at `base`
/// (see `relative_spec`).
pub fn relative_path(base: &str, path: &str) -> (r: Option<String>)
    ensures
        r matches Some(s) ==> relative_spec(base@, path@) == Some(s@),
        r is None ==> relative_spec(base@, path@) is None,
{
    let bc = chars_of(base);
    let pc = chars_of(path);
    if !is_under_chars(&bc, &pc) {
        assert(path@ != base@);
        return None;
    }
    if pc.len() == bc.len() {
        assert(path@ =~= base@);
        let mut k: usize = bc.len();
        while k > 0 && bc[k - 1] != '/'
            invariant
                k <= bc@.len(),
                name_start(bc@) == name_start(bc@.take(k as int)),
            decreases k,
        {
            assert(bc@.take(k as int).drop_last() =~= bc@.take(k - 1));
            k = k - 1;
        }
        proof {
            if k > 0 {
                assert(bc@.take(k as int).last() == '/');
            }
            assert(name_start(bc@.take(k as int)) == k);
        }
        let r = base.substring_char(k, bc.len()).to_owned();
        assert(r@ =~= file_name(base@));
        return Some(r);
    }
    let (lo, hi) = normalized_bounds(&pc, bc.len());
    let r = path.substring_char(lo, hi).to_owned();
    Some(r)
}

} // verus!
