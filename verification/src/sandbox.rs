//! Confining user-supplied paths to a base directory.
//!
//! A path is modelled as its sequence of components plus an absolute flag.
//! A candidate is resolved by joining it onto the current working directory
//! when it is relative; the result and the base directory are then both
//! normalized lexically (a `.` component is dropped, a `..` component pops
//! its predecessor), and the resolved path must have the base directory's
//! components as a prefix — which rejects `..` escapes and any input living
//! in an unrelated subtree. The remaining suffix is the path the output
//! artifact is derived from. No symlink resolution is attempted; the same
//! lexical rule is applied to the base and to every candidate.

use vstd::prelude::*;
use vstd::string::StrSliceExecFns;
use vstd::string::StringExecFns;

verus! {

/// A filesystem path, split into components.
#[derive(Clone, Debug)]
pub struct SandboxPath {
    /// Path components in order, `..` and `.` kept as written.
    pub components: Vec<String>,
    /// Whether the path starts at the filesystem root.
    pub absolute: bool,
}

/// Why a candidate path was rejected.
#[derive(Clone, Copy, Debug, PartialEq, Eq, Structural)]
pub enum PathError {
    /// The resolved path does not lie under the base directory.
    OutsideBase,
}

/// The components of a path, as character sequences.
pub open spec fn comps(p: SandboxPath) -> Seq<Seq<char>> {
    p.components@.map_values(|s: String| s@)
}

/// The components of a component vector, as character sequences.
pub open spec fn comp_seq(v: Seq<String>) -> Seq<Seq<char>> {
    v.map_values(|s: String| s@)
}

/// Whether `pre` is a component-wise prefix of `all`.
pub open spec fn is_comp_prefix(pre: Seq<Seq<char>>, all: Seq<Seq<char>>) -> bool {
    pre.len() <= all.len() && pre =~= all.subrange(0, pre.len() as int)
}

/// The components a candidate resolves to: its own when it is absolute,
/// else the working directory's followed by its own.
pub open spec fn resolved_comps(candidate: SandboxPath, cwd: SandboxPath) -> Seq<Seq<char>> {
    if candidate.absolute {
        comps(candidate)
    } else {
        comps(cwd) + comps(candidate)
    }
}

impl SandboxPath {
    /// An absolute path lies inside the sandbox when the base directory's
    /// components are a prefix of its own.
    pub fn starts_with(&self, base: &SandboxPath) -> (r: bool)
        ensures
            r == is_comp_prefix(comps(*base), comps(*self)),
    {
        if base.components.len() > self.components.len() {
            return false;
        }
        let n = base.components.len();
        let mut i: usize = 0;
        while i < n
            invariant
                n == base.components@.len(),
                n <= self.components@.len(),
                i <= n,
                forall|j: int| 0 <= j < i ==> comps(*base)[j] == comps(*self)[j],
            decreases n - i,
        {
            let same = base.components[i] == self.components[i];
            proof {
                assert(comps(*base)[i as int] == base.components@[i as int]@);
                assert(comps(*self)[i as int] == self.components@[i as int]@);
            }
            if !same {
                return false;
            }
            i = i + 1;
        }
        proof {
            assert(comps(*base) =~= comps(*self).subrange(0, n as int));
        }
        true
    }

    /// A copy with the same components and the same absolute flag.
    pub fn duplicate(&self) -> (r: SandboxPath)
        ensures
            comps(r) == comps(*self),
            r.absolute == self.absolute,
    {
        let mut components: Vec<String> = Vec::new();
        let mut i: usize = 0;
        while i < self.components.len()
            invariant
                i <= self.components@.len(),
                comp_seq(components@) =~= comps(*self).subrange(0, i as int),
            decreases self.components@.len() - i,
        {
            let ghost pre = components@;
            components.push(self.components[i].clone());
            i = i + 1;
            proof {
                assert(comp_seq(components@) =~= comp_seq(pre).push(comps(*self)[i - 1]));
            }
        }
        proof {
            assert(comps(*self).subrange(0, comps(*self).len() as int) =~= comps(*self));
        }
        let r = SandboxPath { components, absolute: self.absolute };
        proof {
            assert(comps(r) =~= comps(*self));
        }
        r
    }

    /// Join a relative path onto this one.
    pub fn join(&self, rel: &SandboxPath) -> (r: SandboxPath)
        ensures
            comps(r) == comps(*self) + comps(*rel),
            r.absolute == self.absolute,
    {
        let mut components: Vec<String> = Vec::new();
        let mut i: usize = 0;
        while i < self.components.len()
            invariant
                i <= self.components@.len(),
                comp_seq(components@) =~= comps(*self).subrange(0, i as int),
            decreases self.components@.len() - i,
        {
            let ghost pre = components@;
            components.push(self.components[i].clone());
            i = i + 1;
            proof {
                assert(comp_seq(components@) =~= comp_seq(pre).push(comps(*self)[i - 1]));
            }
        }
        let mut j: usize = 0;
        while j < rel.components.len()
            invariant
                j <= rel.components@.len(),
                comp_seq(components@) =~= comps(*self) + comps(*rel).subrange(0, j as int),
            decreases rel.components@.len() - j,
        {
            let ghost pre = components@;
            components.push(rel.components[j].clone());
            j = j + 1;
            proof {
                assert(comp_seq(components@) =~= comp_seq(pre).push(comps(*rel)[j - 1]));
            }
        }
        proof {
            assert(comps(*self).subrange(0, comps(*self).len() as int) =~= comps(*self));
            assert(comps(*rel).subrange(0, comps(*rel).len() as int) =~= comps(*rel));
        }
        let r = SandboxPath { components, absolute: self.absolute };
        proof {
            assert(comps(r) =~= comps(*self) + comps(*rel));
        }
        r
    }
}

/// Lexical normalization of a component sequence: `.` disappears, `..`
/// removes the component before it (or disappears at the root).
pub open spec fn normalize_spec(cs: Seq<Seq<char>>) -> Seq<Seq<char>>
    decreases cs.len(),
{
    if cs.len() == 0 {
        Seq::<Seq<char>>::empty()
    } else {
        let pre = normalize_spec(cs.drop_last());
        if cs.last() == seq!['.'] {
            pre
        } else if cs.last() == seq!['.', '.'] {
            if pre.len() > 0 {
                pre.drop_last()
            } else {
                pre
            }
        } else {
            pre.push(cs.last())
        }
    }
}

/// A normalized component sequence carries no `.` and no `..`: every
/// traversal has been resolved away, so a path derived from the normalized
/// suffix cannot step out of the directory it is rooted in.
pub proof fn lemma_normalize_no_dots(cs: Seq<Seq<char>>)
    ensures
        forall|i: int|
            0 <= i < normalize_spec(cs).len() ==> #[trigger] normalize_spec(cs)[i] != seq!['.']
                && normalize_spec(cs)[i] != seq!['.', '.'],
    decreases cs.len(),
{
    if cs.len() > 0 {
        lemma_normalize_no_dots(cs.drop_last());
        let pre = normalize_spec(cs.drop_last());
        if cs.last() == seq!['.'] {
        } else if cs.last() == seq!['.', '.'] {
            if pre.len() > 0 {
                assert(forall|i: int|
                    0 <= i < pre.drop_last().len() ==> #[trigger] pre.drop_last()[i] == pre[i]);
            }
        } else {
            assert(forall|i: int|
                0 <= i < pre.len() ==> #[trigger] pre.push(cs.last())[i] == pre[i]);
        }
    }
}

/// Whether two string slices hold the same characters.
pub fn str_eq(a: &str, b: &str) -> (r: bool)
    ensures
        r == (a@ == b@),
{
    let n = a.unicode_len();
    if n != b.unicode_len() {
        return false;
    }
    let mut i: usize = 0;
    while i < n
        invariant
            n == a@.len(),
            n == b@.len(),
            i <= n,
            forall|j: int| 0 <= j < i ==> a@[j] == b@[j],
        decreases n - i,
    {
        if a.get_char(i) != b.get_char(i) {
            return false;
        }
        i = i + 1;
    }
    proof {
        assert(a@ =~= b@);
    }
    true
}

/// Normalize a path lexically.
pub fn normalize_path(p: &SandboxPath) -> (r: SandboxPath)
    ensures
        comps(r) == normalize_spec(comps(*p)),
        r.absolute == p.absolute,
{
    proof {
        reveal_strlit(".");
        reveal_strlit("..");
        assert("."@ =~= seq!['.']);
        assert(".."@ =~= seq!['.', '.']);
    }
    let mut out: Vec<String> = Vec::new();
    let mut i: usize = 0;
    while i < p.components.len()
        invariant
            i <= p.components@.len(),
            comp_seq(out@) =~= normalize_spec(comps(*p).subrange(0, i as int)),
            "."@ =~= seq!['.'],
            ".."@ =~= seq!['.', '.'],
        decreases p.components@.len() - i,
    {
        let ghost pre = out@;
        let c = &p.components[i];
        if str_eq(c.as_str(), ".") {
        } else if str_eq(c.as_str(), "..") {
            if out.len() > 0 {
                out.pop();
                proof {
                    assert(comp_seq(out@) =~= comp_seq(pre).drop_last());
                }
            }
        } else {
            out.push(c.clone());
            proof {
                assert(comp_seq(out@) =~= comp_seq(pre).push(comps(*p)[i as int]));
            }
        }
        i = i + 1;
        proof {
            let upto = comps(*p).subrange(0, i as int);
            assert(upto.drop_last() =~= comps(*p).subrange(0, i - 1));
            assert(upto.last() == comps(*p)[i - 1]);
        }
    }
    proof {
        assert(comps(*p).subrange(0, comps(*p).len() as int) =~= comps(*p));
    }
    let r = SandboxPath { components: out, absolute: p.absolute };
    proof {
        assert(comps(r) =~= normalize_spec(comps(*p)));
    }
    r
}

/// Resolve a candidate path against the working directory and confine it to
/// the base directory. On success the first result is the resolved,
/// normalized absolute path and the second its components relative to the
/// normalized base; a candidate whose resolution does not lie under the
/// base — a `..` escape among them — is rejected, and nothing else is.
pub fn resolve(candidate: &SandboxPath, cwd: &SandboxPath, base: &SandboxPath) -> (r: Result<
    (SandboxPath, Vec<String>),
    PathError,
>)
    requires
        cwd.absolute,
        base.absolute,
    ensures
        match r {
            Ok(p) => {
                &&& is_comp_prefix(
                    normalize_spec(comps(*base)),
                    normalize_spec(resolved_comps(*candidate, *cwd)),
                )
                &&& comps(p.0) == normalize_spec(resolved_comps(*candidate, *cwd))
                &&& p.0.absolute
                &&& comp_seq(p.1@) == normalize_spec(resolved_comps(*candidate, *cwd)).skip(
                    normalize_spec(comps(*base)).len() as int,
                )
                &&& normalize_spec(comps(*base)) + comp_seq(p.1@) =~= comps(p.0)
            },
            Err(e) => {
                &&& e == PathError::OutsideBase
                &&& !is_comp_prefix(
                    normalize_spec(comps(*base)),
                    normalize_spec(resolved_comps(*candidate, *cwd)),
                )
            },
        },
{
    let joined = if candidate.absolute {
        candidate.duplicate()
    } else {
        cwd.join(candidate)
    };
    proof {
        assert(comps(joined) == resolved_comps(*candidate, *cwd));
    }
    let abs = normalize_path(&joined);
    let nbase = normalize_path(base);
    if !abs.starts_with(&nbase) {
        return Err(PathError::OutsideBase);
    }
    let n = nbase.components.len();
    let mut rel: Vec<String> = Vec::new();
    let mut i: usize = n;
    while i < abs.components.len()
        invariant
            n <= i <= abs.components@.len(),
            comp_seq(rel@) =~= comps(abs).subrange(n as int, i as int),
        decreases abs.components@.len() - i,
    {
        let ghost pre = rel@;
        rel.push(abs.components[i].clone());
        i = i + 1;
        proof {
            assert(rel@ == pre.push(abs.components@[i - 1]));
            assert(comp_seq(rel@) =~= comp_seq(pre).push(comps(abs)[i - 1]));
        }
    }
    proof {
        assert(comp_seq(rel@) =~= comps(abs).skip(n as int));
        assert(comps(nbase) + comp_seq(rel@) =~= comps(abs));
    }
    Ok((abs, rel))
}

/// The index of the last `.` in a file name, or -1 when it has none.
pub open spec fn last_dot(name: Seq<char>) -> int
    decreases name.len(),
{
    if name.len() == 0 {
        -1
    } else if name.last() == '.' {
        name.len() - 1
    } else {
        last_dot(name.drop_last())
    }
}

/// A file name with its extension stripped: everything before the last `.`,
/// except that a name whose only `.` is its first character (a dotfile) or
/// that has no `.` at all is kept whole.
pub open spec fn stem_spec(name: Seq<char>) -> Seq<char> {
    let p = last_dot(name);
    if p > 0 {
        name.subrange(0, p)
    } else {
        name
    }
}

/// When `name[p]` is a dot and no later position is, `p` is the last dot.
pub proof fn lemma_last_dot_at(name: Seq<char>, p: int)
    requires
        0 <= p < name.len(),
        name[p] == '.',
        forall|j: int| p < j < name.len() ==> name[j] != '.',
    ensures
        last_dot(name) == p,
    decreases name.len(),
{
    if p < name.len() - 1 {
        assert(name.last() != '.');
        assert(name.drop_last()[p] == '.');
        lemma_last_dot_at(name.drop_last(), p);
    }
}

/// A name without any dot has no last dot.
pub proof fn lemma_no_dot(name: Seq<char>)
    requires
        forall|j: int| 0 <= j < name.len() ==> name[j] != '.',
    ensures
        last_dot(name) == -1,
    decreases name.len(),
{
    if name.len() > 0 {
        lemma_no_dot(name.drop_last());
    }
}

/// Strip the extension of a file name.
pub fn strip_extension(name: &str) -> (r: String)
    ensures
        r@ == stem_spec(name@),
{
    let n = name.unicode_len();
    let mut i: usize = n;
    while i > 0
        invariant
            i <= n,
            n == name@.len(),
            forall|j: int| i <= j < n ==> name@[j] != '.',
        decreases i,
    {
        if name.get_char(i - 1) == '.' {
            proof {
                lemma_last_dot_at(name@, i - 1);
            }
            if i - 1 > 0 {
                let r = name.substring_char(0, i - 1);
                return r.to_owned();
            } else {
                return name.to_owned();
            }
        }
        i = i - 1;
    }
    proof {
        lemma_no_dot(name@);
    }
    name.to_owned()
}

/// Components joined with `/` separators.
pub open spec fn join_spec(cs: Seq<Seq<char>>) -> Seq<char>
    decreases cs.len(),
{
    if cs.len() == 0 {
        Seq::<char>::empty()
    } else if cs.len() == 1 {
        cs[0]
    } else {
        join_spec(cs.drop_last()) + seq!['/'] + cs.last()
    }
}

/// Render relative path components as one string with `/` separators.
pub fn join_components(components: &Vec<String>) -> (r: String)
    ensures
        r@ == join_spec(comp_seq(components@)),
{
    proof {
        reveal_strlit("/");
        assert("/"@ =~= seq!['/']);
    }
    let mut s = String::new();
    let mut i: usize = 0;
    while i < components.len()
        invariant
            i <= components@.len(),
            s@ == join_spec(comp_seq(components@).subrange(0, i as int)),
            "/"@ =~= seq!['/'],
        decreases components@.len() - i,
    {
        if i > 0 {
            s.append("/");
        }
        s.append(components[i].as_str());
        i = i + 1;
        proof {
            let pre = comp_seq(components@).subrange(0, i as int);
            assert(pre.drop_last() =~= comp_seq(components@).subrange(0, i - 1));
            assert(pre.last() == comp_seq(components@)[i - 1]);
            if i == 1 {
                assert(s@ =~= join_spec(pre));
            }
        }
    }
    proof {
        assert(comp_seq(components@).subrange(0, components@.len() as int) =~= comp_seq(
            components@,
        ));
    }
    s
}

} // verus!
