use vstd::prelude::*;
use vstd::string::{StrSliceExecFns, StringExecFns};

use crate::attribute::Attributes;

verus! {

// An archive-internal path: the stored name string plus optional POSIX-style
// attributes. Equality is defined by the name alone; the attributes are
// metadata. Sanitization keeps only the "normal" '/'-separated components,
// dropping empty ones (roots, doubled separators, trailing separators) and
// the `.` and `..` markers, defending against traversal on extraction.

/// The index of the first `/` in `s`, or `s.len()` when there is none.
pub open spec fn first_sep(s: Seq<char>) -> int
    decreases s.len(),
{
    if s.len() == 0 {
        0
    } else if s[0] == '/' {
        0
    } else {
        1 + first_sep(s.drop_first())
    }
}

pub proof fn lemma_first_sep(s: Seq<char>)
    ensures
        0 <= first_sep(s) <= s.len(),
        forall|j: int| 0 <= j < first_sep(s) ==> s[j] != '/',
        first_sep(s) < s.len() ==> s[first_sep(s)] == '/',
    decreases s.len(),
{
    if s.len() != 0 && s[0] != '/' {
        lemma_first_sep(s.drop_first());
        assert forall|j: int| 0 <= j < first_sep(s) implies s[j] != '/' by {
            if j > 0 {
                assert(s.drop_first()[j - 1] == s[j]);
            }
        }
        if first_sep(s) < s.len() {
            assert(s.drop_first()[first_sep(s) - 1] == s[first_sep(s)]);
        }
    }
}

/// The separator index is pinned by its characterization: no separator
/// before it, and a separator (or the end) at it.
pub proof fn lemma_first_sep_is(s: Seq<char>, k: int)
    requires
        0 <= k <= s.len(),
        forall|j: int| 0 <= j < k ==> s[j] != '/',
        k < s.len() ==> s[k] == '/',
    ensures
        first_sep(s) == k,
    decreases k,
{
    if s.len() == 0 {
    } else if s[0] == '/' {
        assert(k == 0) by {
            if k > 0 {
                assert(s[0] != '/');
            }
        }
    } else {
        assert(k >= 1) by {
            if k == 0 {
                assert(s[0] == '/');
            }
        }
        assert forall|j: int| 0 <= j < k - 1 implies s.drop_first()[j] != '/' by {
            assert(s.drop_first()[j] == s[j + 1]);
        }
        if k - 1 < s.drop_first().len() {
            assert(s.drop_first()[k - 1] == s[k]);
        }
        lemma_first_sep_is(s.drop_first(), k - 1);
    }
}

/// The `/`-separated components of `s`, empties included.
pub open spec fn split_path(s: Seq<char>) -> Seq<Seq<char>>
    decreases s.len(),
        via split_path_decreases
{
    if s.len() == 0 {
        Seq::empty()
    } else {
        let k = first_sep(s);
        if k == s.len() {
            seq![s]
        } else {
            seq![s.take(k)] + split_path(s.skip(k + 1))
        }
    }
}

#[via_fn]
proof fn split_path_decreases(s: Seq<char>) {
    lemma_first_sep(s);
}

/// Components joined with single separators.
pub open spec fn join_path(cs: Seq<Seq<char>>) -> Seq<char>
    decreases cs.len(),
{
    if cs.len() == 0 {
        Seq::empty()
    } else if cs.len() == 1 {
        cs[0]
    } else {
        cs[0] + seq!['/'] + join_path(cs.drop_first())
    }
}

/// A component that survives sanitization: not empty, not the current
/// directory marker and not the parent reference.
pub open spec fn is_normal(c: Seq<char>) -> bool {
    c.len() > 0 && c != seq!['.'] && c != seq!['.', '.']
}

/// A component with no separator inside.
pub open spec fn sep_free(c: Seq<char>) -> bool {
    forall|j: int| 0 <= j < c.len() ==> c[j] != '/'
}

/// The normal components of a component list, in order.
pub open spec fn normal_of(cs: Seq<Seq<char>>) -> Seq<Seq<char>>
    decreases cs.len(),
{
    if cs.len() == 0 {
        Seq::empty()
    } else if is_normal(cs[0]) {
        seq![cs[0]] + normal_of(cs.drop_first())
    } else {
        normal_of(cs.drop_first())
    }
}

/// The sanitized form of a path: its normal components, rejoined.
pub open spec fn spec_sanitize(s: Seq<char>) -> Seq<char> {
    join_path(normal_of(split_path(s)))
}

// ------------------------------------------------------------------
// The lemmas behind idempotence.

/// Every component produced by splitting is separator-free.
pub proof fn lemma_split_path_sep_free(s: Seq<char>)
    ensures
        forall|k: int| 0 <= k < split_path(s).len() ==> sep_free(#[trigger] split_path(s)[k]),
    decreases s.len(),
{
    lemma_first_sep(s);
    if s.len() != 0 {
        let k0 = first_sep(s);
        if k0 == s.len() {
            assert(sep_free(s)) by {
                assert(forall|j: int| 0 <= j < s.len() ==> s[j] != '/');
            }
        } else {
            lemma_split_path_sep_free(s.skip(k0 + 1));
            assert(sep_free(s.take(k0))) by {
                assert(forall|j: int| 0 <= j < k0 ==> s.take(k0)[j] == s[j]);
            }
            assert forall|k: int|
                0 <= k < split_path(s).len() implies sep_free(#[trigger] split_path(s)[k]) by {
                if k > 0 {
                    assert(split_path(s)[k] == split_path(s.skip(k0 + 1))[k - 1]);
                }
            }
        }
    }
}

/// The normal components of a list are among its members and are normal.
pub proof fn lemma_normal_of_elems(cs: Seq<Seq<char>>)
    ensures
        forall|k: int|
            0 <= k < normal_of(cs).len() ==> is_normal(#[trigger] normal_of(cs)[k]) && exists|j: int|
                0 <= j < cs.len() && cs[j] == normal_of(cs)[k],
    decreases cs.len(),
{
    if cs.len() != 0 {
        lemma_normal_of_elems(cs.drop_first());
        let rest = normal_of(cs.drop_first());
        assert forall|k: int|
            0 <= k < normal_of(cs).len() implies is_normal(#[trigger] normal_of(cs)[k]) && exists|
        j: int|
            0 <= j < cs.len() && cs[j] == normal_of(cs)[k] by {
            if is_normal(cs[0]) {
                if k == 0 {
                    assert(cs[0] == normal_of(cs)[0]);
                } else {
                    assert(normal_of(cs)[k] == rest[k - 1]);
                    let j0 = choose|j: int|
                        0 <= j < cs.drop_first().len() && cs.drop_first()[j] == rest[k - 1];
                    assert(cs[j0 + 1] == normal_of(cs)[k]);
                }
            } else {
                assert(normal_of(cs)[k] == rest[k]);
                let j0 = choose|j: int|
                    0 <= j < cs.drop_first().len() && cs.drop_first()[j] == rest[k];
                assert(cs[j0 + 1] == normal_of(cs)[k]);
            }
        }
    }
}

/// A list that is already all-normal is kept whole.
pub proof fn lemma_normal_of_all_normal(cs: Seq<Seq<char>>)
    requires
        forall|k: int| 0 <= k < cs.len() ==> is_normal(#[trigger] cs[k]),
    ensures
        normal_of(cs) == cs,
    decreases cs.len(),
{
    if cs.len() != 0 {
        assert forall|k: int|
            0 <= k < cs.drop_first().len() implies is_normal(#[trigger] cs.drop_first()[k]) by {
            assert(cs.drop_first()[k] == cs[k + 1]);
        }
        lemma_normal_of_all_normal(cs.drop_first());
        assert(seq![cs[0]] + cs.drop_first() =~= cs);
    }
}

/// Joining nonempty separator-free components and splitting again gives the
/// components back.
pub proof fn lemma_split_join(cs: Seq<Seq<char>>)
    requires
        forall|k: int|
            0 <= k < cs.len() ==> (#[trigger] cs[k]).len() > 0 && sep_free(cs[k]),
    ensures
        split_path(join_path(cs)) == cs,
    decreases cs.len(),
{
    if cs.len() == 0 {
    } else if cs.len() == 1 {
        let j = join_path(cs);
        assert(j == cs[0]);
        assert(j.len() > 0);
        lemma_first_sep_is(j, j.len() as int);
        assert(split_path(j) =~= cs);
    } else {
        let j = join_path(cs);
        let head = cs[0];
        let rest = join_path(cs.drop_first());
        assert(j == head + seq!['/'] + rest);
        let hl = head.len() as int;
        assert forall|x: int| 0 <= x < hl implies j[x] != '/' by {
            assert(j[x] == head[x]);
        }
        assert(j[hl] == '/');
        lemma_first_sep_is(j, hl);
        assert(j.take(hl) =~= head);
        assert(j.skip(hl + 1) =~= rest);
        assert forall|k: int|
            0 <= k < cs.drop_first().len() implies (#[trigger] cs.drop_first()[k]).len() > 0
            && sep_free(cs.drop_first()[k]) by {
            assert(cs.drop_first()[k] == cs[k + 1]);
        }
        lemma_split_join(cs.drop_first());
        assert(split_path(j) == seq![head] + split_path(rest));
        assert(seq![head] + cs.drop_first() =~= cs);
    }
}

/// Sanitization is idempotent, and every component that survives it is
/// normal: none is a root, a parent reference or a current-directory
/// marker.
pub proof fn lemma_sanitize_idempotent(s: Seq<char>)
    ensures
        spec_sanitize(spec_sanitize(s)) == spec_sanitize(s),
        forall|k: int|
            0 <= k < split_path(spec_sanitize(s)).len() ==> is_normal(
                #[trigger] split_path(spec_sanitize(s))[k],
            ),
{
    let cs = normal_of(split_path(s));
    lemma_split_path_sep_free(s);
    lemma_normal_of_elems(split_path(s));
    assert forall|k: int|
        0 <= k < cs.len() implies (#[trigger] cs[k]).len() > 0 && sep_free(cs[k]) && is_normal(
        cs[k],
    ) by {
        let j0 = choose|j: int| 0 <= j < split_path(s).len() && split_path(s)[j] == cs[k];
        assert(sep_free(split_path(s)[j0]));
    }
    lemma_split_join(cs);
    lemma_normal_of_all_normal(cs);
}

/// Appending one component to a joined list.
proof fn lemma_join_push(cs: Seq<Seq<char>>, c: Seq<char>)
    requires
        cs.len() >= 1,
    ensures
        join_path(cs.push(c)) == join_path(cs) + seq!['/'] + c,
    decreases cs.len(),
{
    if cs.len() == 1 {
        assert(cs.push(c)[0] == cs[0]);
        assert(cs.push(c).drop_first() =~= seq![c]);
        assert(join_path(seq![c]) == c);
    } else {
        assert(cs.push(c).drop_first() =~= cs.drop_first().push(c));
        lemma_join_push(cs.drop_first(), c);
        assert(cs.push(c)[0] == cs[0]);
        assert((cs[0] + seq!['/'] + (join_path(cs.drop_first()) + seq!['/'] + c)) =~= (cs[0]
            + seq!['/'] + join_path(cs.drop_first()) + seq!['/'] + c));
    }
}

/// One split step: consuming the first component and its separator.
proof fn lemma_split_step(s: Seq<char>, i: int, j: int)
    requires
        0 <= i <= j <= s.len(),
        i < s.len(),
        forall|x: int| i <= x < j ==> s[x] != '/',
        j < s.len() ==> s[j] == '/',
    ensures
        j == s.len() ==> split_path(s.skip(i)) == seq![s.subrange(i, j)],
        j < s.len() ==> split_path(s.skip(i)) == seq![s.subrange(i, j)] + split_path(
            s.skip(j + 1),
        ),
{
    let t = s.skip(i);
    assert(t.len() == s.len() - i);
    assert forall|x: int| 0 <= x < j - i implies t[x] != '/' by {
        assert(t[x] == s[i + x]);
    }
    if j - i < t.len() {
        assert(t[j - i] == s[j]);
    }
    lemma_first_sep_is(t, j - i);
    if j == s.len() {
        assert(t =~= s.subrange(i, j));
    } else {
        assert(t.take(j - i) =~= s.subrange(i, j));
        assert(t.skip(j - i + 1) =~= s.skip(j + 1));
    }
}

// ------------------------------------------------------------------
// The path value.

/// What a `ZipPath` denotes: its name and its attached attributes.
pub struct PathView {
    pub name: Seq<char>,
    pub metadata: Option<Attributes>,
}

/// An archive-internal path with optional POSIX-style attributes.
#[derive(Clone, Debug)]
pub struct ZipPath {
    inner: String,
    metadata: Option<Attributes>,
}

impl View for ZipPath {
    type V = PathView;

    closed spec fn view(&self) -> PathView {
        PathView { name: self.inner@, metadata: self.metadata }
    }
}

impl PartialEq for ZipPath {
    /// Equality goes by the path string alone; attributes are metadata.
    fn eq(&self, other: &Self) -> (r: bool) {
        self.inner == other.inner
    }
}

impl vstd::std_specs::cmp::PartialEqSpecImpl for ZipPath {
    open spec fn obeys_eq_spec() -> bool {
        true
    }

    open spec fn eq_spec(&self, other: &Self) -> bool {
        self@.name == other@.name
    }
}

impl Eq for ZipPath {}

impl Default for ZipPath {
    /// The empty path without attributes.
    fn default() -> (r: ZipPath)
        ensures
            r@.name == Seq::<char>::empty(),
            r@.metadata is None,
    {
        ZipPath { inner: String::new(), metadata: None }
    }
}

/// What `append` produces: the other path replaces an empty or absolute
/// base and is otherwise joined with a single separator.
pub open spec fn spec_append(base: Seq<char>, other: Seq<char>) -> Seq<char> {
    if base.len() == 0 {
        other
    } else if other.len() == 0 {
        base
    } else if other[0] == '/' {
        other
    } else {
        base + seq!['/'] + other
    }
}

/// The index of the last `/` in `s`, if any.
pub open spec fn last_sep(s: Seq<char>) -> Option<int>
    decreases s.len(),
{
    if s.len() == 0 {
        None
    } else if s[s.len() - 1] == '/' {
        Some(s.len() - 1)
    } else {
        last_sep(s.drop_last())
    }
}

proof fn lemma_last_sep_is(s: Seq<char>, k: int)
    requires
        0 <= k < s.len(),
        s[k] == '/',
        forall|j: int| k < j < s.len() ==> s[j] != '/',
    ensures
        last_sep(s) == Some(k),
    decreases s.len(),
{
    if k == s.len() - 1 {
    } else {
        assert(s[s.len() - 1] != '/');
        assert(s.drop_last()[k] == s[k]);
        assert forall|j: int| k < j < s.drop_last().len() implies s.drop_last()[j] != '/' by {
            assert(s.drop_last()[j] == s[j]);
        }
        lemma_last_sep_is(s.drop_last(), k);
    }
}

proof fn lemma_last_sep_none(s: Seq<char>)
    requires
        forall|j: int| 0 <= j < s.len() ==> s[j] != '/',
    ensures
        last_sep(s) is None,
    decreases s.len(),
{
    if s.len() != 0 {
        assert forall|j: int| 0 <= j < s.drop_last().len() implies s.drop_last()[j] != '/' by {
            assert(s.drop_last()[j] == s[j]);
        }
        lemma_last_sep_none(s.drop_last());
    }
}

/// What `parent` returns: everything before the last separator, the empty
/// path when there is no separator, nothing for the empty path.
pub open spec fn spec_parent(s: Seq<char>) -> Option<Seq<char>> {
    if s.len() == 0 {
        None
    } else {
        match last_sep(s) {
            None => Some(Seq::empty()),
            Some(j) => Some(s.take(j)),
        }
    }
}

/// What `update` produces: a missing attribute record is adopted whole,
/// an existing one takes the other's type bits, the owner triple and the
/// group write bit, keeping its remaining bits.
pub open spec fn spec_update(m: Option<Attributes>, a: Attributes) -> Option<Attributes> {
    match m {
        None => Some(a),
        Some(old_a) => Some(
            Attributes {
                directory: a.directory,
                symbolic: a.symbolic,
                file: a.file,
                owner: a.owner,
                group: crate::attribute::Permissions { write: a.group.write, ..old_a.group },
                other: old_a.other,
            },
        ),
    }
}

impl ZipPath {
    /// The empty path without attributes.
    pub fn new() -> (r: ZipPath)
        ensures
            r@.name == Seq::<char>::empty(),
            r@.metadata is None,
    {
        ZipPath { inner: String::new(), metadata: None }
    }

    /// A path wrapping the given name, without attributes.
    pub fn from(value: &str) -> (r: ZipPath)
        ensures
            r@.name == value@,
            r@.metadata is None,
    {
        ZipPath { inner: value.to_owned(), metadata: None }
    }

    /// A copy of this path, name and attributes alike.
    pub fn duplicate(&self) -> (r: ZipPath)
        ensures
            r@ == self@,
    {
        ZipPath { inner: self.inner.clone(), metadata: self.metadata }
    }

    /// The attached attributes.
    pub fn metadata(&self) -> (r: Option<Attributes>)
        ensures
            r == self@.metadata,
    {
        self.metadata
    }

    /// The attached attributes replaced.
    pub fn set_metadata(&mut self, metadata: Option<Attributes>)
        ensures
            final(self)@.name == old(self)@.name,
            final(self)@.metadata == metadata,
    {
        self.metadata = metadata;
    }

    /// The stored name.
    pub fn as_os_str(&self) -> (r: &str)
        ensures
            r@ == self@.name,
    {
        self.inner.as_str()
    }

    /// The other path joined onto this one: it replaces an empty or
    /// absolute base and is otherwise appended after a separator.
    pub fn append(&mut self, string: &str)
        ensures
            final(self)@.name == spec_append(old(self)@.name, string@),
            final(self)@.metadata == old(self)@.metadata,
    {
        proof {
            reveal_strlit("/");
        }
        if self.inner.as_str().unicode_len() == 0 {
            self.inner = string.to_owned();
        } else if string.unicode_len() == 0 {
        } else if string.get_char(0) == '/' {
            self.inner = string.to_owned();
        } else {
            self.inner.append("/");
            self.inner.append(string);
            proof {
                assert("/"@.len() == 1 && "/"@[0] == '/');
                assert("/"@ =~= seq!['/']);
                assert(old(self)@.name + "/"@ + string@ =~= spec_append(
                    old(self)@.name,
                    string@,
                ));
            }
        }
    }

    /// Whether the attached attributes mark a directory.
    pub fn is_dir(&self) -> (r: bool)
        ensures
            r == match self@.metadata {
                Some(a) => a.directory,
                None => false,
            },
    {
        match &self.metadata {
            Some(attribute) => attribute.directory,
            None => false,
        }
    }

    /// Whether the attached attributes mark a regular file.
    pub fn is_file(&self) -> (r: bool)
        ensures
            r == match self@.metadata {
                Some(a) => a.file,
                None => false,
            },
    {
        match &self.metadata {
            Some(attribute) => attribute.file,
            None => false,
        }
    }

    /// Whether the attached attributes mark a symbolic link.
    pub fn is_symlink(&self) -> (r: bool)
        ensures
            r == match self@.metadata {
                Some(a) => a.symbolic,
                None => false,
            },
    {
        match &self.metadata {
            Some(attribute) => attribute.symbolic,
            None => false,
        }
    }

    /// The name rewritten to its normal components only.
    pub fn sanitize(&mut self)
        ensures
            final(self)@.name == spec_sanitize(old(self)@.name),
            final(self)@.metadata == old(self)@.metadata,
    {
        let ghost s = self.inner@;
        let n = self.inner.as_str().unicode_len();
        let mut out = String::new();
        let ghost mut done: Seq<Seq<char>> = Seq::empty();
        let mut i: usize = 0;
        proof {
            reveal_strlit("/");
            reveal_strlit(".");
            reveal_strlit("..");
            assert(s.skip(0) =~= s);
        }
        while i < n
            invariant
                i <= n,
                n == s.len(),
                s == self.inner@,
                out@ == join_path(done),
                forall|k: int| 0 <= k < done.len() ==> is_normal(#[trigger] done[k]),
                normal_of(split_path(s)) == done + normal_of(split_path(s.skip(i as int))),
            decreases n - i,
        {
            proof {
                reveal_strlit("/");
            }
            // find the end of the component that starts at i
            let mut j: usize = i;
            while j < n && self.inner.as_str().get_char(j) != '/'
                invariant
                    i <= j <= n,
                    n == s.len(),
                    s == self.inner@,
                    forall|x: int| i <= x < j ==> s[x] != '/',
                decreases n - j,
            {
                j += 1;
            }
            proof {
                lemma_split_step(s, i as int, j as int);
            }
            let ghost comp = s.subrange(i as int, j as int);
            // decide whether the component is normal
            let len = j - i;
            let mut normal = len > 0;
            if len == 1 {
                if self.inner.as_str().get_char(i) == '.' {
                    normal = false;
                }
            } else if len == 2 {
                if self.inner.as_str().get_char(i) == '.' && self.inner.as_str().get_char(i + 1)
                    == '.' {
                    normal = false;
                }
            }
            proof {
                assert(normal == is_normal(comp)) by {
                    if comp =~= seq!['.'] {
                        assert(comp.len() == 1 && comp[0] == '.');
                    }
                    if comp =~= seq!['.', '.'] {
                        assert(comp.len() == 2 && comp[0] == '.' && comp[1] == '.');
                    }
                    if comp.len() == 1 && comp[0] == '.' {
                        assert(comp =~= seq!['.']);
                    }
                    if comp.len() == 2 && comp[0] == '.' && comp[1] == '.' {
                        assert(comp =~= seq!['.', '.']);
                    }
                }
                // one step of the component list
                let tail_comps = split_path(s.skip(i as int));
                assert(tail_comps[0] == comp);
                if j < n {
                    assert(tail_comps.drop_first() =~= split_path(s.skip(j + 1)));
                } else {
                    assert(tail_comps.drop_first() =~= Seq::<Seq<char>>::empty());
                    assert(normal_of(Seq::<Seq<char>>::empty()) =~= Seq::<Seq<char>>::empty());
                }
            }
            if normal {
                if out.as_str().unicode_len() > 0 {
                    proof {
                        assert(done.len() >= 1) by {
                            if done.len() == 0 {
                                assert(join_path(done).len() == 0);
                            }
                        }
                        lemma_join_push(done, comp);
                        assert("/"@ =~= seq!['/']);
                    }
                    out.append("/");
                    let piece = self.inner.as_str().substring_char(i, j);
                    out.append(piece);
                } else {
                    proof {
                        assert(done.len() == 0) by {
                            if done.len() > 0 {
                                assert(is_normal(done[0]));
                                lemma_join_len(done);
                            }
                        }
                        assert(done =~= Seq::<Seq<char>>::empty());
                    }
                    let piece = self.inner.as_str().substring_char(i, j);
                    out.append(piece);
                    proof {
                        assert(join_path(seq![comp]) == comp);
                        assert(Seq::<char>::empty() + comp =~= comp);
                    }
                }
                proof {
                    let tail_comps = split_path(s.skip(i as int));
                    assert(normal_of(tail_comps) == seq![comp] + (if j < n {
                        normal_of(split_path(s.skip(j + 1)))
                    } else {
                        Seq::<Seq<char>>::empty()
                    }));
                    assert(done + (seq![comp] + (if j < n {
                        normal_of(split_path(s.skip(j + 1)))
                    } else {
                        Seq::<Seq<char>>::empty()
                    })) =~= done.push(comp) + (if j < n {
                        normal_of(split_path(s.skip(j + 1)))
                    } else {
                        Seq::<Seq<char>>::empty()
                    }));
                    done = done.push(comp);
                }
            } else {
                proof {
                    let tail_comps = split_path(s.skip(i as int));
                    assert(normal_of(tail_comps) == (if j < n {
                        normal_of(split_path(s.skip(j + 1)))
                    } else {
                        Seq::<Seq<char>>::empty()
                    }));
                }
            }
            if j == n {
                i = n;
                proof {
                    assert(s.skip(n as int) =~= Seq::<char>::empty());
                    assert(normal_of(split_path(Seq::<char>::empty())) =~= Seq::<
                        Seq<char>,
                    >::empty());
                }
            } else {
                i = j + 1;
            }
        }
        proof {
            assert(s.skip(n as int) =~= Seq::<char>::empty());
            assert(normal_of(split_path(Seq::<char>::empty())) =~= Seq::<Seq<char>>::empty());
            assert(done + Seq::<Seq<char>>::empty() =~= done);
        }
        self.inner = out;
    }

    /// The last nonempty component of the name, only when the attributes
    /// mark a regular file.
    pub fn file_name(&self) -> (r: Option<String>)
        ensures
            r matches Some(c) ==> self@.metadata matches Some(a) && a.file && nonempty_of(
                split_path(self@.name),
            ).len() > 0 && c@ == nonempty_of(split_path(self@.name)).last(),
            r is None ==> (match self@.metadata {
                Some(a) => !a.file,
                None => true,
            } || nonempty_of(split_path(self@.name)).len() == 0),
    {
        if !self.is_file() {
            return None;
        }
        let ghost s = self.inner@;
        let n = self.inner.as_str().unicode_len();
        let mut i: usize = 0;
        let mut found: bool = false;
        let mut bs: usize = 0;
        let mut be: usize = 0;
        let ghost mut pre: Seq<Seq<char>> = Seq::empty();
        proof {
            reveal_strlit("/");
            assert(s.skip(0) =~= s);
        }
        while i < n
            invariant
                i <= n,
                n == s.len(),
                s == self.inner@,
                found == (pre.len() > 0),
                found ==> bs <= be <= n && pre.last() == s.subrange(bs as int, be as int),
                nonempty_of(split_path(s)) == pre + nonempty_of(split_path(s.skip(i as int))),
            decreases n - i,
        {
            let mut j: usize = i;
            while j < n && self.inner.as_str().get_char(j) != '/'
                invariant
                    i <= j <= n,
                    n == s.len(),
                    s == self.inner@,
                    forall|x: int| i <= x < j ==> s[x] != '/',
                decreases n - j,
            {
                j += 1;
            }
            proof {
                lemma_split_step(s, i as int, j as int);
            }
            let ghost comp = s.subrange(i as int, j as int);
            let ghost rest = if j < n {
                nonempty_of(split_path(s.skip(j + 1)))
            } else {
                Seq::<Seq<char>>::empty()
            };
            proof {
                let tail_comps = split_path(s.skip(i as int));
                assert(tail_comps[0] == comp);
                if j < n {
                    assert(tail_comps.drop_first() =~= split_path(s.skip(j + 1)));
                } else {
                    assert(tail_comps.drop_first() =~= Seq::<Seq<char>>::empty());
                    assert(nonempty_of(Seq::<Seq<char>>::empty()) =~= Seq::<Seq<char>>::empty());
                }
                assert(nonempty_of(tail_comps) == (if comp.len() > 0 {
                    seq![comp] + rest
                } else {
                    rest
                }));
            }
            if j > i {
                proof {
                    assert(pre + (seq![comp] + rest) =~= pre.push(comp) + rest);
                    pre = pre.push(comp);
                }
                found = true;
                bs = i;
                be = j;
            }
            if j == n {
                i = n;
                proof {
                    assert(s.skip(n as int) =~= Seq::<char>::empty());
                    assert(nonempty_of(split_path(Seq::<char>::empty())) =~= Seq::<
                        Seq<char>,
                    >::empty());
                }
            } else {
                i = j + 1;
            }
        }
        proof {
            assert(s.skip(n as int) =~= Seq::<char>::empty());
            assert(nonempty_of(split_path(Seq::<char>::empty())) =~= Seq::<Seq<char>>::empty());
            assert(pre + Seq::<Seq<char>>::empty() =~= pre);
        }
        if found {
            let piece = self.inner.as_str().substring_char(bs, be);
            Some(piece.to_owned())
        } else {
            None
        }
    }

    /// Everything before the last separator; nothing for the empty path.
    pub fn parent(&self) -> (r: Option<String>)
        ensures
            r matches Some(p) ==> spec_parent(self@.name) == Some(p@),
            r is None ==> spec_parent(self@.name) is None,
    {
        let n = self.inner.as_str().unicode_len();
        if n == 0 {
            return None;
        }
        proof {
            reveal_strlit("/");
        }
        let mut k: usize = n;
        while k > 0
            invariant
                k <= n,
                n == self.inner@.len(),
                forall|j: int| k <= j < n ==> self.inner@[j] != '/',
            decreases k,
        {
            k -= 1;
            if self.inner.as_str().get_char(k) == '/' {
                proof {
                    lemma_last_sep_is(self.inner@, k as int);
                }
                let p = self.inner.as_str().substring_char(0, k);
                proof {
                    assert(self.inner@.take(k as int) =~= self.inner@.subrange(0, k as int));
                }
                return Some(p.to_owned());
            }
        }
        proof {
            lemma_last_sep_none(self.inner@);
        }
        Some(String::new())
    }

    /// The other attributes folded into this path's metadata: adopted whole
    /// when absent, otherwise merged field by field.
    pub fn update(&mut self, attribute: &Attributes)
        ensures
            final(self)@.name == old(self)@.name,
            final(self)@.metadata == spec_update(old(self)@.metadata, *attribute),
    {
        let merged = match &self.metadata {
            Some(metadata) => Attributes {
                directory: attribute.directory,
                symbolic: attribute.symbolic,
                file: attribute.file,
                owner: attribute.owner,
                group: crate::attribute::Permissions {
                    read: metadata.group.read,
                    write: attribute.group.write,
                    execute: metadata.group.execute,
                },
                other: metadata.other,
            },
            None => *attribute,
        };
        self.metadata = Some(merged);
    }
}

/// The length of a joined all-normal list is at least one when the list is
/// nonempty.
proof fn lemma_join_len(cs: Seq<Seq<char>>)
    requires
        cs.len() >= 1,
        is_normal(cs[0]),
    ensures
        join_path(cs).len() >= 1,
    decreases cs.len(),
{
}

/// The nonempty components of a component list, in order.
pub open spec fn nonempty_of(cs: Seq<Seq<char>>) -> Seq<Seq<char>>
    decreases cs.len(),
{
    if cs.len() == 0 {
        Seq::empty()
    } else if cs[0].len() > 0 {
        seq![cs[0]] + nonempty_of(cs.drop_first())
    } else {
        nonempty_of(cs.drop_first())
    }
}

} // verus!
