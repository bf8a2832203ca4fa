//! Where a path asked for by a client lands under the server's root.
//!
//! Paths are Unix paths written as text. Their components are the pieces
//! between slashes, leaving out empty pieces and `.`, as `Path::components`
//! reads them. A request may not name `..` anywhere; what it names must lie,
//! once the file system has resolved links, inside the root.
use vstd::prelude::*;

verus! {

/// The pieces of `s` between slashes, empty ones included.
pub open spec fn split_slash(s: Seq<char>) -> Seq<Seq<char>>
    decreases s.len(),
{
    if s.len() == 0 {
        seq![seq![]]
    } else {
        let p = split_slash(s.drop_last());
        if s.last() == '/' {
            p.push(seq![])
        } else {
            p.update(p.len() - 1, p.last().push(s.last()))
        }
    }
}

/// A piece that is a component: not empty and not `.`.
pub open spec fn is_component(piece: Seq<char>) -> bool {
    piece.len() > 0 && piece != seq!['.']
}

/// The pieces that are components, in order.
pub open spec fn keep_components(pieces: Seq<Seq<char>>) -> Seq<Seq<char>>
    decreases pieces.len(),
{
    if pieces.len() == 0 {
        seq![]
    } else if is_component(pieces.last()) {
        keep_components(pieces.drop_last()).push(pieces.last())
    } else {
        keep_components(pieces.drop_last())
    }
}

/// The components of the path `s`.
pub open spec fn components(s: Seq<char>) -> Seq<Seq<char>> {
    keep_components(split_slash(s))
}

/// The component that refers to a parent directory.
pub open spec fn parent_ref() -> Seq<char> {
    seq!['.', '.']
}

/// Whether the path `s` names `..` anywhere.
pub open spec fn has_parent_ref(s: Seq<char>) -> bool {
    components(s).contains(parent_ref())
}

/// Whether the path `s` is absolute.
pub open spec fn is_absolute(s: Seq<char>) -> bool {
    s.len() > 0 && s[0] == '/'
}

/// `base` followed by `name`, with one slash between them.
pub open spec fn join_path(base: Seq<char>, name: Seq<char>) -> Seq<char> {
    if base.len() == 0 || base.last() == '/' {
        base + name
    } else {
        base + seq!['/'] + name
    }
}

/// `s` without its leading slashes, as `trim_start_matches('/')` gives it.
pub open spec fn trim_leading_slashes(s: Seq<char>) -> Seq<char>
    decreases s.len(),
{
    if s.len() > 0 && s[0] == '/' {
        trim_leading_slashes(s.drop_first())
    } else {
        s
    }
}

/// The end of `s.take(e)` once trailing slashes and `.` pieces are dropped,
/// keeping a leading root slash.
pub open spec fn strip_end(s: Seq<char>, e: int) -> int
    decreases e,
{
    if e > 1 && s[e - 1] == '/' {
        strip_end(s, e - 1)
    } else if e > 1 && s[e - 1] == '.' && s[e - 2] == '/' {
        strip_end(s, e - 1)
    } else {
        e
    }
}

/// Where the last name of `s.take(e)` begins.
pub open spec fn name_start(s: Seq<char>, e: int) -> int
    decreases e,
{
    if e > 0 && s[e - 1] != '/' {
        name_start(s, e - 1)
    } else {
        e
    }
}

/// The end of the parent of the path `s`: its last name and the separator
/// before it dropped (but not a root slash), with trailing slashes and `.`
/// pieces dropped around them.
pub open spec fn parent_end(s: Seq<char>) -> int {
    let b = name_start(s, strip_end(s, s.len() as int));
    strip_end(s, if b > 1 { b - 1 } else { b })
}

/// The parent of the path `s` as `Path::parent` writes it: the text of `s`
/// up to the separator before its last component.
pub open spec fn written_parent(s: Seq<char>) -> Seq<char> {
    s.take(parent_end(s))
}

/// The directory that would hold what `requested` names under `root`: the
/// parent of `root` joined with the request, as written.
pub open spec fn requested_parent(root: Seq<char>, requested: Seq<char>) -> Seq<char> {
    written_parent(join_path(root, trim_leading_slashes(requested)))
}

/// Whether `path` lies within `base`: `path` names no `..`, both are
/// absolute or both relative, and the components of `base` begin those of
/// `path`.
pub open spec fn within(path: Seq<char>, base: Seq<char>) -> bool {
    &&& !components(path).contains(parent_ref())
    &&& is_absolute(path) == is_absolute(base)
    &&& components(base).len() <= components(path).len()
    &&& components(path).take(components(base).len() as int) == components(base)
}

proof fn lemma_split_nonempty(s: Seq<char>)
    ensures
        split_slash(s).len() >= 1,
    decreases s.len(),
{
    if s.len() > 0 {
        lemma_split_nonempty(s.drop_last());
    }
}

fn piece_is_component(s: &str, start: usize, end: usize) -> (b: bool)
    requires
        start <= end <= s@.len(),
    ensures
        b == is_component(s@.subrange(start as int, end as int)),
{
    let piece = Ghost(s@.subrange(start as int, end as int));
    if end == start {
        return false;
    }
    if end - start == 1 {
        let c = s.get_char(start);
        if c == '.' {
            assert(piece@ =~= seq!['.']);
            return false;
        } else {
            assert(piece@[0] != seq!['.'][0]);
            return true;
        }
    }
    assert(piece@.len() != seq!['.'].len());
    true
}

/// The components of a path, in order.
pub fn path_components(s: &str) -> (v: Vec<String>)
    ensures
        v.deep_view() == components(s@),
{
    let len = s.unicode_len();
    let mut out: Vec<String> = Vec::new();
    let ghost mut done: Seq<Seq<char>> = seq![];
    let mut start: usize = 0;
    let mut i: usize = 0;
    assert(s@.take(0) =~= Seq::<char>::empty());
    assert(s@.subrange(0, 0) =~= Seq::<char>::empty());
    while i < len
        invariant
            len == s@.len(),
            start <= i <= len,
            split_slash(s@.take(i as int)) == done.push(s@.subrange(start as int, i as int)),
            out.deep_view() == keep_components(done),
        decreases len - i,
    {
        let c = s.get_char(i);
        proof {
            assert(s@.take(i + 1 as int).drop_last() =~= s@.take(i as int));
            assert(s@.take(i + 1 as int).last() == c);
        }
        if c == '/' {
            let ghost piece = s@.subrange(start as int, i as int);
            let keep = piece_is_component(s, start, i);
            if keep {
                out.push(s.substring_char(start, i).to_owned());
            }
            proof {
                assert(done.push(piece).drop_last() =~= done);
                if keep {
                    assert(out.deep_view() =~= keep_components(done).push(piece));
                }
                done = done.push(piece);
            }
            start = i + 1;
            assert(s@.subrange(start as int, i + 1 as int) =~= Seq::<char>::empty());
        } else {
            proof {
                lemma_split_nonempty(s@.take(i as int));
                assert(s@.subrange(start as int, i + 1 as int) =~= s@.subrange(start as int, i as int).push(c));
                assert(done.push(s@.subrange(start as int, i as int)).update(done.len() as int, s@.subrange(start as int, i + 1 as int))
                    =~= done.push(s@.subrange(start as int, i + 1 as int)));
            }
        }
        i = i + 1;
    }
    let ghost piece = s@.subrange(start as int, len as int);
    let keep = piece_is_component(s, start, len);
    proof {
        assert(s@.take(len as int) =~= s@);
        assert(done.push(piece).drop_last() =~= done);
    }
    if keep {
        out.push(s.substring_char(start, len).to_owned());
        assert(out.deep_view() =~= keep_components(done).push(piece));
    }
    out
}

} // verus!

verus! {

/// Why a requested path is refused.
#[derive(Debug, Clone, PartialEq, Eq)]
pub enum PathError {
    /// The request names `..`, or leads outside the root.
    Escapes { requested: String },
    /// The directory that would hold the requested entry does not exist.
    MissingParent { parent: String },
}

impl PathError {
    /// The reason sent to the client.
    pub fn reason(&self) -> (r: String)
        ensures
            match self {
                PathError::Escapes { requested } => r@ == "path escapes server root: "@ + requested@,
                PathError::MissingParent { parent } => r@ == "parent directory does not exist: "@ + parent@,
            },
    {
        match self {
            PathError::Escapes { requested } => {
                let mut r = "path escapes server root: ".to_owned();
                r.append(requested.as_str());
                r
            },
            PathError::MissingParent { parent } => {
                let mut r = "parent directory does not exist: ".to_owned();
                r.append(parent.as_str());
                r
            },
        }
    }
}

/// What a request names, before the file system is asked.
#[derive(Debug, Clone, PartialEq, Eq)]
pub enum Resolution {
    /// The root itself.
    Root(String),
    /// The entry `name` in the directory `parent`.
    Entry { parent: String, name: String },
}

fn contains_parent_ref(comps: &Vec<String>) -> (b: bool)
    ensures
        b == comps.deep_view().contains(parent_ref()),
{
    let dots = "..".to_owned();
    proof {
        reveal_strlit("..");
        assert(dots@ =~= parent_ref());
    }
    let mut i: usize = 0;
    while i < comps.len()
        invariant
            i <= comps@.len(),
            dots@ == parent_ref(),
            forall|j: int| 0 <= j < i ==> comps.deep_view()[j] != parent_ref(),
        decreases comps@.len() - i,
    {
        if comps[i] == dots {
            assert(comps.deep_view()[i as int] == parent_ref());
            return true;
        }
        i = i + 1;
    }
    false
}

fn path_is_absolute(s: &str) -> (b: bool)
    ensures
        b == is_absolute(s@),
{
    s.unicode_len() > 0 && s.get_char(0) == '/'
}

fn join_name(base: String, name: &String) -> (r: String)
    ensures
        r@ == join_path(base@, name@),
{
    let n = base.as_str().unicode_len();
    let mut r = base;
    if n == 0 || r.as_str().get_char(n - 1) == '/' {
        r.append(name.as_str());
    } else {
        r.append("/");
        proof {
            reveal_strlit("/");
        }
        r.append(name.as_str());
        assert(r@ =~= join_path(base@, name@));
    }
    r
}

fn trim_slashes(s: &str) -> (r: String)
    ensures
        r@ == trim_leading_slashes(s@),
{
    let len = s.unicode_len();
    let mut i: usize = 0;
    assert(s@.skip(0) =~= s@);
    while i < len && s.get_char(i) == '/'
        invariant
            len == s@.len(),
            i <= len,
            trim_leading_slashes(s@) == trim_leading_slashes(s@.skip(i as int)),
        decreases len - i,
    {
        proof {
            assert(s@.skip(i as int).drop_first() =~= s@.skip(i + 1 as int));
        }
        i = i + 1;
    }
    let r = s.substring_char(i, len).to_owned();
    assert(r@ =~= s@.skip(i as int));
    r
}

fn strip_end_exec(s: &String, e: usize) -> (r: usize)
    requires
        e <= s@.len(),
    ensures
        r == strip_end(s@, e as int),
        r <= e,
{
    let mut k = e;
    while k > 1 && (s.as_str().get_char(k - 1) == '/' || (s.as_str().get_char(k - 1) == '.' && s.as_str().get_char(k - 2) == '/'))
        invariant
            k <= e <= s@.len(),
            strip_end(s@, e as int) == strip_end(s@, k as int),
        decreases k,
    {
        k = k - 1;
    }
    k
}

fn parent_text(s: &String) -> (r: String)
    ensures
        r@ == written_parent(s@),
{
    let n = s.as_str().unicode_len();
    let e1 = strip_end_exec(s, n);
    let mut b = e1;
    while b > 0 && s.as_str().get_char(b - 1) != '/'
        invariant
            b <= e1 <= s@.len(),
            name_start(s@, e1 as int) == name_start(s@, b as int),
        decreases b,
    {
        b = b - 1;
    }
    let e2 = if b > 1 { b - 1 } else { b };
    let e = strip_end_exec(s, e2);
    let r = s.as_str().substring_char(0, e).to_owned();
    assert(r@ =~= s@.take(e as int));
    r
}

/// Whether `path` lies within `base`, component by component.
pub fn path_within(path: &str, base: &str) -> (b: bool)
    ensures
        b == within(path@, base@),
{
    if path_is_absolute(path) != path_is_absolute(base) {
        return false;
    }
    let p = path_components(path);
    if contains_parent_ref(&p) {
        return false;
    }
    let q = path_components(base);
    if q.len() > p.len() {
        return false;
    }
    let mut i: usize = 0;
    while i < q.len()
        invariant
            q@.len() <= p@.len(),
            i <= q@.len(),
            p.deep_view() == components(path@),
            q.deep_view() == components(base@),
            forall|j: int| 0 <= j < i ==> p.deep_view()[j] == q.deep_view()[j],
        decreases q@.len() - i,
    {
        if p[i] != q[i] {
            assert(p.deep_view().take(q@.len() as int)[i as int] != q.deep_view()[i as int]);
            return false;
        }
        i = i + 1;
    }
    assert(p.deep_view().take(q@.len() as int) =~= q.deep_view());
    true
}

/// What `requested` names under `canonical_root`, before the file system is
/// asked: a request naming `..` is refused, an empty one (or `.`) is the root.
pub fn plan_resolution(canonical_root: &str, requested: &str) -> (res: Result<Resolution, PathError>)
    ensures
        has_parent_ref(requested@) ==> (res matches Err(PathError::Escapes { requested: r }) && r@ == requested@),
        !has_parent_ref(requested@) && components(requested@).len() == 0
            ==> (res matches Ok(Resolution::Root(p)) && p@ == canonical_root@),
        !has_parent_ref(requested@) && components(requested@).len() > 0 ==> (res matches Ok(Resolution::Entry { parent, name })
            && parent@ == requested_parent(canonical_root@, requested@)
            && name@ == components(requested@).last()),
{
    let comps = path_components(requested);
    if contains_parent_ref(&comps) {
        return Err(PathError::Escapes { requested: requested.to_owned() });
    }
    let n = comps.len();
    if n == 0 {
        return Ok(Resolution::Root(canonical_root.to_owned()));
    }
    let trimmed = trim_slashes(requested);
    let candidate = join_name(canonical_root.to_owned(), &trimmed);
    let parent = parent_text(&candidate);
    let name = comps[n - 1].clone();
    Ok(Resolution::Entry { parent, name })
}

/// Resolves a client's path against the server's root, keeping the result
/// inside the root.
///
/// `canonical_root` is the root with links resolved. For a request that names
/// an entry, `canonical_parent` is the directory that would hold it, with
/// links resolved, or `None` where that directory does not exist; it is not
/// looked at for a request that names the root.
pub fn resolve_safe(canonical_root: &str, requested: &str, canonical_parent: Option<&str>) -> (res: Result<String, PathError>)
    ensures
        has_parent_ref(requested@) ==> (res matches Err(PathError::Escapes { requested: r }) && r@ == requested@),
        !has_parent_ref(requested@) && components(requested@).len() == 0
            ==> (res matches Ok(p) && p@ == canonical_root@),
        !has_parent_ref(requested@) && components(requested@).len() > 0 ==> match canonical_parent {
            None => res matches Err(PathError::MissingParent { parent })
                && parent@ == requested_parent(canonical_root@, requested@),
            Some(cp) => if within(cp@, canonical_root@) {
                res matches Ok(p) && p@ == join_path(cp@, components(requested@).last())
            } else {
                res matches Err(PathError::Escapes { requested: r }) && r@ == requested@
            },
        },
{
    match plan_resolution(canonical_root, requested) {
        Err(e) => Err(e),
        Ok(Resolution::Root(p)) => Ok(p),
        Ok(Resolution::Entry { parent, name }) => match canonical_parent {
            None => Err(PathError::MissingParent { parent }),
            Some(cp) => if path_within(cp, canonical_root) {
                Ok(join_name(cp.to_owned(), &name))
            } else {
                Err(PathError::Escapes { requested: requested.to_owned() })
            },
        },
    }
}

/// No piece of `t` is a slash.
pub open spec fn no_slash(t: Seq<char>) -> bool {
    forall|i: int| 0 <= i < t.len() ==> t[i] != '/'
}

proof fn lemma_pieces_no_slash(s: Seq<char>)
    ensures
        forall|k: int| 0 <= k < split_slash(s).len() ==> no_slash(#[trigger] split_slash(s)[k]),
    decreases s.len(),
{
    if s.len() > 0 {
        lemma_pieces_no_slash(s.drop_last());
        lemma_split_nonempty(s.drop_last());
        let p = split_slash(s.drop_last());
        if s.last() != '/' {
            assert forall|k: int| 0 <= k < split_slash(s).len() implies no_slash(#[trigger] split_slash(s)[k]) by {
                if k == p.len() - 1 {
                    assert(no_slash(p[k]));
                    assert(split_slash(s)[k] == p[k].push(s.last()));
                }
            }
        } else {
            assert forall|k: int| 0 <= k < split_slash(s).len() implies no_slash(#[trigger] split_slash(s)[k]) by {
                if k < p.len() {
                    assert(split_slash(s)[k] == p[k]);
                }
            }
        }
    }
}

proof fn lemma_kept_are_components(pieces: Seq<Seq<char>>)
    requires
        forall|k: int| 0 <= k < pieces.len() ==> no_slash(#[trigger] pieces[k]),
    ensures
        forall|k: int| 0 <= k < keep_components(pieces).len()
            ==> no_slash(#[trigger] keep_components(pieces)[k]) && is_component(keep_components(pieces)[k]),
    decreases pieces.len(),
{
    if pieces.len() > 0 {
        let d = pieces.drop_last();
        assert forall|k: int| 0 <= k < d.len() implies no_slash(#[trigger] d[k]) by {
            assert(d[k] == pieces[k]);
        }
        lemma_kept_are_components(d);
        assert(no_slash(pieces[pieces.len() - 1]));
        let kd = keep_components(d);
        assert forall|k: int| 0 <= k < keep_components(pieces).len()
            implies no_slash(#[trigger] keep_components(pieces)[k]) && is_component(keep_components(pieces)[k]) by {
            if k < kd.len() {
                assert(keep_components(pieces)[k] == kd[k]);
            }
        }
    }
}

proof fn lemma_split_extend(s: Seq<char>, t: Seq<char>)
    requires
        no_slash(t),
    ensures
        split_slash(s + t) == split_slash(s).update(split_slash(s).len() - 1, split_slash(s).last() + t),
    decreases t.len(),
{
    lemma_split_nonempty(s);
    if t.len() == 0 {
        assert(s + t =~= s);
        assert(split_slash(s).last() + t =~= split_slash(s).last());
        assert(split_slash(s).update(split_slash(s).len() - 1, split_slash(s).last()) =~= split_slash(s));
    } else {
        let u = t.drop_last();
        assert(no_slash(u));
        lemma_split_extend(s, u);
        assert((s + t).drop_last() =~= s + u);
        assert((s + t).last() == t.last());
        assert(t.last() != '/');
        let p = split_slash(s);
        assert(p.last() + t =~= (p.last() + u).push(t.last()));
        assert(split_slash(s + t) =~= p.update(p.len() - 1, p.last() + t));
    }
}

proof fn lemma_join_components(base: Seq<char>, name: Seq<char>)
    requires
        no_slash(name),
        is_component(name),
    ensures
        components(join_path(base, name)) == components(base).push(name),
        is_absolute(join_path(base, name)) == is_absolute(base),
{
    lemma_split_nonempty(base);
    let p = split_slash(base);
    if base.len() == 0 || base.last() == '/' {
        lemma_split_extend(base, name);
        if base.len() == 0 {
            assert(p =~= seq![Seq::<char>::empty()]);
        } else {
            assert(base.drop_last() + seq![base.last()] =~= base);
            assert(p.last() == Seq::<char>::empty());
        }
        assert(p.last() + name =~= name);
        let q = p.update(p.len() - 1, name);
        assert(q.drop_last() =~= p.drop_last());
        assert(keep_components(p) == keep_components(p.drop_last()));
        if base.len() == 0 {
            assert(join_path(base, name) =~= name);
            assert(name[0] != '/');
        } else {
            assert(join_path(base, name)[0] == base[0]);
        }
    } else {
        let b1 = base + seq!['/'];
        assert(b1.drop_last() =~= base);
        assert(split_slash(b1) == p.push(seq![]));
        lemma_split_extend(b1, name);
        assert(join_path(base, name) =~= b1 + name);
        let q = p.push(seq![]).update(p.len() as int, Seq::<char>::empty() + name);
        assert(q =~= p.push(name));
        assert(q.drop_last() =~= p);
        assert(join_path(base, name)[0] == base[0]);
    }
}

/// `k` slashes.
pub open spec fn slashes(k: nat) -> Seq<char>
    decreases k,
{
    if k == 0 {
        seq![]
    } else {
        seq!['/'] + slashes((k - 1) as nat)
    }
}

proof fn lemma_split_after_slash(r: Seq<char>)
    ensures
        split_slash(seq!['/'] + r) == seq![Seq::<char>::empty()] + split_slash(r),
    decreases r.len(),
{
    if r.len() == 0 {
        let t = seq!['/'] + r;
        assert(t =~= seq!['/']);
        assert(t.len() == 1 && t.last() == '/');
        assert(t.drop_last() =~= Seq::<char>::empty());
        assert(split_slash(Seq::<char>::empty()) == seq![Seq::<char>::empty()]);
        assert(split_slash(t) == split_slash(t.drop_last()).push(seq![]));
        assert(split_slash(t) =~= seq![Seq::<char>::empty(), Seq::<char>::empty()]);
        assert(seq![Seq::<char>::empty()] + split_slash(r) =~= seq![Seq::<char>::empty(), Seq::<char>::empty()]);
    } else {
        let r1 = r.drop_last();
        lemma_split_after_slash(r1);
        lemma_split_nonempty(r1);
        assert((seq!['/'] + r).drop_last() =~= seq!['/'] + r1);
        assert((seq!['/'] + r).last() == r.last());
        let x = split_slash(r1);
        if r.last() == '/' {
            assert(split_slash(seq!['/'] + r) =~= seq![Seq::<char>::empty()] + x.push(seq![]));
        } else {
            let y = seq![Seq::<char>::empty()] + x;
            assert(y.last() == x.last());
            assert(y.update(y.len() - 1, y.last().push(r.last())) =~= seq![Seq::<char>::empty()] + x.update(x.len() - 1, x.last().push(r.last())));
        }
    }
}

proof fn lemma_keep_after_empty(pieces: Seq<Seq<char>>)
    ensures
        keep_components(seq![Seq::<char>::empty()] + pieces) == keep_components(pieces),
    decreases pieces.len(),
{
    let y = seq![Seq::<char>::empty()] + pieces;
    if pieces.len() == 0 {
        assert(y.len() == 1);
        assert(y.last() == Seq::<char>::empty());
        assert(!is_component(y.last()));
        assert(y.drop_last() =~= Seq::<Seq<char>>::empty());
        assert(keep_components(y) == keep_components(y.drop_last()));
    } else {
        lemma_keep_after_empty(pieces.drop_last());
        assert(y.drop_last() =~= seq![Seq::<char>::empty()] + pieces.drop_last());
        assert(y.last() == pieces.last());
        if is_component(pieces.last()) {
            assert(keep_components(y) == keep_components(y.drop_last()).push(y.last()));
        } else {
            assert(keep_components(y) == keep_components(y.drop_last()));
        }
    }
}

/// Leading slashes in a request do not change where it resolves: the
/// request is always taken under the root, with the same components and the
/// same parent directory.
pub proof fn law_leading_slashes_do_not_matter(root: Seq<char>, requested: Seq<char>, k: nat)
    ensures
        components(slashes(k) + requested) == components(requested),
        has_parent_ref(slashes(k) + requested) == has_parent_ref(requested),
        trim_leading_slashes(slashes(k) + requested) == trim_leading_slashes(requested),
        requested_parent(root, slashes(k) + requested) == requested_parent(root, requested),
    decreases k,
{
    if k == 0 {
        assert(slashes(0) + requested =~= requested);
    } else {
        let rest = slashes((k - 1) as nat) + requested;
        law_leading_slashes_do_not_matter(root, requested, (k - 1) as nat);
        assert(slashes(k) + requested =~= seq!['/'] + rest);
        lemma_split_after_slash(rest);
        lemma_keep_after_empty(split_slash(rest));
        assert((seq!['/'] + rest).drop_first() =~= rest);
    }
}

/// A directory that names no `..` (as a canonical one never does) lies within itself.
pub proof fn law_root_is_within_itself(root: Seq<char>)
    requires
        !has_parent_ref(root),
    ensures
        within(root, root),
{
    assert(components(root).take(components(root).len() as int) =~= components(root));
}

/// A resolved entry lies within the root: its directory was found within
/// the root, and its name is one component, never `..`.
pub proof fn law_resolved_entry_is_within(root: Seq<char>, canonical_parent: Seq<char>, requested: Seq<char>)
    requires
        !has_parent_ref(requested),
        components(requested).len() > 0,
        within(canonical_parent, root),
    ensures
        within(join_path(canonical_parent, components(requested).last()), root),
{
    let comps = components(requested);
    lemma_pieces_no_slash(requested);
    lemma_kept_are_components(split_slash(requested));
    let name = comps[comps.len() - 1];
    assert(no_slash(name) && is_component(name));
    lemma_join_components(canonical_parent, name);
    let jc = components(join_path(canonical_parent, name));
    let n = components(root).len() as int;
    assert(jc.take(n) =~= components(canonical_parent).take(n));
    assert(comps.contains(name));
    assert(name != parent_ref());
    if jc.contains(parent_ref()) {
        let i = choose|i: int| 0 <= i < jc.len() && jc[i] == parent_ref();
        if i < components(canonical_parent).len() {
            assert(components(canonical_parent)[i] == parent_ref());
        }
    }
}

proof fn lemma_strip_step(s: Seq<char>, e: int)
    requires
        1 < e <= s.len(),
        s[e - 1] == '/' || (s[e - 1] == '.' && s[e - 2] == '/'),
    ensures
        components(s.take(e - 1)) == components(s.take(e)),
{
    let t = s.take(e);
    let u = s.take(e - 1);
    assert(t.drop_last() =~= u);
    assert(t.last() == s[e - 1]);
    lemma_split_nonempty(u);
    if s[e - 1] == '/' {
        let p = split_slash(t);
        assert(p == split_slash(u).push(seq![]));
        assert(p.drop_last() =~= split_slash(u));
        assert(!is_component(p.last()));
        assert(keep_components(p) == keep_components(p.drop_last()));
    } else {
        let v = s.take(e - 2);
        assert(u.drop_last() =~= v);
        assert(u.last() == '/');
        let q = split_slash(u);
        assert(q == split_slash(v).push(seq![]));
        assert(q.last() == Seq::<char>::empty());
        let p = split_slash(t);
        assert(p == q.update(q.len() - 1, q.last().push('.')));
        assert(q.last().push('.') =~= seq!['.']);
        assert(p.drop_last() =~= q.drop_last());
        assert(!is_component(p.last()));
        assert(!is_component(q.last()));
        assert(keep_components(p) == keep_components(p.drop_last()));
        assert(keep_components(q) == keep_components(q.drop_last()));
    }
}

proof fn lemma_strip(s: Seq<char>, e: int)
    requires
        0 <= e <= s.len(),
    ensures
        0 <= strip_end(s, e) <= e,
        components(s.take(strip_end(s, e))) == components(s.take(e)),
        !(strip_end(s, e) > 1 && s[strip_end(s, e) - 1] == '/'),
        !(strip_end(s, e) > 1 && s[strip_end(s, e) - 1] == '.' && s[strip_end(s, e) - 2] == '/'),
    decreases e,
{
    if (e > 1 && s[e - 1] == '/') || (e > 1 && s[e - 1] == '.' && s[e - 2] == '/') {
        lemma_strip_step(s, e);
        lemma_strip(s, e - 1);
    }
}

proof fn lemma_name_start(s: Seq<char>, e: int)
    requires
        0 <= e <= s.len(),
    ensures
        0 <= name_start(s, e) <= e,
        name_start(s, e) > 0 ==> s[name_start(s, e) - 1] == '/',
        forall|i: int| name_start(s, e) <= i < e ==> s[i] != '/',
    decreases e,
{
    if e > 0 && s[e - 1] != '/' {
        lemma_name_start(s, e - 1);
    }
}

/// The parent of a path with a component has the components of the path
/// but the last.
proof fn lemma_parent_components(s: Seq<char>)
    requires
        components(s).len() > 0,
    ensures
        components(written_parent(s)) == components(s).drop_last(),
{
    let n = s.len() as int;
    assert(s.take(n) =~= s);
    lemma_strip(s, n);
    let e1 = strip_end(s, n);
    lemma_name_start(s, e1);
    let b = name_start(s, e1);
    let piece = s.subrange(b, e1);
    assert(no_slash(piece));
    assert(s.take(e1) =~= s.take(b) + piece);
    lemma_split_extend(s.take(b), piece);
    lemma_split_nonempty(s.take(b));
    let pp = split_slash(s.take(b));
    if b == 0 {
        assert(s.take(b) =~= Seq::<char>::empty());
        assert(pp == seq![Seq::<char>::empty()]);
    } else {
        assert(s.take(b).drop_last() =~= s.take(b - 1));
        assert(s.take(b).last() == '/');
        assert(pp == split_slash(s.take(b - 1)).push(seq![]));
    }
    assert(pp.last() == Seq::<char>::empty());
    assert(pp.last() + piece =~= piece);
    let q = pp.update(pp.len() - 1, piece);
    assert(split_slash(s.take(e1)) == q);
    assert(q.drop_last() =~= pp.drop_last());
    assert(q.last() == piece);
    assert(keep_components(pp) == keep_components(pp.drop_last()));
    if !is_component(piece) {
        assert(keep_components(q) == keep_components(q.drop_last()));
        if piece.len() == 0 {
            if e1 == 0 {
                assert(s.take(0) =~= Seq::<char>::empty());
            } else {
                assert(e1 == 1);
                let one = s.take(1);
                assert(one.drop_last() =~= Seq::<char>::empty());
                assert(one.last() == '/');
                assert(split_slash(one) == seq![Seq::<char>::empty()].push(seq![]));
                assert(split_slash(one) =~= seq![Seq::<char>::empty(), Seq::<char>::empty()]);
                let z = seq![Seq::<char>::empty(), Seq::<char>::empty()];
                assert(z.drop_last() =~= seq![Seq::<char>::empty()]);
                assert(keep_components(z.drop_last()) == keep_components(z.drop_last().drop_last()));
                assert(z.drop_last().drop_last() =~= Seq::<Seq<char>>::empty());
            }
        } else {
            assert(piece =~= seq!['.']);
            assert(e1 == b + 1);
            assert(s[b] == '.');
            if b > 0 {
                assert(s[e1 - 2] == '/');
            }
        }
        assert(false);
    }
    assert(keep_components(q) == keep_components(q.drop_last()).push(piece));
    assert(components(s.take(b)) == components(s).drop_last());
    let e2 = if b > 1 { b - 1 } else { b };
    if b > 1 {
        lemma_strip_step(s, b);
    }
    lemma_strip(s, e2);
}

proof fn lemma_split_concat_slash(a: Seq<char>, b: Seq<char>)
    ensures
        split_slash(a + seq!['/'] + b) == split_slash(a) + split_slash(b),
    decreases b.len(),
{
    let x = a + seq!['/'] + b;
    if b.len() == 0 {
        assert(x.drop_last() =~= a);
        assert(x.last() == '/');
        assert(split_slash(a) + split_slash(b) =~= split_slash(a).push(seq![]));
    } else {
        let b1 = b.drop_last();
        lemma_split_concat_slash(a, b1);
        lemma_split_nonempty(b1);
        assert(x.drop_last() =~= a + seq!['/'] + b1);
        assert(x.last() == b.last());
        let p = split_slash(a);
        let r = split_slash(b1);
        if b.last() == '/' {
            assert(split_slash(x) =~= p + r.push(seq![]));
        } else {
            let y = p + r;
            assert(y.last() == r.last());
            assert(y.update(y.len() - 1, y.last().push(b.last())) =~= p + r.update(r.len() - 1, r.last().push(b.last())));
        }
    }
}

proof fn lemma_keep_concat(p: Seq<Seq<char>>, q: Seq<Seq<char>>)
    ensures
        keep_components(p + q) == keep_components(p) + keep_components(q),
    decreases q.len(),
{
    if q.len() == 0 {
        assert(p + q =~= p);
        assert(keep_components(p) + keep_components(q) =~= keep_components(p));
    } else {
        lemma_keep_concat(p, q.drop_last());
        assert((p + q).drop_last() =~= p + q.drop_last());
        assert((p + q).last() == q.last());
        if is_component(q.last()) {
            assert(keep_components(p) + keep_components(q.drop_last()).push(q.last())
                =~= (keep_components(p) + keep_components(q.drop_last())).push(q.last()));
        }
    }
}

proof fn lemma_join_all_components(base: Seq<char>, t: Seq<char>)
    ensures
        components(join_path(base, t)) == components(base) + components(t),
{
    if base.len() == 0 {
        assert(join_path(base, t) =~= t);
        assert(split_slash(base) == seq![Seq::<char>::empty()]);
        let z = seq![Seq::<char>::empty()];
        assert(z.drop_last() =~= Seq::<Seq<char>>::empty());
        assert(keep_components(z) == keep_components(z.drop_last()));
        assert(components(base) + components(t) =~= components(t));
    } else if base.last() == '/' {
        let b1 = base.drop_last();
        assert(join_path(base, t) =~= b1 + seq!['/'] + t);
        lemma_split_concat_slash(b1, t);
        lemma_keep_concat(split_slash(b1), split_slash(t));
        assert(base =~= b1.push('/'));
        assert(base.drop_last() =~= b1);
        let p = split_slash(base);
        assert(p == split_slash(b1).push(seq![]));
        assert(p.drop_last() =~= split_slash(b1));
        assert(keep_components(p) == keep_components(p.drop_last()));
    } else {
        assert(join_path(base, t) =~= base + seq!['/'] + t);
        lemma_split_concat_slash(base, t);
        lemma_keep_concat(split_slash(base), split_slash(t));
    }
}

proof fn lemma_trim_components(r: Seq<char>)
    ensures
        components(trim_leading_slashes(r)) == components(r),
    decreases r.len(),
{
    if r.len() > 0 && r[0] == '/' {
        let rest = r.drop_first();
        lemma_trim_components(rest);
        assert(r =~= seq!['/'] + rest);
        lemma_split_after_slash(rest);
        lemma_keep_after_empty(split_slash(rest));
    }
}

/// The directory named for a requested entry is the request less its last
/// component, under the root: its components are those of the root
/// followed by all of the request's components but the last. So the entry
/// it holds, named by that last component, is exactly what was asked for.
pub proof fn law_parent_is_the_request_less_its_name(root: Seq<char>, requested: Seq<char>)
    requires
        components(requested).len() > 0,
    ensures
        components(requested_parent(root, requested)) == components(root) + components(requested).drop_last(),
        components(requested_parent(root, requested)).push(components(requested).last())
            == components(root) + components(requested),
{
    let t = trim_leading_slashes(requested);
    lemma_trim_components(requested);
    lemma_join_all_components(root, t);
    let c = join_path(root, t);
    lemma_parent_components(c);
    let rc = components(root);
    let qc = components(requested);
    assert((rc + qc).drop_last() =~= rc + qc.drop_last());
    assert((rc + qc.drop_last()).push(qc.last()) =~= rc + qc);
}

} // verus!
