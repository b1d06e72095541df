//! Unix paths as text: their components, joining, and prefix tests by
//! whole components, as `std::path::Path` reads them on Unix.

use vstd::prelude::*;
use crate::text::chars_of;

verus! {

/// One component of a path, in the model.
pub enum PathPart {
    Root,
    Current,
    Parent,
    Normal(Seq<char>),
}

/// One component of a path.
#[derive(Debug)]
pub enum Component {
    /// The leading `/` of an absolute path.
    RootDir,
    /// A leading `.` of a relative path.
    CurDir,
    /// A `..`.
    ParentDir,
    /// Any other non-empty name.
    Normal(Vec<char>),
}

impl View for Component {
    type V = PathPart;

    open spec fn view(&self) -> PathPart {
        match self {
            Component::RootDir => PathPart::Root,
            Component::CurDir => PathPart::Current,
            Component::ParentDir => PathPart::Parent,
            Component::Normal(name) => PathPart::Normal(name@),
        }
    }
}

/// The model of a list of components.
pub open spec fn parts_of(v: Seq<Component>) -> Seq<PathPart> {
    v.map_values(|c: Component| c@)
}

/// The text of `p` read up to its end, cut at each `/`: the pieces
/// already closed, and the piece still open.
pub open spec fn segment_scan(p: Seq<char>) -> (Seq<Seq<char>>, Seq<char>)
    decreases p.len(),
{
    if p.len() == 0 {
        (Seq::empty(), Seq::empty())
    } else {
        let (done, open) = segment_scan(p.drop_last());
        if p.last() == '/' {
            (done.push(open), Seq::empty())
        } else {
            (done, open.push(p.last()))
        }
    }
}

/// The pieces of `p` between separators, empty ones included.
pub open spec fn segments(p: Seq<char>) -> Seq<Seq<char>> {
    segment_scan(p).0.push(segment_scan(p).1)
}

/// The component that one piece between separators stands for: none for
/// an empty piece or `.`.
pub open spec fn segment_part(seg: Seq<char>) -> Seq<PathPart> {
    if seg.len() == 0 || seg == seq!['.'] {
        Seq::empty()
    } else if seg == seq!['.', '.'] {
        seq![PathPart::Parent]
    } else {
        seq![PathPart::Normal(seg)]
    }
}

/// The components that a list of pieces stands for.
pub open spec fn body_parts(segs: Seq<Seq<char>>) -> Seq<PathPart>
    decreases segs.len(),
{
    if segs.len() == 0 {
        Seq::empty()
    } else {
        body_parts(segs.drop_last()) + segment_part(segs.last())
    }
}

/// `p` is absolute: it starts with `/`.
pub open spec fn has_root(p: Seq<char>) -> bool {
    p.len() > 0 && p[0] == '/'
}

/// `p` is `.` or starts with `./`, which `Path` keeps as a leading
/// current-directory component.
pub open spec fn leading_cur_dir(p: Seq<char>) -> bool {
    p.len() > 0 && p[0] == '.' && (p.len() == 1 || p[1] == '/')
}

/// The components of `p`, as `Path::components` yields them on Unix:
/// the root, a leading `.`, then every piece between separators except
/// empty ones and `.`.
pub open spec fn path_parts(p: Seq<char>) -> Seq<PathPart> {
    (if has_root(p) {
        seq![PathPart::Root]
    } else {
        Seq::empty()
    }) + (if leading_cur_dir(p) {
        seq![PathPart::Current]
    } else {
        Seq::empty()
    }) + body_parts(segments(p))
}

/// The components of `base` are the first components of `path`: what
/// `Path::starts_with` decides.
pub open spec fn starts_with_spec(path: Seq<char>, base: Seq<char>) -> bool {
    let a = path_parts(path);
    let b = path_parts(base);
    b.len() <= a.len() && a.take(b.len() as int) == b
}

/// `rel` appended to `base` as `Path::join` does on Unix: an absolute
/// `rel` replaces `base`; otherwise a `/` goes between them unless
/// `base` is empty or already ends with one.
pub open spec fn join_spec(base: Seq<char>, rel: Seq<char>) -> Seq<char> {
    if has_root(rel) {
        rel
    } else if base.len() > 0 && base.last() != '/' {
        base + seq!['/'] + rel
    } else {
        base + rel
    }
}

/// The component for the piece `chars[from..to]`, added to `out`.
fn push_segment(out: &mut Vec<Component>, chars: &Vec<char>, from: usize, to: usize)
    requires
        from <= to <= chars.len(),
    ensures
        parts_of(final(out)@) == parts_of(old(out)@) + segment_part(
            chars@.subrange(from as int, to as int),
        ),
{
    let ghost seg = chars@.subrange(from as int, to as int);
    let len = to - from;
    if len == 0 || (len == 1 && chars[from] == '.') {
        proof {
            if len == 1 {
                assert(seg =~= seq!['.']);
            }
        }
        assert(parts_of(out@) =~= parts_of(out@) + segment_part(seg));
    } else if len == 2 && chars[from] == '.' && chars[from + 1] == '.' {
        assert(seg =~= seq!['.', '.']);
        out.push(Component::ParentDir);
        assert(parts_of(out@) =~= parts_of(old(out)@) + segment_part(seg));
    } else {
        let mut name: Vec<char> = Vec::new();
        let mut i = from;
        while i < to
            invariant
                from <= i <= to <= chars.len(),
                name@ == chars@.subrange(from as int, i as int),
            decreases to - i,
        {
            name.push(chars[i]);
            i = i + 1;
            assert(name@ =~= chars@.subrange(from as int, i as int));
        }
        proof {
            if len == 1 {
                assert(seg[0] == chars@[from as int]);
                assert(seg != seq!['.']);
            }
            if len == 2 {
                assert(seg[0] == chars@[from as int]);
                assert(seg[1] == chars@[from + 1]);
                assert(seg != seq!['.', '.']);
            }
        }
        out.push(Component::Normal(name));
        assert(parts_of(out@) =~= parts_of(old(out)@) + segment_part(seg));
    }
}

/// The components of `path`, as `Path::new(path).components()` yields
/// them on Unix.
pub fn components(path: &str) -> (r: Vec<Component>)
    ensures
        parts_of(r@) == path_parts(path@),
{
    let chars = chars_of(path);
    let n = chars.len();
    let mut out: Vec<Component> = Vec::new();
    let rooted = n > 0 && chars[0] == '/';
    if rooted {
        out.push(Component::RootDir);
    }
    let cur = !rooted && n > 0 && chars[0] == '.' && (n == 1 || chars[1] == '/');
    if cur {
        out.push(Component::CurDir);
    }
    let ghost head = parts_of(out@);
    assert(head == (if has_root(path@) {
        seq![PathPart::Root]
    } else {
        Seq::empty()
    }) + (if leading_cur_dir(path@) {
        seq![PathPart::Current]
    } else {
        Seq::empty()
    }));
    let mut open_start: usize = 0;
    let mut i: usize = 0;
    while i < n
        invariant
            n == chars.len(),
            chars@ == path@,
            open_start <= i <= n,
            parts_of(out@) == head + body_parts(segment_scan(path@.take(i as int)).0),
            chars@.subrange(open_start as int, i as int) == segment_scan(path@.take(i as int)).1,
        decreases n - i,
    {
        let ghost before = path@.take(i as int);
        let ghost next = path@.take(i + 1);
        assert(next.drop_last() =~= before);
        assert(next.last() == chars@[i as int]);
        let ghost scan = segment_scan(before);
        if chars[i] == '/' {
            push_segment(&mut out, &chars, open_start, i);
            assert(segment_scan(next).0 == scan.0.push(scan.1));
            assert(scan.0.push(scan.1).drop_last() =~= scan.0);
            assert(head + body_parts(scan.0) + segment_part(scan.1) =~= head + body_parts(
                scan.0.push(scan.1),
            ));
            open_start = i + 1;
            assert(chars@.subrange(open_start as int, (i + 1) as int) =~= Seq::<char>::empty());
        } else {
            assert(chars@.subrange(open_start as int, (i + 1) as int) =~= chars@.subrange(
                open_start as int,
                i as int,
            ).push(chars@[i as int]));
        }
        i = i + 1;
    }
    assert(path@.take(n as int) =~= path@);
    let ghost scan = segment_scan(path@);
    push_segment(&mut out, &chars, open_start, n);
    assert(segments(path@).drop_last() =~= scan.0);
    assert(head + body_parts(scan.0) + segment_part(scan.1) =~= head + body_parts(
        segments(path@),
    ));
    out
}

/// Whether two component names are the same text.
fn same_name(a: &Vec<char>, b: &Vec<char>) -> (r: bool)
    ensures
        r == (a@ == b@),
{
    if a.len() != b.len() {
        return false;
    }
    let mut i: usize = 0;
    while i < a.len()
        invariant
            a.len() == b.len(),
            i <= a.len(),
            forall|j: int| 0 <= j < i ==> a@[j] == b@[j],
        decreases a.len() - i,
    {
        if a[i] != b[i] {
            return false;
        }
        i = i + 1;
    }
    assert(a@ =~= b@);
    true
}

/// Whether two components are the same.
fn same_component(a: &Component, b: &Component) -> (r: bool)
    ensures
        r == (a@ == b@),
{
    match (a, b) {
        (Component::RootDir, Component::RootDir) => true,
        (Component::CurDir, Component::CurDir) => true,
        (Component::ParentDir, Component::ParentDir) => true,
        (Component::Normal(x), Component::Normal(y)) => same_name(x, y),
        _ => false,
    }
}

/// Whether the components of `base` are the first components of `path`:
/// `Path::new(path).starts_with(base)`.
pub fn path_starts_with(path: &str, base: &str) -> (r: bool)
    ensures
        r == starts_with_spec(path@, base@),
{
    let a = components(path);
    let b = components(base);
    if b.len() > a.len() {
        return false;
    }
    let mut i: usize = 0;
    while i < b.len()
        invariant
            b.len() <= a.len(),
            i <= b.len(),
            parts_of(a@) == path_parts(path@),
            parts_of(b@) == path_parts(base@),
            forall|j: int| 0 <= j < i ==> parts_of(a@)[j] == parts_of(b@)[j],
        decreases b.len() - i,
    {
        if !same_component(&a[i], &b[i]) {
            assert(parts_of(a@).take(b.len() as int)[i as int] != parts_of(b@)[i as int]);
            return false;
        }
        i = i + 1;
    }
    assert(parts_of(a@).take(b.len() as int) =~= parts_of(b@));
    true
}

/// `rel` joined onto `base`: `Path::new(base).join(rel)`.
pub fn join(base: &str, rel: &str) -> (r: String)
    ensures
        r@ == join_spec(base@, rel@),
{
    let b = chars_of(base);
    let r = chars_of(rel);
    if r.len() > 0 && r[0] == '/' {
        String::from_str(rel)
    } else if b.len() > 0 && b[b.len() - 1] != '/' {
        let mut out = String::from_str(base);
        out.append("/");
        proof {
            reveal_strlit("/");
        }
        out.append(rel);
        out
    } else {
        let mut out = String::from_str(base);
        out.append(rel);
        out
    }
}


/// Reading `a`, then `/`, then `b` closes the pieces of `a` and carries
/// on with the pieces of `b`.
proof fn lemma_scan_after_separator(a: Seq<char>, b: Seq<char>)
    ensures
        segment_scan(a + seq!['/'] + b).0 == segments(a) + segment_scan(b).0,
        segment_scan(a + seq!['/'] + b).1 == segment_scan(b).1,
    decreases b.len(),
{
    let whole = a + seq!['/'] + b;
    if b.len() == 0 {
        assert(whole.drop_last() =~= a);
        assert(segments(a) + segment_scan(b).0 =~= segments(a));
    } else {
        lemma_scan_after_separator(a, b.drop_last());
        assert(whole.drop_last() =~= a + seq!['/'] + b.drop_last());
        assert(whole.last() == b.last());
        let prev = segment_scan(b.drop_last());
        if b.last() == '/' {
            assert(segments(a) + prev.0.push(prev.1) =~= (segments(a) + prev.0).push(prev.1));
        }
    }
}

/// The pieces of `a`, `/`, `b` are the pieces of `a` followed by those of
/// `b`.
proof fn lemma_segments_after_separator(a: Seq<char>, b: Seq<char>)
    ensures
        segments(a + seq!['/'] + b) == segments(a) + segments(b),
{
    lemma_scan_after_separator(a, b);
    assert((segments(a) + segment_scan(b).0).push(segment_scan(b).1) =~= segments(a) + segments(
        b,
    ));
}

/// The components of two lists of pieces, one after the other.
proof fn lemma_body_parts_concat(x: Seq<Seq<char>>, y: Seq<Seq<char>>)
    ensures
        body_parts(x + y) == body_parts(x) + body_parts(y),
    decreases y.len(),
{
    if y.len() == 0 {
        assert(x + y =~= x);
        assert(body_parts(x) + body_parts(y) =~= body_parts(x));
    } else {
        lemma_body_parts_concat(x, y.drop_last());
        assert((x + y).drop_last() =~= x + y.drop_last());
        assert((x + y).last() == y.last());
        assert(body_parts(x) + body_parts(y.drop_last()) + segment_part(y.last()) =~= body_parts(x)
            + (body_parts(y.drop_last()) + segment_part(y.last())));
    }
}

/// The components of `a`, `/`, `b`, for a non-empty `a`: those of `a`,
/// then those that the pieces of `b` stand for.
proof fn lemma_parts_after_separator(a: Seq<char>, b: Seq<char>)
    requires
        a.len() > 0,
    ensures
        path_parts(a + seq!['/'] + b) == path_parts(a) + body_parts(segments(b)),
{
    let whole = a + seq!['/'] + b;
    lemma_segments_after_separator(a, b);
    lemma_body_parts_concat(segments(a), segments(b));
    assert(whole[0] == a[0]);
    assert(has_root(whole) == has_root(a));
    if a.len() == 1 {
        assert(whole[1] == '/');
    } else {
        assert(whole[1] == a[1]);
    }
    assert(leading_cur_dir(whole) == leading_cur_dir(a));
    let head = (if has_root(a) {
        seq![PathPart::Root]
    } else {
        Seq::empty()
    }) + (if leading_cur_dir(a) {
        seq![PathPart::Current]
    } else {
        Seq::empty()
    });
    assert(head + (body_parts(segments(a)) + body_parts(segments(b))) =~= head + body_parts(
        segments(a),
    ) + body_parts(segments(b)));
}

/// The empty path has no components.
pub proof fn lemma_empty_path()
    ensures
        body_parts(segments(Seq::<char>::empty())) == Seq::<PathPart>::empty(),
        path_parts(Seq::<char>::empty()) == Seq::<PathPart>::empty(),
{
    let e = Seq::<char>::empty();
    let segs = segments(e);
    assert(segs =~= seq![e]);
    assert(segs.drop_last() =~= Seq::<Seq<char>>::empty());
    assert(segs.last() == e);
    assert(segment_part(e) =~= Seq::<PathPart>::empty());
    assert(body_parts(Seq::<Seq<char>>::empty()) == Seq::<PathPart>::empty());
    assert(body_parts(segs) == body_parts(segs.drop_last()) + segment_part(e));
    assert(body_parts(segs) =~= Seq::<PathPart>::empty());
    assert(path_parts(e) =~= Seq::<PathPart>::empty());
}

/// Every path starts with itself.
pub proof fn lemma_starts_with_itself(p: Seq<char>)
    ensures
        starts_with_spec(p, p),
{
    assert(path_parts(p).take(path_parts(p).len() as int) =~= path_parts(p));
}

/// Joining a relative path onto `base` gives a path that starts with
/// `base`, whatever `..` pieces it holds; joining an absolute path gives
/// that path.
pub proof fn lemma_join_stays_under_base(base: Seq<char>, rel: Seq<char>)
    ensures
        !has_root(rel) ==> starts_with_spec(join_spec(base, rel), base),
        has_root(rel) ==> join_spec(base, rel) == rel,
{
    if !has_root(rel) {
        let joined = join_spec(base, rel);
        if base.len() == 0 {
            lemma_empty_path();
            assert(base =~= Seq::<char>::empty());
            assert(path_parts(joined).take(0) =~= path_parts(base));
        } else if base.last() != '/' {
            lemma_parts_after_separator(base, rel);
            assert(path_parts(joined).take(path_parts(base).len() as int) =~= path_parts(base));
        } else {
            let b0 = base.drop_last();
            assert(base =~= b0 + seq!['/'] + Seq::<char>::empty());
            assert(joined =~= b0 + seq!['/'] + rel);
            if b0.len() == 0 {
                assert(base =~= seq!['/']);
                lemma_empty_path();
                let e = Seq::<char>::empty();
                lemma_segments_after_separator(e, e);
                assert(e + seq!['/'] + e =~= base);
                assert(segments(e) =~= seq![e]);
                assert(segments(base) =~= seq![e, e]);
                assert(segments(base).drop_last() =~= segments(e));
                assert(segment_part(e) =~= Seq::<PathPart>::empty());
                assert(body_parts(segments(base)) == body_parts(segments(e)) + segment_part(e));
                assert(body_parts(segments(base)) =~= Seq::<PathPart>::empty());
                assert(!leading_cur_dir(base));
                assert(path_parts(base) =~= seq![PathPart::Root]);
                assert(joined[0] == '/');
                assert(path_parts(joined)[0] == PathPart::Root);
                assert(path_parts(joined).take(1) =~= path_parts(base));
            } else {
                lemma_parts_after_separator(b0, rel);
                lemma_parts_after_separator(b0, Seq::<char>::empty());
                lemma_empty_path();
                assert(path_parts(base) =~= path_parts(b0));
                assert(path_parts(joined).take(path_parts(base).len() as int) =~= path_parts(
                    base,
                ));
            }
        }
    }
}


/// `w` holds no separator.
pub open spec fn is_piece(w: Seq<char>) -> bool {
    forall|i: int| 0 <= i < w.len() ==> #[trigger] w[i] != '/'
}

/// Text without a separator is read as one open piece.
proof fn lemma_scan_of_piece(w: Seq<char>)
    requires
        is_piece(w),
    ensures
        segment_scan(w) == (Seq::<Seq<char>>::empty(), w),
    decreases w.len(),
{
    if w.len() > 0 {
        assert(is_piece(w.drop_last())) by {
            assert forall|i: int| 0 <= i < w.drop_last().len() implies #[trigger] w.drop_last()[i]
                != '/' by {
                assert(w.drop_last()[i] == w[i]);
            }
        }
        lemma_scan_of_piece(w.drop_last());
        assert(w[w.len() - 1] != '/');
        assert(w.drop_last().push(w.last()) =~= w);
    }
}

/// The component that one piece of text between separators adds, stated
/// by cases: nothing for an empty piece or `.`, a parent for `..`, and
/// the piece itself as a name otherwise.
pub open spec fn piece_component(w: Seq<char>) -> Seq<PathPart> {
    if w.len() == 0 {
        Seq::empty()
    } else if w.len() == 1 && w[0] == '.' {
        Seq::empty()
    } else if w.len() == 2 && w[0] == '.' && w[1] == '.' {
        seq![PathPart::Parent]
    } else {
        seq![PathPart::Normal(w)]
    }
}

/// Components, determined case by case: the root path `/` is just the
/// root; a path of one piece without separators is `.` as the current
/// directory, `..` as the parent, or a single name; and a non-empty path
/// followed by `/` and one more piece gains that piece's component (none
/// for an empty piece or `.`), while its own components stay in front.
pub proof fn lemma_components_by_pieces(a: Seq<char>, w: Seq<char>)
    requires
        is_piece(w),
    ensures
        path_parts(seq!['/']) == seq![PathPart::Root],
        w.len() > 0 ==> path_parts(w) == (if w.len() == 1 && w[0] == '.' {
            seq![PathPart::Current]
        } else {
            piece_component(w)
        }),
        a.len() > 0 ==> path_parts(a + seq!['/'] + w) == path_parts(a) + piece_component(w),
{
    let e = Seq::<char>::empty();
    lemma_empty_path();
    lemma_segments_after_separator(e, e);
    assert(e + seq!['/'] + e =~= seq!['/']);
    assert(segments(e) =~= seq![e]);
    assert(segments(seq!['/']) =~= seq![e, e]);
    assert(segments(seq!['/']).drop_last() =~= segments(e));
    assert(segment_part(e) =~= Seq::<PathPart>::empty());
    assert(body_parts(segments(seq!['/'])) == body_parts(segments(e)) + segment_part(e));
    assert(path_parts(seq!['/']) =~= seq![PathPart::Root]);
    lemma_scan_of_piece(w);
    assert(segments(w) =~= seq![w]);
    assert(segments(w).drop_last() =~= Seq::<Seq<char>>::empty());
    assert(body_parts(Seq::<Seq<char>>::empty()) == Seq::<PathPart>::empty());
    assert(body_parts(segments(w)) == body_parts(segments(w).drop_last()) + segment_part(w));
    if w.len() == 1 && w[0] == '.' {
        assert(w =~= seq!['.']);
    }
    if w.len() == 2 && w[0] == '.' && w[1] == '.' {
        assert(w =~= seq!['.', '.']);
    }
    assert(segment_part(w) == piece_component(w));
    assert(body_parts(segments(w)) =~= piece_component(w));
    if w.len() > 0 {
        assert(!has_root(w));
        if w.len() == 1 && w[0] == '.' {
            assert(leading_cur_dir(w));
            assert(path_parts(w) =~= seq![PathPart::Current]);
        } else {
            if w[0] == '.' && w.len() > 1 {
                assert(w[1] != '/');
            }
            assert(!leading_cur_dir(w));
            assert(path_parts(w) =~= piece_component(w));
        }
    }
    if a.len() > 0 {
        lemma_parts_after_separator(a, w);
    }
}

} // verus!
