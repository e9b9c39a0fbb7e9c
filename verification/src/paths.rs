//! Unix path syntax: the components of a path as `std::path::Path` reads
//! them, file names and stems, and relative paths between directories.
use crate::error::{plain_error, CliError, ErrorKind, ErrorView};
use crate::text::{
    append_chars, chars_equal, chars_of, find_char_from, join, push_char, split_char, split_on,
    string_of, subvec, views,
};
use vstd::prelude::*;

verus! {

/// A component of a path.
#[derive(Clone, Debug, PartialEq, Eq)]
pub enum Component {
    RootDir,
    CurDir,
    ParentDir,
    Normal(String),
}

pub enum ComponentView {
    RootDir,
    CurDir,
    ParentDir,
    Normal(Seq<char>),
}

impl View for Component {
    type V = ComponentView;

    open spec fn view(&self) -> ComponentView {
        match self {
            Component::RootDir => ComponentView::RootDir,
            Component::CurDir => ComponentView::CurDir,
            Component::ParentDir => ComponentView::ParentDir,
            Component::Normal(s) => ComponentView::Normal(s@),
        }
    }
}

pub open spec fn components_view(v: Seq<Component>) -> Seq<ComponentView> {
    v.map_values(|c: Component| c@)
}

/// The components of `/`-separated parts after the first: empty parts and
/// `.` are skipped, `..` is the parent directory.
pub open spec fn part_components(parts: Seq<Seq<char>>) -> Seq<ComponentView>
    decreases parts.len(),
{
    if parts.len() == 0 {
        Seq::empty()
    } else {
        let rest = part_components(parts.drop_last());
        let p = parts.last();
        if p.len() == 0 || p == "."@ {
            rest
        } else if p == ".."@ {
            rest.push(ComponentView::ParentDir)
        } else {
            rest.push(ComponentView::Normal(p))
        }
    }
}

pub open spec fn is_rooted(s: Seq<char>) -> bool {
    s.len() > 0 && s[0] == '/'
}

/// The components of a path (as `Path::components` on Unix): a leading `/`
/// is the root; a leading `.` part of a relative path is the current
/// directory; repeated separators and other `.` parts are skipped.
pub open spec fn path_components(s: Seq<char>) -> Seq<ComponentView> {
    let parts = split_char(s, '/');
    if is_rooted(s) {
        seq![ComponentView::RootDir] + part_components(parts.drop_first())
    } else if parts.len() > 0 && parts[0] == "."@ {
        seq![ComponentView::CurDir] + part_components(parts.drop_first())
    } else {
        part_components(parts)
    }
}

fn part_component(p: &Vec<char>) -> (r: Option<Component>)
    ensures
        r is None <==> (p@.len() == 0 || p@ == "."@),
        r matches Some(c) ==> (if p@ == ".."@ {
            c@ == ComponentView::ParentDir
        } else {
            c@ == ComponentView::Normal(p@)
        }),
{
    if p.len() == 0 || chars_equal(p.as_slice(), chars_of(".").as_slice()) {
        None
    } else if chars_equal(p.as_slice(), chars_of("..").as_slice()) {
        Some(Component::ParentDir)
    } else {
        Some(Component::Normal(string_of(p.as_slice())))
    }
}

pub fn components(path: &str) -> (r: Vec<Component>)
    ensures
        components_view(r@) == path_components(path@),
{
    let s = chars_of(path);
    let parts = split_on(s.as_slice(), '/');
    let ghost ps = views(parts@);
    proof {
        crate::text::lemma_split_nonempty(s@, '/', 0);
    }
    let rooted = s.len() > 0 && s[0] == '/';
    let mut out: Vec<Component> = Vec::new();
    let mut start: usize = 0;
    if rooted {
        out.push(Component::RootDir);
        start = 1;
    } else if parts.len() > 0 && chars_equal(parts[0].as_slice(), chars_of(".").as_slice()) {
        out.push(Component::CurDir);
        start = 1;
    }
    let ghost lead = components_view(out@);
    let ghost body = ps.skip(start as int);
    assert(body.take(0) =~= Seq::<Seq<char>>::empty());
    assert(components_view(out@) =~= lead + part_components(body.take(0)));
    let mut i: usize = start;
    while i < parts.len()
        invariant
            start <= i <= parts.len(),
            ps == views(parts@),
            body == ps.skip(start as int),
            components_view(out@) == lead + part_components(body.take(i - start)),
        decreases parts.len() - i,
    {
        assert(ps[i as int] == parts@[i as int]@);
        let c = part_component(&parts[i]);
        let ghost before = out@;
        assert(body.take(i - start + 1).drop_last() =~= body.take(i - start));
        assert(body.take(i - start + 1).last() == ps[i as int]);
        match c {
            Some(comp) => {
                out.push(comp);
                assert(components_view(out@) =~= components_view(before).push(comp@));
            },
            None => {},
        }
        i = i + 1;
    }
    assert(body.take(parts.len() - start) =~= body);
    if rooted {
        assert(ps.drop_first() =~= body);
    } else if start == 1 {
        assert(ps.drop_first() =~= body);
    } else {
        assert(ps =~= body);
    }
    out
}

/// The last component's name when it is a normal one (as `Path::file_name`).
pub open spec fn file_name(s: Seq<char>) -> Option<Seq<char>> {
    let cs = path_components(s);
    if cs.len() > 0 {
        match cs.last() {
            ComponentView::Normal(n) => Some(n),
            _ => None,
        }
    } else {
        None
    }
}

/// The index of the last `.` in `s` before index `i`.
pub open spec fn last_dot_before(s: Seq<char>, i: int) -> Option<int>
    decreases i,
{
    if i <= 0 || i > s.len() {
        None
    } else if s[i - 1] == '.' {
        Some(i - 1)
    } else {
        last_dot_before(s, i - 1)
    }
}

/// The file name without its extension (as `Path::file_stem`): the whole
/// name when it has no `.` other than a leading one, else the part before
/// the last `.`.
pub open spec fn file_stem(s: Seq<char>) -> Option<Seq<char>> {
    match file_name(s) {
        None => None,
        Some(n) => match last_dot_before(n, n.len() as int) {
            None => Some(n),
            Some(k) => if k == 0 {
                Some(n)
            } else {
                Some(n.take(k))
            },
        },
    }
}

pub fn path_file_name(path: &str) -> (r: Option<String>)
    ensures
        r matches Some(n) ==> file_name(path@) == Some(n@),
        r is None ==> file_name(path@) is None,
{
    let cs = components(path);
    if cs.len() == 0 {
        return None;
    }
    assert(components_view(cs@).last() == cs@[cs.len() - 1]@);
    match &cs[cs.len() - 1] {
        Component::Normal(n) => Some(crate::text::copy_string(n)),
        _ => None,
    }
}

pub fn path_file_stem(path: &str) -> (r: Option<String>)
    ensures
        r matches Some(n) ==> file_stem(path@) == Some(n@),
        r is None ==> file_stem(path@) is None,
{
    let name = match path_file_name(path) {
        Some(n) => n,
        None => {
            return None;
        },
    };
    let n = chars_of(name.as_str());
    let mut i = n.len();
    while i > 0 && n[i - 1] != '.'
        invariant
            i <= n.len(),
            last_dot_before(n@, n@.len() as int) == last_dot_before(n@, i as int),
        decreases i,
    {
        i = i - 1;
    }
    if i <= 1 {
        Some(name)
    } else {
        let stem = subvec(n.as_slice(), 0, i - 1);
        assert(stem@ =~= n@.take(i - 1));
        Some(string_of(stem.as_slice()))
    }
}

// ---------------------------------------------------------------------------
// Relative paths
// ---------------------------------------------------------------------------

/// The text a component is pushed onto a path as.
pub open spec fn component_text(c: ComponentView) -> Seq<char> {
    match c {
        ComponentView::RootDir => "/"@,
        ComponentView::CurDir => "."@,
        ComponentView::ParentDir => ".."@,
        ComponentView::Normal(n) => n,
    }
}

/// The number of leading components that two paths share.
pub open spec fn common_prefix_len(a: Seq<ComponentView>, b: Seq<ComponentView>, i: int) -> int
    decreases a.len() - i,
{
    if i < 0 || i >= a.len() || i >= b.len() || a[i] != b[i] {
        i
    } else {
        common_prefix_len(a, b, i + 1)
    }
}

/// The segments of the path from directory `from` to `to`: one `..` for each
/// of `from`'s components past the shared ones, then `to`'s components past
/// them. Both must start at the same root.
pub open spec fn relative_segments(from: Seq<ComponentView>, to: Seq<ComponentView>) -> Result<
    Seq<Seq<char>>,
    ErrorView,
> {
    let common = common_prefix_len(from, to, 0);
    if common == 0 || !(from.len() > 0 && from[0] == ComponentView::RootDir) {
        Err(plain_error(ErrorKind::DifferentFilesystemRoot))
    } else {
        Ok(
            Seq::new((from.len() - common) as nat, |i: int| ".."@) + to.skip(common).map_values(
                |c: ComponentView| component_text(c),
            ),
        )
    }
}

/// The relative path from `from` to `to`, `/`-separated, `.` when they are
/// the same directory.
pub open spec fn relative_text(from: Seq<char>, to: Seq<char>) -> Result<Seq<char>, ErrorView> {
    match relative_segments(path_components(from), path_components(to)) {
        Err(e) => Err(e),
        Ok(segs) => if segs.len() == 0 {
            Ok("."@)
        } else {
            Ok(join(segs, "/"@))
        },
    }
}

/// The directory reached from `path` by one segment of a relative path: `..`
/// goes up (never above the root), any other segment goes down into it.
pub open spec fn apply_segment(path: Seq<ComponentView>, seg: Seq<char>) -> Seq<ComponentView> {
    if seg == ".."@ {
        if path.len() > 1 {
            path.drop_last()
        } else {
            path
        }
    } else {
        path.push(ComponentView::Normal(seg))
    }
}

/// The directory reached from `path` by following `segs` in turn.
pub open spec fn apply_segments(path: Seq<ComponentView>, segs: Seq<Seq<char>>) -> Seq<
    ComponentView,
>
    decreases segs.len(),
{
    if segs.len() == 0 {
        path
    } else {
        apply_segment(apply_segments(path, segs.drop_last()), segs.last())
    }
}

/// An absolute directory of plain names: the root, then normal components
/// none of which is named `..`.
pub open spec fn plain_absolute(p: Seq<ComponentView>) -> bool {
    &&& p.len() >= 1
    &&& p[0] == ComponentView::RootDir
    &&& forall|i: int|
        1 <= i < p.len() ==> (#[trigger] p[i] matches ComponentView::Normal(n) && n != ".."@)
}

proof fn lemma_apply_concat(p: Seq<ComponentView>, a: Seq<Seq<char>>, b: Seq<Seq<char>>)
    ensures
        apply_segments(p, a + b) == apply_segments(apply_segments(p, a), b),
    decreases b.len(),
{
    if b.len() == 0 {
        assert(a + b =~= a);
    } else {
        lemma_apply_concat(p, a, b.drop_last());
        assert((a + b).drop_last() =~= a + b.drop_last());
        assert((a + b).last() == b.last());
    }
}

proof fn lemma_apply_ups(p: Seq<ComponentView>, k: int)
    requires
        0 <= k,
        p.len() - k >= 1,
    ensures
        apply_segments(p, Seq::new(k as nat, |i: int| ".."@)) == p.take(p.len() - k),
    decreases k,
{
    let ups = Seq::new(k as nat, |i: int| ".."@);
    if k == 0 {
        assert(ups =~= Seq::<Seq<char>>::empty());
        assert(p.take(p.len() as int) =~= p);
    } else {
        lemma_apply_ups(p, k - 1);
        assert(ups.drop_last() =~= Seq::new((k - 1) as nat, |i: int| ".."@));
        assert(p.take(p.len() - k + 1).drop_last() =~= p.take(p.len() - k));
    }
}

proof fn lemma_apply_downs(p: Seq<ComponentView>, rest: Seq<ComponentView>)
    requires
        forall|i: int|
            0 <= i < rest.len() ==> (#[trigger] rest[i] matches ComponentView::Normal(n) && n
                != ".."@),
    ensures
        apply_segments(p, rest.map_values(|c: ComponentView| component_text(c))) == p + rest,
    decreases rest.len(),
{
    let texts = rest.map_values(|c: ComponentView| component_text(c));
    if rest.len() == 0 {
        assert(texts =~= Seq::<Seq<char>>::empty());
        assert(p + rest =~= p);
    } else {
        let init = rest.drop_last();
        lemma_apply_downs(p, init);
        assert(texts.drop_last() =~= init.map_values(|c: ComponentView| component_text(c)));
        let last = rest.last();
        assert(rest[rest.len() - 1] == last);
        assert(texts.last() == component_text(last));
        assert(p + rest =~= (p + init).push(last));
    }
}

/// Following the relative path from one plain absolute directory to another
/// leads to the other: the `..` segments climb to the shared ancestor and the
/// remaining segments descend to the target.
pub proof fn lemma_relative_segments_reach_target(from: Seq<ComponentView>, to: Seq<ComponentView>)
    requires
        plain_absolute(from),
        plain_absolute(to),
    ensures
        relative_segments(from, to) matches Ok(segs) && apply_segments(from, segs) == to,
{
    let common = common_prefix_len(from, to, 0);
    lemma_common_prefix(from, to, 0);
    assert(common >= 1) by {
        assert(from[0] == to[0]);
        assert(common_prefix_len(from, to, 0) == common_prefix_len(from, to, 1));
        lemma_common_prefix(from, to, 1);
    }
    let ups = Seq::new((from.len() - common) as nat, |i: int| ".."@);
    let downs = to.skip(common).map_values(|c: ComponentView| component_text(c));
    assert(relative_segments(from, to) == Ok::<Seq<Seq<char>>, ErrorView>(ups + downs));
    lemma_apply_concat(from, ups, downs);
    lemma_apply_ups(from, from.len() - common);
    assert(from.take(common) =~= to.take(common)) by {
        assert forall|i: int| 0 <= i < common implies from[i] == to[i] by {}
    }
    assert forall|i: int| 0 <= i < to.skip(common).len() implies (#[trigger] to.skip(
        common,
    )[i] matches ComponentView::Normal(n) && n != ".."@) by {
        assert(to.skip(common)[i] == to[i + common]);
    }
    lemma_apply_downs(from.take(common), to.skip(common));
    assert(to.take(common) + to.skip(common) =~= to);
}

/// The shared prefix found from `i` on: every component before it agrees,
/// and it stops within both paths.
proof fn lemma_common_prefix(a: Seq<ComponentView>, b: Seq<ComponentView>, i: int)
    requires
        0 <= i <= a.len(),
        i <= b.len(),
        forall|j: int| 0 <= j < i ==> a[j] == b[j],
    ensures
        i <= common_prefix_len(a, b, i) <= a.len(),
        common_prefix_len(a, b, i) <= b.len(),
        forall|j: int| 0 <= j < common_prefix_len(a, b, i) ==> a[j] == b[j],
    decreases a.len() - i,
{
    if i < a.len() && i < b.len() && a[i] == b[i] {
        lemma_common_prefix(a, b, i + 1);
    }
}

/// A normal component with a plain name: not empty, not `.` or `..`, and
/// without `/`.
pub open spec fn plain_normal(c: ComponentView) -> bool {
    c matches ComponentView::Normal(n) && n.len() > 0 && n != "."@ && n != ".."@ && forall|j: int|
        0 <= j < n.len() ==> n[j] != '/'
}

/// An absolute path without `..` parts.
pub open spec fn canonical_path(s: Seq<char>) -> bool {
    is_rooted(s) && forall|i: int|
        0 <= i < split_char(s, '/').len() ==> #[trigger] split_char(s, '/')[i] != ".."@
}

/// The segments of a relative path text: none for `.`, else its `/`-separated
/// parts.
pub open spec fn text_segments(t: Seq<char>) -> Seq<Seq<char>> {
    if t == "."@ {
        Seq::empty()
    } else {
        split_char(t, '/')
    }
}

proof fn lemma_part_components_plain(parts: Seq<Seq<char>>)
    requires
        forall|i: int, j: int|
            0 <= i < parts.len() && 0 <= j < parts[i].len() ==> #[trigger] parts[i][j] != '/',
        forall|i: int| 0 <= i < parts.len() ==> #[trigger] parts[i] != ".."@,
    ensures
        forall|k: int|
            0 <= k < part_components(parts).len() ==> plain_normal(
                #[trigger] part_components(parts)[k],
            ),
    decreases parts.len(),
{
    if parts.len() > 0 {
        let init = parts.drop_last();
        assert forall|i: int, j: int| 0 <= i < init.len() && 0 <= j < init[i].len() implies #[trigger] init[i][j] != '/' by {
            assert(init[i] == parts[i]);
        }
        assert forall|i: int| 0 <= i < init.len() implies #[trigger] init[i] != ".."@ by {
            assert(init[i] == parts[i]);
        }
        lemma_part_components_plain(init);
        let p = parts.last();
        assert(p == parts[parts.len() - 1]);
        assert forall|j: int| 0 <= j < p.len() implies p[j] != '/' by {
            assert(parts[parts.len() - 1][j] != '/');
        }
        let prev = part_components(init);
        let all = part_components(parts);
        assert forall|k: int| 0 <= k < all.len() implies plain_normal(#[trigger] all[k]) by {
            if p.len() == 0 || p == "."@ {
                assert(all == prev);
            } else {
                assert(p != ".."@);
                assert(all == prev.push(ComponentView::Normal(p)));
                if k < prev.len() {
                    assert(all[k] == prev[k]);
                }
            }
        }
    }
}

proof fn lemma_canonical_components(s: Seq<char>)
    requires
        canonical_path(s),
    ensures
        plain_absolute(path_components(s)),
        forall|i: int|
            1 <= i < path_components(s).len() ==> plain_normal(#[trigger] path_components(s)[i]),
{
    let parts = split_char(s, '/');
    crate::text::lemma_split_pieces_lack_separator(s, '/', 0);
    let rest = parts.drop_first();
    assert forall|i: int, j: int| 0 <= i < rest.len() && 0 <= j < rest[i].len() implies #[trigger] rest[i][j] != '/' by {
        assert(rest[i] == parts[i + 1]);
        assert(parts[i + 1][j] != '/');
    }
    assert forall|i: int| 0 <= i < rest.len() implies #[trigger] rest[i] != ".."@ by {
        assert(rest[i] == parts[i + 1]);
    }
    lemma_part_components_plain(rest);
    let pc = path_components(s);
    assert(pc == seq![ComponentView::RootDir] + part_components(rest));
    assert forall|i: int| 1 <= i < pc.len() implies plain_normal(#[trigger] pc[i]) by {
        assert(pc[i] == part_components(rest)[i - 1]);
    }
    assert forall|i: int| 1 <= i < pc.len() implies (#[trigger] pc[i] matches ComponentView::Normal(
        n,
    ) && n != ".."@) by {
        assert(plain_normal(pc[i]));
    }
}

/// The relative path written for a local checkout leads from the project to
/// the checkout: read as `/`-separated segments (none for `.`), its `..`
/// segments climb from the project directory and the others descend to the
/// checkout's directory.
pub proof fn lemma_relative_text_reaches_target(from: Seq<char>, to: Seq<char>)
    requires
        canonical_path(from),
        canonical_path(to),
    ensures
        relative_text(from, to) matches Ok(t) && apply_segments(
            path_components(from),
            text_segments(t),
        ) == path_components(to),
{
    let f = path_components(from);
    let g = path_components(to);
    lemma_canonical_components(from);
    lemma_canonical_components(to);
    lemma_relative_segments_reach_target(f, g);
    let segs = relative_segments(f, g)->Ok_0;
    let common = common_prefix_len(f, g, 0);
    lemma_common_prefix(f, g, 0);
    reveal_strlit("..");
    reveal_strlit(".");
    reveal_strlit("/");
    assert forall|i: int| 0 <= i < segs.len() implies #[trigger] segs[i] == ".."@ || (segs[i]
        != "."@ && segs[i].len() > 0 && forall|j: int| 0 <= j < segs[i].len() ==> segs[i][j] != '/') by {
        let ups = (f.len() - common) as int;
        if i >= ups {
            let c = g[common + i - ups];
            assert(plain_normal(c));
            assert(segs[i] == component_text(c));
        }
    }
    if segs.len() == 0 {
        assert(text_segments("."@) =~= Seq::<Seq<char>>::empty());
    } else {
        let t = join(segs, "/"@);
        assert("/"@ =~= seq!['/']);
        assert forall|i: int, j: int| 0 <= i < segs.len() && 0 <= j < segs[i].len() implies #[trigger] segs[i][j] != '/' by {
            if segs[i] == ".."@ {
                assert(segs[i][j] == '.');
            }
        }
        crate::text::lemma_split_join(segs, '/');
        if t == "."@ {
            crate::text::lemma_split_without_separator("."@, '/');
            assert(segs == seq!["."@]);
            assert(segs[0] == "."@);
            assert(".."@.len() != "."@.len());
        }
        assert(text_segments(t) == segs);
    }
}

fn component_text_exec(c: &Component) -> (r: Vec<char>)
    ensures
        r@ == component_text(c@),
{
    match c {
        Component::RootDir => chars_of("/"),
        Component::CurDir => chars_of("."),
        Component::ParentDir => chars_of(".."),
        Component::Normal(n) => chars_of(n.as_str()),
    }
}

fn same_component(a: &Component, b: &Component) -> (r: bool)
    ensures
        r == (a@ == b@),
{
    match (a, b) {
        (Component::RootDir, Component::RootDir) => true,
        (Component::CurDir, Component::CurDir) => true,
        (Component::ParentDir, Component::ParentDir) => true,
        (Component::Normal(x), Component::Normal(y)) => crate::text::str_equal(x.as_str(), y.as_str()),
        _ => false,
    }
}

/// The relative path from directory `from` to `to`, both absolute.
pub fn relative_path(from: &str, to: &str) -> (r: Result<String, CliError>)
    ensures
        r matches Ok(s) ==> relative_text(from@, to@) == Ok::<Seq<char>, ErrorView>(s@),
        r matches Err(e) ==> relative_text(from@, to@) == Err::<Seq<char>, ErrorView>(e@),
{
    let fc = components(from);
    let tc = components(to);
    let ghost f = components_view(fc@);
    let ghost t = components_view(tc@);
    let mut common: usize = 0;
    while common < fc.len() && common < tc.len() && same_component(&fc[common], &tc[common])
        invariant
            common <= fc.len(),
            common <= tc.len(),
            f == components_view(fc@),
            t == components_view(tc@),
            common_prefix_len(f, t, 0) == common_prefix_len(f, t, common as int),
        decreases fc.len() - common,
    {
        common = common + 1;
    }
    let rooted = fc.len() > 0 && match &fc[0] {
        Component::RootDir => true,
        _ => false,
    };
    if common == 0 || !rooted {
        return Err(CliError::new(ErrorKind::DifferentFilesystemRoot));
    }
    let ghost segs = Seq::new((f.len() - common) as nat, |i: int| ".."@) + t.skip(
        common as int,
    ).map_values(|c: ComponentView| component_text(c));
    let mut segments: Vec<Vec<char>> = Vec::new();
    let mut i: usize = common;
    while i < fc.len()
        invariant
            common <= i <= fc.len(),
            views(segments@) == Seq::new((i - common) as nat, |j: int| ".."@),
        decreases fc.len() - i,
    {
        let ghost before = segments@;
        let dd = chars_of("..");
        segments.push(dd);
        assert(views(segments@) =~= views(before).push(".."@));
        assert(views(segments@) =~= Seq::new((i + 1 - common) as nat, |j: int| ".."@));
        i = i + 1;
    }
    let ghost ups = views(segments@);
    let mut j: usize = common;
    while j < tc.len()
        invariant
            common <= j <= tc.len(),
            t == components_view(tc@),
            views(segments@) == ups + t.skip(common as int).take(j - common).map_values(
                |c: ComponentView| component_text(c),
            ),
        decreases tc.len() - j,
    {
        let text = component_text_exec(&tc[j]);
        assert(t[j as int] == tc@[j as int]@);
        let ghost before = segments@;
        let ghost tv = text@;
        segments.push(text);
        assert(views(segments@) =~= views(before).push(tv));
        assert(t.skip(common as int).take(j + 1 - common) =~= t.skip(common as int).take(
            j - common,
        ).push(t[j as int]));
        assert(views(segments@) =~= ups + t.skip(common as int).take(j + 1 - common).map_values(
            |c: ComponentView| component_text(c),
        ));
        j = j + 1;
    }
    assert(t.skip(common as int).take(tc.len() - common) =~= t.skip(common as int));
    assert(views(segments@) =~= segs);
    if segments.len() == 0 {
        return Ok(crate::text::string_from("."));
    }
    Ok(join_segments(&segments))
}

fn join_segments(segments: &Vec<Vec<char>>) -> (r: String)
    ensures
        r@ == join(views(segments@), "/"@),
{
    let ghost all = views(segments@);
    let mut r = String::new();
    let mut i: usize = 0;
    while i < segments.len()
        invariant
            i <= segments.len(),
            all == views(segments@),
            r@ == join(all.take(i as int), "/"@),
        decreases segments.len() - i,
    {
        assert(all[i as int] == segments@[i as int]@);
        if i > 0 {
            crate::text::append_str(&mut r, "/");
        }
        append_chars(&mut r, segments[i].as_slice());
        i = i + 1;
        assert(all.take(i as int).drop_last() =~= all.take(i - 1));
        if i == 1 {
            assert(r@ =~= all.take(1)[0]);
        }
    }
    assert(all.take(segments.len() as int) =~= all);
    r
}

} // verus!
