//! Unix path grammar: the components of a `/`-separated path, joining, prefix
//! stripping and lexical normalisation, stated over character sequences.
//!
//! A path's components are: a root if the path starts with `/`; a current-dir
//! component if a relative path starts with a `.` segment; then, for each
//! `/`-separated segment, nothing for an empty or `.` segment, a parent component
//! for `..`, and a normal component otherwise.
use vstd::prelude::*;
use crate::text::str_eq;

verus! {

/// A path component.
pub enum Comp {
    Root,
    CurDir,
    Parent,
    Normal(Seq<char>),
}

/// The `/`-separated segments of `s` (an empty path has one empty segment).
pub open spec fn segments(s: Seq<char>) -> Seq<Seq<char>>
    decreases s.len(),
{
    if s.len() == 0 {
        seq![Seq::<char>::empty()]
    } else {
        let prev = segments(s.drop_last());
        if s.last() == '/' {
            prev.push(Seq::<char>::empty())
        } else {
            prev.update(prev.len() - 1, prev.last().push(s.last()))
        }
    }
}

/// The component of one segment (`None` for an empty or `.` segment).
pub open spec fn seg_comp(seg: Seq<char>) -> Option<Comp> {
    if seg.len() == 0 || seg == seq!['.'] {
        None
    } else if seg == seq!['.', '.'] {
        Some(Comp::Parent)
    } else {
        Some(Comp::Normal(seg))
    }
}

/// Components of a list of segments.
pub open spec fn seg_comps(segs: Seq<Seq<char>>) -> Seq<Comp>
    decreases segs.len(),
{
    if segs.len() == 0 {
        Seq::empty()
    } else {
        let prev = seg_comps(segs.drop_last());
        match seg_comp(segs.last()) {
            Some(c) => prev.push(c),
            None => prev,
        }
    }
}

pub open spec fn is_absolute(s: Seq<char>) -> bool {
    s.len() > 0 && s[0] == '/'
}

/// The components of a path.
pub open spec fn components(s: Seq<char>) -> Seq<Comp> {
    let segs = segments(s);
    if is_absolute(s) {
        seq![Comp::Root] + seg_comps(segs)
    } else if segs[0] == seq!['.'] {
        seq![Comp::CurDir] + seg_comps(segs)
    } else {
        seg_comps(segs)
    }
}

/// A component as handed out by [`path_components`].
#[derive(Debug)]
pub enum PathComponent {
    RootDir,
    CurDir,
    ParentDir,
    Normal(String),
}

impl PathComponent {
    pub open spec fn comp(&self) -> Comp {
        match self {
            PathComponent::RootDir => Comp::Root,
            PathComponent::CurDir => Comp::CurDir,
            PathComponent::ParentDir => Comp::Parent,
            PathComponent::Normal(s) => Comp::Normal(s@),
        }
    }
}

pub open spec fn comps_of(v: Seq<PathComponent>) -> Seq<Comp> {
    v.map_values(|c: PathComponent| c.comp())
}

proof fn lemma_segments_nonempty(s: Seq<char>)
    ensures
        segments(s).len() >= 1,
    decreases s.len(),
{
    if s.len() > 0 {
        lemma_segments_nonempty(s.drop_last());
    }
}

fn segment_component(seg: String) -> (r: Option<PathComponent>)
    ensures
        match r {
            Some(c) => seg_comp(seg@) == Some(c.comp()),
            None => seg_comp(seg@) is None,
        },
{
    let n = seg.as_str().unicode_len();
    if n == 0 {
        return None;
    }
    if n == 1 && seg.as_str().get_char(0) == '.' {
        assert(seg@ =~= seq!['.']);
        return None;
    }
    if n == 2 && seg.as_str().get_char(0) == '.' && seg.as_str().get_char(1) == '.' {
        assert(seg@ =~= seq!['.', '.']);
        return Some(PathComponent::ParentDir);
    }
    assert(seg@ != seq!['.']) by {
        if n == 1 { assert(seg@[0] != seq!['.'][0]); }
    }
    assert(seg@ != seq!['.', '.']) by {
        if n == 2 { assert(seg@[0] != '.' || seg@[1] != '.'); }
    }
    Some(PathComponent::Normal(seg))
}

/// Push one character onto a string.
///
/// Calls `String::push`; the contract states that the character is appended.
#[verifier::external_body]
pub(crate) fn push_char(s: &mut String, c: char)
    ensures
        final(s)@ == old(s)@.push(c),
{
    s.push(c);
}

/// Completed segments of a prefix stay the same in longer prefixes.
proof fn lemma_segments_stable(s: Seq<char>, k: int, m: int)
    requires
        0 <= k <= m <= s.len(),
    ensures
        segments(s.take(k)).len() <= segments(s.take(m)).len(),
        forall|j: int|
            0 <= j < segments(s.take(k)).len() - 1 ==> #[trigger] segments(s.take(m))[j]
                == segments(s.take(k))[j],
    decreases m - k,
{
    lemma_segments_nonempty(s.take(k));
    if k < m {
        lemma_segments_stable(s, k, m - 1);
        assert(s.take(m).drop_last() =~= s.take(m - 1));
        lemma_segments_nonempty(s.take(m - 1));
    }
}

/// The components of `path`.
pub fn path_components(path: &str) -> (r: Vec<PathComponent>)
    ensures
        comps_of(r@) == components(path@),
{
    let n = path.unicode_len();
    let mut out: Vec<PathComponent> = Vec::new();
    let absolute = n > 0 && path.get_char(0) == '/';
    let mut cur = String::new();
    let mut first_seg = true;
    let mut first_is_dot = false;
    let mut i: usize = 0;
    proof {
        assert(path@.take(0) =~= Seq::<char>::empty());
    }
    while i < n
        invariant
            n == path@.len(),
            i <= n,
            ({
                let segs = segments(path@.take(i as int));
                &&& segs.len() >= 1
                &&& segs.last() == cur@
                &&& comps_of(out@) == seg_comps(segs.drop_last())
                &&& (first_seg <==> segs.len() == 1)
                &&& (!first_seg ==> (first_is_dot <==> segs[0] == seq!['.']))
            }),
        decreases n - i,
    {
        let c = path.get_char(i);
        let ghost pre = path@.take(i as int);
        let ghost segs_pre = segments(pre);
        proof {
            lemma_segments_nonempty(pre);
        }
        assert(path@.take(i + 1).drop_last() =~= pre);
        assert(path@.take(i + 1).last() == c);
        if c == '/' {
            let seg = cur;
            cur = String::new();
            let ghost seg_v = seg@;
            if first_seg {
                first_is_dot = seg.as_str().unicode_len() == 1 && seg.as_str().get_char(0) == '.';
                proof {
                    if first_is_dot {
                        assert(seg@ =~= seq!['.']);
                    } else if seg@.len() == 1 {
                        assert(seg@[0] != seq!['.'][0]);
                    }
                }
                first_seg = false;
            }
            match segment_component(seg) {
                Some(pc) => {
                    out.push(pc);
                },
                None => {},
            }
            proof {
                let segs = segments(path@.take(i + 1));
                assert(segs == segs_pre.push(Seq::<char>::empty()));
                assert(segs.drop_last() =~= segs_pre);
                assert(segs_pre.drop_last().push(seg_v) =~= segs_pre);
                assert(comps_of(out@) =~= seg_comps(segs_pre));
            }
        } else {
            push_char(&mut cur, c);
            proof {
                let segs = segments(path@.take(i + 1));
                assert(segs.drop_last() =~= segs_pre.drop_last());
            }
        }
        i = i + 1;
    }
    assert(path@.take(n as int) =~= path@);
    let ghost last_seg = cur@;
    let ghost segs = segments(path@);
    if first_seg {
        first_is_dot = cur.as_str().unicode_len() == 1 && cur.as_str().get_char(0) == '.';
        proof {
            if first_is_dot {
                assert(cur@ =~= seq!['.']);
            } else if cur@.len() == 1 {
                assert(cur@[0] != seq!['.'][0]);
            }
        }
    }
    match segment_component(cur) {
        Some(pc) => {
            out.push(pc);
        },
        None => {},
    }
    assert(segs.drop_last().push(last_seg) =~= segs);
    assert(comps_of(out@) =~= seg_comps(segs));
    let mut result: Vec<PathComponent> = Vec::new();
    if absolute {
        result.push(PathComponent::RootDir);
    } else if first_is_dot {
        result.push(PathComponent::CurDir);
    }
    let ghost head = comps_of(result@);
    proof {
        assert(head =~= if is_absolute(path@) {
            seq![Comp::Root]
        } else if segs[0] == seq!['.'] {
            seq![Comp::CurDir]
        } else {
            Seq::<Comp>::empty()
        });
    }
    let ghost all = comps_of(out@);
    let ghost total = out@.len();
    while out.len() > 0
        invariant
            comps_of(result@) == head + all.take(total - out@.len()),
            comps_of(out@) == all.skip(total - out@.len()),
            out@.len() <= total,
            all.len() == total,
        decreases out@.len(),
    {
        let ghost before = total - out@.len();
        let ghost old_out = out@;
        let ghost old_res = result@;
        let c = out.remove(0);
        assert(comps_of(old_out)[0] == all.skip(before)[0]);
        assert(c.comp() == all[before]);
        result.push(c);
        assert(result@ == old_res.push(c));
        assert(comps_of(result@) =~= comps_of(old_res).push(c.comp()));
        assert(out@ =~= old_out.subrange(1, old_out.len() as int));
        assert forall|j: int| 0 <= j < out@.len() implies #[trigger] comps_of(out@)[j] == all.skip(before + 1)[j] by {
            assert(comps_of(out@)[j] == out@[j].comp());
            assert(out@[j] == old_out[j + 1]);
            assert(comps_of(old_out)[j + 1] == all.skip(before)[j + 1]);
        }
        assert(comps_of(result@) =~= head + all.take(before + 1));
        assert(comps_of(out@) =~= all.skip(before + 1));
    }
    assert(all.take(total as int) =~= all);
    assert(comps_of(result@) =~= components(path@));
    result
}

/// Concatenation of segments with `/` between them.
pub open spec fn join_segs(ss: Seq<Seq<char>>) -> Seq<char>
    decreases ss.len(),
{
    if ss.len() == 0 {
        Seq::empty()
    } else if ss.len() == 1 {
        ss[0]
    } else {
        join_segs(ss.drop_last()) + seq!['/'] + ss.last()
    }
}

/// The text of a path given whether it is absolute and its normal segments.
pub open spec fn render(abs: bool, ss: Seq<Seq<char>>) -> Seq<char> {
    if abs {
        seq!['/'] + join_segs(ss)
    } else {
        join_segs(ss)
    }
}

/// Lexical normalisation state after a list of components: a root clears
/// everything and makes the path absolute, a parent drops the last segment (if
/// any), a normal component is appended, a current-dir component is ignored.
pub open spec fn norm_state(cs: Seq<Comp>) -> (bool, Seq<Seq<char>>)
    decreases cs.len(),
{
    if cs.len() == 0 {
        (false, Seq::empty())
    } else {
        let (a, st) = norm_state(cs.drop_last());
        match cs.last() {
            Comp::Root => (true, Seq::empty()),
            Comp::CurDir => (a, st),
            Comp::Parent => (a, if st.len() > 0 { st.drop_last() } else { st }),
            Comp::Normal(c) => (a, st.push(c)),
        }
    }
}

/// The lexically normalised form of a path.
pub open spec fn normalize(p: Seq<char>) -> Seq<char> {
    let (a, ss) = norm_state(components(p));
    render(a, ss)
}

/// Append `s` to `out`.
fn append_seq(out: &mut String, s: &str)
    ensures
        final(out)@ == old(out)@ + s@,
{
    let n = s.unicode_len();
    let mut i: usize = 0;
    let ghost start = out@;
    while i < n
        invariant
            n == s@.len(),
            i <= n,
            out@ == start + s@.take(i as int),
        decreases n - i,
    {
        push_char(out, s.get_char(i));
        i = i + 1;
        assert(out@ =~= start + s@.take(i as int));
    }
    assert(s@.take(n as int) =~= s@);
}

/// The text of a path from its absolute flag and segments.
pub fn render_path(abs: bool, segs: &Vec<String>) -> (r: String)
    ensures
        r@ == render(abs, segs@.map_values(|x: String| x@)),
{
    let ghost ss = segs@.map_values(|x: String| x@);
    let mut out = String::new();
    if abs {
        push_char(&mut out, '/');
    }
    let ghost head = out@;
    let mut i: usize = 0;
    assert(ss.take(0) =~= Seq::<Seq<char>>::empty());
    while i < segs.len()
        invariant
            i <= segs@.len(),
            ss == segs@.map_values(|x: String| x@),
            out@ == head + join_segs(ss.take(i as int)),
        decreases segs@.len() - i,
    {
        let ghost before = out@;
        if i > 0 {
            push_char(&mut out, '/');
        }
        append_seq(&mut out, segs[i].as_str());
        proof {
            let t = ss.take(i + 1);
            assert(t.drop_last() =~= ss.take(i as int));
            assert(t.last() == segs@[i as int]@);
            if i == 0 {
                assert(t =~= seq![segs@[0]@]);
            }
        }
        i = i + 1;
        assert(out@ =~= head + join_segs(ss.take(i as int)));
    }
    assert(ss.take(segs@.len() as int) =~= ss);
    out
}

/// Lexically normalise a path: `..` drops the segment before it, `.` and empty
/// segments vanish, a leading `/` is kept.
pub fn normalize_path(path: &str) -> (r: String)
    ensures
        r@ == normalize(path@),
{
    let comps = path_components(path);
    let ghost cs = comps_of(comps@);
    let mut abs = false;
    let mut stack: Vec<String> = Vec::new();
    let mut i: usize = 0;
    while i < comps.len()
        invariant
            i <= comps@.len(),
            cs == comps_of(comps@),
            norm_state(cs.take(i as int)) == (abs, stack@.map_values(|x: String| x@)),
        decreases comps@.len() - i,
    {
        let ghost old_stack = stack@;
        assert(cs.take(i + 1).drop_last() =~= cs.take(i as int));
        assert(cs.take(i + 1).last() == comps@[i as int].comp());
        match &comps[i] {
            PathComponent::RootDir => {
                abs = true;
                stack = Vec::new();
                assert(stack@.map_values(|x: String| x@) =~= Seq::<Seq<char>>::empty());
            },
            PathComponent::CurDir => {},
            PathComponent::ParentDir => {
                if stack.len() > 0 {
                    stack.pop();
                    assert(stack@.map_values(|x: String| x@) =~= old_stack.map_values(|x: String| x@).drop_last());
                }
            },
            PathComponent::Normal(seg) => {
                stack.push(seg.clone());
                assert(stack@.map_values(|x: String| x@) =~= old_stack.map_values(|x: String| x@).push(seg@));
            },
        }
        i = i + 1;
    }
    assert(cs.take(comps@.len() as int) =~= cs);
    render_path(abs, &stack)
}

/// A segment that survives normalisation as a normal component.
pub open spec fn normal_seg(c: Seq<char>) -> bool {
    c.len() > 0 && !c.contains('/') && c != seq!['.'] && c != seq!['.', '.']
}

proof fn lemma_segments_concat(x: Seq<char>, y: Seq<char>)
    ensures
        segments(x + seq!['/'] + y) == segments(x) + segments(y),
    decreases y.len(),
{
    lemma_segments_nonempty(y);
    if y.len() == 0 {
        assert(x + seq!['/'] + y =~= x.push('/'));
        assert(x.push('/').drop_last() =~= x);
        assert(segments(x) + segments(y) =~= segments(x).push(Seq::<char>::empty()));
    } else {
        let z = x + seq!['/'] + y;
        assert(z.drop_last() =~= x + seq!['/'] + y.drop_last());
        assert(z.last() == y.last());
        lemma_segments_concat(x, y.drop_last());
        lemma_segments_nonempty(y.drop_last());
        let p = segments(y.drop_last());
        if y.last() == '/' {
            assert(segments(z) =~= segments(x) + segments(y));
        } else {
            assert(segments(z) =~= segments(x) + segments(y));
        }
    }
}

proof fn lemma_segments_no_slash(y: Seq<char>)
    requires
        !y.contains('/'),
    ensures
        segments(y) == seq![y],
    decreases y.len(),
{
    if y.len() > 0 {
        assert(!y.drop_last().contains('/')) by {
            if y.drop_last().contains('/') {
                let k = choose|k: int| 0 <= k < y.drop_last().len() && y.drop_last()[k] == '/';
                assert(y[k] == '/');
            }
        }
        lemma_segments_no_slash(y.drop_last());
        assert(y.last() != '/') by {
            assert(y[y.len() - 1] == y.last());
        }
        assert(y.drop_last().push(y.last()) =~= y);
        assert(seq![y.drop_last()].update(0, y.drop_last().push(y.last())) =~= seq![y]);
    } else {
        assert(y =~= Seq::<char>::empty());
    }
}

proof fn lemma_seg_comps_empty_seg()
    ensures
        seg_comps(seq![Seq::<char>::empty()]) == Seq::<Comp>::empty(),
        segments(Seq::<char>::empty()) == seq![Seq::<char>::empty()],
{
    let e = seq![Seq::<char>::empty()];
    assert(e.drop_last() =~= Seq::<Seq<char>>::empty());
    assert(e.last().len() == 0);
    assert(seg_comp(e.last()) is None);
    assert(seg_comps(e.drop_last()) =~= Seq::<Comp>::empty());
    assert(seg_comps(e) == seg_comps(e.drop_last()));
}

proof fn lemma_segments_join(ss: Seq<Seq<char>>)
    requires
        ss.len() >= 1,
        forall|i: int| 0 <= i < ss.len() ==> !(#[trigger] ss[i]).contains('/'),
    ensures
        segments(join_segs(ss)) == ss,
    decreases ss.len(),
{
    if ss.len() == 1 {
        lemma_segments_no_slash(ss[0]);
        assert(seq![ss[0]] =~= ss);
    } else {
        lemma_segments_join(ss.drop_last());
        lemma_segments_concat(join_segs(ss.drop_last()), ss.last());
        lemma_segments_no_slash(ss.last());
        assert(ss.drop_last() + seq![ss.last()] =~= ss);
    }
}

proof fn lemma_seg_comps_concat(a: Seq<Seq<char>>, b: Seq<Seq<char>>)
    ensures
        seg_comps(a + b) == seg_comps(a) + seg_comps(b),
    decreases b.len(),
{
    if b.len() == 0 {
        assert(a + b =~= a);
        assert(seg_comps(b) =~= Seq::<Comp>::empty());
        assert(seg_comps(a) + seg_comps(b) =~= seg_comps(a));
    } else {
        lemma_seg_comps_concat(a, b.drop_last());
        assert((a + b).drop_last() =~= a + b.drop_last());
        assert((a + b).last() == b.last());
        match seg_comp(b.last()) {
            Some(c) => {
                assert(seg_comps(a + b) =~= seg_comps(a) + seg_comps(b));
            },
            None => {
                assert(seg_comps(a + b) =~= seg_comps(a) + seg_comps(b));
            },
        }
    }
}

pub open spec fn normals(ss: Seq<Seq<char>>) -> Seq<Comp> {
    ss.map_values(|c: Seq<char>| Comp::Normal(c))
}

proof fn lemma_seg_comps_normal(ss: Seq<Seq<char>>)
    requires
        forall|i: int| 0 <= i < ss.len() ==> normal_seg(#[trigger] ss[i]),
    ensures
        seg_comps(ss) == normals(ss),
    decreases ss.len(),
{
    if ss.len() > 0 {
        lemma_seg_comps_normal(ss.drop_last());
        let l = ss.last();
        assert(normal_seg(ss[ss.len() - 1]));
        assert(seg_comp(l) == Some(Comp::Normal(l)));
        assert(normals(ss) =~= normals(ss.drop_last()).push(Comp::Normal(l)));
    } else {
        assert(normals(ss) =~= Seq::<Comp>::empty());
    }
}

proof fn lemma_norm_state_normals(cs: Seq<Comp>, ss: Seq<Seq<char>>)
    ensures
        norm_state(cs + normals(ss)) == (norm_state(cs).0, norm_state(cs).1 + ss),
    decreases ss.len(),
{
    if ss.len() == 0 {
        assert(cs + normals(ss) =~= cs);
        assert(norm_state(cs).1 + ss =~= norm_state(cs).1);
    } else {
        lemma_norm_state_normals(cs, ss.drop_last());
        assert((cs + normals(ss)).drop_last() =~= cs + normals(ss.drop_last()));
        assert((cs + normals(ss)).last() == Comp::Normal(ss.last()));
        assert(norm_state(cs).1 + ss.drop_last() + seq![ss.last()] =~= norm_state(cs).1 + ss);
    }
}

proof fn lemma_segments_no_slash_elems(s: Seq<char>)
    ensures
        forall|i: int| 0 <= i < segments(s).len() ==> !(#[trigger] segments(s)[i]).contains('/'),
    decreases s.len(),
{
    if s.len() > 0 {
        lemma_segments_no_slash_elems(s.drop_last());
        lemma_segments_nonempty(s.drop_last());
        let prev = segments(s.drop_last());
        if s.last() != '/' {
            assert forall|i: int| 0 <= i < segments(s).len() implies !(#[trigger] segments(s)[i]).contains('/') by {
                if i == prev.len() - 1 {
                    let t = prev.last().push(s.last());
                    assert(!prev[i].contains('/'));
                    if t.contains('/') {
                        let k = choose|k: int| 0 <= k < t.len() && t[k] == '/';
                        if k < prev.last().len() {
                            assert(prev.last()[k] == '/');
                        }
                    }
                } else {
                    assert(segments(s)[i] == prev[i]);
                }
            }
        } else {
            assert forall|i: int| 0 <= i < segments(s).len() implies !(#[trigger] segments(s)[i]).contains('/') by {
                if i < prev.len() {
                    assert(segments(s)[i] == prev[i]);
                } else {
                    assert(segments(s)[i] =~= Seq::<char>::empty());
                }
            }
        }
    } else {
        assert(segments(s) =~= seq![Seq::<char>::empty()]);
    }
}

proof fn lemma_seg_comps_normal_elems(segs: Seq<Seq<char>>)
    requires
        forall|i: int| 0 <= i < segs.len() ==> !(#[trigger] segs[i]).contains('/'),
    ensures
        forall|i: int| 0 <= i < seg_comps(segs).len() ==> (#[trigger] seg_comps(segs)[i] matches Comp::Normal(c) ==> normal_seg(c)),
    decreases segs.len(),
{
    if segs.len() > 0 {
        lemma_seg_comps_normal_elems(segs.drop_last());
        assert(!segs[segs.len() - 1].contains('/'));
    }
}

proof fn lemma_norm_state_normal(cs: Seq<Comp>)
    requires
        forall|i: int| 0 <= i < cs.len() ==> (#[trigger] cs[i] matches Comp::Normal(c) ==> normal_seg(c)),
    ensures
        forall|i: int| 0 <= i < norm_state(cs).1.len() ==> normal_seg(#[trigger] norm_state(cs).1[i]),
    decreases cs.len(),
{
    if cs.len() > 0 {
        lemma_norm_state_normal(cs.drop_last());
        let st = norm_state(cs.drop_last()).1;
        assert(cs[cs.len() - 1] == cs.last());
        match cs.last() {
            Comp::Parent => {
                if st.len() > 0 {
                    assert forall|i: int| 0 <= i < st.drop_last().len() implies normal_seg(#[trigger] st.drop_last()[i]) by {
                        assert(st.drop_last()[i] == st[i]);
                    }
                }
            },
            _ => {},
        }
    }
}

proof fn lemma_join_first(ss: Seq<Seq<char>>)
    requires
        ss.len() >= 1,
        ss[0].len() > 0,
    ensures
        join_segs(ss).len() > 0,
        join_segs(ss)[0] == ss[0][0],
    decreases ss.len(),
{
    if ss.len() > 1 {
        lemma_join_first(ss.drop_last());
    }
}

/// The normal segments a path normalises to.
proof fn lemma_normalize_segments(p: Seq<char>)
    ensures
        forall|i: int| 0 <= i < norm_state(components(p)).1.len() ==> normal_seg(#[trigger] norm_state(components(p)).1[i]),
{
    let segs = segments(p);
    lemma_segments_no_slash_elems(p);
    lemma_seg_comps_normal_elems(segs);
    let cs = components(p);
    let body = seg_comps(segs);
    assert forall|i: int| 0 <= i < cs.len() implies (#[trigger] cs[i] matches Comp::Normal(c) ==> normal_seg(c)) by {
        if is_absolute(p) || segs[0] == seq!['.'] {
            if i > 0 {
                assert(cs[i] == body[i - 1]);
            }
        } else {
            assert(cs[i] == body[i]);
        }
    }
    lemma_norm_state_normal(cs);
}

/// Components of a rendered path with normal segments.
proof fn lemma_components_render(a: bool, ss: Seq<Seq<char>>)
    requires
        forall|i: int| 0 <= i < ss.len() ==> normal_seg(#[trigger] ss[i]),
    ensures
        components(render(a, ss)) == (if a { seq![Comp::Root] } else { Seq::<Comp>::empty() }) + normals(ss),
{
    assert forall|i: int| 0 <= i < ss.len() implies !(#[trigger] ss[i]).contains('/') by {
        assert(normal_seg(ss[i]));
    }
    lemma_seg_comps_normal(ss);
    if ss.len() == 0 {
        assert(join_segs(ss) =~= Seq::<char>::empty());
        assert(normals(ss) =~= Seq::<Comp>::empty());
        if a {
            let r = seq!['/'];
            assert(render(a, ss) =~= r);
            assert(r.drop_last() =~= Seq::<char>::empty());
            assert(r.last() == '/');
            lemma_seg_comps_empty_seg();
            assert(segments(r) =~= seq![Seq::<char>::empty(), Seq::<char>::empty()]);
            let two = seq![Seq::<char>::empty(), Seq::<char>::empty()];
            assert(two.drop_last() =~= seq![Seq::<char>::empty()]);
            assert(seg_comp(two.last()) is None);
            assert(seg_comps(segments(r)) =~= Seq::<Comp>::empty());
            assert(components(r) =~= seq![Comp::Root]);
        } else {
            lemma_seg_comps_empty_seg();
            assert(segments(Seq::<char>::empty())[0] =~= Seq::<char>::empty());
            assert(seg_comps(segments(Seq::<char>::empty())) =~= Seq::<Comp>::empty());
        }
    } else {
        lemma_segments_join(ss);
        if a {
            let r = seq!['/'] + join_segs(ss);
            assert(r =~= Seq::<char>::empty() + seq!['/'] + join_segs(ss));
            lemma_segments_concat(Seq::<char>::empty(), join_segs(ss));
            assert(segments(r) =~= seq![Seq::<char>::empty()] + ss);
            lemma_seg_comps_concat(seq![Seq::<char>::empty()], ss);
            lemma_seg_comps_empty_seg();
            assert(seg_comps(segments(r)) =~= normals(ss));
        } else {
            assert(normal_seg(ss[0]));
            lemma_join_first(ss);
            assert(!is_absolute(join_segs(ss))) by {
                assert(join_segs(ss)[0] == ss[0][0]);
                assert(ss[0].contains(ss[0][0]));
            }
        }
    }
}

/// Normalising twice is normalising once.
pub proof fn law_normalize_idempotent(p: Seq<char>)
    ensures
        normalize(normalize(p)) == normalize(p),
{
    let (a, ss) = norm_state(components(p));
    lemma_normalize_segments(p);
    lemma_components_render(a, ss);
    let head = if a { seq![Comp::Root] } else { Seq::<Comp>::empty() };
    lemma_norm_state_normals(head, ss);
    if a {
        assert(seq![Comp::Root].drop_last() =~= Seq::<Comp>::empty());
        assert(norm_state(head) == (true, Seq::<Seq<char>>::empty()));
    } else {
        assert(norm_state(head) == (false, Seq::<Seq<char>>::empty()));
    }
    assert(Seq::<Seq<char>>::empty() + ss =~= ss);
}

/// `PathBuf::push` of a relative path: a separator is put between unless the
/// buffer is empty or already ends with one.
pub open spec fn push_rel(buf: Seq<char>, seg: Seq<char>) -> Seq<char> {
    if buf.len() == 0 {
        seg
    } else if buf.last() == '/' {
        buf + seg
    } else {
        buf + seq!['/'] + seg
    }
}

/// `PathBuf::join`: an absolute path replaces the base.
pub open spec fn join_path_spec(base: Seq<char>, p: Seq<char>) -> Seq<char> {
    if is_absolute(p) {
        p
    } else {
        push_rel(base, p)
    }
}

/// `base.join(p)`.
pub fn join_path(base: &str, p: &str) -> (r: String)
    ensures
        r@ == join_path_spec(base@, p@),
{
    let pn = p.unicode_len();
    if pn > 0 && p.get_char(0) == '/' {
        return String::from_str(p);
    }
    let bn = base.unicode_len();
    let mut out = String::from_str(base);
    if bn > 0 && base.get_char(bn - 1) != '/' {
        push_char(&mut out, '/');
    }
    append_seq(&mut out, p);
    proof {
        if bn > 0 {
            assert(base@.last() == base@[bn - 1]);
        }
    }
    out
}

/// Pushing a normal segment adds one normal component.
pub proof fn lemma_components_push_rel(buf: Seq<char>, seg: Seq<char>)
    requires
        normal_seg(seg),
    ensures
        components(push_rel(buf, seg)) == components(buf).push(Comp::Normal(seg)),
{
    lemma_segments_no_slash(seg);
    assert(seg_comp(seg) == Some(Comp::Normal(seg)));
    let one = seq![seg];
    assert(one.drop_last() =~= Seq::<Seq<char>>::empty());
    assert(one.last() == seg);
    assert(seg_comps(one.drop_last()) =~= Seq::<Comp>::empty());
    assert(seg_comps(one) =~= seq![Comp::Normal(seg)]);
    if buf.len() == 0 {
        assert(push_rel(buf, seg) == seg);
        assert(!is_absolute(seg)) by {
            if seg.len() > 0 && seg[0] == '/' {
                assert(seg.contains('/'));
            }
        }
        assert(segments(seg)[0] != seq!['.']);
        lemma_seg_comps_empty_seg();
        assert(segments(buf)[0] =~= Seq::<char>::empty());
        assert(components(buf) =~= Seq::<Comp>::empty());
        assert(components(seg) =~= seq![Comp::Normal(seg)]);
    } else {
        let x = if buf.last() == '/' { buf.drop_last() } else { buf };
        let out = push_rel(buf, seg);
        assert(out =~= x + seq!['/'] + seg);
        lemma_segments_concat(x, seg);
        lemma_segments_nonempty(x);
        lemma_seg_comps_concat(segments(x), one);
        if buf.last() == '/' {
            assert(buf =~= x.push('/'));
            assert(buf.drop_last() =~= x);
            assert(segments(buf) == segments(x).push(Seq::<char>::empty()));
            lemma_seg_comps_concat(segments(x), seq![Seq::<char>::empty()]);
            lemma_seg_comps_empty_seg();
            assert(segments(x).push(Seq::<char>::empty()) =~= segments(x) + seq![Seq::<char>::empty()]);
            assert(seg_comps(segments(buf)) =~= seg_comps(segments(x)));
            assert(segments(out)[0] == segments(buf)[0]);
            if x.len() > 0 {
                assert(out[0] == buf[0]);
            } else {
                assert(buf =~= seq!['/']);
                assert(is_absolute(buf));
                assert(out[0] == '/');
            }
        } else {
            assert(segments(out)[0] == segments(buf)[0]);
            assert(out[0] == buf[0]);
        }
        assert(segments(out) =~= segments(x) + one);
        assert(seg_comps(segments(out)) =~= seg_comps(segments(x)).push(Comp::Normal(seg)));
        assert(components(out) =~= components(buf).push(Comp::Normal(seg)));
    }
}

} // verus!
