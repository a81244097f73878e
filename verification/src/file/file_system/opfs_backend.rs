//! Per-origin Origin Private File System backend: the mapping of virtual paths
//! (rooted at `/`) onto real paths inside an origin's directory, and the
//! origin's directory name.
//!
//! Resolution rejects any `..` component and any component that holds a
//! backslash, so a resolved path never leaves the origin's root.
use vstd::prelude::*;
use crate::text::{to_lowercase, unicode_lowercase};
use vstd::utf8::encode_utf8;
use vstd::seq_lib::{to_multiset_build, to_multiset_insert};
use crate::path::{normal_seg, lemma_components_push_rel, Comp, PathComponent, components, comps_of, path_components, push_char, push_rel, join_path, join_path_spec};

verus! {

/// Snapshot of one directory entry.
#[derive(Debug, Clone)]
pub struct DirEntrySnapshot {
    pub name: String,
    pub is_dir: bool,
}

/// Path-level violations found while resolving a virtual path.
#[derive(Debug, Clone, Copy, PartialEq, Eq, Structural)]
pub enum FsError {
    /// A path component is empty, `.`, `..`, or holds `/` or `\`.
    InvalidName,
    /// The path would escape the OPFS root.
    PathEscape,
}

/// Whether a normal component is refused as a name inside the OPFS tree.
pub open spec fn bad_component(seg: Seq<char>) -> bool {
    seg.len() == 0 || seg == seq!['.'] || seg == seq!['.', '.'] || seg.contains('/') || seg.contains('\\')
}

/// Resolution of a list of components against a root, left to right, stopping
/// at the first violation.
pub open spec fn resolve_comps(root: Seq<char>, cs: Seq<Comp>) -> Result<Seq<char>, FsError>
    decreases cs.len(),
{
    if cs.len() == 0 {
        Ok(root)
    } else {
        match resolve_comps(root, cs.drop_last()) {
            Err(e) => Err(e),
            Ok(out) => match cs.last() {
                Comp::Root => Ok(out),
                Comp::CurDir => Ok(out),
                Comp::Parent => Err(FsError::PathEscape),
                Comp::Normal(seg) => if bad_component(seg) {
                    Err(FsError::InvalidName)
                } else {
                    Ok(push_rel(out, seg))
                },
            },
        }
    }
}

/// Resolution of a virtual path against a root.
pub open spec fn resolve_spec(root: Seq<char>, virt: Seq<char>) -> Result<Seq<char>, FsError> {
    resolve_comps(root, components(virt))
}

/// Per-origin OPFS root.
#[derive(Debug)]
pub struct OpfsBackend {
    root: String,
}

/// Whether a path exists on disk.
///
/// Calls `std::path::Path::exists`; nothing is promised of the answer, which
/// depends on what is on disk.
#[verifier::external_body]
fn disk_exists(p: &str) -> bool {
    std::path::Path::new(p).exists()
}

/// Whether a path is a directory on disk.
///
/// Calls `std::path::Path::is_dir`; nothing is promised of the answer, which
/// depends on what is on disk.
#[verifier::external_body]
fn disk_is_dir(p: &str) -> bool {
    std::path::Path::new(p).is_dir()
}

/// Whether a path is a regular file on disk.
///
/// Calls `std::path::Path::is_file`; nothing is promised of the answer, which
/// depends on what is on disk.
#[verifier::external_body]
fn disk_is_file(p: &str) -> bool {
    std::path::Path::new(p).is_file()
}

impl OpfsBackend {
    pub closed spec fn root(&self) -> Seq<char> {
        self.root@
    }

    /// A backend rooted at `root` on disk.
    pub fn with_root(root: String) -> (b: Self)
        ensures
            b.root() == root@,
    {
        OpfsBackend { root }
    }

    pub fn root_path(&self) -> (r: &str)
        ensures
            r@ == self.root(),
    {
        self.root.as_str()
    }

    /// Resolve a virtual path (rooted at `/`) to a real path inside the OPFS root.
    /// A `..` component is an escape; an empty, `.`-like, or `/`- or
    /// `\`-holding component is an invalid name.
    pub fn resolve(&self, virt: &str) -> (r: Result<String, FsError>)
        ensures
            match (r, resolve_spec(self.root(), virt@)) {
                (Ok(p), Ok(q)) => p@ == q,
                (Err(e), Err(f)) => e == f,
                _ => false,
            },
    {
        let comps = path_components(virt);
        let ghost cs = comps_of(comps@);
        let mut out = self.root.clone();
        let mut i: usize = 0;
        assert(cs.take(0) =~= Seq::<Comp>::empty());
        while i < comps.len()
            invariant
                i <= comps@.len(),
                cs == comps_of(comps@),
                cs == components(virt@),
                resolve_comps(self.root@, cs.take(i as int)) == Ok::<Seq<char>, FsError>(out@),
            decreases comps@.len() - i,
        {
            assert(cs.take(i + 1).drop_last() =~= cs.take(i as int));
            assert(cs.take(i + 1).last() == comps@[i as int].comp());
            match &comps[i] {
                PathComponent::RootDir => {},
                PathComponent::CurDir => {},
                PathComponent::ParentDir => {
                    proof {
                        lemma_resolve_err_stays(self.root@, cs, i as int + 1, FsError::PathEscape);
                    }
                    return Err(FsError::PathEscape);
                },
                PathComponent::Normal(seg) => {
                    let s = seg.as_str();
                    let n = s.unicode_len();
                    let bad = n == 0 || (n == 1 && s.get_char(0) == '.') || (n == 2 && s.get_char(0) == '.'
                        && s.get_char(1) == '.') || crate::text::contains_char(s, '/') || crate::text::contains_char(s, '\\');
                    proof {
                        if n == 1 && s@[0] == '.' {
                            assert(s@ =~= seq!['.']);
                        }
                        if n == 2 && s@[0] == '.' && s@[1] == '.' {
                            assert(s@ =~= seq!['.', '.']);
                        }
                        if s@ == seq!['.'] {
                            assert(n == 1 && s@[0] == '.');
                        }
                        if s@ == seq!['.', '.'] {
                            assert(n == 2 && s@[0] == '.' && s@[1] == '.');
                        }
                    }
                    if bad {
                        proof {
                            lemma_resolve_err_stays(self.root@, cs, i as int + 1, FsError::InvalidName);
                        }
                        return Err(FsError::InvalidName);
                    }
                    let ghost before = out@;
                    out = join_path(out.as_str(), s);
                    proof {
                        assert(!bad_component(s@));
                        assert(!crate::path::is_absolute(s@)) by {
                            if s@.len() > 0 && s@[0] == '/' {
                                assert(s@.contains('/'));
                            }
                        }
                    }
                },
            }
            i = i + 1;
        }
        assert(cs.take(comps@.len() as int) =~= cs);
        Ok(out)
    }

    /// Whether a virtual path exists under the root; an unresolvable path does
    /// not.
    pub fn entry_exists(&self, virt: &str) -> (b: bool)
        ensures
            resolve_spec(self.root(), virt@) is Err ==> !b,
    {
        match self.resolve(virt) {
            Ok(p) => disk_exists(p.as_str()),
            Err(_) => false,
        }
    }

    /// Whether a virtual path is a directory under the root; an unresolvable path
    /// is not.
    pub fn is_dir(&self, virt: &str) -> (b: bool)
        ensures
            resolve_spec(self.root(), virt@) is Err ==> !b,
    {
        match self.resolve(virt) {
            Ok(p) => disk_is_dir(p.as_str()),
            Err(_) => false,
        }
    }

    /// Whether a virtual path is a regular file under the root; an unresolvable
    /// path is not.
    pub fn is_file(&self, virt: &str) -> (b: bool)
        ensures
            resolve_spec(self.root(), virt@) is Err ==> !b,
    {
        match self.resolve(virt) {
            Ok(p) => disk_is_file(p.as_str()),
            Err(_) => false,
        }
    }
}

proof fn lemma_resolve_err_stays(root: Seq<char>, cs: Seq<Comp>, k: int, e: FsError)
    requires
        0 < k <= cs.len(),
        resolve_comps(root, cs.take(k)) == Err::<Seq<char>, FsError>(e),
    ensures
        resolve_comps(root, cs) == Err::<Seq<char>, FsError>(e),
    decreases cs.len() - k,
{
    if k < cs.len() {
        assert(cs.take(k + 1).drop_last() =~= cs.take(k));
        lemma_resolve_err_stays(root, cs, k + 1, e);
    } else {
        assert(cs.take(k) =~= cs);
    }
}

/// A successful resolution stays inside the root: the root's components come
/// first, followed only by normal components.
proof fn lemma_resolve_inside(root: Seq<char>, cs: Seq<Comp>)
    ensures
        resolve_comps(root, cs) matches Ok(out) ==> ({
            let rc = components(root);
            &&& components(out).len() >= rc.len()
            &&& components(out).take(rc.len() as int) == rc
            &&& forall|k: int| rc.len() <= k < components(out).len() ==> #[trigger] components(out)[k] is Normal
        }),
    decreases cs.len(),
{
    if cs.len() > 0 {
        lemma_resolve_inside(root, cs.drop_last());
        if let Ok(prev) = resolve_comps(root, cs.drop_last()) {
            if let Comp::Normal(seg) = cs.last() {
                if !bad_component(seg) {
                    lemma_components_push_rel(prev, seg);
                    let rc = components(root);
                    let c2 = components(push_rel(prev, seg));
                    assert(c2.take(rc.len() as int) =~= components(prev).take(rc.len() as int));
                }
            }
        }
    }
}

/// Resolution never leaves the OPFS root: on success the root's components are a
/// prefix of the result's, and everything after them is a normal component.
pub proof fn law_resolve_stays_inside_root(root: Seq<char>, virt: Seq<char>)
    ensures
        resolve_spec(root, virt) matches Ok(out) ==> ({
            let rc = components(root);
            &&& components(out).len() >= rc.len()
            &&& components(out).take(rc.len() as int) == rc
            &&& forall|k: int| rc.len() <= k < components(out).len() ==> #[trigger] components(out)[k] is Normal
        }),
{
    lemma_resolve_inside(root, components(virt));
}

proof fn lemma_parent_fails(root: Seq<char>, cs: Seq<Comp>, k: int)
    requires
        0 <= k < cs.len(),
        cs[k] is Parent,
    ensures
        resolve_comps(root, cs) is Err,
    decreases cs.len(),
{
    if k == cs.len() - 1 {
    } else {
        assert(cs.drop_last()[k] == cs[k]);
        lemma_parent_fails(root, cs.drop_last(), k);
    }
}

/// A virtual path with a `..` component never resolves.
pub proof fn law_parent_component_rejected(root: Seq<char>, virt: Seq<char>, k: int)
    requires
        0 <= k < components(virt).len(),
        components(virt)[k] is Parent,
    ensures
        resolve_spec(root, virt) is Err,
{
    lemma_parent_fails(root, components(virt), k);
}

/// SHA-256 digest of a byte sequence.
pub uninterp spec fn sha256_spec(data: Seq<u8>) -> Seq<u8>;

/// Calls `sha2::Sha256::digest`. The digest is named; its length is the 32
/// bytes of SHA-256.
#[verifier::external_body]
fn sha256_digest(data: &[u8]) -> (r: Vec<u8>)
    ensures
        r@ == sha256_spec(data@),
        r@.len() == 32,
{
    <sha2::Sha256 as sha2::Digest>::digest(data).to_vec()
}

pub open spec fn is_ascii_alnum(c: char) -> bool {
    ('a' <= c && c <= 'z') || ('A' <= c && c <= 'Z') || ('0' <= c && c <= '9')
}

/// A character of an origin slug: ASCII letters, digits, `.`, `_` and `-` stay,
/// anything else becomes `_`.
pub open spec fn slug_char(c: char) -> char {
    if is_ascii_alnum(c) || c == '.' || c == '_' || c == '-' {
        c
    } else {
        '_'
    }
}

/// Lower-case hexadecimal digit.
pub open spec fn hex_digit(n: u8) -> char {
    if n < 10 {
        (('0' as u8) + n) as char
    } else {
        (('a' as u8) + n - 10) as char
    }
}

/// Two lower-case hexadecimal digits of a byte (`{:02x}`).
pub open spec fn hex_byte(b: u8) -> Seq<char> {
    seq![hex_digit(b / 16), hex_digit(b % 16)]
}

/// The filesystem-safe slug of an origin: its lower-cased text with every
/// character outside `[a-z0-9._-]` (and ASCII upper case) turned into `_`, then `_`
/// and the first four bytes of the SHA-256 of the origin in hex; an origin with
/// empty text gives `origin_` and the hex.
pub open spec fn origin_slug_spec(origin: Seq<char>) -> Seq<char> {
    let lower = unicode_lowercase(origin);
    let sanitized = Seq::new(lower.len(), |i: int| slug_char(lower[i]));
    let h = sha256_spec(encode_utf8(origin));
    let hex = hex_byte(h[0]) + hex_byte(h[1]) + hex_byte(h[2]) + hex_byte(h[3]);
    if sanitized.len() == 0 {
        seq!['o', 'r', 'i', 'g', 'i', 'n', '_'] + hex
    } else {
        sanitized + seq!['_'] + hex
    }
}

fn hex_digit_exec(n: u8) -> (c: char)
    requires
        n < 16,
    ensures
        c == hex_digit(n),
{
    if n < 10 {
        (48u8 + n) as char
    } else {
        (97u8 + n - 10) as char
    }
}

/// Convert an origin into a filesystem-safe directory name.
pub fn origin_slug(origin: &str) -> (r: String)
    ensures
        r@ == origin_slug_spec(origin@),
{
    let lower = to_lowercase(origin);
    let mut sanitised = String::new();
    let n = lower.as_str().unicode_len();
    let mut i: usize = 0;
    while i < n
        invariant
            n == lower@.len(),
            i <= n,
            sanitised@ == Seq::new(i as nat, |k: int| slug_char(lower@[k])),
        decreases n - i,
    {
        let ch = lower.as_str().get_char(i);
        let keep = ('a' <= ch && ch <= 'z') || ('A' <= ch && ch <= 'Z') || ('0' <= ch && ch <= '9')
            || ch == '.' || ch == '_' || ch == '-';
        if keep {
            push_char(&mut sanitised, ch);
        } else {
            push_char(&mut sanitised, '_');
        }
        i = i + 1;
        assert(sanitised@ =~= Seq::new(i as nat, |k: int| slug_char(lower@[k])));
    }
    let hash = sha256_digest(origin.as_bytes());
    let mut hex = String::new();
    let mut j: usize = 0;
    while j < 4
        invariant
            hash@.len() == 32,
            j <= 4,
            hex@ == (if j == 0 { Seq::<char>::empty() } else if j == 1 { hex_byte(hash@[0]) } else if j == 2 {
                hex_byte(hash@[0]) + hex_byte(hash@[1])
            } else if j == 3 {
                hex_byte(hash@[0]) + hex_byte(hash@[1]) + hex_byte(hash@[2])
            } else {
                hex_byte(hash@[0]) + hex_byte(hash@[1]) + hex_byte(hash@[2]) + hex_byte(hash@[3])
            }),
        decreases 4 - j,
    {
        let b = hash[j];
        let ghost before = hex@;
        push_char(&mut hex, hex_digit_exec(b / 16));
        push_char(&mut hex, hex_digit_exec(b % 16));
        assert(hex@ =~= before + hex_byte(b));
        j = j + 1;
    }
    let mut out = String::new();
    if n == 0 {
        proof {
            reveal_strlit("origin_");
        }
        out = String::from_str("origin_");
        assert("origin_"@ =~= seq!['o', 'r', 'i', 'g', 'i', 'n', '_']);
    } else {
        out = sanitised;
        push_char(&mut out, '_');
    }
    let ghost before = out@;
    out = out.concat(hex.as_str());
    assert(out@ =~= origin_slug_spec(origin@));
    out
}

/// Directory of an origin's OPFS tree under a base directory:
/// `<base>/thalora/opfs/<slug>`.
pub fn origin_root(base: &str, origin: &str) -> (r: String)
    ensures
        r@ == join_path_spec(
            join_path_spec(join_path_spec(base@, seq!['t', 'h', 'a', 'l', 'o', 'r', 'a']), seq!['o', 'p', 'f', 's']),
            origin_slug_spec(origin@),
        ),
{
    proof {
        reveal_strlit("thalora");
        reveal_strlit("opfs");
        assert("thalora"@ =~= seq!['t', 'h', 'a', 'l', 'o', 'r', 'a']);
        assert("opfs"@ =~= seq!['o', 'p', 'f', 's']);
    }
    let a = join_path(base, "thalora");
    let b = join_path(a.as_str(), "opfs");
    let slug = origin_slug(origin);
    join_path(b.as_str(), slug.as_str())
}


/// Byte-wise lexicographic order: `a` comes before `b`. This is the order of
/// `str` in Rust.
pub open spec fn bytes_lt(a: Seq<u8>, b: Seq<u8>) -> bool
    decreases a.len(),
{
    if a.len() == 0 {
        b.len() > 0
    } else if b.len() == 0 {
        false
    } else if a[0] != b[0] {
        a[0] < b[0]
    } else {
        bytes_lt(a.drop_first(), b.drop_first())
    }
}

/// The name `a` sorts before the name `b`: their UTF-8 bytes compare so.
pub open spec fn name_before(a: Seq<char>, b: Seq<char>) -> bool {
    bytes_lt(encode_utf8(a), encode_utf8(b))
}

proof fn lemma_bytes_lt_transitive(a: Seq<u8>, b: Seq<u8>, c: Seq<u8>)
    requires
        bytes_lt(a, b),
        bytes_lt(b, c),
    ensures
        bytes_lt(a, c),
    decreases a.len(),
{
    if a.len() > 0 && b.len() > 0 && c.len() > 0 && a[0] == b[0] && b[0] == c[0] {
        lemma_bytes_lt_transitive(a.drop_first(), b.drop_first(), c.drop_first());
    }
}

proof fn lemma_bytes_lt_irreflexive(a: Seq<u8>)
    ensures
        !bytes_lt(a, a),
    decreases a.len(),
{
    if a.len() > 0 {
        lemma_bytes_lt_irreflexive(a.drop_first());
    }
}

proof fn lemma_bytes_lt_skip(a: Seq<u8>, b: Seq<u8>, i: int)
    requires
        0 <= i <= a.len(),
        i <= b.len(),
        a.take(i) == b.take(i),
    ensures
        bytes_lt(a, b) == bytes_lt(a.skip(i), b.skip(i)),
    decreases i,
{
    if i > 0 {
        assert(a[0] == a.take(i)[0]);
        assert(b[0] == b.take(i)[0]);
        assert(a.drop_first().take(i - 1) =~= a.take(i).drop_first());
        assert(b.drop_first().take(i - 1) =~= b.take(i).drop_first());
        lemma_bytes_lt_skip(a.drop_first(), b.drop_first(), i - 1);
        assert(a.drop_first().skip(i - 1) =~= a.skip(i));
        assert(b.drop_first().skip(i - 1) =~= b.skip(i));
    } else {
        assert(a.skip(0) =~= a);
        assert(b.skip(0) =~= b);
    }
}

/// Whether the name `a` sorts before the name `b`.
pub fn name_precedes(a: &str, b: &str) -> (r: bool)
    ensures
        r == name_before(a@, b@),
{
    let x = a.as_bytes();
    let y = b.as_bytes();
    let mut i: usize = 0;
    while i < x.len() && i < y.len() && x[i] == y[i]
        invariant
            x@ == encode_utf8(a@),
            y@ == encode_utf8(b@),
            i <= x@.len(),
            i <= y@.len(),
            x@.take(i as int) == y@.take(i as int),
        decreases x@.len() - i,
    {
        assert(x@.take(i + 1) =~= x@.take(i as int).push(x@[i as int]));
        assert(y@.take(i + 1) =~= y@.take(i as int).push(y@[i as int]));
        i = i + 1;
    }
    proof {
        lemma_bytes_lt_skip(x@, y@, i as int);
    }
    if i == x.len() {
        i < y.len()
    } else if i == y.len() {
        false
    } else {
        proof {
            assert(x@.skip(i as int)[0] == x@[i as int]);
            assert(y@.skip(i as int)[0] == y@[i as int]);
        }
        x[i] < y[i]
    }
}

/// One directory entry as read from disk: its name when it is valid UTF-8
/// (`None` otherwise), and whether it is a directory.
pub struct RawDirEntry {
    pub name: Option<String>,
    pub is_dir: bool,
}

/// The `(name, is_dir)` view of a snapshot entry.
pub open spec fn snapshot_view(e: DirEntrySnapshot) -> (Seq<char>, bool) {
    (e.name@, e.is_dir)
}

/// The entries of `raw` that have a name, in their order.
pub open spec fn named_entries(raw: Seq<RawDirEntry>) -> Seq<(Seq<char>, bool)>
    decreases raw.len(),
{
    if raw.len() == 0 {
        Seq::empty()
    } else {
        let rest = named_entries(raw.drop_last());
        match raw.last().name {
            Some(n) => rest.push((n@, raw.last().is_dir)),
            None => rest,
        }
    }
}

/// No entry sorts before an earlier one.
pub open spec fn sorted_by_name(s: Seq<(Seq<char>, bool)>) -> bool {
    forall|i: int, j: int| 0 <= i < j < s.len() ==> !name_before(#[trigger] s[j].0, #[trigger] s[i].0)
}

/// A directory listing: the entries whose names are valid UTF-8 (the others
/// are skipped), sorted by name.
pub fn dir_listing(raw: Vec<RawDirEntry>) -> (r: Vec<DirEntrySnapshot>)
    ensures
        sorted_by_name(r@.map_values(|e: DirEntrySnapshot| snapshot_view(e))),
        r@.map_values(|e: DirEntrySnapshot| snapshot_view(e)).to_multiset() == named_entries(raw@).to_multiset(),
{
    let mut out: Vec<DirEntrySnapshot> = Vec::new();
    let mut i: usize = 0;
    proof {
        assert(out@.map_values(|e: DirEntrySnapshot| snapshot_view(e)) =~= Seq::<(Seq<char>, bool)>::empty());
        assert(raw@.take(0) =~= Seq::<RawDirEntry>::empty());
        assert(named_entries(raw@.take(0)) =~= Seq::<(Seq<char>, bool)>::empty());
    }
    while i < raw.len()
        invariant
            i <= raw@.len(),
            sorted_by_name(out@.map_values(|e: DirEntrySnapshot| snapshot_view(e))),
            out@.map_values(|e: DirEntrySnapshot| snapshot_view(e)).to_multiset() == named_entries(
                raw@.take(i as int),
            ).to_multiset(),
        decreases raw@.len() - i,
    {
        proof {
            assert(raw@.take(i + 1).drop_last() =~= raw@.take(i as int));
            assert(raw@.take(i + 1).last() == raw@[i as int]);
        }
        match &raw[i].name {
            Some(n) => {
                let x = DirEntrySnapshot { name: n.clone(), is_dir: raw[i].is_dir };
                let ghost ov = out@.map_values(|e: DirEntrySnapshot| snapshot_view(e));
                let mut p: usize = 0;
                while p < out.len()
                    invariant
                        p <= out@.len(),
                        ov == out@.map_values(|e: DirEntrySnapshot| snapshot_view(e)),
                        forall|k: int| 0 <= k < p ==> !name_before(x.name@, #[trigger] ov[k].0),
                    ensures
                        p <= out@.len(),
                        forall|k: int| 0 <= k < p ==> !name_before(x.name@, #[trigger] ov[k].0),
                        p < out@.len() ==> name_before(x.name@, ov[p as int].0),
                    decreases out@.len() - p,
                {
                    if name_precedes(x.name.as_str(), out[p].name.as_str()) {
                        break;
                    }
                    p = p + 1;
                }
                let ghost xv = snapshot_view(x);
                out.insert(p, x);
                proof {
                    let nv = out@.map_values(|e: DirEntrySnapshot| snapshot_view(e));
                    assert(nv =~= ov.insert(p as int, xv));
                    to_multiset_insert(ov, p as int, xv);
                    assert forall|a: int, b: int| 0 <= a < b < nv.len() implies !name_before(
                        #[trigger] nv[b].0,
                        #[trigger] nv[a].0,
                    ) by {
                        if b < p {
                            assert(nv[a] == ov[a] && nv[b] == ov[b]);
                        } else if b == p {
                            assert(nv[a] == ov[a]);
                        } else if a == p {
                            assert(nv[b] == ov[b - 1]);
                            if name_before(ov[b - 1].0, xv.0) {
                                lemma_bytes_lt_transitive(
                                    encode_utf8(ov[b - 1].0),
                                    encode_utf8(xv.0),
                                    encode_utf8(ov[p as int].0),
                                );
                                if b - 1 > p {
                                    assert(!name_before(ov[b - 1].0, ov[p as int].0));
                                } else {
                                    lemma_bytes_lt_irreflexive(encode_utf8(ov[p as int].0));
                                }
                            }
                        } else if a < p {
                            assert(nv[a] == ov[a] && nv[b] == ov[b - 1]);
                        } else {
                            assert(nv[a] == ov[a - 1] && nv[b] == ov[b - 1]);
                        }
                    }
                    assert(named_entries(raw@.take(i + 1)) == named_entries(raw@.take(i as int)).push(xv));
                    to_multiset_build(named_entries(raw@.take(i as int)), xv);
                }
            },
            None => {
                proof {
                    assert(named_entries(raw@.take(i + 1)) == named_entries(raw@.take(i as int)));
                }
            },
        }
        i = i + 1;
    }
    proof {
        assert(raw@.take(raw@.len() as int) =~= raw@);
    }
    out
}

} // verus!
