//! WHATWG File System API: permission store and handles.
use vstd::prelude::*;

pub mod errors;
pub mod handles;
pub mod iterators;
pub mod opfs_backend;
pub mod sync_access;
pub mod writable_stream;
use crate::path::{normalize, normalize_path};
use crate::text::{str_eq, to_lowercase, unicode_lowercase};

verus! {

/// Permission state for file system access (W3C Permissions API states).
#[derive(Debug, Clone, Copy, PartialEq, Eq, Structural)]
pub enum PermissionState {
    /// Permission has been explicitly granted
    Granted,
    /// Permission has been explicitly denied
    Denied,
    /// Permission needs to be requested
    Prompt,
}

impl PermissionState {
    /// The JavaScript string for this state.
    pub open spec fn spec_str(self) -> Seq<char> {
        match self {
            PermissionState::Granted => seq!['g', 'r', 'a', 'n', 't', 'e', 'd'],
            PermissionState::Denied => seq!['d', 'e', 'n', 'i', 'e', 'd'],
            PermissionState::Prompt => seq!['p', 'r', 'o', 'm', 'p', 't'],
        }
    }

    /// Convert to the JavaScript string representation.
    pub fn as_str(&self) -> (s: &'static str)
        ensures
            s@ == self.spec_str(),
    {
        proof {
            reveal_strlit("granted");
            reveal_strlit("denied");
            reveal_strlit("prompt");
        }
        match self {
            PermissionState::Granted => "granted",
            PermissionState::Denied => "denied",
            PermissionState::Prompt => "prompt",
        }
    }
}

/// Permission mode for file system access.
#[derive(Debug, Clone, Copy, PartialEq, Eq, Structural)]
pub enum PermissionMode {
    /// Read-only access
    Read,
    /// Read and write access
    ReadWrite,
}

pub open spec fn readwrite_word(s: Seq<char>) -> bool {
    s == seq!['r', 'e', 'a', 'd', 'w', 'r', 'i', 't', 'e'] || s == seq![
        'r',
        'e',
        'a',
        'd',
        '-',
        'w',
        'r',
        'i',
        't',
        'e',
    ]
}

impl PermissionMode {
    /// Parse the `mode` of a permission descriptor: "readwrite" or "read-write"
    /// in any case give read-write access, anything else read access.
    pub fn from_str(s: &str) -> (m: Self)
        ensures
            m == (if readwrite_word(unicode_lowercase(s@)) {
                PermissionMode::ReadWrite
            } else {
                PermissionMode::Read
            }),
    {
        let lower = to_lowercase(s);
        proof {
            reveal_strlit("readwrite");
            reveal_strlit("read-write");
            assert("readwrite"@ =~= seq!['r', 'e', 'a', 'd', 'w', 'r', 'i', 't', 'e']);
            assert("read-write"@ =~= seq!['r', 'e', 'a', 'd', '-', 'w', 'r', 'i', 't', 'e']);
        }
        if str_eq(lower.as_str(), "readwrite") || str_eq(lower.as_str(), "read-write") {
            PermissionMode::ReadWrite
        } else {
            PermissionMode::Read
        }
    }
}

/// The mode a permission descriptor asks for: its `mode` property read as a
/// string, `read` when there is no descriptor, it is not an object, or the
/// property cannot be read.
pub fn parse_permission_mode(mode: Option<&str>) -> (m: PermissionMode)
    ensures
        m == match mode {
            Some(s) => if readwrite_word(unicode_lowercase(s@)) {
                PermissionMode::ReadWrite
            } else {
                PermissionMode::Read
            },
            None => PermissionMode::Read,
        },
{
    match mode {
        Some(s) => PermissionMode::from_str(s),
        None => PermissionMode::Read,
    }
}

/// Mathematical view of a permission entry.
pub struct PermissionView {
    pub origin: Seq<char>,
    pub path: Seq<char>,
    pub mode: PermissionMode,
    pub state: PermissionState,
    pub mcp_granted: bool,
}

/// A permission entry tracking access to a specific path.
#[derive(Debug)]
pub struct PermissionEntry {
    /// The origin (e.g., "https://example.com")
    pub origin: String,
    /// The normalised path being accessed
    pub path: String,
    /// Permission mode (read or readwrite)
    pub mode: PermissionMode,
    /// Current permission state
    pub state: PermissionState,
    /// Whether this permission was granted by the MCP client
    pub mcp_granted: bool,
}

impl View for PermissionEntry {
    type V = PermissionView;

    open spec fn view(&self) -> PermissionView {
        PermissionView {
            origin: self.origin@,
            path: self.path@,
            mode: self.mode,
            state: self.state,
            mcp_granted: self.mcp_granted,
        }
    }
}

impl PermissionEntry {
    /// A field-by-field copy.
    pub fn duplicate(&self) -> (r: Self)
        ensures
            r@ == self@,
    {
        PermissionEntry {
            origin: self.origin.clone(),
            path: self.path.clone(),
            mode: self.mode,
            state: self.state,
            mcp_granted: self.mcp_granted,
        }
    }
}

/// Whether an entry is stored under the key (origin, path, mode).
pub open spec fn has_key(e: PermissionView, origin: Seq<char>, path: Seq<char>, mode: PermissionMode) -> bool {
    e.origin == origin && e.path == path && e.mode == mode
}

/// At most one entry per key.
pub open spec fn keys_unique(v: Seq<PermissionView>) -> bool {
    forall|i: int, j: int|
        0 <= i < v.len() && 0 <= j < v.len() && i != j ==> !has_key(
            v[j],
            v[i].origin,
            v[i].path,
            v[i].mode,
        )
}

/// Every stored entry is a grant by the client under a normalised path.
pub open spec fn entries_valid(v: Seq<PermissionView>) -> bool {
    forall|i: int|
        0 <= i < v.len() ==> {
            &&& (#[trigger] v[i]).state == PermissionState::Granted
            &&& v[i].mcp_granted
            &&& normalize(v[i].path) == v[i].path
        }
}

/// The state stored under a key (`Denied` when nothing is stored).
pub open spec fn stored_state(
    v: Seq<PermissionView>,
    origin: Seq<char>,
    path: Seq<char>,
    mode: PermissionMode,
) -> PermissionState {
    if exists|i: int| 0 <= i < v.len() && has_key(v[i], origin, path, mode) {
        v[choose|i: int| 0 <= i < v.len() && has_key(v[i], origin, path, mode)].state
    } else {
        PermissionState::Denied
    }
}

proof fn lemma_stored_at(v: Seq<PermissionView>, i: int)
    requires
        keys_unique(v),
        0 <= i < v.len(),
    ensures
        stored_state(v, v[i].origin, v[i].path, v[i].mode) == v[i].state,
{
    let k = choose|k: int| 0 <= k < v.len() && has_key(v[k], v[i].origin, v[i].path, v[i].mode);
    assert(has_key(v[i], v[i].origin, v[i].path, v[i].mode));
    if k != i {
        assert(!has_key(v[k], v[i].origin, v[i].path, v[i].mode));
    }
}

/// Replacing the entry at `i` by one with the same key changes no other lookup.
proof fn lemma_stored_update(v: Seq<PermissionView>, i: int, e: PermissionView)
    requires
        keys_unique(v),
        0 <= i < v.len(),
        has_key(e, v[i].origin, v[i].path, v[i].mode),
    ensures
        keys_unique(v.update(i, e)),
        stored_state(v.update(i, e), e.origin, e.path, e.mode) == e.state,
        forall|o: Seq<char>, p: Seq<char>, m: PermissionMode|
            !(o == e.origin && p == e.path && m == e.mode) ==> #[trigger] stored_state(v.update(i, e), o, p, m)
                == stored_state(v, o, p, m),
{
    let w = v.update(i, e);
    assert(keys_unique(w)) by {
        assert forall|a: int, b: int| 0 <= a < w.len() && 0 <= b < w.len() && a != b
            implies !has_key(w[b], w[a].origin, w[a].path, w[a].mode) by {
            assert(!has_key(v[b], v[a].origin, v[a].path, v[a].mode));
        }
    }
    lemma_stored_at(w, i);
    assert forall|o: Seq<char>, p: Seq<char>, m: PermissionMode|
        !(o == e.origin && p == e.path && m == e.mode) implies #[trigger] stored_state(w, o, p, m)
            == stored_state(v, o, p, m) by {
        if exists|k: int| 0 <= k < v.len() && has_key(v[k], o, p, m) {
            let k = choose|k: int| 0 <= k < v.len() && has_key(v[k], o, p, m);
            lemma_stored_at(v, k);
            lemma_stored_at(w, k);
        } else {
            assert forall|k: int| 0 <= k < w.len() implies !has_key(w[k], o, p, m) by {
                if k != i {
                    assert(w[k] == v[k]);
                }
            }
        }
    }
}

/// Appending an entry with a fresh key changes no other lookup.
proof fn lemma_stored_push(v: Seq<PermissionView>, e: PermissionView)
    requires
        keys_unique(v),
        forall|k: int| 0 <= k < v.len() ==> !has_key(v[k], e.origin, e.path, e.mode),
    ensures
        keys_unique(v.push(e)),
        stored_state(v.push(e), e.origin, e.path, e.mode) == e.state,
        forall|o: Seq<char>, p: Seq<char>, m: PermissionMode|
            !(o == e.origin && p == e.path && m == e.mode) ==> #[trigger] stored_state(v.push(e), o, p, m)
                == stored_state(v, o, p, m),
{
    let w = v.push(e);
    let n = v.len() as int;
    assert(keys_unique(w)) by {
        assert forall|a: int, b: int| 0 <= a < w.len() && 0 <= b < w.len() && a != b
            implies !has_key(w[b], w[a].origin, w[a].path, w[a].mode) by {
            if a != n && b != n {
                assert(!has_key(v[b], v[a].origin, v[a].path, v[a].mode));
            } else if a == n {
                assert(!has_key(v[b], e.origin, e.path, e.mode));
            } else {
                assert(!has_key(v[a], e.origin, e.path, e.mode));
            }
        }
    }
    lemma_stored_at(w, n);
    assert forall|o: Seq<char>, p: Seq<char>, m: PermissionMode|
        !(o == e.origin && p == e.path && m == e.mode) implies #[trigger] stored_state(w, o, p, m)
            == stored_state(v, o, p, m) by {
        if exists|k: int| 0 <= k < v.len() && has_key(v[k], o, p, m) {
            let k = choose|k: int| 0 <= k < v.len() && has_key(v[k], o, p, m);
            lemma_stored_at(v, k);
            lemma_stored_at(w, k);
        } else {
            assert forall|k: int| 0 <= k < w.len() implies !has_key(w[k], o, p, m) by {
                if k != n {
                    assert(w[k] == v[k]);
                }
            }
        }
    }
}

/// The entry a grant stores.
pub open spec fn granted_entry(origin: Seq<char>, path: Seq<char>, mode: PermissionMode) -> PermissionView {
    PermissionView { origin, path, mode, state: PermissionState::Granted, mcp_granted: true }
}

/// The store after granting under a key: the entry replaces the one stored under
/// the key, or is appended.
pub open spec fn grant_spec(v: Seq<PermissionView>, origin: Seq<char>, path: Seq<char>, mode: PermissionMode) -> Seq<
    PermissionView,
> {
    if exists|i: int| 0 <= i < v.len() && has_key(v[i], origin, path, mode) {
        v.update(
            choose|i: int| 0 <= i < v.len() && has_key(v[i], origin, path, mode),
            granted_entry(origin, path, mode),
        )
    } else {
        v.push(granted_entry(origin, path, mode))
    }
}

/// The store after revoking under a key: the entry stored there is dropped.
pub open spec fn revoke_spec(v: Seq<PermissionView>, origin: Seq<char>, path: Seq<char>, mode: PermissionMode) -> Seq<
    PermissionView,
> {
    if exists|i: int| 0 <= i < v.len() && has_key(v[i], origin, path, mode) {
        v.remove(choose|i: int| 0 <= i < v.len() && has_key(v[i], origin, path, mode))
    } else {
        v
    }
}

/// The store after clearing an origin.
pub open spec fn clear_origin_spec(v: Seq<PermissionView>, origin: Seq<char>) -> Seq<PermissionView> {
    v.filter(|e: PermissionView| e.origin != origin)
}

/// Removing the entry at `i` makes its key absent and changes no other lookup.
proof fn lemma_stored_remove(v: Seq<PermissionView>, i: int)
    requires
        keys_unique(v),
        0 <= i < v.len(),
    ensures
        keys_unique(v.remove(i)),
        stored_state(v.remove(i), v[i].origin, v[i].path, v[i].mode) == PermissionState::Denied,
        forall|o: Seq<char>, p: Seq<char>, m: PermissionMode|
            !(o == v[i].origin && p == v[i].path && m == v[i].mode) ==> #[trigger] stored_state(v.remove(i), o, p, m)
                == stored_state(v, o, p, m),
{
    let w = v.remove(i);
    let idx = |k: int| if k < i { k } else { k + 1 };
    assert forall|k: int| 0 <= k < w.len() implies #[trigger] w[k] == v[idx(k)] by {}
    assert(keys_unique(w)) by {
        assert forall|a: int, b: int| 0 <= a < w.len() && 0 <= b < w.len() && a != b
            implies !has_key(w[b], w[a].origin, w[a].path, w[a].mode) by {
            assert(w[a] == v[idx(a)]);
            assert(w[b] == v[idx(b)]);
            assert(!has_key(v[idx(b)], v[idx(a)].origin, v[idx(a)].path, v[idx(a)].mode));
        }
    }
    assert forall|k: int| 0 <= k < w.len() implies !has_key(w[k], v[i].origin, v[i].path, v[i].mode) by {
        assert(w[k] == v[idx(k)]);
        assert(!has_key(v[idx(k)], v[i].origin, v[i].path, v[i].mode));
    }
    assert forall|o: Seq<char>, p: Seq<char>, m: PermissionMode|
        !(o == v[i].origin && p == v[i].path && m == v[i].mode) implies #[trigger] stored_state(w, o, p, m)
            == stored_state(v, o, p, m) by {
        if exists|k: int| 0 <= k < v.len() && has_key(v[k], o, p, m) {
            let k = choose|k: int| 0 <= k < v.len() && has_key(v[k], o, p, m);
            lemma_stored_at(v, k);
            assert(k != i);
            let kk = if k < i { k } else { k - 1 };
            assert(w[kk] == v[k]);
            lemma_stored_at(w, kk);
        } else {
            assert forall|k: int| 0 <= k < w.len() implies !has_key(w[k], o, p, m) by {
                assert(w[k] == v[idx(k)]);
            }
        }
    }
}

/// After granting under a key, the store answers `Granted` for it.
pub proof fn law_grant_then_query(v: Seq<PermissionView>, origin: Seq<char>, path: Seq<char>, mode: PermissionMode)
    requires
        keys_unique(v),
    ensures
        keys_unique(grant_spec(v, origin, path, mode)),
        stored_state(grant_spec(v, origin, path, mode), origin, path, mode) == PermissionState::Granted,
{
    if exists|i: int| 0 <= i < v.len() && has_key(v[i], origin, path, mode) {
        let i = choose|i: int| 0 <= i < v.len() && has_key(v[i], origin, path, mode);
        lemma_stored_update(v, i, granted_entry(origin, path, mode));
    } else {
        lemma_stored_push(v, granted_entry(origin, path, mode));
    }
}

/// Granting under a key leaves every other key's answer unchanged.
pub proof fn law_grant_keeps_other_keys(
    v: Seq<PermissionView>,
    origin: Seq<char>,
    path: Seq<char>,
    mode: PermissionMode,
    o: Seq<char>,
    p: Seq<char>,
    m: PermissionMode,
)
    requires
        keys_unique(v),
        !(o == origin && p == path && m == mode),
    ensures
        stored_state(grant_spec(v, origin, path, mode), o, p, m) == stored_state(v, o, p, m),
{
    if exists|i: int| 0 <= i < v.len() && has_key(v[i], origin, path, mode) {
        let i = choose|i: int| 0 <= i < v.len() && has_key(v[i], origin, path, mode);
        lemma_stored_update(v, i, granted_entry(origin, path, mode));
    } else {
        lemma_stored_push(v, granted_entry(origin, path, mode));
    }
}

/// After revoking under a key, the store answers `Denied` for it, and every other
/// key's answer is unchanged.
pub proof fn law_revoke_then_query(
    v: Seq<PermissionView>,
    origin: Seq<char>,
    path: Seq<char>,
    mode: PermissionMode,
    o: Seq<char>,
    p: Seq<char>,
    m: PermissionMode,
)
    requires
        keys_unique(v),
    ensures
        keys_unique(revoke_spec(v, origin, path, mode)),
        stored_state(revoke_spec(v, origin, path, mode), origin, path, mode) == PermissionState::Denied,
        !(o == origin && p == path && m == mode) ==> stored_state(revoke_spec(v, origin, path, mode), o, p, m)
            == stored_state(v, o, p, m),
{
    if exists|i: int| 0 <= i < v.len() && has_key(v[i], origin, path, mode) {
        let i = choose|i: int| 0 <= i < v.len() && has_key(v[i], origin, path, mode);
        lemma_stored_remove(v, i);
    }
}

/// Revoking a permission that was just granted, on a key that held nothing
/// before, gives back the store as it was.
pub proof fn law_revoke_undoes_fresh_grant(v: Seq<PermissionView>, origin: Seq<char>, path: Seq<char>, mode: PermissionMode)
    requires
        keys_unique(v),
        forall|i: int| 0 <= i < v.len() ==> !has_key(v[i], origin, path, mode),
    ensures
        revoke_spec(grant_spec(v, origin, path, mode), origin, path, mode) == v,
{
    let w = grant_spec(v, origin, path, mode);
    assert(w == v.push(granted_entry(origin, path, mode)));
    let n = v.len() as int;
    assert(has_key(w[n], origin, path, mode));
    let k = choose|k: int| 0 <= k < w.len() && has_key(w[k], origin, path, mode);
    if k != n {
        assert(w[k] == v[k]);
    }
    assert(k == n);
    assert(w.remove(n) =~= v);
}

/// The answer for a path is the answer for its normalised form.
pub proof fn law_query_sees_normalized_path(perms: &FileSystemPermissions, origin: Seq<char>, path: Seq<char>, mode: PermissionMode)
    ensures
        perms.state_of(origin, path, mode) == perms.state_of(origin, normalize(path), mode),
{
    crate::path::law_normalize_idempotent(path);
}

/// Clearing an origin keeps the remaining entries valid.
proof fn lemma_filter_keeps_valid(v: Seq<PermissionView>, origin: Seq<char>)
    requires
        entries_valid(v),
    ensures
        entries_valid(clear_origin_spec(v, origin)),
{
    let w = clear_origin_spec(v, origin);
    assert forall|i: int| 0 <= i < w.len() implies (#[trigger] w[i]).state == PermissionState::Granted
        && w[i].mcp_granted && normalize(w[i].path) == w[i].path by {
        assert(w.contains(w[i]));
        v.lemma_filter_contains_rev(|e: PermissionView| e.origin != origin, w[i]);
        let k = choose|k: int| 0 <= k < v.len() && v[k] == w[i];
        assert(v[k] == w[i]);
    }
}

/// Keeping the granted entries of a store whose entries are all grants keeps
/// them all.
proof fn lemma_filter_all_granted(v: Seq<PermissionView>)
    requires
        entries_valid(v),
    ensures
        v.filter(|e: PermissionView| e.state == PermissionState::Granted) == v,
    decreases v.len(),
{
    reveal_with_fuel(Seq::<_>::filter, 1);
    if v.len() > 0 {
        let d = v.drop_last();
        assert(entries_valid(d)) by {
            assert forall|i: int| 0 <= i < d.len() implies (#[trigger] d[i]).state == PermissionState::Granted
                && d[i].mcp_granted && normalize(d[i].path) == d[i].path by {
                assert(d[i] == v[i]);
            }
        }
        lemma_filter_all_granted(d);
        assert(v.last().state == PermissionState::Granted);
        assert(d.push(v.last()) =~= v);
    }
}

/// A store of grants answers only `Granted` (when an entry is stored under the
/// key) or `Denied` (when none is); it never answers `Prompt`.
pub proof fn law_query_never_prompt(v: Seq<PermissionView>, origin: Seq<char>, path: Seq<char>, mode: PermissionMode)
    requires
        keys_unique(v),
        entries_valid(v),
    ensures
        stored_state(v, origin, path, mode) != PermissionState::Prompt,
        stored_state(v, origin, path, mode) == PermissionState::Granted <==> exists|i: int|
            0 <= i < v.len() && has_key(v[i], origin, path, mode),
{
    if exists|i: int| 0 <= i < v.len() && has_key(v[i], origin, path, mode) {
        let i = choose|i: int| 0 <= i < v.len() && has_key(v[i], origin, path, mode);
        assert(v[i].state == PermissionState::Granted);
    }
}

/// After clearing an origin, nothing is granted to it, no entry of it is
/// left, and every other origin's answers are unchanged.
pub proof fn law_clear_origin(
    v: Seq<PermissionView>,
    origin: Seq<char>,
    other: Seq<char>,
    path: Seq<char>,
    mode: PermissionMode,
)
    requires
        keys_unique(v),
    ensures
        stored_state(clear_origin_spec(v, origin), origin, path, mode) == PermissionState::Denied,
        other != origin ==> stored_state(clear_origin_spec(v, origin), other, path, mode) == stored_state(
            v,
            other,
            path,
            mode,
        ),
        forall|i: int|
            0 <= i < clear_origin_spec(v, origin).len() ==> (#[trigger] clear_origin_spec(v, origin)[i]).origin
                != origin,
{
    let pred = |e: PermissionView| e.origin != origin;
    let w = v.filter(pred);
    v.filter_lemma(pred);
    assert(w == clear_origin_spec(v, origin));
    assert forall|i: int| 0 <= i < w.len() implies (#[trigger] w[i]).origin != origin by {
        assert(pred(w[i]));
    }
    assert(!exists|i: int| 0 <= i < w.len() && has_key(w[i], origin, path, mode));
    if other != origin {
        if exists|k: int| 0 <= k < v.len() && has_key(v[k], other, path, mode) {
            let k = choose|k: int| 0 <= k < v.len() && has_key(v[k], other, path, mode);
            lemma_stored_at(v, k);
            assert(pred(v[k]));
            assert(w.contains(v[k]));
            let j = choose|j: int| 0 <= j < w.len() && w[j] == v[k];
            assert(has_key(w[j], other, path, mode));
            let jj = choose|jj: int| 0 <= jj < w.len() && has_key(w[jj], other, path, mode);
            assert(w.contains(w[jj]));
            v.lemma_filter_contains_rev(pred, w[jj]);
            let kk = choose|kk: int| 0 <= kk < v.len() && v[kk] == w[jj];
            if kk != k {
                assert(!has_key(v[kk], v[k].origin, v[k].path, v[k].mode));
            }
        } else {
            assert forall|j: int| 0 <= j < w.len() implies !has_key(w[j], other, path, mode) by {
                assert(w.contains(w[j]));
                v.lemma_filter_contains_rev(pred, w[j]);
                let kk = choose|kk: int| 0 <= kk < v.len() && v[kk] == w[j];
            }
        }
    }
}

/// The permission store: (origin, normalised path, mode) to permission entry.
#[derive(Debug)]
pub struct FileSystemPermissions {
    permissions: Vec<PermissionEntry>,
}

impl View for FileSystemPermissions {
    type V = Seq<PermissionView>;

    closed spec fn view(&self) -> Seq<PermissionView> {
        self.permissions@.map_values(|e: PermissionEntry| e@)
    }
}

impl FileSystemPermissions {
    pub open spec fn wf(&self) -> bool {
        keys_unique(self@) && entries_valid(self@)
    }

    /// The state the store answers for `path` (normalised first).
    pub open spec fn state_of(&self, origin: Seq<char>, path: Seq<char>, mode: PermissionMode) -> PermissionState {
        stored_state(self@, origin, normalize(path), mode)
    }

    /// The key form of a path: `.` dropped, `..` resolved lexically.
    pub fn normalize_path(path: &str) -> (r: String)
        ensures
            r@ == normalize(path@),
    {
        crate::path::normalize_path(path)
    }

    pub fn new() -> (s: Self)
        ensures
            s.wf(),
            s@ == Seq::<PermissionView>::empty(),
    {
        let s = FileSystemPermissions { permissions: Vec::new() };
        assert(s@ =~= Seq::<PermissionView>::empty());
        s
    }

    fn find(&self, origin: &str, path: &str, mode: PermissionMode) -> (r: Option<usize>)
        ensures
            match r {
                Some(i) => i < self@.len() && has_key(self@[i as int], origin@, path@, mode),
                None => forall|i: int| 0 <= i < self@.len() ==> !has_key(self@[i], origin@, path@, mode),
            },
    {
        let mut i: usize = 0;
        while i < self.permissions.len()
            invariant
                i <= self.permissions@.len(),
                self@ == self.permissions@.map_values(|e: PermissionEntry| e@),
                forall|j: int| 0 <= j < i ==> !has_key(self@[j], origin@, path@, mode),
            decreases self.permissions@.len() - i,
        {
            let e = &self.permissions[i];
            if e.mode == mode && str_eq(e.origin.as_str(), origin) && str_eq(e.path.as_str(), path) {
                return Some(i);
            }
            i = i + 1;
        }
        None
    }

    /// The permission state for (origin, path, mode); `Denied` when none is stored.
    pub fn query(&self, origin: &str, path: &str, mode: PermissionMode) -> (st: PermissionState)
        requires
            self.wf(),
        ensures
            st == self.state_of(origin@, path@, mode),
    {
        let normalized = normalize_path(path);
        match self.find(origin, normalized.as_str(), mode) {
            Some(i) => {
                proof {
                    lemma_stored_at(self@, i as int);
                }
                self.permissions[i].state
            },
            None => PermissionState::Denied,
        }
    }

    /// Requesting a permission answers what is stored; nothing is prompted.
    pub fn request(&self, origin: &str, path: &str, mode: PermissionMode) -> (st: PermissionState)
        requires
            self.wf(),
        ensures
            st == self.state_of(origin@, path@, mode),
    {
        self.query(origin, path, mode)
    }

    /// Store a granted entry (granted by the MCP client) under the key,
    /// replacing any entry stored there.
    pub fn grant_permission(&mut self, origin: &str, path: &str, mode: PermissionMode)
        requires
            old(self).wf(),
        ensures
            final(self).wf(),
            final(self)@ == grant_spec(old(self)@, origin@, normalize(path@), mode),
    {
        let normalized = normalize_path(path);
        let ghost key_path = normalized@;
        let entry = PermissionEntry {
            origin: String::from_str(origin),
            path: normalized,
            mode,
            state: PermissionState::Granted,
            mcp_granted: true,
        };
        let ghost ev = entry@;
        let ghost old_v = self@;
        match self.find(origin, entry.path.as_str(), mode) {
            Some(i) => {
                self.permissions.set(i, entry);
                assert(self@ =~= old_v.update(i as int, ev));
                proof {
                    crate::path::law_normalize_idempotent(path@);
                    assert(entries_valid(self@)) by {
                        assert forall|k: int| 0 <= k < self@.len() implies (#[trigger] self@[k]).state
                            == PermissionState::Granted && self@[k].mcp_granted && normalize(self@[k].path)
                            == self@[k].path by {
                            if k != i as int {
                                assert(self@[k] == old_v[k]);
                            }
                        }
                    }
                    lemma_stored_update(old_v, i as int, ev);
                    let k = choose|k: int| 0 <= k < old_v.len() && has_key(old_v[k], origin@, key_path, mode);
                    if k != i as int {
                        assert(!has_key(old_v[k], old_v[i as int].origin, old_v[i as int].path, old_v[i as int].mode));
                    }
                }
            },
            None => {
                self.permissions.push(entry);
                assert(self@ =~= old_v.push(ev));
                proof {
                    crate::path::law_normalize_idempotent(path@);
                    assert(entries_valid(self@)) by {
                        assert forall|k: int| 0 <= k < self@.len() implies (#[trigger] self@[k]).state
                            == PermissionState::Granted && self@[k].mcp_granted && normalize(self@[k].path)
                            == self@[k].path by {
                            if k < old_v.len() {
                                assert(self@[k] == old_v[k]);
                            }
                        }
                    }
                    lemma_stored_push(old_v, ev);
                }
            },
        }
    }

    /// Drop the entry stored under (origin, normalised path, mode), if any.
    pub fn revoke_permission(&mut self, origin: &str, path: &str, mode: PermissionMode)
        requires
            old(self).wf(),
        ensures
            final(self).wf(),
            final(self)@ == revoke_spec(old(self)@, origin@, normalize(path@), mode),
    {
        let normalized = normalize_path(path);
        let ghost old_v = self@;
        match self.find(origin, normalized.as_str(), mode) {
            Some(i) => {
                self.permissions.remove(i);
                assert(self@ =~= old_v.remove(i as int));
                proof {
                    assert(entries_valid(self@)) by {
                        assert forall|k: int| 0 <= k < self@.len() implies (#[trigger] self@[k]).state
                            == PermissionState::Granted && self@[k].mcp_granted && normalize(self@[k].path)
                            == self@[k].path by {
                            if k < i as int {
                                assert(self@[k] == old_v[k]);
                            } else {
                                assert(self@[k] == old_v[k + 1]);
                            }
                        }
                    }
                    lemma_stored_remove(old_v, i as int);
                    let k = choose|k: int| 0 <= k < old_v.len() && has_key(old_v[k], origin@, normalized@, mode);
                    if k != i as int {
                        assert(!has_key(old_v[k], old_v[i as int].origin, old_v[i as int].path, old_v[i as int].mode));
                    }
                }
            },
            None => {},
        }
    }

    /// Drop every entry.
    pub fn clear_all(&mut self)
        ensures
            final(self).wf(),
            final(self)@ == Seq::<PermissionView>::empty(),
    {
        self.permissions = Vec::new();
        assert(self@ =~= Seq::<PermissionView>::empty());
    }

    /// Drop every entry of an origin.
    pub fn clear_origin(&mut self, origin: &str)
        requires
            old(self).wf(),
        ensures
            final(self).wf(),
            final(self)@ == clear_origin_spec(old(self)@, origin@),
    {
        let ghost old_v = self@;
        let mut kept: Vec<PermissionEntry> = Vec::new();
        let mut old_entries = Vec::new();
        std::mem::swap(&mut old_entries, &mut self.permissions);
        assert(old_entries@.map_values(|e: PermissionEntry| e@) == old_v);
        let ghost pred = |e: PermissionView| e.origin != origin@;
        let mut j: usize = 0;
        while j < old_entries.len()
            invariant
                j <= old_entries@.len(),
                old_v == old_entries@.map_values(|e: PermissionEntry| e@),
                keys_unique(old_v),
                kept@.map_values(|e: PermissionEntry| e@) == clear_origin_spec(old_v.take(j as int), origin@),
                keys_unique(kept@.map_values(|e: PermissionEntry| e@)),
                forall|a: int| 0 <= a < kept@.len() ==> exists|k: int| 0 <= k < j && #[trigger] kept@[a]@ == old_v[k],
            decreases old_entries@.len() - j,
        {
            let e = &old_entries[j];
            let ghost kv = kept@.map_values(|e: PermissionEntry| e@);
            proof {
                reveal_with_fuel(Seq::<_>::filter, 1);
                assert(old_v.take(j + 1).drop_last() =~= old_v.take(j as int));
                assert(old_v.take(j + 1).last() == old_v[j as int]);
            }
            if !str_eq(e.origin.as_str(), origin) {
                let d = e.duplicate();
                let ghost kept_before = kept@;
                kept.push(d);
                proof {
                    assert(kept@.map_values(|e: PermissionEntry| e@) =~= kv.push(old_v[j as int]));
                    let nv = kept@.map_values(|e: PermissionEntry| e@);
                    assert forall|a: int, b: int| 0 <= a < nv.len() && 0 <= b < nv.len() && a != b
                        implies !has_key(nv[b], nv[a].origin, nv[a].path, nv[a].mode) by {
                        if a < kv.len() && b < kv.len() {
                            assert(nv[a] == kv[a] && nv[b] == kv[b]);
                        } else if a == kv.len() {
                            assert(kept_before[b]@ == kv[b]);
                            let k = choose|k: int| 0 <= k < j && kept_before[b]@ == old_v[k];
                            assert(!has_key(old_v[k], old_v[j as int].origin, old_v[j as int].path, old_v[j as int].mode));
                        } else {
                            assert(kept_before[a]@ == kv[a]);
                            let k = choose|k: int| 0 <= k < j && kept_before[a]@ == old_v[k];
                            assert(!has_key(old_v[j as int], old_v[k].origin, old_v[k].path, old_v[k].mode));
                        }
                    }
                    assert forall|a: int| 0 <= a < kept@.len() implies exists|k: int| 0 <= k < j + 1 && #[trigger] kept@[a]@ == old_v[k] by {
                        if a < kv.len() {
                            assert(kept@[a] == kept_before[a]);
                            let k = choose|k: int| 0 <= k < j && kept_before[a]@ == old_v[k];
                        } else {
                            assert(kept@[a]@ == old_v[j as int]);
                        }
                    }
                }
            }
            j = j + 1;
        }
        assert(old_v.take(old_entries@.len() as int) =~= old_v);
        self.permissions = kept;
        proof {
            lemma_filter_keeps_valid(old_v, origin@);
        }
    }

    /// The stored entries whose state is `Granted`.
    pub fn list_granted(&self) -> (r: Vec<PermissionEntry>)
        ensures
            r@.map_values(|e: PermissionEntry| e@) == self@.filter(
                |e: PermissionView| e.state == PermissionState::Granted,
            ),
            self.wf() ==> r@.map_values(|e: PermissionEntry| e@) == self@,
    {
        let ghost v = self@;
        let mut out: Vec<PermissionEntry> = Vec::new();
        let mut j: usize = 0;
        while j < self.permissions.len()
            invariant
                j <= self.permissions@.len(),
                v == self.permissions@.map_values(|e: PermissionEntry| e@),
                out@.map_values(|e: PermissionEntry| e@) == v.take(j as int).filter(
                    |e: PermissionView| e.state == PermissionState::Granted,
                ),
            decreases self.permissions@.len() - j,
        {
            let e = &self.permissions[j];
            proof {
                reveal_with_fuel(Seq::<_>::filter, 1);
                assert(v.take(j + 1).drop_last() =~= v.take(j as int));
                assert(v.take(j + 1).last() == v[j as int]);
            }
            if e.state == PermissionState::Granted {
                let ghost ov = out@.map_values(|e: PermissionEntry| e@);
                out.push(e.duplicate());
                assert(out@.map_values(|e: PermissionEntry| e@) =~= ov.push(v[j as int]));
            }
            j = j + 1;
        }
        assert(v.take(self.permissions@.len() as int) =~= v);
        proof {
            if self.wf() {
                lemma_filter_all_granted(v);
            }
        }
        out
    }
}

} // verus!
