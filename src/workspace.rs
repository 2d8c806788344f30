//! The per-request workspace: a directory named by a fresh request id under a
//! configured root, and the paths and engine arguments that live inside it.

use vstd::prelude::*;
use crate::filename::{sanitize_filename, sanitized, is_plain_name, lemma_sanitized_is_plain};

verus! {

/// Where workspaces are made unless another root is configured.
pub const DEFAULT_ROOT: &'static str = "/tmp/convert";

/// The external rendering engine's program name.
pub const ENGINE_PROGRAM: &'static str = "libreoffice";

/// A lowercase hexadecimal digit.
pub open spec fn is_lower_hex(c: char) -> bool {
    ('0' <= c && c <= '9') || ('a' <= c && c <= 'f')
}

/// The hyphenated text form of a UUID: 36 characters, dashes at positions 8,
/// 13, 18 and 23, and lowercase hexadecimal digits elsewhere.
pub open spec fn is_hyphenated_uuid(s: Seq<char>) -> bool {
    &&& s.len() == 36
    &&& forall|i: int|
        0 <= i < 36 ==> if i == 8 || i == 13 || i == 18 || i == 23 {
            s[i] == '-'
        } else {
            is_lower_hex(#[trigger] s[i])
        }
}

/// Relies on uuid::Uuid::new_v4 for a random id, and on its `Display`, which
/// writes the hyphenated lowercase form.
#[verifier::external_body]
fn new_uuid_text() -> (r: String)
    ensures
        is_hyphenated_uuid(r@),
{
    uuid::Uuid::new_v4().to_string()
}

/// A request id that can name a directory: it is a plain name.
pub open spec fn is_valid_id(id: Seq<char>) -> bool {
    is_plain_name(id)
}

/// The directory of the workspace `id` under `root`.
pub open spec fn dir_of(root: Seq<char>, id: Seq<char>) -> Seq<char> {
    root + seq!['/'] + id
}

/// The path of the entry `name` in the directory `dir`.
pub open spec fn entry_of(dir: Seq<char>, name: Seq<char>) -> Seq<char> {
    dir + seq!['/'] + name
}

/// Whether `path` is the directory `dir` or lies below it.
pub open spec fn is_within(path: Seq<char>, dir: Seq<char>) -> bool {
    path == dir || (path.len() > dir.len() && path.subrange(0, dir.len() as int) == dir
        && path[dir.len() as int] == '/')
}

/// The engine profile directory of the workspace whose directory is `dir`.
pub open spec fn profile_dir_of(dir: Seq<char>) -> Seq<char> {
    entry_of(dir, "user"@)
}

/// The engine argument that points its user profile at `dir`'s profile directory.
pub open spec fn profile_arg_of(dir: Seq<char>) -> Seq<char> {
    "-env:UserInstallation=file://"@ + profile_dir_of(dir)
}

/// The engine's arguments that convert `input` to PDF into `dir`, headless,
/// with the profile of `dir`.
pub open spec fn engine_args_of(dir: Seq<char>, input: Seq<char>) -> Seq<Seq<char>> {
    seq![
        "--headless"@,
        "--nodefault"@,
        "--nofirststartwizard"@,
        "--nolockcheck"@,
        "--nologo"@,
        "--norestore"@,
        "--convert-to"@,
        "pdf"@,
        "--outdir"@,
        dir,
        profile_arg_of(dir),
        input,
    ]
}

/// The directory of one request, identified by a request id of its own.
pub struct Workspace {
    root: String,
    id: String,
}

impl Workspace {
    /// The configured root under which the workspace lies.
    pub closed spec fn root_view(&self) -> Seq<char> {
        self.root@
    }

    /// The request id that names the workspace.
    pub closed spec fn id_view(&self) -> Seq<char> {
        self.id@
    }

    /// The workspace directory.
    pub open spec fn dir_view(&self) -> Seq<char> {
        dir_of(self.root_view(), self.id_view())
    }

    /// The id names one directory entry under the root.
    pub open spec fn wf(&self) -> bool {
        is_valid_id(self.id_view())
    }

    /// A workspace under `root`, named by a freshly drawn random request id.
    pub fn create(root: &str) -> (r: Workspace)
        ensures
            r.wf(),
            r.root_view() == root@,
            is_hyphenated_uuid(r.id_view()),
    {
        let id = new_uuid_text();
        assert(id@[0] != '/' && id@.len() == 36);
        assert forall|k: int| 0 <= k < id@.len() implies id@[k] != '/' by {
            assert(k == 8 || k == 13 || k == 18 || k == 23 || is_lower_hex(id@[k]));
        }
        Workspace { root: String::from_str(root), id }
    }

    /// The workspace under `root` named by `id`, where `id` can name one
    /// directory entry.
    pub fn with_id(root: &str, id: &str) -> (r: Option<Workspace>)
        ensures
            r is Some <==> is_valid_id(id@),
            r matches Some(w) ==> w.wf() && w.root_view() == root@ && w.id_view() == id@,
    {
        let n = id.unicode_len();
        if n == 0 {
            return None;
        }
        let mut i: usize = 0;
        while i < n
            invariant
                i <= n,
                n == id@.len(),
                forall|k: int| 0 <= k < i ==> id@[k] != '/',
            decreases n - i,
        {
            if id.get_char(i) == '/' {
                return None;
            }
            i = i + 1;
        }
        let first_dot = id.get_char(0) == '.';
        if (n == 1 && first_dot) || (n == 2 && first_dot && id.get_char(1) == '.') {
            proof {
                if n == 1 {
                    assert(id@ =~= seq!['.']);
                } else {
                    assert(id@ =~= seq!['.', '.']);
                }
            }
            return None;
        }
        proof {
            if id@ == seq!['.'] || id@ == seq!['.', '.'] {
                assert(id@[0] == '.');
            }
            if id@ == seq!['.', '.'] {
                assert(id@[1] == '.');
            }
        }
        Some(Workspace { root: String::from_str(root), id: String::from_str(id) })
    }

    /// The request id.
    pub fn id(&self) -> (r: String)
        ensures
            r@ == self.id_view(),
    {
        self.id.clone()
    }

    /// The workspace directory: the root joined with the request id.
    pub fn dir(&self) -> (r: String)
        ensures
            r@ == self.dir_view(),
    {
        let mut out = self.root.clone();
        out.append("/");
        out.append(self.id.as_str());
        proof {
            reveal_strlit("/");
            assert("/"@ =~= seq!['/']);
        }
        out
    }

    /// Where an upload that the client named `raw_name` is stored.
    pub fn input_path(&self, raw_name: &str) -> (r: String)
        ensures
            r@ == entry_of(self.dir_view(), sanitized(raw_name@)),
    {
        let mut out = self.dir();
        out.append("/");
        let name = sanitize_filename(raw_name);
        out.append(name.as_str());
        proof {
            reveal_strlit("/");
            assert("/"@ =~= seq!['/']);
        }
        out
    }

    /// The engine argument that gives it a profile of its own inside the workspace.
    pub fn profile_arg(&self) -> (r: String)
        ensures
            r@ == profile_arg_of(self.dir_view()),
    {
        let mut out = String::from_str("-env:UserInstallation=file://");
        let dir = self.dir();
        out.append(dir.as_str());
        out.append("/user");
        proof {
            reveal_strlit("/user");
            reveal_strlit("user");
            assert("/user"@ =~= seq!['/'] + "user"@);
        }
        out
    }

    /// The arguments that run the engine on `input`: headless, with no first-run
    /// wizard, lock check, logo or session restore, converting to PDF into the
    /// workspace, with the workspace's own profile.
    pub fn engine_args(&self, input: &str) -> (r: Vec<String>)
        ensures
            r@.map_values(|s: String| s@) == engine_args_of(self.dir_view(), input@),
    {
        let mut v: Vec<String> = Vec::new();
        v.push(String::from_str("--headless"));
        v.push(String::from_str("--nodefault"));
        v.push(String::from_str("--nofirststartwizard"));
        v.push(String::from_str("--nolockcheck"));
        v.push(String::from_str("--nologo"));
        v.push(String::from_str("--norestore"));
        v.push(String::from_str("--convert-to"));
        v.push(String::from_str("pdf"));
        v.push(String::from_str("--outdir"));
        v.push(self.dir());
        v.push(self.profile_arg());
        v.push(String::from_str(input));
        assert(v@.map_values(|s: String| s@) =~= engine_args_of(self.dir_view(), input@));
        v
    }
}

/// Every character of `p` up to the length of `dir` agrees with `dir`, when
/// `p` lies within `dir`.
proof fn lemma_within_agrees(p: Seq<char>, dir: Seq<char>)
    requires
        is_within(p, dir),
    ensures
        dir.len() <= p.len(),
        forall|k: int| 0 <= k < dir.len() ==> p[k] == dir[k],
{
    if p != dir {
        assert forall|k: int| 0 <= k < dir.len() implies p[k] == dir[k] by {
            assert(p.subrange(0, dir.len() as int)[k] == p[k]);
        }
    }
}

proof fn lemma_within_shorter_id_not_longer(root: Seq<char>, a: Seq<char>, b: Seq<char>, p: Seq<char>)
    requires
        is_valid_id(a),
        is_valid_id(b),
        a != b,
        a.len() <= b.len(),
        is_within(p, dir_of(root, a)),
    ensures
        !is_within(p, dir_of(root, b)),
{
    let da = dir_of(root, a);
    let db = dir_of(root, b);
    let start = root.len() + 1;
    lemma_within_agrees(p, da);
    if !is_within(p, db) {
    } else if a.len() == b.len() {
        lemma_within_agrees(p, db);
        assert forall|k: int| 0 <= k < a.len() implies a[k] == b[k] by {
            assert(da[start + k] == a[k]);
            assert(db[start + k] == b[k]);
        }
        assert(a =~= b);
    } else {
        lemma_within_agrees(p, db);
        assert(p != da);
        assert(p[da.len() as int] == '/');
        assert(db[da.len() as int] == b[a.len() as int]);
    }
}

/// Two requests with different ids have disjoint workspaces: nothing lies
/// within both directories. Each request's upload and engine profile lie
/// within its own directory, whatever name the client sent.
pub proof fn lemma_workspaces_isolated(root: Seq<char>, a: Seq<char>, b: Seq<char>, raw_name: Seq<char>)
    requires
        is_valid_id(a),
        is_valid_id(b),
        a != b,
    ensures
        forall|p: Seq<char>| is_within(p, dir_of(root, a)) ==> !is_within(p, dir_of(root, b)),
        is_within(entry_of(dir_of(root, a), sanitized(raw_name)), dir_of(root, a)),
        is_within(profile_dir_of(dir_of(root, a)), dir_of(root, a)),
{
    assert forall|p: Seq<char>| is_within(p, dir_of(root, a)) implies !is_within(p, dir_of(root, b)) by {
        if is_within(p, dir_of(root, b)) {
            if a.len() <= b.len() {
                lemma_within_shorter_id_not_longer(root, a, b, p);
            } else {
                lemma_within_shorter_id_not_longer(root, b, a, p);
                assert(false);
            }
        }
    }
    lemma_sanitized_is_plain(raw_name);
    let d = dir_of(root, a);
    let e = entry_of(d, sanitized(raw_name));
    assert(e.subrange(0, d.len() as int) =~= d);
    reveal_strlit("user");
    let u = profile_dir_of(d);
    assert(u.subrange(0, d.len() as int) =~= d);
}

} // verus!
