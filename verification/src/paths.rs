//! Filesystem locations for data, config and cache.
//!
//! A location is a base directory given by the platform (the user's data,
//! config or cache directory, `.` when there is none) and the components
//! below it. The base is held as the platform's encoded bytes of the
//! directory, so a name that is not valid Unicode is kept as it is.

use vstd::prelude::*;

verus! {

/// A path: a base directory (the platform's encoded bytes of it) and the
/// components below it.
#[derive(Debug)]
pub struct FsPath {
    pub base: Vec<u8>,
    pub parts: Vec<String>,
}

/// The view of a path: the base and the components.
pub struct FsPathView {
    pub base: Seq<u8>,
    pub parts: Seq<Seq<char>>,
}

impl View for FsPath {
    type V = FsPathView;

    open spec fn view(&self) -> FsPathView {
        FsPathView { base: self.base@, parts: string_views(self.parts@) }
    }
}

/// The views of a sequence of strings.
pub open spec fn string_views(v: Seq<String>) -> Seq<Seq<char>> {
    v.map_values(|s: String| s@)
}

/// `p` with `part` appended.
pub open spec fn joined(p: FsPathView, part: Seq<char>) -> FsPathView {
    FsPathView { base: p.base, parts: p.parts.push(part) }
}

/// Whether `prefix` is `p` or a directory that holds it: the same base, and
/// components that begin `p`'s.
pub open spec fn path_starts_with(p: FsPathView, prefix: FsPathView) -> bool {
    &&& p.base == prefix.base
    &&& prefix.parts.len() <= p.parts.len()
    &&& p.parts.subrange(0, prefix.parts.len() as int) == prefix.parts
}

/// Whether the last component of `p` below its base is `part`.
pub open spec fn path_ends_with(p: FsPathView, part: Seq<char>) -> bool {
    p.parts.len() > 0 && p.parts.last() == part
}

/// The application directory under a platform base directory: `base`, or
/// `.` (byte 46) when there is none, then `bandwith`.
pub open spec fn app_dir(platform: Option<Seq<u8>>) -> FsPathView {
    FsPathView {
        base: match platform {
            Some(b) => b,
            None => seq![46u8],
        },
        parts: seq!["bandwith"@],
    }
}

impl FsPath {
    /// A copy of the path.
    pub fn duplicate(&self) -> (p: FsPath)
        ensures
            p@ == self@,
    {
        let n = self.parts.len();
        let mut parts: Vec<String> = Vec::new();
        let mut i: usize = 0;
        while i < n
            invariant
                n == self.parts@.len(),
                0 <= i <= n,
                parts@.len() == i,
                self@.parts.len() == n,
                string_views(parts@) == self@.parts.take(i as int),
            decreases n - i,
        {
            let c = self.parts[i].clone();
            let ghost pre = parts@;
            parts.push(c);
            proof {
                assert(string_views(pre) == self@.parts.take(i as int));
                assert forall|j: int| 0 <= j < i + 1 implies #[trigger] string_views(parts@)[j] == self@.parts.take(i + 1)[j] by {
                    if j < i {
                        assert(parts@[j] == pre[j]);
                        assert(string_views(pre)[j] == self@.parts.take(i as int)[j]);
                    } else {
                        assert(parts@[j] == c);
                    }
                }
            }
            i = i + 1;
            assert(string_views(parts@) =~= self@.parts.take(i as int));
        }
        assert(self@.parts.take(n as int) =~= self@.parts);
        FsPath { base: copy_bytes(&self.base), parts }
    }

    /// The path with `part` appended.
    pub fn join(&self, part: &str) -> (p: FsPath)
        ensures
            p@ == joined(self@, part@),
    {
        let mut p = self.duplicate();
        p.parts.push(part.to_owned());
        assert(p@.parts =~= self@.parts.push(part@));
        p
    }

    /// Whether the last component below the base is `part`.
    pub fn ends_with(&self, part: &str) -> (b: bool)
        ensures
            b == path_ends_with(self@, part@),
    {
        let n = self.parts.len();
        if n == 0 {
            return false;
        }
        let want = part.to_owned();
        self.parts[n - 1] == want
    }

    /// Whether `prefix` is this path or a directory that holds it.
    pub fn starts_with(&self, prefix: &FsPath) -> (b: bool)
        ensures
            b == path_starts_with(self@, prefix@),
    {
        if !bytes_equal(&self.base, &prefix.base) {
            return false;
        }
        let m = prefix.parts.len();
        if m > self.parts.len() {
            return false;
        }
        let mut i: usize = 0;
        while i < m
            invariant
                m == prefix@.parts.len(),
                m <= self@.parts.len(),
                0 <= i <= m,
                forall|j: int| 0 <= j < i ==> self@.parts[j] == prefix@.parts[j],
            decreases m - i,
        {
            if !(self.parts[i] == prefix.parts[i]) {
                assert(self@.parts.subrange(0, m as int)[i as int] != prefix@.parts[i as int]);
                return false;
            }
            i = i + 1;
        }
        assert(self@.parts.subrange(0, m as int) =~= prefix@.parts);
        true
    }
}

/// A copy of `b`.
fn copy_bytes(b: &Vec<u8>) -> (c: Vec<u8>)
    ensures
        c@ == b@,
{
    let mut c: Vec<u8> = Vec::new();
    let mut i: usize = 0;
    while i < b.len()
        invariant
            0 <= i <= b@.len(),
            c@ == b@.take(i as int),
        decreases b@.len() - i,
    {
        c.push(b[i]);
        i = i + 1;
        assert(c@ =~= b@.take(i as int));
    }
    assert(b@.take(b@.len() as int) =~= b@);
    c
}

/// Whether `a` and `b` hold the same bytes.
fn bytes_equal(a: &Vec<u8>, b: &Vec<u8>) -> (r: bool)
    ensures
        r == (a@ == b@),
{
    if a.len() != b.len() {
        return false;
    }
    let mut i: usize = 0;
    while i < a.len()
        invariant
            0 <= i <= a@.len(),
            a@.len() == b@.len(),
            forall|j: int| 0 <= j < i ==> a@[j] == b@[j],
        decreases a@.len() - i,
    {
        if a[i] != b[i] {
            return false;
        }
        i = i + 1;
    }
    assert(a@ =~= b@);
    true
}

/// `dirs::data_dir`: the user's data directory, if the platform has one,
/// as the platform's encoded bytes (`OsString::into_encoded_bytes`).
#[verifier::external_body]
fn platform_data_dir() -> Option<Vec<u8>> {
    match dirs::data_dir() {
        Some(p) => Some(p.into_os_string().into_encoded_bytes()),
        None => None,
    }
}

/// `dirs::config_dir`: the user's config directory, if the platform has
/// one, as the platform's encoded bytes.
#[verifier::external_body]
fn platform_config_dir() -> Option<Vec<u8>> {
    match dirs::config_dir() {
        Some(p) => Some(p.into_os_string().into_encoded_bytes()),
        None => None,
    }
}

/// `dirs::cache_dir`: the user's cache directory, if the platform has one,
/// as the platform's encoded bytes.
#[verifier::external_body]
fn platform_cache_dir() -> Option<Vec<u8>> {
    match dirs::cache_dir() {
        Some(p) => Some(p.into_os_string().into_encoded_bytes()),
        None => None,
    }
}

/// The application directory under the platform directory `platform`.
pub fn app_dir_under(platform: Option<Vec<u8>>) -> (p: FsPath)
    ensures
        p@ == app_dir(
            match platform {
                Some(b) => Some(b@),
                None => None,
            },
        ),
{
    let base = match platform {
        Some(b) => b,
        None => {
            let mut dot: Vec<u8> = Vec::new();
            dot.push(46u8);
            dot
        },
    };
    let mut parts: Vec<String> = Vec::new();
    parts.push("bandwith".to_owned());
    let p = FsPath { base, parts };
    assert(p@.parts =~= seq!["bandwith"@]);
    p
}

/// The application's data directory: `bandwith` under the user's data
/// directory.
pub fn data_dir() -> (p: FsPath)
    ensures
        p@.parts == seq!["bandwith"@],
{
    app_dir_under(platform_data_dir())
}

/// The application's cache directory: `bandwith` under the user's cache
/// directory.
pub fn cache_dir() -> (p: FsPath)
    ensures
        p@.parts == seq!["bandwith"@],
{
    app_dir_under(platform_cache_dir())
}

/// The config file: `config.toml` in the application directory under the
/// user's config directory (`%APPDATA%` on Windows, `$XDG_CONFIG_HOME` or
/// `~/.config` on Linux).
pub fn config_path() -> (p: FsPath)
    ensures
        p@.parts == seq!["bandwith"@, "config.toml"@],
{
    let p = app_dir_under(platform_config_dir()).join("config.toml");
    assert(p@.parts =~= seq!["bandwith"@, "config.toml"@]);
    p
}

/// The database file: `bandwith.db` in the data directory.
pub fn db_path() -> (p: FsPath)
    ensures
        p@.parts == seq!["bandwith"@, "bandwith.db"@],
{
    let p = data_dir().join("bandwith.db");
    assert(p@.parts =~= seq!["bandwith"@, "bandwith.db"@]);
    p
}

/// A path joined with a component lies under the path and ends with the
/// component.
pub proof fn law_join_stays_under(p: FsPathView, part: Seq<char>)
    ensures
        path_starts_with(joined(p, part), p),
        path_ends_with(joined(p, part), part),
{
    assert(joined(p, part).parts.subrange(0, p.parts.len() as int) =~= p.parts);
}

/// The application directory under any platform directory ends with
/// `bandwith`, and the database file and the config file (each under its
/// own platform directory) lie in it.
pub proof fn law_files_under_data_dir(platform: Option<Seq<u8>>)
    ensures
        path_ends_with(app_dir(platform), "bandwith"@),
        path_starts_with(joined(app_dir(platform), "bandwith.db"@), app_dir(platform)),
        path_starts_with(joined(app_dir(platform), "config.toml"@), app_dir(platform)),
{
    law_join_stays_under(app_dir(platform), "bandwith.db"@);
    law_join_stays_under(app_dir(platform), "config.toml"@);
}

} // verus!
