//! The vault: a managed root directory reached only through relative paths
//! that cannot leave it, and the settings document kept in it.
use vstd::prelude::*;
use crate::text::{has_prefix, opt_view, trim, trim_of};

verus! {

/// Errors of vault path handling.
#[derive(Debug, Clone, Copy, PartialEq, Eq, Structural)]
pub enum VaultError {
    /// The relative path is absolute, or names a parent, root or drive component.
    PathEscape,
    /// The operating system reports no data directory for a default vault.
    NoDataDir,
}

impl VaultError {
    /// The human-readable message of the error.
    pub fn message(&self) -> (r: String)
        ensures
            r@ == match self {
                VaultError::PathEscape => "Only paths inside the vault are allowed"@,
                VaultError::NoDataDir => "The operating system's data directory could not be found"@,
            },
    {
        match self {
            VaultError::PathEscape => String::from_str("Only paths inside the vault are allowed"),
            VaultError::NoDataDir => String::from_str("The operating system's data directory could not be found"),
        }
    }
}

/// A path separator, in either of the two spellings.
pub open spec fn is_sep(c: char) -> bool {
    c == '/' || c == '\\'
}

/// Whether `p` starts at a root: a leading separator, or a drive prefix `X:`.
pub open spec fn is_rooted(p: Seq<char>) -> bool {
    (p.len() > 0 && is_sep(p[0])) || (p.len() >= 2 && p[1] == ':' && (('a' <= p[0] && p[0] <= 'z')
        || ('A' <= p[0] && p[0] <= 'Z')))
}

/// Whether a `..` component starts at position `i` of `p`.
pub open spec fn parent_at(p: Seq<char>, i: int) -> bool {
    &&& 0 <= i && i + 2 <= p.len()
    &&& p[i] == '.' && p[i + 1] == '.'
    &&& (i == 0 || is_sep(p[i - 1]))
    &&& (i + 2 == p.len() || is_sep(p[i + 2]))
}

/// Whether some component of `p` is `..`.
pub open spec fn has_parent_component(p: Seq<char>) -> bool {
    exists|i: int| parent_at(p, i)
}

/// Whether `p` would reach outside the directory it is joined to.
pub open spec fn escapes(p: Seq<char>) -> bool {
    is_rooted(p) || has_parent_component(p)
}

/// `root` joined with `rel`: a `/` is put between them unless `root` is
/// empty or already ends with one.
pub open spec fn joined(root: Seq<char>, rel: Seq<char>) -> Seq<char> {
    if root.len() == 0 || root.last() == '/' {
        root + rel
    } else {
        root + seq!['/'] + rel
    }
}

/// Checks that `relative` stays inside the directory it will be joined to.
pub fn sanitize_relative_path(relative: &str) -> (r: Result<String, VaultError>)
    ensures
        match r {
            Ok(p) => !escapes(relative@) && p@ == relative@,
            Err(e) => escapes(relative@) && e == VaultError::PathEscape,
        },
{
    let n = relative.unicode_len();
    if n > 0 {
        let c0 = relative.get_char(0);
        if c0 == '/' || c0 == '\\' {
            return Err(VaultError::PathEscape);
        }
    }
    if n >= 2 {
        let c0 = relative.get_char(0);
        if relative.get_char(1) == ':' && (('a' <= c0 && c0 <= 'z') || ('A' <= c0 && c0 <= 'Z')) {
            return Err(VaultError::PathEscape);
        }
    }
    let mut i: usize = 0;
    while i < n
        invariant
            n == relative@.len(),
            i <= n,
            forall|j: int| 0 <= j < i ==> !parent_at(relative@, j),
        decreases n - i,
    {
        if i + 1 < n && relative.get_char(i) == '.' && relative.get_char(i + 1) == '.' {
            let before = i == 0 || relative.get_char(i - 1) == '/' || relative.get_char(i - 1) == '\\';
            let after = i + 2 == n || relative.get_char(i + 2) == '/' || relative.get_char(i + 2) == '\\';
            if before && after {
                assert(parent_at(relative@, i as int));
                return Err(VaultError::PathEscape);
            }
        }
        i += 1;
    }
    assert(!has_parent_component(relative@));
    Ok(String::from_str(relative))
}

/// Joins `root` and `rel` as `joined` describes.
pub fn join_path(root: &str, rel: &str) -> (r: String)
    ensures
        r@ == joined(root@, rel@),
{
    let n = root.unicode_len();
    let mut out = String::from_str(root);
    if n > 0 && root.get_char(n - 1) != '/' {
        out.append("/");
        proof {
            reveal_strlit("/");
        }
    }
    out.append(rel);
    assert(out@ =~= joined(root@, rel@));
    out
}

/// Resolves `relative` inside `vault_dir`, refusing any path that could leave it.
pub fn resolve_in_vault(vault_dir: &str, relative: &str) -> (r: Result<String, VaultError>)
    ensures
        match r {
            Ok(p) => !escapes(relative@) && p@ == joined(vault_dir@, relative@),
            Err(e) => escapes(relative@) && e == VaultError::PathEscape,
        },
{
    match sanitize_relative_path(relative) {
        Ok(rel) => Ok(join_path(vault_dir, rel.as_str())),
        Err(e) => Err(e),
    }
}

/// A path that passes the check resolves under `root`: the result starts with
/// `root`, and what follows holds no `..` component and starts at no root of
/// its own other than the one separator that joining adds.
pub proof fn lemma_resolved_descendant(root: Seq<char>, rel: Seq<char>)
    requires
        !escapes(rel),
    ensures
        has_prefix(joined(root, rel), root),
        !has_parent_component(joined(root, rel).subrange(root.len() as int, joined(root, rel).len() as int)),
        joined(root, rel).subrange(joined(root, rel).len() - rel.len(), joined(root, rel).len() as int) == rel,
{
    let j = joined(root, rel);
    assert(j.subrange(0, root.len() as int) =~= root);
    assert(j.subrange(j.len() - rel.len(), j.len() as int) =~= rel);
    let tail = j.subrange(root.len() as int, j.len() as int);
    if root.len() == 0 || root.last() == '/' {
        assert(tail =~= rel);
    } else {
        assert(tail =~= seq!['/'] + rel);
        assert forall|i: int| !parent_at(tail, i) by {
            if parent_at(tail, i) {
                assert(i >= 1);
                assert(tail[i] == rel[i - 1]);
                assert(parent_at(rel, i - 1));
            }
        }
    }
}

/// The file that holds the settings document of a vault.
pub open spec fn settings_path_of(vault_dir: Seq<char>) -> Seq<char> {
    joined(vault_dir, "settings.json"@)
}

/// Path of the settings document of `vault_dir`.
pub fn settings_file_path(vault_dir: &str) -> (r: String)
    ensures
        r@ == settings_path_of(vault_dir@),
{
    join_path(vault_dir, "settings.json")
}

/// Whether `s` holds nothing but white space.
pub open spec fn blank(s: Seq<char>) -> bool {
    trim_of(s).len() == 0
}

/// Whether `s` holds nothing but white space.
pub fn is_blank(s: &str) -> (r: bool)
    ensures
        r == blank(s@),
{
    trim(s).unicode_len() == 0
}

/// The persisted settings of the tool.
#[derive(Debug, Clone)]
pub struct VaultSettings {
    pub vault_path: String,
    pub recent_files: Vec<String>,
    pub last_open_path: Option<String>,
}

impl Default for VaultSettings {
    fn default() -> (r: VaultSettings)
        ensures
            r.vault_path@.len() == 0,
            r.recent_files@.len() == 0,
            r.last_open_path is None,
    {
        VaultSettings { vault_path: String::new(), recent_files: Vec::new(), last_open_path: None }
    }
}

/// Fills a blank vault path with `vault_dir`; everything else is kept.
pub fn normalize_settings(settings: VaultSettings, vault_dir: &str) -> (r: VaultSettings)
    ensures
        r.vault_path@ == if blank(settings.vault_path@) {
            vault_dir@
        } else {
            settings.vault_path@
        },
        r.recent_files@ == settings.recent_files@,
        r.last_open_path == settings.last_open_path,
{
    let mut settings = settings;
    if is_blank(settings.vault_path.as_str()) {
        settings.vault_path = String::from_str(vault_dir);
    }
    settings
}

/// The vault directory under an operating-system data directory.
pub open spec fn vault_under(data_dir: Option<Seq<char>>) -> Result<Seq<char>, VaultError> {
    match data_dir {
        Some(d) => Ok(joined(d, "DevToolBox"@)),
        None => Err(VaultError::NoDataDir),
    }
}

/// The vault directory chosen from an optional user path: the path itself when
/// it is not blank, else the default under `data_dir`.
pub open spec fn vault_choice(path: Option<Seq<char>>, data_dir: Option<Seq<char>>) -> Result<Seq<char>, VaultError> {
    match path {
        Some(p) if !blank(p) => Ok(p),
        _ => vault_under(data_dir),
    }
}

/// View of a string result.
pub open spec fn result_view(r: Result<String, VaultError>) -> Result<Seq<char>, VaultError> {
    match r {
        Ok(s) => Ok(s@),
        Err(e) => Err(e),
    }
}

/// Relies on `dirs::data_dir`: the user's data directory, when the operating
/// system reports one. Nothing is stated of its value.
#[verifier::external_body]
fn os_data_dir() -> (r: Option<String>)
{
    dirs::data_dir().map(|p| p.to_string_lossy().into_owned())
}

/// The default vault directory for a data directory.
pub fn vault_dir_under(data_dir: Option<String>) -> (r: Result<String, VaultError>)
    ensures
        result_view(r) == vault_under(opt_view(data_dir)),
{
    match data_dir {
        Some(d) => Ok(join_path(d.as_str(), "DevToolBox")),
        None => Err(VaultError::NoDataDir),
    }
}

/// The default vault directory: `DevToolBox` under the operating system's
/// data directory.
pub fn default_vault_dir() -> (r: Result<String, VaultError>)
    ensures
        exists|d: Option<Seq<char>>| result_view(r) == vault_under(d),
{
    let d = os_data_dir();
    vault_dir_under(d)
}

/// The vault directory for an optional user path and a data directory.
pub fn choose_vault_dir(path: Option<String>, data_dir: Option<String>) -> (r: Result<String, VaultError>)
    ensures
        result_view(r) == vault_choice(opt_view(path), opt_view(data_dir)),
{
    match path {
        Some(p) => {
            if !is_blank(p.as_str()) {
                return Ok(p);
            }
            vault_dir_under(data_dir)
        },
        None => vault_dir_under(data_dir),
    }
}

/// The vault directory for an optional user path: the path itself when it is
/// not blank, else the default under the operating system's data directory.
pub fn resolve_vault_dir(path: Option<String>) -> (r: Result<String, VaultError>)
    ensures
        exists|d: Option<Seq<char>>| result_view(r) == vault_choice(opt_view(path), d),
{
    let d = os_data_dir();
    choose_vault_dir(path, d)
}

} // verus!
