//! Path derivation: a pure mapping from storage root, package identity and
//! install kind to the concrete locations the tool uses. Paths are modeled as
//! plain strings joined with `/`.
use vstd::prelude::*;
use vstd::string::StrSliceExecFns;
use vstd::string::StringExecFns;
use crate::errors::CrackerError;
use crate::text::push_char;
use crate::text::str_to_chars;
use crate::text::string_from_range;

verus! {

/// Which external tool performs the install.
#[derive(Clone, Copy, Debug, PartialEq, Eq, Structural)]
pub enum InstallationType {
    Conan,
    Git,
}

/// The label of each install kind, used in folder names.
pub open spec fn spec_format(t: InstallationType) -> Seq<char> {
    match t {
        InstallationType::Conan => "conan"@,
        InstallationType::Git => "git"@,
    }
}

impl InstallationType {
    pub fn format(&self) -> (r: &'static str)
        ensures
            r@ == spec_format(*self),
    {
        match *self {
            InstallationType::Conan => "conan",
            InstallationType::Git => "git",
        }
    }
}

/// Join two path segments: empty left side yields the right side, and no
/// duplicate separator is produced after a trailing `/`.
pub open spec fn spec_join(a: Seq<char>, b: Seq<char>) -> Seq<char> {
    if a.len() == 0 {
        b
    } else if a[a.len() - 1] == '/' {
        a + b
    } else {
        a + seq!['/'] + b
    }
}

/// The index of the last `/` of the string, or -1 when it has none.
pub open spec fn spec_last_slash(s: Seq<char>) -> int
    decreases s.len(),
{
    if s.len() == 0 {
        -1
    } else if s[s.len() - 1] == '/' {
        s.len() - 1
    } else {
        spec_last_slash(s.take(s.len() - 1))
    }
}

/// The path without its trailing separators.
pub open spec fn spec_strip_slashes(s: Seq<char>) -> Seq<char>
    decreases s.len(),
{
    if s.len() > 0 && s[s.len() - 1] == '/' {
        spec_strip_slashes(s.drop_last())
    } else {
        s
    }
}

/// The parent directory of a path: trailing separators dropped, then
/// everything before the last `/`. A separator-free non-empty path has the
/// empty parent; the root and the empty path have none.
pub open spec fn spec_parent(s: Seq<char>) -> Option<Seq<char>> {
    let t = spec_strip_slashes(s);
    if s.len() == 0 {
        Option::None
    } else if t.len() == 0 {
        // The path is only separators: the root.
        Option::None
    } else {
        let ls = spec_last_slash(t);
        if ls == -1 {
            Option::Some(Seq::<char>::empty())
        } else if ls == 0 {
            Option::Some(seq!['/'])
        } else {
            Option::Some(t.take(ls))
        }
    }
}

/// Join two path segments.
pub fn join_path(a: &str, b: &str) -> (r: String)
    ensures
        r@ == spec_join(a@, b@),
{
    let n = a.unicode_len();
    if n == 0 {
        String::from_str(b)
    } else if a.get_char(n - 1) == '/' {
        let mut r = String::from_str(a);
        r.append(b);
        r
    } else {
        let mut r = String::from_str(a);
        r.append("/");
        r.append(b);
        proof {
            reveal_strlit("/");
            assert("/"@ =~= seq!['/']);
            assert(r@ =~= a@ + seq!['/'] + b@);
        }
        r
    }
}

/// Where `spec_last_slash` points: at the last `/` when there is one.
pub(crate) proof fn lemma_last_slash_char(s: Seq<char>)
    ensures
        spec_last_slash(s) == -1 ==> forall|k: int| 0 <= k < s.len() ==> s[k] != '/',
        spec_last_slash(s) != -1 ==> {
            let ls = spec_last_slash(s);
            &&& 0 <= ls < s.len()
            &&& s[ls] == '/'
            &&& forall|k: int| ls < k < s.len() ==> s[k] != '/'
        },
    decreases s.len(),
{
    if s.len() == 0 {
    } else if s[s.len() - 1] == '/' {
    } else {
        lemma_last_slash_char(s.take(s.len() - 1));
        assert forall|k: int| 0 <= k < s.len() - 1 implies s[k] == s.take(s.len() - 1)[k] by {}
    }
}

/// What the stripped path is: the longest prefix without a trailing `/`.
proof fn lemma_strip_slashes(s: Seq<char>)
    ensures
        spec_strip_slashes(s).len() <= s.len(),
        spec_strip_slashes(s) == s.take(spec_strip_slashes(s).len() as int),
        forall|k: int| spec_strip_slashes(s).len() <= k < s.len() ==> s[k] == '/',
        spec_strip_slashes(s).len() > 0 ==> s[spec_strip_slashes(s).len() - 1] != '/',
    decreases s.len(),
{
    if s.len() > 0 && s[s.len() - 1] == '/' {
        lemma_strip_slashes(s.drop_last());
        let m = spec_strip_slashes(s).len() as int;
        assert forall|k: int| 0 <= k < s.len() - 1 implies s.drop_last()[k] == s[k] by {}
        assert(s.drop_last().take(m) =~= s.take(m));
    } else {
        assert(s.take(s.len() as int) =~= s);
    }
}

/// The parent of a path, by the model above.
pub fn parent_path(s: &str) -> (r: Option<String>)
    ensures
        match r {
            Some(p) => spec_parent(s@) == Option::Some(p@),
            None => spec_parent(s@) == Option::<Seq<char>>::None,
        },
{
    let v = str_to_chars(s);
    let n = v.len();
    if n == 0 {
        return None;
    }
    // Drop trailing separators.
    let mut m: usize = n;
    while m > 0 && v[m - 1] == '/'
        invariant
            m <= n,
            n == v@.len(),
            forall|k: int| m <= k < n ==> v@[k] == '/',
        decreases m,
    {
        m = m - 1;
    }
    proof {
        lemma_strip_slashes(v@);
        assert(spec_strip_slashes(v@).len() == m) by {
            let sm = spec_strip_slashes(v@).len() as int;
            if sm < m {
                assert(v@[m - 1] == '/');
            } else if m < sm {
                assert(v@[sm - 1] != '/');
                assert(v@[sm - 1] == '/');
            }
        }
        assert(spec_strip_slashes(v@) =~= v@.take(m as int));
    }
    if m == 0 {
        // The path is only separators: the root.
        return None;
    }
    let ghost t = v@.take(m as int);
    // Find the last slash of the stripped prefix.
    let mut ls_opt: Option<usize> = None;
    let mut j: usize = 0;
    while j < m
        invariant
            j <= m <= n,
            n == v@.len(),
            match ls_opt {
                Some(l) => l < j && v@[l as int] == '/' && forall|k: int|
                    l < k < j ==> v@[k] != '/',
                None => forall|k: int| 0 <= k < j ==> v@[k] != '/',
            },
        decreases m - j,
    {
        if v[j] == '/' {
            ls_opt = Some(j);
        }
        j = j + 1;
    }
    proof {
        lemma_last_slash_char(t);
        assert forall|k: int| 0 <= k < m implies t[k] == v@[k] by {}
    }
    let ls = match ls_opt {
        None => {
            // No slash at all.
            assert(spec_last_slash(t) == -1) by {
                if spec_last_slash(t) != -1 {
                    assert(t[spec_last_slash(t)] == '/');
                    assert(v@[spec_last_slash(t)] == '/');
                }
            }
            let r = String::new();
            proof {
                assert(r@ =~= Seq::<char>::empty());
            }
            return Some(r);
        },
        Some(l) => l,
    };
    assert(spec_last_slash(t) == ls) by {
        if spec_last_slash(t) == -1 {
            assert(t[ls as int] != '/');
        } else {
            let sls = spec_last_slash(t);
            if sls < ls {
                assert(t[ls as int] != '/');
            } else if ls < sls {
                assert(t[sls] != '/');
                assert(v@[sls] != '/');
            }
        }
    }
    if ls == 0 {
        let r = String::from_str("/");
        proof {
            reveal_strlit("/");
            assert(r@ =~= seq!['/']);
        }
        return Some(r);
    }
    let r = string_from_range(&v, 0, ls);
    proof {
        assert(v@.subrange(0, ls as int) =~= t.take(ls as int));
    }
    Some(r)
}

/// The last segment of a path: everything after the last `/`, or the whole
/// path when it has none.
pub open spec fn spec_file_name(s: Seq<char>) -> Seq<char> {
    s.skip(spec_last_slash(s) + 1)
}

/// The last segment of a path.
pub fn file_name(s: &str) -> (r: String)
    ensures
        r@ == spec_file_name(s@),
{
    let v = str_to_chars(s);
    let n = v.len();
    let mut ls_opt: Option<usize> = None;
    let mut j: usize = 0;
    while j < n
        invariant
            j <= n,
            n == v@.len(),
            match ls_opt {
                Some(l) => l < j && v@[l as int] == '/' && forall|k: int|
                    l < k < j ==> v@[k] != '/',
                None => forall|k: int| 0 <= k < j ==> v@[k] != '/',
            },
        decreases n - j,
    {
        if v[j] == '/' {
            ls_opt = Some(j);
        }
        j = j + 1;
    }
    proof {
        lemma_last_slash_char(v@);
    }
    match ls_opt {
        None => {
            assert(spec_last_slash(v@) == -1) by {
                if spec_last_slash(v@) != -1 {
                    assert(v@[spec_last_slash(v@)] == '/');
                }
            }
            let r = string_from_range(&v, 0, n);
            proof {
                assert(v@.subrange(0, n as int) =~= v@.skip(0));
            }
            r
        },
        Some(l) => {
            assert(spec_last_slash(v@) == l) by {
                if spec_last_slash(v@) == -1 {
                    assert(v@[l as int] != '/');
                } else {
                    let sls = spec_last_slash(v@);
                    if sls < l {
                        assert(v@[l as int] != '/');
                    } else if l < sls {
                        assert(v@[sls] != '/');
                    }
                }
            }
            let r = string_from_range(&v, l + 1, n);
            proof {
                assert(v@.subrange(l + 1, n as int) =~= v@.skip(l + 1));
            }
            r
        },
    }
}

/// The concrete locations of one install: storage root, the directory for
/// wrapper scripts, the install kind and the package label.
pub struct Paths {
    pub prefix: String,
    pub bin_dir: String,
    pub install_type: InstallationType,
    pub pkg_name: String,
}

/// The per-root storage directory.
pub open spec fn spec_storage_dir(p: Paths) -> Seq<char> {
    spec_join(p.prefix@, ".cracker_storage"@)
}

/// The per-root persisted index file.
pub open spec fn spec_db_path(p: Paths) -> Seq<char> {
    spec_join(p.prefix@, ".cracker_index"@)
}

/// The folder one install occupies: one folder per kind and label pair.
pub open spec fn spec_install_folder(p: Paths) -> Seq<char> {
    spec_join(spec_storage_dir(p), spec_format(p.install_type) + seq!['_'] + p.pkg_name@)
}

/// The location of the PATH-enabling script, beside the bin directory.
pub open spec fn spec_enable_script_path(p: Paths) -> Option<Seq<char>> {
    match spec_parent(p.bin_dir@) {
        Option::Some(parent) => Option::Some(spec_join(parent, "cracker_enable"@)),
        Option::None => Option::<Seq<char>>::None,
    }
}

impl Paths {
    /// Derive the locations for one install. A missing bin directory
    /// defaults to `bin` under the prefix.
    pub fn new(prefix: String, bin_dir: Option<String>, install_type: InstallationType, pkg_name: &str) -> (r:
        Paths)
        ensures
            r.prefix == prefix,
            r.install_type == install_type,
            r.pkg_name@ == pkg_name@,
            match bin_dir {
                Some(b) => r.bin_dir == b,
                None => r.bin_dir@ == spec_join(prefix@, "bin"@),
            },
    {
        let bin_dir = match bin_dir {
            Some(b) => b,
            None => join_path(prefix.as_str(), "bin"),
        };
        Paths { bin_dir, prefix, install_type, pkg_name: String::from_str(pkg_name) }
    }

    /// The directory wrapper scripts are written to.
    pub fn bin_dir(&self) -> (r: String)
        ensures
            r@ == self.bin_dir@,
    {
        self.bin_dir.clone()
    }

    /// The per-root storage directory.
    pub fn storage_dir(&self) -> (r: String)
        ensures
            r@ == spec_storage_dir(*self),
    {
        join_path(self.prefix.as_str(), ".cracker_storage")
    }

    /// The per-root persisted index file.
    pub fn db_path(&self) -> (r: String)
        ensures
            r@ == spec_db_path(*self),
    {
        join_path(self.prefix.as_str(), ".cracker_index")
    }

    /// The folder this install occupies. Re-installing the same label
    /// overwrites the same folder; nothing distinguishes versions here.
    pub fn install_folder(&self) -> (r: String)
        ensures
            r@ == spec_install_folder(*self),
    {
        let storage = self.storage_dir();
        let mut label = String::from_str(self.install_type.format());
        label.append("_");
        label.append(self.pkg_name.as_str());
        proof {
            reveal_strlit("_");
            assert("_"@ =~= seq!['_']);
            assert(label@ =~= spec_format(self.install_type) + seq!['_'] + self.pkg_name@);
        }
        join_path(storage.as_str(), label.as_str())
    }

    /// Where the PATH-enabling script lands: `cracker_enable` beside the bin
    /// directory. Fails when the bin directory has no parent.
    pub fn enable_script_path(&self) -> (r: Result<String, CrackerError>)
        ensures
            match r {
                Ok(p) => spec_enable_script_path(*self) == Option::Some(p@),
                Err(e) => e == (CrackerError::PathDerivationError {})
                    && spec_enable_script_path(*self) == Option::<Seq<char>>::None,
            },
    {
        match parent_path(self.bin_dir.as_str()) {
            Some(parent) => Ok(join_path(parent.as_str(), "cracker_enable")),
            None => Err(CrackerError::PathDerivationError {}),
        }
    }
}

} // verus!
