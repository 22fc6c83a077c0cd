//! The argument vectors handed to the external tools, and the scoped
//! redirection of the package manager's global storage path. The library
//! decides what to run; the caller runs it and reports the outcome back.
use vstd::prelude::*;
use vstd::string::StringExecFns;
use crate::conan_package::ConanPackage;
use crate::conan_package::PackageView;
use crate::conan_package::spec_full;
use crate::db::views_of_strings;
use crate::errors::CrackerError;

verus! {

/// The command that reads the external tool's global storage path.
pub open spec fn spec_get_storage_cmd() -> Seq<Seq<char>> {
    seq!["conan"@, "config"@, "get"@, "storage.path"@]
}

/// The command that sets the external tool's global storage path.
pub open spec fn spec_set_storage_cmd(path: Seq<char>) -> Seq<Seq<char>> {
    seq!["conan"@, "config"@, "set"@, "storage.path="@ + path]
}

/// One flag before each argument: `-s a -s b`, `-o x`.
pub open spec fn spec_flag_pairs(flag: Seq<char>, args: Seq<Seq<char>>) -> Seq<Seq<char>>
    decreases args.len(),
{
    if args.len() == 0 {
        Seq::<Seq<char>>::empty()
    } else {
        seq![flag, args[0]] + spec_flag_pairs(flag, args.skip(1))
    }
}

/// The full install command of the package manager.
pub open spec fn spec_install_cmd(
    pkg: PackageView,
    install_folder: Seq<char>,
    settings: Seq<Seq<char>>,
    options: Seq<Seq<char>>,
) -> Seq<Seq<char>> {
    seq![
        "conan"@,
        "install"@,
        spec_full(pkg),
        "-if"@,
        install_folder,
        "-g"@,
        "virtualrunenv"@,
        "-g"@,
        "virtualenv"@,
    ] + spec_flag_pairs("-s"@, settings) + spec_flag_pairs("-o"@, options)
}

/// The clone command of the version-control tool.
pub open spec fn spec_git_clone_cmd(url: Seq<char>, install_folder: Seq<char>) -> Seq<Seq<char>> {
    seq!["git"@, "clone"@, url, "--depth"@, "1"@, install_folder]
}

/// Append `flag arg` pairs for the arguments from index `i` on.
fn push_flag_pairs(out: &mut Vec<String>, flag: &str, args: &Vec<String>, i: usize)
    requires
        i <= args@.len(),
    ensures
        views_of_strings(final(out)@) == views_of_strings(old(out)@) + spec_flag_pairs(
            flag@,
            views_of_strings(args@).skip(i as int),
        ),
    decreases args@.len() - i,
{
    let ghost vs = views_of_strings(args@).skip(i as int);
    if i == args.len() {
        proof {
            assert(vs =~= Seq::<Seq<char>>::empty());
            assert(views_of_strings(out@) + spec_flag_pairs(flag@, vs) =~= views_of_strings(
                out@,
            ));
        }
    } else {
        let ghost before = views_of_strings(out@);
        out.push(String::from_str(flag));
        out.push(args[i].clone());
        proof {
            assert(views_of_strings(out@) =~= before + seq![flag@, args@[i as int]@]);
        }
        push_flag_pairs(out, flag, args, i + 1);
        proof {
            assert(vs[0] == views_of_strings(args@)[i as int]);
            assert(vs.skip(1) =~= views_of_strings(args@).skip(i + 1));
            assert(before + spec_flag_pairs(flag@, vs) =~= (before + seq![flag@, vs[0]])
                + spec_flag_pairs(flag@, vs.skip(1)));
        }
    }
}

/// The clone command for one URL and install folder.
pub fn git_clone_command(url: &str, install_folder: &str) -> (r: Vec<String>)
    ensures
        views_of_strings(r@) == spec_git_clone_cmd(url@, install_folder@),
{
    let mut r: Vec<String> = Vec::new();
    r.push(String::from_str("git"));
    r.push(String::from_str("clone"));
    r.push(String::from_str(url));
    r.push(String::from_str("--depth"));
    r.push(String::from_str("1"));
    r.push(String::from_str(install_folder));
    proof {
        assert(views_of_strings(r@) =~= spec_git_clone_cmd(url@, install_folder@));
    }
    r
}

/// The package-manager front end: it builds the commands to run and judges
/// their outcome; the caller executes them.
pub struct Conan {}

impl Conan {
    pub fn new() -> (r: Conan) {
        Conan {  }
    }

    /// The install command for one package, with its settings and options.
    pub fn install_command(
        &self,
        conan_pkg: &ConanPackage,
        install_folder: &str,
        settings: &Vec<String>,
        options: &Vec<String>,
    ) -> (r: Vec<String>)
        ensures
            views_of_strings(r@) == spec_install_cmd(
                conan_pkg@,
                install_folder@,
                views_of_strings(settings@),
                views_of_strings(options@),
            ),
    {
        let mut r: Vec<String> = Vec::new();
        r.push(String::from_str("conan"));
        r.push(String::from_str("install"));
        r.push(conan_pkg.full());
        r.push(String::from_str("-if"));
        r.push(String::from_str(install_folder));
        r.push(String::from_str("-g"));
        r.push(String::from_str("virtualrunenv"));
        r.push(String::from_str("-g"));
        r.push(String::from_str("virtualenv"));
        proof {
            assert(views_of_strings(r@) =~= seq![
                "conan"@,
                "install"@,
                spec_full(conan_pkg@),
                "-if"@,
                install_folder@,
                "-g"@,
                "virtualrunenv"@,
                "-g"@,
                "virtualenv"@,
            ]);
        }
        let ghost base = views_of_strings(r@);
        push_flag_pairs(&mut r, "-s", settings, 0);
        push_flag_pairs(&mut r, "-o", options, 0);
        proof {
            assert(views_of_strings(settings@).skip(0) =~= views_of_strings(settings@));
            assert(views_of_strings(options@).skip(0) =~= views_of_strings(options@));
            assert(views_of_strings(r@) =~= base + spec_flag_pairs(
                "-s"@,
                views_of_strings(settings@),
            ) + spec_flag_pairs("-o"@, views_of_strings(options@)));
        }
        r
    }

    /// Judge the outcome of the install command: a zero exit status is
    /// success, anything else is an install failure carrying the status and
    /// the captured output verbatim.
    pub fn install_result(&self, status: i32, stdout: String, stderr: String) -> (r: Result<
        (),
        CrackerError,
    >)
        ensures
            status == 0 ==> r is Ok,
            status != 0 ==> (r matches Err(CrackerError::InstallFailure {
                status: st,
                stdout: so,
                stderr: se,
            }) && st == status && so@ == stdout@ && se@ == stderr@),
    {
        if status == 0 {
            Ok(())
        } else {
            Err(CrackerError::InstallFailure { status, stdout, stderr })
        }
    }
}

/// The scoped redirection of the external tool's global storage path. The
/// caller first runs `get_storage_cmd` and acquires the guard with what it
/// read; acquisition yields the redirecting command, and `restore_cmd` is
/// the command the caller must run on release, whatever happened in
/// between.
pub struct ConanStorageGuard {
    pub original_storage: String,
}

impl ConanStorageGuard {
    /// The command whose output is the current global storage path.
    pub fn get_storage_cmd() -> (r: Vec<String>)
        ensures
            views_of_strings(r@) == spec_get_storage_cmd(),
    {
        let mut r: Vec<String> = Vec::new();
        r.push(String::from_str("conan"));
        r.push(String::from_str("config"));
        r.push(String::from_str("get"));
        r.push(String::from_str("storage.path"));
        proof {
            assert(views_of_strings(r@) =~= spec_get_storage_cmd());
        }
        r
    }

    /// The command that points the global storage path at `path`.
    pub fn set_storage_cmd(path: &str) -> (r: Vec<String>)
        ensures
            views_of_strings(r@) == spec_set_storage_cmd(path@),
    {
        let mut r: Vec<String> = Vec::new();
        r.push(String::from_str("conan"));
        r.push(String::from_str("config"));
        r.push(String::from_str("set"));
        let mut setting = String::from_str("storage.path=");
        setting.append(path);
        r.push(setting);
        proof {
            assert(views_of_strings(r@) =~= spec_set_storage_cmd(path@));
        }
        r
    }

    /// Acquire the guard: remember the storage path previously read from
    /// the tool, and hand back the command that redirects it to
    /// `storage_path`.
    pub fn new(original_storage: String, storage_path: &str) -> (r: (ConanStorageGuard, Vec<
        String,
    >))
        ensures
            r.0.original_storage@ == original_storage@,
            views_of_strings(r.1@) == spec_set_storage_cmd(storage_path@),
    {
        let cmd = Self::set_storage_cmd(storage_path);
        (ConanStorageGuard { original_storage }, cmd)
    }

    /// The command that restores the remembered storage path. It must be
    /// run when the install ends, successfully or not.
    pub fn restore_cmd(&self) -> (r: Vec<String>)
        ensures
            views_of_strings(r@) == spec_set_storage_cmd(self.original_storage@),
    {
        Self::set_storage_cmd(self.original_storage.as_str())
    }
}

} // verus!
