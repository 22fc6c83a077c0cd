//! Generated shell scripts: the PATH-enabling script beside the bin
//! directory, and the per-binary wrapper scripts.
use vstd::prelude::*;
use vstd::string::StringExecFns;
use crate::errors::CrackerError;
use crate::paths::Paths;
use crate::paths::spec_enable_script_path;

verus! {

/// The text of the PATH-enabling script.
pub open spec fn spec_enable_script(bin_dir: Seq<char>) -> Seq<char> {
    "#!/bin/bash\nexport PATH=\""@ + bin_dir + ":$PATH\""@
}

/// The text of a wrapper script for a package-manager install: it sources
/// the two generated activation scripts, then hands over to the real binary
/// with all arguments forwarded.
pub open spec fn spec_conan_wrapper(install_folder: Seq<char>, bin: Seq<char>) -> Seq<char> {
    "#!/bin/bash\nsource "@ + install_folder + "/activate_run.sh\nsource "@ + install_folder
        + "/activate.sh\n"@ + bin + " \"${@}\""@
}

/// The text of a wrapper script for a version-control install: it hands
/// over to the real binary directly.
pub open spec fn spec_git_wrapper(bin: Seq<char>) -> Seq<char> {
    "#!/bin/bash\n"@ + bin + " \"${@}\""@
}

/// The wrapper script for one binary, depending on the install kind.
pub open spec fn spec_wrapper_contents(
    install_folder: Seq<char>,
    bin: Seq<char>,
    use_conan_wrappers: bool,
) -> Seq<char> {
    if use_conan_wrappers {
        spec_conan_wrapper(install_folder, bin)
    } else {
        spec_git_wrapper(bin)
    }
}

/// Render the wrapper script for one binary.
pub fn wrapper_contents(install_folder: &str, bin: &str, use_conan_wrappers: bool) -> (r: String)
    ensures
        r@ == spec_wrapper_contents(install_folder@, bin@, use_conan_wrappers),
{
    if use_conan_wrappers {
        let mut r = String::from_str("#!/bin/bash\nsource ");
        r.append(install_folder);
        r.append("/activate_run.sh\nsource ");
        r.append(install_folder);
        r.append("/activate.sh\n");
        r.append(bin);
        r.append(" \"${@}\"");
        r
    } else {
        let mut r = String::from_str("#!/bin/bash\n");
        r.append(bin);
        r.append(" \"${@}\"");
        r
    }
}

/// Derive the location and the text of the PATH-enabling script: it lands
/// beside the bin directory and prepends that directory onto the PATH.
pub fn generate_enable_script(paths: &Paths) -> (r: Result<(String, String), CrackerError>)
    ensures
        match r {
            Ok((path, contents)) => spec_enable_script_path(*paths) == Option::Some(path@)
                && contents@ == spec_enable_script(paths.bin_dir@),
            Err(e) => e == (CrackerError::PathDerivationError {}) && spec_enable_script_path(
                *paths,
            ) == Option::<Seq<char>>::None,
        },
{
    let path = match paths.enable_script_path() {
        Ok(p) => p,
        Err(e) => {
            return Err(e);
        },
    };
    let mut contents = String::from_str("#!/bin/bash\nexport PATH=\"");
    contents.append(paths.bin_dir.as_str());
    contents.append(":$PATH\"");
    Ok((path, contents))
}

} // verus!
