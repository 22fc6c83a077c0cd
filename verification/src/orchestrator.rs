//! The decisions of one install run: the collision protocol on an occupied
//! install folder, the per-binary wrap step with its overwrite prompt, the
//! filter that picks which discovered files to wrap, and the reconstruction
//! of install requests out of a previously saved database. The caller
//! performs the file and process work these decisions call for.
use vstd::prelude::*;
use vstd::string::StringExecFns;
use crate::codec::ser_db;
use crate::db::CrackerDatabase;
use crate::db::CrackerDatabaseData;
use crate::db::clone_data;
use crate::db::clone_string_vec;
use crate::db::db_has_wrapper;
use crate::db::spec_prune;
use crate::db::spec_register;
use crate::db::spec_unregister_pkg;
use crate::db::spec_unregister_wrapper;
use crate::db::spec_wrappers_of;
use crate::db::views_of_strings;
use crate::db::views_of_wrappers;
use crate::db::EntryView;
use crate::db::InstallDataView;
use crate::db::Wrapper;
use crate::paths::file_name;
use crate::paths::join_path;
use crate::paths::spec_file_name;
use crate::paths::spec_install_folder;
use crate::paths::spec_join;
use crate::paths::Paths;
use crate::script::spec_wrapper_contents;
use crate::script::wrapper_contents;

verus! {

/// One binary to wrap: the absolute path of the real executable, the
/// package it came from, and the install data to register it under.
pub struct CrackRequest {
    pub bin: String,
    pub pkg_name: String,
    pub data: CrackerDatabaseData,
}

/// What the wrap step asks of its caller.
#[derive(Debug, PartialEq)]
pub enum CrackOutcome {
    /// A wrapper of this name exists: the caller must put the question to
    /// the user and call again with the answer.
    NeedsAnswer { message: String },
    /// The user declined: this binary is left alone.
    Skipped,
    /// Write the script: first remove the old script file when one is
    /// named, then write `contents` to `script_path` and mark it
    /// executable.
    Done { remove_first: Option<String>, script_path: String, contents: String },
}

/// The names joined with a comma and a space.
pub open spec fn spec_join_comma(ss: Seq<Seq<char>>) -> Seq<char>
    decreases ss.len(),
{
    if ss.len() == 0 {
        Seq::<char>::empty()
    } else if ss.len() == 1 {
        ss[0]
    } else {
        ss[0] + ", "@ + spec_join_comma(ss.skip(1))
    }
}

/// Append the wrapper names from index `i` on, comma-separated.
fn append_names(out: &mut String, ws: &Vec<Wrapper>, i: usize)
    requires
        i <= ws@.len(),
    ensures
        final(out)@ == old(out)@ + spec_join_comma(views_of_wrappers(ws@).skip(i as int)),
    decreases ws@.len() - i,
{
    let ghost vs = views_of_wrappers(ws@).skip(i as int);
    if i == ws.len() {
        proof {
            assert(vs =~= Seq::<Seq<char>>::empty());
            assert(out@ + spec_join_comma(vs) =~= out@);
        }
    } else if i + 1 == ws.len() {
        out.append(ws[i].wrapped_bin.as_str());
        proof {
            assert(vs =~= seq![ws@[i as int]@]);
        }
    } else {
        out.append(ws[i].wrapped_bin.as_str());
        out.append(", ");
        append_names(out, ws, i + 1);
        proof {
            assert(vs[0] == ws@[i as int]@);
            assert(vs.skip(1) =~= views_of_wrappers(ws@).skip(i + 1));
            assert(out@ =~= old(out)@ + (vs[0] + ", "@ + spec_join_comma(vs.skip(1))));
        }
    }
}

/// The wrap step for one discovered binary. When a wrapper of the same
/// name already exists anywhere in the database, the user must consent
/// before it is replaced; `answer` carries that consent once the caller
/// has it. On consent the old wrapper leaves the database and its file is
/// named for removal; the new wrapper is registered under this install's
/// data either way.
pub fn crack(
    db: &mut CrackerDatabase,
    request: &CrackRequest,
    paths: &Paths,
    answer: Option<bool>,
    use_conan_wrappers: bool,
) -> (r: CrackOutcome)
    requires
        spec_file_name(request.bin@).len() > 0,
    ensures
        ({
            let name = spec_file_name(request.bin@);
            let wpath = spec_join(paths.bin_dir@, name);
            let wanted = spec_wrapper_contents(
                spec_install_folder(*paths),
                request.bin@,
                use_conan_wrappers,
            );
            &&& (db_has_wrapper(old(db)@, name) && answer is None ==> (r matches
            CrackOutcome::NeedsAnswer { message } && message@ == "Wrapper "@ + name
                + " already generated overwrite?"@) && final(db)@ == old(db)@)
            &&& (db_has_wrapper(old(db)@, name) && answer == Some(false) ==> r == (
            CrackOutcome::Skipped {  }) && final(db)@ == old(db)@)
            &&& (db_has_wrapper(old(db)@, name) && answer == Some(true) ==> (r matches
            CrackOutcome::Done { remove_first, script_path, contents } && (remove_first matches
            Some(p) && p@ == wpath) && script_path@ == wpath && contents@ == wanted) && final(db)@ == spec_register(
                spec_unregister_wrapper(old(db)@, name),
                name,
                spec_install_folder(*paths),
                request.data@,
            ))
            &&& (!db_has_wrapper(old(db)@, name) ==> (r matches CrackOutcome::Done {
                remove_first,
                script_path,
                contents,
            } && remove_first is None && script_path@ == wpath && contents@ == wanted) && final(db)@ == spec_register(old(db)@, name, spec_install_folder(*paths), request.data@))
        }),
{
    let bin_name = file_name(request.bin.as_str());
    let wrapper_path = join_path(paths.bin_dir.as_str(), bin_name.as_str());
    let install_folder = paths.install_folder();
    match db.wrapped(bin_name.as_str()) {
        Some(w) => {
            match answer {
                None => {
                    let mut message = String::from_str("Wrapper ");
                    message.append(bin_name.as_str());
                    message.append(" already generated overwrite?");
                    CrackOutcome::NeedsAnswer { message }
                },
                Some(false) => CrackOutcome::Skipped {  },
                Some(true) => {
                    db.unregister_wrapper(&w);
                    db.register_wrap(
                        bin_name.as_str(),
                        install_folder.as_str(),
                        clone_data(&request.data),
                    );
                    let contents = wrapper_contents(
                        install_folder.as_str(),
                        request.bin.as_str(),
                        use_conan_wrappers,
                    );
                    CrackOutcome::Done {
                        remove_first: Some(wrapper_path.clone()),
                        script_path: wrapper_path,
                        contents,
                    }
                },
            }
        },
        None => {
            db.register_wrap(
                bin_name.as_str(),
                install_folder.as_str(),
                clone_data(&request.data),
            );
            let contents = wrapper_contents(
                install_folder.as_str(),
                request.bin.as_str(),
                use_conan_wrappers,
            );
            CrackOutcome::Done { remove_first: None, script_path: wrapper_path, contents }
        },
    }
}

/// The file work a confirmed removal calls for, and the index text to
/// persist right away.
#[derive(Debug, PartialEq)]
pub struct RemovalPlan {
    pub remove_dir: String,
    pub remove_files: Vec<String>,
    pub index_contents: String,
}

/// What the collision check asks of its caller.
#[derive(Debug, PartialEq)]
pub enum CollisionOutcome {
    /// The folder is occupied: the caller must put the question to the
    /// user and call again with the answer.
    NeedsAnswer { message: String },
    /// The user declined: the whole install is abandoned untouched.
    Refused,
    /// The folder was free: proceed.
    Clean,
    /// The user consented: the entry is gone from the database; the caller
    /// removes the named directory and files, best effort, and writes the
    /// index text.
    Removed { plan: RemovalPlan },
}

/// The collision protocol before an install: an occupied install folder
/// may only be reused once the user consents to removing the package that
/// holds it, its wrapper files, and its database entry. The database is
/// saved immediately after a confirmed removal.
pub fn make_sure_if_empty(
    db: &mut CrackerDatabase,
    install_folder_exists: bool,
    pkg_name: &str,
    paths: &Paths,
    answer: Option<bool>,
) -> (r: CollisionOutcome)
    ensures
        ({
            let iff = spec_install_folder(*paths);
            let ws = spec_wrappers_of(old(db)@.wrapped, iff);
            &&& (!install_folder_exists ==> r == (CollisionOutcome::Clean {  }) && final(db)@ == old(db)@)
            &&& (install_folder_exists && answer is None ==> (r matches
            CollisionOutcome::NeedsAnswer { message } && message@ == "Package: "@ + pkg_name@
                + " already installed wraps: ["@ + spec_join_comma(ws)
                + "], to proceed that package has to be removed, remove?"@) && final(db)@ == old(db)@)
            &&& (install_folder_exists && answer == Some(false) ==> r == (
            CollisionOutcome::Refused {  }) && final(db)@ == old(db)@)
            &&& (install_folder_exists && answer == Some(true) ==> (r matches
            CollisionOutcome::Removed { plan } && plan.remove_dir@ == iff
                && plan.remove_files@.len() == ws.len() && (forall|k: int|
                0 <= k < ws.len() ==> plan.remove_files@[k]@ == spec_join(
                    paths.bin_dir@,
                    ws[k],
                )) && plan.index_contents@ == ser_db(
                spec_prune(spec_unregister_pkg(old(db)@, iff)),
            )) && final(db)@ == spec_unregister_pkg(old(db)@, iff))
        }),
{
    if !install_folder_exists {
        return CollisionOutcome::Clean {  };
    }
    let install_folder = paths.install_folder();
    let wrappers = db.wrappers(install_folder.as_str());
    match answer {
        None => {
            let mut message = String::from_str("Package: ");
            message.append(pkg_name);
            message.append(" already installed wraps: [");
            proof {
                assert(views_of_wrappers(wrappers@).skip(0) =~= views_of_wrappers(wrappers@));
            }
            append_names(&mut message, &wrappers, 0);
            message.append("], to proceed that package has to be removed, remove?");
            CollisionOutcome::NeedsAnswer { message }
        },
        Some(false) => CollisionOutcome::Refused {  },
        Some(true) => {
            let ghost ws = views_of_wrappers(wrappers@);
            let mut remove_files: Vec<String> = Vec::new();
            let mut j: usize = 0;
            while j < wrappers.len()
                invariant
                    j <= wrappers@.len(),
                    ws == views_of_wrappers(wrappers@),
                    remove_files@.len() == j,
                    forall|k: int| 0 <= k < j ==> remove_files@[k]@ == spec_join(
                        paths.bin_dir@,
                        ws[k],
                    ),
                decreases wrappers@.len() - j,
            {
                remove_files.push(
                    join_path(paths.bin_dir.as_str(), wrappers[j].wrapped_bin.as_str()),
                );
                j = j + 1;
            }
            db.unregister_pkg(install_folder.as_str());
            let index_contents = db.save();
            CollisionOutcome::Removed {
                plan: RemovalPlan { remove_dir: install_folder, remove_files, index_contents },
            }
        },
    }
}

/// Whether a discovered directory entry is wrapped: it must be a regular
/// file with any execute bit set, and must be named by the allow-list
/// when that list is non-empty.
pub fn should_wrap(is_file: bool, mode: u32, bin_name: &str, wrappers: &Vec<String>) -> (r: bool)
    ensures
        r == (is_file && mode & 0o111u32 != 0 && (wrappers@.len() == 0 || views_of_strings(
            wrappers@,
        ).contains(bin_name@))),
{
    if !is_file {
        return false;
    }
    if mode & 0o111u32 == 0 {
        return false;
    }
    if wrappers.len() == 0 {
        return true;
    }
    let name = String::from_str(bin_name);
    let mut j: usize = 0;
    while j < wrappers.len()
        invariant
            j <= wrappers@.len(),
            name@ == bin_name@,
            is_file,
            mode & 0o111u32 != 0,
            wrappers@.len() > 0,
            forall|k: int| 0 <= k < j ==> wrappers@[k]@ != bin_name@,
        decreases wrappers@.len() - j,
    {
        if wrappers[j] == name {
            proof {
                assert(views_of_strings(wrappers@)[j as int] == bin_name@);
                assert(views_of_strings(wrappers@).contains(bin_name@));
            }
            return true;
        }
        j = j + 1;
    }
    proof {
        if views_of_strings(wrappers@).contains(bin_name@) {
            let k = choose|k: int|
                0 <= k < views_of_strings(wrappers@).len() && views_of_strings(wrappers@)[k]
                    == bin_name@;
            assert(wrappers@[k]@ == bin_name@);
        }
    }
    false
}

/// One install to replay out of a saved database: the entry's install data
/// turned back into a request, with its wrapper names as the allow-list.
#[derive(Debug, PartialEq)]
pub enum ImportRequest {
    Conan { reference: String, settings: Vec<String>, options: Vec<String>, wrappers: Vec<String> },
    Git { url: String, search_paths: Vec<String>, wrappers: Vec<String> },
}

/// The request reconstructs the entry: the package-manager entry replays
/// from its canonical reference with the same settings and options; the
/// version-control entry replays from its URL and search paths; both carry
/// the entry's wrapper names as the allow-list.
pub open spec fn import_request_matches(q: ImportRequest, e: EntryView) -> bool {
    match e.data {
        InstallDataView::Conan { pkg, settings, options } => q matches ImportRequest::Conan {
            reference,
            settings: s2,
            options: o2,
            wrappers,
        } && reference@ == crate::conan_package::spec_full(pkg) && views_of_strings(s2@) == settings
            && views_of_strings(o2@) == options && views_of_strings(wrappers@) == e.wrappers,
        InstallDataView::Git { pkg_name, url, label, search_paths } => q matches
            ImportRequest::Git {
            url: u2,
            search_paths: sp2,
            wrappers,
        } && u2@ == url && views_of_strings(sp2@) == search_paths && views_of_strings(wrappers@)
            == e.wrappers,
    }
}

/// Rebuild one install request per entry of a saved database, in the
/// entries' stored order.
pub fn import_requests(db: &CrackerDatabase) -> (r: Vec<ImportRequest>)
    ensures
        r@.len() == db@.wrapped.len(),
        forall|k: int| 0 <= k < r@.len() ==> import_request_matches(r@[k], db@.wrapped[k]),
{
    let mut r: Vec<ImportRequest> = Vec::new();
    let n = db.wrapped.len();
    let mut i: usize = 0;
    while i < n
        invariant
            i <= n,
            n == db.wrapped@.len(),
            r@.len() == i,
            forall|k: int| 0 <= k < i ==> import_request_matches(r@[k], db@.wrapped[k]),
        decreases n - i,
    {
        let e = &db.wrapped[i];
        let mut wrappers: Vec<String> = Vec::new();
        let m = e.wrappers.len();
        let mut j: usize = 0;
        while j < m
            invariant
                j <= m,
                m == e.wrappers@.len(),
                wrappers@.len() == j,
                forall|k: int| 0 <= k < j ==> wrappers@[k]@ == e.wrappers@[k]@,
            decreases m - j,
        {
            wrappers.push(e.wrappers[j].wrapped_bin.clone());
            j = j + 1;
        }
        proof {
            assert(views_of_strings(wrappers@) =~= views_of_wrappers(e.wrappers@));
        }
        match &e.data {
            CrackerDatabaseData::Conan { conan_pkg, conan_settings, conan_options } => {
                r.push(
                    ImportRequest::Conan {
                        reference: conan_pkg.full(),
                        settings: clone_string_vec(conan_settings),
                        options: clone_string_vec(conan_options),
                        wrappers,
                    },
                );
            },
            CrackerDatabaseData::Git { pkg_name, url, label, search_paths } => {
                r.push(
                    ImportRequest::Git {
                        url: url.clone(),
                        search_paths: clone_string_vec(search_paths),
                        wrappers,
                    },
                );
            },
        }
        i = i + 1;
    }
    r
}

} // verus!
