//! The wrap database: the persisted record of every installed package and
//! the executables it exposes. Registration groups wrappers by structurally
//! equal install data; unregistration removes a wrapper from every entry.
use vstd::prelude::*;
use vstd::string::StringExecFns;
use crate::conan_package::ConanPackage;
use crate::conan_package::PackageView;

verus! {

/// A named executable exposed on the PATH through a generated script.
#[derive(Debug, PartialEq, Eq, Clone)]
pub struct Wrapper {
    pub wrapped_bin: String,
}

impl View for Wrapper {
    type V = Seq<char>;

    open spec fn view(&self) -> Seq<char> {
        self.wrapped_bin@
    }
}

/// What one install was made from: a package-manager reference with its
/// settings and options, or a version-control checkout.
#[derive(Debug, PartialEq, Clone)]
pub enum CrackerDatabaseData {
    Conan { conan_pkg: ConanPackage, conan_settings: Vec<String>, conan_options: Vec<String> },
    Git { pkg_name: String, url: String, label: String, search_paths: Vec<String> },
}

pub ghost enum InstallDataView {
    Conan { pkg: PackageView, settings: Seq<Seq<char>>, options: Seq<Seq<char>> },
    Git { pkg_name: Seq<char>, url: Seq<char>, label: Seq<char>, search_paths: Seq<Seq<char>> },
}

/// The views of a vector of strings.
pub open spec fn views_of_strings(v: Seq<String>) -> Seq<Seq<char>> {
    v.map_values(|s: String| s@)
}

/// The views of a vector of wrappers.
pub open spec fn views_of_wrappers(v: Seq<Wrapper>) -> Seq<Seq<char>> {
    v.map_values(|w: Wrapper| w@)
}

impl View for CrackerDatabaseData {
    type V = InstallDataView;

    open spec fn view(&self) -> InstallDataView {
        match self {
            CrackerDatabaseData::Conan { conan_pkg, conan_settings, conan_options } => InstallDataView::Conan {
                pkg: conan_pkg@,
                settings: views_of_strings(conan_settings@),
                options: views_of_strings(conan_options@),
            },
            CrackerDatabaseData::Git { pkg_name, url, label, search_paths } => InstallDataView::Git {
                pkg_name: pkg_name@,
                url: url@,
                label: label@,
                search_paths: views_of_strings(search_paths@),
            },
        }
    }
}

/// One row of the database: the install data, the wrappers it owns, and the
/// folder it occupies.
#[derive(Debug, PartialEq, Clone)]
pub struct CrackerDatabaseEntry {
    pub data: CrackerDatabaseData,
    pub wrappers: Vec<Wrapper>,
    pub install_folder: String,
}

pub ghost struct EntryView {
    pub data: InstallDataView,
    pub wrappers: Seq<Seq<char>>,
    pub install_folder: Seq<char>,
}

impl View for CrackerDatabaseEntry {
    type V = EntryView;

    open spec fn view(&self) -> EntryView {
        EntryView {
            data: self.data@,
            wrappers: views_of_wrappers(self.wrappers@),
            install_folder: self.install_folder@,
        }
    }
}

/// The views of a vector of entries.
pub open spec fn views_of_entries(v: Seq<CrackerDatabaseEntry>) -> Seq<EntryView> {
    v.map_values(|e: CrackerDatabaseEntry| e@)
}

/// The whole persisted state: the entries, and the identity of the user the
/// storage root belongs to. The owner never changes after creation.
#[derive(Debug, PartialEq, Clone)]
pub struct CrackerDatabase {
    pub wrapped: Vec<CrackerDatabaseEntry>,
    pub storage_owned_by: String,
}

pub ghost struct DbView {
    pub wrapped: Seq<EntryView>,
    pub storage_owned_by: Seq<char>,
}

impl View for CrackerDatabase {
    type V = DbView;

    open spec fn view(&self) -> DbView {
        DbView { wrapped: views_of_entries(self.wrapped@), storage_owned_by: self.storage_owned_by@ }
    }
}

/// Some entry of the database owns a wrapper of this name.
pub open spec fn db_has_wrapper(db: DbView, name: Seq<char>) -> bool {
    exists|i: int| 0 <= i < db.wrapped.len() && db.wrapped[i].wrappers.contains(name)
}

/// The wrapper names of the first entry at this install folder, empty when
/// no entry occupies it.
pub open spec fn spec_wrappers_of(es: Seq<EntryView>, folder: Seq<char>) -> Seq<Seq<char>>
    decreases es.len(),
{
    if es.len() == 0 {
        Seq::<Seq<char>>::empty()
    } else if es[0].install_folder == folder {
        es[0].wrappers
    } else {
        spec_wrappers_of(es.skip(1), folder)
    }
}

/// Registration: the first entry with structurally equal data gains the
/// wrapper; when none exists a fresh entry is appended.
pub open spec fn spec_register_entries(
    es: Seq<EntryView>,
    name: Seq<char>,
    folder: Seq<char>,
    data: InstallDataView,
) -> Seq<EntryView>
    decreases es.len(),
{
    if es.len() == 0 {
        seq![EntryView { data, wrappers: seq![name], install_folder: folder }]
    } else if es[0].data == data {
        seq![
            EntryView {
                data: es[0].data,
                wrappers: es[0].wrappers.push(name),
                install_folder: es[0].install_folder,
            },
        ] + es.skip(1)
    } else {
        seq![es[0]] + spec_register_entries(es.skip(1), name, folder, data)
    }
}

pub open spec fn spec_register(db: DbView, name: Seq<char>, folder: Seq<char>, data: InstallDataView) -> DbView {
    DbView {
        wrapped: spec_register_entries(db.wrapped, name, folder, data),
        storage_owned_by: db.storage_owned_by,
    }
}

/// A wrapper list with every occurrence of one name removed.
pub open spec fn spec_remove_wrapper_name(ws: Seq<Seq<char>>, name: Seq<char>) -> Seq<Seq<char>>
    decreases ws.len(),
{
    if ws.len() == 0 {
        Seq::<Seq<char>>::empty()
    } else {
        let rest = spec_remove_wrapper_name(ws.drop_last(), name);
        if ws.last() == name {
            rest
        } else {
            rest.push(ws.last())
        }
    }
}

/// The entries that do not occupy one install folder.
pub open spec fn spec_entries_without_folder(es: Seq<EntryView>, folder: Seq<char>) -> Seq<
    EntryView,
>
    decreases es.len(),
{
    if es.len() == 0 {
        Seq::<EntryView>::empty()
    } else {
        let rest = spec_entries_without_folder(es.drop_last(), folder);
        if es.last().install_folder == folder {
            rest
        } else {
            rest.push(es.last())
        }
    }
}

/// The entries that still own at least one wrapper.
pub open spec fn spec_nonempty_entries(es: Seq<EntryView>) -> Seq<EntryView>
    decreases es.len(),
{
    if es.len() == 0 {
        Seq::<EntryView>::empty()
    } else {
        let rest = spec_nonempty_entries(es.drop_last());
        if es.last().wrappers.len() == 0 {
            rest
        } else {
            rest.push(es.last())
        }
    }
}

/// Unregistration of one wrapper: the name disappears from every entry.
pub open spec fn spec_unregister_wrapper(db: DbView, name: Seq<char>) -> DbView {
    DbView {
        wrapped: db.wrapped.map_values(
            |e: EntryView| EntryView {
                data: e.data,
                wrappers: spec_remove_wrapper_name(e.wrappers, name),
                install_folder: e.install_folder,
            },
        ),
        storage_owned_by: db.storage_owned_by,
    }
}

/// Unregistration of a package: every entry at the folder disappears.
pub open spec fn spec_unregister_pkg(db: DbView, folder: Seq<char>) -> DbView {
    DbView {
        wrapped: spec_entries_without_folder(db.wrapped, folder),
        storage_owned_by: db.storage_owned_by,
    }
}

/// Pruning: entries that own no wrapper are dropped. Runs before every save.
pub open spec fn spec_prune(db: DbView) -> DbView {
    DbView { wrapped: spec_nonempty_entries(db.wrapped), storage_owned_by: db.storage_owned_by }
}

/// The removed name is absent from the filtered wrapper list.
pub proof fn lemma_remove_wrapper_name_absent(ws: Seq<Seq<char>>, name: Seq<char>)
    ensures
        !spec_remove_wrapper_name(ws, name).contains(name),
    decreases ws.len(),
{
    if ws.len() > 0 {
        lemma_remove_wrapper_name_absent(ws.drop_last(), name);
        let rest = spec_remove_wrapper_name(ws.drop_last(), name);
        if ws.last() != name {
            assert forall|i: int| 0 <= i < rest.push(ws.last()).len() implies rest.push(
                ws.last(),
            )[i] != name by {
                if i < rest.len() {
                    assert(!rest.contains(name));
                }
            }
        }
    }
}

/// Every pruned entry still owns a wrapper.
pub proof fn lemma_nonempty_entries_nonempty(es: Seq<EntryView>)
    ensures
        forall|i: int| 0 <= i < spec_nonempty_entries(es).len() ==> spec_nonempty_entries(
            es,
        )[i].wrappers.len() > 0,
    decreases es.len(),
{
    if es.len() > 0 {
        lemma_nonempty_entries_nonempty(es.drop_last());
    }
}

/// Compare two string vectors by contents.
fn string_vec_eq(a: &Vec<String>, b: &Vec<String>) -> (r: bool)
    ensures
        r == (views_of_strings(a@) == views_of_strings(b@)),
{
    if a.len() != b.len() {
        assert(views_of_strings(a@).len() != views_of_strings(b@).len());
        return false;
    }
    let n = a.len();
    let mut i: usize = 0;
    while i < n
        invariant
            i <= n,
            n == a@.len() == b@.len(),
            forall|k: int| 0 <= k < i ==> a@[k]@ == b@[k]@,
        decreases n - i,
    {
        if !(a[i] == b[i]) {
            assert(views_of_strings(a@)[i as int] != views_of_strings(b@)[i as int]);
            return false;
        }
        i = i + 1;
    }
    assert(views_of_strings(a@) =~= views_of_strings(b@));
    true
}

/// Compare two package references by contents.
fn pkg_eq(a: &ConanPackage, b: &ConanPackage) -> (r: bool)
    ensures
        r == (a@ == b@),
{
    let r = a.name == b.name && a.version == b.version && a.user == b.user && a.channel
        == b.channel;
    r
}

/// Structural equality of install data: the identity of "the same install".
pub fn data_eq(a: &CrackerDatabaseData, b: &CrackerDatabaseData) -> (r: bool)
    ensures
        r == (a@ == b@),
{
    match (a, b) {
        (
            CrackerDatabaseData::Conan { conan_pkg: p1, conan_settings: s1, conan_options: o1 },
            CrackerDatabaseData::Conan { conan_pkg: p2, conan_settings: s2, conan_options: o2 },
        ) => pkg_eq(p1, p2) && string_vec_eq(s1, s2) && string_vec_eq(o1, o2),
        (
            CrackerDatabaseData::Git { pkg_name: n1, url: u1, label: l1, search_paths: sp1 },
            CrackerDatabaseData::Git { pkg_name: n2, url: u2, label: l2, search_paths: sp2 },
        ) => *n1 == *n2 && *u1 == *u2 && *l1 == *l2 && string_vec_eq(sp1, sp2),
        (CrackerDatabaseData::Conan { .. }, CrackerDatabaseData::Git { .. }) => false,
        (CrackerDatabaseData::Git { .. }, CrackerDatabaseData::Conan { .. }) => false,
    }
}

/// Copy a string vector.
pub(crate) fn clone_string_vec(v: &Vec<String>) -> (r: Vec<String>)
    ensures
        views_of_strings(r@) == views_of_strings(v@),
{
    let mut r: Vec<String> = Vec::new();
    let mut i: usize = 0;
    while i < v.len()
        invariant
            i <= v@.len(),
            r@.len() == i,
            forall|k: int| 0 <= k < i ==> r@[k]@ == v@[k]@,
        decreases v@.len() - i,
    {
        r.push(v[i].clone());
        i = i + 1;
    }
    assert(views_of_strings(r@) =~= views_of_strings(v@));
    r
}

/// Copy install data.
pub fn clone_data(d: &CrackerDatabaseData) -> (r: CrackerDatabaseData)
    ensures
        r@ == d@,
{
    match d {
        CrackerDatabaseData::Conan { conan_pkg, conan_settings, conan_options } => {
            CrackerDatabaseData::Conan {
                conan_pkg: ConanPackage {
                    name: conan_pkg.name.clone(),
                    version: conan_pkg.version.clone(),
                    user: conan_pkg.user.clone(),
                    channel: conan_pkg.channel.clone(),
                },
                conan_settings: clone_string_vec(conan_settings),
                conan_options: clone_string_vec(conan_options),
            }
        },
        CrackerDatabaseData::Git { pkg_name, url, label, search_paths } => {
            CrackerDatabaseData::Git {
                pkg_name: pkg_name.clone(),
                url: url.clone(),
                label: label.clone(),
                search_paths: clone_string_vec(search_paths),
            }
        },
    }
}

/// Copy a wrapper list.
fn clone_wrappers(v: &Vec<Wrapper>) -> (r: Vec<Wrapper>)
    ensures
        views_of_wrappers(r@) == views_of_wrappers(v@),
{
    let mut r: Vec<Wrapper> = Vec::new();
    let mut i: usize = 0;
    while i < v.len()
        invariant
            i <= v@.len(),
            r@.len() == i,
            forall|k: int| 0 <= k < i ==> r@[k]@ == v@[k]@,
        decreases v@.len() - i,
    {
        r.push(Wrapper { wrapped_bin: v[i].wrapped_bin.clone() });
        i = i + 1;
    }
    assert(views_of_wrappers(r@) =~= views_of_wrappers(v@));
    r
}

/// Copy an entry.
fn clone_entry(e: &CrackerDatabaseEntry) -> (r: CrackerDatabaseEntry)
    ensures
        r@ == e@,
{
    CrackerDatabaseEntry {
        data: clone_data(&e.data),
        wrappers: clone_wrappers(&e.wrappers),
        install_folder: e.install_folder.clone(),
    }
}

/// Registration lands on the first entry with equal data.
proof fn lemma_register_entries_found(
    es: Seq<EntryView>,
    name: Seq<char>,
    folder: Seq<char>,
    data: InstallDataView,
    i: int,
)
    requires
        0 <= i < es.len(),
        es[i].data == data,
        forall|k: int| 0 <= k < i ==> es[k].data != data,
    ensures
        spec_register_entries(es, name, folder, data) == es.update(
            i,
            EntryView {
                data: es[i].data,
                wrappers: es[i].wrappers.push(name),
                install_folder: es[i].install_folder,
            },
        ),
    decreases i,
{
    if i == 0 {
        assert(spec_register_entries(es, name, folder, data) =~= es.update(
            0,
            EntryView {
                data: es[0].data,
                wrappers: es[0].wrappers.push(name),
                install_folder: es[0].install_folder,
            },
        ));
    } else {
        lemma_register_entries_found(es.skip(1), name, folder, data, i - 1);
        assert(spec_register_entries(es, name, folder, data) =~= es.update(
            i,
            EntryView {
                data: es[i].data,
                wrappers: es[i].wrappers.push(name),
                install_folder: es[i].install_folder,
            },
        ));
    }
}

/// Registration with unseen data appends one fresh entry.
proof fn lemma_register_entries_absent(
    es: Seq<EntryView>,
    name: Seq<char>,
    folder: Seq<char>,
    data: InstallDataView,
)
    requires
        forall|k: int| 0 <= k < es.len() ==> es[k].data != data,
    ensures
        spec_register_entries(es, name, folder, data) == es + seq![
            EntryView { data, wrappers: seq![name], install_folder: folder },
        ],
    decreases es.len(),
{
    if es.len() == 0 {
        assert(spec_register_entries(es, name, folder, data) =~= es + seq![
            EntryView { data, wrappers: seq![name], install_folder: folder },
        ]);
    } else {
        lemma_register_entries_absent(es.skip(1), name, folder, data);
        assert(spec_register_entries(es, name, folder, data) =~= es + seq![
            EntryView { data, wrappers: seq![name], install_folder: folder },
        ]);
    }
}

impl CrackerDatabase {
    /// A fresh, empty database stamped with the identity of the user who
    /// initializes the storage root.
    pub fn new(storage_owned_by: String) -> (r: CrackerDatabase)
        ensures
            r@.wrapped.len() == 0,
            r@.storage_owned_by == storage_owned_by@,
    {
        let r = CrackerDatabase { wrapped: Vec::new(), storage_owned_by };
        proof {
            assert(r@.wrapped =~= Seq::<EntryView>::empty());
        }
        r
    }

    /// The wrapper of this exact name, from whichever entry owns it.
    pub fn wrapped(&self, wrapper_name: &str) -> (r: Option<Wrapper>)
        ensures
            match r {
                Some(w) => w@ == wrapper_name@ && db_has_wrapper(self@, wrapper_name@),
                None => !db_has_wrapper(self@, wrapper_name@),
            },
    {
        let name = String::from_str(wrapper_name);
        let n = self.wrapped.len();
        let mut i: usize = 0;
        while i < n
            invariant
                i <= n,
                n == self.wrapped@.len(),
                name@ == wrapper_name@,
                forall|k: int| 0 <= k < i ==> !self@.wrapped[k].wrappers.contains(wrapper_name@),
            decreases n - i,
        {
            let ws = &self.wrapped[i].wrappers;
            let m = ws.len();
            let mut j: usize = 0;
            while j < m
                invariant
                    j <= m,
                    m == ws@.len(),
                    ws@ == self.wrapped@[i as int].wrappers@,
                    i < n == self.wrapped@.len(),
                    name@ == wrapper_name@,
                    forall|k: int| 0 <= k < j ==> ws@[k]@ != wrapper_name@,
                decreases m - j,
            {
                if ws[j].wrapped_bin == name {
                    assert(self@.wrapped[i as int].wrappers[j as int] == wrapper_name@);
                    return Some(Wrapper { wrapped_bin: ws[j].wrapped_bin.clone() });
                }
                j = j + 1;
            }
            proof {
                if self@.wrapped[i as int].wrappers.contains(wrapper_name@) {
                    let k = choose|k: int|
                        0 <= k < self@.wrapped[i as int].wrappers.len()
                            && self@.wrapped[i as int].wrappers[k] == wrapper_name@;
                    assert(ws@[k]@ == wrapper_name@);
                }
            }
            i = i + 1;
        }
        None
    }

    /// All wrappers currently owned by the entry at this install folder;
    /// empty when no entry occupies it.
    pub fn wrappers(&self, install_folder: &str) -> (r: Vec<Wrapper>)
        ensures
            views_of_wrappers(r@) == spec_wrappers_of(self@.wrapped, install_folder@),
    {
        let folder = String::from_str(install_folder);
        let n = self.wrapped.len();
        let mut i: usize = 0;
        proof {
            assert(self@.wrapped.skip(0) =~= self@.wrapped);
        }
        while i < n
            invariant
                i <= n,
                n == self.wrapped@.len(),
                folder@ == install_folder@,
                spec_wrappers_of(self@.wrapped, install_folder@) == spec_wrappers_of(
                    self@.wrapped.skip(i as int),
                    install_folder@,
                ),
            decreases n - i,
        {
            proof {
                assert(self@.wrapped.skip(i as int)[0] == self@.wrapped[i as int]);
                assert(self@.wrapped.skip(i as int).skip(1) =~= self@.wrapped.skip(i + 1));
            }
            if self.wrapped[i].install_folder == folder {
                return clone_wrappers(&self.wrapped[i].wrappers);
            }
            i = i + 1;
        }
        proof {
            assert(self@.wrapped.skip(n as int) =~= Seq::<EntryView>::empty());
        }
        Vec::new()
    }

    /// Register a wrapper under the entry whose data is structurally equal
    /// to `data`, creating the entry when none exists. Never creates a
    /// second entry for the same data.
    pub fn register_wrap(&mut self, binary: &str, pkg_dir: &str, data: CrackerDatabaseData)
        ensures
            final(self)@ == spec_register(old(self)@, binary@, pkg_dir@, data@),
    {
        let ghost old_es = self@.wrapped;
        let n = self.wrapped.len();
        let mut found: Option<usize> = None;
        let mut i: usize = 0;
        while i < n
            invariant
                i <= n,
                n == self.wrapped@.len(),
                match found {
                    Some(f) => f < i && old_es[f as int].data == data@ && forall|k: int|
                        0 <= k < f ==> old_es[k].data != data@,
                    None => forall|k: int| 0 <= k < i ==> old_es[k].data != data@,
                },
                self@.wrapped == old_es,
            decreases n - i,
        {
            if found.is_none() && data_eq(&self.wrapped[i].data, &data) {
                found = Some(i);
            }
            i = i + 1;
        }
        match found {
            Some(f) => {
                let mut e = self.wrapped.remove(f);
                e.wrappers.push(Wrapper { wrapped_bin: String::from_str(binary) });
                self.wrapped.insert(f, e);
                proof {
                    lemma_register_entries_found(old_es, binary@, pkg_dir@, data@, f as int);
                    assert(views_of_wrappers(e.wrappers@) =~= old_es[f as int].wrappers.push(
                        binary@,
                    ));
                    assert(views_of_entries(self.wrapped@) =~= old_es.update(
                        f as int,
                        EntryView {
                            data: old_es[f as int].data,
                            wrappers: old_es[f as int].wrappers.push(binary@),
                            install_folder: old_es[f as int].install_folder,
                        },
                    ));
                }
            },
            None => {
                let mut ws: Vec<Wrapper> = Vec::new();
                ws.push(Wrapper { wrapped_bin: String::from_str(binary) });
                let e = CrackerDatabaseEntry {
                    data,
                    wrappers: ws,
                    install_folder: String::from_str(pkg_dir),
                };
                proof {
                    assert(views_of_wrappers(e.wrappers@) =~= seq![binary@]);
                }
                self.wrapped.push(e);
                proof {
                    lemma_register_entries_absent(old_es, binary@, pkg_dir@, data@);
                    assert(views_of_entries(self.wrapped@) =~= old_es + seq![
                        EntryView { data: data@, wrappers: seq![binary@], install_folder: pkg_dir@ },
                    ]);
                }
            },
        }
    }

    /// Remove this wrapper, by name, from every entry that lists it.
    pub fn unregister_wrapper(&mut self, wrap: &Wrapper)
        ensures
            final(self)@ == spec_unregister_wrapper(old(self)@, wrap@),
            forall|i: int| 0 <= i < final(self)@.wrapped.len() ==> !final(self)@.wrapped[i].wrappers.contains(
                wrap@,
            ),
    {
        let ghost old_es = self@.wrapped;
        let ghost name = wrap@;
        let n = self.wrapped.len();
        let mut out: Vec<CrackerDatabaseEntry> = Vec::new();
        let mut i: usize = 0;
        while i < n
            invariant
                i <= n,
                n == self.wrapped@.len(),
                self@.wrapped == old_es,
                name == wrap@,
                out@.len() == i,
                forall|k: int| 0 <= k < i ==> out@[k]@ == (EntryView {
                    data: old_es[k].data,
                    wrappers: spec_remove_wrapper_name(old_es[k].wrappers, name),
                    install_folder: old_es[k].install_folder,
                }),
            decreases n - i,
        {
            let e = &self.wrapped[i];
            let mut ws: Vec<Wrapper> = Vec::new();
            let m = e.wrappers.len();
            let mut j: usize = 0;
            proof {
                assert(views_of_wrappers(e.wrappers@).take(0) =~= Seq::<Seq<char>>::empty());
                assert(views_of_wrappers(ws@) =~= Seq::<Seq<char>>::empty());
            }
            while j < m
                invariant
                    j <= m,
                    m == e.wrappers@.len(),
                    name == wrap@,
                    views_of_wrappers(ws@) == spec_remove_wrapper_name(
                        views_of_wrappers(e.wrappers@).take(j as int),
                        name,
                    ),
                decreases m - j,
            {
                proof {
                    let prefix = views_of_wrappers(e.wrappers@).take(j as int);
                    let x = e.wrappers@[j as int]@;
                    assert(views_of_wrappers(e.wrappers@).take(j + 1) =~= prefix.push(x));
                    assert(prefix.push(x).drop_last() =~= prefix);
                    assert(prefix.push(x).last() == x);
                }
                let ghost prev = ws@;
                if !(e.wrappers[j].wrapped_bin == wrap.wrapped_bin) {
                    ws.push(Wrapper { wrapped_bin: e.wrappers[j].wrapped_bin.clone() });
                    proof {
                        assert(views_of_wrappers(ws@) =~= views_of_wrappers(prev).push(
                            e.wrappers@[j as int]@,
                        ));
                    }
                }
                j = j + 1;
            }
            proof {
                assert(views_of_wrappers(e.wrappers@).take(m as int) =~= views_of_wrappers(
                    e.wrappers@,
                ));
            }
            out.push(
                CrackerDatabaseEntry {
                    data: clone_data(&e.data),
                    wrappers: ws,
                    install_folder: e.install_folder.clone(),
                },
            );
            i = i + 1;
        }
        self.wrapped = out;
        proof {
            assert(views_of_entries(self.wrapped@) =~= spec_unregister_wrapper(
                DbView { wrapped: old_es, storage_owned_by: old(self)@.storage_owned_by },
                name,
            ).wrapped);
            assert forall|i: int|
                0 <= i < self@.wrapped.len() implies !self@.wrapped[i].wrappers.contains(
                wrap@,
            ) by {
                lemma_remove_wrapper_name_absent(old_es[i].wrappers, name);
            }
        }
    }

    /// Drop the whole entry at this install folder.
    pub fn unregister_pkg(&mut self, install_folder: &str)
        ensures
            final(self)@ == spec_unregister_pkg(old(self)@, install_folder@),
    {
        let ghost old_es = self@.wrapped;
        let folder = String::from_str(install_folder);
        let n = self.wrapped.len();
        let mut out: Vec<CrackerDatabaseEntry> = Vec::new();
        let mut i: usize = 0;
        proof {
            assert(old_es.take(0) =~= Seq::<EntryView>::empty());
            assert(views_of_entries(out@) =~= Seq::<EntryView>::empty());
        }
        while i < n
            invariant
                i <= n,
                n == self.wrapped@.len(),
                self@.wrapped == old_es,
                folder@ == install_folder@,
                views_of_entries(out@) == spec_entries_without_folder(
                    old_es.take(i as int),
                    install_folder@,
                ),
            decreases n - i,
        {
            proof {
                let prefix = old_es.take(i as int);
                let x = old_es[i as int];
                assert(old_es.take(i + 1) =~= prefix.push(x));
                assert(prefix.push(x).drop_last() =~= prefix);
                assert(prefix.push(x).last() == x);
            }
            let ghost prev = out@;
            if !(self.wrapped[i].install_folder == folder) {
                out.push(clone_entry(&self.wrapped[i]));
                proof {
                    assert(views_of_entries(out@) =~= views_of_entries(prev).push(
                        old_es[i as int],
                    ));
                }
            }
            i = i + 1;
        }
        proof {
            assert(old_es.take(n as int) =~= old_es);
        }
        self.wrapped = out;
    }

    /// The database as persisted: the same state with empty entries pruned.
    pub fn pruned(&self) -> (r: CrackerDatabase)
        ensures
            r@ == spec_prune(self@),
    {
        let ghost old_es = self@.wrapped;
        let n = self.wrapped.len();
        let mut out: Vec<CrackerDatabaseEntry> = Vec::new();
        let mut i: usize = 0;
        proof {
            assert(old_es.take(0) =~= Seq::<EntryView>::empty());
            assert(views_of_entries(out@) =~= Seq::<EntryView>::empty());
        }
        while i < n
            invariant
                i <= n,
                n == self.wrapped@.len(),
                old_es == self@.wrapped,
                views_of_entries(out@) == spec_nonempty_entries(old_es.take(i as int)),
            decreases n - i,
        {
            proof {
                let prefix = old_es.take(i as int);
                let x = old_es[i as int];
                assert(old_es.take(i + 1) =~= prefix.push(x));
                assert(prefix.push(x).drop_last() =~= prefix);
                assert(prefix.push(x).last() == x);
            }
            let ghost prev = out@;
            if self.wrapped[i].wrappers.len() > 0 {
                out.push(clone_entry(&self.wrapped[i]));
                proof {
                    assert(views_of_wrappers(self.wrapped@[i as int].wrappers@).len() > 0);
                    assert(views_of_entries(out@) =~= views_of_entries(prev).push(
                        old_es[i as int],
                    ));
                }
            } else {
                proof {
                    assert(views_of_wrappers(self.wrapped@[i as int].wrappers@).len() == 0);
                }
            }
            i = i + 1;
        }
        proof {
            assert(old_es.take(n as int) =~= old_es);
        }
        CrackerDatabase { wrapped: out, storage_owned_by: self.storage_owned_by.clone() }
    }
}

/// Registering under equal data never adds an entry: the existing one gains
/// the wrapper. Registering under unseen data appends exactly one entry.
/// In particular, two registrations with structurally equal data land in one
/// entry, and two with different data create two entries.
pub proof fn lemma_register_groups_by_data(
    db: DbView,
    n1: Seq<char>,
    n2: Seq<char>,
    f1: Seq<char>,
    f2: Seq<char>,
    d1: InstallDataView,
    d2: InstallDataView,
)
    requires
        forall|k: int| 0 <= k < db.wrapped.len() ==> db.wrapped[k].data != d1,
        forall|k: int| 0 <= k < db.wrapped.len() ==> db.wrapped[k].data != d2,
    ensures
        d1 == d2 ==> {
            let after = spec_register(spec_register(db, n1, f1, d1), n2, f2, d2);
            &&& after.wrapped.len() == db.wrapped.len() + 1
            &&& after.wrapped.last().wrappers == seq![n1, n2]
            &&& after.wrapped.last().data == d1
        },
        d1 != d2 ==> {
            let after = spec_register(spec_register(db, n1, f1, d1), n2, f2, d2);
            &&& after.wrapped.len() == db.wrapped.len() + 2
            &&& after.wrapped[after.wrapped.len() - 2].wrappers == seq![n1]
            &&& after.wrapped[after.wrapped.len() - 2].data == d1
            &&& after.wrapped.last().wrappers == seq![n2]
            &&& after.wrapped.last().data == d2
        },
{
    lemma_register_entries_absent(db.wrapped, n1, f1, d1);
    let mid = spec_register(db, n1, f1, d1);
    if d1 == d2 {
        lemma_register_entries_found(mid.wrapped, n2, f2, d2, db.wrapped.len() as int);
        assert(mid.wrapped[db.wrapped.len() as int].wrappers.push(n2) =~= seq![n1, n2]);
    } else {
        assert(forall|k: int| 0 <= k < mid.wrapped.len() ==> mid.wrapped[k].data != d2);
        lemma_register_entries_absent(mid.wrapped, n2, f2, d2);
    }
}

/// How often a name occurs in one wrapper list.
pub open spec fn spec_name_count_in(ws: Seq<Seq<char>>, name: Seq<char>) -> int
    decreases ws.len(),
{
    if ws.len() == 0 {
        0
    } else {
        spec_name_count_in(ws.drop_last(), name) + (if ws.last() == name {
            1int
        } else {
            0int
        })
    }
}

/// How often a name occurs over all entries of the database.
pub open spec fn spec_name_count(es: Seq<EntryView>, name: Seq<char>) -> int
    decreases es.len(),
{
    if es.len() == 0 {
        0
    } else {
        spec_name_count(es.drop_last(), name) + spec_name_count_in(es.last().wrappers, name)
    }
}

proof fn lemma_count_in_zero(ws: Seq<Seq<char>>, name: Seq<char>)
    ensures
        spec_name_count_in(ws, name) >= 0,
        (spec_name_count_in(ws, name) == 0) <==> !ws.contains(name),
    decreases ws.len(),
{
    if ws.len() > 0 {
        lemma_count_in_zero(ws.drop_last(), name);
        if ws.contains(name) {
            let k = choose|k: int| 0 <= k < ws.len() && ws[k] == name;
            if k < ws.len() - 1 {
                assert(ws.drop_last()[k] == name);
                assert(ws.drop_last().contains(name));
            }
        }
        if ws.drop_last().contains(name) {
            let k = choose|k: int| 0 <= k < ws.drop_last().len() && ws.drop_last()[k] == name;
            assert(ws[k] == name);
        }
    }
}

proof fn lemma_count_zero(es: Seq<EntryView>, name: Seq<char>)
    ensures
        spec_name_count(es, name) >= 0,
        (spec_name_count(es, name) == 0) <==> (forall|i: int|
            0 <= i < es.len() ==> !es[i].wrappers.contains(name)),
    decreases es.len(),
{
    if es.len() > 0 {
        lemma_count_zero(es.drop_last(), name);
        lemma_count_in_zero(es.last().wrappers, name);
        assert forall|i: int| 0 <= i < es.len() - 1 implies es.drop_last()[i] == es[i] by {}
    }
}

proof fn lemma_count_concat(a: Seq<EntryView>, b: Seq<EntryView>, name: Seq<char>)
    ensures
        spec_name_count(a + b, name) == spec_name_count(a, name) + spec_name_count(b, name),
    decreases b.len(),
{
    if b.len() == 0 {
        assert(a + b =~= a);
    } else {
        lemma_count_concat(a, b.drop_last(), name);
        assert((a + b).drop_last() =~= a + b.drop_last());
        assert((a + b).last() == b.last());
    }
}

/// Registration adds exactly one occurrence of the registered name.
proof fn lemma_register_count(
    es: Seq<EntryView>,
    name: Seq<char>,
    folder: Seq<char>,
    data: InstallDataView,
)
    ensures
        spec_name_count(spec_register_entries(es, name, folder, data), name) == spec_name_count(
            es,
            name,
        ) + 1,
    decreases es.len(),
{
    let fresh = EntryView { data, wrappers: seq![name], install_folder: folder };
    if es.len() == 0 {
        let out = seq![fresh];
        assert(out.drop_last() =~= Seq::<EntryView>::empty());
        assert(seq![name].drop_last() =~= Seq::<Seq<char>>::empty());
        assert(spec_name_count_in(Seq::<Seq<char>>::empty(), name) == 0);
        assert(seq![name].last() == name);
        assert(spec_name_count_in(seq![name], name) == 1);
        assert(spec_name_count(Seq::<EntryView>::empty(), name) == 0);
        assert(out.last() == fresh);
        assert(spec_name_count(out, name) == 1);
    } else if es[0].data == data {
        let updated = EntryView {
            data: es[0].data,
            wrappers: es[0].wrappers.push(name),
            install_folder: es[0].install_folder,
        };
        let out = seq![updated] + es.skip(1);
        assert(es[0].wrappers.push(name).drop_last() =~= es[0].wrappers);
        assert(spec_name_count_in(es[0].wrappers.push(name), name) == spec_name_count_in(
            es[0].wrappers,
            name,
        ) + 1);
        assert(seq![updated].drop_last() =~= Seq::<EntryView>::empty());
        assert(seq![es[0]].drop_last() =~= Seq::<EntryView>::empty());
        lemma_count_concat(seq![updated], es.skip(1), name);
        lemma_count_concat(seq![es[0]], es.skip(1), name);
        assert(seq![es[0]] + es.skip(1) =~= es);
    } else {
        lemma_register_count(es.skip(1), name, folder, data);
        let out = seq![es[0]] + spec_register_entries(es.skip(1), name, folder, data);
        lemma_count_concat(seq![es[0]], spec_register_entries(es.skip(1), name, folder, data), name);
        lemma_count_concat(seq![es[0]], es.skip(1), name);
        assert(seq![es[0]].drop_last() =~= Seq::<EntryView>::empty());
        assert(seq![es[0]] + es.skip(1) =~= es);
    }
}

/// The wrap protocol keeps wrapper names unique across the database: a
/// name is registered only into a database that does not hold it, either
/// because it never did or because the overwrite path removed it first,
/// and afterwards the whole database holds exactly one occurrence.
pub proof fn lemma_wrapper_name_unique(
    db: DbView,
    name: Seq<char>,
    folder: Seq<char>,
    data: InstallDataView,
)
    ensures
        spec_name_count(spec_unregister_wrapper(db, name).wrapped, name) == 0,
        !db_has_wrapper(db, name) ==> spec_name_count(
            spec_register(db, name, folder, data).wrapped,
            name,
        ) == 1,
        spec_name_count(
            spec_register(spec_unregister_wrapper(db, name), name, folder, data).wrapped,
            name,
        ) == 1,
{
    let removed = spec_unregister_wrapper(db, name);
    lemma_count_zero(removed.wrapped, name);
    assert forall|i: int| 0 <= i < removed.wrapped.len() implies !removed.wrapped[i].wrappers.contains(
        name,
    ) by {
        lemma_remove_wrapper_name_absent(db.wrapped[i].wrappers, name);
    }
    if !db_has_wrapper(db, name) {
        lemma_count_zero(db.wrapped, name);
        lemma_register_count(db.wrapped, name, folder, data);
    }
    lemma_register_count(removed.wrapped, name, folder, data);
}

/// After unregistering a wrapper the name is absent from every entry, and
/// pruning keeps exactly the entries that still own a wrapper.
pub proof fn lemma_unregister_then_prune(db: DbView, name: Seq<char>)
    ensures
        forall|i: int| 0 <= i < spec_unregister_wrapper(db, name).wrapped.len()
            ==> !spec_unregister_wrapper(db, name).wrapped[i].wrappers.contains(name),
        forall|i: int| 0 <= i < spec_prune(db).wrapped.len() ==> spec_prune(db).wrapped[i].wrappers.len()
            > 0,
{
    let after = spec_unregister_wrapper(db, name);
    assert forall|i: int| 0 <= i < after.wrapped.len() implies !after.wrapped[i].wrappers.contains(
        name,
    ) by {
        lemma_remove_wrapper_name_absent(db.wrapped[i].wrappers, name);
    }
    lemma_nonempty_entries_nonempty(db.wrapped);
}

} // verus!
