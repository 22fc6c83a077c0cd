//! The persisted index format: a compact structured text encoding of the
//! wrap database, with a serializer and a strict parser that round-trip
//! exactly. Strings are quoted, with `"` and `\` escaped by a backslash;
//! objects carry their fields in declaration order with no spacing.
use vstd::prelude::*;
use vstd::string::StrSliceExecFns;
use vstd::string::StringExecFns;
use crate::conan_package::ConanPackage;
use crate::conan_package::PackageView;
use crate::db::CrackerDatabase;
use crate::db::CrackerDatabaseData;
use crate::db::CrackerDatabaseEntry;
use crate::db::DbView;
use crate::db::EntryView;
use crate::db::InstallDataView;
use crate::db::Wrapper;
use crate::db::views_of_entries;
use crate::db::views_of_strings;
use crate::db::views_of_wrappers;
use crate::db::spec_prune;
use crate::errors::CrackerError;
use crate::text::chars_to_string;
use crate::text::push_char;
use crate::text::str_to_chars;

verus! {

/// The encoding of one character inside a quoted string.
pub open spec fn esc_char(c: char) -> Seq<char> {
    if c == '"' {
        seq!['\\', '"']
    } else if c == '\\' {
        seq!['\\', '\\']
    } else {
        seq![c]
    }
}

/// The encoding of the characters of a string.
pub open spec fn esc(s: Seq<char>) -> Seq<char>
    decreases s.len(),
{
    if s.len() == 0 {
        Seq::<char>::empty()
    } else {
        esc_char(s[0]) + esc(s.skip(1))
    }
}

/// A quoted string.
pub open spec fn jstr(s: Seq<char>) -> Seq<char> {
    seq!['"'] + esc(s) + seq!['"']
}

/// The elements of a list of quoted strings, separated by commas.
pub open spec fn jstr_items_ser(ss: Seq<Seq<char>>) -> Seq<char>
    decreases ss.len(),
{
    if ss.len() == 0 {
        Seq::<char>::empty()
    } else if ss.len() == 1 {
        jstr(ss[0])
    } else {
        jstr(ss[0]) + seq![','] + jstr_items_ser(ss.skip(1))
    }
}

/// A bracketed list of quoted strings.
pub open spec fn jstr_list(ss: Seq<Seq<char>>) -> Seq<char> {
    seq!['['] + jstr_items_ser(ss) + seq![']']
}

/// One wrapper object.
pub open spec fn ser_wrapper(name: Seq<char>) -> Seq<char> {
    "{\"wrapped_bin\":"@ + jstr(name) + "}"@
}

/// The elements of a list of wrapper objects.
pub open spec fn wrapper_items_ser(ws: Seq<Seq<char>>) -> Seq<char>
    decreases ws.len(),
{
    if ws.len() == 0 {
        Seq::<char>::empty()
    } else if ws.len() == 1 {
        ser_wrapper(ws[0])
    } else {
        ser_wrapper(ws[0]) + seq![','] + wrapper_items_ser(ws.skip(1))
    }
}

/// The bracketed list of wrapper objects of one entry.
pub open spec fn ser_wrapper_list(ws: Seq<Seq<char>>) -> Seq<char> {
    seq!['['] + wrapper_items_ser(ws) + seq![']']
}

/// One package reference object.
pub open spec fn ser_pkg(p: PackageView) -> Seq<char> {
    "{\"name\":"@ + jstr(p.name) + ",\"version\":"@ + jstr(p.version) + ",\"user\":"@ + jstr(
        p.user,
    ) + ",\"channel\":"@ + jstr(p.channel) + "}"@
}

/// One tagged install-data object.
pub open spec fn ser_data(d: InstallDataView) -> Seq<char> {
    match d {
        InstallDataView::Conan { pkg, settings, options } => "{\"Conan\":{\"conan_pkg\":"@
            + ser_pkg(pkg) + ",\"conan_settings\":"@ + jstr_list(settings)
            + ",\"conan_options\":"@ + jstr_list(options) + "}}"@,
        InstallDataView::Git { pkg_name, url, label, search_paths } => "{\"Git\":{\"pkg_name\":"@
            + jstr(pkg_name) + ",\"url\":"@ + jstr(url) + ",\"label\":"@ + jstr(label)
            + ",\"search_paths\":"@ + jstr_list(search_paths) + "}}"@,
    }
}

/// One database entry object.
pub open spec fn ser_entry(e: EntryView) -> Seq<char> {
    "{\"data\":"@ + ser_data(e.data) + ",\"wrappers\":"@ + ser_wrapper_list(e.wrappers)
        + ",\"install_folder\":"@ + jstr(e.install_folder) + "}"@
}

/// The elements of the list of entries.
pub open spec fn entry_items_ser(es: Seq<EntryView>) -> Seq<char>
    decreases es.len(),
{
    if es.len() == 0 {
        Seq::<char>::empty()
    } else if es.len() == 1 {
        ser_entry(es[0])
    } else {
        ser_entry(es[0]) + seq![','] + entry_items_ser(es.skip(1))
    }
}

/// The bracketed list of entries.
pub open spec fn ser_entry_list(es: Seq<EntryView>) -> Seq<char> {
    seq!['['] + entry_items_ser(es) + seq![']']
}

/// The whole persisted database.
pub open spec fn ser_db(v: DbView) -> Seq<char> {
    "{\"wrapped\":"@ + ser_entry_list(v.wrapped) + ",\"storage_owned_by\":"@ + jstr(
        v.storage_owned_by,
    ) + "}"@
}

/// Consume an exact literal prefix.
pub open spec fn sp_lit(s: Seq<char>, lit: Seq<char>) -> Option<Seq<char>> {
    if lit.len() <= s.len() && s.take(lit.len() as int) == lit {
        Option::Some(s.skip(lit.len() as int))
    } else {
        Option::None
    }
}

/// Consume the inside of a quoted string after the opening quote, up to and
/// including the closing quote.
pub open spec fn sp_str_body(s: Seq<char>) -> Option<(Seq<char>, Seq<char>)>
    decreases s.len(),
{
    if s.len() == 0 {
        Option::None
    } else if s[0] == '"' {
        Option::Some((Seq::<char>::empty(), s.skip(1)))
    } else if s[0] == '\\' {
        if s.len() < 2 || !(s[1] == '"' || s[1] == '\\') {
            Option::None
        } else {
            match sp_str_body(s.skip(2)) {
                Option::Some((v, r)) => Option::Some((seq![s[1]] + v, r)),
                Option::None => Option::None,
            }
        }
    } else {
        match sp_str_body(s.skip(1)) {
            Option::Some((v, r)) => Option::Some((seq![s[0]] + v, r)),
            Option::None => Option::None,
        }
    }
}

/// Consume a quoted string.
pub open spec fn sp_str(s: Seq<char>) -> Option<(Seq<char>, Seq<char>)> {
    if s.len() >= 1 && s[0] == '"' {
        sp_str_body(s.skip(1))
    } else {
        Option::None
    }
}

/// The string body consumes at least the closing quote.
pub proof fn lemma_sp_str_body_shrinks(s: Seq<char>)
    ensures
        match sp_str_body(s) {
            Option::Some((v, r)) => r.len() < s.len(),
            Option::None => true,
        },
    decreases s.len(),
{
    if s.len() == 0 {
    } else if s[0] == '"' {
    } else if s[0] == '\\' {
        if s.len() >= 2 && (s[1] == '"' || s[1] == '\\') {
            lemma_sp_str_body_shrinks(s.skip(2));
        }
    } else {
        lemma_sp_str_body_shrinks(s.skip(1));
    }
}

/// A quoted string consumes at least its two quotes.
pub proof fn lemma_sp_str_shrinks(s: Seq<char>)
    ensures
        match sp_str(s) {
            Option::Some((v, r)) => r.len() < s.len() - 1,
            Option::None => true,
        },
{
    if s.len() >= 1 && s[0] == '"' {
        lemma_sp_str_body_shrinks(s.skip(1));
    }
}

/// Consume one or more comma-separated quoted strings and the closing
/// bracket.
pub open spec fn sp_str_items(s: Seq<char>) -> Option<(Seq<Seq<char>>, Seq<char>)>
    decreases s.len(),
    via sp_str_items_decreases
{
    match sp_str(s) {
        Option::None => Option::None,
        Option::Some((v, r)) => {
            if r.len() >= 1 && r[0] == ',' {
                match sp_str_items(r.skip(1)) {
                    Option::Some((vs, r2)) => Option::Some((seq![v] + vs, r2)),
                    Option::None => Option::None,
                }
            } else if r.len() >= 1 && r[0] == ']' {
                Option::Some((seq![v], r.skip(1)))
            } else {
                Option::None
            }
        },
    }
}

#[via_fn]
proof fn sp_str_items_decreases(s: Seq<char>) {
    lemma_sp_str_shrinks(s);
}

/// Consume a bracketed list of quoted strings.
pub open spec fn sp_str_list(s: Seq<char>) -> Option<(Seq<Seq<char>>, Seq<char>)> {
    if s.len() >= 1 && s[0] == '[' {
        if s.len() >= 2 && s[1] == ']' {
            Option::Some((Seq::<Seq<char>>::empty(), s.skip(2)))
        } else {
            sp_str_items(s.skip(1))
        }
    } else {
        Option::None
    }
}

/// A non-empty string list consumes at least one character past the
/// brackets.
pub proof fn lemma_sp_str_items_shrinks(s: Seq<char>)
    ensures
        match sp_str_items(s) {
            Option::Some((vs, r)) => r.len() < s.len(),
            Option::None => true,
        },
    decreases s.len(),
{
    lemma_sp_str_shrinks(s);
    match sp_str(s) {
        Option::None => {},
        Option::Some((v, r)) => {
            if r.len() >= 1 && r[0] == ',' {
                lemma_sp_str_items_shrinks(r.skip(1));
            }
        },
    }
}

/// A string list consumes at least its brackets.
pub proof fn lemma_sp_str_list_shrinks(s: Seq<char>)
    ensures
        match sp_str_list(s) {
            Option::Some((vs, r)) => r.len() < s.len(),
            Option::None => true,
        },
{
    if s.len() >= 1 && s[0] == '[' && !(s.len() >= 2 && s[1] == ']') {
        lemma_sp_str_items_shrinks(s.skip(1));
    }
}

/// Consume one wrapper object.
pub open spec fn sp_wrapper(s: Seq<char>) -> Option<(Seq<char>, Seq<char>)> {
    match sp_lit(s, "{\"wrapped_bin\":"@) {
        Option::None => Option::None,
        Option::Some(r1) => match sp_str(r1) {
            Option::None => Option::None,
            Option::Some((v, r2)) => match sp_lit(r2, "}"@) {
                Option::None => Option::None,
                Option::Some(r3) => Option::Some((v, r3)),
            },
        },
    }
}

/// A wrapper object consumes at least one character.
pub proof fn lemma_sp_wrapper_shrinks(s: Seq<char>)
    ensures
        match sp_wrapper(s) {
            Option::Some((v, r)) => r.len() < s.len(),
            Option::None => true,
        },
{
    match sp_lit(s, "{\"wrapped_bin\":"@) {
        Option::None => {},
        Option::Some(r1) => {
            reveal_strlit("{\"wrapped_bin\":");
            lemma_sp_str_shrinks(r1);
        },
    }
}

/// Consume one or more comma-separated wrapper objects and the closing
/// bracket.
pub open spec fn sp_wrapper_items(s: Seq<char>) -> Option<(Seq<Seq<char>>, Seq<char>)>
    decreases s.len(),
    via sp_wrapper_items_decreases
{
    match sp_wrapper(s) {
        Option::None => Option::None,
        Option::Some((v, r)) => {
            if r.len() >= 1 && r[0] == ',' {
                match sp_wrapper_items(r.skip(1)) {
                    Option::Some((vs, r2)) => Option::Some((seq![v] + vs, r2)),
                    Option::None => Option::None,
                }
            } else if r.len() >= 1 && r[0] == ']' {
                Option::Some((seq![v], r.skip(1)))
            } else {
                Option::None
            }
        },
    }
}

#[via_fn]
proof fn sp_wrapper_items_decreases(s: Seq<char>) {
    lemma_sp_wrapper_shrinks(s);
}

/// Consume a bracketed list of wrapper objects.
pub open spec fn sp_wrapper_list(s: Seq<char>) -> Option<(Seq<Seq<char>>, Seq<char>)> {
    if s.len() >= 1 && s[0] == '[' {
        if s.len() >= 2 && s[1] == ']' {
            Option::Some((Seq::<Seq<char>>::empty(), s.skip(2)))
        } else {
            sp_wrapper_items(s.skip(1))
        }
    } else {
        Option::None
    }
}

/// A wrapper list consumes at least its brackets.
pub proof fn lemma_sp_wrapper_items_shrinks(s: Seq<char>)
    ensures
        match sp_wrapper_items(s) {
            Option::Some((vs, r)) => r.len() < s.len(),
            Option::None => true,
        },
    decreases s.len(),
{
    lemma_sp_wrapper_shrinks(s);
    match sp_wrapper(s) {
        Option::None => {},
        Option::Some((v, r)) => {
            if r.len() >= 1 && r[0] == ',' {
                lemma_sp_wrapper_items_shrinks(r.skip(1));
            }
        },
    }
}

pub proof fn lemma_sp_wrapper_list_shrinks(s: Seq<char>)
    ensures
        match sp_wrapper_list(s) {
            Option::Some((vs, r)) => r.len() < s.len(),
            Option::None => true,
        },
{
    if s.len() >= 1 && s[0] == '[' && !(s.len() >= 2 && s[1] == ']') {
        lemma_sp_wrapper_items_shrinks(s.skip(1));
    }
}

/// Consume one package reference object.
pub open spec fn sp_pkg(s: Seq<char>) -> Option<(PackageView, Seq<char>)> {
    match sp_lit(s, "{\"name\":"@) {
        Option::None => Option::None,
        Option::Some(r1) => match sp_str(r1) {
            Option::None => Option::None,
            Option::Some((name, r2)) => match sp_lit(r2, ",\"version\":"@) {
                Option::None => Option::None,
                Option::Some(r3) => match sp_str(r3) {
                    Option::None => Option::None,
                    Option::Some((version, r4)) => match sp_lit(r4, ",\"user\":"@) {
                        Option::None => Option::None,
                        Option::Some(r5) => match sp_str(r5) {
                            Option::None => Option::None,
                            Option::Some((user, r6)) => match sp_lit(r6, ",\"channel\":"@) {
                                Option::None => Option::None,
                                Option::Some(r7) => match sp_str(r7) {
                                    Option::None => Option::None,
                                    Option::Some((channel, r8)) => match sp_lit(r8, "}"@) {
                                        Option::None => Option::None,
                                        Option::Some(r9) => Option::Some(
                                            (PackageView { name, version, user, channel }, r9),
                                        ),
                                    },
                                },
                            },
                        },
                    },
                },
            },
        },
    }
}

/// Consume one tagged install-data object.
pub open spec fn sp_data(s: Seq<char>) -> Option<(InstallDataView, Seq<char>)> {
    match sp_lit(s, "{\"Conan\":{\"conan_pkg\":"@) {
        Option::Some(r1) => match sp_pkg(r1) {
            Option::None => Option::None,
            Option::Some((pkg, r2)) => match sp_lit(r2, ",\"conan_settings\":"@) {
                Option::None => Option::None,
                Option::Some(r3) => match sp_str_list(r3) {
                    Option::None => Option::None,
                    Option::Some((settings, r4)) => match sp_lit(r4, ",\"conan_options\":"@) {
                        Option::None => Option::None,
                        Option::Some(r5) => match sp_str_list(r5) {
                            Option::None => Option::None,
                            Option::Some((options, r6)) => match sp_lit(r6, "}}"@) {
                                Option::None => Option::None,
                                Option::Some(r7) => Option::Some(
                                    (InstallDataView::Conan { pkg, settings, options }, r7),
                                ),
                            },
                        },
                    },
                },
            },
        },
        Option::None => match sp_lit(s, "{\"Git\":{\"pkg_name\":"@) {
            Option::None => Option::None,
            Option::Some(r1) => match sp_str(r1) {
                Option::None => Option::None,
                Option::Some((pkg_name, r2)) => match sp_lit(r2, ",\"url\":"@) {
                    Option::None => Option::None,
                    Option::Some(r3) => match sp_str(r3) {
                        Option::None => Option::None,
                        Option::Some((url, r4)) => match sp_lit(r4, ",\"label\":"@) {
                            Option::None => Option::None,
                            Option::Some(r5) => match sp_str(r5) {
                                Option::None => Option::None,
                                Option::Some((label, r6)) => match sp_lit(
                                    r6,
                                    ",\"search_paths\":"@,
                                ) {
                                    Option::None => Option::None,
                                    Option::Some(r7) => match sp_str_list(r7) {
                                        Option::None => Option::None,
                                        Option::Some((search_paths, r8)) => match sp_lit(
                                            r8,
                                            "}}"@,
                                        ) {
                                            Option::None => Option::None,
                                            Option::Some(r9) => Option::Some(
                                                (
                                                    InstallDataView::Git {
                                                        pkg_name,
                                                        url,
                                                        label,
                                                        search_paths,
                                                    },
                                                    r9,
                                                ),
                                            ),
                                        },
                                    },
                                },
                            },
                        },
                    },
                },
            },
        },
    }
}

/// A package reference object consumes at least one character.
pub proof fn lemma_sp_pkg_shrinks(s: Seq<char>)
    ensures
        match sp_pkg(s) {
            Option::Some((p, r)) => r.len() < s.len(),
            Option::None => true,
        },
{
    if let Option::Some(r1) = sp_lit(s, "{\"name\":"@) {
        lemma_sp_str_shrinks(r1);
        if let Option::Some((name, r2)) = sp_str(r1) {
            if let Option::Some(r3) = sp_lit(r2, ",\"version\":"@) {
                lemma_sp_str_shrinks(r3);
                if let Option::Some((version, r4)) = sp_str(r3) {
                    if let Option::Some(r5) = sp_lit(r4, ",\"user\":"@) {
                        lemma_sp_str_shrinks(r5);
                        if let Option::Some((user, r6)) = sp_str(r5) {
                            if let Option::Some(r7) = sp_lit(r6, ",\"channel\":"@) {
                                lemma_sp_str_shrinks(r7);
                            }
                        }
                    }
                }
            }
        }
    }
}

/// Install data consumes at least one character.
pub proof fn lemma_sp_data_shrinks(s: Seq<char>)
    ensures
        match sp_data(s) {
            Option::Some((d, r)) => r.len() < s.len(),
            Option::None => true,
        },
{
    match sp_lit(s, "{\"Conan\":{\"conan_pkg\":"@) {
        Option::Some(r1) => {
            lemma_sp_pkg_shrinks(r1);
            if let Option::Some((pkg, r2)) = sp_pkg(r1) {
                if let Option::Some(r3) = sp_lit(r2, ",\"conan_settings\":"@) {
                    lemma_sp_str_list_shrinks(r3);
                    if let Option::Some((settings, r4)) = sp_str_list(r3) {
                        if let Option::Some(r5) = sp_lit(r4, ",\"conan_options\":"@) {
                            lemma_sp_str_list_shrinks(r5);
                        }
                    }
                }
            }
        },
        Option::None => {
            if let Option::Some(r1) = sp_lit(s, "{\"Git\":{\"pkg_name\":"@) {
                lemma_sp_str_shrinks(r1);
                if let Option::Some((pkg_name, r2)) = sp_str(r1) {
                    if let Option::Some(r3) = sp_lit(r2, ",\"url\":"@) {
                        lemma_sp_str_shrinks(r3);
                        if let Option::Some((url, r4)) = sp_str(r3) {
                            if let Option::Some(r5) = sp_lit(r4, ",\"label\":"@) {
                                lemma_sp_str_shrinks(r5);
                                if let Option::Some((label, r6)) = sp_str(r5) {
                                    if let Option::Some(r7) = sp_lit(r6, ",\"search_paths\":"@) {
                                        lemma_sp_str_list_shrinks(r7);
                                    }
                                }
                            }
                        }
                    }
                }
            }
        },
    }
}

/// Consume one entry object.
pub open spec fn sp_entry(s: Seq<char>) -> Option<(EntryView, Seq<char>)> {
    match sp_lit(s, "{\"data\":"@) {
        Option::None => Option::None,
        Option::Some(r1) => match sp_data(r1) {
            Option::None => Option::None,
            Option::Some((data, r2)) => match sp_lit(r2, ",\"wrappers\":"@) {
                Option::None => Option::None,
                Option::Some(r3) => match sp_wrapper_list(r3) {
                    Option::None => Option::None,
                    Option::Some((wrappers, r4)) => match sp_lit(r4, ",\"install_folder\":"@) {
                        Option::None => Option::None,
                        Option::Some(r5) => match sp_str(r5) {
                            Option::None => Option::None,
                            Option::Some((install_folder, r6)) => match sp_lit(r6, "}"@) {
                                Option::None => Option::None,
                                Option::Some(r7) => Option::Some(
                                    (EntryView { data, wrappers, install_folder }, r7),
                                ),
                            },
                        },
                    },
                },
            },
        },
    }
}

/// An entry consumes at least one character.
pub proof fn lemma_sp_entry_shrinks(s: Seq<char>)
    ensures
        match sp_entry(s) {
            Option::Some((e, r)) => r.len() < s.len(),
            Option::None => true,
        },
{
    if let Option::Some(r1) = sp_lit(s, "{\"data\":"@) {
        lemma_sp_data_shrinks(r1);
        if let Option::Some((data, r2)) = sp_data(r1) {
            if let Option::Some(r3) = sp_lit(r2, ",\"wrappers\":"@) {
                lemma_sp_wrapper_list_shrinks(r3);
                if let Option::Some((wrappers, r4)) = sp_wrapper_list(r3) {
                    if let Option::Some(r5) = sp_lit(r4, ",\"install_folder\":"@) {
                        lemma_sp_str_shrinks(r5);
                    }
                }
            }
        }
    }
}

/// Consume one or more comma-separated entries and the closing bracket.
pub open spec fn sp_entry_items(s: Seq<char>) -> Option<(Seq<EntryView>, Seq<char>)>
    decreases s.len(),
    via sp_entry_items_decreases
{
    match sp_entry(s) {
        Option::None => Option::None,
        Option::Some((e, r)) => {
            if r.len() >= 1 && r[0] == ',' {
                match sp_entry_items(r.skip(1)) {
                    Option::Some((es, r2)) => Option::Some((seq![e] + es, r2)),
                    Option::None => Option::None,
                }
            } else if r.len() >= 1 && r[0] == ']' {
                Option::Some((seq![e], r.skip(1)))
            } else {
                Option::None
            }
        },
    }
}

#[via_fn]
proof fn sp_entry_items_decreases(s: Seq<char>) {
    lemma_sp_entry_shrinks(s);
}

/// Consume a bracketed list of entries.
pub open spec fn sp_entry_list(s: Seq<char>) -> Option<(Seq<EntryView>, Seq<char>)> {
    if s.len() >= 1 && s[0] == '[' {
        if s.len() >= 2 && s[1] == ']' {
            Option::Some((Seq::<EntryView>::empty(), s.skip(2)))
        } else {
            sp_entry_items(s.skip(1))
        }
    } else {
        Option::None
    }
}

/// The whole persisted database: the parse succeeds only when the text is
/// consumed completely.
pub open spec fn sp_db(s: Seq<char>) -> Option<DbView> {
    match sp_lit(s, "{\"wrapped\":"@) {
        Option::None => Option::None,
        Option::Some(r1) => match sp_entry_list(r1) {
            Option::None => Option::None,
            Option::Some((wrapped, r2)) => match sp_lit(r2, ",\"storage_owned_by\":"@) {
                Option::None => Option::None,
                Option::Some(r3) => match sp_str(r3) {
                    Option::None => Option::None,
                    Option::Some((owner, r4)) => match sp_lit(r4, "}"@) {
                        Option::None => Option::None,
                        Option::Some(r5) => {
                            if r5.len() == 0 {
                                Option::Some(DbView { wrapped, storage_owned_by: owner })
                            } else {
                                Option::None
                            }
                        },
                    },
                },
            },
        },
    }
}

proof fn lemma_lit_rt(lit: Seq<char>, rest: Seq<char>)
    ensures
        sp_lit(lit + rest, lit) == Option::Some(rest),
{
    let s = lit + rest;
    assert(s.take(lit.len() as int) =~= lit);
    assert(s.skip(lit.len() as int) =~= rest);
}

proof fn lemma_lit_mismatch(s: Seq<char>, lit: Seq<char>, i: int)
    requires
        0 <= i < lit.len(),
        i < s.len(),
        s[i] != lit[i],
    ensures
        sp_lit(s, lit) == Option::<Seq<char>>::None,
{
    if lit.len() <= s.len() && s.take(lit.len() as int) == lit {
        assert(s.take(lit.len() as int)[i] == s[i]);
    }
}

proof fn lemma_esc_rt(v: Seq<char>, rest: Seq<char>)
    ensures
        sp_str_body(esc(v) + seq!['"'] + rest) == Option::Some((v, rest)),
    decreases v.len(),
{
    let s = esc(v) + seq!['"'] + rest;
    if v.len() == 0 {
        assert(esc(v) =~= Seq::<char>::empty());
        assert(s =~= seq!['"'] + rest);
        assert(s[0] == '"');
        assert(s.skip(1) =~= rest);
        assert(Seq::<char>::empty() =~= v);
    } else {
        let c = v[0];
        lemma_esc_rt(v.skip(1), rest);
        if c == '"' {
            assert(esc(v) =~= seq!['\\', '"'] + esc(v.skip(1)));
            assert(s =~= seq!['\\', '"'] + (esc(v.skip(1)) + seq!['"'] + rest));
            assert(s[0] == '\\');
            assert(s[1] == '"');
            assert(s.skip(2) =~= esc(v.skip(1)) + seq!['"'] + rest);
            assert(seq![s[1]] + v.skip(1) =~= v);
        } else if c == '\\' {
            assert(esc(v) =~= seq!['\\', '\\'] + esc(v.skip(1)));
            assert(s =~= seq!['\\', '\\'] + (esc(v.skip(1)) + seq!['"'] + rest));
            assert(s[0] == '\\');
            assert(s[1] == '\\');
            assert(s.skip(2) =~= esc(v.skip(1)) + seq!['"'] + rest);
            assert(seq![s[1]] + v.skip(1) =~= v);
        } else {
            assert(esc(v) =~= seq![c] + esc(v.skip(1)));
            assert(s =~= seq![c] + (esc(v.skip(1)) + seq!['"'] + rest));
            assert(s[0] == c);
            assert(s.skip(1) =~= esc(v.skip(1)) + seq!['"'] + rest);
            assert(seq![s[0]] + v.skip(1) =~= v);
        }
    }
}

proof fn lemma_jstr_rt(v: Seq<char>, rest: Seq<char>)
    ensures
        sp_str(jstr(v) + rest) == Option::Some((v, rest)),
{
    let s = jstr(v) + rest;
    assert(s =~= seq!['"'] + (esc(v) + seq!['"'] + rest));
    assert(s[0] == '"');
    assert(s.skip(1) =~= esc(v) + seq!['"'] + rest);
    lemma_esc_rt(v, rest);
}

proof fn lemma_jstr_items_rt(ss: Seq<Seq<char>>, rest: Seq<char>)
    requires
        ss.len() >= 1,
    ensures
        sp_str_items(jstr_items_ser(ss) + seq![']'] + rest) == Option::Some((ss, rest)),
    decreases ss.len(),
{
    let s = jstr_items_ser(ss) + seq![']'] + rest;
    if ss.len() == 1 {
        assert(s =~= jstr(ss[0]) + (seq![']'] + rest));
        lemma_jstr_rt(ss[0], seq![']'] + rest);
        assert((seq![']'] + rest)[0] == ']');
        assert((seq![']'] + rest).skip(1) =~= rest);
        assert(seq![ss[0]] =~= ss);
    } else {
        let tail = jstr_items_ser(ss.skip(1)) + seq![']'] + rest;
        assert(s =~= jstr(ss[0]) + (seq![','] + tail));
        lemma_jstr_rt(ss[0], seq![','] + tail);
        assert((seq![','] + tail)[0] == ',');
        assert((seq![','] + tail).skip(1) =~= tail);
        lemma_jstr_items_rt(ss.skip(1), rest);
        assert(seq![ss[0]] + ss.skip(1) =~= ss);
    }
}

proof fn lemma_jstr_list_rt(ss: Seq<Seq<char>>, rest: Seq<char>)
    ensures
        sp_str_list(jstr_list(ss) + rest) == Option::Some((ss, rest)),
{
    let s = jstr_list(ss) + rest;
    if ss.len() == 0 {
        assert(jstr_items_ser(ss) =~= Seq::<char>::empty());
        assert(s =~= seq!['[', ']'] + rest);
        assert(s[0] == '[');
        assert(s[1] == ']');
        assert(s.skip(2) =~= rest);
        assert(Seq::<Seq<char>>::empty() =~= ss);
    } else {
        assert(s =~= seq!['['] + (jstr_items_ser(ss) + seq![']'] + rest));
        assert(s[0] == '[');
        assert(jstr(ss[0])[0] == '"');
        assert(jstr_items_ser(ss)[0] == '"') by {
            if ss.len() > 1 {
                assert(jstr(ss[0]).len() >= 1);
            }
        }
        assert(s[1] == '"');
        assert(s.skip(1) =~= jstr_items_ser(ss) + seq![']'] + rest);
        lemma_jstr_items_rt(ss, rest);
    }
}

proof fn lemma_wrapper_rt(name: Seq<char>, rest: Seq<char>)
    ensures
        sp_wrapper(ser_wrapper(name) + rest) == Option::Some((name, rest)),
{
    let t2 = "}"@ + rest;
    let t1 = jstr(name) + t2;
    let s = ser_wrapper(name) + rest;
    assert(s =~= "{\"wrapped_bin\":"@ + t1);
    lemma_lit_rt("{\"wrapped_bin\":"@, t1);
    lemma_jstr_rt(name, t2);
    lemma_lit_rt("}"@, rest);
}

proof fn lemma_wrapper_items_rt(ws: Seq<Seq<char>>, rest: Seq<char>)
    requires
        ws.len() >= 1,
    ensures
        sp_wrapper_items(wrapper_items_ser(ws) + seq![']'] + rest) == Option::Some((ws, rest)),
    decreases ws.len(),
{
    let s = wrapper_items_ser(ws) + seq![']'] + rest;
    if ws.len() == 1 {
        assert(s =~= ser_wrapper(ws[0]) + (seq![']'] + rest));
        lemma_wrapper_rt(ws[0], seq![']'] + rest);
        assert((seq![']'] + rest)[0] == ']');
        assert((seq![']'] + rest).skip(1) =~= rest);
        assert(seq![ws[0]] =~= ws);
    } else {
        let tail = wrapper_items_ser(ws.skip(1)) + seq![']'] + rest;
        assert(s =~= ser_wrapper(ws[0]) + (seq![','] + tail));
        lemma_wrapper_rt(ws[0], seq![','] + tail);
        assert((seq![','] + tail)[0] == ',');
        assert((seq![','] + tail).skip(1) =~= tail);
        lemma_wrapper_items_rt(ws.skip(1), rest);
        assert(seq![ws[0]] + ws.skip(1) =~= ws);
    }
}

proof fn lemma_wrapper_list_rt(ws: Seq<Seq<char>>, rest: Seq<char>)
    ensures
        sp_wrapper_list(ser_wrapper_list(ws) + rest) == Option::Some((ws, rest)),
{
    let s = ser_wrapper_list(ws) + rest;
    reveal_strlit("{\"wrapped_bin\":");
    if ws.len() == 0 {
        assert(wrapper_items_ser(ws) =~= Seq::<char>::empty());
        assert(s =~= seq!['[', ']'] + rest);
        assert(s[0] == '[');
        assert(s[1] == ']');
        assert(s.skip(2) =~= rest);
        assert(Seq::<Seq<char>>::empty() =~= ws);
    } else {
        assert(s =~= seq!['['] + (wrapper_items_ser(ws) + seq![']'] + rest));
        assert(s[0] == '[');
        assert(ser_wrapper(ws[0])[0] == '{');
        assert(wrapper_items_ser(ws)[0] == '{') by {
            if ws.len() > 1 {
                assert(ser_wrapper(ws[0]).len() >= 1);
            }
        }
        assert(s[1] == '{');
        assert(s.skip(1) =~= wrapper_items_ser(ws) + seq![']'] + rest);
        lemma_wrapper_items_rt(ws, rest);
    }
}

proof fn lemma_pkg_rt(p: PackageView, rest: Seq<char>)
    ensures
        sp_pkg(ser_pkg(p) + rest) == Option::Some((p, rest)),
{
    let t9 = "}"@ + rest;
    let t8 = jstr(p.channel) + t9;
    let t7 = ",\"channel\":"@ + t8;
    let t6 = jstr(p.user) + t7;
    let t5 = ",\"user\":"@ + t6;
    let t4 = jstr(p.version) + t5;
    let t3 = ",\"version\":"@ + t4;
    let t2 = jstr(p.name) + t3;
    let s = ser_pkg(p) + rest;
    assert(s =~= "{\"name\":"@ + t2);
    lemma_lit_rt("{\"name\":"@, t2);
    lemma_jstr_rt(p.name, t3);
    lemma_lit_rt(",\"version\":"@, t4);
    lemma_jstr_rt(p.version, t5);
    lemma_lit_rt(",\"user\":"@, t6);
    lemma_jstr_rt(p.user, t7);
    lemma_lit_rt(",\"channel\":"@, t8);
    lemma_jstr_rt(p.channel, t9);
    lemma_lit_rt("}"@, rest);
}

#[verifier::rlimit(60)]
proof fn lemma_data_rt(d: InstallDataView, rest: Seq<char>)
    ensures
        sp_data(ser_data(d) + rest) == Option::Some((d, rest)),
{
    match d {
        InstallDataView::Conan { pkg, settings, options } => {
            let t7 = "}}"@ + rest;
            let t6 = jstr_list(options) + t7;
            let t5 = ",\"conan_options\":"@ + t6;
            let t4 = jstr_list(settings) + t5;
            let t3 = ",\"conan_settings\":"@ + t4;
            let t2 = ser_pkg(pkg) + t3;
            let s = ser_data(d) + rest;
            assert(s =~= "{\"Conan\":{\"conan_pkg\":"@ + t2);
            lemma_lit_rt("{\"Conan\":{\"conan_pkg\":"@, t2);
            lemma_pkg_rt(pkg, t3);
            lemma_lit_rt(",\"conan_settings\":"@, t4);
            lemma_jstr_list_rt(settings, t5);
            lemma_lit_rt(",\"conan_options\":"@, t6);
            lemma_jstr_list_rt(options, t7);
            lemma_lit_rt("}}"@, rest);
        },
        InstallDataView::Git { pkg_name, url, label, search_paths } => {
            let t9 = "}}"@ + rest;
            let t8 = jstr_list(search_paths) + t9;
            let t7 = ",\"search_paths\":"@ + t8;
            let t6 = jstr(label) + t7;
            let t5 = ",\"label\":"@ + t6;
            let t4 = jstr(url) + t5;
            let t3 = ",\"url\":"@ + t4;
            let t2 = jstr(pkg_name) + t3;
            let s = ser_data(d) + rest;
            assert(s =~= "{\"Git\":{\"pkg_name\":"@ + t2);
            reveal_strlit("{\"Git\":{\"pkg_name\":");
            reveal_strlit("{\"Conan\":{\"conan_pkg\":");
            assert(s[2] == 'G');
            lemma_lit_mismatch(s, "{\"Conan\":{\"conan_pkg\":"@, 2);
            lemma_lit_rt("{\"Git\":{\"pkg_name\":"@, t2);
            lemma_jstr_rt(pkg_name, t3);
            lemma_lit_rt(",\"url\":"@, t4);
            lemma_jstr_rt(url, t5);
            lemma_lit_rt(",\"label\":"@, t6);
            lemma_jstr_rt(label, t7);
            lemma_lit_rt(",\"search_paths\":"@, t8);
            lemma_jstr_list_rt(search_paths, t9);
            lemma_lit_rt("}}"@, rest);
        },
    }
}

proof fn lemma_entry_rt(e: EntryView, rest: Seq<char>)
    ensures
        sp_entry(ser_entry(e) + rest) == Option::Some((e, rest)),
{
    let t7 = "}"@ + rest;
    let t6 = jstr(e.install_folder) + t7;
    let t5 = ",\"install_folder\":"@ + t6;
    let t4 = ser_wrapper_list(e.wrappers) + t5;
    let t3 = ",\"wrappers\":"@ + t4;
    let t2 = ser_data(e.data) + t3;
    let s = ser_entry(e) + rest;
    assert(s =~= "{\"data\":"@ + t2);
    lemma_lit_rt("{\"data\":"@, t2);
    lemma_data_rt(e.data, t3);
    lemma_lit_rt(",\"wrappers\":"@, t4);
    lemma_wrapper_list_rt(e.wrappers, t5);
    lemma_lit_rt(",\"install_folder\":"@, t6);
    lemma_jstr_rt(e.install_folder, t7);
    lemma_lit_rt("}"@, rest);
}

#[verifier::rlimit(60)]
proof fn lemma_entry_items_rt(es: Seq<EntryView>, rest: Seq<char>)
    requires
        es.len() >= 1,
    ensures
        sp_entry_items(entry_items_ser(es) + seq![']'] + rest) == Option::Some((es, rest)),
    decreases es.len(),
{
    let s = entry_items_ser(es) + seq![']'] + rest;
    if es.len() == 1 {
        assert(s =~= ser_entry(es[0]) + (seq![']'] + rest));
        lemma_entry_rt(es[0], seq![']'] + rest);
        assert((seq![']'] + rest)[0] == ']');
        assert((seq![']'] + rest).skip(1) =~= rest);
        assert(seq![es[0]] =~= es);
    } else {
        let tail = entry_items_ser(es.skip(1)) + seq![']'] + rest;
        assert(s =~= ser_entry(es[0]) + (seq![','] + tail));
        lemma_entry_rt(es[0], seq![','] + tail);
        assert((seq![','] + tail)[0] == ',');
        assert((seq![','] + tail).skip(1) =~= tail);
        lemma_entry_items_rt(es.skip(1), rest);
        assert(seq![es[0]] + es.skip(1) =~= es);
    }
}

proof fn lemma_entry_list_rt(es: Seq<EntryView>, rest: Seq<char>)
    ensures
        sp_entry_list(ser_entry_list(es) + rest) == Option::Some((es, rest)),
{
    let s = ser_entry_list(es) + rest;
    reveal_strlit("{\"data\":");
    if es.len() == 0 {
        assert(entry_items_ser(es) =~= Seq::<char>::empty());
        assert(s =~= seq!['[', ']'] + rest);
        assert(s[0] == '[');
        assert(s[1] == ']');
        assert(s.skip(2) =~= rest);
        assert(Seq::<EntryView>::empty() =~= es);
    } else {
        assert(s =~= seq!['['] + (entry_items_ser(es) + seq![']'] + rest));
        assert(s[0] == '[');
        assert(ser_entry(es[0])[0] == '{');
        assert(entry_items_ser(es)[0] == '{') by {
            if es.len() > 1 {
                assert(ser_entry(es[0]).len() >= 1);
            }
        }
        assert(s[1] == '{');
        assert(s.skip(1) =~= entry_items_ser(es) + seq![']'] + rest);
        lemma_entry_items_rt(es, rest);
    }
}

/// The escaped form of a string grown by one character.
proof fn lemma_esc_snoc(s: Seq<char>, i: int)
    requires
        0 <= i < s.len(),
    ensures
        esc(s.take(i + 1)) == esc(s.take(i)) + esc_char(s[i]),
    decreases i,
{
    if i == 0 {
        assert(s.take(1)[0] == s[0]);
        assert(s.take(1).skip(1) =~= Seq::<char>::empty());
        assert(esc(Seq::<char>::empty()) =~= Seq::<char>::empty());
        assert(esc(s.take(0)) =~= Seq::<char>::empty());
        assert(esc(s.take(1)) =~= esc_char(s[0]) + Seq::<char>::empty());
        assert(esc(s.take(1)) =~= esc(s.take(0)) + esc_char(s[0]));
    } else {
        lemma_esc_snoc(s.skip(1), i - 1);
        assert(s.take(i + 1)[0] == s[0]);
        assert(s.take(i + 1).skip(1) =~= s.skip(1).take(i));
        assert(s.take(i)[0] == s[0]);
        assert(s.take(i).skip(1) =~= s.skip(1).take(i - 1));
        assert(s.skip(1)[i - 1] == s[i]);
        assert(esc(s.take(i + 1)) =~= esc_char(s[0]) + esc(s.skip(1).take(i)));
        assert(esc(s.take(i)) =~= esc_char(s[0]) + esc(s.skip(1).take(i - 1)));
        assert(esc_char(s[0]) + (esc(s.skip(1).take(i - 1)) + esc_char(s[i])) =~= (esc_char(s[0])
            + esc(s.skip(1).take(i - 1))) + esc_char(s[i]));
    }
}

/// Append the escaped characters of `s`.
fn append_escaped(out: &mut String, s: &str)
    ensures
        final(out)@ == old(out)@ + esc(s@),
{
    let v = str_to_chars(s);
    let n = v.len();
    let mut i: usize = 0;
    proof {
        assert(esc(s@.take(0)) =~= Seq::<char>::empty());
        assert(old(out)@ + esc(s@.take(0)) =~= old(out)@);
    }
    while i < n
        invariant
            i <= n,
            n == v@.len(),
            v@ == s@,
            out@ == old(out)@ + esc(s@.take(i as int)),
        decreases n - i,
    {
        proof {
            lemma_esc_snoc(s@, i as int);
        }
        let c = v[i];
        if c == '"' {
            push_char(out, '\\');
            push_char(out, '"');
            proof {
                assert(out@ =~= old(out)@ + esc(s@.take(i + 1)));
            }
        } else if c == '\\' {
            push_char(out, '\\');
            push_char(out, '\\');
            proof {
                assert(out@ =~= old(out)@ + esc(s@.take(i + 1)));
            }
        } else {
            push_char(out, c);
            proof {
                assert(out@ =~= old(out)@ + esc(s@.take(i + 1)));
            }
        }
        i = i + 1;
    }
    proof {
        assert(s@.take(n as int) =~= s@);
    }
}

/// Append a quoted string.
fn append_jstr(out: &mut String, s: &str)
    ensures
        final(out)@ == old(out)@ + jstr(s@),
{
    push_char(out, '"');
    append_escaped(out, s);
    push_char(out, '"');
    proof {
        assert(out@ =~= old(out)@ + jstr(s@));
    }
}

/// Append the comma-separated elements of a string list, from index `i` on.
fn append_jstr_items(out: &mut String, items: &Vec<String>, i: usize)
    requires
        i <= items@.len(),
    ensures
        final(out)@ == old(out)@ + jstr_items_ser(views_of_strings(items@).skip(i as int)),
    decreases items@.len() - i,
{
    let ghost vs = views_of_strings(items@).skip(i as int);
    if i == items.len() {
        proof {
            assert(vs =~= Seq::<Seq<char>>::empty());
            assert(out@ + jstr_items_ser(vs) =~= out@);
        }
    } else if i + 1 == items.len() {
        append_jstr(out, items[i].as_str());
        proof {
            assert(vs =~= seq![items@[i as int]@]);
        }
    } else {
        append_jstr(out, items[i].as_str());
        push_char(out, ',');
        append_jstr_items(out, items, i + 1);
        proof {
            assert(vs[0] == items@[i as int]@);
            assert(vs.skip(1) =~= views_of_strings(items@).skip(i + 1));
            assert(out@ =~= old(out)@ + (jstr(vs[0]) + seq![','] + jstr_items_ser(vs.skip(1))));
        }
    }
}

/// Append a bracketed string list.
fn append_jstr_list(out: &mut String, items: &Vec<String>)
    ensures
        final(out)@ == old(out)@ + jstr_list(views_of_strings(items@)),
{
    push_char(out, '[');
    append_jstr_items(out, items, 0);
    push_char(out, ']');
    proof {
        assert(views_of_strings(items@).skip(0) =~= views_of_strings(items@));
        assert(out@ =~= old(out)@ + jstr_list(views_of_strings(items@)));
    }
}

/// Append one wrapper object.
fn append_wrapper(out: &mut String, w: &Wrapper)
    ensures
        final(out)@ == old(out)@ + ser_wrapper(w@),
{
    out.append("{\"wrapped_bin\":");
    append_jstr(out, w.wrapped_bin.as_str());
    out.append("}");
    proof {
        assert(out@ =~= old(out)@ + ser_wrapper(w@));
    }
}

/// Append the comma-separated wrapper objects, from index `i` on.
fn append_wrapper_items(out: &mut String, ws: &Vec<Wrapper>, i: usize)
    requires
        i <= ws@.len(),
    ensures
        final(out)@ == old(out)@ + wrapper_items_ser(views_of_wrappers(ws@).skip(i as int)),
    decreases ws@.len() - i,
{
    let ghost vs = views_of_wrappers(ws@).skip(i as int);
    if i == ws.len() {
        proof {
            assert(vs =~= Seq::<Seq<char>>::empty());
            assert(out@ + wrapper_items_ser(vs) =~= out@);
        }
    } else if i + 1 == ws.len() {
        append_wrapper(out, &ws[i]);
        proof {
            assert(vs =~= seq![ws@[i as int]@]);
        }
    } else {
        append_wrapper(out, &ws[i]);
        push_char(out, ',');
        append_wrapper_items(out, ws, i + 1);
        proof {
            assert(vs[0] == ws@[i as int]@);
            assert(vs.skip(1) =~= views_of_wrappers(ws@).skip(i + 1));
            assert(out@ =~= old(out)@ + (ser_wrapper(vs[0]) + seq![','] + wrapper_items_ser(
                vs.skip(1),
            )));
        }
    }
}

/// Append the bracketed wrapper list of one entry.
fn append_wrapper_list(out: &mut String, ws: &Vec<Wrapper>)
    ensures
        final(out)@ == old(out)@ + ser_wrapper_list(views_of_wrappers(ws@)),
{
    push_char(out, '[');
    append_wrapper_items(out, ws, 0);
    push_char(out, ']');
    proof {
        assert(views_of_wrappers(ws@).skip(0) =~= views_of_wrappers(ws@));
        assert(out@ =~= old(out)@ + ser_wrapper_list(views_of_wrappers(ws@)));
    }
}

/// Append one package reference object.
fn append_pkg(out: &mut String, p: &ConanPackage)
    ensures
        final(out)@ == old(out)@ + ser_pkg(p@),
{
    out.append("{\"name\":");
    append_jstr(out, p.name.as_str());
    out.append(",\"version\":");
    append_jstr(out, p.version.as_str());
    out.append(",\"user\":");
    append_jstr(out, p.user.as_str());
    out.append(",\"channel\":");
    append_jstr(out, p.channel.as_str());
    out.append("}");
    proof {
        assert(out@ =~= old(out)@ + ser_pkg(p@));
    }
}

/// Append one tagged install-data object.
fn append_data(out: &mut String, d: &CrackerDatabaseData)
    ensures
        final(out)@ == old(out)@ + ser_data(d@),
{
    match d {
        CrackerDatabaseData::Conan { conan_pkg, conan_settings, conan_options } => {
            out.append("{\"Conan\":{\"conan_pkg\":");
            append_pkg(out, conan_pkg);
            out.append(",\"conan_settings\":");
            append_jstr_list(out, conan_settings);
            out.append(",\"conan_options\":");
            append_jstr_list(out, conan_options);
            out.append("}}");
            proof {
                assert(out@ =~= old(out)@ + ser_data(d@));
            }
        },
        CrackerDatabaseData::Git { pkg_name, url, label, search_paths } => {
            out.append("{\"Git\":{\"pkg_name\":");
            append_jstr(out, pkg_name.as_str());
            out.append(",\"url\":");
            append_jstr(out, url.as_str());
            out.append(",\"label\":");
            append_jstr(out, label.as_str());
            out.append(",\"search_paths\":");
            append_jstr_list(out, search_paths);
            out.append("}}");
            proof {
                assert(out@ =~= old(out)@ + ser_data(d@));
            }
        },
    }
}

/// Append one entry object.
fn append_entry(out: &mut String, e: &CrackerDatabaseEntry)
    ensures
        final(out)@ == old(out)@ + ser_entry(e@),
{
    out.append("{\"data\":");
    append_data(out, &e.data);
    out.append(",\"wrappers\":");
    append_wrapper_list(out, &e.wrappers);
    out.append(",\"install_folder\":");
    append_jstr(out, e.install_folder.as_str());
    out.append("}");
    proof {
        assert(out@ =~= old(out)@ + ser_entry(e@));
    }
}

/// Append the comma-separated entries, from index `i` on.
fn append_entry_items(out: &mut String, es: &Vec<CrackerDatabaseEntry>, i: usize)
    requires
        i <= es@.len(),
    ensures
        final(out)@ == old(out)@ + entry_items_ser(views_of_entries(es@).skip(i as int)),
    decreases es@.len() - i,
{
    let ghost vs = views_of_entries(es@).skip(i as int);
    if i == es.len() {
        proof {
            assert(vs =~= Seq::<EntryView>::empty());
            assert(out@ + entry_items_ser(vs) =~= out@);
        }
    } else if i + 1 == es.len() {
        append_entry(out, &es[i]);
        proof {
            assert(vs =~= seq![es@[i as int]@]);
        }
    } else {
        append_entry(out, &es[i]);
        push_char(out, ',');
        append_entry_items(out, es, i + 1);
        proof {
            assert(vs[0] == es@[i as int]@);
            assert(vs.skip(1) =~= views_of_entries(es@).skip(i + 1));
            assert(out@ =~= old(out)@ + (ser_entry(vs[0]) + seq![','] + entry_items_ser(
                vs.skip(1),
            )));
        }
    }
}

/// Append the bracketed entry list.
fn append_entry_list(out: &mut String, es: &Vec<CrackerDatabaseEntry>)
    ensures
        final(out)@ == old(out)@ + ser_entry_list(views_of_entries(es@)),
{
    push_char(out, '[');
    append_entry_items(out, es, 0);
    push_char(out, ']');
    proof {
        assert(views_of_entries(es@).skip(0) =~= views_of_entries(es@));
        assert(out@ =~= old(out)@ + ser_entry_list(views_of_entries(es@)));
    }
}

/// Serialize a database to its canonical text form.
pub fn serialize_db(db: &CrackerDatabase) -> (r: String)
    ensures
        r@ == ser_db(db@),
{
    let mut out = String::new();
    out.append("{\"wrapped\":");
    append_entry_list(&mut out, &db.wrapped);
    out.append(",\"storage_owned_by\":");
    append_jstr(&mut out, db.storage_owned_by.as_str());
    out.append("}");
    proof {
        assert(out@ =~= ser_db(db@));
    }
    out
}

/// Round trip: the serialized form of any database parses back to exactly
/// the same database.
pub proof fn lemma_db_round_trip(v: DbView)
    ensures
        sp_db(ser_db(v)) == Option::Some(v),
{
    let empty = Seq::<char>::empty();
    let t5 = "}"@ + empty;
    let t4 = jstr(v.storage_owned_by) + t5;
    let t3 = ",\"storage_owned_by\":"@ + t4;
    let t2 = ser_entry_list(v.wrapped) + t3;
    let s = ser_db(v);
    assert(s =~= "{\"wrapped\":"@ + t2);
    lemma_lit_rt("{\"wrapped\":"@, t2);
    lemma_entry_list_rt(v.wrapped, t3);
    lemma_lit_rt(",\"storage_owned_by\":"@, t4);
    lemma_jstr_rt(v.storage_owned_by, t5);
    lemma_lit_rt("}"@, empty);
    assert(t5 =~= "}"@ + empty);
}

/// Consume an exact literal at `pos`.
fn parse_lit(v: &Vec<char>, pos: usize, lit: &str) -> (r: Option<usize>)
    requires
        pos <= v@.len(),
    ensures
        match r {
            Some(np) => pos <= np <= v@.len() && sp_lit(v@.skip(pos as int), lit@)
                == Option::Some(v@.skip(np as int)),
            None => sp_lit(v@.skip(pos as int), lit@) == Option::<Seq<char>>::None,
        },
{
    let ghost s = v@.skip(pos as int);
    let n = lit.unicode_len();
    let nv = v.len();
    if nv - pos < n {
        assert(lit@.len() > s.len());
        return None;
    }
    let mut j: usize = 0;
    while j < n
        invariant
            j <= n,
            n == lit@.len(),
            pos + n <= nv,
            nv == v@.len(),
            s == v@.skip(pos as int),
            forall|k: int| 0 <= k < j ==> v@[pos + k] == lit@[k],
        decreases n - j,
    {
        let c = lit.get_char(j);
        if v[pos + j] != c {
            proof {
                if lit@.len() <= s.len() && s.take(lit@.len() as int) == lit@ {
                    assert(s.take(lit@.len() as int)[j as int] == v@[pos + j]);
                }
            }
            return None;
        }
        j = j + 1;
    }
    proof {
        assert(s.take(n as int) =~= lit@);
        assert(s.skip(n as int) =~= v@.skip(pos + n));
    }
    Some(pos + n)
}

/// Consume a quoted string at `pos`.
fn parse_jstr(v: &Vec<char>, pos: usize) -> (r: Option<(String, usize)>)
    requires
        pos <= v@.len(),
    ensures
        match r {
            Some((sv, np)) => pos < np <= v@.len() && sp_str(v@.skip(pos as int)) == Option::Some(
                (sv@, v@.skip(np as int)),
            ),
            None => sp_str(v@.skip(pos as int)) == Option::<(Seq<char>, Seq<char>)>::None,
        },
{
    if pos == v.len() {
        return None;
    }
    if v[pos] != '"' {
        assert(v@.skip(pos as int)[0] == v@[pos as int]);
        return None;
    }
    proof {
        assert(v@.skip(pos as int)[0] == '"');
        assert(v@.skip(pos as int).skip(1) =~= v@.skip(pos + 1));
    }
    let mut acc: Vec<char> = Vec::new();
    let mut i: usize = pos + 1;
    loop
        invariant
            pos + 1 <= i <= v@.len(),
            sp_str(v@.skip(pos as int)) == sp_str_body(v@.skip(pos + 1)),
            sp_str_body(v@.skip(pos + 1)) == (match sp_str_body(v@.skip(i as int)) {
                Option::Some((w, r)) => Option::Some((acc@ + w, r)),
                Option::None => Option::<(Seq<char>, Seq<char>)>::None,
            }),
        decreases v@.len() - i,
    {
        if i == v.len() {
            proof {
                assert(v@.skip(i as int).len() == 0);
            }
            return None;
        }
        let c = v[i];
        proof {
            assert(v@.skip(i as int)[0] == v@[i as int]);
        }
        if c == '"' {
            proof {
                assert(v@.skip(i as int).skip(1) =~= v@.skip(i + 1));
                assert(acc@ + Seq::<char>::empty() =~= acc@);
            }
            let sres = chars_to_string(&acc);
            return Some((sres, i + 1));
        } else if c == '\\' {
            if i + 1 == v.len() {
                proof {
                    assert(v@.skip(i as int).len() < 2);
                }
                return None;
            }
            let c2 = v[i + 1];
            proof {
                assert(v@.skip(i as int)[1] == v@[i + 1]);
            }
            if c2 == '"' || c2 == '\\' {
                let ghost prev = acc@;
                acc.push(c2);
                proof {
                    assert(v@.skip(i as int).skip(2) =~= v@.skip(i + 2));
                    if let Option::Some((w, r)) = sp_str_body(v@.skip(i + 2)) {
                        assert(acc@ + w =~= prev + (seq![c2] + w));
                    }
                }
                i = i + 2;
            } else {
                return None;
            }
        } else {
            let ghost prev = acc@;
            acc.push(c);
            proof {
                assert(v@.skip(i as int).skip(1) =~= v@.skip(i + 1));
                if let Option::Some((w, r)) = sp_str_body(v@.skip(i + 1)) {
                    assert(acc@ + w =~= prev + (seq![c] + w));
                }
            }
            i = i + 1;
        }
    }
}

/// Consume a bracketed string list at `pos`.
fn parse_jstr_list(v: &Vec<char>, pos: usize) -> (r: Option<(Vec<String>, usize)>)
    requires
        pos <= v@.len(),
    ensures
        match r {
            Some((out, np)) => pos < np <= v@.len() && sp_str_list(v@.skip(pos as int))
                == Option::Some((views_of_strings(out@), v@.skip(np as int))),
            None => sp_str_list(v@.skip(pos as int)) == Option::<
                (Seq<Seq<char>>, Seq<char>),
            >::None,
        },
{
    if pos == v.len() {
        return None;
    }
    if v[pos] != '[' {
        assert(v@.skip(pos as int)[0] == v@[pos as int]);
        return None;
    }
    proof {
        assert(v@.skip(pos as int)[0] == '[');
    }
    if pos + 1 < v.len() && v[pos + 1] == ']' {
        let out: Vec<String> = Vec::new();
        proof {
            assert(v@.skip(pos as int)[1] == ']');
            assert(v@.skip(pos as int).skip(2) =~= v@.skip(pos + 2));
            assert(views_of_strings(out@) =~= Seq::<Seq<char>>::empty());
        }
        return Some((out, pos + 2));
    }
    proof {
        if v@.skip(pos as int).len() >= 2 {
            assert(v@.skip(pos as int)[1] == v@[pos + 1]);
        }
        assert(v@.skip(pos as int).skip(1) =~= v@.skip(pos + 1));
    }
    let mut out: Vec<String> = Vec::new();
    let mut i: usize = pos + 1;
    proof {
        assert(views_of_strings(out@) =~= Seq::<Seq<char>>::empty());
    }
    loop
        invariant
            pos + 1 <= i <= v@.len(),
            sp_str_items(v@.skip(pos + 1)) == (match sp_str_items(v@.skip(i as int)) {
                Option::Some((vs, r)) => Option::Some((views_of_strings(out@) + vs, r)),
                Option::None => Option::<(Seq<Seq<char>>, Seq<char>)>::None,
            }),
            sp_str_list(v@.skip(pos as int)) == sp_str_items(v@.skip(pos + 1)),
        decreases v@.len() - i,
    {
        match parse_jstr(v, i) {
            None => {
                return None;
            },
            Some((sv, i2)) => {
                if i2 == v.len() {
                    proof {
                        assert(v@.skip(i2 as int).len() == 0);
                    }
                    return None;
                }
                let c = v[i2];
                proof {
                    assert(v@.skip(i2 as int)[0] == v@[i2 as int]);
                    assert(v@.skip(i2 as int).skip(1) =~= v@.skip(i2 + 1));
                }
                if c == ',' {
                    let ghost prev = out@;
                    out.push(sv);
                    proof {
                        if let Option::Some((vs, r)) = sp_str_items(v@.skip(i2 + 1)) {
                            assert(views_of_strings(out@) + vs =~= views_of_strings(prev) + (seq![
                                sv@,
                            ] + vs));
                        }
                    }
                    i = i2 + 1;
                } else if c == ']' {
                    let ghost prev = out@;
                    out.push(sv);
                    proof {
                        assert(views_of_strings(out@) =~= views_of_strings(prev) + seq![sv@]);
                    }
                    return Some((out, i2 + 1));
                } else {
                    return None;
                }
            },
        }
    }
}

/// Consume one wrapper object at `pos`.
fn parse_wrapper(v: &Vec<char>, pos: usize) -> (r: Option<(Wrapper, usize)>)
    requires
        pos <= v@.len(),
    ensures
        match r {
            Some((w, np)) => pos < np <= v@.len() && sp_wrapper(v@.skip(pos as int))
                == Option::Some((w@, v@.skip(np as int))),
            None => sp_wrapper(v@.skip(pos as int)) == Option::<(Seq<char>, Seq<char>)>::None,
        },
{
    let p1 = match parse_lit(v, pos, "{\"wrapped_bin\":") {
        None => {
            return None;
        },
        Some(p1) => p1,
    };
    let (name, p2) = match parse_jstr(v, p1) {
        None => {
            return None;
        },
        Some(x) => x,
    };
    let p3 = match parse_lit(v, p2, "}") {
        None => {
            return None;
        },
        Some(p3) => p3,
    };
    proof {
        reveal_strlit("{\"wrapped_bin\":");
    }
    Some((Wrapper { wrapped_bin: name }, p3))
}

/// Consume a bracketed wrapper list at `pos`.
fn parse_wrapper_list(v: &Vec<char>, pos: usize) -> (r: Option<(Vec<Wrapper>, usize)>)
    requires
        pos <= v@.len(),
    ensures
        match r {
            Some((out, np)) => pos < np <= v@.len() && sp_wrapper_list(v@.skip(pos as int))
                == Option::Some((views_of_wrappers(out@), v@.skip(np as int))),
            None => sp_wrapper_list(v@.skip(pos as int)) == Option::<
                (Seq<Seq<char>>, Seq<char>),
            >::None,
        },
{
    if pos == v.len() {
        return None;
    }
    if v[pos] != '[' {
        assert(v@.skip(pos as int)[0] == v@[pos as int]);
        return None;
    }
    proof {
        assert(v@.skip(pos as int)[0] == '[');
    }
    if pos + 1 < v.len() && v[pos + 1] == ']' {
        let out: Vec<Wrapper> = Vec::new();
        proof {
            assert(v@.skip(pos as int)[1] == ']');
            assert(v@.skip(pos as int).skip(2) =~= v@.skip(pos + 2));
            assert(views_of_wrappers(out@) =~= Seq::<Seq<char>>::empty());
        }
        return Some((out, pos + 2));
    }
    proof {
        if v@.skip(pos as int).len() >= 2 {
            assert(v@.skip(pos as int)[1] == v@[pos + 1]);
        }
        assert(v@.skip(pos as int).skip(1) =~= v@.skip(pos + 1));
    }
    let mut out: Vec<Wrapper> = Vec::new();
    let mut i: usize = pos + 1;
    proof {
        assert(views_of_wrappers(out@) =~= Seq::<Seq<char>>::empty());
    }
    loop
        invariant
            pos + 1 <= i <= v@.len(),
            sp_wrapper_items(v@.skip(pos + 1)) == (match sp_wrapper_items(v@.skip(i as int)) {
                Option::Some((vs, r)) => Option::Some((views_of_wrappers(out@) + vs, r)),
                Option::None => Option::<(Seq<Seq<char>>, Seq<char>)>::None,
            }),
            sp_wrapper_list(v@.skip(pos as int)) == sp_wrapper_items(v@.skip(pos + 1)),
        decreases v@.len() - i,
    {
        match parse_wrapper(v, i) {
            None => {
                return None;
            },
            Some((w, i2)) => {
                if i2 == v.len() {
                    proof {
                        assert(v@.skip(i2 as int).len() == 0);
                    }
                    return None;
                }
                let c = v[i2];
                proof {
                    assert(v@.skip(i2 as int)[0] == v@[i2 as int]);
                    assert(v@.skip(i2 as int).skip(1) =~= v@.skip(i2 + 1));
                }
                if c == ',' {
                    let ghost prev = out@;
                    out.push(w);
                    proof {
                        if let Option::Some((vs, r)) = sp_wrapper_items(v@.skip(i2 + 1)) {
                            assert(views_of_wrappers(out@) + vs =~= views_of_wrappers(prev) + (seq![
                                out@.last()@,
                            ] + vs));
                        }
                    }
                    i = i2 + 1;
                } else if c == ']' {
                    let ghost prev = out@;
                    out.push(w);
                    proof {
                        assert(views_of_wrappers(out@) =~= views_of_wrappers(prev) + seq![
                            out@.last()@,
                        ]);
                    }
                    return Some((out, i2 + 1));
                } else {
                    return None;
                }
            },
        }
    }
}

/// Consume one package reference object at `pos`.
fn parse_pkg(v: &Vec<char>, pos: usize) -> (r: Option<(ConanPackage, usize)>)
    requires
        pos <= v@.len(),
    ensures
        match r {
            Some((p, np)) => pos <= np <= v@.len() && sp_pkg(v@.skip(pos as int)) == Option::Some(
                (p@, v@.skip(np as int)),
            ),
            None => sp_pkg(v@.skip(pos as int)) == Option::<(PackageView, Seq<char>)>::None,
        },
{
    let p1 = match parse_lit(v, pos, "{\"name\":") {
        None => {
            return None;
        },
        Some(x) => x,
    };
    let (name, p2) = match parse_jstr(v, p1) {
        None => {
            return None;
        },
        Some(x) => x,
    };
    let p3 = match parse_lit(v, p2, ",\"version\":") {
        None => {
            return None;
        },
        Some(x) => x,
    };
    let (version, p4) = match parse_jstr(v, p3) {
        None => {
            return None;
        },
        Some(x) => x,
    };
    let p5 = match parse_lit(v, p4, ",\"user\":") {
        None => {
            return None;
        },
        Some(x) => x,
    };
    let (user, p6) = match parse_jstr(v, p5) {
        None => {
            return None;
        },
        Some(x) => x,
    };
    let p7 = match parse_lit(v, p6, ",\"channel\":") {
        None => {
            return None;
        },
        Some(x) => x,
    };
    let (channel, p8) = match parse_jstr(v, p7) {
        None => {
            return None;
        },
        Some(x) => x,
    };
    let p9 = match parse_lit(v, p8, "}") {
        None => {
            return None;
        },
        Some(x) => x,
    };
    Some((ConanPackage { name, version, user, channel }, p9))
}

/// Consume one tagged install-data object at `pos`.
fn parse_data(v: &Vec<char>, pos: usize) -> (r: Option<(CrackerDatabaseData, usize)>)
    requires
        pos <= v@.len(),
    ensures
        match r {
            Some((d, np)) => pos <= np <= v@.len() && sp_data(v@.skip(pos as int)) == Option::Some(
                (d@, v@.skip(np as int)),
            ),
            None => sp_data(v@.skip(pos as int)) == Option::<(InstallDataView, Seq<char>)>::None,
        },
{
    match parse_lit(v, pos, "{\"Conan\":{\"conan_pkg\":") {
        Some(p1) => {
            let (conan_pkg, p2) = match parse_pkg(v, p1) {
                None => {
                    return None;
                },
                Some(x) => x,
            };
            let p3 = match parse_lit(v, p2, ",\"conan_settings\":") {
                None => {
                    return None;
                },
                Some(x) => x,
            };
            let (conan_settings, p4) = match parse_jstr_list(v, p3) {
                None => {
                    return None;
                },
                Some(x) => x,
            };
            let p5 = match parse_lit(v, p4, ",\"conan_options\":") {
                None => {
                    return None;
                },
                Some(x) => x,
            };
            let (conan_options, p6) = match parse_jstr_list(v, p5) {
                None => {
                    return None;
                },
                Some(x) => x,
            };
            let p7 = match parse_lit(v, p6, "}}") {
                None => {
                    return None;
                },
                Some(x) => x,
            };
            Some((CrackerDatabaseData::Conan { conan_pkg, conan_settings, conan_options }, p7))
        },
        None => {
            let p1 = match parse_lit(v, pos, "{\"Git\":{\"pkg_name\":") {
                None => {
                    return None;
                },
                Some(x) => x,
            };
            let (pkg_name, p2) = match parse_jstr(v, p1) {
                None => {
                    return None;
                },
                Some(x) => x,
            };
            let p3 = match parse_lit(v, p2, ",\"url\":") {
                None => {
                    return None;
                },
                Some(x) => x,
            };
            let (url, p4) = match parse_jstr(v, p3) {
                None => {
                    return None;
                },
                Some(x) => x,
            };
            let p5 = match parse_lit(v, p4, ",\"label\":") {
                None => {
                    return None;
                },
                Some(x) => x,
            };
            let (label, p6) = match parse_jstr(v, p5) {
                None => {
                    return None;
                },
                Some(x) => x,
            };
            let p7 = match parse_lit(v, p6, ",\"search_paths\":") {
                None => {
                    return None;
                },
                Some(x) => x,
            };
            let (search_paths, p8) = match parse_jstr_list(v, p7) {
                None => {
                    return None;
                },
                Some(x) => x,
            };
            let p9 = match parse_lit(v, p8, "}}") {
                None => {
                    return None;
                },
                Some(x) => x,
            };
            Some((CrackerDatabaseData::Git { pkg_name, url, label, search_paths }, p9))
        },
    }
}

/// Consume one entry object at `pos`.
fn parse_entry(v: &Vec<char>, pos: usize) -> (r: Option<(CrackerDatabaseEntry, usize)>)
    requires
        pos <= v@.len(),
    ensures
        match r {
            Some((e, np)) => pos < np <= v@.len() && sp_entry(v@.skip(pos as int)) == Option::Some(
                (e@, v@.skip(np as int)),
            ),
            None => sp_entry(v@.skip(pos as int)) == Option::<(EntryView, Seq<char>)>::None,
        },
{
    let p1 = match parse_lit(v, pos, "{\"data\":") {
        None => {
            return None;
        },
        Some(x) => x,
    };
    let (data, p2) = match parse_data(v, p1) {
        None => {
            return None;
        },
        Some(x) => x,
    };
    let p3 = match parse_lit(v, p2, ",\"wrappers\":") {
        None => {
            return None;
        },
        Some(x) => x,
    };
    let (wrappers, p4) = match parse_wrapper_list(v, p3) {
        None => {
            return None;
        },
        Some(x) => x,
    };
    let p5 = match parse_lit(v, p4, ",\"install_folder\":") {
        None => {
            return None;
        },
        Some(x) => x,
    };
    let (install_folder, p6) = match parse_jstr(v, p5) {
        None => {
            return None;
        },
        Some(x) => x,
    };
    let p7 = match parse_lit(v, p6, "}") {
        None => {
            return None;
        },
        Some(x) => x,
    };
    Some((CrackerDatabaseEntry { data, wrappers, install_folder }, p7))
}

/// Consume a bracketed entry list at `pos`.
fn parse_entry_list(v: &Vec<char>, pos: usize) -> (r: Option<(Vec<CrackerDatabaseEntry>, usize)>)
    requires
        pos <= v@.len(),
    ensures
        match r {
            Some((out, np)) => pos < np <= v@.len() && sp_entry_list(v@.skip(pos as int))
                == Option::Some((views_of_entries(out@), v@.skip(np as int))),
            None => sp_entry_list(v@.skip(pos as int)) == Option::<
                (Seq<EntryView>, Seq<char>),
            >::None,
        },
{
    if pos == v.len() {
        return None;
    }
    if v[pos] != '[' {
        assert(v@.skip(pos as int)[0] == v@[pos as int]);
        return None;
    }
    proof {
        assert(v@.skip(pos as int)[0] == '[');
    }
    if pos + 1 < v.len() && v[pos + 1] == ']' {
        let out: Vec<CrackerDatabaseEntry> = Vec::new();
        proof {
            assert(v@.skip(pos as int)[1] == ']');
            assert(v@.skip(pos as int).skip(2) =~= v@.skip(pos + 2));
            assert(views_of_entries(out@) =~= Seq::<EntryView>::empty());
        }
        return Some((out, pos + 2));
    }
    proof {
        if v@.skip(pos as int).len() >= 2 {
            assert(v@.skip(pos as int)[1] == v@[pos + 1]);
        }
        assert(v@.skip(pos as int).skip(1) =~= v@.skip(pos + 1));
    }
    let mut out: Vec<CrackerDatabaseEntry> = Vec::new();
    let mut i: usize = pos + 1;
    proof {
        assert(views_of_entries(out@) =~= Seq::<EntryView>::empty());
    }
    loop
        invariant
            pos + 1 <= i <= v@.len(),
            sp_entry_items(v@.skip(pos + 1)) == (match sp_entry_items(v@.skip(i as int)) {
                Option::Some((vs, r)) => Option::Some((views_of_entries(out@) + vs, r)),
                Option::None => Option::<(Seq<EntryView>, Seq<char>)>::None,
            }),
            sp_entry_list(v@.skip(pos as int)) == sp_entry_items(v@.skip(pos + 1)),
        decreases v@.len() - i,
    {
        match parse_entry(v, i) {
            None => {
                return None;
            },
            Some((e, i2)) => {
                if i2 == v.len() {
                    proof {
                        assert(v@.skip(i2 as int).len() == 0);
                    }
                    return None;
                }
                let c = v[i2];
                proof {
                    assert(v@.skip(i2 as int)[0] == v@[i2 as int]);
                    assert(v@.skip(i2 as int).skip(1) =~= v@.skip(i2 + 1));
                }
                if c == ',' {
                    let ghost prev = out@;
                    out.push(e);
                    proof {
                        if let Option::Some((vs, r)) = sp_entry_items(v@.skip(i2 + 1)) {
                            assert(views_of_entries(out@) + vs =~= views_of_entries(prev) + (seq![
                                out@.last()@,
                            ] + vs));
                        }
                    }
                    i = i2 + 1;
                } else if c == ']' {
                    let ghost prev = out@;
                    out.push(e);
                    proof {
                        assert(views_of_entries(out@) =~= views_of_entries(prev) + seq![
                            out@.last()@,
                        ]);
                    }
                    return Some((out, i2 + 1));
                } else {
                    return None;
                }
            },
        }
    }
}

/// Parse the whole persisted text. Succeeds exactly on the canonical
/// encodings, and then returns the encoded database.
pub fn parse_db(content: &str) -> (r: Option<CrackerDatabase>)
    ensures
        match sp_db(content@) {
            Option::Some(dv) => r matches Some(db) && db@ == dv,
            Option::None => r is None,
        },
{
    let v = str_to_chars(content);
    proof {
        assert(v@.skip(0) =~= content@);
    }
    let p1 = match parse_lit(&v, 0, "{\"wrapped\":") {
        None => {
            return None;
        },
        Some(x) => x,
    };
    let (wrapped, p2) = match parse_entry_list(&v, p1) {
        None => {
            return None;
        },
        Some(x) => x,
    };
    let p3 = match parse_lit(&v, p2, ",\"storage_owned_by\":") {
        None => {
            return None;
        },
        Some(x) => x,
    };
    let (storage_owned_by, p4) = match parse_jstr(&v, p3) {
        None => {
            return None;
        },
        Some(x) => x,
    };
    let p5 = match parse_lit(&v, p4, "}") {
        None => {
            return None;
        },
        Some(x) => x,
    };
    if p5 != v.len() {
        proof {
            assert(v@.skip(p5 as int).len() > 0);
        }
        return None;
    }
    proof {
        assert(v@.skip(p5 as int).len() == 0);
    }
    Some(CrackerDatabase { wrapped, storage_owned_by })
}

impl CrackerDatabase {
    /// The persisted text of this database: empty entries pruned, then the
    /// canonical encoding. The caller writes it to the index file.
    pub fn save(&self) -> (r: String)
        ensures
            r@ == ser_db(spec_prune(self@)),
    {
        let pruned = self.pruned();
        serialize_db(&pruned)
    }

    /// Decode a persisted index and verify its ownership: the text must be a
    /// canonical encoding as `save` writes it — an index spelled with other
    /// whitespace or escapes is a decode error — and the stored owner must
    /// be the current user; otherwise the mismatch is reported with both
    /// identities. Loading is a pure function of the text: nothing on disk
    /// is touched or created.
    pub fn load(content: &str, current_user: &str) -> (r: Result<CrackerDatabase, CrackerError>)
        ensures
            match sp_db(content@) {
                Option::None => r matches Err(CrackerError::Decode),
                Option::Some(dv) => {
                    if dv.storage_owned_by == current_user@ {
                        r matches Ok(db) && db@ == dv
                    } else {
                        r matches Err(CrackerError::OwnershipMismatch { owned_by, called_by })
                            && owned_by@ == dv.storage_owned_by && called_by@ == current_user@
                    }
                },
            },
    {
        let user = String::from_str(current_user);
        match parse_db(content) {
            None => Err(CrackerError::Decode),
            Some(db) => {
                if db.storage_owned_by == user {
                    Ok(db)
                } else {
                    Err(
                        CrackerError::OwnershipMismatch {
                            owned_by: db.storage_owned_by,
                            called_by: user,
                        },
                    )
                }
            },
        }
    }
}

} // verus!

