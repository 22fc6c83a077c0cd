//! The package reference: `name/version[@user/channel]`. Parsing validates
//! the grammar, and the canonical rendering round-trips back through the
//! parser.
use vstd::prelude::*;
use vstd::string::StringExecFns;
use crate::errors::CrackerError;
use crate::text::str_to_chars;
use crate::text::string_from_range;

verus! {

/// A structured package reference. `name` and `version` are non-empty and
/// hold neither `/` nor `@`; `user` and `channel` are either both empty or
/// both non-empty with the same character constraint.
#[derive(Debug, PartialEq, Eq, Clone)]
pub struct ConanPackage {
    pub name: String,
    pub version: String,
    pub user: String,
    pub channel: String,
}

/// The mathematical image of a reference.
pub ghost struct PackageView {
    pub name: Seq<char>,
    pub version: Seq<char>,
    pub user: Seq<char>,
    pub channel: Seq<char>,
}

impl View for ConanPackage {
    type V = PackageView;

    open spec fn view(&self) -> PackageView {
        PackageView {
            name: self.name@,
            version: self.version@,
            user: self.user@,
            channel: self.channel@,
        }
    }
}

/// A character allowed inside a reference component.
pub open spec fn is_part_char(c: char) -> bool {
    c != '/' && c != '@'
}

/// A non-empty run of component characters.
pub open spec fn is_part(s: Seq<char>) -> bool {
    s.len() > 0 && forall|i: int| 0 <= i < s.len() ==> is_part_char(s[i])
}

/// A structurally valid reference value.
pub open spec fn wf_package(p: PackageView) -> bool {
    &&& is_part(p.name)
    &&& is_part(p.version)
    &&& ((p.user.len() == 0 && p.channel.len() == 0) || (is_part(p.user) && is_part(p.channel)))
}

/// The `user/channel` tail of the canonical rendering: empty when no user is
/// set, `user/channel` otherwise.
pub open spec fn spec_user_channel(p: PackageView) -> Seq<char> {
    if p.user.len() == 0 {
        Seq::<char>::empty()
    } else {
        p.user + seq!['/'] + p.channel
    }
}

/// The canonical rendering `name/version@[user/channel]`.
pub open spec fn spec_full(p: PackageView) -> Seq<char> {
    p.name + seq!['/'] + p.version + seq!['@'] + spec_user_channel(p)
}

/// `s` is one of the accepted spellings of the reference `p`: either
/// `name/version` with no user and channel, or the canonical rendering.
pub open spec fn is_reference_form(s: Seq<char>, p: PackageView) -> bool {
    &&& wf_package(p)
    &&& ((s == p.name + seq!['/'] + p.version && p.user.len() == 0) || s == spec_full(p))
}

/// The first index at or after `from` holding a separator is `at`.
pub open spec fn first_special_at(s: Seq<char>, from: int, at: int) -> bool {
    &&& from <= at < s.len()
    &&& !is_part_char(s[at])
    &&& forall|i: int| from <= i < at ==> is_part_char(s[i])
}

/// No separator occurs at or after `from`.
pub open spec fn no_special_from(s: Seq<char>, from: int) -> bool {
    forall|i: int| from <= i < s.len() ==> is_part_char(s[i])
}

proof fn lemma_first_special_unique(s: Seq<char>, from: int, a: int, b: int)
    requires
        first_special_at(s, from, a),
        first_special_at(s, from, b),
    ensures
        a == b,
{
    if a < b {
        assert(is_part_char(s[a]));
    } else if b < a {
        assert(is_part_char(s[b]));
    }
}

/// Where the pieces of every accepted spelling sit inside the string.
proof fn lemma_form_positions(s: Seq<char>, p: PackageView)
    requires
        is_reference_form(s, p),
    ensures
        first_special_at(s, 0, p.name.len() as int),
        s[p.name.len() as int] == '/',
        p.name == s.subrange(0, p.name.len() as int),
        p.user.len() == 0 ==> {
            let nl = p.name.len() as int;
            let vl = p.version.len() as int;
            {
                ||| {
                    &&& s.len() == nl + 1 + vl
                    &&& no_special_from(s, nl + 1)
                    &&& p.version == s.subrange(nl + 1, s.len() as int)
                }
                ||| {
                    &&& s.len() == nl + 1 + vl + 1
                    &&& first_special_at(s, nl + 1, s.len() - 1)
                    &&& s[s.len() - 1] == '@'
                    &&& p.version == s.subrange(nl + 1, s.len() - 1)
                }
            }
        },
        p.user.len() > 0 ==> {
            let nl = p.name.len() as int;
            let vl = p.version.len() as int;
            let ul = p.user.len() as int;
            let cl = p.channel.len() as int;
            {
                &&& s.len() == nl + 1 + vl + 1 + ul + 1 + cl
                &&& first_special_at(s, nl + 1, nl + 1 + vl)
                &&& s[nl + 1 + vl] == '@'
                &&& p.version == s.subrange(nl + 1, nl + 1 + vl)
                &&& first_special_at(s, nl + 2 + vl, nl + 2 + vl + ul)
                &&& s[nl + 2 + vl + ul] == '/'
                &&& p.user == s.subrange(nl + 2 + vl, nl + 2 + vl + ul)
                &&& no_special_from(s, nl + 3 + vl + ul)
                &&& p.channel == s.subrange(nl + 3 + vl + ul, s.len() as int)
            }
        },
{
    let nl = p.name.len() as int;
    let vl = p.version.len() as int;
    if s == p.name + seq!['/'] + p.version && p.user.len() == 0 {
        assert(s.len() == nl + 1 + vl);
        assert forall|i: int| 0 <= i < nl implies is_part_char(s[i]) by {
            assert(s[i] == p.name[i]);
        }
        assert(s[nl] == '/');
        assert(p.name =~= s.subrange(0, nl));
        assert forall|i: int| nl + 1 <= i < s.len() implies is_part_char(s[i]) by {
            assert(s[i] == p.version[i - nl - 1]);
        }
        assert(p.version =~= s.subrange(nl + 1, s.len() as int));
    } else {
        assert(s == spec_full(p));
        if p.user.len() == 0 {
            assert(spec_user_channel(p) =~= Seq::<char>::empty());
            assert(s =~= p.name + seq!['/'] + p.version + seq!['@']);
            assert(s.len() == nl + 1 + vl + 1);
            assert forall|i: int| 0 <= i < nl implies is_part_char(s[i]) by {
                assert(s[i] == p.name[i]);
            }
            assert(s[nl] == '/');
            assert(p.name =~= s.subrange(0, nl));
            assert forall|i: int| nl + 1 <= i < s.len() - 1 implies is_part_char(s[i]) by {
                assert(s[i] == p.version[i - nl - 1]);
            }
            assert(s[s.len() - 1] == '@');
            assert(p.version =~= s.subrange(nl + 1, s.len() - 1));
        } else {
            let ul = p.user.len() as int;
            let cl = p.channel.len() as int;
            assert(s =~= p.name + seq!['/'] + p.version + seq!['@'] + p.user + seq!['/']
                + p.channel);
            assert(s.len() == nl + 1 + vl + 1 + ul + 1 + cl);
            assert forall|i: int| 0 <= i < nl implies is_part_char(s[i]) by {
                assert(s[i] == p.name[i]);
            }
            assert(s[nl] == '/');
            assert(p.name =~= s.subrange(0, nl));
            assert forall|i: int| nl + 1 <= i < nl + 1 + vl implies is_part_char(s[i]) by {
                assert(s[i] == p.version[i - nl - 1]);
            }
            assert(s[nl + 1 + vl] == '@');
            assert(p.version =~= s.subrange(nl + 1, nl + 1 + vl));
            assert forall|i: int| nl + 2 + vl <= i < nl + 2 + vl + ul implies is_part_char(
                s[i],
            ) by {
                assert(s[i] == p.user[i - nl - 2 - vl]);
            }
            assert(s[nl + 2 + vl + ul] == '/');
            assert(p.user =~= s.subrange(nl + 2 + vl, nl + 2 + vl + ul));
            assert forall|i: int| nl + 3 + vl + ul <= i < s.len() implies is_part_char(s[i]) by {
                assert(s[i] == p.channel[i - nl - 3 - vl - ul]);
            }
            assert(p.channel =~= s.subrange(nl + 3 + vl + ul, s.len() as int));
        }
    }
}

/// A string is an accepted spelling of at most one reference.
pub proof fn lemma_reference_form_unique(s: Seq<char>, p1: PackageView, p2: PackageView)
    requires
        is_reference_form(s, p1),
        is_reference_form(s, p2),
    ensures
        p1 == p2,
{
    lemma_form_positions(s, p1);
    lemma_form_positions(s, p2);
    let nl1 = p1.name.len() as int;
    let nl2 = p2.name.len() as int;
    lemma_first_special_unique(s, 0, nl1, nl2);
    assert(p1.name == p2.name);
    let nl = nl1;
    if p1.user.len() == 0 && p2.user.len() == 0 {
        // Both either end after the version or end with '@'.
        if s.len() == nl + 1 + p1.version.len() && s.len() == nl + 1 + p2.version.len() {
            assert(p1.version == p2.version);
        } else if s.len() == nl + 1 + p1.version.len() + 1 && s.len() == nl + 1 + p2.version.len()
            + 1 {
            assert(p1.version == p2.version);
        } else if s.len() == nl + 1 + p1.version.len() {
            // p2 claims a trailing '@', p1 claims none.
            assert(is_part_char(s[s.len() - 1]));
            assert(false);
        } else {
            assert(is_part_char(s[s.len() - 1]));
            assert(false);
        }
        assert(p1.user =~= p2.user);
        assert(p1.channel =~= p2.channel);
    } else if p1.user.len() > 0 && p2.user.len() > 0 {
        lemma_first_special_unique(
            s,
            nl + 1,
            nl + 1 + p1.version.len() as int,
            nl + 1 + p2.version.len() as int,
        );
        assert(p1.version == p2.version);
        let vl = p1.version.len() as int;
        lemma_first_special_unique(
            s,
            nl + 2 + vl,
            nl + 2 + vl + p1.user.len() as int,
            nl + 2 + vl + p2.user.len() as int,
        );
        assert(p1.user == p2.user);
        assert(p1.channel == p2.channel);
    } else if p1.user.len() == 0 {
        // p2 has a user, so s holds a '/' after the '@'; p1 leaves no room for it.
        let vl2 = p2.version.len() as int;
        let at = nl + 2 + vl2 + p2.user.len() as int;
        assert(s[at] == '/');
        if s.len() == nl + 1 + p1.version.len() {
            assert(is_part_char(s[nl + 1 + vl2]));
            assert(false);
        } else {
            // p1: everything between nl + 1 and the final '@' is a part character,
            // but at < s.len() - 1 holds '/', unless at == s.len() - 1, which holds '@'.
            if at < s.len() - 1 {
                assert(is_part_char(s[at]));
                assert(false);
            } else {
                assert(s[at] == '@');
                assert(false);
            }
        }
    } else {
        let vl1 = p1.version.len() as int;
        let at = nl + 2 + vl1 + p1.user.len() as int;
        assert(s[at] == '/');
        if s.len() == nl + 1 + p2.version.len() {
            assert(is_part_char(s[nl + 1 + vl1]));
            assert(false);
        } else {
            if at < s.len() - 1 {
                assert(is_part_char(s[at]));
                assert(false);
            } else {
                assert(s[at] == '@');
                assert(false);
            }
        }
    }
}

/// Round trip: the canonical rendering of a reference parsed from a valid
/// string is itself a valid string that spells exactly the same reference.
pub proof fn lemma_reference_round_trip(s: Seq<char>, p: PackageView)
    requires
        is_reference_form(s, p),
        s.len() > 5,
    ensures
        spec_full(p).len() > 5,
        is_reference_form(spec_full(p), p),
        forall|q: PackageView| is_reference_form(spec_full(p), q) ==> q == p,
{
    if s == p.name + seq!['/'] + p.version && p.user.len() == 0 {
        assert(spec_user_channel(p) =~= Seq::<char>::empty());
        assert(spec_full(p) =~= p.name + seq!['/'] + p.version + seq!['@']);
        assert(spec_full(p).len() == s.len() + 1);
    } else {
        assert(s == spec_full(p));
    }
    assert forall|q: PackageView| is_reference_form(spec_full(p), q) implies q == p by {
        lemma_reference_form_unique(spec_full(p), q, p);
    }
}

/// Find the first separator (`/` or `@`) at or after `from`.
fn find_special(v: &Vec<char>, from: usize) -> (r: Option<usize>)
    requires
        from <= v@.len(),
    ensures
        match r {
            Some(i) => from <= i < v@.len() && first_special_at(v@, from as int, i as int),
            None => no_special_from(v@, from as int),
        },
{
    let mut i: usize = from;
    while i < v.len()
        invariant
            from <= i <= v@.len(),
            forall|k: int| from <= k < i ==> is_part_char(v@[k]),
        decreases v@.len() - i,
    {
        let c = v[i];
        if c == '/' || c == '@' {
            return Some(i);
        }
        i = i + 1;
    }
    None
}

impl ConanPackage {
    /// Parse a reference string. Returns the structured reference exactly for
    /// the strings that satisfy the grammar and are longer than five
    /// characters; otherwise reports which of the two conditions failed, the
    /// grammar being checked first.
    pub fn new(reference: &str) -> (r: Result<ConanPackage, CrackerError>)
        ensures
            match r {
                Ok(p) => is_reference_form(reference@, p@) && reference@.len() > 5,
                Err(CrackerError::MalformedReference { reference: e }) => e@ == reference@
                    && forall|p: PackageView| !is_reference_form(reference@, p),
                Err(CrackerError::ReferenceTooShort { reference: e }) => e@ == reference@
                    && reference@.len() <= 5 && exists|p: PackageView|
                    is_reference_form(reference@, p),
                Err(_) => false,
            },
    {
        let v = str_to_chars(reference);
        let n = v.len();
        match Self::parse_chars(&v) {
            None => Err(
                CrackerError::MalformedReference { reference: String::from_str(reference) },
            ),
            Some(p) => {
                if n <= 5 {
                    Err(CrackerError::ReferenceTooShort { reference: String::from_str(reference) })
                } else {
                    Ok(p)
                }
            },
        }
    }

    /// The grammar check proper: succeeds exactly on the accepted spellings.
    fn parse_chars(v: &Vec<char>) -> (r: Option<ConanPackage>)
        ensures
            match r {
                Some(p) => is_reference_form(v@, p@),
                None => forall|p: PackageView| !is_reference_form(v@, p),
            },
    {
        let ghost s = v@;
        let n = v.len();
        let i1 = match find_special(v, 0) {
            None => {
                proof {
                    assert forall|p: PackageView| !is_reference_form(s, p) by {
                        if is_reference_form(s, p) {
                            lemma_form_positions(s, p);
                        }
                    }
                }
                return None;
            },
            Some(i1) => i1,
        };
        if i1 == 0 || v[i1] == '@' {
            proof {
                assert forall|p: PackageView| !is_reference_form(s, p) by {
                    if is_reference_form(s, p) {
                        lemma_form_positions(s, p);
                        lemma_first_special_unique(s, 0, i1 as int, p.name.len() as int);
                    }
                }
            }
            return None;
        }
        // v[i1] == '/': the name is v[0..i1].
        let j = match find_special(v, i1 + 1) {
            None => {
                // No '@' at all: the bare `name/version` spelling.
                if n == i1 + 1 {
                    proof {
                        assert forall|p: PackageView| !is_reference_form(s, p) by {
                            if is_reference_form(s, p) {
                                lemma_form_positions(s, p);
                                lemma_first_special_unique(s, 0, i1 as int, p.name.len() as int);
                            }
                        }
                    }
                    return None;
                }
                let p = ConanPackage {
                    name: string_from_range(v, 0, i1),
                    version: string_from_range(v, i1 + 1, n),
                    user: String::new(),
                    channel: String::new(),
                };
                proof {
                    assert(s =~= p@.name + seq!['/'] + p@.version);
                }
                return Some(p);
            },
            Some(j) => j,
        };
        if v[j] == '/' || j == i1 + 1 {
            proof {
                assert forall|p: PackageView| !is_reference_form(s, p) by {
                    if is_reference_form(s, p) {
                        lemma_form_positions(s, p);
                        lemma_first_special_unique(s, 0, i1 as int, p.name.len() as int);
                        if p.user.len() == 0 {
                            if s.len() == p.name.len() + 1 + p.version.len() {
                                assert(is_part_char(s[j as int]));
                            } else {
                                lemma_first_special_unique(s, i1 + 1, j as int, s.len() - 1);
                            }
                        } else {
                            lemma_first_special_unique(
                                s,
                                i1 + 1,
                                j as int,
                                p.name.len() as int + 1 + p.version.len() as int,
                            );
                        }
                    }
                }
            }
            return None;
        }
        // v[j] == '@': the version is v[i1 + 1 .. j].
        if j + 1 == n {
            // Trailing '@' with no user and channel.
            let p = ConanPackage {
                name: string_from_range(v, 0, i1),
                version: string_from_range(v, i1 + 1, j),
                user: String::new(),
                channel: String::new(),
            };
            proof {
                assert(spec_user_channel(p@) =~= Seq::<char>::empty());
                assert(s =~= p@.name + seq!['/'] + p@.version + seq!['@'] + spec_user_channel(
                    p@,
                ));
            }
            return Some(p);
        }
        let k = match find_special(v, j + 1) {
            None => {
                // A user with no '/channel'.
                proof {
                    assert forall|p: PackageView| !is_reference_form(s, p) by {
                        if is_reference_form(s, p) {
                            lemma_form_positions(s, p);
                            lemma_first_special_unique(s, 0, i1 as int, p.name.len() as int);
                            if p.user.len() == 0 {
                                if s.len() == p.name.len() + 1 + p.version.len() {
                                    assert(is_part_char(s[j as int]));
                                } else {
                                    lemma_first_special_unique(s, i1 + 1, j as int, s.len() - 1);
                                }
                            } else {
                                lemma_first_special_unique(
                                    s,
                                    i1 + 1,
                                    j as int,
                                    p.name.len() as int + 1 + p.version.len() as int,
                                );
                                assert(!is_part_char(
                                    s[p.name.len() as int + 2 + p.version.len() as int + p.user.len() as int],
                                ));
                            }
                        }
                    }
                }
                return None;
            },
            Some(k) => k,
        };
        if v[k] == '@' || k == j + 1 || k + 1 == n {
            proof {
                assert forall|p: PackageView| !is_reference_form(s, p) by {
                    if is_reference_form(s, p) {
                        lemma_form_positions(s, p);
                        lemma_first_special_unique(s, 0, i1 as int, p.name.len() as int);
                        if p.user.len() == 0 {
                            if s.len() == p.name.len() + 1 + p.version.len() {
                                assert(is_part_char(s[j as int]));
                            } else {
                                lemma_first_special_unique(s, i1 + 1, j as int, s.len() - 1);
                                assert(is_part_char(s[k as int]));
                            }
                        } else {
                            lemma_first_special_unique(
                                s,
                                i1 + 1,
                                j as int,
                                p.name.len() as int + 1 + p.version.len() as int,
                            );
                            lemma_first_special_unique(
                                s,
                                j + 1,
                                k as int,
                                p.name.len() as int + 2 + p.version.len() as int + p.user.len() as int,
                            );
                        }
                    }
                }
            }
            return None;
        }
        // v[k] == '/': the user is v[j + 1 .. k], the channel v[k + 1 .. n].
        match find_special(v, k + 1) {
            Some(m) => {
                proof {
                    assert forall|p: PackageView| !is_reference_form(s, p) by {
                        if is_reference_form(s, p) {
                            lemma_form_positions(s, p);
                            lemma_first_special_unique(s, 0, i1 as int, p.name.len() as int);
                            if p.user.len() == 0 {
                                if s.len() == p.name.len() + 1 + p.version.len() {
                                    assert(is_part_char(s[j as int]));
                                } else {
                                    lemma_first_special_unique(s, i1 + 1, j as int, s.len() - 1);
                                    assert(is_part_char(s[k as int]));
                                }
                            } else {
                                lemma_first_special_unique(
                                    s,
                                    i1 + 1,
                                    j as int,
                                    p.name.len() as int + 1 + p.version.len() as int,
                                );
                                lemma_first_special_unique(
                                    s,
                                    j + 1,
                                    k as int,
                                    p.name.len() as int + 2 + p.version.len() as int + p.user.len() as int,
                                );
                                assert(is_part_char(s[m as int]));
                            }
                        }
                    }
                }
                None
            },
            None => {
                let p = ConanPackage {
                    name: string_from_range(v, 0, i1),
                    version: string_from_range(v, i1 + 1, j),
                    user: string_from_range(v, j + 1, k),
                    channel: string_from_range(v, k + 1, n),
                };
                proof {
                    assert(s =~= p@.name + seq!['/'] + p@.version + seq!['@'] + (p@.user
                        + seq!['/'] + p@.channel));
                }
                Some(p)
            },
        }
    }

    /// The canonical rendering `name/version@[user/channel]`.
    pub fn full(&self) -> (r: String)
        ensures
            r@ == spec_full(self@),
    {
        let mut r = self.name.clone();
        r.append("/");
        r.append(self.version.as_str());
        r.append("@");
        let tail = self.user_channel();
        r.append(tail.as_str());
        proof {
            reveal_strlit("/");
            reveal_strlit("@");
            assert("/"@ =~= seq!['/']);
            assert("@"@ =~= seq!['@']);
            assert(r@ =~= spec_full(self@));
        }
        r
    }

    /// The `user/channel` tail: empty when no user is set.
    pub fn user_channel(&self) -> (r: String)
        ensures
            r@ == spec_user_channel(self@),
    {
        if self.user.as_str().is_empty() {
            let r = String::new();
            proof {
                assert(r@ =~= spec_user_channel(self@));
            }
            r
        } else {
            let mut r = self.user.clone();
            r.append("/");
            r.append(self.channel.as_str());
            proof {
                reveal_strlit("/");
                assert("/"@ =~= seq!['/']);
                assert(r@ =~= spec_user_channel(self@));
            }
            r
        }
    }
}

} // verus!
