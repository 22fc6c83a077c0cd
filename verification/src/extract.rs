//! Discovery helpers: pulling the binary directory out of a generated
//! environment file, and the project name out of a version-control URL.
use vstd::prelude::*;
use vstd::string::StringExecFns;
use crate::errors::CrackerError;
use crate::paths::lemma_last_slash_char;
use crate::paths::spec_last_slash;
use crate::text::str_to_chars;
use crate::text::string_from_range;

verus! {

/// The index of the first newline, or the length when there is none.
pub open spec fn first_nl(s: Seq<char>) -> int
    decreases s.len(),
{
    if s.len() == 0 {
        0
    } else if s[0] == '\n' {
        0
    } else {
        1 + first_nl(s.skip(1))
    }
}

pub(crate) proof fn lemma_first_nl(s: Seq<char>)
    ensures
        0 <= first_nl(s) <= s.len(),
        first_nl(s) < s.len() ==> s[first_nl(s)] == '\n',
        forall|k: int| 0 <= k < first_nl(s) ==> s[k] != '\n',
    decreases s.len(),
{
    if s.len() == 0 {
    } else if s[0] == '\n' {
    } else {
        lemma_first_nl(s.skip(1));
        assert forall|k: int| 0 <= k < first_nl(s) implies s[k] != '\n' by {
            if k > 0 {
                assert(s.skip(1)[k - 1] == s[k]);
            }
        }
    }
}

/// The length of the leading run of non-quote characters.
pub open spec fn nonquote_run(s: Seq<char>) -> int
    decreases s.len(),
{
    if s.len() == 0 {
        0
    } else if s[0] == '"' {
        0
    } else {
        1 + nonquote_run(s.skip(1))
    }
}

pub(crate) proof fn lemma_nonquote_run(s: Seq<char>)
    ensures
        0 <= nonquote_run(s) <= s.len(),
        nonquote_run(s) < s.len() ==> s[nonquote_run(s)] == '"',
        forall|k: int| 0 <= k < nonquote_run(s) ==> s[k] != '"',
    decreases s.len(),
{
    if s.len() == 0 {
    } else if s[0] == '"' {
    } else {
        lemma_nonquote_run(s.skip(1));
        assert forall|k: int| 0 <= k < nonquote_run(s) implies s[k] != '"' by {
            if k > 0 {
                assert(s.skip(1)[k - 1] == s[k]);
            }
        }
    }
}

/// `p` is a prefix of `s`.
pub open spec fn starts_with(s: Seq<char>, p: Seq<char>) -> bool {
    p.len() <= s.len() && s.take(p.len() as int) == p
}

/// What one `PATH=` line yields: the run of characters after `PATH="` up to
/// the next quote. The run must be non-empty and must be followed by at
/// least one character; a run that reaches the end of the line loses its
/// final character instead.
pub open spec fn sp_extract_line(line: Seq<char>) -> Option<Seq<char>> {
    if !starts_with(line, "PATH=\""@) {
        Option::None
    } else {
        let after = line.skip(6);
        let run = nonquote_run(after);
        if run == 0 {
            Option::None
        } else if run < after.len() {
            Option::Some(after.take(run))
        } else if run >= 2 {
            Option::Some(after.take(run - 1))
        } else {
            Option::None
        }
    }
}

/// What the whole environment file yields: the first line starting with
/// `PATH=` decides; no such line yields nothing.
pub open spec fn sp_extract(s: Seq<char>) -> Option<Seq<char>>
    decreases s.len(),
    via sp_extract_decreases
{
    let ll = first_nl(s);
    let line = s.take(ll);
    if starts_with(line, "PATH="@) {
        sp_extract_line(line)
    } else if ll >= s.len() {
        Option::None
    } else {
        sp_extract(s.skip(ll + 1))
    }
}

#[via_fn]
proof fn sp_extract_decreases(s: Seq<char>) {
    lemma_first_nl(s);
}

/// Pull the first quoted segment of the first `PATH=` assignment out of the
/// text of a generated environment file.
pub fn extract_path(content: &str) -> (r: Option<String>)
    ensures
        match r {
            Some(p) => sp_extract(content@) == Option::Some(p@),
            None => sp_extract(content@) == Option::<Seq<char>>::None,
        },
{
    let v = str_to_chars(content);
    let n = v.len();
    let mut start: usize = 0;
    proof {
        assert(v@.skip(0) =~= v@);
    }
    loop
        invariant
            start <= n,
            n == v@.len(),
            v@ == content@,
            sp_extract(content@) == sp_extract(v@.skip(start as int)),
        decreases n - start,
    {
        let ghost s = v@.skip(start as int);
        // Find the end of the current line.
        let mut e: usize = start;
        while e < n && v[e] != '\n'
            invariant
                start <= e <= n,
                n == v@.len(),
                forall|k: int| start <= k < e ==> v@[k] != '\n',
            decreases n - e,
        {
            e = e + 1;
        }
        proof {
            lemma_first_nl(s);
            assert forall|k: int| start <= k < e implies #[trigger] s[k - start] != '\n' by {}
            assert(first_nl(s) == e - start) by {
                let fl = first_nl(s);
                if fl < e - start {
                    assert(s[fl] != '\n');
                } else if fl > e - start {
                    assert(e < n);
                    assert(s[e - start] == v@[e as int]);
                }
            }
        }
        let ghost line = s.take((e - start) as int);
        // Does the line start with `PATH=`?
        let is_path_line = e - start >= 5 && v[start] == 'P' && v[start + 1] == 'A' && v[start + 2]
            == 'T' && v[start + 3] == 'H' && v[start + 4] == '=';
        proof {
            reveal_strlit("PATH=");
            assert forall|k: int| 0 <= k < line.len() implies line[k] == v@[start + k] by {}
            if is_path_line {
                assert(line.take(5) =~= "PATH="@);
            } else {
                if starts_with(line, "PATH="@) {
                    assert(line.take(5)[0] == 'P');
                    assert(line.take(5)[1] == 'A');
                    assert(line.take(5)[2] == 'T');
                    assert(line.take(5)[3] == 'H');
                    assert(line.take(5)[4] == '=');
                    assert(v@[start as int] == 'P' && v@[start + 1] == 'A' && v@[start + 2] == 'T'
                        && v@[start + 3] == 'H' && v@[start + 4] == '=');
                }
            }
        }
        if is_path_line {
            // The line decides, whether or not it is well-formed.
            proof {
                reveal_strlit("PATH=\"");
            }
            if !(e - start >= 6 && v[start + 5] == '"') {
                proof {
                    if starts_with(line, "PATH=\""@) {
                        assert(line.take(6)[5] == '"');
                        assert(v@[start + 5] == '"');
                        assert(line.len() >= 6);
                    }
                }
                return None;
            }
            proof {
                assert(line.take(6) =~= "PATH=\""@);
            }
            let ghost after = line.skip(6);
            let abase = start + 6;
            // Find the quote ending the captured run.
            let mut q: usize = abase;
            while q < e && v[q] != '"'
                invariant
                    abase <= q <= e <= n,
                    n == v@.len(),
                    forall|k: int| abase <= k < q ==> v@[k] != '"',
                decreases e - q,
            {
                q = q + 1;
            }
            proof {
                lemma_nonquote_run(after);
                assert(after.len() == e - start - 6);
                assert forall|k: int| 0 <= k < after.len() implies after[k] == v@[abase + k] by {}
                assert(nonquote_run(after) == q - abase) by {
                    let run = nonquote_run(after);
                    if run < q - abase {
                        assert(after[run] == v@[abase + run]);
                    } else if run > q - abase {
                        assert(q < e);
                        assert(after[q - abase] == v@[q as int]);
                    }
                }
            }
            let run = q - abase;
            if run == 0 {
                return None;
            } else if q < e {
                let out = string_from_range(&v, abase, q);
                proof {
                    assert(after.take(run as int) =~= v@.subrange(abase as int, q as int));
                }
                return Some(out);
            } else if run >= 2 {
                let out = string_from_range(&v, abase, q - 1);
                proof {
                    assert(after.take(run - 1) =~= v@.subrange(abase as int, q - 1));
                }
                return Some(out);
            } else {
                return None;
            }
        }
        if e == n {
            return None;
        }
        proof {
            assert(s.skip((e - start) + 1) =~= v@.skip(e + 1));
        }
        start = e + 1;
    }
}

/// `url` names a project: it ends in `.git` with a `/` somewhere before.
pub open spec fn spec_git_url_ok(url: Seq<char>) -> bool {
    url.len() >= 4 && url.subrange(url.len() - 4, url.len() as int) == ".git"@ && spec_last_slash(
        url,
    ) != -1
}

/// The project name inside a well-formed URL: between the last `/` and the
/// trailing `.git`.
pub open spec fn spec_git_repo_name(url: Seq<char>) -> Seq<char> {
    url.subrange(spec_last_slash(url) + 1, url.len() - 4)
}

/// Pull the project name out of a version-control URL.
pub fn extract_git_repo_name(url: &str) -> (r: Result<String, CrackerError>)
    ensures
        match r {
            Ok(name) => spec_git_url_ok(url@) && name@ == spec_git_repo_name(url@),
            Err(CrackerError::GitUrlUnparsable { url: u }) => u@ == url@ && !spec_git_url_ok(
                url@,
            ),
            Err(_) => false,
        },
{
    let v = str_to_chars(url);
    let n = v.len();
    proof {
        reveal_strlit(".git");
    }
    if n < 4 || !(v[n - 4] == '.' && v[n - 3] == 'g' && v[n - 2] == 'i' && v[n - 1] == 't') {
        proof {
            if url@.len() >= 4 && url@.subrange(url@.len() - 4, url@.len() as int) == ".git"@ {
                let suf = url@.subrange(url@.len() - 4, url@.len() as int);
                assert(suf[0] == '.' && suf[1] == 'g' && suf[2] == 'i' && suf[3] == 't');
            }
        }
        return Err(CrackerError::GitUrlUnparsable { url: String::from_str(url) });
    }
    proof {
        assert(url@.subrange(url@.len() - 4, url@.len() as int) =~= ".git"@);
    }
    // Find the last slash.
    let mut ls_opt: Option<usize> = None;
    let mut j: usize = 0;
    while j < n
        invariant
            j <= n,
            n == v@.len(),
            match ls_opt {
                Some(l) => l < j && v@[l as int] == '/' && forall|k: int|
                    l < k < j ==> v@[k] != '/',
                None => forall|k: int| 0 <= k < j ==> v@[k] != '/',
            },
        decreases n - j,
    {
        if v[j] == '/' {
            ls_opt = Some(j);
        }
        j = j + 1;
    }
    proof {
        lemma_last_slash_char(v@);
    }
    match ls_opt {
        None => {
            assert(spec_last_slash(v@) == -1) by {
                if spec_last_slash(v@) != -1 {
                    assert(v@[spec_last_slash(v@)] == '/');
                }
            }
            Err(CrackerError::GitUrlUnparsable { url: String::from_str(url) })
        },
        Some(l) => {
            assert(spec_last_slash(v@) == l) by {
                if spec_last_slash(v@) == -1 {
                    assert(v@[l as int] != '/');
                } else {
                    let sls = spec_last_slash(v@);
                    if sls < l {
                        assert(v@[l as int] != '/');
                    } else if l < sls {
                        assert(v@[sls] != '/');
                    }
                }
            }
            assert(l < n - 4) by {
                if l >= n - 4 {
                    assert(url@.subrange(url@.len() - 4, url@.len() as int)[l - (n - 4)]
                        == v@[l as int]);
                }
            }
            Ok(string_from_range(&v, l + 1, n - 4))
        },
    }
}

} // verus!
