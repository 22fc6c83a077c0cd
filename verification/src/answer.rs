//! Classifying one line of interactive input as yes, no, or neither.
//! Whitespace is trimmed and the answer letters are lowered before
//! comparing.
use vstd::prelude::*;
use crate::text::str_to_chars;

verus! {

pub open spec fn is_space(c: char) -> bool {
    c == ' ' || c == '\t' || c == '\n' || c == '\r'
}

/// The answer letters in lower case; other characters are left alone.
pub open spec fn lower_char(c: char) -> char {
    if c == 'Y' {
        'y'
    } else if c == 'E' {
        'e'
    } else if c == 'S' {
        's'
    } else if c == 'N' {
        'n'
    } else if c == 'O' {
        'o'
    } else {
        c
    }
}

/// How many whitespace characters the string starts with.
pub open spec fn trim_start(s: Seq<char>) -> int
    decreases s.len(),
{
    if s.len() == 0 {
        0
    } else if is_space(s[0]) {
        1 + trim_start(s.skip(1))
    } else {
        0
    }
}

/// Where the trailing whitespace begins, as an exclusive end index.
pub open spec fn trim_end(s: Seq<char>) -> int
    decreases s.len(),
{
    if s.len() == 0 {
        0
    } else if is_space(s.last()) {
        trim_end(s.drop_last())
    } else {
        s.len() as int
    }
}

/// The string without leading and trailing whitespace.
pub open spec fn spec_trimmed(s: Seq<char>) -> Seq<char> {
    let rest = s.skip(trim_start(s));
    rest.take(trim_end(rest))
}

/// The string with its answer letters lowered.
pub open spec fn spec_lowered(s: Seq<char>) -> Seq<char> {
    s.map_values(|c: char| lower_char(c))
}

/// What one line of input answers: the trimmed, lowered line must read
/// `y`, `yes`, `n` or `no`; anything else answers nothing.
pub open spec fn spec_answer(s: Seq<char>) -> Option<bool> {
    let t = spec_lowered(spec_trimmed(s));
    if t == "y"@ || t == "yes"@ {
        Option::Some(true)
    } else if t == "n"@ || t == "no"@ {
        Option::Some(false)
    } else {
        Option::None
    }
}

proof fn lemma_trim_start(s: Seq<char>)
    ensures
        0 <= trim_start(s) <= s.len(),
        forall|k: int| 0 <= k < trim_start(s) ==> is_space(s[k]),
        trim_start(s) < s.len() ==> !is_space(s[trim_start(s)]),
    decreases s.len(),
{
    if s.len() == 0 {
    } else if is_space(s[0]) {
        lemma_trim_start(s.skip(1));
        assert forall|k: int| 0 <= k < trim_start(s) implies is_space(s[k]) by {
            if k > 0 {
                assert(s.skip(1)[k - 1] == s[k]);
            }
        }
        if trim_start(s) < s.len() {
            assert(s.skip(1)[trim_start(s) - 1] == s[trim_start(s)]);
        }
    } else {
    }
}

proof fn lemma_trim_end(s: Seq<char>)
    ensures
        0 <= trim_end(s) <= s.len(),
        forall|k: int| trim_end(s) <= k < s.len() ==> is_space(s[k]),
        trim_end(s) > 0 ==> !is_space(s[trim_end(s) - 1]),
    decreases s.len(),
{
    if s.len() == 0 {
    } else if is_space(s.last()) {
        lemma_trim_end(s.drop_last());
        assert forall|k: int| trim_end(s) <= k < s.len() implies is_space(s[k]) by {
            if k < s.len() - 1 {
                assert(s.drop_last()[k] == s[k]);
            }
        }
        if trim_end(s) > 0 {
            assert(s.drop_last()[trim_end(s) - 1] == s[trim_end(s) - 1]);
        }
    } else {
    }
}

fn lower_char_exec(c: char) -> (r: char)
    ensures
        r == lower_char(c),
{
    if c == 'Y' {
        'y'
    } else if c == 'E' {
        'e'
    } else if c == 'S' {
        's'
    } else if c == 'N' {
        'n'
    } else if c == 'O' {
        'o'
    } else {
        c
    }
}

fn is_space_exec(c: char) -> (r: bool)
    ensures
        r == is_space(c),
{
    c == ' ' || c == '\t' || c == '\n' || c == '\r'
}

/// Classify one line of interactive input as yes, no, or neither.
pub fn parse_answer(line: &str) -> (r: Option<bool>)
    ensures
        r == spec_answer(line@),
{
    let v = str_to_chars(line);
    let n = v.len();
    let ghost s = line@;
    // Leading whitespace.
    let mut a: usize = 0;
    while a < n && is_space_exec(v[a])
        invariant
            a <= n,
            n == v@.len(),
            v@ == s,
            forall|k: int| 0 <= k < a ==> is_space(s[k]),
        decreases n - a,
    {
        a = a + 1;
    }
    proof {
        lemma_trim_start(s);
        assert(trim_start(s) == a) by {
            let ts = trim_start(s);
            if ts < a {
                assert(is_space(s[ts]));
            } else if a < ts {
                assert(is_space(s[a as int]));
                assert(a < n);
            }
        }
    }
    let ghost rest = s.skip(a as int);
    // Trailing whitespace.
    let mut e: usize = n;
    while e > a && is_space_exec(v[e - 1])
        invariant
            a <= e <= n,
            n == v@.len(),
            v@ == s,
            forall|k: int| e <= k < n ==> is_space(s[k]),
        decreases e,
    {
        e = e - 1;
    }
    proof {
        lemma_trim_end(rest);
        assert forall|k: int| 0 <= k < rest.len() implies rest[k] == s[a + k] by {}
        assert(trim_end(rest) == e - a) by {
            let te = trim_end(rest);
            if te < e - a {
                assert(e > a);
                assert(!is_space(s[e - 1]));
                assert(is_space(rest[(e - 1) - a]));
                assert(rest[(e - 1) - a] == s[e - 1]);
            } else if e - a < te {
                assert(is_space(rest[te - 1]) == is_space(s[a + te - 1]));
                assert(is_space(s[a + te - 1]));
                assert(!is_space(rest[te - 1]));
            }
        }
        assert(spec_trimmed(s) =~= s.subrange(a as int, e as int));
    }
    let ghost t = spec_lowered(spec_trimmed(s));
    proof {
        assert(t.len() == e - a);
        assert forall|k: int| 0 <= k < t.len() implies t[k] == lower_char(s[a + k]) by {}
    }
    let m = e - a;
    if m == 1 {
        let c0 = lower_char_exec(v[a]);
        if c0 == 'y' {
            proof {
                reveal_strlit("y");
                assert(t =~= "y"@);
            }
            Some(true)
        } else if c0 == 'n' {
            proof {
                reveal_strlit("y");
                reveal_strlit("yes");
                reveal_strlit("n");
                assert(t[0] == 'n');
                assert("y"@[0] == 'y');
                assert("yes"@.len() == 3);
                assert(t =~= "n"@);
                assert(t != "y"@ && t != "yes"@);
            }
            Some(false)
        } else {
            proof {
                reveal_strlit("y");
                reveal_strlit("yes");
                reveal_strlit("n");
                reveal_strlit("no");
                assert(t[0] == lower_char(s[a as int]));
                assert(t != "y"@ && t != "yes"@ && t != "n"@ && t != "no"@);
            }
            None
        }
    } else if m == 2 {
        let c0 = lower_char_exec(v[a]);
        let c1 = lower_char_exec(v[a + 1]);
        if c0 == 'n' && c1 == 'o' {
            proof {
                reveal_strlit("y");
                reveal_strlit("yes");
                reveal_strlit("no");
                assert(t =~= "no"@);
                assert(t != "y"@ && t != "yes"@);
            }
            Some(false)
        } else {
            proof {
                reveal_strlit("y");
                reveal_strlit("yes");
                reveal_strlit("n");
                reveal_strlit("no");
                assert(t[0] == lower_char(s[a as int]));
                assert(t[1] == lower_char(s[a + 1]));
                assert(t != "y"@ && t != "yes"@ && t != "n"@ && t != "no"@);
            }
            None
        }
    } else if m == 3 {
        let c0 = lower_char_exec(v[a]);
        let c1 = lower_char_exec(v[a + 1]);
        let c2 = lower_char_exec(v[a + 2]);
        if c0 == 'y' && c1 == 'e' && c2 == 's' {
            proof {
                reveal_strlit("yes");
                assert(t =~= "yes"@);
            }
            Some(true)
        } else {
            proof {
                reveal_strlit("y");
                reveal_strlit("yes");
                reveal_strlit("n");
                reveal_strlit("no");
                assert(t[0] == lower_char(s[a as int]));
                assert(t[1] == lower_char(s[a + 1]));
                assert(t[2] == lower_char(s[a + 2]));
                assert(t != "y"@ && t != "yes"@ && t != "n"@ && t != "no"@);
            }
            None
        }
    } else {
        proof {
            reveal_strlit("y");
            reveal_strlit("yes");
            reveal_strlit("n");
            reveal_strlit("no");
            assert(t != "y"@ && t != "yes"@ && t != "n"@ && t != "no"@);
        }
        None
    }
}

} // verus!
