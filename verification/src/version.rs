//! Version formatting: substitute `${raw}`, `${major}`, `${minor}` and
//! `${patch}` in a version-format template, and the small string helpers
//! the modules use to clean a tool's raw version output.

use vstd::prelude::*;
use crate::text::{chars_of, copy_range, string_from_chars, string_range};

verus! {

/// Whitespace for trimming command output.
pub open spec fn is_trim_ws(c: char) -> bool {
    c == ' ' || c == '\t' || c == '\n' || c == '\r'
}

/// `s` without leading whitespace.
pub open spec fn trim_front(s: Seq<char>) -> Seq<char>
    decreases s.len(),
{
    if s.len() > 0 && is_trim_ws(s[0]) {
        trim_front(s.drop_first())
    } else {
        s
    }
}

/// `s` without trailing whitespace.
pub open spec fn trim_back(s: Seq<char>) -> Seq<char>
    decreases s.len(),
{
    if s.len() > 0 && is_trim_ws(s[s.len() - 1]) {
        trim_back(s.drop_last())
    } else {
        s
    }
}

/// `s` without leading or trailing whitespace.
pub open spec fn trim_spec(s: Seq<char>) -> Seq<char> {
    trim_back(trim_front(s))
}

/// The prefix of `s` before the first occurrence of `c` (all of `s` when
/// `c` does not occur).
pub open spec fn prefix_before(s: Seq<char>, c: char) -> Seq<char>
    decreases s.len(),
{
    if s.len() == 0 {
        Seq::empty()
    } else if s[0] == c {
        Seq::empty()
    } else {
        seq![s[0]] + prefix_before(s.drop_first(), c)
    }
}

/// What follows the first occurrence of `c` in `s` (empty when `c` does
/// not occur).
pub open spec fn suffix_after(s: Seq<char>, c: char) -> Seq<char>
    decreases s.len(),
{
    if s.len() == 0 {
        Seq::empty()
    } else if s[0] == c {
        s.drop_first()
    } else {
        suffix_after(s.drop_first(), c)
    }
}

/// The dot-separated components of a version: its major, minor and patch
/// parts (empty when missing).
pub open spec fn version_major(v: Seq<char>) -> Seq<char> {
    prefix_before(v, '.')
}

pub open spec fn version_minor(v: Seq<char>) -> Seq<char> {
    prefix_before(suffix_after(v, '.'), '.')
}

pub open spec fn version_patch(v: Seq<char>) -> Seq<char> {
    prefix_before(suffix_after(suffix_after(v, '.'), '.'), '.')
}

/// Length of the run up to the closing `}` of a `${...}` reference.
pub open spec fn brace_name_len(s: Seq<char>, i: int) -> nat
    decreases s.len() - i,
{
    if 0 <= i && i < s.len() && s[i] != '}' {
        (1 + brace_name_len(s, i + 1)) as nat
    } else {
        0
    }
}

/// What a `${name}` reference stands for; `None` for an unknown name.
pub open spec fn version_var(
    name: Seq<char>,
    raw: Seq<char>,
    major: Seq<char>,
    minor: Seq<char>,
    patch: Seq<char>,
) -> Option<Seq<char>> {
    if name == seq!['r', 'a', 'w'] {
        Option::Some(raw)
    } else if name == seq!['m', 'a', 'j', 'o', 'r'] {
        Option::Some(major)
    } else if name == seq!['m', 'i', 'n', 'o', 'r'] {
        Option::Some(minor)
    } else if name == seq!['p', 'a', 't', 'c', 'h'] {
        Option::Some(patch)
    } else {
        Option::None
    }
}

/// Substitute every `${name}` in the template from position `i` on.
/// `None` on an unknown name or an unterminated reference.
pub open spec fn subst_version(
    f: Seq<char>,
    i: int,
    raw: Seq<char>,
    major: Seq<char>,
    minor: Seq<char>,
    patch: Seq<char>,
) -> Option<Seq<char>>
    decreases f.len() - i,
{
    if !(0 <= i && i < f.len()) {
        Option::Some(Seq::empty())
    } else if f[i] == '$' && i + 1 < f.len() && f[i + 1] == '{' {
        let l = brace_name_len(f, i + 2);
        if i + 2 + l < f.len() {
            let name = f.subrange(i + 2, i + 2 + l);
            match version_var(name, raw, major, minor, patch) {
                Option::None => Option::None,
                Option::Some(v) => {
                    let cont = if i + 3 + l <= f.len() {
                        i + 3 + l
                    } else {
                        f.len() as int
                    };
                    match subst_version(f, cont, raw, major, minor, patch) {
                        Option::None => Option::None,
                        Option::Some(rest) => Option::Some(v + rest),
                    }
                },
            }
        } else {
            Option::None
        }
    } else {
        match subst_version(f, i + 1, raw, major, minor, patch) {
            Option::None => Option::None,
            Option::Some(rest) => Option::Some(seq![f[i]] + rest),
        }
    }
}

/// What formatting a version yields.
pub open spec fn format_version_spec(format: Seq<char>, version: Seq<char>) -> Option<Seq<char>> {
    subst_version(
        format,
        0,
        version,
        version_major(version),
        version_minor(version),
        version_patch(version),
    )
}

/// The position of the first occurrence of `c` at or after `from` (the
/// length when `c` does not occur), with what that means for the prefix
/// and suffix around it.
fn find_char(s: &Vec<char>, from: usize, c: char) -> (j: usize)
    requires
        from <= s@.len(),
    ensures
        from <= j <= s@.len(),
        prefix_before(s@.skip(from as int), c) == s@.subrange(from as int, j as int),
        suffix_after(s@.skip(from as int), c) == if j < s@.len() {
            s@.skip(j as int + 1)
        } else {
            Seq::<char>::empty()
        },
        j < s@.len() ==> s@[j as int] == c,
    decreases s@.len() - from,
{
    let mut k: usize = from;
    while k < s.len() && s[k] != c
        invariant
            from <= k <= s@.len(),
            prefix_before(s@.skip(from as int), c) == s@.subrange(from as int, k as int)
                + prefix_before(s@.skip(k as int), c),
            suffix_after(s@.skip(from as int), c) == suffix_after(s@.skip(k as int), c),
        decreases s@.len() - k,
    {
        proof {
            assert(s@.skip(k as int)[0] == s@[k as int]);
            assert(s@.skip(k as int).drop_first() =~= s@.skip(k as int + 1));
            assert(s@.subrange(from as int, k as int + 1) =~= s@.subrange(from as int, k as int)
                + seq![s@[k as int]]);
        }
        k = k + 1;
    }
    proof {
        if k < s@.len() {
            assert(s@.skip(k as int)[0] == s@[k as int]);
            assert(prefix_before(s@.skip(k as int), c) =~= Seq::<char>::empty());
            assert(s@.skip(k as int).drop_first() =~= s@.skip(k as int + 1));
        } else {
            assert(s@.skip(k as int).len() == 0);
        }
        assert(s@.subrange(from as int, k as int) + Seq::<char>::empty() =~= s@.subrange(
            from as int,
            k as int,
        ));
    }
    k
}

/// Trim whitespace from both ends of a tool's output.
pub fn trim_output(s: &str) -> (r: String)
    ensures
        r@ == trim_spec(s@),
{
    let cs = chars_of(s);
    let n = cs.len();
    proof {
        assert(cs@.skip(0) =~= cs@);
    }
    let mut a: usize = 0;
    while a < n && is_ws_exec(cs[a])
        invariant
            n == cs@.len(),
            a <= n,
            trim_front(cs@) == trim_front(cs@.skip(a as int)),
        decreases n - a,
    {
        proof {
            assert(cs@.skip(a as int)[0] == cs@[a as int]);
            assert(cs@.skip(a as int).drop_first() =~= cs@.skip(a as int + 1));
        }
        a = a + 1;
    }
    proof {
        if a < n {
            assert(cs@.skip(a as int)[0] == cs@[a as int]);
        } else {
            assert(cs@.skip(a as int).len() == 0);
        }
        assert(trim_front(cs@) == cs@.skip(a as int));
    }
    proof {
        assert(cs@.skip(a as int) =~= cs@.subrange(a as int, n as int));
    }
    let mut b: usize = n;
    while b > a && is_ws_exec(cs[b - 1])
        invariant
            a <= b <= n,
            n == cs@.len(),
            trim_front(cs@) == cs@.skip(a as int),
            trim_back(cs@.skip(a as int)) == trim_back(cs@.subrange(a as int, b as int)),
        decreases b,
    {
        proof {
            let ghost sub = cs@.subrange(a as int, b as int);
            assert(sub[sub.len() - 1] == cs@[b as int - 1]);
            assert(sub.drop_last() =~= cs@.subrange(a as int, b as int - 1));
        }
        b = b - 1;
    }
    proof {
        let ghost sub = cs@.subrange(a as int, b as int);
        if b > a {
            assert(sub[sub.len() - 1] == cs@[b as int - 1]);
            assert(!is_trim_ws(sub[sub.len() - 1]));
        }
        assert(trim_back(sub) == sub);
    }
    string_range(&cs, a, b)
}

fn is_ws_exec(c: char) -> (r: bool)
    ensures
        r == is_trim_ws(c),
{
    c == ' ' || c == '\t' || c == '\n' || c == '\r'
}

/// The text before the first `-` of a cleaned version string: how a
/// build-metadata suffix such as `-release` is cut away.
pub fn before_dash(s: &str) -> (r: String)
    ensures
        r@ == prefix_before(s@, '-'),
{
    let cs = chars_of(s);
    proof {
        assert(cs@.skip(0) =~= cs@);
    }
    let j = find_char(&cs, 0, '-');
    proof {
        assert(cs@.subrange(0, j as int) == prefix_before(cs@, '-'));
    }
    string_range(&cs, 0, j)
}

/// The executable `${...}` substitution over the template from `i` on.
fn subst_version_exec(
    f: &Vec<char>,
    i: usize,
    raw: &Vec<char>,
    major: &Vec<char>,
    minor: &Vec<char>,
    patch: &Vec<char>,
) -> (r: Option<Vec<char>>)
    requires
        i <= f@.len(),
    ensures
        match r {
            Option::Some(out) => subst_version(f@, i as int, raw@, major@, minor@, patch@)
                == Option::Some(out@),
            Option::None => subst_version(f@, i as int, raw@, major@, minor@, patch@) is None,
        },
    decreases f@.len() - i,
{
    if i >= f.len() {
        return Option::Some(Vec::new());
    }
    if f[i] == '$' && i + 1 < f.len() && f[i + 1] == '{' {
        let j = find_brace_end(f, i + 2);
        if j < f.len() {
            let value: &Vec<char> = if name_is(f, i + 2, j, "raw") {
                raw
            } else if name_is(f, i + 2, j, "major") {
                major
            } else if name_is(f, i + 2, j, "minor") {
                minor
            } else if name_is(f, i + 2, j, "patch") {
                patch
            } else {
                proof {
                    let ghost name = f@.subrange(i + 2, j as int);
                    reveal_strlit("raw");
                    reveal_strlit("major");
                    reveal_strlit("minor");
                    reveal_strlit("patch");
                    assert("raw"@ =~= seq!['r', 'a', 'w']);
                    assert("major"@ =~= seq!['m', 'a', 'j', 'o', 'r']);
                    assert("minor"@ =~= seq!['m', 'i', 'n', 'o', 'r']);
                    assert("patch"@ =~= seq!['p', 'a', 't', 'c', 'h']);
                    assert(version_var(name, raw@, major@, minor@, patch@) is None);
                }
                return Option::None;
            };
            proof {
                let ghost name = f@.subrange(i + 2, j as int);
                reveal_strlit("raw");
                reveal_strlit("major");
                reveal_strlit("minor");
                reveal_strlit("patch");
                assert("raw"@ =~= seq!['r', 'a', 'w']);
                assert("major"@ =~= seq!['m', 'a', 'j', 'o', 'r']);
                assert("minor"@ =~= seq!['m', 'i', 'n', 'o', 'r']);
                assert("patch"@ =~= seq!['p', 'a', 't', 'c', 'h']);
                assert(version_var(name, raw@, major@, minor@, patch@) == Option::Some(value@));
            }
            match subst_version_exec(f, j + 1, raw, major, minor, patch) {
                Option::None => Option::None,
                Option::Some(rest) => {
                    let mut out = copy_range(value, 0, value.len());
                    let mut r2 = rest;
                    let ghost rv = r2@;
                    out.append(&mut r2);
                    proof {
                        assert(value@.subrange(0, value@.len() as int) =~= value@);
                        assert(out@ =~= value@ + rv);
                    }
                    Option::Some(out)
                },
            }
        } else {
            Option::None
        }
    } else {
        match subst_version_exec(f, i + 1, raw, major, minor, patch) {
            Option::None => Option::None,
            Option::Some(rest) => {
                let mut out: Vec<char> = Vec::new();
                out.push(f[i]);
                let mut r2 = rest;
                let ghost rv = r2@;
                out.append(&mut r2);
                proof {
                    assert(out@ =~= seq![f@[i as int]] + rv);
                }
                Option::Some(out)
            },
        }
    }
}

/// The position of the `}` closing a reference that starts at `from`.
fn find_brace_end(f: &Vec<char>, from: usize) -> (j: usize)
    requires
        from <= f@.len(),
    ensures
        from <= j <= f@.len(),
        j - from == brace_name_len(f@, from as int),
        j < f@.len() ==> f@[j as int] == '}',
    decreases f@.len() - from,
{
    let mut k: usize = from;
    while k < f.len() && f[k] != '}'
        invariant
            from <= k <= f@.len(),
            brace_name_len(f@, from as int) == (k - from) + brace_name_len(f@, k as int),
        decreases f@.len() - k,
    {
        k = k + 1;
    }
    k
}

/// Whether the template characters in `[from, to)` spell `lit`.
fn name_is(f: &Vec<char>, from: usize, to: usize, lit: &str) -> (r: bool)
    requires
        from <= to <= f@.len(),
    ensures
        r == (f@.subrange(from as int, to as int) == lit@),
{
    let name = string_range(f, from, to);
    let other = lit.to_owned();
    let eqr = name.eq(&other);
    proof {
        if name@ == other@ {
            assert(f@.subrange(from as int, to as int) == lit@);
        }
    }
    eqr
}

/// Format a tool's version for a module: substitute `${raw}` and the
/// dot-separated `${major}`, `${minor}`, `${patch}` components into the
/// module's version-format template.  `None` when the template references
/// an unknown name or holds an unterminated reference.  The module's name
/// plays no part in the result; it is accepted so that callers can report
/// which module a failure belongs to.
pub fn format_module_version(_module_name: &str, version: &str, version_format: &str) -> (r: Option<
    String,
>)
    ensures
        match r {
            Option::Some(out) => format_version_spec(version_format@, version@) == Option::Some(
                out@,
            ),
            Option::None => format_version_spec(version_format@, version@) is None,
        },
{
    let vf = chars_of(version_format);
    let vc = chars_of(version);
    proof {
        assert(vc@.skip(0) =~= vc@);
    }
    let d1 = find_char(&vc, 0, '.');
    let major = copy_range(&vc, 0, d1);
    let rest1: usize = if d1 < vc.len() {
        d1 + 1
    } else {
        vc.len()
    };
    let d2 = find_char(&vc, rest1, '.');
    let minor = copy_range(&vc, rest1, d2);
    let rest2: usize = if d2 < vc.len() {
        d2 + 1
    } else {
        vc.len()
    };
    let d3 = find_char(&vc, rest2, '.');
    let patch = copy_range(&vc, rest2, d3);
    proof {
        assert(major@ == version_major(vc@));
        if d1 < vc@.len() {
            assert(suffix_after(vc@, '.') == vc@.skip(d1 as int + 1));
        } else {
            assert(suffix_after(vc@, '.') =~= Seq::<char>::empty());
            assert(vc@.skip(rest1 as int) =~= Seq::<char>::empty());
        }
        assert(minor@ == version_minor(vc@));
        if d2 < vc@.len() {
            assert(suffix_after(suffix_after(vc@, '.'), '.') == vc@.skip(d2 as int + 1));
        } else {
            assert(suffix_after(suffix_after(vc@, '.'), '.') =~= Seq::<char>::empty());
            assert(vc@.skip(rest2 as int) =~= Seq::<char>::empty());
        }
        assert(patch@ == version_patch(vc@));
    }
    match subst_version_exec(&vf, 0, &vc, &major, &minor, &patch) {
        Option::None => Option::None,
        Option::Some(out) => Option::Some(string_from_chars(&out)),
    }
}

} // verus!
