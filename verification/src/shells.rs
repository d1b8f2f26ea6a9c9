//! The shells that the "+" menu offers: the user's login shell first, then
//! the known shells listed in `/etc/shells`, else the first installed path
//! of each known shell, else `/bin/sh`. Reading the environment and
//! `/etc/shells`, and finding which paths exist, is the caller's part: it
//! asks [`probe_paths`] which paths to look for and hands the ones that
//! exist to [`detect_shells_from`].
use vstd::prelude::*;

use crate::text::{
    chars_eq, chars_of, copy_range, copy_string, find_char, first_index_of, string_from_chars,
    trim, trim_range,
};

verus! {

// ---------------------------------------------------------------------------
// File names
// ---------------------------------------------------------------------------

/// `p` without its trailing slashes.
pub open spec fn strip_trailing_slashes(p: Seq<char>) -> Seq<char>
    decreases p.len(),
{
    if p.len() > 0 && p.last() == '/' {
        strip_trailing_slashes(p.drop_last())
    } else {
        p
    }
}

/// The position just after the last `/` of `p`, or 0 when there is none.
pub open spec fn last_segment_start(p: Seq<char>) -> nat
    decreases p.len(),
{
    if p.len() == 0 {
        0
    } else if p.last() == '/' {
        p.len()
    } else {
        last_segment_start(p.drop_last())
    }
}

/// The last component of a Unix path, as `Path::file_name` gives it:
/// trailing slashes and `.` components do not count, and a path that ends
/// in `..`, or has no component (`""`, `/`, `.`), has none.
pub open spec fn spec_file_name(p: Seq<char>) -> Option<Seq<char>>
    decreases p.len(),
{
    let q = strip_trailing_slashes(p);
    if q.len() == 0 {
        None
    } else {
        let k = last_segment_start(q);
        let seg = q.skip(k as int);
        if seg == seq!['.'] {
            proof {
                lemma_strip(p);
                lemma_last_segment_start(q);
                assert(seg.len() == 1);
            }
            spec_file_name(q.take(k as int))
        } else if seg == seq!['.', '.'] {
            None
        } else {
            Some(seg)
        }
    }
}

pub proof fn lemma_strip(p: Seq<char>)
    ensures
        strip_trailing_slashes(p) == p.take(strip_trailing_slashes(p).len() as int),
        strip_trailing_slashes(p).len() <= p.len(),
        strip_trailing_slashes(p).len() > 0 ==> strip_trailing_slashes(p).last() != '/',
    decreases p.len(),
{
    if p.len() > 0 && p.last() == '/' {
        lemma_strip(p.drop_last());
        let s = strip_trailing_slashes(p.drop_last());
        assert(p.drop_last().take(s.len() as int) =~= p.take(s.len() as int));
    } else {
        assert(p.take(p.len() as int) =~= p);
    }
}

pub proof fn lemma_last_segment_start(p: Seq<char>)
    ensures
        last_segment_start(p) <= p.len(),
        last_segment_start(p) > 0 ==> p[last_segment_start(p) - 1] == '/',
        forall|j: int| last_segment_start(p) <= j < p.len() ==> p[j] != '/',
    decreases p.len(),
{
    if p.len() > 0 && p.last() != '/' {
        lemma_last_segment_start(p.drop_last());
        assert forall|j: int| last_segment_start(p) <= j < p.len() implies p[j] != '/' by {
            if j < p.len() - 1 {
                assert(p.drop_last()[j] == p[j]);
            }
        }
    }
}

/// The last component of the Unix path `path` (see [`spec_file_name`]).
pub fn file_name(path: &[char]) -> (r: Option<Vec<char>>)
    ensures
        match r {
            Some(v) => spec_file_name(path@) == Some(v@),
            None => spec_file_name(path@) is None,
        },
{
    let mut hi: usize = path.len();
    assert(path@.take(hi as int) =~= path@);
    loop
        invariant
            hi <= path@.len(),
            spec_file_name(path@) == spec_file_name(path@.take(hi as int)),
        decreases hi,
    {
        // strip the trailing slashes of path[..hi]
        let mut end = hi;
        while end > 0 && path[end - 1] == '/'
            invariant
                end <= hi <= path@.len(),
                strip_trailing_slashes(path@.take(hi as int)) == strip_trailing_slashes(
                    path@.take(end as int),
                ),
            decreases end,
        {
            assert(path@.take(end as int).drop_last() =~= path@.take(end - 1));
            end -= 1;
        }
        assert(strip_trailing_slashes(path@.take(end as int)) == path@.take(end as int));
        if end == 0 {
            return None;
        }
        // find the start of the last segment
        let mut k = end;
        while k > 0 && path[k - 1] != '/'
            invariant
                k <= end <= hi <= path@.len(),
                last_segment_start(path@.take(end as int)) == last_segment_start(
                    path@.take(k as int),
                ),
            decreases k,
        {
            assert(path@.take(k as int).drop_last() =~= path@.take(k - 1));
            k -= 1;
        }
        let ghost q = path@.take(end as int);
        assert(last_segment_start(path@.take(k as int)) == k);
        assert(q.skip(k as int) =~= path@.subrange(k as int, end as int));
        assert(q.take(k as int) =~= path@.take(k as int));
        let len = end - k;
        if len == 1 && path[k] == '.' {
            assert(q.skip(k as int) =~= seq!['.']);
            hi = k;
        } else if len == 2 && path[k] == '.' && path[k + 1] == '.' {
            assert(q.skip(k as int) =~= seq!['.', '.']);
            return None;
        } else {
            assert(q.skip(k as int) != seq!['.']) by {
                if len == 1 {
                    assert(q.skip(k as int)[0] != '.');
                }
            }
            assert(q.skip(k as int) != seq!['.', '.']) by {
                if len == 2 {
                    assert(q.skip(k as int)[0] != '.' || q.skip(k as int)[1] != '.');
                }
            }
            return Some(copy_range(path, k, end));
        }
    }
}

// ---------------------------------------------------------------------------
// The known shells
// ---------------------------------------------------------------------------

/// The shells the menu knows, each with the paths where it is looked for,
/// in order.
pub open spec fn shell_table() -> Seq<(Seq<char>, Seq<Seq<char>>)> {
    seq![
        ("zsh"@, seq!["/bin/zsh"@, "/usr/bin/zsh"@, "/usr/local/bin/zsh"@]),
        ("bash"@, seq!["/bin/bash"@, "/usr/bin/bash"@, "/usr/local/bin/bash"@]),
        ("fish"@, seq!["/usr/bin/fish"@, "/usr/local/bin/fish"@]),
        ("nu"@, seq!["/usr/bin/nu"@, "/usr/local/bin/nu"@]),
        ("pwsh"@, seq!["/usr/bin/pwsh"@, "/usr/local/bin/pwsh"@]),
        ("sh"@, seq!["/bin/sh"@]),
    ]
}

/// Whether `name` is one of the known shells.
pub open spec fn known_shell(name: Seq<char>) -> bool {
    exists|i: int| 0 <= i < shell_table().len() && #[trigger] shell_table()[i].0 == name
}

/// The known shells, as [`shell_table`] lists them.
fn shell_table_exec() -> (r: Vec<(&'static str, Vec<&'static str>)>)
    ensures
        r@.len() == shell_table().len(),
        forall|i: int|
            0 <= i < r@.len() ==> (#[trigger] r@[i]).0@ == shell_table()[i].0
                && r@[i].1@.map_values(|s: &str| s@) == shell_table()[i].1,
{
    let mut t: Vec<(&'static str, Vec<&'static str>)> = Vec::new();
    t.push(("zsh", vec!["/bin/zsh", "/usr/bin/zsh", "/usr/local/bin/zsh"]));
    t.push(("bash", vec!["/bin/bash", "/usr/bin/bash", "/usr/local/bin/bash"]));
    t.push(("fish", vec!["/usr/bin/fish", "/usr/local/bin/fish"]));
    t.push(("nu", vec!["/usr/bin/nu", "/usr/local/bin/nu"]));
    t.push(("pwsh", vec!["/usr/bin/pwsh", "/usr/local/bin/pwsh"]));
    t.push(("sh", vec!["/bin/sh"]));
    proof {
        assert(t@[0].1@.map_values(|s: &str| s@) =~= shell_table()[0].1);
        assert(t@[1].1@.map_values(|s: &str| s@) =~= shell_table()[1].1);
        assert(t@[2].1@.map_values(|s: &str| s@) =~= shell_table()[2].1);
        assert(t@[3].1@.map_values(|s: &str| s@) =~= shell_table()[3].1);
        assert(t@[4].1@.map_values(|s: &str| s@) =~= shell_table()[4].1);
        assert(t@[5].1@.map_values(|s: &str| s@) =~= shell_table()[5].1);
    }
    t
}

/// Whether `name` is one of the known shells.
pub fn is_known_shell(name: &[char]) -> (r: bool)
    ensures
        r == known_shell(name@),
{
    let table = shell_table_exec();
    let mut i: usize = 0;
    while i < table.len()
        invariant
            i <= table@.len(),
            table@.len() == shell_table().len(),
            forall|j: int|
                0 <= j < table@.len() ==> (#[trigger] table@[j]).0@ == shell_table()[j].0,
            forall|j: int| 0 <= j < i ==> shell_table()[j].0 != name@,
        decreases table.len() - i,
    {
        let n = chars_of(table[i].0);
        if chars_eq(n.as_slice(), name) {
            assert(shell_table()[i as int].0 == name@);
            return true;
        }
        i += 1;
    }
    false
}

// ---------------------------------------------------------------------------
// Which paths exist
// ---------------------------------------------------------------------------

/// Whether `p` is among the paths found to exist.
pub open spec fn path_exists(existing: Seq<String>, p: Seq<char>) -> bool {
    exists|i: int| 0 <= i < existing.len() && #[trigger] existing[i]@ == p
}

/// Whether `p` is among the paths found to exist.
pub fn is_existing(existing: &[String], p: &[char]) -> (r: bool)
    ensures
        r == path_exists(existing@, p@),
{
    let mut i: usize = 0;
    while i < existing.len()
        invariant
            i <= existing@.len(),
            forall|j: int| 0 <= j < i ==> existing@[j]@ != p@,
        decreases existing.len() - i,
    {
        let e = chars_of(existing[i].as_str());
        if chars_eq(e.as_slice(), p) {
            return true;
        }
        i += 1;
    }
    false
}

/// The first of `paths` that exists.
pub open spec fn first_existing(paths: Seq<Seq<char>>, existing: Seq<String>) -> Option<Seq<char>>
    decreases paths.len(),
{
    if paths.len() == 0 {
        None
    } else if path_exists(existing, paths[0]) {
        Some(paths[0])
    } else {
        first_existing(paths.drop_first(), existing)
    }
}

// ---------------------------------------------------------------------------
// /etc/shells
// ---------------------------------------------------------------------------

/// The entries of a `/etc/shells` file: its lines, trimmed, without empty
/// lines and comments.
pub open spec fn shell_file_lines(s: Seq<char>) -> Seq<Seq<char>>
    decreases s.len(),
{
    let i = first_index_of(s, '\n');
    let t = trim(s.take(i as int));
    let rest = if i < s.len() {
        shell_file_lines(s.skip(i + 1 as int))
    } else {
        seq![]
    };
    if t.len() == 0 || t[0] == '#' {
        rest
    } else {
        seq![t] + rest
    }
}

/// The entries of a `/etc/shells` file.
pub fn shell_file_entries(contents: &str) -> (r: Vec<Vec<char>>)
    ensures
        r@.map_values(|v: Vec<char>| v@) == shell_file_lines(contents@),
{
    let cs = chars_of(contents);
    let len = cs.len();
    let mut out: Vec<Vec<char>> = Vec::new();
    let mut p: usize = 0;
    assert(cs@.subrange(0, len as int) =~= cs@);
    loop
        invariant_except_break
            p <= len,
            shell_file_lines(contents@) == out@.map_values(|v: Vec<char>| v@) + shell_file_lines(
                cs@.subrange(p as int, len as int),
            ),
        invariant
            len == cs@.len(),
            cs@ == contents@,
        ensures
            shell_file_lines(contents@) == out@.map_values(|v: Vec<char>| v@),
        decreases len - p,
    {
        let ghost sub = cs@.subrange(p as int, len as int);
        let ghost before = out@.map_values(|v: Vec<char>| v@);
        let i = find_char(cs.as_slice(), p, len, '\n');
        proof {
            crate::text::lemma_first_index_of(sub, '\n');
            assert(sub.take(i - p) =~= cs@.subrange(p as int, i as int));
        }
        let (a, b) = trim_range(cs.as_slice(), p, i);
        let ghost t = trim(cs@.subrange(p as int, i as int));
        assert(cs@.subrange(a as int, b as int) == t);
        let keep = a < b && cs[a] != '#';
        if keep {
            let line = copy_range(cs.as_slice(), a, b);
            out.push(line);
            assert(out@.map_values(|v: Vec<char>| v@) =~= before.push(t));
        }
        if i < len {
            proof {
                assert(sub.skip(i - p + 1) =~= cs@.subrange(i + 1, len as int));
                if keep {
                    assert(before.push(t) + shell_file_lines(cs@.subrange(i + 1, len as int))
                        =~= before + (seq![t] + shell_file_lines(cs@.subrange(i + 1, len as int))));
                }
            }
            p = i + 1;
        } else {
            proof {
                if keep {
                    assert(before + (seq![t] + Seq::<Seq<char>>::empty()) =~= before.push(t));
                } else {
                    assert(before + Seq::<Seq<char>>::empty() =~= before);
                }
            }
            break ;
        }
    }
    out
}

// ---------------------------------------------------------------------------
// The list of shells
// ---------------------------------------------------------------------------

/// Shells found so far: (label, path) pairs, and the shell names taken.
pub struct ShellScan {
    pub shells: Seq<(Seq<char>, Seq<char>)>,
    pub seen: Seq<Seq<char>>,
}

/// The name of a shell entry of `/etc/shells`: its file name, or nothing.
pub open spec fn entry_name(path: Seq<char>) -> Seq<char> {
    match spec_file_name(path) {
        Some(n) => n,
        None => seq![],
    }
}

/// One entry of `/etc/shells`: kept when it names a known shell not taken
/// yet and the path exists.
pub open spec fn scan_entry(st: ShellScan, path: Seq<char>, existing: Seq<String>) -> ShellScan {
    let name = entry_name(path);
    if known_shell(name) && path_exists(existing, path) && !st.seen.contains(name) {
        ShellScan { shells: st.shells.push((name, path)), seen: st.seen.push(name) }
    } else {
        st
    }
}

/// The entries of `/etc/shells`, one after the other.
pub open spec fn scan_entries(st: ShellScan, paths: Seq<Seq<char>>, existing: Seq<String>) -> ShellScan
    decreases paths.len(),
{
    if paths.len() == 0 {
        st
    } else {
        scan_entry(scan_entries(st, paths.drop_last(), existing), paths.last(), existing)
    }
}

/// Each known shell at its first path that exists, in the order of the table.
pub open spec fn fallback_shells(table: Seq<(Seq<char>, Seq<Seq<char>>)>, existing: Seq<String>) -> Seq<
    (Seq<char>, Seq<char>),
>
    decreases table.len(),
{
    if table.len() == 0 {
        seq![]
    } else {
        let rest = fallback_shells(table.drop_last(), existing);
        match first_existing(table.last().1, existing) {
            Some(p) => rest.push((table.last().0, p)),
            None => rest,
        }
    }
}

/// The name of the login shell `path`: its file name, or `shell`.
pub open spec fn login_shell_name(path: Seq<char>) -> Seq<char> {
    match spec_file_name(path) {
        Some(n) => n,
        None => "shell"@,
    }
}

/// Where the scan starts: the login shell, labelled `Default (name)`, when
/// it is set and exists.
pub open spec fn initial_scan(login_shell: Option<Seq<char>>, existing: Seq<String>) -> ShellScan {
    match login_shell {
        Some(p) => if path_exists(existing, p) {
            ShellScan {
                shells: seq![("Default ("@ + login_shell_name(p) + ")"@, p)],
                seen: seq![login_shell_name(p)],
            }
        } else {
            ShellScan { shells: seq![], seen: seq![] }
        },
        None => ShellScan { shells: seq![], seen: seq![] },
    }
}

/// The shells of the "+" menu, as (label, path) pairs: the login shell
/// first, then the known shells of `/etc/shells`, once each; when there is
/// none, the first existing path of each known shell; when there is none
/// either, `/bin/sh`.
pub open spec fn spec_detect_shells(
    login_shell: Option<Seq<char>>,
    shell_file: Option<Seq<char>>,
    existing: Seq<String>,
) -> Seq<(Seq<char>, Seq<char>)> {
    let st0 = initial_scan(login_shell, existing);
    let st1 = match shell_file {
        Some(c) => scan_entries(st0, shell_file_lines(c), existing),
        None => st0,
    };
    let found = if st1.shells.len() == 0 {
        fallback_shells(shell_table(), existing)
    } else {
        st1.shells
    };
    if found.len() == 0 {
        seq![("sh"@, "/bin/sh"@)]
    } else {
        found
    }
}

/// The paths whose existence [`detect_shells_from`] reads: the login
/// shell, the entries of `/etc/shells`, and every path of the table.
pub open spec fn spec_probe_paths(login_shell: Option<Seq<char>>, shell_file: Option<Seq<char>>) -> Seq<
    Seq<char>,
> {
    let a = match login_shell {
        Some(p) => seq![p],
        None => seq![],
    };
    let b = match shell_file {
        Some(c) => shell_file_lines(c),
        None => seq![],
    };
    a + b + table_paths(shell_table())
}

/// Every path of a table, in order.
pub open spec fn table_paths(table: Seq<(Seq<char>, Seq<Seq<char>>)>) -> Seq<Seq<char>>
    decreases table.len(),
{
    if table.len() == 0 {
        seq![]
    } else {
        table_paths(table.drop_last()) + table.last().1
    }
}

pub open spec fn opt_str_view(o: Option<&str>) -> Option<Seq<char>> {
    match o {
        Some(s) => Some(s@),
        None => None,
    }
}

pub open spec fn pairs_view(v: Seq<(String, String)>) -> Seq<(Seq<char>, Seq<char>)> {
    v.map_values(|p: (String, String)| (p.0@, p.1@))
}

/// The paths to look for before calling [`detect_shells_from`].
pub fn probe_paths(login_shell: Option<&str>, shell_file: Option<&str>) -> (r: Vec<String>)
    ensures
        r@.map_values(|s: String| s@) == spec_probe_paths(
            opt_str_view(login_shell),
            opt_str_view(shell_file),
        ),
{
    let mut out: Vec<String> = Vec::new();
    if let Some(p) = login_shell {
        out.push(copy_string(p));
    }
    let ghost a = out@.map_values(|s: String| s@);
    assert(a =~= match opt_str_view(login_shell) {
        Some(p) => seq![p],
        None => Seq::<Seq<char>>::empty(),
    });
    if let Some(c) = shell_file {
        let lines = shell_file_entries(c);
        let mut i: usize = 0;
        while i < lines.len()
            invariant
                i <= lines@.len(),
                out@.map_values(|s: String| s@) == a + lines@.map_values(|v: Vec<char>| v@).take(
                    i as int,
                ),
            decreases lines.len() - i,
        {
            let ghost before = out@.map_values(|s: String| s@);
            out.push(string_from_chars(lines[i].as_slice()));
            assert(out@.map_values(|s: String| s@) =~= before.push(lines@[i as int]@));
            assert(lines@.map_values(|v: Vec<char>| v@).take(i + 1) =~= lines@.map_values(
                |v: Vec<char>| v@,
            ).take(i as int).push(lines@[i as int]@));
            i += 1;
        }
        assert(lines@.map_values(|v: Vec<char>| v@).take(i as int) =~= lines@.map_values(
            |v: Vec<char>| v@,
        ));
    }
    let ghost ab = out@.map_values(|s: String| s@);
    assert(ab =~= a + match opt_str_view(shell_file) {
        Some(c) => shell_file_lines(c),
        None => Seq::<Seq<char>>::empty(),
    });
    let table = shell_table_exec();
    let mut t: usize = 0;
    while t < table.len()
        invariant
            t <= table@.len(),
            table@.len() == shell_table().len(),
            forall|j: int|
                0 <= j < table@.len() ==> (#[trigger] table@[j]).0@ == shell_table()[j].0
                    && table@[j].1@.map_values(|s: &str| s@) == shell_table()[j].1,
            out@.map_values(|s: String| s@) == ab + table_paths(shell_table().take(t as int)),
        decreases table.len() - t,
    {
        let cands = &table[t].1;
        let ghost start = out@.map_values(|s: String| s@);
        let mut k: usize = 0;
        while k < cands.len()
            invariant
                k <= cands@.len(),
                cands@.map_values(|s: &str| s@) == shell_table()[t as int].1,
                out@.map_values(|s: String| s@) == start + shell_table()[t as int].1.take(k as int),
            decreases cands.len() - k,
        {
            let ghost before = out@.map_values(|s: String| s@);
            out.push(copy_string(cands[k]));
            assert(out@.map_values(|s: String| s@) =~= before.push(cands@[k as int]@));
            assert(shell_table()[t as int].1.take(k + 1) =~= shell_table()[t as int].1.take(
                k as int,
            ).push(cands@[k as int]@));
            k += 1;
        }
        proof {
            assert(shell_table()[t as int].1.take(k as int) =~= shell_table()[t as int].1);
            assert(shell_table().take(t + 1).drop_last() =~= shell_table().take(t as int));
            assert(shell_table().take(t + 1).last() == shell_table()[t as int]);
            assert(out@.map_values(|s: String| s@) =~= ab + table_paths(shell_table().take(t + 1)));
        }
        t += 1;
    }
    assert(shell_table().take(t as int) =~= shell_table());
    out
}

/// Whether `name` is among the names taken.
fn is_seen(seen: &Vec<Vec<char>>, name: &[char]) -> (r: bool)
    ensures
        r == seen@.map_values(|v: Vec<char>| v@).contains(name@),
{
    let ghost sv = seen@.map_values(|v: Vec<char>| v@);
    let mut i: usize = 0;
    while i < seen.len()
        invariant
            i <= seen@.len(),
            sv == seen@.map_values(|v: Vec<char>| v@),
            forall|j: int| 0 <= j < i ==> sv[j] != name@,
        decreases seen.len() - i,
    {
        if chars_eq(seen[i].as_slice(), name) {
            assert(sv[i as int] == name@);
            return true;
        }
        i += 1;
    }
    false
}

/// The first of `cands` that exists.
fn first_existing_exec<'a>(cands: &Vec<&'a str>, existing: &[String]) -> (r: Option<&'a str>)
    ensures
        match r {
            Some(p) => first_existing(cands@.map_values(|s: &str| s@), existing@) == Some(p@),
            None => first_existing(cands@.map_values(|s: &str| s@), existing@) is None,
        },
{
    let ghost all = cands@.map_values(|s: &str| s@);
    assert(all.skip(0) =~= all);
    let mut k: usize = 0;
    while k < cands.len()
        invariant
            k <= cands@.len(),
            all == cands@.map_values(|s: &str| s@),
            first_existing(all, existing@) == first_existing(all.skip(k as int), existing@),
        decreases cands.len() - k,
    {
        let pc = chars_of(cands[k]);
        assert(all.skip(k as int)[0] == cands@[k as int]@);
        if is_existing(existing, pc.as_slice()) {
            return Some(cands[k]);
        }
        assert(all.skip(k as int).drop_first() =~= all.skip(k + 1));
        k += 1;
    }
    None
}

/// The shells of the "+" menu, as (label, path) pairs, given the login
/// shell (`$SHELL`), the text of `/etc/shells`, and which of the paths that
/// [`probe_paths`] lists exist.
pub fn detect_shells_from(login_shell: Option<&str>, shell_file: Option<&str>, existing: &[String]) -> (r:
    Vec<(String, String)>)
    ensures
        pairs_view(r@) == spec_detect_shells(
            opt_str_view(login_shell),
            opt_str_view(shell_file),
            existing@,
        ),
{
    let mut shells: Vec<(String, String)> = Vec::new();
    let mut seen: Vec<Vec<char>> = Vec::new();
    if let Some(p) = login_shell {
        let pc = chars_of(p);
        if is_existing(existing, pc.as_slice()) {
            let name: Vec<char> = match file_name(pc.as_slice()) {
                Some(n) => n,
                None => chars_of("shell"),
            };
            let mut label = copy_string("Default (");
            let ns = string_from_chars(name.as_slice());
            label.append(ns.as_str());
            label.append(")");
            seen.push(name);
            shells.push((label, copy_string(p)));
        }
    }
    let ghost st0 = initial_scan(opt_str_view(login_shell), existing@);
    assert(pairs_view(shells@) =~= st0.shells);
    assert(seen@.map_values(|v: Vec<char>| v@) =~= st0.seen);
    if let Some(c) = shell_file {
        let entries = shell_file_entries(c);
        let ghost lines = entries@.map_values(|v: Vec<char>| v@);
        let mut i: usize = 0;
        while i < entries.len()
            invariant
                i <= entries@.len(),
                lines == entries@.map_values(|v: Vec<char>| v@),
                ({
                    let st = scan_entries(st0, lines.take(i as int), existing@);
                    pairs_view(shells@) == st.shells && seen@.map_values(|v: Vec<char>| v@)
                        == st.seen
                }),
            decreases entries.len() - i,
        {
            let path = &entries[i];
            let name: Vec<char> = match file_name(path.as_slice()) {
                Some(n) => n,
                None => Vec::new(),
            };
            assert(name@ == entry_name(path@));
            let ghost prev_shells = pairs_view(shells@);
            let ghost prev_seen = seen@.map_values(|v: Vec<char>| v@);
            assert(lines.take(i + 1).drop_last() =~= lines.take(i as int));
            assert(lines.take(i + 1).last() == path@);
            if is_known_shell(name.as_slice()) && is_existing(existing, path.as_slice()) && !is_seen(
                &seen,
                name.as_slice(),
            ) {
                let ns = string_from_chars(name.as_slice());
                let ps = string_from_chars(path.as_slice());
                shells.push((ns, ps));
                seen.push(name);
                assert(pairs_view(shells@) =~= prev_shells.push((entry_name(path@), path@)));
                assert(seen@.map_values(|v: Vec<char>| v@) =~= prev_seen.push(entry_name(path@)));
            }
            i += 1;
        }
        assert(lines.take(i as int) =~= lines);
    }
    let ghost st1 = match opt_str_view(shell_file) {
        Some(c) => scan_entries(st0, shell_file_lines(c), existing@),
        None => st0,
    };
    assert(pairs_view(shells@) == st1.shells);
    if shells.len() == 0 {
        let table = shell_table_exec();
        let mut t: usize = 0;
        while t < table.len()
            invariant
                t <= table@.len(),
                table@.len() == shell_table().len(),
                forall|j: int|
                    0 <= j < table@.len() ==> (#[trigger] table@[j]).0@ == shell_table()[j].0
                        && table@[j].1@.map_values(|s: &str| s@) == shell_table()[j].1,
                pairs_view(shells@) == fallback_shells(shell_table().take(t as int), existing@),
            decreases table.len() - t,
        {
            let ghost prev = pairs_view(shells@);
            assert(shell_table().take(t + 1).drop_last() =~= shell_table().take(t as int));
            assert(shell_table().take(t + 1).last() == shell_table()[t as int]);
            match first_existing_exec(&table[t].1, existing) {
                Some(p) => {
                    shells.push((copy_string(table[t].0), copy_string(p)));
                    assert(pairs_view(shells@) =~= prev.push((shell_table()[t as int].0, p@)));
                },
                None => {},
            }
            t += 1;
        }
        assert(shell_table().take(t as int) =~= shell_table());
    }
    if shells.len() == 0 {
        shells.push((copy_string("sh"), copy_string("/bin/sh")));
        assert(pairs_view(shells@) =~= seq![("sh"@, "/bin/sh"@)]);
    }
    shells
}

proof fn lemma_scan_extends(st: ShellScan, paths: Seq<Seq<char>>, existing: Seq<String>)
    ensures
        ({
            let r = scan_entries(st, paths, existing).shells;
            &&& r.len() >= st.shells.len()
            &&& forall|i: int| 0 <= i < st.shells.len() ==> r[i] == st.shells[i]
            &&& forall|i: int|
                st.shells.len() <= i < r.len() ==> path_exists(existing, (#[trigger] r[i]).1)
        }),
    decreases paths.len(),
{
    if paths.len() > 0 {
        lemma_scan_extends(st, paths.drop_last(), existing);
    }
}

proof fn lemma_first_existing(paths: Seq<Seq<char>>, existing: Seq<String>)
    ensures
        first_existing(paths, existing) matches Some(p) ==> path_exists(existing, p),
    decreases paths.len(),
{
    if paths.len() > 0 {
        lemma_first_existing(paths.drop_first(), existing);
    }
}

proof fn lemma_fallback_exists(table: Seq<(Seq<char>, Seq<Seq<char>>)>, existing: Seq<String>)
    ensures
        forall|i: int|
            0 <= i < fallback_shells(table, existing).len() ==> path_exists(
                existing,
                (#[trigger] fallback_shells(table, existing)[i]).1,
            ),
    decreases table.len(),
{
    if table.len() > 0 {
        lemma_fallback_exists(table.drop_last(), existing);
        lemma_first_existing(table.last().1, existing);
        let rest = fallback_shells(table.drop_last(), existing);
        let r = fallback_shells(table, existing);
        assert forall|i: int| 0 <= i < r.len() implies path_exists(existing, (#[trigger] r[i]).1) by {
            if i < rest.len() {
                assert(r[i] == rest[i]);
            }
        }
    }
}

/// The menu always offers a shell; the login shell, when it is set and
/// exists, comes first, labelled `Default (name)`; and every path offered
/// exists, unless the list is the last resort `/bin/sh` alone.
pub proof fn law_detected_shells(
    login_shell: Option<Seq<char>>,
    shell_file: Option<Seq<char>>,
    existing: Seq<String>,
)
    ensures
        ({
            let r = spec_detect_shells(login_shell, shell_file, existing);
            &&& r.len() > 0
            &&& (login_shell is Some && path_exists(existing, login_shell->0) ==> r[0] == (
                "Default ("@ + login_shell_name(login_shell->0) + ")"@,
                login_shell->0,
            ))
            &&& (r == seq![("sh"@, "/bin/sh"@)] || forall|i: int|
                0 <= i < r.len() ==> path_exists(existing, (#[trigger] r[i]).1))
        }),
{
    let st0 = initial_scan(login_shell, existing);
    let st1 = match shell_file {
        Some(c) => scan_entries(st0, shell_file_lines(c), existing),
        None => st0,
    };
    match shell_file {
        Some(c) => lemma_scan_extends(st0, shell_file_lines(c), existing),
        None => {},
    }
    lemma_fallback_exists(shell_table(), existing);
    assert(forall|i: int| 0 <= i < st0.shells.len() ==> path_exists(existing, (#[trigger] st0.shells[i]).1));
}

// ---------------------------------------------------------------------------
// Windows
// ---------------------------------------------------------------------------

/// The shells of the "+" menu on Windows, given what was found: the
/// command interpreter of `%ComSpec%` when it exists (the login shell,
/// named `cmd`), the first line that `where pwsh` printed, the Windows
/// PowerShell and `cmd.exe` of the system directory when they exist, and
/// which of the two Git Bash install paths exist. Each shell is listed
/// once (the system `cmd.exe` is skipped when `%ComSpec%` gave `cmd`);
/// with nothing found, `cmd.exe`.
pub open spec fn spec_windows_shells(
    comspec: Option<Seq<char>>,
    pwsh_line: Option<Seq<char>>,
    windows_powershell: Option<Seq<char>>,
    command_prompt: Option<Seq<char>>,
    git_bash: (bool, bool),
) -> Seq<(Seq<char>, Seq<char>)> {
    let d = match comspec {
        Some(c) => seq![("Default (cmd)"@, c)],
        None => seq![],
    };
    let p = match pwsh_line {
        Some(l) => seq![("PowerShell"@, trim(l))],
        None => seq![],
    };
    let w = match windows_powershell {
        Some(x) => seq![("Windows PowerShell"@, x)],
        None => seq![],
    };
    let c = match command_prompt {
        Some(x) => if comspec is None {
            seq![("Command Prompt"@, x)]
        } else {
            seq![]
        },
        None => seq![],
    };
    let g = if git_bash.0 {
        seq![("Git Bash"@, "C:\\Program Files\\Git\\bin\\bash.exe"@)]
    } else if git_bash.1 {
        seq![("Git Bash"@, "C:\\Program Files (x86)\\Git\\bin\\bash.exe"@)]
    } else {
        seq![]
    };
    let all = d + p + w + c + g;
    if all.len() == 0 {
        seq![("cmd"@, "cmd.exe"@)]
    } else {
        all
    }
}

/// The shells of the "+" menu on Windows (see [`spec_windows_shells`]).
pub fn windows_shells_from(
    comspec: Option<&str>,
    pwsh_line: Option<&str>,
    windows_powershell: Option<&str>,
    command_prompt: Option<&str>,
    git_bash: (bool, bool),
) -> (r: Vec<(String, String)>)
    ensures
        pairs_view(r@) == spec_windows_shells(
            opt_str_view(comspec),
            opt_str_view(pwsh_line),
            opt_str_view(windows_powershell),
            opt_str_view(command_prompt),
            git_bash,
        ),
{
    let mut v: Vec<(String, String)> = Vec::new();
    let ghost mut acc: Seq<(Seq<char>, Seq<char>)> = seq![];
    if let Some(c) = comspec {
        v.push((copy_string("Default (cmd)"), copy_string(c)));
    }
    assert(pairs_view(v@) =~= match opt_str_view(comspec) {
        Some(c) => seq![("Default (cmd)"@, c)],
        None => Seq::<(Seq<char>, Seq<char>)>::empty(),
    });
    proof {
        acc = pairs_view(v@);
    }
    if let Some(l) = pwsh_line {
        let cs = chars_of(l);
        let (a, b) = trim_range(cs.as_slice(), 0, cs.len());
        assert(cs@.subrange(0, cs@.len() as int) =~= cs@);
        v.push((copy_string("PowerShell"), string_from_chars(copy_range(cs.as_slice(), a, b).as_slice())));
        assert(pairs_view(v@) =~= acc + seq![("PowerShell"@, trim(l@))]);
    }
    assert(pairs_view(v@) =~= acc + match opt_str_view(pwsh_line) {
        Some(l) => seq![("PowerShell"@, trim(l))],
        None => Seq::<(Seq<char>, Seq<char>)>::empty(),
    });
    proof {
        acc = pairs_view(v@);
    }
    if let Some(x) = windows_powershell {
        v.push((copy_string("Windows PowerShell"), copy_string(x)));
    }
    assert(pairs_view(v@) =~= acc + match opt_str_view(windows_powershell) {
        Some(x) => seq![("Windows PowerShell"@, x)],
        None => Seq::<(Seq<char>, Seq<char>)>::empty(),
    });
    proof {
        acc = pairs_view(v@);
    }
    if let Some(x) = command_prompt {
        if comspec.is_none() {
            v.push((copy_string("Command Prompt"), copy_string(x)));
        }
    }
    assert(pairs_view(v@) =~= acc + match opt_str_view(command_prompt) {
        Some(x) => if opt_str_view(comspec) is None {
            seq![("Command Prompt"@, x)]
        } else {
            Seq::<(Seq<char>, Seq<char>)>::empty()
        },
        None => Seq::<(Seq<char>, Seq<char>)>::empty(),
    });
    proof {
        acc = pairs_view(v@);
    }
    if git_bash.0 {
        v.push((copy_string("Git Bash"), copy_string("C:\\Program Files\\Git\\bin\\bash.exe")));
    } else if git_bash.1 {
        v.push(
            (copy_string("Git Bash"), copy_string("C:\\Program Files (x86)\\Git\\bin\\bash.exe")),
        );
    }
    assert(pairs_view(v@) =~= acc + if git_bash.0 {
        seq![("Git Bash"@, "C:\\Program Files\\Git\\bin\\bash.exe"@)]
    } else if git_bash.1 {
        seq![("Git Bash"@, "C:\\Program Files (x86)\\Git\\bin\\bash.exe"@)]
    } else {
        Seq::<(Seq<char>, Seq<char>)>::empty()
    });
    if v.len() == 0 {
        v.push((copy_string("cmd"), copy_string("cmd.exe")));
        assert(pairs_view(v@) =~= seq![("cmd"@, "cmd.exe"@)]);
    }
    v
}

} // verus!
