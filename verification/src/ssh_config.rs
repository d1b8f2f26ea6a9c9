//! Host entries of an OpenSSH client configuration file (`~/.ssh/config`):
//! the parser, and the label under which an entry is shown.
use vstd::prelude::*;

use crate::text::{
    chars_of, contains_char, copy_string, decimal, find_char, find_whitespace, first_index_of,
    first_whitespace, parse_u16, push_decimal, range_eq_ascii_lower, seq_ascii_lower,
    spec_is_whitespace, spec_parse_u16, str_eq, string_from_range, trim, trim_range,
};

verus! {

/// One `Host` block of the configuration.
#[derive(Debug)]
pub struct SshHostEntry {
    pub alias: String,
    pub hostname: Option<String>,
    pub port: Option<u16>,
    pub user: Option<String>,
    pub identity_file: Option<String>,
}

/// The plain contents of an [`SshHostEntry`].
pub struct HostEntryView {
    pub alias: Seq<char>,
    pub hostname: Option<Seq<char>>,
    pub port: Option<u16>,
    pub user: Option<Seq<char>>,
    pub identity_file: Option<Seq<char>>,
}

pub open spec fn opt_string_view(o: Option<String>) -> Option<Seq<char>> {
    match o {
        Some(s) => Some(s@),
        None => None,
    }
}

impl View for SshHostEntry {
    type V = HostEntryView;

    open spec fn view(&self) -> HostEntryView {
        HostEntryView {
            alias: self.alias@,
            hostname: opt_string_view(self.hostname),
            port: self.port,
            user: opt_string_view(self.user),
            identity_file: opt_string_view(self.identity_file),
        }
    }
}

pub open spec fn entries_view(s: Seq<SshHostEntry>) -> Seq<HostEntryView> {
    s.map_values(|e: SshHostEntry| e@)
}

pub open spec fn opt_entry_view(o: Option<SshHostEntry>) -> Option<HostEntryView> {
    match o {
        Some(e) => Some(e@),
        None => None,
    }
}

/// The host to connect to: `HostName` when given, else the alias.
pub open spec fn spec_effective_host(e: HostEntryView) -> Seq<char> {
    match e.hostname {
        Some(h) => h,
        None => e.alias,
    }
}

/// The port to connect to: `Port` when given, else 22.
pub open spec fn spec_effective_port(e: HostEntryView) -> u16 {
    match e.port {
        Some(p) => p,
        None => 22,
    }
}

/// The label of an entry in menus: the alias, the user and the effective
/// host and port, leaving out what adds nothing (an alias equal to the host,
/// the default port 22).
pub open spec fn spec_display_label(e: HostEntryView) -> Seq<char> {
    let host = spec_effective_host(e);
    let port = spec_effective_port(e);
    match e.user {
        Some(user) => {
            if e.alias != host {
                if port != 22 {
                    e.alias + " ("@ + user + "@"@ + host + ":"@ + decimal(port as nat) + ")"@
                } else {
                    e.alias + " ("@ + user + "@"@ + host + ")"@
                }
            } else if port != 22 {
                user + "@"@ + host + ":"@ + decimal(port as nat)
            } else {
                user + "@"@ + host
            }
        },
        None => {
            if e.alias != host {
                e.alias + " ("@ + host + ")"@
            } else {
                e.alias
            }
        },
    }
}

impl SshHostEntry {
    pub fn effective_host(&self) -> (r: &str)
        ensures
            r@ == spec_effective_host(self@),
    {
        match &self.hostname {
            Some(h) => h.as_str(),
            None => self.alias.as_str(),
        }
    }

    pub fn effective_port(&self) -> (r: u16)
        ensures
            r == spec_effective_port(self@),
    {
        match self.port {
            Some(p) => p,
            None => 22,
        }
    }

    pub fn display_label(&self) -> (r: String)
        ensures
            r@ == spec_display_label(self@),
    {
        let host = self.effective_host();
        let port = self.effective_port();
        let alias_is_host = str_eq(self.alias.as_str(), host);
        match &self.user {
            Some(user) => {
                if !alias_is_host {
                    let mut s = copy_string(self.alias.as_str());
                    s.append(" (");
                    s.append(user.as_str());
                    s.append("@");
                    s.append(host);
                    if port != 22 {
                        s.append(":");
                        push_decimal(&mut s, port as u64);
                    }
                    s.append(")");
                    s
                } else {
                    let mut s = copy_string(user.as_str());
                    s.append("@");
                    s.append(host);
                    if port != 22 {
                        s.append(":");
                        push_decimal(&mut s, port as u64);
                    }
                    s
                }
            },
            None => {
                if !alias_is_host {
                    let mut s = copy_string(self.alias.as_str());
                    s.append(" (");
                    s.append(host);
                    s.append(")");
                    s
                } else {
                    copy_string(self.alias.as_str())
                }
            },
        }
    }
}

// ---------------------------------------------------------------------------
// Parsing
// ---------------------------------------------------------------------------

/// The parser's state between two lines: the entries finished so far and the
/// entry whose `Host` line came last.
pub struct ParseState {
    pub entries: Seq<HostEntryView>,
    pub current: Option<HostEntryView>,
}

/// Whether an entry is listed: wildcard patterns (`*`, `?`) are not hosts.
pub open spec fn spec_should_include(e: HostEntryView) -> bool {
    e.alias != seq!['*'] && !e.alias.contains('*') && !e.alias.contains('?')
}

/// The finished entries, with the current one added when it is listed.
pub open spec fn flush(st: ParseState) -> Seq<HostEntryView> {
    match st.current {
        Some(e) => if spec_should_include(e) {
            st.entries.push(e)
        } else {
            st.entries
        },
        None => st.entries,
    }
}

pub open spec fn new_entry(alias: Seq<char>) -> HostEntryView {
    HostEntryView { alias, hostname: None, port: None, user: None, identity_file: None }
}

/// The effect of one `key value` line. Keywords are matched ignoring ASCII
/// case; a keyword other than `Host` before any `Host` line is ignored, as is
/// an unknown keyword.
pub open spec fn apply_pair(st: ParseState, key: Seq<char>, value: Seq<char>) -> ParseState {
    let k = seq_ascii_lower(key);
    if k == "host"@ {
        ParseState { entries: flush(st), current: Some(new_entry(value)) }
    } else if k == "hostname"@ {
        ParseState {
            entries: st.entries,
            current: match st.current {
                Some(e) => Some(HostEntryView { hostname: Some(value), ..e }),
                None => None,
            },
        }
    } else if k == "port"@ {
        ParseState {
            entries: st.entries,
            current: match st.current {
                Some(e) => Some(HostEntryView { port: spec_parse_u16(value), ..e }),
                None => None,
            },
        }
    } else if k == "user"@ {
        ParseState {
            entries: st.entries,
            current: match st.current {
                Some(e) => Some(HostEntryView { user: Some(value), ..e }),
                None => None,
            },
        }
    } else if k == "identityfile"@ {
        ParseState {
            entries: st.entries,
            current: match st.current {
                Some(e) => Some(HostEntryView { identity_file: Some(value), ..e }),
                None => None,
            },
        }
    } else {
        st
    }
}

/// The effect of one line: blank lines, comments (`#`) and lines without a
/// value are skipped; otherwise the line is split at its first whitespace
/// character into a keyword and a value, both trimmed.
pub open spec fn apply_line(st: ParseState, raw: Seq<char>) -> ParseState {
    let t = trim(raw);
    if t.len() == 0 || t[0] == '#' {
        st
    } else {
        let i = first_whitespace(t);
        if i == t.len() {
            st
        } else {
            apply_pair(st, trim(t.take(i as int)), trim(t.skip(i + 1 as int)))
        }
    }
}

/// The state after the lines of `s`, which are separated by `\n`.
pub open spec fn parse_rest(st: ParseState, s: Seq<char>) -> ParseState
    decreases s.len(),
{
    let i = first_index_of(s, '\n');
    let st2 = apply_line(st, s.take(i as int));
    if i < s.len() {
        parse_rest(st2, s.skip(i + 1 as int))
    } else {
        st2
    }
}

pub open spec fn initial_state() -> ParseState {
    ParseState { entries: seq![], current: None }
}

/// The entries that a configuration file lists, in the order of their `Host` lines.
pub open spec fn spec_parse_ssh_config(s: Seq<char>) -> Seq<HostEntryView> {
    flush(parse_rest(initial_state(), s))
}

pub open spec fn state_of(entries: Seq<SshHostEntry>, current: Option<SshHostEntry>) -> ParseState {
    ParseState { entries: entries_view(entries), current: opt_entry_view(current) }
}

pub fn should_include(entry: &SshHostEntry) -> (r: bool)
    ensures
        r == spec_should_include(entry@),
{
    let a = chars_of(entry.alias.as_str());
    let is_star = a.len() == 1 && a[0] == '*';
    proof {
        if a@ == seq!['*'] {
            assert(a@[0] == '*');
        }
        if is_star {
            assert(a@ =~= seq!['*']);
        }
    }
    !is_star && !contains_char(a.as_slice(), '*') && !contains_char(a.as_slice(), '?')
}

fn push_if_included(entries: &mut Vec<SshHostEntry>, current: Option<SshHostEntry>)
    ensures
        entries_view(final(entries)@) == flush(state_of(old(entries)@, current)),
{
    if let Some(e) = current {
        if should_include(&e) {
            entries.push(e);
            assert(entries_view(final(entries)@) =~= entries_view(old(entries)@).push(e@));
        }
    }
}

fn apply_line_exec(
    entries: &mut Vec<SshHostEntry>,
    current: Option<SshHostEntry>,
    cs: &[char],
    lo: usize,
    hi: usize,
) -> (r: Option<SshHostEntry>)
    requires
        lo <= hi <= cs@.len(),
    ensures
        state_of(final(entries)@, r) == apply_line(
            state_of(old(entries)@, current),
            cs@.subrange(lo as int, hi as int),
        ),
{
    let ghost raw = cs@.subrange(lo as int, hi as int);
    let (a, b) = trim_range(cs, lo, hi);
    let ghost t = cs@.subrange(a as int, b as int);
    if a == b || cs[a] == '#' {
        return current;
    }
    let w = find_whitespace(cs, a, b);
    proof {
        crate::text::lemma_first_whitespace(t);
    }
    if w == b {
        return current;
    }
    let (ka, kb) = trim_range(cs, a, w);
    let (va, vb) = trim_range(cs, w + 1, b);
    proof {
        assert(t.take(w - a) =~= cs@.subrange(a as int, w as int));
        assert(t.skip(w - a + 1) =~= cs@.subrange(w + 1, b as int));
    }
    let ghost key = cs@.subrange(ka as int, kb as int);
    let ghost value = cs@.subrange(va as int, vb as int);
    let kw_host = chars_of("host");
    let kw_hostname = chars_of("hostname");
    let kw_port = chars_of("port");
    let kw_user = chars_of("user");
    let kw_identity = chars_of("identityfile");
    if range_eq_ascii_lower(cs, ka, kb, kw_host.as_slice()) {
        push_if_included(entries, current);
        let alias = string_from_range(cs, va, vb);
        Some(
            SshHostEntry { alias, hostname: None, port: None, user: None, identity_file: None },
        )
    } else if range_eq_ascii_lower(cs, ka, kb, kw_hostname.as_slice()) {
        match current {
            Some(mut e) => {
                e.hostname = Some(string_from_range(cs, va, vb));
                Some(e)
            },
            None => None,
        }
    } else if range_eq_ascii_lower(cs, ka, kb, kw_port.as_slice()) {
        match current {
            Some(mut e) => {
                let digits = crate::text::copy_range(cs, va, vb);
                e.port = parse_u16(digits.as_slice());
                Some(e)
            },
            None => None,
        }
    } else if range_eq_ascii_lower(cs, ka, kb, kw_user.as_slice()) {
        match current {
            Some(mut e) => {
                e.user = Some(string_from_range(cs, va, vb));
                Some(e)
            },
            None => None,
        }
    } else if range_eq_ascii_lower(cs, ka, kb, kw_identity.as_slice()) {
        match current {
            Some(mut e) => {
                e.identity_file = Some(string_from_range(cs, va, vb));
                Some(e)
            },
            None => None,
        }
    } else {
        current
    }
}

/// Parses the text of an OpenSSH client configuration into its host entries.
pub fn parse_ssh_config(content: &str) -> (r: Vec<SshHostEntry>)
    ensures
        entries_view(r@) == spec_parse_ssh_config(content@),
{
    let cs = chars_of(content);
    let len = cs.len();
    let mut entries: Vec<SshHostEntry> = Vec::new();
    let mut current: Option<SshHostEntry> = None;
    let mut p: usize = 0;
    assert(cs@.subrange(0, len as int) =~= cs@);
    assert(entries_view(entries@) =~= seq![]);
    loop
        invariant_except_break
            p <= len,
            parse_rest(initial_state(), content@) == parse_rest(
                state_of(entries@, current),
                cs@.subrange(p as int, len as int),
            ),
        invariant
            len == cs@.len(),
            cs@ == content@,
        ensures
            parse_rest(initial_state(), content@) == state_of(entries@, current),
        decreases len - p,
    {
        let ghost sub = cs@.subrange(p as int, len as int);
        let i = find_char(cs.as_slice(), p, len, '\n');
        proof {
            crate::text::lemma_first_index_of(sub, '\n');
            assert(sub.take(i - p) =~= cs@.subrange(p as int, i as int));
        }
        current = apply_line_exec(&mut entries, current, cs.as_slice(), p, i);
        if i < len {
            assert(sub.skip(i - p + 1) =~= cs@.subrange(i + 1, len as int));
            p = i + 1;
        } else {
            break ;
        }
    }
    push_if_included(&mut entries, current);
    entries
}

proof fn lemma_parse_rest_included(st: ParseState, s: Seq<char>)
    requires
        forall|i: int| 0 <= i < st.entries.len() ==> spec_should_include(#[trigger] st.entries[i]),
    ensures
        forall|i: int|
            0 <= i < parse_rest(st, s).entries.len() ==> spec_should_include(
                #[trigger] parse_rest(st, s).entries[i],
            ),
    decreases s.len(),
{
    let i = first_index_of(s, '\n');
    crate::text::lemma_first_index_of(s, '\n');
    let st2 = apply_line(st, s.take(i as int));
    assert(forall|j: int| 0 <= j < flush(st).len() ==> spec_should_include(#[trigger] flush(st)[j]));
    assert(forall|j: int| 0 <= j < st2.entries.len() ==> spec_should_include(#[trigger] st2.entries[j]));
    if i < s.len() {
        lemma_parse_rest_included(st2, s.skip(i + 1 as int));
    }
}

/// Wildcard patterns are never listed: every entry that the parser returns
/// names a concrete host (its alias holds neither `*` nor `?`).
pub proof fn law_parsed_hosts_are_concrete(s: Seq<char>)
    ensures
        forall|i: int|
            0 <= i < spec_parse_ssh_config(s).len() ==> spec_should_include(
                #[trigger] spec_parse_ssh_config(s)[i],
            ),
{
    lemma_parse_rest_included(initial_state(), s);
    let st = parse_rest(initial_state(), s);
    assert(forall|j: int| 0 <= j < flush(st).len() ==> spec_should_include(#[trigger] flush(st)[j]));
}

/// Reading one line `l` followed by the rest `a` of the text (empty, or
/// starting with the `\n` that ends `l`).
proof fn lemma_parse_rest_line(st: ParseState, l: Seq<char>, a: Seq<char>)
    requires
        forall|j: int| 0 <= j < l.len() ==> #[trigger] l[j] != '\n',
        a.len() == 0 || a[0] == '\n',
    ensures
        parse_rest(st, l + a) == if a.len() == 0 {
            apply_line(st, l)
        } else {
            parse_rest(apply_line(st, l), a.skip(1))
        },
{
    assert forall|j: int| 0 <= j < l.len() implies #[trigger] (l + a)[j] != '\n' by {
        assert((l + a)[j] == l[j]);
    }
    crate::text::lemma_first_index_of_at(l + a, '\n', l.len() as int);
    assert((l + a).take(l.len() as int) =~= l);
    if a.len() > 0 {
        assert((l + a).skip(l.len() + 1 as int) =~= a.skip(1));
    }
}

/// The effect of a line does not depend on the ASCII case of its keyword.
proof fn lemma_apply_line_keyword_case(
    st: ParseState,
    indent: Seq<char>,
    kw1: Seq<char>,
    kw2: Seq<char>,
    rest: Seq<char>,
)
    requires
        forall|j: int| 0 <= j < indent.len() ==> spec_is_whitespace(#[trigger] indent[j]),
        forall|j: int| 0 <= j < kw1.len() ==> !spec_is_whitespace(#[trigger] kw1[j]),
        forall|j: int| 0 <= j < kw2.len() ==> !spec_is_whitespace(#[trigger] kw2[j]),
        seq_ascii_lower(kw1) == seq_ascii_lower(kw2),
        rest.len() == 0 || spec_is_whitespace(rest[0]),
    ensures
        apply_line(st, indent + kw1 + rest) == apply_line(st, indent + kw2 + rest),
{
    assert(kw1.len() == seq_ascii_lower(kw1).len());
    assert(kw2.len() == seq_ascii_lower(kw2).len());
    if kw1.len() == 0 {
        assert(kw1 =~= kw2);
    } else {
        let r = crate::text::trim_end(rest);
        crate::text::lemma_trim_end_prefix(rest);
        if r.len() > 0 {
            assert(r[0] == rest[0]);
        }
        lemma_keyword_line_shape(st, indent, kw1, rest);
        lemma_keyword_line_shape(st, indent, kw2, rest);
        assert(seq_ascii_lower(kw1)[0] == seq_ascii_lower(kw2)[0]);
        crate::text::lemma_ascii_lower_hash(kw1[0]);
        crate::text::lemma_ascii_lower_hash(kw2[0]);
        crate::text::lemma_trim_word(kw1);
        crate::text::lemma_trim_word(kw2);
        let t1 = trim(indent + kw1 + rest);
        let t2 = trim(indent + kw2 + rest);
        assert(t1[0] == kw1[0]);
        assert(t2[0] == kw2[0]);
        assert(seq_ascii_lower(kw1)[0] == crate::text::spec_ascii_lower(kw1[0]));
        assert(seq_ascii_lower(kw2)[0] == crate::text::spec_ascii_lower(kw2[0]));
        assert((t1[0] == '#') == (t2[0] == '#'));
        assert(t1.len() == t2.len());
        if t1[0] == '#' {
            assert(apply_line(st, indent + kw1 + rest) == st);
            assert(apply_line(st, indent + kw2 + rest) == st);
        } else if r.len() > 0 {
            let v = trim(r.skip(1));
            assert(apply_pair(st, kw1, v) == apply_pair(st, kw2, v));
            assert(apply_line(st, indent + kw1 + rest) == apply_pair(st, kw1, v));
            assert(apply_line(st, indent + kw2 + rest) == apply_pair(st, kw2, v));
        } else {
            assert(apply_line(st, indent + kw1 + rest) == st);
            assert(apply_line(st, indent + kw2 + rest) == st);
        }
    }
}

/// The trimmed form of a line `indent + kw + rest` whose keyword `kw` is a
/// non-empty word: `kw` followed by the trimmed rest, split after `kw`.
proof fn lemma_keyword_line_shape(st: ParseState, indent: Seq<char>, kw: Seq<char>, rest: Seq<char>)
    requires
        forall|j: int| 0 <= j < indent.len() ==> spec_is_whitespace(#[trigger] indent[j]),
        forall|j: int| 0 <= j < kw.len() ==> !spec_is_whitespace(#[trigger] kw[j]),
        kw.len() > 0,
        rest.len() == 0 || spec_is_whitespace(rest[0]),
        crate::text::trim_end(rest).len() > 0 ==> spec_is_whitespace(
            crate::text::trim_end(rest)[0],
        ),
    ensures
        ({
            let t = trim(indent + kw + rest);
            let r = crate::text::trim_end(rest);
            &&& t == kw + r
            &&& first_whitespace(t) == if r.len() == 0 {
                t.len()
            } else {
                kw.len()
            }
            &&& t.take(kw.len() as int) == kw
            &&& r.len() > 0 ==> t.skip(kw.len() + 1 as int) == r.skip(1)
        }),
{
    let r = crate::text::trim_end(rest);
    assert(indent + kw + rest =~= indent + (kw + rest));
    crate::text::lemma_trim_start_skips(indent, kw + rest);
    assert((kw + rest)[0] == kw[0]);
    assert(!spec_is_whitespace(kw[0]));
    assert(crate::text::trim_start(kw + rest) == kw + rest);
    assert(!spec_is_whitespace(kw[kw.len() - 1]));
    crate::text::lemma_trim_end_after_word(kw, rest);
    let t = kw + r;
    assert forall|j: int| 0 <= j < kw.len() implies !spec_is_whitespace(#[trigger] t[j]) by {
        assert(t[j] == kw[j]);
    }
    if r.len() == 0 {
        crate::text::lemma_first_whitespace_at(t, t.len() as int);
    } else {
        assert(t[kw.len() as int] == r[0]);
        crate::text::lemma_first_whitespace_at(t, kw.len() as int);
    }
    assert(t.take(kw.len() as int) =~= kw);
    if r.len() > 0 {
        assert(t.skip(kw.len() + 1 as int) =~= r.skip(1));
    }
}

/// The text made of the lines `ls`, separated by `\n`.
pub open spec fn join_lines(ls: Seq<Seq<char>>) -> Seq<char>
    decreases ls.len(),
{
    if ls.len() == 0 {
        seq![]
    } else if ls.len() == 1 {
        ls[0]
    } else {
        ls[0] + seq!['\n'] + join_lines(ls.drop_first())
    }
}

/// The parser's state after reading the lines `ls` one after the other.
pub open spec fn apply_lines(st: ParseState, ls: Seq<Seq<char>>) -> ParseState
    decreases ls.len(),
{
    if ls.len() == 0 {
        st
    } else {
        apply_lines(apply_line(st, ls[0]), ls.drop_first())
    }
}

/// A line holds no `\n`.
pub open spec fn is_line(l: Seq<char>) -> bool {
    forall|j: int| 0 <= j < l.len() ==> #[trigger] l[j] != '\n'
}

/// The parts of a line `indent + kw + rest` whose keyword `kw` (its first
/// word) is written `kw1` in one version and `kw2` in the other, the two
/// differing only in ASCII letter case.
pub open spec fn keyword_line_parts(
    indent: Seq<char>,
    kw1: Seq<char>,
    kw2: Seq<char>,
    rest: Seq<char>,
) -> bool {
    &&& forall|j: int| 0 <= j < indent.len() ==> spec_is_whitespace(#[trigger] indent[j])
    &&& forall|j: int| 0 <= j < kw1.len() ==> !spec_is_whitespace(#[trigger] kw1[j])
    &&& forall|j: int| 0 <= j < kw2.len() ==> !spec_is_whitespace(#[trigger] kw2[j])
    &&& seq_ascii_lower(kw1) == seq_ascii_lower(kw2)
    &&& rest.len() == 0 || spec_is_whitespace(rest[0])
}

/// `l2` is the line `l1` with the ASCII letter case of its keyword changed
/// (`HostName` to `HOSTNAME`, `Host` to `host`).
pub open spec fn keyword_case_variant(l1: Seq<char>, l2: Seq<char>) -> bool {
    exists|indent: Seq<char>, kw1: Seq<char>, kw2: Seq<char>, rest: Seq<char>|
        #[trigger] keyword_line_parts(indent, kw1, kw2, rest) && l1 == indent + kw1 + rest && l2
            == indent + kw2 + rest
}

/// Reading the text made of some lines is reading those lines one by one.
proof fn lemma_parse_rest_lines(st: ParseState, ls: Seq<Seq<char>>)
    requires
        ls.len() >= 1,
        forall|i: int| 0 <= i < ls.len() ==> is_line(#[trigger] ls[i]),
    ensures
        parse_rest(st, join_lines(ls)) == apply_lines(st, ls),
    decreases ls.len(),
{
    let l = ls[0];
    assert(is_line(l));
    let st1 = apply_line(st, l);
    let d = ls.drop_first();
    if ls.len() == 1 {
        lemma_parse_rest_line(st, l, seq![]);
        assert(l + Seq::<char>::empty() =~= l);
        assert(join_lines(ls) == l);
        assert(d.len() == 0);
        assert(apply_lines(st1, d) == st1);
        assert(apply_lines(st, ls) == apply_lines(st1, d));
    } else {
        let a = seq!['\n'] + join_lines(d);
        assert(join_lines(ls) =~= l + a);
        lemma_parse_rest_line(st, l, a);
        assert(a.skip(1) =~= join_lines(d));
        assert forall|i: int| 0 <= i < d.len() implies is_line(#[trigger] d[i]) by {
            assert(d[i] == ls[i + 1]);
        }
        lemma_parse_rest_lines(st1, d);
        assert(apply_lines(st, ls) == apply_lines(st1, d));
    }
}

/// Lines that are equal or differ only in the case of their keyword are read alike.
proof fn lemma_apply_lines_keyword_case(st: ParseState, ls1: Seq<Seq<char>>, ls2: Seq<Seq<char>>)
    requires
        ls1.len() == ls2.len(),
        forall|i: int|
            0 <= i < ls1.len() ==> #[trigger] ls1[i] == ls2[i] || keyword_case_variant(
                ls1[i],
                ls2[i],
            ),
    ensures
        apply_lines(st, ls1) == apply_lines(st, ls2),
    decreases ls1.len(),
{
    if ls1.len() > 0 {
        if ls1[0] != ls2[0] {
            assert(keyword_case_variant(ls1[0], ls2[0]));
            let (indent, kw1, kw2, rest) = choose|
                indent: Seq<char>,
                kw1: Seq<char>,
                kw2: Seq<char>,
                rest: Seq<char>,
            |
                #[trigger] keyword_line_parts(indent, kw1, kw2, rest) && ls1[0] == indent + kw1
                    + rest && ls2[0] == indent + kw2 + rest;
            lemma_apply_line_keyword_case(st, indent, kw1, kw2, rest);
        }
        let d1 = ls1.drop_first();
        let d2 = ls2.drop_first();
        assert forall|i: int| 0 <= i < d1.len() implies #[trigger] d1[i] == d2[i]
            || keyword_case_variant(d1[i], d2[i]) by {
            assert(d1[i] == ls1[i + 1] && d2[i] == ls2[i + 1]);
        }
        lemma_apply_lines_keyword_case(apply_line(st, ls1[0]), d1, d2);
    }
}

/// Keywords are read whatever their ASCII letter case: a configuration whose
/// lines are those of another, except that the keywords of some lines are
/// written in another case (`HostName` as `HOSTNAME`, `Host` as `host`),
/// lists the same entries.
pub proof fn law_keyword_case_ignored(ls1: Seq<Seq<char>>, ls2: Seq<Seq<char>>)
    requires
        ls1.len() == ls2.len(),
        forall|i: int| 0 <= i < ls1.len() ==> is_line(#[trigger] ls1[i]) && is_line(ls2[i]),
        forall|i: int|
            0 <= i < ls1.len() ==> #[trigger] ls1[i] == ls2[i] || keyword_case_variant(
                ls1[i],
                ls2[i],
            ),
    ensures
        spec_parse_ssh_config(join_lines(ls1)) == spec_parse_ssh_config(join_lines(ls2)),
{
    if ls1.len() > 0 {
        assert forall|i: int| 0 <= i < ls2.len() implies is_line(#[trigger] ls2[i]) by {
            assert(is_line(ls1[i]));
        }
        lemma_parse_rest_lines(initial_state(), ls1);
        lemma_parse_rest_lines(initial_state(), ls2);
        lemma_apply_lines_keyword_case(initial_state(), ls1, ls2);
    }
}

} // verus!
