//! Saved SSH sessions, most recently used first. Reading and writing the
//! file that holds them is the caller's part; this module keeps the list.
use vstd::prelude::*;

use crate::text::{chars_eq, chars_of, copy_string, decimal, push_decimal};

verus! {

broadcast use vstd::seq_lib::group_to_multiset_ensures;

/// How a saved session authenticates.
#[derive(Debug, Clone, Copy, PartialEq, Eq, Structural)]
pub enum SavedAuthType {
    Password,
    Key,
    Agent,
}

/// A session the user connected to before.
#[derive(Debug)]
pub struct SavedSession {
    pub host: String,
    pub port: u16,
    pub username: String,
    pub auth_type: SavedAuthType,
    pub key_path: Option<String>,
    pub last_used: u64,
}

/// The plain contents of a [`SavedSession`].
pub struct SessionView {
    pub host: Seq<char>,
    pub port: u16,
    pub username: Seq<char>,
    pub auth_type: SavedAuthType,
    pub key_path: Option<Seq<char>>,
    pub last_used: u64,
}

impl View for SavedSession {
    type V = SessionView;

    open spec fn view(&self) -> SessionView {
        SessionView {
            host: self.host@,
            port: self.port,
            username: self.username@,
            auth_type: self.auth_type,
            key_path: crate::ssh_config::opt_string_view(self.key_path),
            last_used: self.last_used,
        }
    }
}

/// `user@host:port`, which identifies a session in the list.
pub open spec fn spec_key(s: SessionView) -> Seq<char> {
    s.username + "@"@ + s.host + ":"@ + decimal(s.port as nat)
}

/// `user@host`, with `:port` only when the port is not 22.
pub open spec fn spec_session_label(s: SessionView) -> Seq<char> {
    if s.port == 22 {
        s.username + "@"@ + s.host
    } else {
        spec_key(s)
    }
}

impl SavedSession {
    pub fn display_label(&self) -> (r: String)
        ensures
            r@ == spec_session_label(self@),
    {
        if self.port == 22 {
            let mut s = copy_string(self.username.as_str());
            s.append("@");
            s.append(self.host.as_str());
            s
        } else {
            self.key()
        }
    }

    pub fn key(&self) -> (r: String)
        ensures
            r@ == spec_key(self@),
    {
        let mut s = copy_string(self.username.as_str());
        s.append("@");
        s.append(self.host.as_str());
        s.append(":");
        push_decimal(&mut s, self.port as u64);
        s
    }
}

/// The list of saved sessions.
#[derive(Debug)]
pub struct SavedSessions {
    pub sessions: Vec<SavedSession>,
}

// ---------------------------------------------------------------------------
// Specification of the list operations
// ---------------------------------------------------------------------------

/// Index of the first session whose key is `k`, or the length of `s`.
pub open spec fn index_of_key(s: Seq<SavedSession>, k: Seq<char>) -> nat
    decreases s.len(),
{
    if s.len() == 0 {
        0
    } else if spec_key(s[0]@) == k {
        0
    } else {
        1 + index_of_key(s.drop_first(), k)
    }
}

pub proof fn lemma_index_of_key(s: Seq<SavedSession>, k: Seq<char>)
    ensures
        index_of_key(s, k) <= s.len(),
        forall|j: int| 0 <= j < index_of_key(s, k) ==> spec_key(#[trigger] s[j]@) != k,
        index_of_key(s, k) < s.len() ==> spec_key(s[index_of_key(s, k) as int]@) == k,
    decreases s.len(),
{
    if s.len() > 0 && spec_key(s[0]@) != k {
        lemma_index_of_key(s.drop_first(), k);
        assert forall|j: int| 0 <= j < index_of_key(s, k) implies spec_key(#[trigger] s[j]@)
            != k by {
            if j > 0 {
                assert(s[j] == s.drop_first()[j - 1]);
            }
        }
    }
}

/// The sessions used at time `t`, in list order.
pub open spec fn used_at(s: Seq<SavedSession>, t: u64) -> Seq<SavedSession> {
    s.filter(|x: SavedSession| x.last_used == t)
}

/// Most recently used first.
pub open spec fn sorted_by_recency(s: Seq<SavedSession>) -> bool {
    forall|i: int, j: int| 0 <= i < j < s.len() ==> s[i].last_used >= s[j].last_used
}

/// `r` is `s` ordered most recently used first, sessions used at the same
/// time keeping their order (a stable sort).
pub open spec fn is_recency_sort_of(r: Seq<SavedSession>, s: Seq<SavedSession>) -> bool {
    &&& sorted_by_recency(r)
    &&& r.to_multiset() == s.to_multiset()
    &&& forall|t: u64| #[trigger] used_at(r, t) == used_at(s, t)
}

/// The list after an update of `session`: the first entry with the same key
/// takes its time, authentication and key path; without one, it is appended.
pub open spec fn upserted(s: Seq<SavedSession>, session: SavedSession) -> Seq<SavedSession> {
    let i = index_of_key(s, spec_key(session@));
    if i < s.len() {
        s.update(
            i as int,
            SavedSession {
                last_used: session.last_used,
                auth_type: session.auth_type,
                key_path: session.key_path,
                ..s[i as int]
            },
        )
    } else {
        s.push(session)
    }
}

/// The list after the first entry with key `k` was marked used at `now`.
pub open spec fn touched(s: Seq<SavedSession>, k: Seq<char>, now: u64) -> Seq<SavedSession> {
    let i = index_of_key(s, k);
    if i < s.len() {
        s.update(i as int, SavedSession { last_used: now, ..s[i as int] })
    } else {
        s
    }
}

/// The list without the entries whose key is `k`.
pub open spec fn without_key(s: Seq<SavedSession>, k: Seq<char>) -> Seq<SavedSession> {
    s.filter(|x: SavedSession| spec_key(x@) != k)
}

// ---------------------------------------------------------------------------
// Lemmas for the sort
// ---------------------------------------------------------------------------

proof fn lemma_filter_push(s: Seq<SavedSession>, x: SavedSession, p: spec_fn(SavedSession) -> bool)
    ensures
        s.push(x).filter(p) == (if p(x) {
            s.filter(p).push(x)
        } else {
            s.filter(p)
        }),
{
    reveal(Seq::filter);
    assert(s.push(x).drop_last() =~= s);
}

proof fn lemma_filter_singleton(x: SavedSession, p: spec_fn(SavedSession) -> bool)
    ensures
        seq![x].filter(p) == (if p(x) {
            seq![x]
        } else {
            Seq::<SavedSession>::empty()
        }),
{
    lemma_filter_push(Seq::empty(), x, p);
    reveal(Seq::filter);
    assert(seq![x] =~= Seq::<SavedSession>::empty().push(x));
    assert(Seq::<SavedSession>::empty().filter(p) =~= Seq::<SavedSession>::empty());
}

/// Inserting `x` where the first less recently used session stands keeps the
/// order and puts `x` last among the sessions of its time.
proof fn lemma_insert_by_recency(res: Seq<SavedSession>, pos: int, x: SavedSession)
    requires
        0 <= pos <= res.len(),
        sorted_by_recency(res),
        forall|k: int| 0 <= k < pos ==> #[trigger] res[k].last_used >= x.last_used,
        forall|k: int| pos <= k < res.len() ==> #[trigger] res[k].last_used < x.last_used,
    ensures
        sorted_by_recency(res.insert(pos, x)),
        forall|t: u64|
            #[trigger] used_at(res.insert(pos, x), t) == (if t == x.last_used {
                used_at(res, t).push(x)
            } else {
                used_at(res, t)
            }),
{
    let ins = res.insert(pos, x);
    res.insert_ensures(pos, x);
    assert forall|i: int, j: int| 0 <= i < j < ins.len() implies ins[i].last_used
        >= ins[j].last_used by {
        if j < pos {
        } else if j == pos {
            assert(ins[i] == res[i]);
        } else if i < pos {
            assert(ins[j] == res[j - 1]);
        } else if i == pos {
            assert(ins[j] == res[j - 1]);
        } else {
            assert(ins[i] == res[i - 1]);
            assert(ins[j] == res[j - 1]);
        }
    }
    let a = res.subrange(0, pos);
    let b = res.subrange(pos, res.len() as int);
    assert(ins =~= a + seq![x] + b);
    assert(res =~= a + b);
    assert forall|t: u64|
        #[trigger] used_at(ins, t) == (if t == x.last_used {
            used_at(res, t).push(x)
        } else {
            used_at(res, t)
        }) by {
        let p = |y: SavedSession| y.last_used == t;
        Seq::filter_distributes_over_add(a + seq![x], b, p);
        Seq::filter_distributes_over_add(a, seq![x], p);
        Seq::filter_distributes_over_add(a, b, p);
        lemma_filter_singleton(x, p);
        if t == x.last_used {
            assert forall|k: int| 0 <= k < b.len() implies !p(#[trigger] b[k]) by {
                assert(b[k] == res[pos + k]);
            }
            assert(b.all(|y: SavedSession| !p(y)));
            b.lemma_all_neg_filter_empty(p);
            assert(b.filter(p) =~= Seq::<SavedSession>::empty());
            assert(a.filter(p) + seq![x] + b.filter(p) =~= (a.filter(p) + b.filter(p)).push(x));
        } else {
            assert(a.filter(p) + Seq::<SavedSession>::empty() =~= a.filter(p));
        }
    }
}


// ---------------------------------------------------------------------------
// Laws of the list
// ---------------------------------------------------------------------------

/// No two sessions share a key.
pub open spec fn keys_unique(s: Seq<SavedSession>) -> bool {
    forall|i: int, j: int|
        0 <= i < s.len() && 0 <= j < s.len() && i != j ==> spec_key(#[trigger] s[i]@) != spec_key(
            #[trigger] s[j]@,
        )
}

proof fn lemma_contains_at(s: Seq<SavedSession>, x: SavedSession) -> (i: int)
    requires
        s.contains(x),
    ensures
        0 <= i < s.len(),
        s[i] == x,
{
    choose|i: int| 0 <= i < s.len() && s[i] == x
}

/// Two lists with the same elements: one with unique keys makes the other so.
proof fn lemma_unique_keys_transfer(a: Seq<SavedSession>, b: Seq<SavedSession>)
    requires
        a.to_multiset() == b.to_multiset(),
        keys_unique(b),
    ensures
        keys_unique(a),
        forall|x: SavedSession| a.contains(x) <==> b.contains(x),
{
    assert forall|x: SavedSession| a.contains(x) <==> b.contains(x) by {
        vstd::seq_lib::to_multiset_contains(a, x);
        vstd::seq_lib::to_multiset_contains(b, x);
    }
    assert forall|i: int, j: int|
        0 <= i < a.len() && 0 <= j < a.len() && i != j implies spec_key(#[trigger] a[i]@)
        != spec_key(#[trigger] a[j]@) by {
        if spec_key(a[i]@) == spec_key(a[j]@) {
            assert(a.contains(a[i]));
            assert(a.contains(a[j]));
            let m = lemma_contains_at(b, a[i]);
            let n = lemma_contains_at(b, a[j]);
            assert(m == n);
            let u = a[i];
            // `u` occurs twice in `a` but once in `b`.
            let ar = a.remove(i);
            a.remove_ensures(i);
            if j < i {
                assert(ar[j] == u);
            } else {
                assert(ar[j - 1] == u);
            }
            assert(ar.contains(u));
            vstd::seq_lib::to_multiset_remove(a, i);
            vstd::seq_lib::to_multiset_contains(ar, u);
            let br = b.remove(m);
            b.remove_ensures(m);
            assert forall|k: int| 0 <= k < br.len() implies br[k] != u by {
                if k < m {
                    assert(br[k] == b[k]);
                } else {
                    assert(br[k] == b[k + 1]);
                }
            }
            vstd::seq_lib::to_multiset_remove(b, m);
            vstd::seq_lib::to_multiset_contains(br, u);
            assert(ar.to_multiset() == br.to_multiset());
            assert(false);
        }
    }
}

/// Upserting a session keeps keys unique.
proof fn lemma_upserted_unique(s: Seq<SavedSession>, session: SavedSession)
    requires
        keys_unique(s),
    ensures
        keys_unique(upserted(s, session)),
{
    lemma_index_of_key(s, spec_key(session@));
    let u = upserted(s, session);
    let i = index_of_key(s, spec_key(session@));
    if i < s.len() {
        assert forall|a: int, b: int|
            0 <= a < u.len() && 0 <= b < u.len() && a != b implies spec_key(#[trigger] u[a]@)
            != spec_key(#[trigger] u[b]@) by {
            assert(spec_key(u[a]@) == spec_key(s[a]@));
            assert(spec_key(u[b]@) == spec_key(s[b]@));
        }
    } else {
        assert forall|a: int, b: int|
            0 <= a < u.len() && 0 <= b < u.len() && a != b implies spec_key(#[trigger] u[a]@)
            != spec_key(#[trigger] u[b]@) by {
            if a < s.len() && b < s.len() {
                assert(u[a] == s[a] && u[b] == s[b]);
            } else if a < s.len() {
                assert(u[a] == s[a]);
            } else {
                assert(u[b] == s[b]);
            }
        }
    }
}

/// Marking a session used keeps keys unique.
proof fn lemma_touched_unique(s: Seq<SavedSession>, k: Seq<char>, now: u64)
    requires
        keys_unique(s),
    ensures
        keys_unique(touched(s, k, now)),
{
    let u = touched(s, k, now);
    assert forall|a: int, b: int|
        0 <= a < u.len() && 0 <= b < u.len() && a != b implies spec_key(#[trigger] u[a]@)
        != spec_key(#[trigger] u[b]@) by {
        assert(spec_key(u[a]@) == spec_key(s[a]@));
        assert(spec_key(u[b]@) == spec_key(s[b]@));
    }
}

/// In a list with unique keys, the entry found by `k` is the one entry with that key.
proof fn lemma_found_is_unique(r: Seq<SavedSession>, k: Seq<char>, e: SavedSession)
    requires
        keys_unique(r),
        r.contains(e),
        spec_key(e@) == k,
    ensures
        index_of_key(r, k) < r.len(),
        r[index_of_key(r, k) as int] == e,
{
    lemma_index_of_key(r, k);
    let m = lemma_contains_at(r, e);
    if index_of_key(r, k) == r.len() {
        assert(m < index_of_key(r, k));
        assert(spec_key(r[m]@) != k);
    }
    let i = index_of_key(r, k) as int;
    if i != m {
        assert(spec_key(r[i]@) != spec_key(r[m]@));
    }
}

/// A session recorded with `upsert` is found again under its key, carrying
/// the time, authentication type and key path it was recorded with; the
/// keys of the list stay unique.
pub proof fn law_upsert_then_find(
    before: Seq<SavedSession>,
    session: SavedSession,
    after: Seq<SavedSession>,
)
    requires
        keys_unique(before),
        is_recency_sort_of(after, upserted(before, session)),
    ensures
        keys_unique(after),
        index_of_key(after, spec_key(session@)) < after.len(),
        ({
            let found = after[index_of_key(after, spec_key(session@)) as int];
            &&& spec_key(found@) == spec_key(session@)
            &&& found.last_used == session.last_used
            &&& found.auth_type == session.auth_type
            &&& found.key_path == session.key_path
        }),
{
    let k = spec_key(session@);
    let mid = upserted(before, session);
    lemma_upserted_unique(before, session);
    lemma_unique_keys_transfer(after, mid);
    lemma_index_of_key(before, k);
    let i = index_of_key(before, k);
    let e = if i < before.len() {
        mid[i as int]
    } else {
        mid[before.len() as int]
    };
    assert(mid.contains(e));
    lemma_found_is_unique(after, k, e);
}

/// A session marked used with `touch_by_key_at` carries the new time when
/// it is looked up again; keys stay unique.
pub proof fn law_touch_then_find(
    before: Seq<SavedSession>,
    k: Seq<char>,
    now: u64,
    after: Seq<SavedSession>,
)
    requires
        keys_unique(before),
        index_of_key(before, k) < before.len(),
        is_recency_sort_of(after, touched(before, k, now)),
    ensures
        keys_unique(after),
        index_of_key(after, k) < after.len(),
        after[index_of_key(after, k) as int].last_used == now,
{
    let mid = touched(before, k, now);
    lemma_touched_unique(before, k, now);
    lemma_unique_keys_transfer(after, mid);
    lemma_index_of_key(before, k);
    let e = mid[index_of_key(before, k) as int];
    assert(mid.contains(e));
    lemma_found_is_unique(after, k, e);
}

/// After `remove_by_key`, no session has the removed key.
pub proof fn law_remove_then_find(before: Seq<SavedSession>, k: Seq<char>)
    ensures
        index_of_key(without_key(before, k), k) == without_key(before, k).len(),
{
    let r = without_key(before, k);
    let p = |x: SavedSession| spec_key(x@) != k;
    lemma_index_of_key(r, k);
    if index_of_key(r, k) < r.len() {
        before.lemma_filter_pred(p, index_of_key(r, k) as int);
    }
}

/// Removing sessions keeps the list ordered by recency.
pub proof fn law_remove_keeps_order(before: Seq<SavedSession>, k: Seq<char>)
    requires
        sorted_by_recency(before),
    ensures
        sorted_by_recency(without_key(before, k)),
{
    lemma_filter_sorted(before, |x: SavedSession| spec_key(x@) != k);
}

/// Splitting off the first session of a list: it heads the sessions of its
/// own time, and the other times keep the sessions of the rest.
proof fn lemma_head_group(r: Seq<SavedSession>, t: u64)
    requires
        r.len() > 0,
    ensures
        t == r[0].last_used ==> used_at(r, t) == seq![r[0]] + used_at(r.drop_first(), t),
        t != r[0].last_used ==> used_at(r, t) == used_at(r.drop_first(), t),
{
    assert(r =~= seq![r[0]] + r.drop_first());
    r.drop_first().lemma_filter_prepend(r[0], |x: SavedSession| x.last_used == t);
    if t != r[0].last_used {
        assert(Seq::<SavedSession>::empty() + used_at(r.drop_first(), t) =~= used_at(
            r.drop_first(),
            t,
        ));
    }
}

/// No session of a list ordered by recency is newer than its first one.
proof fn lemma_no_group_above_head(r: Seq<SavedSession>, t: u64)
    requires
        sorted_by_recency(r),
        r.len() > 0,
        t > r[0].last_used,
    ensures
        used_at(r, t).len() == 0,
{
    let p = |x: SavedSession| x.last_used == t;
    if used_at(r, t).len() > 0 {
        let e = used_at(r, t)[0];
        r.lemma_filter_pred(p, 0);
        assert(used_at(r, t).contains(e));
        r.lemma_filter_contains_rev(p, e);
        let j = lemma_contains_at(r, e);
        if j > 0 {
            assert(r[0].last_used >= r[j].last_used);
        }
    }
}

/// Two lists ordered by recency that hold, for every time, the same sessions
/// in the same order are equal.
proof fn lemma_recency_groups_determine(r1: Seq<SavedSession>, r2: Seq<SavedSession>)
    requires
        sorted_by_recency(r1),
        sorted_by_recency(r2),
        forall|t: u64| #[trigger] used_at(r1, t) == used_at(r2, t),
    ensures
        r1 == r2,
    decreases r1.len() + r2.len(),
{
    if r1.len() == 0 && r2.len() == 0 {
        assert(r1 =~= r2);
    } else if r1.len() == 0 {
        let t = r2[0].last_used;
        lemma_head_group(r2, t);
        r1.lemma_filter_len(|x: SavedSession| x.last_used == t);
        assert(used_at(r1, t) == used_at(r2, t));
    } else if r2.len() == 0 {
        let t = r1[0].last_used;
        lemma_head_group(r1, t);
        r2.lemma_filter_len(|x: SavedSession| x.last_used == t);
        assert(used_at(r1, t) == used_at(r2, t));
    } else {
        let t1 = r1[0].last_used;
        let t2 = r2[0].last_used;
        if t1 > t2 {
            lemma_head_group(r1, t1);
            lemma_no_group_above_head(r2, t1);
            assert(used_at(r1, t1) == used_at(r2, t1));
        } else if t2 > t1 {
            lemma_head_group(r2, t2);
            lemma_no_group_above_head(r1, t2);
            assert(used_at(r1, t2) == used_at(r2, t2));
        } else {
            let d1 = r1.drop_first();
            let d2 = r2.drop_first();
            lemma_head_group(r1, t1);
            lemma_head_group(r2, t1);
            assert(used_at(r1, t1) == used_at(r2, t1));
            assert((seq![r1[0]] + used_at(d1, t1))[0] == r1[0]);
            assert((seq![r2[0]] + used_at(d2, t1))[0] == r2[0]);
            assert((seq![r1[0]] + used_at(d1, t1)).drop_first() =~= used_at(d1, t1));
            assert((seq![r2[0]] + used_at(d2, t1)).drop_first() =~= used_at(d2, t1));
            assert forall|t: u64| #[trigger] used_at(d1, t) == used_at(d2, t) by {
                lemma_head_group(r1, t);
                lemma_head_group(r2, t);
                assert(used_at(r1, t) == used_at(r2, t));
            }
            assert forall|i: int, j: int| 0 <= i < j < d1.len() implies d1[i].last_used
                >= d1[j].last_used by {
                assert(d1[i] == r1[i + 1] && d1[j] == r1[j + 1]);
            }
            assert forall|i: int, j: int| 0 <= i < j < d2.len() implies d2[i].last_used
                >= d2[j].last_used by {
                assert(d2[i] == r2[i + 1] && d2[j] == r2[j + 1]);
            }
            lemma_recency_groups_determine(d1, d2);
            assert(r1 =~= seq![r1[0]] + d1);
            assert(r2 =~= seq![r2[0]] + d2);
        }
    }
}

/// The stable recency sort of a list is unique: two results that are both
/// ordered most recently used first, with sessions used at the same time in
/// their original order, are the same list. `sort`, and loading (which sorts
/// what it reads), therefore have exactly one possible result.
pub proof fn law_recency_sort_unique(
    s: Seq<SavedSession>,
    r1: Seq<SavedSession>,
    r2: Seq<SavedSession>,
)
    requires
        is_recency_sort_of(r1, s),
        is_recency_sort_of(r2, s),
    ensures
        r1 == r2,
{
    assert forall|t: u64| #[trigger] used_at(r1, t) == used_at(r2, t) by {
        assert(used_at(r1, t) == used_at(s, t));
        assert(used_at(r2, t) == used_at(s, t));
    }
    lemma_recency_groups_determine(r1, r2);
}

/// A list already ordered by recency sorts to itself. The list of saved
/// sessions always is so ordered (`upsert` and `touch_by_key` sort it,
/// `remove_by_key` keeps its order), so loading what was saved gives the same
/// list back.
pub proof fn law_sorted_list_sorts_to_itself(s: Seq<SavedSession>, r: Seq<SavedSession>)
    requires
        sorted_by_recency(s),
        is_recency_sort_of(r, s),
    ensures
        r == s,
{
    lemma_recency_groups_determine(r, s);
}

proof fn lemma_filter_sorted(s: Seq<SavedSession>, p: spec_fn(SavedSession) -> bool)
    requires
        sorted_by_recency(s),
    ensures
        sorted_by_recency(s.filter(p)),
        forall|i: int| 0 <= i < s.filter(p).len() ==> s.contains(#[trigger] s.filter(p)[i]),
    decreases s.len(),
{
    reveal(Seq::filter);
    if s.len() > 0 {
        let d = s.drop_last();
        lemma_filter_sorted(d, p);
        let f = d.filter(p);
        assert forall|i: int| 0 <= i < f.len() implies f[i].last_used >= s.last() .last_used by {
            let j = lemma_contains_at(d, f[i]);
            assert(s[j] == d[j]);
        }
        assert forall|i: int| 0 <= i < s.filter(p).len() implies s.contains(
            #[trigger] s.filter(p)[i],
        ) by {
            if i < f.len() {
                let j = lemma_contains_at(d, f[i]);
                assert(s[j] == d[j]);
            } else {
                assert(s[s.len() - 1] == s.last());
            }
        }
    }
}


// ---------------------------------------------------------------------------
// Operations
// ---------------------------------------------------------------------------

impl SavedSessions {
    pub fn new() -> (r: SavedSessions)
        ensures
            r.sessions@ == Seq::<SavedSession>::empty(),
    {
        SavedSessions { sessions: Vec::new() }
    }

    /// Index of the first session with key `key`, or the number of sessions.
    fn position_of_key(&self, key: &[char]) -> (r: usize)
        ensures
            r == index_of_key(self.sessions@, key@),
    {
        proof {
            lemma_index_of_key(self.sessions@, key@);
        }
        let mut i: usize = 0;
        while i < self.sessions.len()
            invariant
                i <= self.sessions@.len(),
                forall|j: int| 0 <= j < i ==> spec_key(#[trigger] self.sessions@[j]@) != key@,
                index_of_key(self.sessions@, key@) <= self.sessions@.len(),
                forall|j: int|
                    0 <= j < index_of_key(self.sessions@, key@) ==> spec_key(
                        #[trigger] self.sessions@[j]@,
                    ) != key@,
                index_of_key(self.sessions@, key@) < self.sessions@.len() ==> spec_key(
                    self.sessions@[index_of_key(self.sessions@, key@) as int]@,
                ) == key@,
            decreases self.sessions.len() - i,
        {
            let k = chars_of(self.sessions[i].key().as_str());
            if chars_eq(k.as_slice(), key) {
                return i;
            }
            i += 1;
        }
        i
    }

    /// Records a connection: the first session with the same key takes the
    /// new time, authentication type and key path; a new key is appended.
    /// The list is then ordered most recently used first.
    pub fn upsert(&mut self, session: SavedSession)
        ensures
            is_recency_sort_of(final(self).sessions@, upserted(old(self).sessions@, session)),
    {
        let key = chars_of(session.key().as_str());
        let i = self.position_of_key(key.as_slice());
        if i < self.sessions.len() {
            let mut existing = self.sessions.remove(i);
            existing.last_used = session.last_used;
            existing.auth_type = session.auth_type;
            existing.key_path = session.key_path;
            self.sessions.insert(i, existing);
            assert(self.sessions@ =~= upserted(old(self).sessions@, session));
        } else {
            self.sessions.push(session);
        }
        self.sort();
    }

    /// Removes every session whose key is `key`.
    pub fn remove_by_key(&mut self, key: &str)
        ensures
            final(self).sessions@ == without_key(old(self).sessions@, key@),
    {
        let k = chars_of(key);
        let mut old_sessions: Vec<SavedSession> = Vec::new();
        std::mem::swap(&mut old_sessions, &mut self.sessions);
        let ghost all = old_sessions@;
        let mut kept: Vec<SavedSession> = Vec::new();
        for s in it: old_sessions.into_iter()
            invariant
                it.seq() == all,
                k@ == key@,
                kept@ == without_key(all.take(it.index() as int), key@),
        {
            proof {
                let p = |x: SavedSession| spec_key(x@) != key@;
                assert(all.take(it.index() + 1) =~= all.take(it.index() as int).push(s));
                lemma_filter_push(all.take(it.index() as int), s, p);
            }
            let sk = chars_of(s.key().as_str());
            if !chars_eq(sk.as_slice(), k.as_slice()) {
                kept.push(s);
            }
        }
        assert(all.take(all.len() as int) =~= all);
        self.sessions = kept;
    }

    /// The first session whose key is `key`.
    pub fn find_by_key(&self, key: &str) -> (r: Option<&SavedSession>)
        ensures
            ({
                let i = index_of_key(self.sessions@, key@);
                match r {
                    Some(s) => i < self.sessions@.len() && *s == self.sessions@[i as int],
                    None => i == self.sessions@.len(),
                }
            }),
    {
        let k = chars_of(key);
        let i = self.position_of_key(k.as_slice());
        proof {
            lemma_index_of_key(self.sessions@, key@);
        }
        if i < self.sessions.len() {
            Some(&self.sessions[i])
        } else {
            None
        }
    }

    /// Marks the first session with key `key` as used now, then orders the
    /// list most recently used first.
    pub fn touch_by_key(&mut self, key: &str)
        ensures
            exists|now: u64|
                is_recency_sort_of(
                    final(self).sessions@,
                    #[trigger] touched(old(self).sessions@, key@, now),
                ),
    {
        let now = now_unix();
        self.touch_by_key_at(key, now);
    }

    /// Marks the first session with key `key` as used at `now`, then orders
    /// the list most recently used first.
    pub fn touch_by_key_at(&mut self, key: &str, now: u64)
        ensures
            is_recency_sort_of(final(self).sessions@, touched(old(self).sessions@, key@, now)),
    {
        let k = chars_of(key);
        let i = self.position_of_key(k.as_slice());
        if i < self.sessions.len() {
            let mut existing = self.sessions.remove(i);
            existing.last_used = now;
            self.sessions.insert(i, existing);
            assert(self.sessions@ =~= touched(old(self).sessions@, key@, now));
        }
        self.sort();
    }

    /// Orders the sessions most recently used first; sessions used at the
    /// same time keep their order.
    pub fn sort(&mut self)
        ensures
            is_recency_sort_of(final(self).sessions@, old(self).sessions@),
    {
        let mut input: Vec<SavedSession> = Vec::new();
        std::mem::swap(&mut input, &mut self.sessions);
        let ghost all = input@;
        let mut res: Vec<SavedSession> = Vec::new();
        for x in it: input.into_iter()
            invariant
                it.seq() == all,
                sorted_by_recency(res@),
                res@.to_multiset() == all.take(it.index() as int).to_multiset(),
                forall|t: u64| #[trigger]
                    used_at(res@, t) == used_at(all.take(it.index() as int), t),
        {
            let mut pos: usize = 0;
            while pos < res.len() && res[pos].last_used >= x.last_used
                invariant
                    pos <= res@.len(),
                    forall|k: int| 0 <= k < pos ==> #[trigger] res@[k].last_used >= x.last_used,
                decreases res.len() - pos,
            {
                pos += 1;
            }
            proof {
                assert forall|k: int| pos <= k < res@.len() implies #[trigger] res@[k].last_used
                    < x.last_used by {
                    if pos < res@.len() {
                        assert(res@[pos as int].last_used < x.last_used);
                        if k > pos {
                            assert(res@[pos as int].last_used >= res@[k].last_used);
                        }
                    }
                }
                lemma_insert_by_recency(res@, pos as int, x);
                let prev = all.take(it.index() as int);
                assert(all.take(it.index() + 1) =~= prev.push(x));
                assert forall|t: u64| #[trigger]
                    used_at(prev.push(x), t) == (if t == x.last_used {
                        used_at(prev, t).push(x)
                    } else {
                        used_at(prev, t)
                    }) by {
                    lemma_filter_push(prev, x, |y: SavedSession| y.last_used == t);
                }
                vstd::seq_lib::to_multiset_insert(res@, pos as int, x);
            }
            res.insert(pos, x);
        }
        assert(all.take(all.len() as int) =~= all);
        self.sessions = res;
    }
}

/// The machine's clock, as `std::time::SystemTime`: Verus sees nothing inside it.
#[verifier::external_type_specification]
#[verifier::external_body]
pub struct ExSystemTime(std::time::SystemTime);

/// `std::time::SystemTime::now`: the machine's clock at the call. Nothing is
/// stated of the value.
#[verifier::external_body]
fn system_time_now() -> std::time::SystemTime {
    std::time::SystemTime::now()
}

/// `SystemTime::duration_since(UNIX_EPOCH)`, with its error (a time before the
/// epoch) as `None`. Nothing is stated of the value: it is a reading of the clock.
#[verifier::external_body]
fn duration_since_epoch(t: &std::time::SystemTime) -> Option<core::time::Duration> {
    t.duration_since(std::time::UNIX_EPOCH).ok()
}

/// `Duration::as_secs`: the whole seconds of a duration. The duration is
/// opaque here, so nothing is stated of the value.
#[verifier::external_body]
fn duration_secs(d: &core::time::Duration) -> u64 {
    d.as_secs()
}

/// The time to record for a clock reading: its whole seconds since the Unix
/// epoch, or 0 for a reading before the epoch (`None`).
pub fn seconds_or_zero(reading: Option<u64>) -> (r: u64)
    ensures
        r == match reading {
            Some(v) => v,
            None => 0,
        },
{
    match reading {
        Some(v) => v,
        None => 0,
    }
}

/// The current time in seconds since the Unix epoch, or 0 when the clock is
/// set before it (`seconds_or_zero` of the clock's reading). What the clock
/// reads is not stated.
pub fn now_unix() -> u64 {
    let now = system_time_now();
    let reading = match duration_since_epoch(&now) {
        Some(d) => Some(duration_secs(&d)),
        None => None,
    };
    seconds_or_zero(reading)
}

} // verus!
