//! Lists of room participants, kept in order of joining.
use vstd::prelude::*;

verus! {

/// A participant: a user id and the name shown for it.
#[derive(Clone, Debug)]
pub struct UserInfo {
    pub user_id: String,
    pub username: String,
}

impl UserInfo {
    /// An equal copy.
    pub fn replicate(&self) -> (r: UserInfo)
        ensures
            r == *self,
    {
        UserInfo { user_id: self.user_id.clone(), username: self.username.clone() }
    }
}

/// Whether some participant has the user id `u`.
pub open spec fn has_user(ps: Seq<UserInfo>, u: Seq<char>) -> bool {
    exists|i: int| 0 <= i < ps.len() && (#[trigger] ps[i]).user_id@ == u
}

/// The list with `p` added at the end, unless its user id is already there.
pub open spec fn add_user(ps: Seq<UserInfo>, p: UserInfo) -> Seq<UserInfo> {
    if has_user(ps, p.user_id@) {
        ps
    } else {
        ps.push(p)
    }
}

/// The list with the participant whose user id is that of `p` given the name of `p`.
pub open spec fn renamed(ps: Seq<UserInfo>, p: UserInfo) -> Seq<UserInfo> {
    Seq::new(ps.len(), |i: int| rename_one(ps[i], p))
}

pub open spec fn rename_one(q: UserInfo, p: UserInfo) -> UserInfo {
    if q.user_id@ == p.user_id@ {
        UserInfo { user_id: q.user_id, username: p.username }
    } else {
        q
    }
}

/// The list after `p` joins: a user already there takes the name of `p`;
/// otherwise `p` is added at the end.
pub open spec fn join_user(ps: Seq<UserInfo>, p: UserInfo) -> Seq<UserInfo> {
    if has_user(ps, p.user_id@) {
        renamed(ps, p)
    } else {
        ps.push(p)
    }
}

/// Whether no two participants share a user id.
pub open spec fn unique_users(ps: Seq<UserInfo>) -> bool {
    forall|i: int, j: int|
        0 <= i < j < ps.len() ==> (#[trigger] ps[i]).user_id@ != (#[trigger] ps[j]).user_id@
}

/// The list without any participant whose user id is `u`, order kept.
pub open spec fn remove_user(ps: Seq<UserInfo>, u: Seq<char>) -> Seq<UserInfo>
    decreases ps.len(),
{
    if ps.len() == 0 {
        ps
    } else {
        let rest = remove_user(ps.drop_last(), u);
        if ps.last().user_id@ != u {
            rest.push(ps.last())
        } else {
            rest
        }
    }
}

/// The name of the first participant with user id `u`, if there is one.
pub open spec fn first_username(ps: Seq<UserInfo>, u: Seq<char>) -> Option<String>
    decreases ps.len(),
{
    if ps.len() == 0 {
        None
    } else if ps[0].user_id@ == u {
        Some(ps[0].username)
    } else {
        first_username(ps.drop_first(), u)
    }
}

pub proof fn lemma_add_user_unique(ps: Seq<UserInfo>, p: UserInfo)
    requires
        unique_users(ps),
    ensures
        unique_users(add_user(ps, p)),
        unique_users(join_user(ps, p)),
{
    if !has_user(ps, p.user_id@) {
        let q = ps.push(p);
        assert forall|i: int, j: int| 0 <= i < j < q.len() implies (#[trigger] q[i]).user_id@
            != (#[trigger] q[j]).user_id@ by {
            if j == ps.len() {
                assert(q[i] == ps[i]);
            } else {
                assert(q[i] == ps[i] && q[j] == ps[j]);
            }
        }
    } else {
        let q = renamed(ps, p);
        assert forall|i: int, j: int| 0 <= i < j < q.len() implies (#[trigger] q[i]).user_id@
            != (#[trigger] q[j]).user_id@ by {
            assert(q[i].user_id == ps[i].user_id && q[j].user_id == ps[j].user_id);
        }
    }
}

pub proof fn lemma_remove_user_unique(ps: Seq<UserInfo>, u: Seq<char>)
    requires
        unique_users(ps),
    ensures
        unique_users(remove_user(ps, u)),
        forall|v: Seq<char>| has_user(remove_user(ps, u), v) ==> has_user(ps, v),
    decreases ps.len(),
{
    if ps.len() > 0 {
        let init = ps.drop_last();
        let last = ps.last();
        assert(unique_users(init)) by {
            assert forall|i: int, j: int| 0 <= i < j < init.len() implies (#[trigger] init[i]).user_id@
                != (#[trigger] init[j]).user_id@ by {
                assert(init[i] == ps[i] && init[j] == ps[j]);
            }
        }
        lemma_remove_user_unique(init, u);
        let rest = remove_user(init, u);
        assert(remove_user(ps, u) == (if last.user_id@ != u {
            rest.push(last)
        } else {
            rest
        }));
        assert forall|v: Seq<char>| has_user(remove_user(ps, u), v) implies has_user(ps, v) by {
            let q = remove_user(ps, u);
            let k = choose|k: int| 0 <= k < q.len() && (#[trigger] q[k]).user_id@ == v;
            if k < rest.len() {
                assert(q[k] == rest[k]);
                assert(has_user(rest, v));
                assert(has_user(init, v));
                let j = choose|j: int| 0 <= j < init.len() && (#[trigger] init[j]).user_id@ == v;
                assert(ps[j] == init[j]);
            } else {
                assert(q[k] == last);
                assert(ps[ps.len() - 1] == last);
            }
        }
        if last.user_id@ != u {
            let q = rest.push(last);
            assert(!has_user(rest, last.user_id@)) by {
                if has_user(rest, last.user_id@) {
                    assert(has_user(init, last.user_id@));
                    let j = choose|j: int| 0 <= j < init.len() && (#[trigger] init[j]).user_id@
                        == last.user_id@;
                    assert(ps[j] == init[j]);
                    assert(ps[ps.len() - 1] == last);
                }
            }
            assert forall|i: int, j: int| 0 <= i < j < q.len() implies (#[trigger] q[i]).user_id@
                != (#[trigger] q[j]).user_id@ by {
                if j == rest.len() {
                    assert(q[i] == rest[i]);
                } else {
                    assert(q[i] == rest[i] && q[j] == rest[j]);
                }
            }
        }
    }
}

pub proof fn lemma_has_user_push(ps: Seq<UserInfo>, p: UserInfo, v: Seq<char>)
    ensures
        has_user(ps.push(p), v) <==> has_user(ps, v) || p.user_id@ == v,
{
    let q = ps.push(p);
    if has_user(ps, v) {
        let k = choose|k: int| 0 <= k < ps.len() && (#[trigger] ps[k]).user_id@ == v;
        assert(q[k] == ps[k]);
    }
    if p.user_id@ == v {
        assert(q[ps.len() as int] == p);
    }
    if has_user(q, v) {
        let k = choose|k: int| 0 <= k < q.len() && (#[trigger] q[k]).user_id@ == v;
        if k < ps.len() {
            assert(q[k] == ps[k]);
        }
    }
}

pub proof fn lemma_has_user_join(ps: Seq<UserInfo>, p: UserInfo, v: Seq<char>)
    ensures
        has_user(join_user(ps, p), v) <==> has_user(ps, v) || p.user_id@ == v,
{
    if has_user(ps, p.user_id@) {
        let q = renamed(ps, p);
        if has_user(ps, v) {
            let k = choose|k: int| 0 <= k < ps.len() && (#[trigger] ps[k]).user_id@ == v;
            assert(q[k].user_id == ps[k].user_id);
        }
        if p.user_id@ == v {
            let k = choose|k: int| 0 <= k < ps.len() && (#[trigger] ps[k]).user_id@ == v;
            assert(q[k].user_id == ps[k].user_id);
        }
        if has_user(q, v) {
            let k = choose|k: int| 0 <= k < q.len() && (#[trigger] q[k]).user_id@ == v;
            assert(q[k].user_id == ps[k].user_id);
        }
    } else {
        lemma_has_user_push(ps, p, v);
    }
}

pub proof fn lemma_has_user_remove(ps: Seq<UserInfo>, u: Seq<char>, v: Seq<char>)
    ensures
        has_user(remove_user(ps, u), v) <==> has_user(ps, v) && v != u,
    decreases ps.len(),
{
    if ps.len() == 0 {
    } else {
        let init = ps.drop_last();
        let last = ps.last();
        lemma_has_user_remove(init, u, v);
        lemma_has_user_push(init, last, v);
        assert(init.push(last) =~= ps);
        if last.user_id@ != u {
            lemma_has_user_push(remove_user(init, u), last, v);
        }
    }
}

/// Whether a participant has the user id `u`.
pub fn contains_user(ps: &Vec<UserInfo>, u: &String) -> (r: bool)
    ensures
        r == has_user(ps@, u@),
{
    let mut i: usize = 0;
    while i < ps.len()
        invariant
            i <= ps@.len(),
            forall|j: int| 0 <= j < i ==> (#[trigger] ps@[j]).user_id@ != u@,
        decreases ps@.len() - i,
    {
        if ps[i].user_id == *u {
            return true;
        }
        i += 1;
    }
    false
}

/// Adds `p` at the end unless its user id is already there.
pub fn insert_user(ps: &mut Vec<UserInfo>, p: UserInfo)
    ensures
        final(ps)@ == add_user(old(ps)@, p),
{
    if !contains_user(ps, &p.user_id) {
        ps.push(p);
    }
}

/// Lets `p` join: a user already there takes the name of `p`; otherwise
/// `p` is added at the end.
pub fn join(ps: &mut Vec<UserInfo>, p: UserInfo)
    ensures
        final(ps)@ == join_user(old(ps)@, p),
{
    if !contains_user(ps, &p.user_id) {
        ps.push(p);
        return;
    }
    let mut i: usize = 0;
    while i < ps.len()
        invariant
            i <= ps@.len(),
            ps@.len() == old(ps)@.len(),
            forall|j: int| 0 <= j < i ==> ps@[j] == rename_one(old(ps)@[j], p),
            forall|j: int| i <= j < ps@.len() ==> ps@[j] == old(ps)@[j],
        decreases ps@.len() - i,
    {
        if ps[i].user_id == p.user_id {
            ps[i].username = p.username.clone();
        }
        i += 1;
    }
    assert(ps@ =~= renamed(old(ps)@, p));
}

/// Removes every participant whose user id is `u`, keeping the others in order.
pub fn retain_others(ps: &mut Vec<UserInfo>, u: &String)
    ensures
        final(ps)@ == remove_user(old(ps)@, u@),
{
    let mut kept: Vec<UserInfo> = Vec::new();
    let mut i: usize = 0;
    while i < ps.len()
        invariant
            i <= ps@.len(),
            kept@ == remove_user(ps@.subrange(0, i as int), u@),
        decreases ps@.len() - i,
    {
        assert(ps@.subrange(0, i + 1).drop_last() =~= ps@.subrange(0, i as int));
        if ps[i].user_id != *u {
            kept.push(ps[i].replicate());
        }
        i += 1;
    }
    assert(ps@.subrange(0, ps@.len() as int) =~= ps@);
    *ps = kept;
}

/// The name of the first participant with user id `u`, or `u` itself.
pub fn username_or_id(ps: &Vec<UserInfo>, u: &String) -> (r: String)
    ensures
        r == (match first_username(ps@, u@) {
            Some(n) => n,
            None => *u,
        }),
{
    let mut i: usize = 0;
    assert(ps@.subrange(0, ps@.len() as int) =~= ps@);
    while i < ps.len()
        invariant
            i <= ps@.len(),
            first_username(ps@, u@) == first_username(ps@.subrange(i as int, ps@.len() as int), u@),
        decreases ps@.len() - i,
    {
        assert(ps@.subrange(i as int, ps@.len() as int).drop_first() =~= ps@.subrange(
            i + 1,
            ps@.len() as int,
        ));
        if ps[i].user_id == *u {
            return ps[i].username.clone();
        }
        i += 1;
    }
    u.clone()
}

} // verus!
