use crate::user::{User, UserTrait};
use std::sync::Arc;
use vstd::pervasive::VecAdditionalExecFns;
use vstd::prelude::*;

verus! {

/// Relies on `std::sync::Arc::clone`: the returned handle refers to the
/// same underlying allocation as the argument, so the two are equal.
#[verifier::external_body]
fn arc_clone<T>(a: &Arc<T>) -> (r: Arc<T>)
    ensures
        r == *a,
{
    Arc::clone(a)
}

/// The mathematical contents of one index: each pair binds the view of
/// its key string to the record behind the shared handle, later pairs
/// overriding earlier ones.
pub open spec fn entries_map<T>(s: Seq<(String, Arc<T>)>) -> Map<Seq<char>, T>
    decreases s.len(),
{
    if s.len() == 0 {
        Map::empty()
    } else {
        entries_map(s.drop_last()).insert(s.last().0@, *s.last().1)
    }
}

/// No two pairs of the index bind the same key.
pub open spec fn keys_distinct<T>(s: Seq<(String, Arc<T>)>) -> bool {
    forall|i: int, j: int| 0 <= i < j < s.len() ==> s[i].0@ != s[j].0@
}

proof fn lemma_distinct_drop_last<T>(s: Seq<(String, Arc<T>)>)
    requires
        keys_distinct(s),
        s.len() > 0,
    ensures
        keys_distinct(s.drop_last()),
{
    assert forall|i: int, j: int|
        0 <= i < j < s.drop_last().len() implies s.drop_last()[i].0@ != s.drop_last()[j].0@ by {
        assert(s[i].0@ != s[j].0@);
    }
}

proof fn lemma_entries_contains<T>(s: Seq<(String, Arc<T>)>, k: Seq<char>)
    ensures
        entries_map(s).contains_key(k) <==> exists|i: int| 0 <= i < s.len() && s[i].0@ == k,
    decreases s.len(),
{
    if s.len() == 0 {
    } else {
        lemma_entries_contains(s.drop_last(), k);
        if s.last().0@ == k {
            assert(s[s.len() - 1].0@ == k);
        } else {
            if entries_map(s).contains_key(k) {
                let i = choose|i: int| 0 <= i < s.drop_last().len() && s.drop_last()[i].0@ == k;
                assert(s[i].0@ == k);
            }
            if exists|i: int| 0 <= i < s.len() && s[i].0@ == k {
                let i = choose|i: int| 0 <= i < s.len() && s[i].0@ == k;
                assert(i < s.len() - 1 && s.drop_last()[i].0@ == k);
            }
        }
    }
}

proof fn lemma_entries_value<T>(s: Seq<(String, Arc<T>)>, i: int)
    requires
        keys_distinct(s),
        0 <= i < s.len(),
    ensures
        entries_map(s).contains_key(s[i].0@),
        entries_map(s)[s[i].0@] == *s[i].1,
    decreases s.len(),
{
    if i == s.len() - 1 {
    } else {
        lemma_distinct_drop_last(s);
        lemma_entries_value(s.drop_last(), i);
        assert(s.drop_last()[i] == s[i]);
        assert(s.last().0@ != s[i].0@);
    }
}

proof fn lemma_entries_push<T>(s: Seq<(String, Arc<T>)>, p: (String, Arc<T>))
    ensures
        entries_map(s.push(p)) == entries_map(s).insert(p.0@, *p.1),
{
    assert(s.push(p).drop_last() =~= s);
    assert(s.push(p).last() == p);
}

proof fn lemma_entries_update<T>(s: Seq<(String, Arc<T>)>, i: int, p: (String, Arc<T>))
    requires
        keys_distinct(s),
        0 <= i < s.len(),
        s[i].0@ == p.0@,
    ensures
        entries_map(s.update(i, p)) == entries_map(s).insert(p.0@, *p.1),
        keys_distinct(s.update(i, p)),
    decreases s.len(),
{
    let s2 = s.update(i, p);
    assert forall|a: int, b: int| 0 <= a < b < s2.len() implies s2[a].0@ != s2[b].0@ by {
        assert(s[a].0@ != s[b].0@);
    }
    if i == s.len() - 1 {
        assert(s2.drop_last() =~= s.drop_last());
        assert(s2.last() == p);
        assert(entries_map(s2) == entries_map(s.drop_last()).insert(p.0@, *p.1));
        assert(entries_map(s.drop_last()).insert(p.0@, *p.1) =~= entries_map(
            s.drop_last(),
        ).insert(s[i].0@, *s[i].1).insert(p.0@, *p.1));
    } else {
        lemma_distinct_drop_last(s);
        assert(s2.drop_last() =~= s.drop_last().update(i, p));
        assert(s2.last() == s.last());
        lemma_entries_update(s.drop_last(), i, p);
        // the two inserts bind different keys, so they commute
        assert(s.last().0@ != p.0@);
        assert(entries_map(s.drop_last()).insert(p.0@, *p.1).insert(s.last().0@, *s.last().1)
            =~= entries_map(s.drop_last()).insert(s.last().0@, *s.last().1).insert(p.0@, *p.1));
    }
}

proof fn lemma_entries_remove<T>(s: Seq<(String, Arc<T>)>, i: int)
    requires
        keys_distinct(s),
        0 <= i < s.len(),
    ensures
        entries_map(s.remove(i)) == entries_map(s).remove(s[i].0@),
        keys_distinct(s.remove(i)),
    decreases s.len(),
{
    let s2 = s.remove(i);
    assert forall|a: int, b: int| 0 <= a < b < s2.len() implies s2[a].0@ != s2[b].0@ by {
        if a < i && b < i {
            assert(s[a].0@ != s[b].0@);
        } else if a < i {
            assert(s[a].0@ != s[b + 1].0@);
        } else {
            assert(s[a + 1].0@ != s[b + 1].0@);
        }
    }
    if i == s.len() - 1 {
        assert(s2 =~= s.drop_last());
        lemma_entries_contains(s.drop_last(), s[i].0@);
        if entries_map(s.drop_last()).contains_key(s[i].0@) {
            let j = choose|j: int| 0 <= j < s.drop_last().len() && s.drop_last()[j].0@ == s[i].0@;
            assert(s[j].0@ != s[i].0@);
        }
        assert(entries_map(s.drop_last()).insert(s[i].0@, *s[i].1).remove(s[i].0@)
            =~= entries_map(s.drop_last()));
    } else {
        lemma_distinct_drop_last(s);
        lemma_entries_remove(s.drop_last(), i);
        assert(s2.drop_last() =~= s.drop_last().remove(i));
        assert(s2.last() == s.last());
        assert(s.drop_last()[i] == s[i]);
        assert(s.last().0@ != s[i].0@);
        assert(entries_map(s.drop_last()).remove(s[i].0@).insert(s.last().0@, *s.last().1)
            =~= entries_map(s.drop_last()).insert(s.last().0@, *s.last().1).remove(s[i].0@));
    }
}

/// Finds the position of a key in one index, or reports that no pair
/// binds it.
fn find_key<T>(v: &Vec<(String, Arc<T>)>, k: &str) -> (r: Option<usize>)
    ensures
        match r {
            Some(i) => i < v@.len() && v@[i as int].0@ == k@,
            None => forall|i: int| 0 <= i < v@.len() ==> v@[i].0@ != k@,
        },
{
    let kq: String = k.to_owned();
    let n = v.len();
    let mut i: usize = 0;
    while i < n
        invariant
            n == v@.len(),
            i <= n,
            kq@ == k@,
            forall|j: int| 0 <= j < i ==> v@[j].0@ != k@,
        decreases n - i,
    {
        if v[i].0 == kq {
            return Some(i);
        }
        i = i + 1;
    }
    None
}

/// Binds a key to a shared record in one index, replacing the pair that
/// bound the key before, if any.
fn put<T>(v: &mut Vec<(String, Arc<T>)>, key: String, val: Arc<T>)
    requires
        keys_distinct(old(v)@),
    ensures
        keys_distinct(final(v)@),
        entries_map(final(v)@) == entries_map(old(v)@).insert(key@, *val),
{
    let ghost vold = v@;
    let ghost kview = key@;
    let ghost aval = val;
    let r = find_key(v, key.as_str());
    match r {
        Some(i) => {
            v.set(i, (key, val));
            proof {
                assert(v@ =~= vold.update(i as int, v@[i as int]));
                assert(v@[i as int].0@ == kview);
                assert(v@[i as int].1 == aval);
                lemma_entries_update(vold, i as int, v@[i as int]);
            }
        },
        None => {
            v.push((key, val));
            proof {
                assert(v@ =~= vold.push(v@[vold.len() as int]));
                assert(v@[vold.len() as int].0@ == kview);
                assert(v@[vold.len() as int].1 == aval);
                lemma_entries_push(vold, v@[vold.len() as int]);
                assert forall|a: int, b: int| 0 <= a < b < v@.len() implies v@[a].0@ != v@[b].0@ by {
                    if b < vold.len() {
                        assert(vold[a].0@ != vold[b].0@);
                    } else {
                        assert(vold[a].0@ != kview);
                    }
                }
            }
        },
    }
}

/// A dual-indexed user registry: one index from identity string to a
/// shared record, one from authentication string to the same shared
/// record.
pub struct UsersMap<T: User> {
    id_map: Vec<(String, Arc<T>)>,
    auth_map: Vec<(String, Arc<T>)>,
}

impl<T: User> UsersMap<T> {
    /// Both indices bind each key at most once.
    pub closed spec fn wf(self) -> bool {
        keys_distinct(self.id_map@) && keys_distinct(self.auth_map@)
    }

    /// The identity index: identity string to stored record.
    pub closed spec fn id_view(self) -> Map<Seq<char>, T> {
        entries_map(self.id_map@)
    }

    /// The authentication index: auth string to stored record.
    pub closed spec fn auth_view(self) -> Map<Seq<char>, T> {
        entries_map(self.auth_map@)
    }

    /// The registry's two indices are consistent with each other.
    pub open spec fn consistent(self) -> bool {
        indices_consistent(self.id_view(), self.auth_view())
    }

    /// An empty registry.
    pub fn new() -> (r: Self)
        ensures
            r.wf(),
            r.id_view() == Map::<Seq<char>, T>::empty(),
            r.auth_view() == Map::<Seq<char>, T>::empty(),
    {
        UsersMap { id_map: Vec::new(), auth_map: Vec::new() }
    }

    /// Wraps the user in a shared cell and binds it in both indices,
    /// keyed by its identity string and by its authentication string;
    /// either key's previous binding, if any, is replaced.
    pub fn add_user(&mut self, user: T)
        requires
            old(self).wf(),
        ensures
            final(self).wf(),
            final(self).id_view() == old(self).id_view().insert(user.identity(), user),
            final(self).auth_view() == old(self).auth_view().insert(user.auth(), user),
    {
        let id_key: String = user.identity_str().to_owned();
        let auth_key: String = user.auth_str().to_owned();
        let shared = Arc::new(user);
        let shared2 = arc_clone(&shared);
        put(&mut self.id_map, id_key, shared);
        put(&mut self.auth_map, auth_key, shared2);
    }

    /// Removes the user bound to this identity, if any, from the
    /// identity index, and then removes the authentication index entry
    /// keyed by that same record's current auth string.  Unknown
    /// identities are a silent no-op.
    pub fn remove_user(&mut self, id: &str)
        requires
            old(self).wf(),
        ensures
            final(self).wf(),
            old(self).id_view().contains_key(id@) ==> {
                &&& final(self).id_view() == old(self).id_view().remove(id@)
                &&& final(self).auth_view() == old(self).auth_view().remove(
                    old(self).id_view()[id@].auth(),
                )
            },
            !old(self).id_view().contains_key(id@) ==> {
                &&& final(self).id_view() == old(self).id_view()
                &&& final(self).auth_view() == old(self).auth_view()
            },
            old(self).consistent() ==> final(self).consistent(),
    {
        let ghost idold = self.id_map@;
        let ghost authold = self.auth_map@;
        let r = find_key(&self.id_map, id);
        match r {
            Some(i) => {
                proof {
                    lemma_entries_value(idold, i as int);
                    lemma_entries_remove(idold, i as int);
                }
                let pair = self.id_map.remove(i);
                let u = pair.1;
                let astr: String = u.auth_str().to_owned();
                proof {
                    assert(astr@ == old(self).id_view()[id@].auth());
                }
                let r2 = find_key(&self.auth_map, astr.as_str());
                match r2 {
                    Some(j) => {
                        proof {
                            lemma_entries_remove(authold, j as int);
                        }
                        let _ = self.auth_map.remove(j);
                    },
                    None => {
                        proof {
                            lemma_entries_contains(authold, astr@);
                            assert(entries_map(authold).remove(astr@) =~= entries_map(authold));
                        }
                    },
                }
            },
            None => {
                proof {
                    lemma_entries_contains(idold, id@);
                }
            },
        }
        proof {
            if old(self).consistent() && old(self).id_view().contains_key(id@) {
                lemma_remove_user_consistent(old(self).id_view(), old(self).auth_view(), id@);
            }
        }
    }

    /// Looks the user up by identity string, returning a fresh shared
    /// handle to the stored record on a hit and nothing on a miss.
    pub fn get_user(&self, id: &str) -> (r: Option<Arc<T>>)
        requires
            self.wf(),
        ensures
            match r {
                Some(u) => self.id_view().contains_key(id@) && *u == self.id_view()[id@],
                None => !self.id_view().contains_key(id@),
            },
    {
        match find_key(&self.id_map, id) {
            Some(i) => {
                proof {
                    lemma_entries_value(self.id_map@, i as int);
                }
                Some(arc_clone(&self.id_map[i].1))
            },
            None => {
                proof {
                    lemma_entries_contains(self.id_map@, id@);
                }
                None
            },
        }
    }

    /// Looks the user up by authentication string, returning a fresh
    /// shared handle to the stored record on a hit and nothing on a
    /// miss.
    pub fn get_user_by_authstr(&self, authstr: &str) -> (r: Option<Arc<T>>)
        requires
            self.wf(),
        ensures
            match r {
                Some(u) => self.auth_view().contains_key(authstr@) && *u == self.auth_view()[
                    authstr@
                ],
                None => !self.auth_view().contains_key(authstr@),
            },
    {
        match find_key(&self.auth_map, authstr) {
            Some(i) => {
                proof {
                    lemma_entries_value(self.auth_map@, i as int);
                }
                Some(arc_clone(&self.auth_map[i].1))
            },
            None => {
                proof {
                    lemma_entries_contains(self.auth_map@, authstr@);
                }
                None
            },
        }
    }
}

impl<T: User> Default for UsersMap<T> {
    /// An empty registry.
    fn default() -> (r: Self)
        ensures
            r.wf(),
            r.id_view() == Map::<Seq<char>, T>::empty(),
            r.auth_view() == Map::<Seq<char>, T>::empty(),
    {
        UsersMap::new()
    }
}

/// Consistency of a registry's two indices: each index keys every
/// record by that record's own current string, every record reachable
/// by identity is reachable by its auth string as the same record, and
/// vice versa.
pub open spec fn indices_consistent<T: User>(
    ids: Map<Seq<char>, T>,
    auths: Map<Seq<char>, T>,
) -> bool {
    &&& forall|k: Seq<char>| #[trigger] ids.contains_key(k) ==> ids[k].identity() == k
    &&& forall|k: Seq<char>| #[trigger] auths.contains_key(k) ==> auths[k].auth() == k
    &&& forall|k: Seq<char>| #[trigger]
        ids.contains_key(k) ==> auths.contains_key(ids[k].auth()) && auths[ids[k].auth()]
            == ids[k]
    &&& forall|k: Seq<char>| #[trigger]
        auths.contains_key(k) ==> ids.contains_key(auths[k].identity())
            && ids[auths[k].identity()] == auths[k]
}

/// The indices of an empty registry are consistent, as
/// [`UsersMap::new`] and `UsersMap::default` produce them.
pub proof fn lemma_empty_consistent<T: User>()
    ensures
        indices_consistent(Map::<Seq<char>, T>::empty(), Map::<Seq<char>, T>::empty()),
{
}

/// Round trip: a user just added — [`UsersMap::add_user`] inserts it
/// into both indices — is found under its identity string and under its
/// auth string, as the very record that was added.
pub proof fn lemma_add_round_trip<T: User>(ids: Map<Seq<char>, T>, auths: Map<Seq<char>, T>, u: T)
    ensures
        ids.insert(u.identity(), u).contains_key(u.identity()),
        ids.insert(u.identity(), u)[u.identity()] == u,
        auths.insert(u.auth(), u).contains_key(u.auth()),
        auths.insert(u.auth(), u)[u.auth()] == u,
{
}

/// Adding a user keeps the two indices consistent, provided its
/// identity and auth keys are both fresh, or both bound to one and the
/// same record.  (Overwriting only one index's binding orphans the
/// other index's record, so those inputs are excluded.)
pub proof fn lemma_add_user_consistent<T: User>(
    ids: Map<Seq<char>, T>,
    auths: Map<Seq<char>, T>,
    u: T,
)
    requires
        indices_consistent(ids, auths),
        ids.contains_key(u.identity()) || auths.contains_key(u.auth()) ==> {
            &&& ids.contains_key(u.identity())
            &&& auths.contains_key(u.auth())
            &&& ids[u.identity()] == auths[u.auth()]
        },
    ensures
        indices_consistent(ids.insert(u.identity(), u), auths.insert(u.auth(), u)),
{
    let ids2 = ids.insert(u.identity(), u);
    let auths2 = auths.insert(u.auth(), u);
    assert forall|k: Seq<char>| ids2.contains_key(k) implies auths2.contains_key(ids2[k].auth())
        && auths2[ids2[k].auth()] == ids2[k] by {
        if k != u.identity() {
            let w = ids[k];
            if w.auth() == u.auth() {
                assert(auths.contains_key(u.auth()));
                assert(ids[u.identity()] == auths[u.auth()]);
                assert(auths[w.auth()] == w);
                assert(ids[u.identity()].identity() == u.identity());
                assert(w.identity() == k);
                assert(false);
            }
        }
    }
    assert forall|k: Seq<char>| auths2.contains_key(k) implies ids2.contains_key(
        auths2[k].identity(),
    ) && ids2[auths2[k].identity()] == auths2[k] by {
        if k != u.auth() {
            let v = auths[k];
            if v.identity() == u.identity() {
                assert(ids[v.identity()] == v);
                assert(ids.contains_key(u.identity()));
                assert(ids[u.identity()] == auths[u.auth()]);
                assert(auths[u.auth()].auth() == u.auth());
                assert(v.auth() == k);
                assert(false);
            }
        }
    }
}

/// Removing a user by identity, together with the auth index entry
/// keyed by that record's current auth string — exactly what
/// [`UsersMap::remove_user`] does — keeps the two indices consistent.
pub proof fn lemma_remove_user_consistent<T: User>(
    ids: Map<Seq<char>, T>,
    auths: Map<Seq<char>, T>,
    id: Seq<char>,
)
    requires
        indices_consistent(ids, auths),
        ids.contains_key(id),
    ensures
        indices_consistent(ids.remove(id), auths.remove(ids[id].auth())),
{
    let u = ids[id];
    let ids2 = ids.remove(id);
    let auths2 = auths.remove(u.auth());
    assert(u.identity() == id);
    assert forall|k: Seq<char>| ids2.contains_key(k) implies auths2.contains_key(ids2[k].auth())
        && auths2[ids2[k].auth()] == ids2[k] by {
        let w = ids[k];
        if w.auth() == u.auth() {
            assert(auths[w.auth()] == w);
            assert(auths[u.auth()] == u);
            assert(w.identity() == k);
            assert(false);
        }
    }
    assert forall|k: Seq<char>| auths2.contains_key(k) implies ids2.contains_key(
        auths2[k].identity(),
    ) && ids2[auths2[k].identity()] == auths2[k] by {
        let v = auths[k];
        if v.identity() == id {
            assert(ids[v.identity()] == v);
            assert(v.auth() == k);
            assert(auths[k].auth() == k);
            assert(false);
        }
    }
}

/// Removal cascade: after removing an identity and the auth entry keyed
/// by the removed record's auth string, neither that identity nor that
/// auth string resolves in its index.
pub proof fn lemma_remove_cascade<T: User>(
    ids: Map<Seq<char>, T>,
    auths: Map<Seq<char>, T>,
    id: Seq<char>,
)
    requires
        ids.contains_key(id),
    ensures
        !ids.remove(id).contains_key(id),
        !auths.remove(ids[id].auth()).contains_key(ids[id].auth()),
{
}

/// Authenticates users from a raw authentication string: the single
/// integration point for a calling middleware layer.
pub trait UserAuthenticator<T: User>: Sized {
    /// The authentication index this authenticator matches against.
    spec fn auth_index(&self) -> Map<Seq<char>, T>;

    /// Validity of the authenticator's internal state.
    spec fn auth_wf(&self) -> bool;

    /// Matches the raw string exactly against the authentication index
    /// and returns an owned copy of the matched user, or nothing.
    fn auth_user_by_authstr(&self, authstr: &str) -> (r: Option<T>)
        requires
            self.auth_wf(),
        ensures
            match r {
                Some(u) => self.auth_index().contains_key(authstr@) && u == self.auth_index()[
                    authstr@
                ],
                None => !self.auth_index().contains_key(authstr@),
            },
    ;
}

impl<T: User> UserAuthenticator<T> for UsersMap<T> {
    open spec fn auth_index(&self) -> Map<Seq<char>, T> {
        self.auth_view()
    }

    open spec fn auth_wf(&self) -> bool {
        self.wf()
    }

    fn auth_user_by_authstr(&self, authstr: &str) -> (r: Option<T>)
        ensures
            match r {
                Some(u) => self.auth_index().contains_key(authstr@) && u == self.auth_index()[
                    authstr@
                ],
                None => !self.auth_index().contains_key(authstr@),
            },
    {
        match find_key(&self.auth_map, authstr) {
            Some(i) => {
                proof {
                    lemma_entries_value(self.auth_map@, i as int);
                }
                Some(self.auth_map[i].1.duplicate())
            },
            None => {
                proof {
                    lemma_entries_contains(self.auth_map@, authstr@);
                }
                None
            },
        }
    }
}

} // verus!
