use crate::user::{User, UserTrait};
use core::cmp::Ordering;
use std::collections::hash_map::DefaultHasher;
use std::hash::Hasher;
use vstd::prelude::*;
use vstd::std_specs::cmp::{PartialEqSpecImpl, PartialOrdSpecImpl};
use vstd::std_specs::hash::DefaultHasherAdditionalSpecFns;
use vstd::utf8::{encode_utf8, encode_utf8_decode_utf8};

verus! {

/// Lexicographic three-way comparison of two character sequences by
/// code point, the order `str` comparison follows for UTF-8 text.
pub open spec fn lex_cmp_chars(a: Seq<char>, b: Seq<char>) -> Ordering
    decreases a.len(),
{
    if a.len() == 0 && b.len() == 0 {
        Ordering::Equal
    } else if a.len() == 0 {
        Ordering::Less
    } else if b.len() == 0 {
        Ordering::Greater
    } else if a[0] < b[0] {
        Ordering::Less
    } else if b[0] < a[0] {
        Ordering::Greater
    } else {
        lex_cmp_chars(a.skip(1), b.skip(1))
    }
}

proof fn lemma_lex_skip(a: Seq<char>, b: Seq<char>, i: int)
    requires
        0 <= i <= a.len(),
        i <= b.len(),
        forall|k: int| 0 <= k < i ==> a[k] == b[k],
    ensures
        lex_cmp_chars(a, b) == lex_cmp_chars(a.skip(i), b.skip(i)),
    decreases i,
{
    if i == 0 {
        assert(a.skip(0) =~= a);
        assert(b.skip(0) =~= b);
    } else {
        assert(a[0] == b[0]);
        lemma_lex_skip(a.skip(1), b.skip(1), i - 1);
        assert(a.skip(1).skip(i - 1) =~= a.skip(i));
        assert(b.skip(1).skip(i - 1) =~= b.skip(i));
    }
}

/// A wrapper for one boxed user, whose equality and ordering are
/// derived solely from the wrapped user's authentication string.
pub struct UserBox<U: User>(pub Box<U>);

impl<U: User> UserBox<U> {
    /// The wrapped user's identity string.
    pub open spec fn identity(self) -> Seq<char> {
        (*self.0).identity()
    }

    /// The wrapped user's authentication string: the sole basis of this
    /// record's equality and ordering.
    pub open spec fn auth(self) -> Seq<char> {
        (*self.0).auth()
    }

    /// Returns a record equal to this one, duplicating the wrapped
    /// user.
    pub fn duplicate(&self) -> (r: Self)
        ensures
            r == *self,
    {
        let u = self.0.duplicate();
        let r = UserBox(Box::new(u));
        proof {
            assert(r.0 == self.0);
        }
        r
    }

    /// Hash derived solely from the authentication string, whose UTF-8
    /// bytes are fed to a fresh hasher: records with equal auth strings
    /// hash alike whatever their identities.
    pub fn auth_hash(&self) -> (r: u64)
        ensures
            r == DefaultHasher::spec_finish(seq![encode_utf8(self.auth())]),
    {
        let mut h = DefaultHasher::new();
        let s: &str = self.0.auth_str();
        h.write(s.as_bytes());
        proof {
            assert(h@ =~= seq![encode_utf8(self.auth())]);
        }
        h.finish()
    }

    /// Three-way comparison by authentication string alone, in
    /// code-point lexicographic order.
    pub fn cmp_by_auth(&self, other: &Self) -> (r: Ordering)
        ensures
            r == lex_cmp_chars(self.auth(), other.auth()),
    {
        let a: &str = self.0.auth_str();
        let b: &str = other.0.auth_str();
        let an = a.unicode_len();
        let bn = b.unicode_len();
        let mut i: usize = 0;
        while i < an && i < bn
            invariant
                i <= an,
                i <= bn,
                an == a@.len(),
                bn == b@.len(),
                a@ == self.auth(),
                b@ == other.auth(),
                forall|k: int| 0 <= k < i ==> a@[k] == b@[k],
            decreases an - i,
        {
            let ca = a.get_char(i);
            let cb = b.get_char(i);
            if (ca as u32) < (cb as u32) {
                proof {
                    lemma_lex_skip(a@, b@, i as int);
                }
                return Ordering::Less;
            }
            if (cb as u32) < (ca as u32) {
                proof {
                    lemma_lex_skip(a@, b@, i as int);
                }
                return Ordering::Greater;
            }
            i = i + 1;
        }
        proof {
            lemma_lex_skip(a@, b@, i as int);
        }
        if an == bn {
            Ordering::Equal
        } else if an < bn {
            Ordering::Less
        } else {
            Ordering::Greater
        }
    }
}

impl<U: User> PartialEq for UserBox<U> {
    fn eq(&self, other: &Self) -> (r: bool) {
        let a: String = self.0.auth_str().to_owned();
        let b: String = other.0.auth_str().to_owned();
        a == b
    }
}

impl<U: User> Eq for UserBox<U> {}

impl<U: User> PartialEqSpecImpl for UserBox<U> {
    open spec fn obeys_eq_spec() -> bool {
        true
    }

    open spec fn eq_spec(&self, other: &UserBox<U>) -> bool {
        self.auth() == other.auth()
    }
}

impl<U: User> PartialOrd for UserBox<U> {
    fn partial_cmp(&self, other: &Self) -> (r: Option<Ordering>) {
        Some(self.cmp_by_auth(other))
    }
}

impl<U: User> PartialOrdSpecImpl for UserBox<U> {
    open spec fn obeys_partial_cmp_spec() -> bool {
        true
    }

    open spec fn partial_cmp_spec(&self, other: &UserBox<U>) -> Option<Ordering> {
        Some(lex_cmp_chars(self.auth(), other.auth()))
    }
}

/// Records are compared and hashed by authentication string alone:
/// equal auth strings make equal records that hash alike, whatever the
/// identity strings are.
pub proof fn lemma_record_eq_by_auth_only<U: User>(a: UserBox<U>, b: UserBox<U>)
    requires
        a.auth() == b.auth(),
    ensures
        vstd::std_specs::cmp::PartialEqSpec::eq_spec(&a, &b),
        DefaultHasher::spec_finish(seq![encode_utf8(a.auth())]) == DefaultHasher::spec_finish(
            seq![encode_utf8(b.auth())],
        ),
{
}

/// An ordered sequence of user records whose equality and hashing are
/// order-sensitive: the same records in a different order make a
/// different collection, by design.
pub struct UserVec<U: User>(pub Vec<UserBox<U>>);

impl<U: User> UserVec<U> {
    /// The authentication strings of the records, in sequence order.
    pub open spec fn auths(self) -> Seq<Seq<char>> {
        self.0@.map_values(|b: UserBox<U>| b.auth())
    }

    /// The UTF-8 bytes of each record's authentication string, in
    /// sequence order: the write sequence the order-sensitive hash
    /// feeds to the hasher.
    pub open spec fn hash_writes(self) -> Seq<Seq<u8>> {
        self.0@.map_values(|b: UserBox<U>| encode_utf8(b.auth()))
    }

    /// Returns a collection holding a duplicate of each record, in the
    /// same order.
    pub fn duplicate(&self) -> (r: Self)
        ensures
            r.0@ == self.0@,
    {
        let mut out: Vec<UserBox<U>> = Vec::new();
        let n = self.0.len();
        let mut i: usize = 0;
        while i < n
            invariant
                n == self.0@.len(),
                i <= n,
                out@.len() == i,
                forall|k: int| 0 <= k < i ==> out@[k] == self.0@[k],
            decreases n - i,
        {
            out.push(self.0[i].duplicate());
            i = i + 1;
        }
        proof {
            assert(out@ =~= self.0@);
        }
        UserVec(out)
    }

    /// Order-sensitive hash: each record's authentication string is fed
    /// to a fresh hasher in sequence order, so collections holding the
    /// same records in different orders feed different write sequences.
    pub fn order_hash(&self) -> (r: u64)
        ensures
            r == DefaultHasher::spec_finish(self.hash_writes()),
    {
        let mut h = DefaultHasher::new();
        let n = self.0.len();
        let mut i: usize = 0;
        while i < n
            invariant
                n == self.0@.len(),
                i <= n,
                h@ == self.hash_writes().take(i as int),
            decreases n - i,
        {
            let s: &str = self.0[i].0.auth_str();
            h.write(s.as_bytes());
            proof {
                assert(h@ =~= self.hash_writes().take(i as int + 1));
            }
            i = i + 1;
        }
        proof {
            assert(self.hash_writes().take(n as int) =~= self.hash_writes());
        }
        h.finish()
    }
}

impl<U: User> PartialEq for UserVec<U> {
    fn eq(&self, other: &Self) -> (r: bool) {
        let n = self.0.len();
        if n != other.0.len() {
            return false;
        }
        let mut i: usize = 0;
        while i < n
            invariant
                n == self.0@.len(),
                n == other.0@.len(),
                i <= n,
                forall|k: int| 0 <= k < i ==> self.0@[k].auth() == other.0@[k].auth(),
            decreases n - i,
        {
            if !(self.0[i] == other.0[i]) {
                proof {
                    assert(self.auths()[i as int] != other.auths()[i as int]);
                }
                return false;
            }
            i = i + 1;
        }
        proof {
            assert(self.auths() =~= other.auths());
        }
        true
    }
}

impl<U: User> Eq for UserVec<U> {}

impl<U: User> PartialEqSpecImpl for UserVec<U> {
    open spec fn obeys_eq_spec() -> bool {
        true
    }

    open spec fn eq_spec(&self, other: &UserVec<U>) -> bool {
        self.auths() == other.auths()
    }
}

impl<U: User> Default for UserVec<U> {
    /// An empty collection.
    fn default() -> (r: Self)
        ensures
            r.auths() == Seq::<Seq<char>>::empty(),
    {
        let r = UserVec(Vec::new());
        proof {
            assert(r.auths() =~= Seq::<Seq<char>>::empty());
        }
        r
    }
}

/// Order sensitivity: two collections holding the same two records in
/// opposite orders are unequal whenever the records' auth strings
/// differ, and their order-sensitive hashes are computed from unequal
/// write sequences.
pub proof fn lemma_order_sensitivity<U: User>(
    v1: UserVec<U>,
    v2: UserVec<U>,
    a: UserBox<U>,
    b: UserBox<U>,
)
    requires
        a.auth() != b.auth(),
        v1.0@ == seq![a, b],
        v2.0@ == seq![b, a],
    ensures
        !vstd::std_specs::cmp::PartialEqSpec::eq_spec(&v1, &v2),
        v1.hash_writes() != v2.hash_writes(),
{
    assert(v1.auths()[0] == a.auth());
    assert(v2.auths()[0] == b.auth());
    assert(v1.hash_writes()[0] == encode_utf8(a.auth()));
    assert(v2.hash_writes()[0] == encode_utf8(b.auth()));
    encode_utf8_decode_utf8(a.auth());
    encode_utf8_decode_utf8(b.auth());
}

} // verus!
