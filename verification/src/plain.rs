use crate::user::{User, UserTrait};
use vstd::prelude::*;
use vstd::string::{StrSliceExecFns, StringExecFns};
use vstd::utf8::encode_utf8;

verus! {

/// The authentication string of a plaintext credential:
/// `"plaintext:{user}\n{pass}"`.  The scheme prefix keeps plaintext
/// credentials from colliding with other schemes on the raw string space.
pub open spec fn plain_auth(user: Seq<char>, pass: Seq<char>) -> Seq<char> {
    "plaintext:"@ + user + "\n"@ + pass
}

/// The Unicode white-space code points: the class the parsing
/// constructor splits a combined "user pass" string on.
pub open spec fn is_space(c: char) -> bool {
    let u = c as u32;
    (0x09 <= u && u <= 0x0D) || u == 0x20 || u == 0x85 || u == 0xA0 || u == 0x1680 || (0x2000 <= u
        && u <= 0x200A) || u == 0x2028 || u == 0x2029 || u == 0x202F || u == 0x205F || u == 0x3000
}

/// Executable form of [`is_space`].
fn is_space_char(c: char) -> (r: bool)
    ensures
        r == is_space(c),
{
    let u = c as u32;
    (0x09 <= u && u <= 0x0D) || u == 0x20 || u == 0x85 || u == 0xA0 || u == 0x1680 || (0x2000 <= u
        && u <= 0x200A) || u == 0x2028 || u == 0x2029 || u == 0x202F || u == 0x205F || u == 0x3000
}

/// The username part of a combined "user pass" string: everything
/// before the first white-space character, or the whole string if none
/// occurs.
pub open spec fn user_part(s: Seq<char>) -> Seq<char>
    decreases s.len(),
{
    if s.len() == 0 {
        Seq::<char>::empty()
    } else if is_space(s[0]) {
        Seq::<char>::empty()
    } else {
        seq![s[0]] + user_part(s.skip(1))
    }
}

/// What remains of a string after dropping its leading white space.
pub open spec fn skip_spaces(s: Seq<char>) -> Seq<char>
    decreases s.len(),
{
    if s.len() == 0 {
        Seq::<char>::empty()
    } else if is_space(s[0]) {
        skip_spaces(s.skip(1))
    } else {
        s
    }
}

/// The password part of a combined "user pass" string: everything after
/// the first white-space run, or empty if no white space occurs.
pub open spec fn pass_part(s: Seq<char>) -> Seq<char>
    decreases s.len(),
{
    if s.len() == 0 {
        Seq::<char>::empty()
    } else if is_space(s[0]) {
        skip_spaces(s.skip(1))
    } else {
        pass_part(s.skip(1))
    }
}

proof fn lemma_user_part_prefix(s: Seq<char>, i: int)
    requires
        0 <= i <= s.len(),
        forall|k: int| 0 <= k < i ==> !is_space(s[k]),
        i == s.len() || is_space(s[i]),
    ensures
        user_part(s) == s.subrange(0, i),
    decreases s.len(),
{
    if s.len() == 0 {
        assert(user_part(s) =~= s.subrange(0, 0));
    } else if is_space(s[0]) {
        assert(i == 0);
        assert(user_part(s) =~= s.subrange(0, 0));
    } else {
        assert(i >= 1);
        assert forall|k: int| 0 <= k < i - 1 implies !is_space(s.skip(1)[k]) by {
            assert(!is_space(s[k + 1]));
        }
        lemma_user_part_prefix(s.skip(1), i - 1);
        assert(seq![s[0]] + s.skip(1).subrange(0, i - 1) =~= s.subrange(0, i));
    }
}

proof fn lemma_skip_spaces_at(s: Seq<char>, j: int)
    requires
        0 <= j <= s.len(),
        forall|k: int| 0 <= k < j ==> is_space(s[k]),
        j == s.len() || !is_space(s[j]),
    ensures
        skip_spaces(s) == s.subrange(j, s.len() as int),
    decreases j,
{
    if j == 0 {
        assert(s.subrange(0, s.len() as int) =~= s);
    } else {
        assert(is_space(s[0]));
        assert forall|k: int| 0 <= k < j - 1 implies is_space(s.skip(1)[k]) by {
            assert(is_space(s[k + 1]));
        }
        lemma_skip_spaces_at(s.skip(1), j - 1);
        assert(s.skip(1).subrange(j - 1, s.skip(1).len() as int) =~= s.subrange(
            j,
            s.len() as int,
        ));
    }
}

proof fn lemma_pass_part_at(s: Seq<char>, i: int, j: int)
    requires
        0 <= i < s.len(),
        forall|k: int| 0 <= k < i ==> !is_space(s[k]),
        is_space(s[i]),
        i <= j <= s.len(),
        forall|k: int| i <= k < j ==> is_space(s[k]),
        j == s.len() || !is_space(s[j]),
    ensures
        pass_part(s) == s.subrange(j, s.len() as int),
    decreases i,
{
    if i == 0 {
        assert(j >= 1);
        assert forall|k: int| 0 <= k < j - 1 implies is_space(s.skip(1)[k]) by {
            assert(is_space(s[k + 1]));
        }
        lemma_skip_spaces_at(s.skip(1), j - 1);
        assert(s.skip(1).subrange(j - 1, s.skip(1).len() as int) =~= s.subrange(
            j,
            s.len() as int,
        ));
    } else {
        assert(!is_space(s[0]));
        assert forall|k: int| 0 <= k < i - 1 implies !is_space(s.skip(1)[k]) by {
            assert(!is_space(s[k + 1]));
        }
        assert forall|k: int| i - 1 <= k < j - 1 implies is_space(s.skip(1)[k]) by {
            assert(is_space(s[k + 1]));
        }
        lemma_pass_part_at(s.skip(1), i - 1, j - 1);
        assert(s.skip(1).subrange(j - 1, s.skip(1).len() as int) =~= s.subrange(
            j,
            s.len() as int,
        ));
    }
}

proof fn lemma_pass_part_none(s: Seq<char>)
    requires
        forall|k: int| 0 <= k < s.len() ==> !is_space(s[k]),
    ensures
        pass_part(s) == Seq::<char>::empty(),
    decreases s.len(),
{
    if s.len() == 0 {
    } else {
        assert forall|k: int| 0 <= k < s.skip(1).len() implies !is_space(s.skip(1)[k]) by {
            assert(!is_space(s[k + 1]));
        }
        lemma_pass_part_none(s.skip(1));
    }
}

/// A user with a plaintext username and password.
///
/// The authentication string is precomputed at construction and frozen:
/// later writes to the public `user` or `pass` fields do not change what
/// [`PlainText::auth_str`] returns.
#[derive(Debug, Clone, PartialEq, Eq)]
pub struct PlainText {
    pub user: String,
    /// Stored in plaintext by design.  Callers needing confidentiality
    /// should supply their own [`UserTrait`] implementation.
    pub pass: String,
    auth_str: String,
}

impl PlainText {
    /// The password, as a sequence of characters.
    pub closed spec fn pass_chars(&self) -> Seq<char> {
        self.pass@
    }

    /// Creates a user with the given username and password; the
    /// authentication string is `"plaintext:{user}\n{pass}"`.
    pub fn new(user: String, pass: String) -> (r: Self)
        ensures
            r.identity() == user@,
            r.pass_chars() == pass@,
            r.auth() == plain_auth(user@, pass@),
    {
        let mut astr: String = "plaintext:".to_owned();
        astr.append(user.as_str());
        astr.append("\n");
        astr.append(pass.as_str());
        proof {
            assert(astr@ =~= plain_auth(user@, pass@));
        }
        PlainText { user, pass, auth_str: astr }
    }

    /// Builds a user from a single string holding both username and
    /// password: the part before the first white-space run is the
    /// username, the part after it is the password.  A string without
    /// white space becomes a username with an empty password, and an
    /// empty string yields an empty username and password.
    pub fn parse(userpass: &str) -> (r: Self)
        ensures
            r.identity() == user_part(userpass@),
            r.pass_chars() == pass_part(userpass@),
            r.auth() == plain_auth(user_part(userpass@), pass_part(userpass@)),
    {
        let n = userpass.unicode_len();
        let mut i: usize = 0;
        while i < n && !is_space_char(userpass.get_char(i))
            invariant
                i <= n,
                n == userpass@.len(),
                forall|k: int| 0 <= k < i ==> !is_space(userpass@[k]),
            decreases n - i,
        {
            i = i + 1;
        }
        let user_s: &str = userpass.substring_char(0, i);
        proof {
            lemma_user_part_prefix(userpass@, i as int);
        }
        let mut j: usize = i;
        while j < n && is_space_char(userpass.get_char(j))
            invariant
                i <= j <= n,
                n == userpass@.len(),
                forall|k: int| i <= k < j ==> is_space(userpass@[k]),
            decreases n - j,
        {
            j = j + 1;
        }
        let pass_s: &str = userpass.substring_char(j, n);
        proof {
            if i < n {
                lemma_pass_part_at(userpass@, i as int, j as int);
            } else {
                lemma_pass_part_none(userpass@);
                assert(pass_s@ =~= Seq::<char>::empty());
            }
        }
        PlainText::new(user_s.to_owned(), pass_s.to_owned())
    }

    /// True iff the username is non-empty.
    pub fn valid(&self) -> (r: bool)
        ensures
            r == (self.identity().len() != 0),
    {
        !self.user.as_str().is_empty()
    }

    /// True iff both the username and the password are non-empty.
    pub fn password_non_empty(&self) -> (r: bool)
        ensures
            r == (self.identity().len() != 0 && self.pass_chars().len() != 0),
    {
        !self.user.as_str().is_empty() && !self.pass.as_str().is_empty()
    }

    /// Returns the frozen authentication string.
    pub fn auth_str(&self) -> (r: &str)
        ensures
            r@ == self.auth(),
    {
        self.auth_str.as_str()
    }
}

impl Default for PlainText {
    /// An empty user: all three strings empty.  Note that the frozen
    /// authentication string of a default value is empty, not
    /// `plain_auth` of two empty strings.
    fn default() -> (r: Self)
        ensures
            r.identity() == Seq::<char>::empty(),
            r.pass_chars() == Seq::<char>::empty(),
            r.auth() == Seq::<char>::empty(),
    {
        PlainText { user: String::new(), pass: String::new(), auth_str: String::new() }
    }
}

impl UserTrait for PlainText {
    closed spec fn identity(&self) -> Seq<char> {
        self.user@
    }

    closed spec fn auth(&self) -> Seq<char> {
        self.auth_str@
    }

    closed spec fn identity_bytes_spec(&self) -> Seq<u8> {
        encode_utf8(self.user@)
    }

    closed spec fn auth_bytes_spec(&self) -> Seq<u8> {
        encode_utf8(self.auth_str@)
    }

    fn identity_str(&self) -> (r: &str)
        ensures
            r@ == self.identity(),
    {
        self.user.as_str()
    }

    fn identity_bytes(&self) -> (r: &[u8])
        ensures
            r@ == self.identity_bytes_spec(),
    {
        self.user.as_str().as_bytes()
    }

    fn auth_str(&self) -> (r: &str)
        ensures
            r@ == self.auth(),
    {
        self.auth_str.as_str()
    }

    fn auth_bytes(&self) -> (r: &[u8])
        ensures
            r@ == self.auth_bytes_spec(),
    {
        self.auth_str.as_str().as_bytes()
    }
}

impl User for PlainText {
    fn duplicate(&self) -> (r: Self)
        ensures
            r == *self,
    {
        let r = PlainText {
            user: self.user.clone(),
            pass: self.pass.clone(),
            auth_str: self.auth_str.clone(),
        };
        proof {
            assert(r =~= *self);
        }
        r
    }
}

} // verus!
