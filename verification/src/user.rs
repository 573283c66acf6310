use vstd::prelude::*;

verus! {

/// Capability for user identification and authentication.
///
/// The spec functions `identity()` and `auth()` model the strings the
/// executable accessors return; `identity_bytes_spec()` and
/// `auth_bytes_spec()` model the byte forms, which an implementation may
/// derive from the strings or choose independently.
///
/// Implementations must prefix `auth_str` with a scheme tag (for example
/// `"plaintext:u\np"`) so that distinct credential schemes cannot collide
/// on the same raw string, and must never change `auth_str` after
/// construction: string equality of `auth()` is the library's notion of
/// "same credential".
pub trait UserTrait: Sized {
    /// The identity string as a sequence of characters: a stable, public
    /// identifier such as a username.
    spec fn identity(&self) -> Seq<char>;

    /// The scheme-prefixed authentication string as a sequence of
    /// characters.
    spec fn auth(&self) -> Seq<char>;

    /// The byte form of the identity.
    spec fn identity_bytes_spec(&self) -> Seq<u8>;

    /// The byte form of the authentication string.
    spec fn auth_bytes_spec(&self) -> Seq<u8>;

    /// Returns the unique string identifier of the user.
    fn identity_str(&self) -> (r: &str)
        ensures
            r@ == self.identity(),
    ;

    /// Returns the identity as bytes.
    fn identity_bytes(&self) -> (r: &[u8])
        ensures
            r@ == self.identity_bytes_spec(),
    ;

    /// Returns the string used to authenticate the user.
    fn auth_str(&self) -> (r: &str)
        ensures
            r@ == self.auth(),
    ;

    /// Returns the authentication string as bytes.
    fn auth_bytes(&self) -> (r: &[u8])
        ensures
            r@ == self.auth_bytes_spec(),
    ;
}

/// A [`UserTrait`] implementation that can also be duplicated.
///
/// Duplication must yield a value equal to the original, so that a copy
/// handed out by a registry carries the same identity and authentication
/// strings as the stored record.
pub trait User: UserTrait {
    /// Returns a copy of this user equal to the original.
    fn duplicate(&self) -> (r: Self)
        ensures
            r == *self,
    ;
}

} // verus!
