//! User identity and authentication primitives: a polymorphic user
//! capability, a reference plaintext credential type, order-sensitive
//! collections of user records, and a dual-indexed in-memory registry
//! that resolves users by identity string or by authentication string.

mod plain;
mod record;
mod registry;
mod user;

pub use plain::is_space;
pub use plain::pass_part;
pub use plain::plain_auth;
pub use plain::skip_spaces;
pub use plain::user_part;
pub use plain::PlainText;
pub use record::lemma_order_sensitivity;
pub use record::lemma_record_eq_by_auth_only;
pub use record::lex_cmp_chars;
pub use record::UserBox;
pub use record::UserVec;
pub use registry::entries_map;
pub use registry::indices_consistent;
pub use registry::keys_distinct;
pub use registry::lemma_add_round_trip;
pub use registry::lemma_add_user_consistent;
pub use registry::lemma_empty_consistent;
pub use registry::lemma_remove_cascade;
pub use registry::lemma_remove_user_consistent;
pub use registry::UserAuthenticator;
pub use registry::UsersMap;
pub use user::User;
pub use user::UserTrait;
