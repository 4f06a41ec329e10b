//! Authenticate by ssh-key: verifies a signature over a challenge by the
//! presented key.
//!
//! A peer presents the fingerprint of its public key, with the signature it
//! made riding as the `ssh-key.signature` proof and what it was made over as
//! `ssh-key.session`, both base64. This gate finds the key with that
//! fingerprint among the `authorized_keys` lines the node holds (a fingerprint
//! no held key has is refused before any arithmetic) and verifies the
//! signature blob over the session bytes with it: `ssh-ed25519`,
//! `ecdsa-sha2-nistp256` and `rsa-sha2-256`, see [`key`]. Offline throughout:
//! the keys are configuration.
//!
//! The session bytes are verified exactly as the transport reported them; this
//! gate does not rebuild what the client signed. Where they have the shape RFC
//! 4252 section 7 gives the signed data (the session identifier, the user name,
//! the service, `publickey`, the algorithm and the key blob) they are also
//! read: the key blob inside must be the authorized key's, and the user name
//! inside is the user the key must be authorized for. Where they are an opaque
//! challenge, the user is what the transport reported as `ssh.user` evidence,
//! if it reported one. A key narrowed to one user with
//! [`AuthorizedKey::for_user`] is refused where neither names that user.
//!
//! Not verified, and refused by name: `ssh-rsa` signatures (SHA-1),
//! `rsa-sha2-512`, the nistp384 and nistp521 curves, `ssh-dss`, OpenSSH
//! certificates and `sk-` security-key types, and `authorized_keys` options.
//! That the session identifier is this connection's is the transport's to
//! know; this gate cannot see the key exchange.
//!
//! Each function's contract says exactly what it returns. The spec functions
//! beside it are the model, from [`wire`] and [`encoding`] over [`key`] to
//! [`gate`], and [`laws`] states what follows for the library as a whole. The
//! few functions that call other crates, most of them in [`crypto`] and
//! [`encoding`], have contracts that are trusted.

pub mod crypto;
pub mod cursor;
pub mod encoding;
pub mod error;
pub mod gate;
pub mod key;
pub mod laws;
pub mod mechanism;
pub mod presented;
pub mod signed;
pub mod text;
pub mod wire;

pub use error::AuthenticateError;
pub use gate::{Verifier, SESSION_PROOF, SIGNATURE_PROOF, USER};
pub use key::AuthorizedKey;
pub use mechanism::Mechanism;
pub use presented::{Presented, Verified};
