//! A public key the node holds as authorized, and the check of one
//! signature made with it.
//!
//! A key is configured as OpenSSH writes it in `authorized_keys`: the key
//! type, the base64 of the key blob, a comment. The blob is RFC 4253 section
//! 6.6 for `ssh-rsa` (`e` then `n`), RFC 5656 section 3.1 for
//! `ecdsa-sha2-nistp256` (the curve name then the point) and RFC 8709
//! section 4 for `ssh-ed25519` (the thirty-two bytes). A signature is a blob
//! too: the signature algorithm's name and the signature, which is raw for
//! Ed25519, `r` and `s` as integers for ECDSA, and for RSA the PKCS #1 v1.5
//! signature under `rsa-sha2-256` (RFC 8332). An `ssh-rsa` key is one key type
//! and three signature algorithms; only the SHA-256 one is verified here.
//!
//! A line that carries options (`from=`, `command=`, `restrict`) is refused:
//! they narrow what the key may do, this gate cannot enforce them, and
//! honoring the key while ignoring them would widen it silently.

use vstd::prelude::*;
use vstd::slice::slice_to_vec;
use vstd::string::*;

use crate::crypto::{
    ed25519_is_usable, ed25519_usable, ed25519_verifies, ed25519_verify, p256_is_usable,
    p256_usable, p256_verifies, p256_verify, rsa_is_usable, rsa_usable, rsa_verifies, rsa_verify,
    sha256, sha256_digest,
};
use crate::cursor::{be_value, Cursor};
use crate::encoding::{decode, decoded, encode_unpadded, unpadded};
use crate::error::{outcome, AuthenticateError};
use crate::text::{chars_of, join_from, joined, same, split_words, text_of, words};
use crate::wire::{
    after_string, padded, read_mpint, read_string, read_text, significant, widen, widened, Ssh,
};

verus! {

/// The key type and signature algorithm of Ed25519.
pub const ED25519: &'static str = "ssh-ed25519";

/// The key type and signature algorithm of ECDSA over nistp256.
pub const ECDSA_P256: &'static str = "ecdsa-sha2-nistp256";

/// The key type of RSA, and its signature algorithm with SHA-1.
pub const RSA: &'static str = "ssh-rsa";

/// The signature algorithm of RSA with SHA-256.
pub const RSA_SHA256: &'static str = "rsa-sha2-256";

/// What a key blob holds behind the name of its type.
#[derive(Debug)]
pub enum Material {
    /// The compressed point of an Ed25519 key.
    Ed25519([u8; 32]),
    /// The SEC1 encoding of a point on nistp256.
    P256(Vec<u8>),
    /// The integers of an RSA key, big-endian and without leading zeros.
    Rsa { exponent: Vec<u8>, modulus: Vec<u8> },
}

/// The bytes of a [`Material`].
#[verifier::ext_equal]
pub enum MaterialView {
    Ed25519(Seq<u8>),
    P256(Seq<u8>),
    Rsa { exponent: Seq<u8>, modulus: Seq<u8> },
}

impl View for Material {
    type V = MaterialView;

    open spec fn view(&self) -> MaterialView {
        match *self {
            Material::Ed25519(key) => MaterialView::Ed25519(key@),
            Material::P256(point) => MaterialView::P256(point@),
            Material::Rsa { exponent, modulus } => MaterialView::Rsa {
                exponent: exponent@,
                modulus: modulus@,
            },
        }
    }
}

impl Clone for Material {
    fn clone(&self) -> (copy: Self)
        ensures
            copy@ == self@,
    {
        match self {
            Material::Ed25519(key) => Material::Ed25519(*key),
            Material::P256(point) => Material::P256(slice_to_vec(point.as_slice())),
            Material::Rsa { exponent, modulus } => Material::Rsa {
                exponent: slice_to_vec(exponent.as_slice()),
                modulus: slice_to_vec(modulus.as_slice()),
            },
        }
    }
}

/// A key type whose signatures are verified here.
pub open spec fn is_key_type(named: Seq<char>) -> bool {
    named == ED25519@ || named == ECDSA_P256@ || named == RSA@
}

/// The Ed25519 key at the front of `bytes`, and what is left behind it.
pub open spec fn ed25519_fields(bytes: Seq<u8>) -> Result<(MaterialView, Seq<u8>), Seq<char>> {
    match read_string(bytes, "key blob"@) {
        Err(refusal) => Err(refusal),
        Ok(key) => if key.len() != 32 {
            Err("an Ed25519 key is thirty-two bytes"@)
        } else {
            Ok((MaterialView::Ed25519(key), after_string(bytes)))
        },
    }
}

/// The curve name and the point at the front of `bytes`, and what is left
/// behind them.
pub open spec fn p256_fields(bytes: Seq<u8>) -> Result<(MaterialView, Seq<u8>), Seq<char>> {
    match read_text(bytes, "key blob"@) {
        Err(refusal) => Err(refusal),
        Ok(curve) => if curve != "nistp256"@ {
            Err(
                "the ECDSA key's curve is '"@ + curve + "' and this node verifies nistp256"@,
            )
        } else {
            match read_string(after_string(bytes), "key blob"@) {
                Err(refusal) => Err(refusal),
                Ok(point) => Ok((MaterialView::P256(point), after_string(after_string(bytes)))),
            }
        },
    }
}

/// The exponent and the modulus at the front of `bytes`, and what is left
/// behind them.
pub open spec fn rsa_fields(bytes: Seq<u8>) -> Result<(MaterialView, Seq<u8>), Seq<char>> {
    match read_mpint(bytes, "key blob"@) {
        Err(refusal) => Err(refusal),
        Ok(exponent) => match read_mpint(after_string(bytes), "key blob"@) {
            Err(refusal) => Err(refusal),
            Ok(modulus) => Ok(
                (MaterialView::Rsa { exponent, modulus }, after_string(after_string(bytes))),
            ),
        },
    }
}

/// The fields of a key of the type `named` at the front of `bytes`, and what is
/// left behind them.
pub open spec fn key_fields(named: Seq<char>, bytes: Seq<u8>) -> Result<
    (MaterialView, Seq<u8>),
    Seq<char>,
> {
    if named == ED25519@ {
        ed25519_fields(bytes)
    } else if named == ECDSA_P256@ {
        p256_fields(bytes)
    } else {
        rsa_fields(bytes)
    }
}

/// The arithmetic takes this as a key.
pub open spec fn usable(material: MaterialView) -> bool {
    match material {
        MaterialView::Ed25519(key) => ed25519_usable(key),
        MaterialView::P256(point) => p256_usable(point),
        MaterialView::Rsa { exponent, modulus } => rsa_usable(
            be_value(modulus),
            be_value(exponent),
        ),
    }
}

/// The refusal of fields that are no usable key of their type.
pub open spec fn unusable(material: MaterialView) -> Seq<char> {
    match material {
        MaterialView::Ed25519(_) => "the Ed25519 key is not a point on the curve"@,
        MaterialView::P256(_) => "the ECDSA key is not a point on nistp256"@,
        MaterialView::Rsa { .. } => "the RSA modulus and exponent are not a usable key"@,
    }
}

/// Fields as a key, given whether the arithmetic takes them as one and what is
/// left behind them.
pub open spec fn admission(material: MaterialView, usable: bool, rest: Seq<u8>) -> Result<
    MaterialView,
    Seq<char>,
> {
    if !usable {
        Err(unusable(material))
    } else if rest.len() != 0 {
        Err("the key blob carries more than its key"@)
    } else {
        Ok(material)
    }
}

/// The key of the type `named` that a blob is.
pub open spec fn key_of_blob(named: Seq<char>, blob: Seq<u8>) -> Result<MaterialView, Seq<char>> {
    match read_text(blob, "key blob"@) {
        Err(refusal) => Err(refusal),
        Ok(inner) => if inner != named {
            Err("the authorized key line says "@ + named + " and its blob says "@ + inner)
        } else {
            match key_fields(named, after_string(blob)) {
                Err(refusal) => Err(refusal),
                Ok((material, rest)) => admission(material, usable(material), rest),
            }
        },
    }
}

/// The Ed25519 key at the front of the reader.
fn ed25519(reader: &mut Cursor<'_>) -> (read: Result<Material, AuthenticateError>)
    ensures
        match read {
            Ok(material) => ed25519_fields(old(reader)@) == Ok::<(MaterialView, Seq<u8>), Seq<char>>(
                (material@, final(reader)@),
            ),
            Err(refusal) => ed25519_fields(old(reader)@) == Err::<
                (MaterialView, Seq<u8>),
                Seq<char>,
            >(refusal.message@),
        },
{
    let bytes = reader.string("key blob")?;
    if bytes.len() != 32 {
        return Err(AuthenticateError::new("an Ed25519 key is thirty-two bytes".to_owned()));
    }
    match padded::<32>(bytes) {
        Some(key) => Ok(Material::Ed25519(key)),
        None => Err(AuthenticateError::new("an Ed25519 key is thirty-two bytes".to_owned())),
    }
}

/// The nistp256 point at the front of the reader.
fn p256_point(reader: &mut Cursor<'_>) -> (read: Result<Material, AuthenticateError>)
    ensures
        match read {
            Ok(material) => p256_fields(old(reader)@) == Ok::<(MaterialView, Seq<u8>), Seq<char>>(
                (material@, final(reader)@),
            ),
            Err(refusal) => p256_fields(old(reader)@) == Err::<
                (MaterialView, Seq<u8>),
                Seq<char>,
            >(refusal.message@),
        },
{
    let curve = reader.text("key blob")?;
    if !same(curve, "nistp256") {
        return Err(
            AuthenticateError::new(
                String::from_str("the ECDSA key's curve is '").concat(curve).concat(
                    "' and this node verifies nistp256",
                ),
            ),
        );
    }
    let point = reader.string("key blob")?;
    Ok(Material::P256(slice_to_vec(point)))
}

/// The exponent and modulus at the front of the reader.
fn rsa_key(reader: &mut Cursor<'_>) -> (read: Result<Material, AuthenticateError>)
    ensures
        match read {
            Ok(material) => rsa_fields(old(reader)@) == Ok::<(MaterialView, Seq<u8>), Seq<char>>(
                (material@, final(reader)@),
            ),
            Err(refusal) => rsa_fields(old(reader)@) == Err::<
                (MaterialView, Seq<u8>),
                Seq<char>,
            >(refusal.message@),
        },
{
    let exponent = reader.mpint("key blob")?;
    let modulus = reader.mpint("key blob")?;
    Ok(Material::Rsa { exponent: slice_to_vec(exponent), modulus: slice_to_vec(modulus) })
}

impl Material {
    /// Whether the arithmetic takes this as a key.
    pub fn is_usable(&self) -> (is: bool)
        ensures
            is == usable(self@),
    {
        match self {
            Material::Ed25519(key) => ed25519_is_usable(key),
            Material::P256(point) => p256_is_usable(point.as_slice()),
            Material::Rsa { exponent, modulus } => rsa_is_usable(
                modulus.as_slice(),
                exponent.as_slice(),
            ),
        }
    }

    /// These fields as a key, given whether the arithmetic takes them as one
    /// and the reader behind them.
    pub fn admitted(self, usable: bool, reader: &Cursor<'_>) -> (admitted: Result<
        Self,
        AuthenticateError,
    >)
        ensures
            outcome(admitted) == admission(self@, usable, reader@),
            admitted matches Ok(material) ==> material == self,
    {
        if !usable {
            let refusal = match self {
                Material::Ed25519(_) => "the Ed25519 key is not a point on the curve",
                Material::P256(_) => "the ECDSA key is not a point on nistp256",
                Material::Rsa { .. } => "the RSA modulus and exponent are not a usable key",
            };
            return Err(AuthenticateError::new(refusal.to_owned()));
        }
        if !reader.is_empty() {
            return Err(AuthenticateError::new("the key blob carries more than its key".to_owned()));
        }
        Ok(self)
    }

    /// The key of the type `named` that a blob is.
    ///
    /// Refused where the blob is of another type or not that type's key.
    fn of_blob(named: &str, blob: &[u8]) -> (read: Result<Self, AuthenticateError>)
        requires
            is_key_type(named@),
        ensures
            outcome(read) == key_of_blob(named@, blob@),
    {
        let mut reader = Cursor::new(blob);
        let inner = reader.text("key blob")?;
        if !same(inner, named) {
            return Err(
                AuthenticateError::new(
                    String::from_str("the authorized key line says ").concat(named).concat(
                        " and its blob says ",
                    ).concat(inner),
                ),
            );
        }
        let material = if same(named, ED25519) {
            ed25519(&mut reader)?
        } else if same(named, ECDSA_P256) {
            p256_point(&mut reader)?
        } else {
            rsa_key(&mut reader)?
        };
        let usable = material.is_usable();
        material.admitted(usable, &reader)
    }
}

/// The type name that a key's blob starts with.
pub open spec fn key_type(material: MaterialView) -> Seq<char> {
    match material {
        MaterialView::Ed25519(_) => ED25519@,
        MaterialView::P256(_) => ECDSA_P256@,
        MaterialView::Rsa { .. } => RSA@,
    }
}

/// One key the node holds as authorized, for any user or for one.
#[derive(Debug)]
pub struct AuthorizedKey {
    blob: Vec<u8>,
    material: Material,
    user: Option<String>,
    comment: String,
}

/// What an [`AuthorizedKey`] is.
#[verifier::ext_equal]
pub struct KeyView {
    /// The key blob, as it travels on the wire.
    pub blob: Seq<u8>,
    /// The key that the blob is.
    pub material: MaterialView,
    /// The one user the key is authorized for, where it is narrowed to one.
    pub user: Option<Seq<char>>,
    /// What the line says behind the blob.
    pub comment: Seq<char>,
}

impl KeyView {
    /// The blob is the key's own, whole and usable.
    pub open spec fn well_formed(self) -> bool {
        key_of_blob(key_type(self.material), self.blob) == Ok::<MaterialView, Seq<char>>(
            self.material,
        )
    }
}

impl View for AuthorizedKey {
    type V = KeyView;

    closed spec fn view(&self) -> KeyView {
        KeyView {
            blob: self.blob@,
            material: self.material@,
            user: match self.user {
                Some(user) => Some(user@),
                None => None,
            },
            comment: self.comment@,
        }
    }
}

/// The refusal of a line that starts with no key type verified here.
pub open spec fn unknown_type(named: Seq<char>) -> Seq<char> {
    "the authorized key line starts with '"@ + named
        + "': options are not enforced here and are refused, and the key types verified are ssh-ed25519, ecdsa-sha2-nistp256 and ssh-rsa"@
}

/// The key that an `authorized_keys` line is: `<type> <base64> [comment]`.
pub open spec fn parsed_line(line: Seq<char>) -> Result<KeyView, Seq<char>> {
    let found = words(line);
    let named = if found.len() > 0 {
        found[0]
    } else {
        seq![]
    };
    if !is_key_type(named) {
        Err(unknown_type(named))
    } else if found.len() < 2 || decoded(found[1]) is None {
        Err("the authorized key's blob is not base64"@)
    } else {
        match key_of_blob(named, decoded(found[1])->0) {
            Err(refusal) => Err(refusal),
            Ok(material) => Ok(
                KeyView {
                    blob: decoded(found[1])->0,
                    material,
                    user: None,
                    comment: joined(found.skip(2)),
                },
            ),
        }
    }
}

/// A blob that is read as a key of some type is of the type that key has.
pub proof fn lemma_key_type(named: Seq<char>, blob: Seq<u8>)
    requires
        is_key_type(named),
        key_of_blob(named, blob) is Ok,
    ensures
        key_type(key_of_blob(named, blob)->Ok_0) == named,
{
}

/// `SHA256:<base64>` without padding, as OpenSSH prints it.
pub open spec fn fingerprint_text(digest: Seq<u8>) -> Seq<char> {
    "SHA256:"@ + unpadded(digest)
}

/// The fingerprint of a key blob.
pub open spec fn blob_fingerprint(blob: Seq<u8>) -> Seq<char> {
    fingerprint_text(sha256(blob)@)
}

/// A digest as OpenSSH prints it.
pub fn fingerprint_of(digest: &[u8; 32]) -> (text: String)
    ensures
        text@ == fingerprint_text(digest@),
{
    let encoded = encode_unpadded(digest);
    String::from_str("SHA256:").concat(encoded.as_str())
}

impl Clone for AuthorizedKey {
    fn clone(&self) -> (copy: Self)
        ensures
            copy@ == self@,
    {
        proof {
            use_type_invariant(self);
        }
        AuthorizedKey {
            blob: slice_to_vec(self.blob.as_slice()),
            material: self.material.clone(),
            user: match &self.user {
                Some(user) => Some(user.clone()),
                None => None,
            },
            comment: self.comment.clone(),
        }
    }
}

impl AuthorizedKey {
    #[verifier::type_invariant]
    closed spec fn inv(self) -> bool {
        self@.well_formed()
    }

    /// Read one `authorized_keys` line: `<type> <base64> [comment]`.
    ///
    /// Refused where the line carries options, names a key type this gate does
    /// not verify, or its blob is not that type's key.
    pub fn parse(line: &str) -> (parsed: Result<Self, AuthenticateError>)
        ensures
            outcome(parsed) == parsed_line(line@),
            parsed matches Ok(key) ==> key@.well_formed(),
    {
        let chars = chars_of(line);
        Self::parse_chars(chars.as_slice())
    }

    /// Read one `authorized_keys` line from its characters.
    pub(crate) fn parse_chars(line: &[char]) -> (parsed: Result<Self, AuthenticateError>)
        ensures
            outcome(parsed) == parsed_line(line@),
            parsed matches Ok(key) ==> key@.well_formed(),
    {
        let found = split_words(line);
        let named = if found.len() > 0 {
            text_of(found[0])
        } else {
            String::new()
        };
        let named = named.as_str();
        assert(words(line@).len() == found@.len());
        if !same(named, ED25519) && !same(named, ECDSA_P256) && !same(named, RSA) {
            return Err(
                AuthenticateError::new(
                    String::from_str("the authorized key line starts with '").concat(named).concat(
                        "': options are not enforced here and are refused, and the key types verified are ssh-ed25519, ecdsa-sha2-nistp256 and ssh-rsa",
                    ),
                ),
            );
        }
        let blob = if found.len() < 2 {
            None
        } else {
            decode(text_of(found[1]).as_str())
        };
        let blob = match blob {
            Some(blob) => blob,
            None => {
                return Err(
                    AuthenticateError::new("the authorized key's blob is not base64".to_owned()),
                );
            },
        };
        let comment = join_from(&found, 2);
        let material = Material::of_blob(named, blob.as_slice())?;
        proof {
            lemma_key_type(named@, blob@);
        }
        Ok(AuthorizedKey { blob, material, user: None, comment })
    }

    /// Authorized for this user only.
    #[must_use]
    pub fn for_user(self, user: &str) -> (narrowed: Self)
        ensures
            narrowed@ == (KeyView { user: Some(user@), ..self@ }),
            narrowed@.well_formed(),
    {
        proof {
            use_type_invariant(&self);
        }
        AuthorizedKey {
            blob: self.blob,
            material: self.material,
            user: Some(user.to_owned()),
            comment: self.comment,
        }
    }

    /// The one user this key is authorized for, where it is narrowed to one.
    #[must_use]
    pub fn user(&self) -> (user: Option<&str>)
        ensures
            match user {
                Some(user) => self@.user == Some(user@),
                None => self@.user is None,
            },
    {
        match &self.user {
            Some(user) => Some(user.as_str()),
            None => None,
        }
    }

    /// The line's comment, which by custom says whose key it is.
    #[must_use]
    pub fn comment(&self) -> (comment: &str)
        ensures
            comment@ == self@.comment,
    {
        self.comment.as_str()
    }

    /// The key blob, as it travels on the wire: whole, and of this key.
    #[must_use]
    pub fn blob(&self) -> (blob: &[u8])
        ensures
            blob@ == self@.blob,
            self@.well_formed(),
    {
        proof {
            use_type_invariant(self);
        }
        self.blob.as_slice()
    }

    /// `SHA256:<base64>` without padding, as OpenSSH prints it.
    #[must_use]
    pub fn fingerprint(&self) -> (text: String)
        ensures
            text@ == blob_fingerprint(self@.blob),
            self@.well_formed(),
    {
        proof {
            use_type_invariant(self);
        }
        fingerprint_of(&sha256_digest(self.blob.as_slice()))
    }
}

/// The arithmetic that decides one signature.
#[derive(Debug)]
pub enum Check<'a> {
    /// Whether an Ed25519 signature verifies.
    Ed25519 { key: &'a [u8; 32], signature: &'a [u8] },
    /// Whether an ECDSA signature verifies.
    P256 { point: &'a [u8], r: [u8; 32], s: [u8; 32] },
    /// Whether an RSA signature, as wide as the modulus or wider, verifies.
    Rsa { exponent: &'a [u8], modulus: &'a [u8], whole: Vec<u8> },
    /// None: an integer of the signature is too wide for the curve.
    Never,
}

/// The bytes of a [`Check`].
#[verifier::ext_equal]
pub enum CheckView {
    Ed25519 { key: Seq<u8>, signature: Seq<u8> },
    P256 { point: Seq<u8>, r: Seq<u8>, s: Seq<u8> },
    Rsa { exponent: Seq<u8>, modulus: Seq<u8>, whole: Seq<u8> },
    Never,
}

impl<'a> View for Check<'a> {
    type V = CheckView;

    open spec fn view(&self) -> CheckView {
        match *self {
            Check::Ed25519 { key, signature } => CheckView::Ed25519 {
                key: key@,
                signature: signature@,
            },
            Check::P256 { point, r, s } => CheckView::P256 { point: point@, r: r@, s: s@ },
            Check::Rsa { exponent, modulus, whole } => CheckView::Rsa {
                exponent: exponent@,
                modulus: modulus@,
                whole: whole@,
            },
            Check::Never => CheckView::Never,
        }
    }
}

/// The check of an ECDSA signature: two integers, each of which has to fit the
/// curve.
pub open spec fn ecdsa_check(point: Seq<u8>, raw: Seq<u8>) -> Result<CheckView, Seq<char>> {
    match read_mpint(raw, "ECDSA signature"@) {
        Err(refusal) => Err(refusal),
        Ok(r) => match read_mpint(after_string(raw), "ECDSA signature"@) {
            Err(refusal) => Err(refusal),
            Ok(s) => if r.len() <= 32 && s.len() <= 32 {
                Ok(CheckView::P256 { point, r: widened(r, 32), s: widened(s, 32) })
            } else {
                Ok(CheckView::Never)
            },
        },
    }
}

/// The refusal of an algorithm that this key does not make or that is not
/// verified here.
pub open spec fn unknown_algorithm(algorithm: Seq<char>) -> Seq<char> {
    "the signature algorithm '"@ + algorithm
        + "' is not one this node verifies with the authorized key's type"@
}

/// The check that a key owes a signature of this algorithm.
///
/// RFC 8332 has an RSA signature as wide as the modulus; some clients drop its
/// leading zeros, and the check wants them.
pub open spec fn algorithm_check(
    material: MaterialView,
    algorithm: Seq<char>,
    raw: Seq<u8>,
) -> Result<CheckView, Seq<char>> {
    match material {
        MaterialView::Ed25519(key) => if algorithm == ED25519@ {
            Ok(CheckView::Ed25519 { key, signature: raw })
        } else {
            Err(unknown_algorithm(algorithm))
        },
        MaterialView::P256(point) => if algorithm == ECDSA_P256@ {
            ecdsa_check(point, raw)
        } else {
            Err(unknown_algorithm(algorithm))
        },
        MaterialView::Rsa { exponent, modulus } => if algorithm == RSA_SHA256@ {
            Ok(CheckView::Rsa { exponent, modulus, whole: widened(raw, modulus.len()) })
        } else if algorithm == RSA@ {
            Err(
                "the signature is ssh-rsa, which is SHA-1, and this node verifies rsa-sha2-256: the client must offer it (RFC 8332)"@,
            )
        } else {
            Err(unknown_algorithm(algorithm))
        },
    }
}

/// A signature blob read: the algorithm it names, and the check that decides
/// it.
pub open spec fn signature_check(material: MaterialView, signature: Seq<u8>) -> Result<
    (Seq<char>, CheckView),
    Seq<char>,
> {
    match read_text(signature, "signature blob"@) {
        Err(refusal) => Err(refusal),
        Ok(algorithm) => match read_string(after_string(signature), "signature blob"@) {
            Err(refusal) => Err(refusal),
            Ok(raw) => match algorithm_check(material, algorithm, raw) {
                Err(refusal) => Err(refusal),
                Ok(check) => Ok((algorithm, check)),
            },
        },
    }
}

/// The signature of a check verifies over `data`.
pub open spec fn check_holds(check: CheckView, data: Seq<u8>) -> bool {
    match check {
        CheckView::Ed25519 { key, signature } => ed25519_verifies(key, data, signature),
        CheckView::P256 { point, r, s } => p256_verifies(point, data, r, s),
        CheckView::Rsa { exponent, modulus, whole } => rsa_verifies(
            modulus,
            exponent,
            data,
            whole,
        ),
        CheckView::Never => false,
    }
}

/// The signature of a check is as wide as one has to be that verifies: an
/// Ed25519 signature is sixty-four bytes, the integers of an ECDSA signature are
/// positive, and an RSA signature is as wide as the modulus.
pub open spec fn sized(check: CheckView) -> bool {
    match check {
        CheckView::Ed25519 { signature, .. } => signature.len() == 64,
        CheckView::P256 { r, s, .. } => be_value(r) > 0 && be_value(s) > 0,
        CheckView::Rsa { modulus, whole, .. } => whole.len() == significant(modulus).len(),
        CheckView::Never => false,
    }
}

/// The answer to a signature, given whether its check holds.
pub open spec fn conclusion(algorithm: Seq<char>, holds: bool) -> Result<(), Seq<char>> {
    if holds {
        Ok(())
    } else {
        Err("the "@ + algorithm + " signature does not verify with the authorized key"@)
    }
}

/// The answer to a signature blob over `data`.
pub open spec fn signature_verdict(
    material: MaterialView,
    data: Seq<u8>,
    signature: Seq<u8>,
) -> Result<(), Seq<char>> {
    match signature_check(material, signature) {
        Err(refusal) => Err(refusal),
        Ok((algorithm, check)) => conclusion(algorithm, check_holds(check, data)),
    }
}

impl<'a> Check<'a> {
    /// Whether the signature verifies over `data`.
    pub fn holds(&self, data: &[u8]) -> (holds: bool)
        ensures
            holds == check_holds(self@, data@),
            holds ==> sized(self@),
    {
        match self {
            Check::Ed25519 { key, signature } => ed25519_verify(key, data, signature),
            Check::P256 { point, r, s } => p256_verify(point, data, r, s),
            Check::Rsa { exponent, modulus, whole } => rsa_verify(
                modulus,
                exponent,
                data,
                whole.as_slice(),
            ),
            Check::Never => false,
        }
    }
}

/// The answer to a signature, given whether its check holds.
pub fn concluded(algorithm: &str, holds: bool) -> (answer: Result<(), AuthenticateError>)
    ensures
        outcome(answer) == conclusion(algorithm@, holds),
{
    if holds {
        Ok(())
    } else {
        Err(
            AuthenticateError::new(
                String::from_str("the ").concat(algorithm).concat(
                    " signature does not verify with the authorized key",
                ),
            ),
        )
    }
}

impl AuthorizedKey {
    /// The check this key owes a signature of this algorithm.
    fn algorithm_check<'a>(&'a self, algorithm: &str, raw: &'a [u8]) -> (check: Result<
        Check<'a>,
        AuthenticateError,
    >)
        ensures
            outcome(check) == algorithm_check(self@.material, algorithm@, raw@),
    {
        match &self.material {
            Material::Ed25519(key) if same(algorithm, ED25519) => Ok(
                Check::Ed25519 { key, signature: raw },
            ),
            Material::P256(point) if same(algorithm, ECDSA_P256) => {
                let mut pair = Cursor::new(raw);
                let r = pair.mpint("ECDSA signature")?;
                let s = pair.mpint("ECDSA signature")?;
                match (padded::<32>(r), padded::<32>(s)) {
                    (Some(r), Some(s)) => Ok(Check::P256 { point: point.as_slice(), r, s }),
                    _ => Ok(Check::Never),
                }
            },
            Material::Rsa { exponent, modulus } if same(algorithm, RSA_SHA256) => Ok(
                Check::Rsa {
                    exponent: exponent.as_slice(),
                    modulus: modulus.as_slice(),
                    whole: widen(raw, modulus.len()),
                },
            ),
            Material::Rsa { .. } if same(algorithm, RSA) => Err(
                AuthenticateError::new(
                    "the signature is ssh-rsa, which is SHA-1, and this node verifies rsa-sha2-256: the client must offer it (RFC 8332)".to_owned(),
                ),
            ),
            _ => Err(
                AuthenticateError::new(
                    String::from_str("the signature algorithm '").concat(algorithm).concat(
                        "' is not one this node verifies with the authorized key's type",
                    ),
                ),
            ),
        }
    }

    /// Read a signature blob: the algorithm it names, and the check that
    /// decides it.
    ///
    /// Refused where the blob's algorithm is not one this key makes or not one
    /// this gate verifies, or the blob is malformed.
    pub fn signature_check<'a>(&'a self, signature: &'a [u8]) -> (read: Result<
        (&'a str, Check<'a>),
        AuthenticateError,
    >)
        ensures
            outcome(read) == signature_check(self@.material, signature@),
    {
        let mut reader = Cursor::new(signature);
        let algorithm = reader.text("signature blob")?;
        let raw = reader.string("signature blob")?;
        let check = self.algorithm_check(algorithm, raw)?;
        Ok((algorithm, check))
    }

    /// Check a signature blob over `data`.
    ///
    /// Refused where the blob's algorithm is not one this key makes or not one
    /// this gate verifies, the signature is malformed, or it does not verify.
    pub fn verify(&self, data: &[u8], signature: &[u8]) -> (answer: Result<(), AuthenticateError>)
        ensures
            outcome(answer) == signature_verdict(self@.material, data@, signature@),
            answer is Ok ==> sized(signature_check(self@.material, signature@)->Ok_0.1),
            self@.well_formed(),
    {
        proof {
            use_type_invariant(self);
        }
        let (algorithm, check) = self.signature_check(signature)?;
        concluded(algorithm, check.holds(data))
    }
}

} // verus!
