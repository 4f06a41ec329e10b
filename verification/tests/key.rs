use authenticate_ssh_key::cursor::Cursor;
use authenticate_ssh_key::key::{
    concluded, Check, Material, ECDSA_P256, ED25519, RSA, RSA_SHA256,
};
use authenticate_ssh_key::AuthorizedKey;
use base64::engine::general_purpose::STANDARD;
use base64::Engine;
use ed25519_dalek::Signer;
use rsa::signature::SignatureEncoding;
use rsa::traits::PublicKeyParts;
use sha2::{Digest, Sha256};

/// Append one `string`.
fn put(wire: &mut Vec<u8>, value: &[u8]) {
    let length = u32::try_from(value.len()).expect("a short string");
    wire.extend_from_slice(&length.to_be_bytes());
    wire.extend_from_slice(value);
}

/// Append one positive `mpint`.
fn put_mpint(wire: &mut Vec<u8>, integer: &[u8]) {
    let zeros = integer.iter().take_while(|byte| **byte == 0).count();
    let mut value = integer[zeros..].to_vec();
    if value.first().is_some_and(|first| first & 0x80 != 0) {
        value.insert(0, 0);
    }
    put(wire, &value);
}

/// An Ed25519 key pair from a fixed seed, and its `authorized_keys` line.
fn ed25519_pair(seed: u8) -> (ed25519_dalek::SigningKey, String) {
    let signing = ed25519_dalek::SigningKey::from_bytes(&[seed; 32]);
    let mut blob = Vec::new();
    put(&mut blob, ED25519.as_bytes());
    put(&mut blob, signing.verifying_key().as_bytes());
    let line = format!("{ED25519} {} partner-x@example", STANDARD.encode(blob));
    (signing, line)
}

/// A signature blob: the algorithm's name and the signature.
fn signature_blob(algorithm: &str, raw: &[u8]) -> Vec<u8> {
    let mut blob = Vec::new();
    put(&mut blob, algorithm.as_bytes());
    put(&mut blob, raw);
    blob
}

/// A line of this type with a blob of these fields.
fn line_of(named: &str, fields: &[&[u8]]) -> String {
    let mut blob = Vec::new();
    put(&mut blob, named.as_bytes());
    for field in fields {
        put(&mut blob, field);
    }
    format!("{named} {}", STANDARD.encode(blob))
}

/// A line of an RSA key of this exponent and modulus.
fn rsa_line(exponent: &[u8], modulus: &[u8]) -> String {
    let mut blob = Vec::new();
    put(&mut blob, RSA.as_bytes());
    put_mpint(&mut blob, exponent);
    put_mpint(&mut blob, modulus);
    format!("{RSA} {}", STANDARD.encode(blob))
}

/// The refusal of a line.
fn refusal(line: &str) -> String {
    AuthorizedKey::parse(line).expect_err("refused").message
}

#[test]
fn an_ed25519_line_is_read_and_verifies_what_its_private_half_signed() {
    let (signing, line) = ed25519_pair(7);
    let key = AuthorizedKey::parse(&line).expect("a key");
    let signature = signature_blob(ED25519, &signing.sign(b"session").to_bytes());

    assert_eq!(key.comment(), "partner-x@example");
    assert!(key.fingerprint().starts_with("SHA256:"));
    assert_eq!(key.fingerprint().len(), 50);
    assert!(key.verify(b"session", &signature).is_ok());
    let failure = key.verify(b"another", &signature).expect_err("refused");
    assert!(failure.message.contains("does not verify"));
}

#[test]
fn an_ecdsa_nistp256_key_verifies_a_signature_of_two_integers() {
    let signing = p256::ecdsa::SigningKey::from_slice(&[9; 32]).expect("a scalar");
    let mut blob = Vec::new();
    put(&mut blob, ECDSA_P256.as_bytes());
    put(&mut blob, b"nistp256");
    put(
        &mut blob,
        signing.verifying_key().to_encoded_point(false).as_bytes(),
    );
    let key =
        AuthorizedKey::parse(&format!("{ECDSA_P256} {}", STANDARD.encode(blob))).expect("a key");
    let signature: p256::ecdsa::Signature = signing.sign(b"session");
    let (r, s) = signature.split_bytes();
    let mut pair = Vec::new();
    put_mpint(&mut pair, &r);
    put_mpint(&mut pair, &s);

    assert!(key
        .verify(b"session", &signature_blob(ECDSA_P256, &pair))
        .is_ok());
    assert!(key
        .verify(b"another", &signature_blob(ECDSA_P256, &pair))
        .is_err());
}

#[test]
fn an_rsa_key_verifies_rsa_sha2_256_and_refuses_sha_1_by_name() {
    let private = rsa::RsaPrivateKey::new(&mut rand::rngs::OsRng, 2048).expect("a key");
    let mut blob = Vec::new();
    put(&mut blob, RSA.as_bytes());
    put_mpint(&mut blob, &private.e().to_bytes_be());
    put_mpint(&mut blob, &private.n().to_bytes_be());
    let key = AuthorizedKey::parse(&format!("{RSA} {}", STANDARD.encode(blob))).expect("key");
    let signer = rsa::pkcs1v15::SigningKey::<Sha256>::new(private);
    let raw = signer.sign(b"session").to_vec();

    assert!(key
        .verify(b"session", &signature_blob(RSA_SHA256, &raw))
        .is_ok());
    let failure = key
        .verify(b"session", &signature_blob(RSA, &raw))
        .expect_err("refused");
    assert!(failure.message.contains("SHA-1"));
}

#[test]
fn a_line_with_options_or_another_key_type_is_refused_by_what_it_starts_with() {
    let (_, line) = ed25519_pair(7);

    let options = AuthorizedKey::parse(&format!("restrict {line}")).expect_err("refused");
    let other = AuthorizedKey::parse("ssh-dss AAAA").expect_err("refused");

    assert!(options.message.contains("'restrict'"));
    assert!(other.message.contains("'ssh-dss'"));
}

#[test]
fn a_signature_of_another_keys_algorithm_is_refused_by_name() {
    let (_, line) = ed25519_pair(7);
    let key = AuthorizedKey::parse(&line).expect("a key");

    let failure = key
        .verify(b"session", &signature_blob(RSA_SHA256, &[0; 256]))
        .expect_err("refused");

    assert!(failure.message.contains("'rsa-sha2-256'"));
}

#[test]
fn a_published_ed25519_key_has_its_fingerprint_and_verifies_its_signature() {
    let line =
        "ssh-ed25519 AAAAC3NzaC1lZDI1NTE5AAAAINdamAGCsQq31Uv+08lkBzoO4XLz2qYjJa8CGmj3B1Ea";
    let raw: [u8; 64] = [
        0xe5, 0x56, 0x43, 0x00, 0xc3, 0x60, 0xac, 0x72, 0x90, 0x86, 0xe2, 0xcc, 0x80, 0x6e, 0x82,
        0x8a, 0x84, 0x87, 0x7f, 0x1e, 0xb8, 0xe5, 0xd9, 0x74, 0xd8, 0x73, 0xe0, 0x65, 0x22, 0x49,
        0x01, 0x55, 0x5f, 0xb8, 0x82, 0x15, 0x90, 0xa3, 0x3b, 0xac, 0xc6, 0x1e, 0x39, 0x70, 0x1c,
        0xf9, 0xb4, 0x6b, 0xd2, 0x5b, 0xf5, 0xf0, 0x59, 0x5b, 0xbe, 0x24, 0x65, 0x51, 0x41, 0x43,
        0x8e, 0x7a, 0x10, 0x0b,
    ];
    let key = AuthorizedKey::parse(line).expect("a key");

    assert_eq!(
        key.fingerprint(),
        "SHA256:bbXpuKG6zhzdmnxq256TlqzFBzRl2f6OOg722cYNbU8"
    );
    assert_eq!(key.comment(), "");
    assert_eq!(key.user(), None);
    assert!(key.verify(b"", &signature_blob(ED25519, &raw)).is_ok());
    assert_eq!(
        key.verify(b"x", &signature_blob(ED25519, &raw))
            .expect_err("refused")
            .message,
        "the ssh-ed25519 signature does not verify with the authorized key"
    );
}

#[test]
fn a_line_is_read_through_any_white_space_and_its_comment_is_put_together() {
    let (_, line) = ed25519_pair(7);
    let words: Vec<&str> = line.split(' ').collect();
    let spaced = format!("\t {}  {}\t one\u{3000}two   three ", words[0], words[1]);
    let key = AuthorizedKey::parse(&spaced).expect("a key");
    let plain = AuthorizedKey::parse(&line).expect("a key");

    assert_eq!(key.comment(), "one two three");
    assert_eq!(key.blob(), plain.blob());
    assert_eq!(STANDARD.encode(key.blob()), words[1]);
    assert_eq!(key.fingerprint(), plain.fingerprint());
}

#[test]
fn a_key_is_narrowed_to_the_last_user_it_is_narrowed_to() {
    let (_, line) = ed25519_pair(7);
    let key = AuthorizedKey::parse(&line).expect("a key");
    let narrowed = key.clone().for_user("orders");

    assert_eq!(key.user(), None);
    assert_eq!(narrowed.user(), Some("orders"));
    assert_eq!(narrowed.comment(), key.comment());
    assert_eq!(narrowed.blob(), key.blob());
    assert_eq!(narrowed.for_user("").user(), Some(""));
}

#[test]
fn a_line_that_starts_with_no_key_type_is_refused_with_the_types_there_are() {
    for named in ["", "ssh-dss", "ecdsa-sha2-nistp384", "sk-ssh-ed25519@openssh.com", "SSH-RSA"] {
        assert_eq!(
            refusal(&format!("{named} AAAA")),
            format!(
                "the authorized key line starts with '{}': options are not enforced here and \
                 are refused, and the key types verified are ssh-ed25519, ecdsa-sha2-nistp256 \
                 and ssh-rsa",
                if named.is_empty() { "AAAA" } else { named }
            )
        );
    }
    assert!(refusal("  ").contains("starts with ''"));
}

#[test]
fn a_blob_that_is_missing_or_no_base64_is_refused() {
    let (_, line) = ed25519_pair(7);
    let words: Vec<&str> = line.split(' ').collect();
    for blob in ["", "AAA", "????", "AAAA=", &words[1][..words[1].len() - 1]] {
        assert_eq!(
            refusal(&format!("ssh-ed25519 {blob}")),
            "the authorized key's blob is not base64",
            "{blob:?}"
        );
    }
}

#[test]
fn a_blob_that_is_truncated_or_names_no_text_is_refused() {
    let mut short = Vec::new();
    put(&mut short, ED25519.as_bytes());
    let mut not_text = Vec::new();
    put(&mut not_text, &[0xff, 0xfe]);

    assert_eq!(refusal("ssh-ed25519 AAAA"), "the key blob is truncated");
    assert_eq!(
        refusal(&format!("ssh-ed25519 {}", STANDARD.encode(short))),
        "the key blob is truncated"
    );
    assert_eq!(
        refusal(&format!("ssh-ed25519 {}", STANDARD.encode(not_text))),
        "the key blob names something not text"
    );
}

#[test]
fn a_blob_of_another_type_than_its_line_is_refused() {
    let (_, line) = ed25519_pair(7);
    let words: Vec<&str> = line.split(' ').collect();

    assert_eq!(
        refusal(&format!("ssh-rsa {}", words[1])),
        "the authorized key line says ssh-rsa and its blob says ssh-ed25519"
    );
}

#[test]
fn an_ed25519_key_of_another_length_or_off_the_curve_is_refused() {
    let off = (0..=255u8)
        .map(|byte| [byte; 32])
        .find(|bytes| ed25519_dalek::VerifyingKey::from_bytes(bytes).is_err())
        .expect("not every number is a point");

    for length in [0, 31, 33] {
        assert_eq!(
            refusal(&line_of(ED25519, &[&vec![1u8; length]])),
            "an Ed25519 key is thirty-two bytes"
        );
    }
    assert_eq!(
        refusal(&line_of(ED25519, &[&off])),
        "the Ed25519 key is not a point on the curve"
    );
    assert_eq!(
        refusal(&line_of(ED25519, &[&off, b"more"])),
        "the Ed25519 key is not a point on the curve"
    );
}

#[test]
fn an_ecdsa_key_on_another_curve_or_off_it_is_refused() {
    assert_eq!(
        refusal(&line_of(ECDSA_P256, &[b"nistp384", &[4; 97]])),
        "the ECDSA key's curve is 'nistp384' and this node verifies nistp256"
    );
    assert_eq!(
        refusal(&line_of(ECDSA_P256, &[b"nistp256", &[4; 65]])),
        "the ECDSA key is not a point on nistp256"
    );
    assert_eq!(
        refusal(&line_of(ECDSA_P256, &[b"nistp256"])),
        "the key blob is truncated"
    );
}

#[test]
fn a_compressed_ecdsa_point_is_read_too() {
    let signing = p256::ecdsa::SigningKey::from_slice(&[9; 32]).expect("a scalar");
    let point = signing.verifying_key().to_encoded_point(true);
    let key = AuthorizedKey::parse(&line_of(ECDSA_P256, &[b"nistp256", point.as_bytes()]))
        .expect("a key");
    let signature: p256::ecdsa::Signature = signing.sign(b"session");
    let (r, s) = signature.split_bytes();
    let mut pair = Vec::new();
    put_mpint(&mut pair, &r);
    put_mpint(&mut pair, &s);
    let mut swapped = Vec::new();
    put_mpint(&mut swapped, &s);
    put_mpint(&mut swapped, &r);

    assert!(key
        .verify(b"session", &signature_blob(ECDSA_P256, &pair))
        .is_ok());
    assert!(key
        .verify(b"session", &signature_blob(ECDSA_P256, &swapped))
        .is_err());
}

#[test]
fn a_blob_that_carries_more_than_its_key_is_refused_as_such() {
    let (signing, _) = ed25519_pair(7);
    let line = line_of(ED25519, &[signing.verifying_key().as_bytes(), b"more"]);

    assert_eq!(refusal(&line), "the key blob carries more than its key");
}

#[test]
fn an_rsa_key_is_taken_only_within_the_bounds_of_its_integers() {
    let unusable = "the RSA modulus and exponent are not a usable key";
    let widest = [0xffu8; 512];
    let mut wider = [0u8; 513];
    wider[0] = 1;
    wider[512] = 1;
    let mut even = widest;
    even[511] = 0xfe;

    assert!(AuthorizedKey::parse(&rsa_line(&[1, 0, 1], &widest)).is_ok());
    assert!(AuthorizedKey::parse(&rsa_line(&[3], &[5])).is_ok());
    assert!(AuthorizedKey::parse(&rsa_line(&[1, 0xff, 0xff, 0xff, 0xff], &widest)).is_ok());
    assert_eq!(refusal(&rsa_line(&[1, 0, 1], &wider)), unusable);
    assert_eq!(refusal(&rsa_line(&[1, 0, 1], &even)), unusable);
    assert_eq!(refusal(&rsa_line(&[2, 0, 0, 0, 1], &widest)), unusable);
    assert_eq!(refusal(&rsa_line(&[1], &widest)), unusable);
    assert_eq!(refusal(&rsa_line(&[4], &widest)), unusable);
    assert_eq!(refusal(&rsa_line(&[], &widest)), unusable);
    assert_eq!(refusal(&rsa_line(&[5], &[5])), unusable);
    assert_eq!(refusal(&rsa_line(&[3], &[])), unusable);
}

#[test]
fn an_rsa_key_with_a_negative_integer_is_refused() {
    assert_eq!(
        refusal(&line_of(RSA, &[&[0x80, 1], &[5]])),
        "the key blob holds a negative integer"
    );
    assert_eq!(
        refusal(&line_of(RSA, &[&[3], &[0xff]])),
        "the key blob holds a negative integer"
    );
}

#[test]
fn an_rsa_signature_without_its_leading_zeros_is_verified_as_the_whole_one_is() {
    let private = rsa::RsaPrivateKey::new(&mut rand::rngs::OsRng, 512).expect("a key");
    let line = rsa_line(&private.e().to_bytes_be(), &private.n().to_bytes_be());
    let key = AuthorizedKey::parse(&line).expect("a key");
    let signer = rsa::pkcs1v15::SigningKey::<Sha256>::new(private);
    let (session, raw) = (0..100_000u32)
        .map(|n| (n.to_be_bytes(), signer.sign(&n.to_be_bytes()).to_vec()))
        .find(|(_, raw)| raw[0] == 0)
        .expect("one in some hundreds starts with a zero");
    let zeros = raw.iter().take_while(|byte| **byte == 0).count();
    let mut wider = vec![0u8];
    wider.extend_from_slice(&raw);

    assert_eq!(raw.len(), 64);
    assert!(key
        .verify(&session, &signature_blob(RSA_SHA256, &raw))
        .is_ok());
    assert!(key
        .verify(&session, &signature_blob(RSA_SHA256, &raw[zeros..]))
        .is_ok());
    assert!(key
        .verify(&session, &signature_blob(RSA_SHA256, &wider))
        .is_err());
    assert!(key
        .verify(&session, &signature_blob(RSA_SHA256, &raw[zeros + 1..]))
        .is_err());
    assert_eq!(
        key.verify(b"another", &signature_blob(RSA_SHA256, &raw))
            .expect_err("refused")
            .message,
        "the rsa-sha2-256 signature does not verify with the authorized key"
    );
}

#[test]
fn every_other_signature_algorithm_is_refused_by_name() {
    let (_, line) = ed25519_pair(7);
    let ed25519 = AuthorizedKey::parse(&line).expect("a key");
    let rsa = AuthorizedKey::parse(&rsa_line(&[3], &[5])).expect("a key");

    for algorithm in ["", "rsa-sha2-512", "ssh-dss", "ssh-ed25519-cert-v01@openssh.com"] {
        for key in [&ed25519, &rsa] {
            assert_eq!(
                key.verify(b"session", &signature_blob(algorithm, &[0; 64]))
                    .expect_err("refused")
                    .message,
                format!(
                    "the signature algorithm '{algorithm}' is not one this node verifies with \
                     the authorized key's type"
                )
            );
        }
    }
    assert!(ed25519
        .verify(b"session", &signature_blob(RSA, &[0; 64]))
        .expect_err("refused")
        .message
        .contains("'ssh-rsa' is not one"));
    assert_eq!(
        rsa.verify(b"session", &signature_blob(RSA, &[0; 64]))
            .expect_err("refused")
            .message,
        "the signature is ssh-rsa, which is SHA-1, and this node verifies rsa-sha2-256: the \
         client must offer it (RFC 8332)"
    );
    assert!(rsa
        .verify(b"session", &signature_blob(ED25519, &[0; 64]))
        .expect_err("refused")
        .message
        .contains("'ssh-ed25519' is not one"));
}

#[test]
fn a_signature_blob_that_is_truncated_or_no_text_is_refused() {
    let (signing, line) = ed25519_pair(7);
    let key = AuthorizedKey::parse(&line).expect("a key");
    let signature = signature_blob(ED25519, &signing.sign(b"session").to_bytes());
    let mut not_text = Vec::new();
    put(&mut not_text, &[0xff]);

    for end in 0..signature.len() {
        assert_eq!(
            key.verify(b"session", &signature[..end])
                .expect_err("refused")
                .message,
            "the signature blob is truncated"
        );
    }
    assert_eq!(
        key.verify(b"session", &not_text)
            .expect_err("refused")
            .message,
        "the signature blob names something not text"
    );
}

#[test]
fn what_is_behind_a_signature_in_its_blob_is_not_read() {
    let (signing, line) = ed25519_pair(7);
    let key = AuthorizedKey::parse(&line).expect("a key");
    let mut signature = signature_blob(ED25519, &signing.sign(b"session").to_bytes());
    signature.extend_from_slice(b"more");

    assert!(key.verify(b"session", &signature).is_ok());
}

#[test]
fn an_ed25519_signature_of_another_length_does_not_verify() {
    let (signing, line) = ed25519_pair(7);
    let key = AuthorizedKey::parse(&line).expect("a key");
    let raw = signing.sign(b"session").to_bytes();
    let mut longer = raw.to_vec();
    longer.push(0);

    for raw in [&raw[..63], &longer, &[]] {
        assert_eq!(
            key.verify(b"session", &signature_blob(ED25519, raw))
                .expect_err("refused")
                .message,
            "the ssh-ed25519 signature does not verify with the authorized key"
        );
    }
}

#[test]
fn an_ecdsa_signature_that_is_malformed_or_too_wide_is_refused() {
    let signing = p256::ecdsa::SigningKey::from_slice(&[9; 32]).expect("a scalar");
    let point = signing.verifying_key().to_encoded_point(false);
    let key = AuthorizedKey::parse(&line_of(ECDSA_P256, &[b"nistp256", point.as_bytes()]))
        .expect("a key");
    let answer = |r: &[u8], s: &[u8]| {
        let mut pair = Vec::new();
        put(&mut pair, r);
        put(&mut pair, s);
        key.verify(b"session", &signature_blob(ECDSA_P256, &pair))
            .expect_err("refused")
            .message
    };
    let no = "the ecdsa-sha2-nistp256 signature does not verify with the authorized key";

    assert_eq!(answer(&[1; 33], &[1]), no);
    assert_eq!(answer(&[1], &[1; 33]), no);
    assert_eq!(answer(&[], &[1]), no);
    assert_eq!(answer(&[1], &[0]), no);
    assert_eq!(answer(&[1], &[1]), no);
    assert_eq!(answer(&[0x80], &[1]), "the ECDSA signature holds a negative integer");
    assert_eq!(
        key.verify(b"session", &signature_blob(ECDSA_P256, &[0, 0, 0, 1, 7]))
            .expect_err("refused")
            .message,
        "the ECDSA signature is truncated"
    );
}

#[test]
fn a_signature_is_read_into_the_check_that_decides_it() {
    let (signing, line) = ed25519_pair(7);
    let key = AuthorizedKey::parse(&line).expect("a key");
    let raw = signing.sign(b"session").to_bytes();
    let blob = signature_blob(ED25519, &raw);
    let (algorithm, check) = key.signature_check(&blob).expect("a check");

    assert_eq!(algorithm, "ssh-ed25519");
    assert!(check.holds(b"session"));
    assert!(!check.holds(b"another"));
    match check {
        Check::Ed25519 { key, signature } => {
            assert_eq!(key, signing.verifying_key().as_bytes());
            assert_eq!(signature, raw);
        }
        other => panic!("{other:?}"),
    }

    let rsa = AuthorizedKey::parse(&rsa_line(&[3], &[0xff, 0xff, 0xff])).expect("a key");
    let blob = signature_blob(RSA_SHA256, &[9]);
    match rsa.signature_check(&blob).expect("a check") {
        (algorithm, Check::Rsa { exponent, modulus, whole }) => {
            assert_eq!(algorithm, "rsa-sha2-256");
            assert_eq!(exponent, [3]);
            assert_eq!(modulus, [0xff, 0xff, 0xff]);
            assert_eq!(whole, [0, 0, 9]);
        }
        other => panic!("{other:?}"),
    }
}

#[test]
fn a_check_that_does_not_hold_is_concluded_by_its_algorithm() {
    assert!(concluded("ssh-ed25519", true).is_ok());
    assert_eq!(
        concluded("ssh-ed25519", false).expect_err("refused").message,
        "the ssh-ed25519 signature does not verify with the authorized key"
    );
    assert!(!Check::Never.holds(b"session"));
}

#[test]
fn fields_are_admitted_as_a_key_where_they_are_usable_and_nothing_is_behind_them() {
    let point = || Material::P256(vec![4; 65]);
    let refused = |material: Material, usable: bool, rest: &[u8]| {
        material
            .admitted(usable, &Cursor::new(rest))
            .expect_err("refused")
            .message
    };

    assert!(!point().is_usable());
    assert!(point().admitted(true, &Cursor::new(&[])).is_ok());
    assert_eq!(
        refused(point(), true, &[1]),
        "the key blob carries more than its key"
    );
    assert_eq!(
        refused(point(), false, &[1]),
        "the ECDSA key is not a point on nistp256"
    );
    assert_eq!(
        refused(Material::Ed25519([0; 32]), false, &[]),
        "the Ed25519 key is not a point on the curve"
    );
    assert_eq!(
        refused(Material::Rsa { exponent: vec![], modulus: vec![] }, false, &[]),
        "the RSA modulus and exponent are not a usable key"
    );
}

#[test]
fn keys_of_one_blob_answer_alike_whatever_their_users_and_comments() {
    let (signing, line) = ed25519_pair(7);
    let words: Vec<&str> = line.split(' ').collect();
    let left = AuthorizedKey::parse(&line).expect("a key");
    let right = AuthorizedKey::parse(&format!("{} {} other", words[0], words[1]))
        .expect("a key")
        .for_user("orders");
    let good = signature_blob(ED25519, &signing.sign(b"session").to_bytes());
    let bad = signature_blob(ED25519, &[1; 64]);

    assert_eq!(left.blob(), right.blob());
    assert_eq!(left.fingerprint(), right.fingerprint());
    for signature in [&good, &bad] {
        let answer = |key: &AuthorizedKey| {
            key.verify(b"session", signature)
                .map_err(|refusal| refusal.message)
        };
        assert_eq!(answer(&left), answer(&right));
    }
}

#[test]
fn an_rsa_signature_raised_to_the_exponent_is_the_message_of_the_digest() {
    let private = rsa::RsaPrivateKey::new(&mut rand::rngs::OsRng, 512).expect("a key");
    let (n, e) = (private.n().clone(), private.e().clone());
    let key = AuthorizedKey::parse(&rsa_line(&e.to_bytes_be(), &n.to_bytes_be())).expect("a key");
    let signer = rsa::pkcs1v15::SigningKey::<Sha256>::new(private);
    let raw = signer.sign(b"session").to_vec();
    let mut message = vec![0u8, 1];
    message.extend_from_slice(&[0xff; 64 - 54]);
    message.push(0);
    message.extend_from_slice(&[
        0x30, 0x31, 0x30, 0x0d, 0x06, 0x09, 0x60, 0x86, 0x48, 0x01, 0x65, 0x03, 0x04, 0x02, 0x01,
        0x05, 0x00, 0x04, 0x20,
    ]);
    message.extend_from_slice(&Sha256::digest(b"session"));
    let number = rsa::BigUint::from_bytes_be(&raw);
    let shifted = (&number + &n).to_bytes_be();

    assert_eq!(message.len(), 64);
    assert_eq!(
        number.modpow(&e, &n),
        rsa::BigUint::from_bytes_be(&message)
    );
    assert!(key
        .verify(b"session", &signature_blob(RSA_SHA256, &raw))
        .is_ok());
    assert!(key
        .verify(b"session", &signature_blob(RSA_SHA256, &shifted))
        .is_err());
    assert!(key
        .verify(b"session", &signature_blob(RSA_SHA256, &message))
        .is_err());
}

#[test]
fn an_rsa_key_too_narrow_for_the_message_verifies_nothing() {
    for width in [1usize, 3, 61, 62] {
        let key = AuthorizedKey::parse(&rsa_line(&[3], &vec![0xff; width])).expect("a key");
        for raw in [vec![], vec![0; width], vec![1; width], vec![0xff; width]] {
            assert_eq!(
                key.verify(b"session", &signature_blob(RSA_SHA256, &raw))
                    .expect_err("refused")
                    .message,
                "the rsa-sha2-256 signature does not verify with the authorized key"
            );
        }
    }
}
