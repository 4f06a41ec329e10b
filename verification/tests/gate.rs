use authenticate_ssh_key::gate::admitted;
use authenticate_ssh_key::mechanism::{certificate, ssh_key};
use authenticate_ssh_key::signed::{Signed, USERAUTH_REQUEST};
use authenticate_ssh_key::{
    AuthorizedKey, Mechanism, Presented, Verified, Verifier, SESSION_PROOF, SIGNATURE_PROOF, USER,
};
use base64::engine::general_purpose::{STANDARD, STANDARD_NO_PAD};
use base64::Engine;
use ed25519_dalek::Signer;

/// Append one `string`.
fn put(wire: &mut Vec<u8>, value: &[u8]) {
    let length = u32::try_from(value.len()).expect("a short string");
    wire.extend_from_slice(&length.to_be_bytes());
    wire.extend_from_slice(value);
}

/// An Ed25519 key pair from a fixed seed, and its `authorized_keys` line.
fn ed25519_pair(seed: u8) -> (ed25519_dalek::SigningKey, String) {
    let signing = ed25519_dalek::SigningKey::from_bytes(&[seed; 32]);
    let mut blob = Vec::new();
    put(&mut blob, b"ssh-ed25519");
    put(&mut blob, signing.verifying_key().as_bytes());
    let line = format!("ssh-ed25519 {} partner-x@example", STANDARD.encode(blob));
    (signing, line)
}

/// A signature blob: the algorithm's name and the signature.
fn signature_blob(algorithm: &str, raw: &[u8]) -> Vec<u8> {
    let mut blob = Vec::new();
    put(&mut blob, algorithm.as_bytes());
    put(&mut blob, raw);
    blob
}

/// What an SSH client signs for `user`: RFC 4252 section 7.
fn signed_data(user: &str, blob: &[u8]) -> Vec<u8> {
    let mut data = Vec::new();
    put(&mut data, &[0x5e; 32]);
    data.push(USERAUTH_REQUEST);
    put(&mut data, user.as_bytes());
    put(&mut data, b"ssh-connection");
    put(&mut data, b"publickey");
    data.push(1);
    put(&mut data, b"ssh-ed25519");
    put(&mut data, blob);
    data
}

fn presented(fingerprint: &str, data: &[u8], signing: &ed25519_dalek::SigningKey) -> Presented {
    let signature = signature_blob("ssh-ed25519", &signing.sign(data).to_bytes());
    Presented::passed(ssh_key(), fingerprint)
        .with_proof(SIGNATURE_PROOF, &STANDARD.encode(signature))
        .with_proof(SESSION_PROOF, &STANDARD.encode(data))
}

#[test]
fn a_signature_by_an_authorized_key_over_the_session_is_proven() {
    let (signing, line) = ed25519_pair(7);
    let gate = Verifier::from_authorized_keys(&format!("# partners\n\n{line}\n")).expect("keys");
    let key = AuthorizedKey::parse(&line).expect("a key");

    let verified = gate
        .verify(&presented(&key.fingerprint(), b"a challenge", &signing))
        .expect("proven");

    assert_eq!(verified, Verified::Proven);
}

#[test]
fn a_key_the_node_does_not_hold_is_refused_by_its_fingerprint() {
    let (_, held) = ed25519_pair(7);
    let (stranger, line) = ed25519_pair(8);
    let gate = Verifier::from_authorized_keys(&held).expect("keys");
    let fingerprint = AuthorizedKey::parse(&line).expect("a key").fingerprint();

    let failure = gate
        .verify(&presented(&fingerprint, b"a challenge", &stranger))
        .expect_err("refused");

    assert!(failure.message.contains("no authorized key"));
    assert!(failure.message.contains(&fingerprint));
}

#[test]
fn a_signature_by_another_key_under_a_held_fingerprint_is_refused() {
    let (_, line) = ed25519_pair(7);
    let (impostor, _) = ed25519_pair(8);
    let gate = Verifier::from_authorized_keys(&line).expect("keys");
    let fingerprint = AuthorizedKey::parse(&line).expect("a key").fingerprint();

    let failure = gate
        .verify(&presented(&fingerprint, b"a challenge", &impostor))
        .expect_err("refused");

    assert!(failure.message.contains("does not verify"));
}

#[test]
fn a_key_narrowed_to_one_user_proves_that_user_and_refuses_another() {
    let (signing, line) = ed25519_pair(7);
    let key = AuthorizedKey::parse(&line)
        .expect("a key")
        .for_user("orders");
    let fingerprint = key.fingerprint();
    let (ours, theirs) = (
        signed_data("orders", key.blob()),
        signed_data("root", key.blob()),
    );
    let gate = Verifier::new(vec![key]);

    let proven = gate.verify(&presented(&fingerprint, &ours, &signing));
    let other = gate
        .verify(&presented(&fingerprint, &theirs, &signing))
        .expect_err("refused");
    let unnamed = gate
        .verify(&presented(&fingerprint, b"a challenge", &signing))
        .expect_err("refused");
    let reported = presented(&fingerprint, b"a challenge", &signing).with_evidence(USER, "orders");

    assert_eq!(proven.expect("proven"), Verified::Proven);
    assert!(other.message.contains("not for 'root'"));
    assert!(unnamed.message.contains("ssh.user"));
    assert_eq!(gate.verify(&reported).expect("proven"), Verified::Proven);
}

#[test]
fn signed_data_that_names_another_key_is_refused() {
    let (signing, line) = ed25519_pair(7);
    let (_, other) = ed25519_pair(8);
    let other = AuthorizedKey::parse(&other).expect("a key");
    let gate = Verifier::from_authorized_keys(&line).expect("keys");
    let fingerprint = AuthorizedKey::parse(&line).expect("a key").fingerprint();

    let failure = gate
        .verify(&presented(
            &fingerprint,
            &signed_data("orders", other.blob()),
            &signing,
        ))
        .expect_err("refused");

    assert!(failure.message.contains("not the key that was claimed"));
}

#[test]
fn another_mechanism_and_each_missing_proof_are_refused_by_name() {
    let (_, line) = ed25519_pair(7);
    let gate = Verifier::from_authorized_keys(&line).expect("keys");
    let other = Presented::passed(certificate(), "CN=x");
    let bare = Presented::passed(ssh_key(), "SHA256:x");
    let half = bare.clone().with_proof(SIGNATURE_PROOF, "c2ln");

    assert!(gate
        .verify(&other)
        .expect_err("refused")
        .message
        .contains("'certificate' was presented"));
    assert!(gate
        .verify(&bare)
        .expect_err("refused")
        .message
        .contains("ssh-key.signature"));
    assert!(gate
        .verify(&half)
        .expect_err("refused")
        .message
        .contains("ssh-key.session"));
}

#[test]
fn a_bad_line_in_an_authorized_keys_file_is_named_by_its_number() {
    let (_, line) = ed25519_pair(7);

    let failure =
        Verifier::from_authorized_keys(&format!("{line}\nssh-dss AAAA\n")).expect_err("line");

    assert!(failure.message.starts_with("line 2:"));
}

#[test]
fn each_refusal_of_the_gate_is_worded_as_it_is() {
    let (signing, line) = ed25519_pair(7);
    let key = AuthorizedKey::parse(&line).expect("a key");
    let fingerprint = key.fingerprint();
    let (_, other) = ed25519_pair(8);
    let other = AuthorizedKey::parse(&other).expect("a key");
    let gate = Verifier::new(vec![key.clone().for_user("orders")]);
    let refusal = |presented: &Presented| gate.verify(presented).expect_err("refused").message;
    let bare = Presented::passed(ssh_key(), "SHA256:x");

    assert_eq!(
        refusal(&Presented::passed(Mechanism::named("totp"), "x")),
        "'totp' was presented and this authenticator verifies ssh-key"
    );
    assert_eq!(refusal(&bare), "no ssh-key.signature proof was presented");
    assert_eq!(
        refusal(&bare.clone().with_proof(SIGNATURE_PROOF, "?")),
        "the ssh-key.signature proof is not base64"
    );
    assert_eq!(
        refusal(&bare.clone().with_proof(SIGNATURE_PROOF, "c2ln")),
        "no ssh-key.session proof was presented"
    );
    assert_eq!(
        refusal(
            &bare
                .clone()
                .with_proof(SIGNATURE_PROOF, "c2ln")
                .with_proof(SESSION_PROOF, "c2 ln")
        ),
        "the ssh-key.session proof is not base64"
    );
    assert_eq!(
        refusal(
            &bare
                .with_proof(SIGNATURE_PROOF, "c2ln")
                .with_proof(SESSION_PROOF, "c2ln")
        ),
        "the node holds no authorized key with the fingerprint SHA256:x"
    );
    assert_eq!(
        refusal(&presented(
            &fingerprint,
            &signed_data("orders", other.blob()),
            &signing
        )),
        "the key inside the signed data is not the key that was claimed"
    );
    assert_eq!(
        refusal(&presented(
            &fingerprint,
            &signed_data("root", key.blob()),
            &signing
        )),
        "the key is authorized for 'orders' and not for 'root'"
    );
    assert_eq!(
        refusal(&presented(&fingerprint, b"a challenge", &signing)),
        "the key is authorized for 'orders' only, and neither the signed data nor ssh.user \
         evidence names the user"
    );
    assert_eq!(
        refusal(
            &presented(&fingerprint, b"a challenge", &signing).with_evidence(USER, "root")
        ),
        "the key is authorized for 'orders' and not for 'root'"
    );
}

#[test]
fn a_fingerprint_is_claimed_with_white_space_and_padding_around_it() {
    let (signing, line) = ed25519_pair(7);
    let gate = Verifier::from_authorized_keys(&line).expect("keys");
    let fingerprint = AuthorizedKey::parse(&line).expect("a key").fingerprint();

    for value in [
        format!(" {fingerprint}\n"),
        format!("{fingerprint}="),
        format!("\t{fingerprint}===  "),
    ] {
        let verified = gate.verify(&presented(&value, b"a challenge", &signing));
        assert_eq!(verified.expect("proven"), Verified::Proven, "{value:?}");
    }
    let spaced = format!("{fingerprint} =");
    assert!(gate
        .verify(&presented(&spaced, b"a challenge", &signing))
        .is_err());
    assert_eq!(
        gate.verify(&presented(" SHA256:x= ", b"a challenge", &signing))
            .expect_err("refused")
            .message,
        "the node holds no authorized key with the fingerprint SHA256:x"
    );
}

#[test]
fn proofs_are_read_with_or_without_padding_and_with_white_space_around_them() {
    let (signing, line) = ed25519_pair(7);
    let gate = Verifier::from_authorized_keys(&line).expect("keys");
    let fingerprint = AuthorizedKey::parse(&line).expect("a key").fingerprint();
    let signature = signature_blob("ssh-ed25519", &signing.sign(b"a challenge").to_bytes());
    let attached = |signature: &str, session: &str| {
        Presented::passed(ssh_key(), &fingerprint)
            .with_proof(SIGNATURE_PROOF, signature)
            .with_proof(SESSION_PROOF, session)
    };
    let unpadded = STANDARD_NO_PAD.encode(&signature);
    let session = STANDARD_NO_PAD.encode(b"a challenge");

    assert_eq!(
        gate.verify(&attached(&unpadded, &session)).expect("proven"),
        Verified::Proven
    );
    assert_eq!(
        gate.verify(&attached(
            &format!("\n{}\n", STANDARD.encode(&signature)),
            &format!(" {session}= ")
        ))
        .expect("proven"),
        Verified::Proven
    );
}

#[test]
fn the_first_of_two_proofs_under_one_name_counts() {
    let (signing, line) = ed25519_pair(7);
    let gate = Verifier::from_authorized_keys(&line).expect("keys");
    let fingerprint = AuthorizedKey::parse(&line).expect("a key").fingerprint();
    let first = presented(&fingerprint, b"a challenge", &signing);

    assert_eq!(
        gate.verify(&first.clone().with_proof(SIGNATURE_PROOF, "?"))
            .expect("proven"),
        Verified::Proven
    );
    assert_eq!(
        first.proof_of(SESSION_PROOF),
        Some(STANDARD.encode(b"a challenge").as_str())
    );
    assert_eq!(first.proof_of("other"), None);
    let seen = first.with_evidence("a", "1").with_evidence("a", "2");
    assert_eq!(seen.evidence_of("a"), Some("1"));
    assert_eq!(seen.evidence_of("b"), None);
}

#[test]
fn evidence_does_not_override_what_the_signed_data_names() {
    let (signing, line) = ed25519_pair(7);
    let key = AuthorizedKey::parse(&line)
        .expect("a key")
        .for_user("orders");
    let fingerprint = key.fingerprint();
    let root = signed_data("root", key.blob());
    let orders = signed_data("orders", key.blob());
    let gate = Verifier::new(vec![key]);

    assert!(gate
        .verify(&presented(&fingerprint, &root, &signing).with_evidence(USER, "orders"))
        .is_err());
    assert_eq!(
        gate.verify(&presented(&fingerprint, &orders, &signing).with_evidence(USER, "root"))
            .expect("proven"),
        Verified::Proven
    );
}

#[test]
fn what_is_proven_unnarrowed_is_proven_for_any_user() {
    let (signing, line) = ed25519_pair(7);
    let key = AuthorizedKey::parse(&line).expect("a key");
    let fingerprint = key.fingerprint();
    let data = signed_data("anyone", key.blob());
    let open = Verifier::new(vec![key.clone()]);
    let narrowed = Verifier::new(vec![key.for_user("orders")]);
    let presented = presented(&fingerprint, &data, &signing);

    assert_eq!(open.verify(&presented).expect("proven"), Verified::Proven);
    assert!(narrowed.verify(&presented).is_err());
}

#[test]
fn the_first_of_two_lines_of_one_key_counts_and_other_keys_do_not() {
    let (signing, line) = ed25519_pair(7);
    let (_, other) = ed25519_pair(8);
    let key = AuthorizedKey::parse(&line).expect("a key");
    let other = AuthorizedKey::parse(&other).expect("a key");
    let fingerprint = key.fingerprint();
    let presented = presented(&fingerprint, b"a challenge", &signing);
    let open_first = Verifier::new(vec![
        other.clone(),
        key.clone(),
        key.clone().for_user("orders"),
    ]);
    let narrowed_first = Verifier::new(vec![key.clone().for_user("orders"), key, other]);

    assert!(open_first.verify(&presented).is_ok());
    assert!(narrowed_first.verify(&presented).is_err());
    assert_eq!(
        narrowed_first
            .find(&fingerprint)
            .and_then(|key| key.user().map(str::to_owned)),
        Some("orders".to_owned())
    );
    assert!(narrowed_first.find("SHA256:x").is_none());
    assert!(open_first.clone().verify(&presented).is_ok());
}

#[test]
fn a_signature_over_other_bytes_than_the_session_is_refused() {
    let (signing, line) = ed25519_pair(7);
    let gate = Verifier::from_authorized_keys(&line).expect("keys");
    let fingerprint = AuthorizedKey::parse(&line).expect("a key").fingerprint();
    let signature = signature_blob("ssh-ed25519", &signing.sign(b"a challenge").to_bytes());
    let presented = Presented::passed(ssh_key(), &fingerprint)
        .with_proof(SIGNATURE_PROOF, &STANDARD.encode(signature))
        .with_proof(SESSION_PROOF, &STANDARD.encode(b"a challenge "));

    assert_eq!(
        gate.verify(&presented).expect_err("refused").message,
        "the ssh-ed25519 signature does not verify with the authorized key"
    );
}

#[test]
fn a_file_is_read_line_by_line_and_the_first_bad_line_refuses_it() {
    let (_, first) = ed25519_pair(7);
    let (_, second) = ed25519_pair(8);
    let gate = Verifier::from_authorized_keys(&format!(
        "\r\n  # a comment\r\n\t{first} \r\n\n#{second}\n{second}"
    ))
    .expect("keys");
    let fingerprint = |line: &str| AuthorizedKey::parse(line).expect("a key").fingerprint();

    assert!(gate.find(&fingerprint(&first)).is_some());
    assert!(gate.find(&fingerprint(&second)).is_some());
    let commented = Verifier::from_authorized_keys(&format!("#{first}\n{second}")).expect("keys");
    assert!(commented.find(&fingerprint(&first)).is_none());
    assert!(Verifier::from_authorized_keys("")
        .expect("no keys")
        .find(&fingerprint(&first))
        .is_none());

    let mut file = "# ten lines\n".repeat(10);
    file.push_str("ssh-ed25519 AAAA\nssh-dss AAAA\n");
    assert_eq!(
        Verifier::from_authorized_keys(&file)
            .expect_err("refused")
            .message,
        "line 11: the key blob is truncated"
    );
}

#[test]
fn the_keys_of_a_file_are_the_keys_of_its_lines() {
    let (_, first) = ed25519_pair(7);
    let (_, second) = ed25519_pair(8);
    let gate = Verifier::from_authorized_keys(&format!("{first}\n{second}\n")).expect("keys");

    for line in [&first, &second] {
        let key = AuthorizedKey::parse(line).expect("a key");
        let found = gate.find(&key.fingerprint()).expect("held");
        assert_eq!(found.blob(), key.blob());
        assert_eq!(found.comment(), "partner-x@example");
        assert_eq!(found.user(), None);
    }
}

#[test]
fn signed_data_is_read_and_anything_else_is_an_opaque_challenge() {
    let data = signed_data("orders", b"the blob");
    let signed = Signed::read(&data).expect("signed data");

    assert_eq!(signed.user, "orders");
    assert_eq!(signed.blob, b"the blob");
    for end in 0..data.len() {
        assert!(Signed::read(&data[..end]).is_none());
    }
    let mut longer = data.clone();
    longer.push(0);
    assert!(Signed::read(&longer).is_none());
    let mut other = data.clone();
    other[36] = 51;
    assert!(Signed::read(&other).is_none());
    let method = 36 + 1 + 4 + 6 + 4 + 14 + 4;
    assert_eq!(&data[method..method + 9], b"publickey");
    let mut other = data.clone();
    other[method] = b'P';
    assert!(Signed::read(&other).is_none());
    let mut other = data.clone();
    other[method + 9] = 0;
    assert!(Signed::read(&other).is_none());
    let mut other = data;
    other[41] = 0xff;
    assert!(Signed::read(&other).is_none());
    assert!(Signed::read(b"a challenge").is_none());
}

#[test]
fn a_key_may_stand_for_a_session_that_names_it_and_its_user() {
    let (_, line) = ed25519_pair(7);
    let key = AuthorizedKey::parse(&line).expect("a key");
    let narrowed = key.clone().for_user("orders");
    let data = signed_data("orders", key.blob());

    assert!(admitted(&key, b"a challenge", None).is_ok());
    assert!(admitted(&key, &data, Some("root")).is_ok());
    assert!(admitted(&narrowed, &data, None).is_ok());
    assert!(admitted(&narrowed, b"a challenge", Some("orders")).is_ok());
    assert!(admitted(&narrowed, b"a challenge", Some("root")).is_err());
    assert!(admitted(&narrowed, b"a challenge", None).is_err());
    assert!(admitted(&key, &signed_data("orders", b"other"), None).is_err());
}

#[test]
fn the_gate_verifies_ssh_keys() {
    let gate = Verifier::new(vec![]);

    assert_eq!(gate.mechanism().name(), "ssh-key");
    assert_eq!(ssh_key().name(), "ssh-key");
    assert_eq!(certificate().name(), "certificate");
}

#[test]
fn a_comment_changes_no_answer() {
    let (signing, line) = ed25519_pair(7);
    let other = line.replace("partner-x@example", "someone else");
    let fingerprint = AuthorizedKey::parse(&line).expect("a key").fingerprint();
    let good = presented(&fingerprint, b"a challenge", &signing);
    let bad = presented(&fingerprint, b"a challenge", &ed25519_pair(8).0);

    for presented in [&good, &bad] {
        let answer = |line: &str| {
            Verifier::from_authorized_keys(line)
                .expect("keys")
                .verify(presented)
                .map_err(|refusal| refusal.message)
        };
        assert_eq!(answer(&line), answer(&other));
    }
}
