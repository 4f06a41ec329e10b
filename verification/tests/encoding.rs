use authenticate_ssh_key::encoding::{decode, decode_leniently};
use authenticate_ssh_key::key::fingerprint_of;
use base64::engine::general_purpose::{STANDARD, STANDARD_NO_PAD};
use base64::Engine;

#[test]
fn base64_with_its_padding_is_decoded() {
    assert_eq!(decode("c2ln"), Some(b"sig".to_vec()));
    assert_eq!(decode("YWI="), Some(b"ab".to_vec()));
    assert_eq!(decode("YQ=="), Some(b"a".to_vec()));
    assert_eq!(decode("+/+/"), Some(vec![0xfb, 0xff, 0xbf]));
    assert_eq!(decode(""), Some(vec![]));
}

#[test]
fn base64_that_is_not_canonical_is_refused() {
    for text in [
        "YQ", "YQ=", "YWI", "YQ===", "YR==", "YWJ=", "=", "====", "Y", "YQ==YQ==", "YQ ==", " c2ln",
        "c2l_", "c2l-", "c2\u{e9}n",
    ] {
        assert_eq!(decode(text), None, "{text:?}");
    }
}

#[test]
fn padding_may_be_left_off_where_it_is_optional() {
    for text in ["YQ", "YQ=", "YQ=="] {
        assert_eq!(decode_leniently(text), Some(b"a".to_vec()), "{text:?}");
    }
    for text in ["YWI", "YWI="] {
        assert_eq!(decode_leniently(text), Some(b"ab".to_vec()), "{text:?}");
    }
    assert_eq!(decode_leniently("c2ln"), Some(b"sig".to_vec()));
    assert_eq!(decode_leniently(""), Some(vec![]));
}

#[test]
fn what_is_no_base64_is_refused_with_or_without_padding() {
    for text in [
        "YQ===", "YR", "YR==", "YWJ", "YWJ=", "YWI==", "c2ln=", "c2ln==", "=", "==", "====", "Y",
        "Y=", "Y===", "YQ ", "c2l_", "YQ==YQ",
    ] {
        assert_eq!(decode_leniently(text), None, "{text:?}");
    }
}

#[test]
fn bytes_of_every_length_are_decoded_as_they_were_encoded() {
    let bytes: Vec<u8> = (0..=255u8).rev().collect();
    for end in 0..=bytes.len() {
        let some = &bytes[..end];
        let padded = STANDARD.encode(some);
        let unpadded = STANDARD_NO_PAD.encode(some);
        assert_eq!(decode(&padded).as_deref(), Some(some));
        assert_eq!(decode_leniently(&padded).as_deref(), Some(some));
        assert_eq!(decode_leniently(&unpadded).as_deref(), Some(some));
        assert_eq!(decode(&unpadded).is_some(), end % 3 == 0);
    }
}

#[test]
fn a_digest_is_printed_without_padding() {
    let mut digest = [0u8; 32];
    for (i, byte) in digest.iter_mut().enumerate() {
        *byte = u8::try_from(i).expect("a byte");
    }

    assert_eq!(
        fingerprint_of(&digest),
        "SHA256:AAECAwQFBgcICQoLDA0ODxAREhMUFRYXGBkaGxwdHh8"
    );
    assert_eq!(
        fingerprint_of(&[0xff; 32]),
        format!("SHA256:{}8", "/".repeat(42))
    );
}
