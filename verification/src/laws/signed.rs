//! Laws of the signed data: what is read of it is what RFC 4252 section 7 has
//! a client put there, and nothing else is read as signed data.

use vstd::prelude::*;
use vstd::utf8::*;

use crate::laws::wire::{
    a_string_is_read_as_it_was_written, a_string_that_is_read_was_written, fits, put,
    text_is_read_as_it_was_written, text_that_is_read_was_written,
};
use crate::signed::{read_signed, SignedView, USERAUTH_REQUEST};
use crate::wire::{after_string, string_value};

verus! {

/// What a client signs to log `user` in with the key of a blob: RFC 4252 section
/// 7, where fifty is the number of the request.
pub open spec fn signed_data(
    session: Seq<u8>,
    user: Seq<char>,
    service: Seq<u8>,
    algorithm: Seq<u8>,
    blob: Seq<u8>,
) -> Seq<u8> {
    put(session) + (seq![50u8] + (put(encode_utf8(user)) + (put(service) + (put(
        encode_utf8("publickey"@),
    ) + (seq![1u8] + (put(algorithm) + put(blob)))))))
}

/// `bytes` are what a client signs to log `user` in with the key of `blob`, in
/// some session, for some service and with some algorithm.
pub open spec fn is_signed_data(bytes: Seq<u8>, user: Seq<char>, blob: Seq<u8>) -> bool {
    exists|session: Seq<u8>, service: Seq<u8>, algorithm: Seq<u8>|
        {
            &&& fits(session) && fits(encode_utf8(user)) && fits(service) && fits(algorithm)
                && fits(blob)
            &&& bytes == #[trigger] signed_data(session, user, service, algorithm, blob)
        }
}

proof fn lemma_publickey_fits()
    ensures
        fits(encode_utf8("publickey"@)),
{
    reveal_strlit("publickey");
    is_ascii_chars_encode_utf8("publickey"@);
}

/// The user and the key blob that a client put into the signed data are read
/// back.
pub proof fn signed_data_is_read_as_it_was_written(
    session: Seq<u8>,
    user: Seq<char>,
    service: Seq<u8>,
    algorithm: Seq<u8>,
    blob: Seq<u8>,
)
    requires
        fits(session),
        fits(encode_utf8(user)),
        fits(service),
        fits(algorithm),
        fits(blob),
    ensures
        read_signed(signed_data(session, user, service, algorithm, blob)) == Some(
            SignedView { user, blob },
        ),
{
    lemma_publickey_fits();
    let what = "signed data"@;
    let from_blob = put(blob);
    let from_algorithm = put(algorithm) + from_blob;
    let from_one = seq![1u8] + from_algorithm;
    let from_method = put(encode_utf8("publickey"@)) + from_one;
    let from_service = put(service) + from_method;
    let from_user = put(encode_utf8(user)) + from_service;
    let from_number = seq![USERAUTH_REQUEST] + from_user;
    a_string_is_read_as_it_was_written(session, from_number, what);
    assert(from_number.skip(1) =~= from_user);
    text_is_read_as_it_was_written(user, from_service, what);
    a_string_is_read_as_it_was_written(service, from_method, what);
    text_is_read_as_it_was_written("publickey"@, from_one, what);
    assert(from_one.skip(1) =~= from_algorithm);
    a_string_is_read_as_it_was_written(algorithm, from_blob, what);
    a_string_is_read_as_it_was_written(blob, seq![], what);
    assert(from_blob + seq![] =~= from_blob);
}

/// Bytes are read as signed data for a user and a key blob exactly where they
/// are what a client signs for that user and that key.
#[verifier::rlimit(30)]
pub proof fn signed_data_is_what_a_client_signs(data: Seq<u8>, user: Seq<char>, blob: Seq<u8>)
    ensures
        read_signed(data) == Some(SignedView { user, blob }) <==> is_signed_data(data, user, blob),
{
    if read_signed(data) == Some(SignedView { user, blob }) {
        let what = "signed data"@;
        let from_number = after_string(data);
        let from_user = from_number.skip(1);
        let from_service = after_string(from_user);
        let from_method = after_string(from_service);
        let from_one = after_string(from_method);
        let from_algorithm = from_one.skip(1);
        let from_blob = after_string(from_algorithm);
        a_string_that_is_read_was_written(data);
        assert(from_number =~= seq![USERAUTH_REQUEST] + from_user);
        text_that_is_read_was_written(from_user, what);
        a_string_that_is_read_was_written(from_service);
        text_that_is_read_was_written(from_method, what);
        assert(from_one =~= seq![1u8] + from_algorithm);
        a_string_that_is_read_was_written(from_algorithm);
        a_string_that_is_read_was_written(from_blob);
        assert(put(blob) + after_string(from_blob) =~= put(blob));
        let session = string_value(data);
        let service = string_value(from_service);
        let algorithm = string_value(from_algorithm);
        assert(data == signed_data(session, user, service, algorithm, blob));
    }
    if is_signed_data(data, user, blob) {
        let (session, service, algorithm) = choose|
            session: Seq<u8>,
            service: Seq<u8>,
            algorithm: Seq<u8>,
        |
            {
                &&& fits(session) && fits(encode_utf8(user)) && fits(service) && fits(algorithm)
                    && fits(blob)
                &&& data == #[trigger] signed_data(session, user, service, algorithm, blob)
            };
        signed_data_is_read_as_it_was_written(session, user, service, algorithm, blob);
    }
}

} // verus!
