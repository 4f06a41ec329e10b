# authenticate_ssh_key

Authenticate by ssh-key: verifies a signature over a challenge by the presented
key, in Rust that is verified with Verus.

It finds the presented key, by its SHA-256 fingerprint, among the
`authorized_keys` lines the node holds, and verifies the SSH signature blob over
the signed session data with it: `ssh-ed25519`, `ecdsa-sha2-nistp256` and
`rsa-sha2-256`. It refuses `ssh-rsa` (SHA-1), `rsa-sha2-512`, the other curves,
certificates and `sk-` keys by name, and it does not rebuild the RFC 4252 signed
data: the transport reports exactly what was signed.

## Layout

- `cursor`, `wire`: the SSH wire types, read off borrowed bytes.
- `text`, `encoding`: words, lines and base64, as models over characters.
- `crypto`: digests and signature checks, which other crates compute.
- `key`: one `authorized_keys` line, its fingerprint, the check of a signature.
- `signed`: what a client signs, RFC 4252 section 7.
- `mechanism`, `presented`, `error`: what is presented and what is answered.
- `gate`: the authenticator itself.
- `laws`: what holds of all of it together, as proof functions.

## What is trusted

The arithmetic of signatures and digests is called, not proved. Each call of another
crate stands in a small function of its own, whose contract is trusted and whose
doc comment says what is claimed: in `crypto` for `sha2`, `ed25519-dalek`, `p256`
and `rsa`, in `encoding` for `base64`, and in `wire` and `text` for two functions
of the standard library.
