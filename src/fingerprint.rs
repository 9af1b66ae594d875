//! Content-addressed names of environments.
use vstd::prelude::*;
use vstd::string::StringExecFns;

verus! {

/// The SHA-256 digest of the UTF-8 encoding of `s`, in lowercase hex.
pub uninterp spec fn sha256_hex(s: Seq<char>) -> Seq<char>;

/// A lowercase hexadecimal digit.
pub open spec fn is_lower_hex(c: char) -> bool {
    ('0' <= c && c <= '9') || ('a' <= c && c <= 'f')
}

/// Relies on `sha256::digest` on a `&str`: the SHA-256 digest of its bytes,
/// written by `hex::encode` as two lowercase hex digits per byte of the
/// 32-byte digest.
#[verifier::external_body]
fn sha256_digest(s: &str) -> (r: String)
    ensures
        r@ == sha256_hex(s@),
        r@.len() == 64,
        forall|i: int| 0 <= i < r@.len() ==> is_lower_hex(#[trigger] r@[i]),
{
    sha256::digest(s)
}

/// The text that is digested: the interpreter's identity, a blank line, and
/// the requirements.
pub open spec fn digest_input(identity: Seq<char>, requirements: Seq<char>) -> Seq<char> {
    identity + seq!['\n', '\n'] + requirements
}

/// The fingerprint of an environment for an interpreter identity and a
/// requirements text.
pub open spec fn fingerprint_of(identity: Seq<char>, requirements: Seq<char>) -> Seq<char> {
    sha256_hex(digest_input(identity, requirements))
}

/// The text that is digested for `python_version` (the interpreter's own
/// report of its version) and `requirements`.
pub fn fingerprint_input(python_version: &str, requirements: &str) -> (r: String)
    ensures
        r@ == digest_input(python_version@, requirements@),
{
    let mut s = python_version.to_owned();
    let sep = "\n\n";
    proof {
        reveal_strlit("\n\n");
    }
    s.append(sep);
    s.append(requirements);
    assert(s@ =~= digest_input(python_version@, requirements@));
    s
}

/// The fingerprint naming the environment of an interpreter whose version
/// report is `python_version`, for `requirements`: 64 lowercase hex digits.
pub fn venv_sha(python_version: &str, requirements: &str) -> (r: String)
    ensures
        r@ == fingerprint_of(python_version@, requirements@),
        r@.len() == 64,
        forall|i: int| 0 <= i < r@.len() ==> is_lower_hex(#[trigger] r@[i]),
{
    let input = fingerprint_input(python_version, requirements);
    sha256_digest(input.as_str())
}

/// The fingerprint depends on the identity and the requirements alone:
/// equal inputs give equal fingerprints.
pub proof fn lemma_fingerprint_deterministic(i1: Seq<char>, r1: Seq<char>, i2: Seq<char>, r2: Seq<char>)
    requires
        i1 == i2,
        r1 == r2,
    ensures
        fingerprint_of(i1, r1) == fingerprint_of(i2, r2),
{
}

/// Distinct inputs are digested as distinct texts: for one interpreter,
/// distinct requirements; and distinct identities of which neither is a
/// prefix of the other (as version reports ending in a newline are), whatever
/// the requirements. Distinct fingerprints then follow with the collision
/// resistance of SHA-256.
pub proof fn lemma_digest_input_distinct(i1: Seq<char>, r1: Seq<char>, i2: Seq<char>, r2: Seq<char>)
    ensures
        i1 == i2 && r1 != r2 ==> digest_input(i1, r1) != digest_input(i2, r2),
        !i1.is_prefix_of(i2) && !i2.is_prefix_of(i1) ==> digest_input(i1, r1) != digest_input(i2, r2),
{
    let a = digest_input(i1, r1);
    let b = digest_input(i2, r2);
    if i1 == i2 && r1 != r2 && a == b {
        let k: int = i1.len() as int + 2;
        assert(a.subrange(k, a.len() as int) =~= r1);
        assert(b.subrange(k, b.len() as int) =~= r2);
    }
    if !i1.is_prefix_of(i2) && !i2.is_prefix_of(i1) && a == b {
        if i1.len() <= i2.len() {
            assert forall|j: int| 0 <= j < i1.len() implies i1[j] == i2[j] by {
                assert(a[j] == i1[j]);
                assert(b[j] == i2[j]);
            }
            assert(i1.is_prefix_of(i2));
        } else {
            assert forall|j: int| 0 <= j < i2.len() implies i2[j] == i1[j] by {
                assert(a[j] == i1[j]);
                assert(b[j] == i2[j]);
            }
            assert(i2.is_prefix_of(i1));
        }
    }
}

} // verus!
