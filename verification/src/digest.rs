//! SHA-256 digests of files, in hexadecimal, and whether two files agree in
//! them.
use sha2::Digest;
use vstd::prelude::*;

verus! {

/// The SHA-256 digest of `data`.
pub uninterp spec fn sha256(data: Seq<u8>) -> Seq<u8>;

/// `sha2::Sha256::digest`: the SHA-256 digest of the data, 32 bytes.
#[verifier::external_body]
fn sha256_digest(data: &[u8]) -> (r: Vec<u8>)
    ensures
        r@ == sha256(data@),
        r@.len() == 32,
{
    sha2::Sha256::digest(data).to_vec()
}

/// The hexadecimal digit of `n`, with lower case letters.
pub open spec fn hex_digit(n: nat) -> char {
    if n < 10 {
        (('0' as nat) + n) as char
    } else {
        (('a' as nat) + n - 10) as char
    }
}

/// Two digits for each byte, the high half first.
pub open spec fn hex_text(data: Seq<u8>) -> Seq<char> {
    Seq::new(
        2 * data.len(),
        |i: int|
            if i % 2 == 0 {
                hex_digit((data[i / 2] / 16) as nat)
            } else {
                hex_digit((data[i / 2] % 16) as nat)
            },
    )
}

/// `hex::encode`: two lower case hexadecimal digits for each byte.
#[verifier::external_body]
fn hex_encode(data: &[u8]) -> (r: String)
    ensures
        r@ == hex_text(data@),
{
    hex::encode(data)
}

/// The SHA-256 digest of the contents of a file, in hexadecimal.
pub fn file_hash(contents: &[u8]) -> (r: String)
    ensures
        r@ == hex_text(sha256(contents@)),
{
    let digest: Vec<u8> = sha256_digest(contents);
    hex_encode(digest.as_slice())
}

/// Different bytes have different digits.
pub proof fn law_hex_is_injective(a: Seq<u8>, b: Seq<u8>)
    requires
        hex_text(a) == hex_text(b),
    ensures
        a == b,
{
    assert(hex_text(a).len() == 2 * a.len());
    assert(hex_text(b).len() == 2 * b.len());
    assert forall|i: int| 0 <= i < a.len() implies a[i] == b[i] by {
        let x = a[i];
        let y = b[i];
        assert(hex_text(a)[2 * i] == hex_text(b)[2 * i]);
        assert(hex_text(a)[2 * i + 1] == hex_text(b)[2 * i + 1]);
        assert((2 * i) / 2 == i && (2 * i) % 2 == 0);
        assert((2 * i + 1) / 2 == i && (2 * i + 1) % 2 == 1);
        assert(hex_text(a)[2 * i] == hex_digit((x / 16) as nat));
        assert(hex_text(b)[2 * i] == hex_digit((y / 16) as nat));
        assert(hex_text(a)[2 * i + 1] == hex_digit((x % 16) as nat));
        assert(hex_text(b)[2 * i + 1] == hex_digit((y % 16) as nat));
        assert(hex_digit((x / 16) as nat) == hex_digit((y / 16) as nat));
        assert(hex_digit((x % 16) as nat) == hex_digit((y % 16) as nat));
        assert(x / 16 == y / 16);
        assert(x % 16 == y % 16);
    }
    assert(a =~= b);
}

/// Both files could be read, and they have the same digest.
pub open spec fn same_digest(left: Option<Seq<u8>>, right: Option<Seq<u8>>) -> bool {
    match (left, right) {
        (Some(left), Some(right)) => sha256(left) == sha256(right),
        _ => false,
    }
}

/// Whether two files have the same digest. A file that could not be read has
/// the digest of no other.
pub fn hashes_match(left: &Option<Vec<u8>>, right: &Option<Vec<u8>>) -> (r: bool)
    ensures
        r == same_digest(left.deep_view(), right.deep_view()),
{
    match (left, right) {
        (Some(left), Some(right)) => {
            let a: String = file_hash(left.as_slice());
            let b: String = file_hash(right.as_slice());
            assert(left.deep_view() =~= left@);
            assert(right.deep_view() =~= right@);
            proof {
                if a@ == b@ {
                    law_hex_is_injective(sha256(left@), sha256(right@));
                }
            }
            a == b
        },
        _ => false,
    }
}

/// A file that can be read agrees with itself, and so with every copy of it.
pub proof fn law_copies_match(contents: Seq<u8>)
    ensures
        same_digest(Some(contents), Some(contents)),
{
}

/// It does not matter which file comes first; and what two files agree with,
/// they agree in.
pub proof fn law_matching_is_an_equivalence(
    a: Option<Seq<u8>>,
    b: Option<Seq<u8>>,
    c: Option<Seq<u8>>,
)
    ensures
        same_digest(a, b) == same_digest(b, a),
        same_digest(a, b) && same_digest(b, c) ==> same_digest(a, c),
{
}

/// Two files that could be read match just where the SHA-256 digests of their whole
/// contents are equal; a file that could not be read matches none.
pub proof fn law_files_match_by_their_digests(a: Seq<u8>, b: Seq<u8>, other: Option<Seq<u8>>)
    ensures
        same_digest(Some(a), Some(b)) <==> sha256(a) == sha256(b),
        !same_digest(None, other),
        !same_digest(other, None),
{
}

/// The value of a hexadecimal digit, if it is one in lower case.
pub open spec fn hex_value(c: char) -> int {
    if 48 <= c as int <= 57 {
        c as int - 48
    } else if 97 <= c as int <= 102 {
        c as int - 87
    } else {
        -1
    }
}

/// Two hexadecimal digits in lower case stand for each byte, in order: together they
/// are worth the byte.
pub proof fn law_hex_digits_are_worth_the_bytes(data: Seq<u8>)
    ensures
        hex_text(data).len() == 2 * data.len(),
        forall|i: int|
            0 <= i < data.len() ==> {
                &&& 0 <= hex_value(hex_text(data)[2 * i])
                &&& 0 <= hex_value(hex_text(data)[2 * i + 1])
                &&& 16 * hex_value(hex_text(data)[2 * i]) + hex_value(hex_text(data)[2 * i + 1])
                    == #[trigger] data[i]
            },
{
    assert forall|i: int| 0 <= i < data.len() implies {
        &&& 0 <= hex_value(hex_text(data)[2 * i])
        &&& 0 <= hex_value(hex_text(data)[2 * i + 1])
        &&& 16 * hex_value(hex_text(data)[2 * i]) + hex_value(hex_text(data)[2 * i + 1])
            == #[trigger] data[i]
    } by {
        let b = data[i];
        assert((2 * i) / 2 == i && (2 * i) % 2 == 0);
        assert((2 * i + 1) / 2 == i && (2 * i + 1) % 2 == 1);
        assert(hex_text(data)[2 * i] == hex_digit((b / 16) as nat));
        assert(hex_text(data)[2 * i + 1] == hex_digit((b % 16) as nat));
    }
}

} // verus!
