//! Content digests: SHA-256, written as lowercase hexadecimal.

use sha2::Digest;
use vstd::prelude::*;
use vstd::string::*;

verus! {

/// The SHA-256 digest of a byte string.
pub uninterp spec fn sha256_of(bytes: Seq<u8>) -> Seq<u8>;

/// Digests a byte string with `sha2::Sha256::digest`.
///
/// The digest is named [`sha256_of`]: it depends on the bytes alone. What is
/// claimed of it besides is its size, thirty-two bytes for every input.
#[verifier::external_body]
fn sha256(bytes: &[u8]) -> (digest: Vec<u8>)
    ensures
        digest@ == sha256_of(bytes@),
        digest@.len() == 32,
{
    sha2::Sha256::digest(bytes).to_vec()
}

/// The lowercase character of one hexadecimal digit.
pub open spec fn hex_char(digit: nat) -> char {
    let digits = seq![
        '0',
        '1',
        '2',
        '3',
        '4',
        '5',
        '6',
        '7',
        '8',
        '9',
        'a',
        'b',
        'c',
        'd',
        'e',
        'f',
    ];
    digits[digit as int]
}

/// A byte string in lowercase hexadecimal, two characters to the byte.
pub open spec fn hex_text(bytes: Seq<u8>) -> Seq<char> {
    Seq::new(
        2 * bytes.len(),
        |i: int|
            if i % 2 == 0 {
                hex_char((bytes[i / 2] / 16) as nat)
            } else {
                hex_char((bytes[i / 2] % 16) as nat)
            },
    )
}

/// The digest of a byte string as it is written.
pub open spec fn sha256_hex(bytes: Seq<u8>) -> Seq<char> {
    hex_text(sha256_of(bytes))
}

/// Two byte strings written alike are alike.
pub proof fn hex_is_injective(a: Seq<u8>, b: Seq<u8>)
    requires
        hex_text(a) == hex_text(b),
    ensures
        a == b,
{
    assert(hex_text(a).len() == 2 * a.len() && hex_text(b).len() == 2 * b.len());
    assert forall|i: int| 0 <= i < a.len() implies a[i] == b[i] by {
        assert((2 * i) / 2 == i && (2 * i) % 2 == 0);
        assert((2 * i + 1) / 2 == i && (2 * i + 1) % 2 == 1);
        assert(hex_text(a)[2 * i] == hex_char((a[i] / 16) as nat));
        assert(hex_text(b)[2 * i] == hex_char((b[i] / 16) as nat));
        assert(hex_text(a)[2 * i + 1] == hex_char((a[i] % 16) as nat));
        assert(hex_text(b)[2 * i + 1] == hex_char((b[i] % 16) as nat));
        lemma_hex_char((a[i] / 16) as nat, (b[i] / 16) as nat);
        lemma_hex_char((a[i] % 16) as nat, (b[i] % 16) as nat);
    }
    assert(a =~= b);
}

proof fn lemma_hex_char(a: nat, b: nat)
    requires
        a < 16,
        b < 16,
        hex_char(a) == hex_char(b),
    ensures
        a == b,
{
}

fn hex_str(digit: u8) -> (text: &'static str)
    requires
        digit < 16,
    ensures
        text@ == seq![hex_char(digit as nat)],
{
    proof {
        reveal_strlit("0");
        reveal_strlit("1");
        reveal_strlit("2");
        reveal_strlit("3");
        reveal_strlit("4");
        reveal_strlit("5");
        reveal_strlit("6");
        reveal_strlit("7");
        reveal_strlit("8");
        reveal_strlit("9");
        reveal_strlit("a");
        reveal_strlit("b");
        reveal_strlit("c");
        reveal_strlit("d");
        reveal_strlit("e");
        reveal_strlit("f");
    }
    let text = match digit {
        0 => "0",
        1 => "1",
        2 => "2",
        3 => "3",
        4 => "4",
        5 => "5",
        6 => "6",
        7 => "7",
        8 => "8",
        9 => "9",
        10 => "a",
        11 => "b",
        12 => "c",
        13 => "d",
        14 => "e",
        _ => "f",
    };
    assert(text@ =~= seq![hex_char(digit as nat)]);
    text
}

/// Writes a byte string in lowercase hexadecimal.
pub fn to_hex(bytes: &Vec<u8>) -> (text: String)
    ensures
        text@ == hex_text(bytes@),
{
    let mut text = String::new();
    let mut i: usize = 0;
    while i < bytes.len()
        invariant
            i <= bytes.len(),
            text@ == hex_text(bytes@.subrange(0, i as int)),
        decreases bytes.len() - i,
    {
        let byte = bytes[i];
        let ghost before = text@;
        text.append(hex_str(byte / 16));
        text.append(hex_str(byte % 16));
        proof {
            let done = bytes@.subrange(0, i + 1);
            assert(bytes@.subrange(0, i as int) =~= done.drop_last());
            assert(text@ =~= hex_text(done));
        }
        i = i + 1;
    }
    proof {
        assert(bytes@.subrange(0, bytes@.len() as int) =~= bytes@);
    }
    text
}

/// Digests a text's UTF-8 form and writes the digest.
pub fn sha256_hex_of_text(text: &str) -> (hex: String)
    ensures
        hex@ == sha256_hex(text.spec_bytes()),
        hex@.len() == 64,
{
    let digest = sha256(text.as_bytes());
    to_hex(&digest)
}

} // verus!
