use vstd::prelude::*;
use vstd::string::StringExecFns;

verus! {

/// The SHA-256 digest of a byte sequence.
pub uninterp spec fn sha256_of(data: Seq<u8>) -> Seq<u8>;

/// The ASCII code of the lowercase hexadecimal digit for `n` (below 16).
pub open spec fn hex_digit(n: u8) -> u8 {
    if n < 10 {
        (48 + n) as u8
    } else {
        (87 + n) as u8
    }
}

/// Lowercase hexadecimal text of `b` as ASCII codes: two digits per byte, high nibble first.
pub open spec fn hex_ascii(b: Seq<u8>) -> Seq<u8> {
    Seq::new(
        2 * b.len(),
        |i: int|
            if i % 2 == 0 {
                hex_digit(b[i / 2] / 16)
            } else {
                hex_digit(b[i / 2] % 16)
            },
    )
}

/// Lowercase hexadecimal text of `b`.
pub open spec fn hex_text(b: Seq<u8>) -> Seq<char> {
    hex_ascii(b).map_values(|c: u8| c as char)
}

/// The content digest of a module: hexadecimal SHA-256 of its exact bytes.
pub open spec fn digest_of(data: Seq<u8>) -> Seq<char> {
    hex_text(sha256_of(data))
}

/// Relies on `sha2::Sha256::digest` (through the `Digest` trait): it returns the
/// 32-byte SHA-256 digest of the input.
#[verifier::external_body]
fn sha256(data: &[u8]) -> (r: Vec<u8>)
    ensures
        r@ == sha256_of(data@),
        r@.len() == 32,
{
    <sha2::Sha256 as sha2::Digest>::digest(data).to_vec()
}

/// The one-character text of the hexadecimal digit for `n`.
fn hex_digit_text(n: u8) -> (r: &'static str)
    requires
        n < 16,
    ensures
        r@ == seq![hex_digit(n) as char],
{
    proof {
        reveal_strlit("0");
        reveal_strlit("1");
        reveal_strlit("2");
        reveal_strlit("3");
        reveal_strlit("4");
        reveal_strlit("5");
        reveal_strlit("6");
        reveal_strlit("7");
        reveal_strlit("8");
        reveal_strlit("9");
        reveal_strlit("a");
        reveal_strlit("b");
        reveal_strlit("c");
        reveal_strlit("d");
        reveal_strlit("e");
        reveal_strlit("f");
    }
    if n == 0 {
        "0"
    } else if n == 1 {
        "1"
    } else if n == 2 {
        "2"
    } else if n == 3 {
        "3"
    } else if n == 4 {
        "4"
    } else if n == 5 {
        "5"
    } else if n == 6 {
        "6"
    } else if n == 7 {
        "7"
    } else if n == 8 {
        "8"
    } else if n == 9 {
        "9"
    } else if n == 10 {
        "a"
    } else if n == 11 {
        "b"
    } else if n == 12 {
        "c"
    } else if n == 13 {
        "d"
    } else if n == 14 {
        "e"
    } else {
        "f"
    }
}

/// Encodes bytes as lowercase hexadecimal text.
pub fn hex_encode(b: &[u8]) -> (r: String)
    requires
        b@.len() <= usize::MAX / 2,
    ensures
        r@ == hex_text(b@),
        r@.len() == 2 * b@.len(),
{
    let mut out = String::new();
    let mut i: usize = 0;
    while i < b.len()
        invariant
            i <= b@.len(),
            b@.len() <= usize::MAX / 2,
            out@ =~= hex_text(b@.subrange(0, i as int)),
        decreases b@.len() - i,
    {
        let x = b[i];
        out.append(hex_digit_text(x / 16));
        out.append(hex_digit_text(x % 16));
        proof {
            let s = b@.subrange(0, i as int + 1);
            assert(s.subrange(0, i as int) =~= b@.subrange(0, i as int));
        }
        i = i + 1;
    }
    proof {
        assert(b@.subrange(0, b@.len() as int) =~= b@);
    }
    out
}

/// The content digest of `data`: hexadecimal SHA-256, 64 characters.
pub fn digest(data: &[u8]) -> (r: String)
    ensures
        r@ == digest_of(data@),
        r@.len() == 64,
{
    let h = sha256(data);
    hex_encode(h.as_slice())
}

/// The digest is a function of the bytes alone: equal contents always give equal digests.
pub proof fn lemma_digest_stable(a: Seq<u8>, b: Seq<u8>)
    requires
        a == b,
    ensures
        digest_of(a) == digest_of(b),
{
}

} // verus!
