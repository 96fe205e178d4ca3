//! Text helpers shared by the previews and the blob names: decimal and
//! lowercase hexadecimal rendering, and the UTF-8 conversions of std that the
//! clipboard code relies on.

use vstd::prelude::*;
use vstd::utf8::{valid_utf8, decode_utf8, encode_utf8};

verus! {

/// The character of a digit value below sixteen (lowercase for ten and up).
pub open spec fn digit_char(d: int) -> char {
    seq!['0', '1', '2', '3', '4', '5', '6', '7', '8', '9', 'a', 'b', 'c', 'd', 'e', 'f'][d]
}

/// `n` written in decimal, without leading zeros.
pub open spec fn decimal_chars(n: nat) -> Seq<char>
    decreases n,
{
    if n < 10 {
        seq![digit_char(n as int)]
    } else {
        decimal_chars(n / 10) + seq![digit_char((n % 10) as int)]
    }
}

/// The two lowercase hexadecimal digits of a byte.
pub open spec fn hex_byte_chars(b: u8) -> Seq<char> {
    seq![digit_char((b / 16) as int), digit_char((b % 16) as int)]
}

/// A byte string written as lowercase hexadecimal, two digits per byte.
pub open spec fn hex_chars(bytes: Seq<u8>) -> Seq<char>
    decreases bytes.len(),
{
    if bytes.len() == 0 {
        seq![]
    } else {
        hex_chars(bytes.drop_last()) + hex_byte_chars(bytes.last())
    }
}

/// The one-character string of a digit value.
fn digit_str(d: u8) -> (s: &'static str)
    requires
        d < 16,
    ensures
        s@ == seq![digit_char(d as int)],
{
    proof {
        reveal_strlit("0");
        reveal_strlit("1");
        reveal_strlit("2");
        reveal_strlit("3");
        reveal_strlit("4");
        reveal_strlit("5");
        reveal_strlit("6");
        reveal_strlit("7");
        reveal_strlit("8");
        reveal_strlit("9");
        reveal_strlit("a");
        reveal_strlit("b");
        reveal_strlit("c");
        reveal_strlit("d");
        reveal_strlit("e");
        reveal_strlit("f");
    }
    match d {
        0 => "0",
        1 => "1",
        2 => "2",
        3 => "3",
        4 => "4",
        5 => "5",
        6 => "6",
        7 => "7",
        8 => "8",
        9 => "9",
        10 => "a",
        11 => "b",
        12 => "c",
        13 => "d",
        14 => "e",
        _ => "f",
    }
}

/// `n` written in decimal, as `{}` formats an unsigned integer.
pub fn decimal_string(n: usize) -> (s: String)
    ensures
        s@ == decimal_chars(n as nat),
    decreases n,
{
    if n < 10 {
        String::from_str(digit_str(n as u8))
    } else {
        let mut s = decimal_string(n / 10);
        s.append(digit_str((n % 10) as u8));
        s
    }
}

/// A byte string as lowercase hexadecimal, as `{:02x}` formats each byte.
pub fn hex_string(bytes: &[u8]) -> (s: String)
    ensures
        s@ == hex_chars(bytes@),
{
    let mut s = String::new();
    let mut i: usize = 0;
    while i < bytes.len()
        invariant
            i <= bytes@.len(),
            s@ == hex_chars(bytes@.take(i as int)),
        decreases bytes@.len() - i,
    {
        let b = bytes[i];
        s.append(digit_str(b / 16));
        s.append(digit_str(b % 16));
        proof {
            assert(bytes@.take(i + 1).drop_last() =~= bytes@.take(i as int));
        }
        i = i + 1;
    }
    proof {
        assert(bytes@.take(bytes@.len() as int) =~= bytes@);
    }
    s
}

/// The text that `String::from_utf8_lossy` makes of a byte string.
pub uninterp spec fn utf8_lossy(bytes: Seq<u8>) -> Seq<char>;

/// `String::from_utf8_lossy`, made owned: the text of `data`, with each
/// invalid sequence replaced by U+FFFD.  Claimed: the result is a function
/// of `data`, valid UTF-8 is decoded unchanged (std's documentation), and
/// its UTF-8 form fits in one allocation, as every `String` does.
#[verifier::external_body]
pub(crate) fn lossy_string(data: &[u8]) -> (s: String)
    ensures
        s@ == utf8_lossy(data@),
        encode_utf8(s@).len() <= isize::MAX,
        valid_utf8(data@) ==> s@ == decode_utf8(data@),
{
    String::from_utf8_lossy(data).into_owned()
}


/// The bytes of `http://`.
pub open spec fn http_scheme() -> Seq<u8> {
    seq![104u8, 116u8, 116u8, 112u8, 58u8, 47u8, 47u8]
}

/// The bytes of `https://`.
pub open spec fn https_scheme() -> Seq<u8> {
    seq![104u8, 116u8, 116u8, 112u8, 115u8, 58u8, 47u8, 47u8]
}

/// Whether text (given by its UTF-8 bytes) starts with `http://` or `https://`.
pub open spec fn has_url_scheme(bytes: Seq<u8>) -> bool {
    bytes.take(7) == http_scheme() && bytes.len() >= 7 || bytes.take(8) == https_scheme()
        && bytes.len() >= 8
}

/// Whether `data` starts with `prefix`.
pub(crate) fn starts_with(data: &[u8], prefix: &[u8]) -> (r: bool)
    ensures
        r == (data@.len() >= prefix@.len() && data@.take(prefix@.len() as int) == prefix@),
{
    if data.len() < prefix.len() {
        return false;
    }
    let mut i: usize = 0;
    while i < prefix.len()
        invariant
            i <= prefix@.len() <= data@.len(),
            forall|j: int| 0 <= j < i ==> data@[j] == prefix@[j],
        decreases prefix@.len() - i,
    {
        if data[i] != prefix[i] {
            return false;
        }
        i = i + 1;
    }
    assert(data@.take(prefix@.len() as int) =~= prefix@);
    true
}

/// Whether text (given by its UTF-8 bytes) starts with a web URL scheme.
pub fn starts_with_url_scheme(data: &[u8]) -> (r: bool)
    ensures
        r == has_url_scheme(data@),
{
    let http: [u8; 7] = [104, 116, 116, 112, 58, 47, 47];
    let https: [u8; 8] = [104, 116, 116, 112, 115, 58, 47, 47];
    starts_with(data, http.as_slice()) || starts_with(data, https.as_slice())
}

/// Hexadecimal text is twice as long as the bytes it writes.
pub proof fn lemma_hex_chars_len(bytes: Seq<u8>)
    ensures
        hex_chars(bytes).len() == 2 * bytes.len(),
    decreases bytes.len(),
{
    if bytes.len() > 0 {
        lemma_hex_chars_len(bytes.drop_last());
    }
}

/// Different byte strings of one length are written as different
/// hexadecimal texts; in particular, different content hashes name
/// different blobs.
pub proof fn lemma_hex_chars_injective(a: Seq<u8>, b: Seq<u8>)
    requires
        a.len() == b.len(),
        hex_chars(a) == hex_chars(b),
    ensures
        a == b,
    decreases a.len(),
{
    if a.len() > 0 {
        let (pa, pb) = (a.drop_last(), b.drop_last());
        lemma_hex_chars_len(pa);
        lemma_hex_chars_len(pb);
        let n = 2 * pa.len();
        assert(hex_chars(pa) =~= hex_chars(a).take(n as int));
        assert(hex_chars(pb) =~= hex_chars(b).take(n as int));
        assert(hex_byte_chars(a.last()) =~= hex_chars(a).skip(n as int));
        assert(hex_byte_chars(b.last()) =~= hex_chars(b).skip(n as int));
        lemma_hex_chars_injective(pa, pb);
        let (x, y) = (a.last(), b.last());
        assert(digit_char((x / 16) as int) == digit_char((y / 16) as int));
        assert(digit_char((x % 16) as int) == digit_char((y % 16) as int));
        assert(x / 16 == y / 16 && x % 16 == y % 16);
        assert(x == y);
        assert(a =~= pa.push(x));
        assert(b =~= pb.push(y));
    } else {
        assert(a =~= b);
    }
}

} // verus!
