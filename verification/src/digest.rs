//! SHA-256 digests and their hexadecimal text form.
//!
//! A digest is a fixed 32-byte value that identifies blob content. It
//! round-trips losslessly through a 64-character lowercase-hex string;
//! decoding rejects any string whose length differs from that.

use sha2::Digest;
use vstd::array::ArrayAdditionalExecFns;
use vstd::prelude::*;
use vstd::slice::slice_subrange;

use crate::errors::Error;

verus! {

/// The lowercase hexadecimal digits, indexed by value.
pub const HEX_DIGITS: [char; 16] = [
    '0', '1', '2', '3', '4', '5', '6', '7', '8', '9', 'a', 'b', 'c', 'd', 'e', 'f',
];

/// The two lowercase hex characters that render one byte.
pub open spec fn byte_hex(b: u8) -> Seq<char> {
    seq![HEX_DIGITS@[b as int / 16], HEX_DIGITS@[b as int % 16]]
}

/// The lowercase hexadecimal rendering of a byte sequence.
pub open spec fn hex_of(data: Seq<u8>) -> Seq<char>
    decreases data.len(),
{
    if data.len() == 0 {
        Seq::<char>::empty()
    } else {
        byte_hex(data.first()) + hex_of(data.drop_first())
    }
}

/// Whether `c` is a hexadecimal digit, in either letter case.
pub open spec fn is_hex_digit(c: char) -> bool {
    let u = c as u32;
    (48 <= u && u <= 57) || (97 <= u && u <= 102) || (65 <= u && u <= 70)
}

/// Whether every character of `t` is a hexadecimal digit.
pub open spec fn all_hex_digits(t: Seq<char>) -> bool {
    forall|i: int| 0 <= i < t.len() ==> is_hex_digit(#[trigger] t[i])
}

/// Whether every character of `t` is a lowercase hexadecimal digit.
pub open spec fn is_lower_hex(t: Seq<char>) -> bool {
    forall|i: int| 0 <= i < t.len() ==> HEX_DIGITS@.contains(#[trigger] t[i])
}

/// The value of one hexadecimal digit character.
pub open spec fn hex_digit_val(c: char) -> u8 {
    let u = c as u32;
    if 48 <= u && u <= 57 {
        (u - 48) as u8
    } else if 97 <= u && u <= 102 {
        (u - 87) as u8
    } else {
        (u - 55) as u8
    }
}

/// The byte written as the two hex digit characters `c1`, `c2`.
pub open spec fn hex_pair(c1: char, c2: char) -> u8 {
    (hex_digit_val(c1) * 16 + hex_digit_val(c2)) as u8
}

/// The bytes read from a hexadecimal string, two characters at a time.
pub open spec fn bytes_of_hex(t: Seq<char>) -> Seq<u8>
    decreases t.len(),
{
    if t.len() < 2 {
        Seq::<u8>::empty()
    } else {
        seq![hex_pair(t[0], t[1])] + bytes_of_hex(t.skip(2))
    }
}

/// A hex rendering is twice as long as the bytes it renders.
pub proof fn lemma_hex_of_len(data: Seq<u8>)
    ensures
        hex_of(data).len() == 2 * data.len(),
    decreases data.len(),
{
    if data.len() > 0 {
        lemma_hex_of_len(data.drop_first());
    }
}

/// Each hex digit character maps back to the value it was chosen for.
proof fn lemma_hex_digit_roundtrip(n: u8)
    requires
        n < 16,
    ensures
        HEX_DIGITS@.contains(HEX_DIGITS@[n as int]),
        is_hex_digit(HEX_DIGITS@[n as int]),
        hex_digit_val(HEX_DIGITS@[n as int]) == n,
{
    assert(HEX_DIGITS@[n as int] == HEX_DIGITS@[n as int]);
}

/// A lowercase hex digit character is rendered back by `HEX_DIGITS`.
proof fn lemma_hex_char_roundtrip(c: char)
    requires
        HEX_DIGITS@.contains(c),
    ensures
        is_hex_digit(c),
        hex_digit_val(c) < 16,
        HEX_DIGITS@[hex_digit_val(c) as int] == c,
{
    let n = choose|n: int| 0 <= n < 16 && HEX_DIGITS@[n] == c;
    lemma_hex_digit_roundtrip(n as u8);
}

/// Decoding inverts encoding: the bytes read back from a hex rendering are
/// the bytes that were rendered, and the rendering is all lowercase hex.
pub proof fn lemma_bytes_of_hex_of(data: Seq<u8>)
    ensures
        bytes_of_hex(hex_of(data)) =~= data,
        is_lower_hex(hex_of(data)),
        all_hex_digits(hex_of(data)),
    decreases data.len(),
{
    lemma_hex_of_len(data);
    if data.len() > 0 {
        let b = data.first();
        let rest = data.drop_first();
        lemma_bytes_of_hex_of(rest);
        lemma_hex_of_len(rest);
        let t = hex_of(data);
        assert(t[0] == HEX_DIGITS@[b as int / 16]);
        assert(t[1] == HEX_DIGITS@[b as int % 16]);
        lemma_hex_digit_roundtrip((b / 16) as u8);
        lemma_hex_digit_roundtrip((b % 16) as u8);
        assert(hex_pair(t[0], t[1]) == b);
        assert(t.skip(2) =~= hex_of(rest));
        assert forall|i: int| 0 <= i < t.len() implies HEX_DIGITS@.contains(t[i]) by {
            if i >= 2 {
                assert(t[i] == hex_of(rest)[i - 2]);
            }
        }
        assert forall|i: int| 0 <= i < t.len() implies is_hex_digit(t[i]) by {
            lemma_hex_char_roundtrip(t[i]);
        }
    }
}

/// Encoding inverts decoding on lowercase hex strings of even length.
pub proof fn lemma_hex_of_bytes_of(t: Seq<char>)
    requires
        t.len() % 2 == 0,
        is_lower_hex(t),
    ensures
        hex_of(bytes_of_hex(t)) =~= t,
    decreases t.len(),
{
    if t.len() >= 2 {
        let rest = t.skip(2);
        assert(forall|i: int| 0 <= i < rest.len() ==> rest[i] == #[trigger] t[i + 2]);
        lemma_hex_of_bytes_of(rest);
        let b = hex_pair(t[0], t[1]);
        lemma_hex_char_roundtrip(t[0]);
        lemma_hex_char_roundtrip(t[1]);
        assert(b as int / 16 == hex_digit_val(t[0]) && b as int % 16 == hex_digit_val(t[1])) by {
            assert(hex_digit_val(t[0]) < 16 && hex_digit_val(t[1]) < 16);
        }
        let bs = bytes_of_hex(t);
        assert(bs.first() == b && bs.drop_first() =~= bytes_of_hex(rest));
        assert(byte_hex(b) =~= seq![t[0], t[1]]);
    }
}

/// The length and element-wise reading of a decoded hex string.
pub proof fn lemma_bytes_of_hex_index(t: Seq<char>)
    ensures
        bytes_of_hex(t).len() == t.len() / 2,
        forall|k: int|
            0 <= k && 2 * k + 1 < t.len() ==> #[trigger] bytes_of_hex(t)[k] == hex_pair(
                t[2 * k],
                t[2 * k + 1],
            ),
    decreases t.len(),
{
    if t.len() >= 2 {
        let rest = t.skip(2);
        lemma_bytes_of_hex_index(rest);
        assert forall|k: int| 0 <= k && 2 * k + 1 < t.len() implies #[trigger] bytes_of_hex(t)[k]
            == hex_pair(t[2 * k], t[2 * k + 1]) by {
            if k > 0 {
                assert(bytes_of_hex(t)[k] == bytes_of_hex(rest)[k - 1]);
                assert(rest[2 * (k - 1)] == t[2 * k]);
                assert(rest[2 * (k - 1) + 1] == t[2 * k + 1]);
            }
        }
    }
}

/// Appends one character.
///
/// Relies on `String::push`: appends the given `char` to the end of the
/// string.
#[verifier::external_body]
fn string_push(s: &mut String, c: char)
    ensures
        final(s)@ == old(s)@.push(c),
{
    s.push(c);
}

/// Return `bytes` as represented in a lowercase hexadecimal string.
pub fn bytes_to_hex(bytes: &[u8]) -> (r: String)
    ensures
        r@ == hex_of(bytes@),
{
    let mut out = String::new();
    let len = bytes.len();
    let mut i: usize = 0;
    proof {
        assert(bytes@.skip(0) =~= bytes@);
    }
    while i < len
        invariant
            len == bytes@.len(),
            i <= len,
            hex_of(bytes@) =~= out@ + hex_of(bytes@.skip(i as int)),
            out@.len() == 2 * i,
        decreases len - i,
    {
        proof {
            let tail = bytes@.skip(i as int);
            assert(tail.first() == bytes@[i as int]);
            assert(tail.drop_first() =~= bytes@.skip(i as int + 1));
            lemma_hex_of_len(bytes@.skip(i as int + 1));
        }
        let b = bytes[i];
        string_push(&mut out, HEX_DIGITS[(b / 16) as usize]);
        string_push(&mut out, HEX_DIGITS[(b % 16) as usize]);
        i = i + 1;
    }
    proof {
        assert(bytes@.skip(len as int) =~= Seq::<u8>::empty());
        assert(out@ =~= hex_of(bytes@));
    }
    out
}

/// The value of one hexadecimal digit character, or `None` where the
/// character is no such digit.
fn hex_digit_value(c: char) -> (r: Option<u8>)
    ensures
        r is Some <==> is_hex_digit(c),
        r matches Some(v) ==> v == hex_digit_val(c) && v < 16,
{
    let u = c as u32;
    if 48 <= u && u <= 57 {
        Some((u - 48) as u8)
    } else if 97 <= u && u <= 102 {
        Some((u - 87) as u8)
    } else if 65 <= u && u <= 70 {
        Some((u - 55) as u8)
    } else {
        None
    }
}

/// Decode a hexadecimal string into the `n` bytes it renders.
///
/// A string whose character count differs from `2 * n` is rejected with the
/// length-mismatch error; a string of the right length holding a character
/// that is no hex digit is rejected with the bad-digit error.
pub fn hex_to_bytes(text: &str, n: usize) -> (r: Result<Vec<u8>, Error>)
    requires
        n <= usize::MAX / 2,
    ensures
        r is Ok <==> text@.len() == 2 * n && all_hex_digits(text@),
        r matches Ok(v) ==> v@ == bytes_of_hex(text@) && v@.len() == n,
        text@.len() != 2 * n ==> r == Err::<Vec<u8>, Error>(
            Error::BadLength { expected: (2 * n) as usize, actual: text@.len() as usize },
        ),
        text@.len() == 2 * n && !all_hex_digits(text@) ==> r == Err::<Vec<u8>, Error>(
            Error::BadHexDigit,
        ),
{
    let text_len = text.unicode_len();
    if text_len != 2 * n {
        return Err(Error::BadLength { expected: 2 * n, actual: text_len });
    }
    let mut out: Vec<u8> = Vec::new();
    let mut i: usize = 0;
    while i < n
        invariant
            text@.len() == 2 * n,
            n <= usize::MAX / 2,
            i <= n,
            out@.len() == i,
            forall|j: int| 0 <= j < 2 * i ==> is_hex_digit(#[trigger] text@[j]),
            forall|k: int|
                0 <= k < i ==> #[trigger] out@[k] == hex_pair(text@[2 * k], text@[2 * k + 1]),
        decreases n - i,
    {
        let c1 = text.get_char(2 * i);
        let c2 = text.get_char(2 * i + 1);
        let v1 = match hex_digit_value(c1) {
            Some(v) => v,
            None => {
                return Err(Error::BadHexDigit);
            },
        };
        let v2 = match hex_digit_value(c2) {
            Some(v) => v,
            None => {
                return Err(Error::BadHexDigit);
            },
        };
        out.push(v1 * 16 + v2);
        proof {
            assert forall|j: int| 0 <= j < 2 * (i + 1) implies is_hex_digit(
                #[trigger] text@[j],
            ) by {
                if j == 2 * i {
                    assert(text@[j] == c1);
                }
                if j == 2 * i + 1 {
                    assert(text@[j] == c2);
                }
            }
        }
        i = i + 1;
    }
    proof {
        lemma_bytes_of_hex_index(text@);
        assert(out@ =~= bytes_of_hex(text@));
    }
    Ok(out)
}

/// A streaming SHA-256 accumulator: chunks of a byte stream are fed in one
/// after another, and the digest of the whole stream comes out at the end.
///
/// It holds sha2's hasher. Verus refuses a declaration of that type (its
/// generic arguments reach deep into typenum and digest internals), so the
/// struct is opaque to the verifier and its contents are named by
/// `absorbed`, the way a collection's contents are named.
#[verifier::external_body]
pub struct DigestComputer {
    inner: sha2::Sha256,
}

/// The bytes a digest computer has absorbed so far.
pub uninterp spec fn absorbed(dc: DigestComputer) -> Seq<u8>;

/// What SHA-256 makes of a byte sequence: a 32-byte digest that depends on
/// the bytes alone.
pub uninterp spec fn sha256_of(data: Seq<u8>) -> Seq<u8>;

impl DigestComputer {
    /// Relies on sha2's `Digest::new`: a fresh hasher has processed nothing.
    #[verifier::external_body]
    pub fn new() -> (r: DigestComputer)
        ensures
            absorbed(r) == Seq::<u8>::empty(),
    {
        DigestComputer { inner: sha2::Sha256::new() }
    }

    /// Relies on sha2's `Digest::update`: processes `data`, appending it to
    /// the input already absorbed.
    #[verifier::external_body]
    pub fn update(&mut self, data: &[u8])
        ensures
            absorbed(*final(self)) == absorbed(*old(self)) + data@,
    {
        self.inner.update(data);
    }

    /// Relies on sha2's `Digest::finalize`: consumes the hasher and returns
    /// the SHA-256 digest of everything it absorbed.
    #[verifier::external_body]
    pub fn finalize(self) -> (r: [u8; 32])
        ensures
            r@ == sha256_of(absorbed(self)),
    {
        self.inner.finalize().into()
    }
}

/// Create an object that can compute a digest from a byte stream.
pub fn create() -> (r: DigestComputer)
    ensures
        absorbed(r) == Seq::<u8>::empty(),
{
    DigestComputer::new()
}

/// A vector of bytes holding a cryptographic digest.
#[derive(Clone, Copy, Debug, PartialEq, Eq, Hash, PartialOrd, Ord)]
pub struct DigestData([u8; 32]);

impl View for DigestData {
    type V = Seq<u8>;

    closed spec fn view(&self) -> Seq<u8> {
        self.0@
    }
}

impl DigestData {
    /// Return a DigestData that is all zeros.
    pub fn zeros() -> (r: DigestData)
        ensures
            r@.len() == 32,
            forall|i: int| 0 <= i < 32 ==> r@[i] == 0u8,
    {
        DigestData([0u8; 32])
    }

    /// Wrap 32 raw digest bytes.
    pub fn from_bytes(bytes: [u8; 32]) -> (r: DigestData)
        ensures
            r@ == bytes@,
    {
        DigestData(bytes)
    }

    /// Finalize a digest computer into the digest of what it absorbed.
    pub fn from_computer(dc: DigestComputer) -> (r: DigestData)
        ensures
            r@ == sha256_of(absorbed(dc)),
    {
        DigestData(dc.finalize())
    }

    /// Return the digest of a zero-length byte stream.
    ///
    /// Note that this is not necessarily all zeros.
    pub fn of_nothing() -> (r: DigestData)
        ensures
            r@ == sha256_of(Seq::<u8>::empty()),
    {
        let dc = create();
        Self::from_computer(dc)
    }

    /// The raw digest bytes.
    pub fn as_bytes(&self) -> (r: &[u8])
        ensures
            r@ == self@,
    {
        self.0.as_slice()
    }

    /// The digest as a 64-character lowercase hexadecimal string.
    pub fn to_hex(&self) -> (r: String)
        ensures
            r@ == hex_of(self@),
    {
        bytes_to_hex(self.0.as_slice())
    }

    /// Decode a digest from its hexadecimal text form.
    ///
    /// A string of any length other than 64 characters fails with the
    /// length-mismatch error; one of the right length holding a non-hex
    /// character fails with the bad-digit error.
    pub fn from_hex(s: &str) -> (r: Result<DigestData, Error>)
        ensures
            r is Ok <==> s@.len() == 64 && all_hex_digits(s@),
            r matches Ok(d) ==> d@ == bytes_of_hex(s@),
            s@.len() != 64 ==> r == Err::<DigestData, Error>(
                Error::BadLength { expected: 64, actual: s@.len() as usize },
            ),
            s@.len() == 64 && !all_hex_digits(s@) ==> r == Err::<DigestData, Error>(
                Error::BadHexDigit,
            ),
    {
        let v = match hex_to_bytes(s, 32) {
            Ok(v) => v,
            Err(e) => {
                return Err(e);
            },
        };
        let mut a = [0u8; 32];
        let mut i: usize = 0;
        while i < 32
            invariant
                v@.len() == 32,
                a@.len() == 32,
                i <= 32,
                forall|j: int| 0 <= j < i ==> a@[j] == v@[j],
            decreases 32 - i,
        {
            a[i] = v[i];
            i = i + 1;
        }
        proof {
            assert(a@ =~= v@);
        }
        Ok(DigestData(a))
    }

    /// Whether two digests hold the same bytes.
    pub fn eq_digest(&self, other: &DigestData) -> (r: bool)
        ensures
            r <==> self@ == other@,
    {
        let mut i: usize = 0;
        while i < 32
            invariant
                i <= 32,
                forall|j: int| 0 <= j < i ==> self@[j] == other@[j],
            decreases 32 - i,
        {
            if self.0[i] != other.0[i] {
                return false;
            }
            i = i + 1;
        }
        proof {
            assert(self@ =~= other@);
        }
        true
    }

    /// The two-character subdirectory name: the hex value of the first byte.
    pub fn dir_name(&self) -> (r: String)
        ensures
            r@ == byte_hex(self@[0]),
    {
        let r = bytes_to_hex(slice_subrange(self.0.as_slice(), 0, 1));
        proof {
            let one = self@.subrange(0, 1);
            assert(one.len() == 1 && one.first() == self@[0]);
            assert(one.drop_first() =~= Seq::<u8>::empty());
            assert(hex_of(one) == byte_hex(one.first()) + hex_of(one.drop_first()));
            assert(hex_of(one) =~= byte_hex(self@[0]));
        }
        r
    }

    /// The file name: the hex value of the remaining 31 bytes.
    pub fn file_name(&self) -> (r: String)
        ensures
            r@ == hex_of(self@.skip(1)),
    {
        bytes_to_hex(slice_subrange(self.0.as_slice(), 1, 32))
    }
}

} // verus!
