//! Record identifiers: twelve bytes in the store, twenty-four hexadecimal
//! characters on the wire, and the way from each form to the other.

use crate::error::LogError;
use rustc_serialize::hex::FromHex;
use vstd::prelude::*;
use vstd::string::*;

verus! {

/// The store's identifier of one log entry: twelve bytes, assigned by the
/// store and never changed afterwards.
#[derive(Clone, Copy, Debug, PartialEq, Eq, Hash)]
pub struct BinaryId {
    pub bytes: [u8; 12],
}

impl View for BinaryId {
    type V = Seq<u8>;

    open spec fn view(&self) -> Seq<u8> {
        self.bytes@
    }
}

/// `bytes` read as one unsigned number, the first byte weighing most.
///
/// The store hands identifiers out in increasing order of this number, so
/// the larger of two identifiers belongs to the entry inserted later.
pub open spec fn be_value(bytes: Seq<u8>) -> nat
    decreases bytes.len(),
{
    if bytes.len() == 0 {
        0
    } else {
        256 * be_value(bytes.drop_last()) + bytes.last() as nat
    }
}

/// 256 to the power `n`.
spec fn radix_power(n: nat) -> nat
    decreases n,
{
    if n == 0 {
        1
    } else {
        256 * radix_power((n - 1) as nat)
    }
}

/// Twelve bytes make a number below 2^96.
proof fn lemma_radix_power_bound(n: nat)
    requires
        n <= 12,
    ensures
        radix_power(n) <= 0x1_0000_0000_0000_0000_0000_0000,
    decreases 12 - n,
{
    if n == 12 {
        reveal_with_fuel(radix_power, 13);
    } else {
        lemma_radix_power_bound(n + 1);
    }
}

/// True when `a` comes before `b` byte by byte: at the first place where
/// the two differ, `a` holds the lower byte. This is how the store orders
/// identifiers.
pub open spec fn precedes(a: Seq<u8>, b: Seq<u8>) -> bool {
    exists|k: int|
        0 <= k < a.len() && k < b.len() && a[k] < b[k] && a.take(k) == #[trigger] b.take(k)
}

/// Byte strings of one length that make the same number are the same.
pub proof fn lemma_value_tells_apart(a: Seq<u8>, b: Seq<u8>)
    requires
        a.len() == b.len(),
    ensures
        be_value(a) == be_value(b) <==> a == b,
    decreases a.len(),
{
    if a.len() > 0 {
        lemma_value_tells_apart(a.drop_last(), b.drop_last());
        if be_value(a) == be_value(b) {
            assert(a.drop_last().push(a.last()) =~= a);
            assert(b.drop_last().push(b.last()) =~= b);
        }
    } else {
        assert(a =~= b);
    }
}

/// The order of the numbers is the order of the bytes: of two byte strings
/// of one length, the one that comes first byte by byte makes the lower
/// number.
pub proof fn lemma_value_orders_bytes(a: Seq<u8>, b: Seq<u8>)
    requires
        a.len() == b.len(),
    ensures
        be_value(a) < be_value(b) <==> precedes(a, b),
    decreases a.len(),
{
    if a.len() == 0 {
        return ;
    }
    let n = a.len() - 1;
    let (fa, fb) = (a.drop_last(), b.drop_last());
    lemma_value_orders_bytes(fa, fb);
    lemma_value_tells_apart(fa, fb);
    if precedes(fa, fb) {
        let k = choose|k: int|
            0 <= k < fa.len() && k < fb.len() && fa[k] < fb[k] && fa.take(k) == #[trigger] fb.take(k);
        assert(a.take(k) =~= fa.take(k) && b.take(k) =~= fb.take(k));
        assert(a[k] == fa[k] && b[k] == fb[k]);
    } else if fa == fb {
        assert(a.take(n) =~= fa && b.take(n) =~= fb);
    }
    if precedes(a, b) {
        let k = choose|k: int|
            0 <= k < a.len() && k < b.len() && a[k] < b[k] && a.take(k) == #[trigger] b.take(k);
        assert(a.take(k) =~= fa.take(k) && b.take(k) =~= fb.take(k));
        if k < n {
            assert(a[k] == fa[k] && b[k] == fb[k]);
            assert(precedes(fa, fb));
        } else {
            assert(a.take(n) =~= fa && b.take(n) =~= fb);
        }
    }
}

impl BinaryId {
    /// The number by which identifiers are ordered.
    pub open spec fn value(self) -> nat {
        be_value(self@)
    }

    /// The number by which identifiers are ordered.
    pub fn key(&self) -> (k: u128)
        ensures
            k == self.value(),
    {
        let mut k: u128 = 0;
        let mut i: usize = 0;
        while i < 12
            invariant
                i <= 12,
                k == be_value(self@.take(i as int)),
                k < radix_power(i as nat),
            decreases 12 - i,
        {
            proof {
                lemma_radix_power_bound((i + 1) as nat);
                assert(self@.take(i + 1).drop_last() =~= self@.take(i as int));
            }
            k = k * 256 + self.bytes[i] as u128;
            i += 1;
        }
        assert(self@.take(12) =~= self@);
        k
    }
}

/// True for the characters `0-9`, `a-f` and `A-F`.
pub open spec fn is_hex_char(c: char) -> bool {
    ('0' <= c <= '9') || ('a' <= c <= 'f') || ('A' <= c <= 'F')
}

/// The number a hexadecimal character stands for, 0 to 15.
pub open spec fn hex_value(c: char) -> int {
    if '0' <= c <= '9' {
        c as int - 48
    } else if 'a' <= c <= 'f' {
        c as int - 97 + 10
    } else {
        c as int - 65 + 10
    }
}

/// The sixteen digits of the canonical form, in order of value.
pub open spec fn lower_digits() -> Seq<char> {
    seq!['0', '1', '2', '3', '4', '5', '6', '7', '8', '9', 'a', 'b', 'c', 'd', 'e', 'f']
}

/// True when every character of `s` is a hexadecimal digit.
pub open spec fn all_hex(s: Seq<char>) -> bool {
    forall|i: int| 0 <= i < s.len() ==> is_hex_char(#[trigger] s[i])
}

/// True for the wire form of an identifier: exactly 24 hexadecimal characters.
pub open spec fn is_wire_id(s: Seq<char>) -> bool {
    s.len() == 24 && all_hex(s)
}

/// The bytes that a run of hexadecimal digits spells, two digits to a byte,
/// the high half first.
pub open spec fn hex_bytes(s: Seq<char>) -> Seq<u8> {
    Seq::new(s.len() / 2, |i: int| (16 * hex_value(s[2 * i]) + hex_value(s[2 * i + 1])) as u8)
}

/// The canonical lower-case spelling of `bytes`, two digits to a byte.
pub open spec fn hex_text(bytes: Seq<u8>) -> Seq<char> {
    Seq::new(
        2 * bytes.len(),
        |i: int|
            if i % 2 == 0 {
                lower_digits()[bytes[i / 2] as int / 16]
            } else {
                lower_digits()[bytes[i / 2] as int % 16]
            },
    )
}

/// `c` with the letters `A-Z` replaced by `a-z`.
pub open spec fn ascii_lower(c: char) -> char {
    if 'A' <= c <= 'Z' {
        ((c as u8) + 32) as u8 as char
    } else {
        c
    }
}

/// `s` with every character lower-cased.
pub open spec fn lower_case(s: Seq<char>) -> Seq<char> {
    Seq::new(s.len(), |i: int| ascii_lower(s[i]))
}

/// True for the four characters that may separate digits in spaced-out
/// hexadecimal text: space, carriage return, line feed and tab.
pub open spec fn is_blank(c: char) -> bool {
    c == ' ' || c == '\r' || c == '\n' || c == '\t'
}

/// True when `s` holds nothing but hexadecimal digits and blanks.
pub open spec fn spaced_hex(s: Seq<char>) -> bool {
    forall|i: int| 0 <= i < s.len() ==> is_hex_char(#[trigger] s[i]) || is_blank(s[i])
}

/// `s` without its blanks.
pub open spec fn hex_digits(s: Seq<char>) -> Seq<char> {
    s.filter(|c: char| !is_blank(c))
}

/// Decoding a wire identifier and encoding the bytes again gives the same
/// text, lower-cased.
pub proof fn lemma_decode_then_encode(s: Seq<char>)
    requires
        is_wire_id(s),
    ensures
        hex_text(hex_bytes(s)) == lower_case(s),
{
    let t = hex_text(hex_bytes(s));
    assert forall|i: int| 0 <= i < 24 implies t[i] == lower_case(s)[i] by {
        let k = i / 2;
        assert(is_hex_char(s[2 * k]));
        assert(is_hex_char(s[2 * k + 1]));
        lemma_digit_of_value(s[2 * k]);
        lemma_digit_of_value(s[2 * k + 1]);
    }
    assert(t =~= lower_case(s));
}

/// Encoding twelve bytes gives a wire identifier that decodes to the same
/// bytes.
pub proof fn lemma_encode_then_decode(bytes: Seq<u8>)
    requires
        bytes.len() == 12,
    ensures
        is_wire_id(hex_text(bytes)),
        hex_bytes(hex_text(bytes)) == bytes,
        lower_case(hex_text(bytes)) == hex_text(bytes),
{
    let t = hex_text(bytes);
    assert forall|i: int| 0 <= i < t.len() implies is_hex_char(#[trigger] t[i]) && ascii_lower(
        t[i],
    ) == t[i] by {
        lemma_value_of_digit(bytes[i / 2] as int / 16);
        lemma_value_of_digit(bytes[i / 2] as int % 16);
    }
    assert forall|k: int| 0 <= k < 12 implies hex_bytes(t)[k] == bytes[k] by {
        lemma_value_of_digit(bytes[k] as int / 16);
        lemma_value_of_digit(bytes[k] as int % 16);
        assert(t[2 * k] == lower_digits()[bytes[k] as int / 16]);
        assert(t[2 * k + 1] == lower_digits()[bytes[k] as int % 16]);
    }
    assert(hex_bytes(t) =~= bytes);
    assert(lower_case(t) =~= t);
}

/// The canonical digit for the value of a hexadecimal character is that
/// character, lower-cased.
proof fn lemma_digit_of_value(c: char)
    requires
        is_hex_char(c),
    ensures
        0 <= hex_value(c) < 16,
        lower_digits()[hex_value(c)] == ascii_lower(c),
{
}

/// Each canonical digit is a lower-case hexadecimal character that stands for
/// its own position.
proof fn lemma_value_of_digit(n: int)
    requires
        0 <= n < 16,
    ensures
        is_hex_char(lower_digits()[n]),
        hex_value(lower_digits()[n]) == n,
        ascii_lower(lower_digits()[n]) == lower_digits()[n],
{
}

/// Text made of hexadecimal digits alone has no blanks to drop.
proof fn lemma_no_blanks(s: Seq<char>)
    requires
        all_hex(s),
    ensures
        hex_digits(s) == s,
    decreases s.len(),
{
    reveal(Seq::filter);
    if s.len() > 0 {
        let front = s.drop_last();
        assert(all_hex(front)) by {
            assert forall|i: int| 0 <= i < front.len() implies is_hex_char(#[trigger] front[i]) by {
                assert(front[i] == s[i]);
            }
        }
        lemma_no_blanks(front);
        assert(is_hex_char(s[s.len() - 1]));
        assert(front.push(s.last()) =~= s);
    }
}

/// `rustc_serialize::hex::FromHexError`, the reason `from_hex` gives for a
/// failure. It is only passed through: nothing is read from it, and every
/// such failure becomes an `InvalidIdentifier`.
#[verifier::external_type_specification]
#[verifier::external_body]
pub struct ExFromHexError(rustc_serialize::hex::FromHexError);

/// `rustc_serialize::hex::FromHex::from_hex` on a string slice.
///
/// Trusted, not proved: the call succeeds exactly on text that holds only
/// hexadecimal digits and blanks with an even number of digits, and then
/// returns the bytes that the digits spell once the blanks are dropped.
#[verifier::external_body]
fn from_hex(text: &str) -> (res: Result<Vec<u8>, rustc_serialize::hex::FromHexError>)
    ensures
        match res {
            Ok(bytes) => spaced_hex(text@) && hex_digits(text@).len() % 2 == 0 && bytes@
                == hex_bytes(hex_digits(text@)),
            Err(_) => !(spaced_hex(text@) && hex_digits(text@).len() % 2 == 0),
        },
{
    text.from_hex()
}

/// `bson::oid::ObjectId::to_hex` on the identifier made of `bytes` by
/// `ObjectId::with_bytes`.
///
/// Trusted, not proved: the result spells each byte with two lower-case
/// hexadecimal digits, the high half first, in the order of the bytes.
#[verifier::external_body]
fn object_id_to_hex(bytes: &[u8; 12]) -> (text: String)
    ensures
        text@ == hex_text(bytes@),
{
    bson::oid::ObjectId::with_bytes(*bytes).to_hex()
}

/// True when `b` is the ASCII code of a hexadecimal digit.
fn is_hex_byte(b: u8) -> (hex: bool)
    ensures
        hex == is_hex_char(b as char),
{
    (48 <= b && b <= 57) || (97 <= b && b <= 102) || (65 <= b && b <= 70)
}

/// Reads an identifier from its wire form.
///
/// Succeeds exactly on 24 hexadecimal characters, in either case, and gives
/// the twelve bytes they spell. Anything else (too short, too long, a
/// character that is no hexadecimal digit, blanks included) is an
/// `InvalidIdentifier`; nothing is cut off or filled up.
pub fn decode(text: &str) -> (res: Result<BinaryId, LogError>)
    ensures
        match res {
            Ok(id) => is_wire_id(text@) && id@ == hex_bytes(text@),
            Err(e) => !is_wire_id(text@) && e == LogError::InvalidIdentifier,
        },
{
    if !text.is_ascii() {
        return Err(LogError::InvalidIdentifier);
    }
    assert(text.spec_bytes().len() == text@.len()) by {
        assert(is_ascii(text));
        is_ascii_spec_bytes(text);
    }
    if text.as_bytes().len() != 24 {
        return Err(LogError::InvalidIdentifier);
    }
    let mut i: usize = 0;
    while i < 24
        invariant
            i <= 24,
            is_ascii(text),
            text@.len() == 24,
            forall|j: int| 0 <= j < i ==> is_hex_char(#[trigger] text@[j]),
        decreases 24 - i,
    {
        let b: u8 = text.get_ascii(i);
        if !is_hex_byte(b) {
            assert(!is_hex_char(text@[i as int]));
            return Err(LogError::InvalidIdentifier);
        }
        i += 1;
    }
    proof {
        lemma_no_blanks(text@);
    }
    match from_hex(text) {
        Ok(decoded) => {
            let mut bytes: [u8; 12] = [0u8; 12];
            let mut k: usize = 0;
            while k < 12
                invariant
                    k <= 12,
                    decoded@.len() == 12,
                    forall|j: int| 0 <= j < k ==> bytes@[j] == decoded@[j],
                decreases 12 - k,
            {
                bytes[k] = decoded[k];
                k += 1;
            }
            assert(bytes@ =~= decoded@);
            Ok(BinaryId { bytes })
        },
        Err(_) => Err(LogError::InvalidIdentifier),
    }
}

/// Writes an identifier in its wire form: 24 lower-case hexadecimal
/// characters, two for each byte. Never fails, and `decode` reads the result
/// back as the same identifier.
pub fn encode(id: &BinaryId) -> (text: String)
    ensures
        text@ == hex_text(id@),
        is_wire_id(text@),
        hex_bytes(text@) == id@,
        lower_case(text@) == text@,
{
    proof {
        lemma_encode_then_decode(id@);
    }
    object_id_to_hex(&id.bytes)
}

} // verus!
