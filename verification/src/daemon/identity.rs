//! Clock identities: made from the name of the node, and written as text.

use crate::bytes;
use crate::ptp::ClockIdentity;
use crate::router::ids;
use crate::text;
use vstd::prelude::*;
use vstd::utf8::encode_utf8;

verus! {

/// A clock identity from the name of the node: a hash of the name, marked as
/// unicast and locally administered.
pub open spec fn identity_of(name: Seq<char>) -> Seq<u8> {
    let h = bytes::be64(ids::fnv(encode_utf8(name), 0xcbf2_9ce4_8422_2325));
    h.update(0, (h[0] / 4 * 4 + 2) as u8)
}

/// A clock identity from the name of the node, the same for the same name.
pub fn clock_identity_from(name: &str) -> (id: ClockIdentity)
    ensures
        id@ == identity_of(name@),
{
    let h: u64 = ids::fnv64(name.as_bytes(), 0xcbf2_9ce4_8422_2325);
    let mut b: Vec<u8> = Vec::new();
    bytes::push_u64(&mut b, h);
    assert(b@ =~= bytes::be64(h));
    let first: u8 = b[0] / 4 * 4 + 2;
    let id: [u8; 8] = [first, b[1], b[2], b[3], b[4], b[5], b[6], b[7]];
    assert(id@ =~= identity_of(name@));
    id
}

/// Every identity from a name is a unicast one and locally administered: the
/// lowest bit of its first byte is clear and the next one set.
pub proof fn identity_is_local(name: Seq<char>)
    ensures
        identity_of(name).len() == 8,
        identity_of(name)[0] % 4 == 2,
{
}

/// A hexadecimal digit in capital letters.
pub open spec fn capital_digit(n: nat) -> char {
    if n < 10 {
        (n + 48) as char
    } else {
        (n + 55) as char
    }
}

/// The two hexadecimal digits of a byte.
pub open spec fn byte_digits(b: u8, capital: bool) -> Seq<char> {
    if capital {
        seq![capital_digit((b / 16) as nat), capital_digit((b % 16) as nat)]
    } else {
        ids::hex_byte(b)
    }
}

/// The hexadecimal digits of bytes, with a mark between them.
pub open spec fn marked(b: Seq<u8>, mark: char, capital: bool) -> Seq<char>
    decreases b.len(),
{
    if b.len() == 0 {
        Seq::empty()
    } else if b.len() == 1 {
        byte_digits(b[0], capital)
    } else {
        marked(b.drop_last(), mark, capital).push(mark) + byte_digits(b.last(), capital)
    }
}

/// A hexadecimal digit.
fn digit_char(n: u8, capital: bool) -> (c: char)
    requires
        n < 16,
    ensures
        c == (if capital {
            capital_digit(n as nat)
        } else {
            ids::hex_digit(n as nat)
        }),
{
    if n < 10 {
        (n + 48) as char
    } else if capital {
        (n + 55) as char
    } else {
        (n + 87) as char
    }
}

/// The hexadecimal digits of an identity, with a mark between the bytes.
fn marked_text(id: &ClockIdentity, mark: char, capital: bool) -> (s: String)
    ensures
        s@ == marked(id@, mark, capital),
{
    let mut s: String = String::new();
    let mut i: usize = 0;
    assert(s@ =~= marked(id@.take(0), mark, capital));
    while i < 8
        invariant
            i <= 8,
            id@.len() == 8,
            s@ == marked(id@.take(i as int), mark, capital),
        decreases 8 - i,
    {
        let ghost part = id@.take(i + 1);
        assert(part.drop_last() =~= id@.take(i as int));
        if i > 0 {
            s.push(mark);
        }
        s.push(digit_char(id[i] / 16, capital));
        s.push(digit_char(id[i] % 16, capital));
        assert(s@ =~= marked(part, mark, capital));
        i = i + 1;
    }
    assert(id@.take(8) =~= id@);
    s
}

/// An identity as it stands in a clock reference, such as
/// `00-11-22-FF-FE-33-44-55`.
pub fn fmt_eui64(id: &ClockIdentity) -> (s: String)
    ensures
        s@ == marked(id@, '-', true),
{
    marked_text(id, '-', true)
}

/// An identity for display, such as `00:11:22:ff:fe:33:44:55`.
pub fn fmt_id(id: &ClockIdentity) -> (s: String)
    ensures
        s@ == marked(id@, ':', false),
{
    marked_text(id, ':', false)
}

/// An identity from a name is the hash of the name, the first byte in front, with
/// the two lowest bits of that byte set to 10.
pub proof fn identity_is_the_hash_of_the_name(name: Seq<char>)
    ensures
        ({
            let h = bytes::be64(ids::fnv(encode_utf8(name), 0xcbf2_9ce4_8422_2325));
            &&& identity_of(name)[0] == (h[0] & 0xfc) | 0x02
            &&& identity_of(name).skip(1) == h.skip(1)
        }),
{
    let h = bytes::be64(ids::fnv(encode_utf8(name), 0xcbf2_9ce4_8422_2325));
    let x = h[0];
    assert((x / 4) * 4 + 2 == ((x & 0xfc) | 0x02)) by (bit_vector);
    assert(identity_of(name).skip(1) =~= h.skip(1));
}

/// Every byte of an identity is written as its two hexadecimal digits, the upper
/// one first, with the mark between one byte and the next and none at the ends.
pub proof fn identity_is_written_byte_after_byte(
    id: Seq<u8>,
    mark: char,
    capital: bool,
    i: int,
)
    requires
        0 <= i < id.len(),
    ensures
        marked(id, mark, capital).len() == 3 * id.len() - 1,
        ({
            let digits = if capital {
                "0123456789ABCDEF"@
            } else {
                "0123456789abcdef"@
            };
            &&& marked(id, mark, capital)[3 * i] == digits[(id[i] / 16) as int]
            &&& marked(id, mark, capital)[3 * i + 1] == digits[(id[i] % 16) as int]
            &&& i + 1 < id.len() ==> marked(id, mark, capital)[3 * i + 2] == mark
        }),
    decreases id.len(),
{
    reveal_strlit("0123456789ABCDEF");
    let last = id.last();
    ids::digits_have_their_letters(last / 16);
    ids::digits_have_their_letters(last % 16);
    if id.len() > 1 {
        let init = id.drop_last();
        let k = if i < init.len() {
            i
        } else {
            i - 1
        };
        identity_is_written_byte_after_byte(init, mark, capital, k);
    }
}

/// What is written of an identity with hyphens holds digits and hyphens only.
pub proof fn identity_holds_no_separators(id: Seq<u8>)
    ensures
        text::laws::free_of(marked(id, '-', true), ':'),
        text::laws::free_of(marked(id, '-', true), '\n'),
    decreases id.len(),
{
    if id.len() > 1 {
        identity_holds_no_separators(id.drop_last());
        let front = marked(id.drop_last(), '-', true);
        let all = marked(id, '-', true);
        assert forall|i: int| 0 <= i < all.len() implies #[trigger] all[i] != ':' && all[i]
            != '\n' by {
            if i < front.len() {
                assert(all[i] == front[i]);
            }
        }
    }
}

} // verus!
