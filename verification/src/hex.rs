//! Hex encoding of message bodies: two lowercase digits per byte on the wire,
//! decoded back byte for byte. Decoding accepts either case.

use vstd::prelude::*;
use vstd::string::StrSliceExecFns;

verus! {

pub open spec fn hex_table() -> Seq<char> {
    "0123456789abcdef"@
}

/// The two digits a byte is written as.
pub open spec fn byte_to_hex(b: u8) -> Seq<char> {
    seq![hex_table()[b as int / 16], hex_table()[b as int % 16]]
}

/// A byte sequence, written out digit pair by digit pair.
pub open spec fn bytes_to_hex_spec(s: Seq<u8>) -> Seq<char>
    decreases s.len(),
{
    if s.len() == 0 {
        Seq::empty()
    } else {
        bytes_to_hex_spec(s.drop_last()) + byte_to_hex(s.last())
    }
}

pub open spec fn is_hex_digit(c: char) -> bool {
    (48 <= (c as u32) && (c as u32) <= 57) || (97 <= (c as u32) && (c as u32) <= 102) || (65 <= (
    c as u32) && (c as u32) <= 70)
}

pub open spec fn hex_digit_val(c: char) -> int {
    if 48 <= (c as u32) && (c as u32) <= 57 {
        (c as u32) - 48
    } else if 97 <= (c as u32) && (c as u32) <= 102 {
        (c as u32) - 87
    } else {
        (c as u32) - 55
    }
}

/// A string decodes as hex when it has even length and only hex digits.
pub open spec fn is_valid_hex(s: Seq<char>) -> bool {
    s.len() % 2 == 0 && (forall|i: int| 0 <= i < s.len() ==> is_hex_digit(#[trigger] s[i]))
}

/// The bytes a hex string stands for.
pub open spec fn hex_to_bytes_spec(s: Seq<char>) -> Seq<u8>
    decreases s.len(),
{
    if s.len() < 2 {
        Seq::empty()
    } else {
        hex_to_bytes_spec(s.subrange(0, s.len() - 2)).push(
            (hex_digit_val(s[s.len() - 2]) * 16 + hex_digit_val(s[s.len() - 1])) as u8,
        )
    }
}

proof fn lemma_hex_digit_round(n: int)
    requires
        0 <= n < 16,
    ensures
        is_hex_digit(hex_table()[n]),
        hex_digit_val(hex_table()[n]) == n,
{
    reveal_strlit("0123456789abcdef");
}

/// Encoding then decoding hands every byte sequence back unchanged.
pub proof fn lemma_hex_round_trip(b: Seq<u8>)
    ensures
        bytes_to_hex_spec(b).len() == 2 * b.len(),
        is_valid_hex(bytes_to_hex_spec(b)),
        hex_to_bytes_spec(bytes_to_hex_spec(b)) == b,
    decreases b.len(),
{
    if b.len() == 0 {
    } else {
        lemma_hex_round_trip(b.drop_last());
        let h = bytes_to_hex_spec(b);
        let hp = bytes_to_hex_spec(b.drop_last());
        let last = b.last();
        lemma_hex_digit_round(last as int / 16);
        lemma_hex_digit_round(last as int % 16);
        assert(h == hp + byte_to_hex(last));
        assert(h.len() == hp.len() + 2);
        assert(h[h.len() - 2] == hex_table()[last as int / 16]);
        assert(h[h.len() - 1] == hex_table()[last as int % 16]);
        assert forall|i: int| 0 <= i < h.len() implies is_hex_digit(h[i]) by {
            if i < hp.len() {
                assert(h[i] == hp[i]);
            }
        }
        assert(h.subrange(0, h.len() - 2) =~= hp);
        assert(hex_digit_val(h[h.len() - 2]) * 16 + hex_digit_val(h[h.len() - 1]) == last as int);
        assert(hex_to_bytes_spec(h) == hex_to_bytes_spec(hp).push(last));
        assert(hex_to_bytes_spec(h) =~= b);
    }
}

/// Writes bytes as lowercase hex, two digits per byte.
pub fn encode(data: &Vec<u8>) -> (r: String)
    ensures
        r@ == bytes_to_hex_spec(data@),
{
    let table = "0123456789abcdef";
    proof {
        reveal_strlit("0123456789abcdef");
    }
    let mut out = String::new();
    let n = data.len();
    let mut i: usize = 0;
    while i < n
        invariant
            n == data@.len(),
            i <= n,
            table@ == hex_table(),
            table@.len() == 16,
            out@ == bytes_to_hex_spec(data@.subrange(0, i as int)),
        decreases n - i,
    {
        let b = data[i];
        let hi = (b / 16) as usize;
        let lo = (b % 16) as usize;
        let hs = table.substring_char(hi, hi + 1);
        let ls = table.substring_char(lo, lo + 1);
        out.append(hs);
        out.append(ls);
        proof {
            let p = data@.subrange(0, i as int);
            let q = data@.subrange(0, i + 1);
            assert(q.drop_last() =~= p);
            assert(q.last() == data@[i as int]);
            assert(hs@ =~= seq![hex_table()[b as int / 16]]);
            assert(ls@ =~= seq![hex_table()[b as int % 16]]);
            assert(out@ =~= bytes_to_hex_spec(q));
        }
        i += 1;
    }
    proof {
        assert(data@.subrange(0, n as int) =~= data@);
    }
    out
}

/// Reads a hex string back into bytes; `None` exactly on strings that are
/// not valid hex.
pub fn hex_to_bytes(s: &str) -> (r: Option<Vec<u8>>)
    ensures
        match r {
            Some(v) => is_valid_hex(s@) && v@ == hex_to_bytes_spec(s@),
            None => !is_valid_hex(s@),
        },
{
    let n = s.unicode_len();
    if n % 2 != 0 {
        return None;
    }
    let mut out: Vec<u8> = Vec::new();
    let mut i: usize = 0;
    while i + 1 < n
        invariant
            n == s@.len(),
            n % 2 == 0,
            i % 2 == 0,
            i <= n,
            forall|j: int| 0 <= j < i ==> is_hex_digit(#[trigger] s@[j]),
            out@ == hex_to_bytes_spec(s@.subrange(0, i as int)),
        decreases n - i,
    {
        let hc = s.get_char(i);
        let lc = s.get_char(i + 1);
        let hv = match hex_val(hc) {
            Some(v) => v,
            None => {
                return None;
            },
        };
        let lv = match hex_val(lc) {
            Some(v) => v,
            None => {
                return None;
            },
        };
        let byte: u8 = hv * 16 + lv;
        out.push(byte);
        proof {
            let p = s@.subrange(0, i as int);
            let q = s@.subrange(0, i + 2);
            assert(q.subrange(0, q.len() - 2) =~= p);
            assert(q[q.len() - 2] == s@[i as int]);
            assert(q[q.len() - 1] == s@[i + 1]);
            assert(out@ =~= hex_to_bytes_spec(q));
        }
        i += 2;
    }
    proof {
        assert(i == n);
        assert(s@.subrange(0, n as int) =~= s@);
    }
    Some(out)
}

/// The value of one hex digit, in either case.
fn hex_val(c: char) -> (r: Option<u8>)
    ensures
        match r {
            Some(v) => is_hex_digit(c) && v == hex_digit_val(c) && v < 16,
            None => !is_hex_digit(c),
        },
{
    let u = c as u32;
    if 48 <= u && u <= 57 {
        Some((u - 48) as u8)
    } else if 97 <= u && u <= 102 {
        Some((u - 87) as u8)
    } else if 65 <= u && u <= 70 {
        Some((u - 55) as u8)
    } else {
        None
    }
}

} // verus!
