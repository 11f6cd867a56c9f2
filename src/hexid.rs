//! Content hashes and their 40-character hexadecimal form.
use vstd::prelude::*;

verus! {

broadcast use vstd::string::is_ascii_spec_bytes;

/// A 20-byte content hash identifying a torrent's metainfo.
pub type ContentHash = [u8; 20];

/// The value of a hexadecimal digit (either case).
pub open spec fn hex_value(c: char) -> Option<nat> {
    if '0' <= c && c <= '9' {
        Some((c as nat - '0' as nat) as nat)
    } else if 'a' <= c && c <= 'f' {
        Some((c as nat - 'a' as nat + 10) as nat)
    } else if 'A' <= c && c <= 'F' {
        Some((c as nat - 'A' as nat + 10) as nat)
    } else {
        None
    }
}

pub open spec fn is_hex_digit(c: char) -> bool {
    hex_value(c) is Some
}

/// The byte that the digits at `2 * i` and `2 * i + 1` of `s` encode.
pub open spec fn hex_byte(s: Seq<char>, i: int) -> u8 {
    (hex_value(s[2 * i]).unwrap() * 16 + hex_value(s[2 * i + 1]).unwrap()) as u8
}

/// A 40-character id decodes to a hash when every character is a hex digit.
pub open spec fn decodes(s: Seq<char>) -> bool {
    s.len() == 40 && forall|i: int| 0 <= i < s.len() ==> #[trigger] is_hex_digit(s[i])
}

/// The hash that a hex id stands for, if it is one.
pub open spec fn hex_decode(s: Seq<char>) -> Option<Seq<u8>> {
    if decodes(s) {
        Some(Seq::new(20, |i: int| hex_byte(s, i)))
    } else {
        None
    }
}

fn digit_value(b: u8) -> (r: Option<u8>)
    ensures
        match hex_value(b as char) {
            Some(v) => r == Some(v as u8),
            None => r is None,
        },
{
    if 48u8 <= b && b <= 57u8 {
        Some(b - 48u8)
    } else if 97u8 <= b && b <= 102u8 {
        Some(b - 97u8 + 10)
    } else if 65u8 <= b && b <= 70u8 {
        Some(b - 65u8 + 10)
    } else {
        None
    }
}

/// Decodes the 40-hex-digit form of a content hash; `None` for anything else.
pub fn id_to_hash(id: &str) -> (r: Option<ContentHash>)
    ensures
        match hex_decode(id@) {
            Some(h) => r matches Some(x) && x@ == h,
            None => r is None,
        },
{
    if !id.is_ascii() {
        proof {
            if decodes(id@) {
                assert forall|i| 0 <= i < id@.len() implies '\0' <= #[trigger] id@[i] <= '\u{7f}' by {
                    assert(is_hex_digit(id@[i]));
                }
                assert(vstd::utf8::is_ascii_chars(id@));
            }
        }
        return None;
    }
    let b = id.as_bytes();
    assert(b@ =~= Seq::new(id@.len(), |i| id@.index(i) as u8));
    if b.len() != 40 {
        return None;
    }
    let mut h: ContentHash = [0u8; 20];
    let mut i: usize = 0;
    while i < 20
        invariant
            0 <= i <= 20,
            b@.len() == 40,
            id@.len() == 40,
            vstd::utf8::is_ascii_chars(id@),
            b@ =~= Seq::new(id@.len(), |k| id@.index(k) as u8),
            forall|k: int| 0 <= k < 2 * i ==> #[trigger] is_hex_digit(id@[k]),
            forall|k: int| 0 <= k < i ==> h@[k] == hex_byte(id@, k),
        decreases 20 - i,
    {
        let hi = digit_value(b[2 * i]);
        let lo = digit_value(b[2 * i + 1]);
        assert(b[2 * i as int] as char == id@[2 * i as int]);
        assert(b[2 * i as int + 1] as char == id@[2 * i as int + 1]);
        match (hi, lo) {
            (Some(x), Some(y)) => {
                h[i] = x * 16 + y;
                i = i + 1;
            },
            _ => {
                proof {
                    assert(!is_hex_digit(id@[2 * i as int]) || !is_hex_digit(id@[2 * i as int + 1]));
                }
                return None;
            },
        }
    }
    assert(h@ =~= Seq::new(20, |k: int| hex_byte(id@, k)));
    Some(h)
}

} // verus!
