//! Stable device identity used for account session grouping.
//!
//! A MAC address found in the platform's interface listing is preferred; a
//! host name is the fallback. Reading the listing and the host name is the
//! application's job: this module decides what identifier the text yields.
use vstd::prelude::*;
use crate::text::{
    utf8_bytes,
    is_hex_digit,
    is_alnum,
    ascii_upper,
    all_ascii,
    byte_is_hex_digit,
    byte_is_alnum,
    byte_to_upper,
    string_from_ascii,
};

verus! {

/// Length of a MAC address written as six two-digit groups.
pub const MAC_TEXT_LEN: usize = 17;

/// The value of a hexadecimal digit.
pub open spec fn hex_value(b: u8) -> int {
    if 48 <= b <= 57 {
        b - 48
    } else if 97 <= b <= 102 {
        b - 87
    } else {
        b - 55
    }
}

/// Whether the 17 bytes of `s` starting at `i` are a unicast MAC address that
/// is not all zeros: six hexadecimal pairs separated by one repeated `:` or `-`.
pub open spec fn mac_at(s: Seq<u8>, i: int) -> bool {
    &&& 0 <= i
    &&& i + 17 <= s.len()
    &&& (s[i + 2] == 58u8 || s[i + 2] == 45u8)
    &&& s[i + 5] == s[i + 2]
    &&& s[i + 8] == s[i + 2]
    &&& s[i + 11] == s[i + 2]
    &&& s[i + 14] == s[i + 2]
    &&& forall|k: int| 0 <= k < 17 && k % 3 != 2 ==> is_hex_digit(#[trigger] s[i + k])
    &&& hex_value(s[i + 1]) % 2 == 0
    &&& !(forall|k: int| 0 <= k < 17 ==> #[trigger] s[i + k] == 48u8 || s[i + k] == s[i + 2])
}

/// The canonical text of the address at `i`: upper-case digits and `:`.
pub open spec fn mac_text(s: Seq<u8>, i: int) -> Seq<u8> {
    Seq::new(17, |k: int| if k % 3 == 2 { 58u8 } else { ascii_upper(s[i + k]) })
}

/// The first address in `s`, if any.
pub open spec fn first_mac(s: Seq<u8>) -> Option<int> {
    if exists|i: int| mac_at(s, i) {
        Some(choose|i: int| mac_at(s, i) && forall|j: int| 0 <= j < i ==> !mac_at(s, j))
    } else {
        None
    }
}

proof fn lemma_first_mac(s: Seq<u8>, i: int)
    requires
        mac_at(s, i),
        forall|j: int| 0 <= j < i ==> !mac_at(s, j),
    ensures
        first_mac(s) == Some(i),
{
    let c = choose|c: int| mac_at(s, c) && forall|j: int| 0 <= j < c ==> !mac_at(s, j);
    assert(mac_at(s, c) && forall|j: int| 0 <= j < c ==> !mac_at(s, j));
    if c < i {
        assert(!mac_at(s, c));
    }
    if i < c {
        assert(!mac_at(s, i));
    }
}

fn mac_candidate_at(bytes: &[u8], start: usize) -> (r: bool)
    requires
        start + 17 <= bytes@.len(),
    ensures
        r == mac_at(bytes@, start as int),
{
    let n = bytes.len();
    assert(start + 17 <= n);
    let separator = bytes[start + 2];
    if separator != 58u8 && separator != 45u8 {
        return false;
    }
    if bytes[start + 5] != separator || bytes[start + 8] != separator || bytes[start + 11]
        != separator || bytes[start + 14] != separator {
        return false;
    }
    let mut k: usize = 0;
    while k < 17
        invariant
            start + 17 <= n,
            n == bytes@.len(),
            k <= 17,
            forall|j: int| 0 <= j < k && j % 3 != 2 ==> is_hex_digit(#[trigger] bytes@[start + j]),
        decreases 17 - k,
    {
        if k % 3 != 2 && !byte_is_hex_digit(bytes[start + k]) {
            assert(!is_hex_digit(bytes@[start + k as int]));
            return false;
        }
        k += 1;
    }
    let second = bytes[start + 1];
    let low_bit_set = if 48u8 <= second && second <= 57u8 {
        (second - 48u8) % 2 == 1
    } else if 97u8 <= second && second <= 102u8 {
        (second - 87u8) % 2 == 1
    } else {
        (second - 55u8) % 2 == 1
    };
    if low_bit_set {
        return false;
    }
    let mut all_zero = true;
    let mut k: usize = 0;
    while k < 17
        invariant
            start + 17 <= n,
            n == bytes@.len(),
            k <= 17,
            separator == bytes@[start + 2],
            all_zero == forall|j: int| 0 <= j < k ==> #[trigger] bytes@[start + j] == 48u8
                || bytes@[start + j] == separator,
        decreases 17 - k,
    {
        if bytes[start + k] != 48u8 && bytes[start + k] != separator {
            all_zero = false;
        }
        k += 1;
    }
    !all_zero
}

/// The first MAC address in `text`, written in upper case with `:` separators.
/// Multicast addresses (low bit of the first octet set) and the all-zero
/// address are skipped.
pub fn find_mac(text: &str) -> (r: Option<String>)
    ensures
        match first_mac(utf8_bytes(text@)) {
            None => r is None,
            Some(i) => (r matches Some(m) && utf8_bytes(m@) == mac_text(utf8_bytes(text@), i)),
        },
{
    let bytes = text.as_bytes();
    let mut start: usize = 0;
    while start < bytes.len() && bytes.len() - start >= 17
        invariant
            bytes@ == utf8_bytes(text@),
            forall|j: int| 0 <= j < start ==> !mac_at(bytes@, j),
        decreases bytes@.len() - start,
    {
        if mac_candidate_at(bytes, start) {
            let mut mac: Vec<u8> = Vec::new();
            let mut k: usize = 0;
            while k < 17
                invariant
                    start + 17 <= bytes@.len(),
                    bytes@.len() <= usize::MAX,
                    k <= 17,
                    mac@.len() == k,
                    forall|j: int| 0 <= j < k ==> #[trigger] mac@[j] == mac_text(bytes@, start as int)[j],
                decreases 17 - k,
            {
                if k % 3 == 2 {
                    mac.push(58u8);
                } else {
                    mac.push(byte_to_upper(bytes[start + k]));
                }
                k += 1;
            }
            assert(mac@ =~= mac_text(bytes@, start as int));
            proof {
                lemma_first_mac(bytes@, start as int);
                assert forall|j: int| 0 <= j < mac@.len() implies #[trigger] mac@[j] < 128 by {
                    assert(mac@[j] == mac_text(bytes@, start as int)[j]);
                }
            }
            return Some(string_from_ascii(mac));
        }
        start += 1;
    }
    proof {
        assert forall|i: int| !mac_at(bytes@, i) by {
            if 0 <= i < start {
            }
        }
    }
    None
}

/// The characters a host-name identifier keeps.
pub open spec fn host_char_kept(b: u8) -> bool {
    is_alnum(b) || b == 46u8 || b == 95u8 || b == 45u8
}

/// The kept characters of `s`, in order.
pub open spec fn kept_host_chars(s: Seq<u8>) -> Seq<u8>
    decreases s.len(),
{
    if s.len() == 0 {
        Seq::empty()
    } else if host_char_kept(s.last()) {
        kept_host_chars(s.drop_last()).push(s.last())
    } else {
        kept_host_chars(s.drop_last())
    }
}

proof fn lemma_kept_ascii(s: Seq<u8>)
    ensures
        all_ascii(kept_host_chars(s)),
    decreases s.len(),
{
    if s.len() > 0 {
        lemma_kept_ascii(s.drop_last());
    }
}

/// The fallback identifier built from a host name: `host:` followed by the
/// name's ASCII letters, digits, `.`, `_` and `-`, or nothing when none are
/// left. (Surrounding white space is never kept, so trimming first changes
/// nothing.)
pub fn host_identifier_from(host: &str) -> (r: Option<String>)
    ensures
        kept_host_chars(utf8_bytes(host@)).len() == 0 ==> r is None,
        kept_host_chars(utf8_bytes(host@)).len() > 0 ==> (r matches Some(id) && utf8_bytes(id@)
            == seq![104u8, 111u8, 115u8, 116u8, 58u8] + kept_host_chars(utf8_bytes(host@))),
{
    let bytes = host.as_bytes();
    let mut kept: Vec<u8> = Vec::new();
    let mut i: usize = 0;
    while i < bytes.len()
        invariant
            i <= bytes@.len(),
            kept@ == kept_host_chars(bytes@.subrange(0, i as int)),
        decreases bytes@.len() - i,
    {
        let b = bytes[i];
        proof {
            assert(bytes@.subrange(0, i + 1).drop_last() =~= bytes@.subrange(0, i as int));
        }
        if byte_is_alnum(b) || b == 46u8 || b == 95u8 || b == 45u8 {
            kept.push(b);
        }
        i += 1;
    }
    assert(bytes@.subrange(0, bytes@.len() as int) =~= bytes@);
    if kept.len() == 0 {
        return None;
    }
    let mut out: Vec<u8> = vec![104u8, 111u8, 115u8, 116u8, 58u8];
    let ghost prefix = out@;
    let mut j: usize = 0;
    while j < kept.len()
        invariant
            j <= kept@.len(),
            out@ == prefix + kept@.subrange(0, j as int),
        decreases kept@.len() - j,
    {
        out.push(kept[j]);
        j += 1;
        assert(out@ =~= prefix + kept@.subrange(0, j as int));
    }
    assert(kept@.subrange(0, kept@.len() as int) =~= kept@);
    proof {
        lemma_kept_ascii(bytes@);
        assert(all_ascii(prefix));
        assert(all_ascii(out@));
    }
    Some(string_from_ascii(out))
}

} // verus!
