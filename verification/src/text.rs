//! Byte-level text predicates shared by the validators of this crate.
//!
//! Identifiers, hosts and protocol fields handled here are ASCII, so the
//! predicates work on the UTF-8 bytes of a string.
use vstd::prelude::*;
use vstd::utf8::*;
use vstd::string::*;

verus! {

/// The UTF-8 bytes of a character sequence.
pub open spec fn utf8_bytes(s: Seq<char>) -> Seq<u8> {
    encode_utf8(s)
}

pub open spec fn is_digit(b: u8) -> bool {
    48 <= b <= 57
}

pub open spec fn is_lower(b: u8) -> bool {
    97 <= b <= 122
}

pub open spec fn is_upper(b: u8) -> bool {
    65 <= b <= 90
}

pub open spec fn is_alnum(b: u8) -> bool {
    is_digit(b) || is_lower(b) || is_upper(b)
}

pub open spec fn is_hex_digit(b: u8) -> bool {
    is_digit(b) || (97 <= b <= 102) || (65 <= b <= 70)
}

pub open spec fn is_lower_hex_digit(b: u8) -> bool {
    is_digit(b) || (97 <= b <= 102)
}

/// The C0 control characters and DEL, each a single byte in UTF-8.
pub open spec fn is_ascii_control(b: u8) -> bool {
    b < 32 || b == 127
}

/// ASCII graphic characters: `!` through `~`.
pub open spec fn is_graphic(b: u8) -> bool {
    33 <= b <= 126
}

pub open spec fn ascii_lower(b: u8) -> u8 {
    if is_upper(b) {
        (b + 32) as u8
    } else {
        b
    }
}

pub open spec fn ascii_upper(b: u8) -> u8 {
    if is_lower(b) {
        (b - 32) as u8
    } else {
        b
    }
}

pub open spec fn lower_all(s: Seq<u8>) -> Seq<u8> {
    Seq::new(s.len(), |i: int| ascii_lower(s[i]))
}

pub open spec fn all_ascii(s: Seq<u8>) -> bool {
    forall|i: int| 0 <= i < s.len() ==> s[i] < 128
}

pub open spec fn has_prefix(s: Seq<u8>, p: Seq<u8>) -> bool {
    p.len() <= s.len() && s.subrange(0, p.len() as int) == p
}

pub open spec fn has_suffix(s: Seq<u8>, p: Seq<u8>) -> bool {
    p.len() <= s.len() && s.subrange(s.len() - p.len(), s.len() as int) == p
}

/// `p` occurs in `s` starting at `i`.
pub open spec fn occurs_at(s: Seq<u8>, p: Seq<u8>, i: int) -> bool {
    0 <= i && i + p.len() <= s.len() && s.subrange(i, i + p.len()) == p
}

pub open spec fn contains_seq(s: Seq<u8>, p: Seq<u8>) -> bool {
    exists|i: int| occurs_at(s, p, i)
}

pub open spec fn contains_byte(s: Seq<u8>, b: u8) -> bool {
    exists|i: int| 0 <= i < s.len() && s[i] == b
}

/// Whether the UTF-8 text holds a character for which `char::is_control` is true:
/// a C0 control or DEL, or a C1 control (U+0080..U+009F), which UTF-8 encodes as
/// `0xC2 0x80..=0x9F`.
pub open spec fn has_control_char(s: Seq<u8>) -> bool {
    exists|i: int|
        0 <= i < s.len() && (is_ascii_control(s[i]) || (s[i] == 0xC2 && i + 1 < s.len() && 0x80
            <= s[i + 1] <= 0x9F))
}

pub fn byte_is_digit(b: u8) -> (r: bool)
    ensures
        r == is_digit(b),
{
    48 <= b && b <= 57
}

pub fn byte_is_alnum(b: u8) -> (r: bool)
    ensures
        r == is_alnum(b),
{
    (48 <= b && b <= 57) || (97 <= b && b <= 122) || (65 <= b && b <= 90)
}

pub fn byte_is_hex_digit(b: u8) -> (r: bool)
    ensures
        r == is_hex_digit(b),
{
    (48 <= b && b <= 57) || (97 <= b && b <= 102) || (65 <= b && b <= 70)
}

pub fn byte_is_lower_hex_digit(b: u8) -> (r: bool)
    ensures
        r == is_lower_hex_digit(b),
{
    (48 <= b && b <= 57) || (97 <= b && b <= 102)
}

pub fn byte_to_lower(b: u8) -> (r: u8)
    ensures
        r == ascii_lower(b),
{
    if 65 <= b && b <= 90 {
        b + 32
    } else {
        b
    }
}

pub fn byte_to_upper(b: u8) -> (r: u8)
    ensures
        r == ascii_upper(b),
{
    if 97 <= b && b <= 122 {
        b - 32
    } else {
        b
    }
}

pub fn bytes_equal(a: &[u8], b: &[u8]) -> (r: bool)
    ensures
        r == (a@ == b@),
{
    if a.len() != b.len() {
        return false;
    }
    let mut i: usize = 0;
    while i < a.len()
        invariant
            a@.len() == b@.len(),
            i <= a@.len(),
            forall|j: int| 0 <= j < i ==> a@[j] == b@[j],
        decreases a@.len() - i,
    {
        if a[i] != b[i] {
            return false;
        }
        i += 1;
    }
    assert(a@ =~= b@);
    true
}

pub fn bytes_have_prefix(s: &[u8], p: &[u8]) -> (r: bool)
    ensures
        r == has_prefix(s@, p@),
{
    if p.len() > s.len() {
        return false;
    }
    let mut i: usize = 0;
    while i < p.len()
        invariant
            p@.len() <= s@.len(),
            i <= p@.len(),
            forall|j: int| 0 <= j < i ==> s@[j] == p@[j],
        decreases p@.len() - i,
    {
        if s[i] != p[i] {
            assert(s@.subrange(0, p@.len() as int)[i as int] != p@[i as int]);
            return false;
        }
        i += 1;
    }
    assert(s@.subrange(0, p@.len() as int) =~= p@);
    true
}

pub fn bytes_have_suffix(s: &[u8], p: &[u8]) -> (r: bool)
    ensures
        r == has_suffix(s@, p@),
{
    if p.len() > s.len() {
        return false;
    }
    let offset = s.len() - p.len();
    let mut j: usize = offset;
    while j < s.len()
        invariant
            p@.len() <= s@.len(),
            offset + p@.len() == s@.len(),
            offset <= j <= s@.len(),
            forall|m: int| offset <= m < j ==> s@[m] == p@[m - offset],
        decreases s@.len() - j,
    {
        if s[j] != p[j - offset] {
            assert(s@.subrange(offset as int, s@.len() as int)[j - offset] != p@[j - offset]);
            return false;
        }
        j += 1;
    }
    assert(s@.subrange(offset as int, s@.len() as int) =~= p@);
    true
}

/// Whether `p` occurs in `s` at `i`.
pub fn bytes_occur_at(s: &[u8], p: &[u8], i: usize) -> (r: bool)
    ensures
        r == occurs_at(s@, p@, i as int),
{
    if i > s.len() || p.len() > s.len() - i {
        return false;
    }
    let end = i + p.len();
    let mut j: usize = i;
    while j < end
        invariant
            end == i + p@.len(),
            end <= s@.len(),
            i <= j <= end,
            forall|m: int| i <= m < j ==> s@[m] == p@[m - i],
        decreases end - j,
    {
        if s[j] != p[j - i] {
            assert(s@.subrange(i as int, i + p@.len())[j - i] != p@[j - i]);
            return false;
        }
        j += 1;
    }
    assert(s@.subrange(i as int, i + p@.len()) =~= p@);
    true
}

pub fn bytes_contain(s: &[u8], p: &[u8]) -> (r: bool)
    ensures
        r == contains_seq(s@, p@),
{
    let mut i: usize = 0;
    while i < s.len()
        invariant
            i <= s@.len(),
            forall|j: int| 0 <= j < i ==> !occurs_at(s@, p@, j),
        decreases s@.len() - i,
    {
        if bytes_occur_at(s, p, i) {
            return true;
        }
        i += 1;
    }
    if bytes_occur_at(s, p, i) {
        return true;
    }
    assert forall|j: int| !occurs_at(s@, p@, j) by {
        if 0 <= j && j + p@.len() <= s@.len() {
            assert(j <= i);
        }
    }
    false
}

pub fn bytes_contain_byte(s: &[u8], b: u8) -> (r: bool)
    ensures
        r == contains_byte(s@, b),
{
    let mut i: usize = 0;
    while i < s.len()
        invariant
            i <= s@.len(),
            forall|j: int| 0 <= j < i ==> s@[j] != b,
        decreases s@.len() - i,
    {
        if s[i] == b {
            return true;
        }
        i += 1;
    }
    false
}

pub fn bytes_have_control_char(s: &[u8]) -> (r: bool)
    ensures
        r == has_control_char(s@),
{
    let mut i: usize = 0;
    while i < s.len()
        invariant
            i <= s@.len(),
            forall|j: int|
                0 <= j < i ==> !(is_ascii_control(s@[j]) || (s@[j] == 0xC2 && j + 1 < s@.len()
                    && 0x80 <= s@[j + 1] <= 0x9F)),
        decreases s@.len() - i,
    {
        let b = s[i];
        if b < 32 || b == 127 {
            return true;
        }
        if b == 0xC2 && i + 1 < s.len() && 0x80 <= s[i + 1] && s[i + 1] <= 0x9F {
            return true;
        }
        i += 1;
    }
    false
}

pub fn bytes_to_lower(s: &[u8]) -> (r: Vec<u8>)
    ensures
        r@ == lower_all(s@),
{
    let mut out: Vec<u8> = Vec::new();
    let mut i: usize = 0;
    while i < s.len()
        invariant
            i <= s@.len(),
            out@ == lower_all(s@.subrange(0, i as int)),
        decreases s@.len() - i,
    {
        out.push(byte_to_lower(s[i]));
        i += 1;
        assert(out@ =~= lower_all(s@.subrange(0, i as int)));
    }
    assert(s@.subrange(0, s@.len() as int) =~= s@);
    out
}

pub proof fn lemma_ascii_valid_utf8(bytes: Seq<u8>)
    requires
        all_ascii(bytes),
    ensures
        valid_utf8(bytes),
{
    assert(bytes.subrange(0, 0) =~= Seq::<u8>::empty());
    assert(partial_valid_utf8(bytes, 0));
    assert forall|i: int| 0 <= 0 <= i < bytes.len() <= bytes.len() implies #[trigger] is_leading_byte_width_1(bytes[i]) by {}
    partial_valid_utf8_extend_ascii_block(bytes, 0, bytes.len() as int);
    assert(bytes.subrange(0, bytes.len() as int) =~= bytes);
}

/// `String::from_utf8`: the standard library documents that it succeeds exactly
/// when the bytes are valid UTF-8, and that the string then holds those bytes.
#[verifier::external_body]
fn string_from_utf8(bytes: Vec<u8>) -> (r: Option<String>)
    ensures
        r is Some <==> valid_utf8(bytes@),
        r matches Some(s) ==> encode_utf8(s@) == bytes@,
{
    String::from_utf8(bytes).ok()
}

/// Builds a string from ASCII bytes.
pub fn string_from_ascii(bytes: Vec<u8>) -> (s: String)
    requires
        all_ascii(bytes@),
    ensures
        utf8_bytes(s@) == bytes@,
{
    proof {
        lemma_ascii_valid_utf8(bytes@);
    }
    match string_from_utf8(bytes) {
        Some(s) => s,
        None => String::new(),
    }
}

/// The bytes of a string are determined by its characters, and the other way round.
pub proof fn lemma_utf8_bytes_injective(a: Seq<char>, b: Seq<char>)
    ensures
        (utf8_bytes(a) == utf8_bytes(b)) == (a == b),
{
    if utf8_bytes(a) == utf8_bytes(b) {
        encode_utf8_decode_utf8(a);
        encode_utf8_decode_utf8(b);
    }
}

/// UTF-8 encoding distributes over concatenation.
pub proof fn lemma_utf8_bytes_concat(a: Seq<char>, b: Seq<char>)
    ensures
        utf8_bytes(a + b) == utf8_bytes(a) + utf8_bytes(b),
    decreases a.len(),
{
    if a.len() == 0 {
        assert(a + b =~= b);
        assert(utf8_bytes(a) =~= Seq::<u8>::empty());
        assert(utf8_bytes(a) + utf8_bytes(b) =~= utf8_bytes(b));
    } else {
        lemma_utf8_bytes_concat(a.drop_first(), b);
        assert((a + b).drop_first() =~= a.drop_first() + b);
        assert((a + b)[0] == a[0]);
        assert(utf8_bytes(a + b) == encode_scalar(a[0] as u32) + utf8_bytes(a.drop_first() + b));
        assert(utf8_bytes(a) == encode_scalar(a[0] as u32) + utf8_bytes(a.drop_first()));
        assert(utf8_bytes(a + b) =~= utf8_bytes(a) + utf8_bytes(b));
    }
}

/// `String::push`: appends one character.
#[verifier::external_body]
fn string_push(text: &mut String, c: char)
    ensures
        final(text)@ == old(text)@.push(c),
{
    text.push(c);
}

pub proof fn lemma_ascii_char_bytes(c: char)
    requires
        (c as u32) < 128,
    ensures
        utf8_bytes(seq![c]) == seq![c as u8],
{
    assert(is_ascii_chars(seq![c]));
    is_ascii_chars_encode_utf8(seq![c]);
    assert(utf8_bytes(seq![c]) =~= seq![c as u8]);
}

/// Appends an ASCII character.
pub fn append_ascii_char(text: &mut String, c: char)
    requires
        (c as u32) < 128,
    ensures
        final(text)@ == old(text)@.push(c),
        utf8_bytes(final(text)@) == utf8_bytes(old(text)@).push(c as u8),
{
    string_push(text, c);
    proof {
        lemma_ascii_char_bytes(c);
        assert(old(text)@.push(c) =~= old(text)@ + seq![c]);
        lemma_utf8_bytes_concat(old(text)@, seq![c]);
        assert(utf8_bytes(old(text)@) + seq![c as u8] =~= utf8_bytes(old(text)@).push(c as u8));
    }
}

/// Appends a string.
pub fn append_text(text: &mut String, tail: &str)
    ensures
        final(text)@ == old(text)@ + tail@,
        utf8_bytes(final(text)@) == utf8_bytes(old(text)@) + utf8_bytes(tail@),
{
    text.append(tail);
    proof {
        lemma_utf8_bytes_concat(old(text)@, tail@);
    }
}

/// Whether two strings are equal.
pub fn text_is(value: &str, expected: &str) -> (r: bool)
    ensures
        r == (value@ == expected@),
{
    let r = bytes_equal(value.as_bytes(), expected.as_bytes());
    proof {
        lemma_utf8_bytes_injective(value@, expected@);
    }
    r
}

/// Lexicographic order on byte strings, as `Ord` orders `str` and `[u8]`.
pub open spec fn bytes_lt(a: Seq<u8>, b: Seq<u8>) -> bool
    decreases a.len(),
{
    if a.len() == 0 {
        b.len() > 0
    } else if b.len() == 0 {
        false
    } else if a[0] < b[0] {
        true
    } else if a[0] > b[0] {
        false
    } else {
        bytes_lt(a.drop_first(), b.drop_first())
    }
}

pub proof fn lemma_bytes_lt_irreflexive(a: Seq<u8>)
    ensures
        !bytes_lt(a, a),
    decreases a.len(),
{
    if a.len() > 0 {
        lemma_bytes_lt_irreflexive(a.drop_first());
    }
}

pub proof fn lemma_bytes_lt_total(a: Seq<u8>, b: Seq<u8>)
    ensures
        a == b || bytes_lt(a, b) || bytes_lt(b, a),
    decreases a.len(),
{
    if a.len() > 0 && b.len() > 0 && a[0] == b[0] {
        lemma_bytes_lt_total(a.drop_first(), b.drop_first());
        if a.drop_first() == b.drop_first() {
            assert(a =~= seq![a[0]] + a.drop_first());
            assert(b =~= seq![b[0]] + b.drop_first());
        }
    } else if a.len() == 0 && b.len() == 0 {
        assert(a =~= b);
    }
}

pub proof fn lemma_bytes_lt_asymmetric(a: Seq<u8>, b: Seq<u8>)
    requires
        bytes_lt(a, b),
    ensures
        !bytes_lt(b, a),
    decreases a.len(),
{
    if a.len() > 0 && b.len() > 0 && a[0] == b[0] {
        lemma_bytes_lt_asymmetric(a.drop_first(), b.drop_first());
    }
}

pub proof fn lemma_bytes_lt_transitive(a: Seq<u8>, b: Seq<u8>, c: Seq<u8>)
    requires
        bytes_lt(a, b),
        bytes_lt(b, c),
    ensures
        bytes_lt(a, c),
    decreases a.len(),
{
    if a.len() > 0 && b.len() > 0 && c.len() > 0 && a[0] == b[0] && b[0] == c[0] {
        lemma_bytes_lt_transitive(a.drop_first(), b.drop_first(), c.drop_first());
    }
}

/// Whether `a` sorts before `b`.
pub fn bytes_less(a: &[u8], b: &[u8]) -> (r: bool)
    ensures
        r == bytes_lt(a@, b@),
{
    let mut i: usize = 0;
    proof {
        assert(a@.subrange(0, a@.len() as int) =~= a@);
        assert(b@.subrange(0, b@.len() as int) =~= b@);
    }
    while i < a.len() && i < b.len() && a[i] == b[i]
        invariant
            i <= a@.len(),
            i <= b@.len(),
            bytes_lt(a@, b@) == bytes_lt(
                a@.subrange(i as int, a@.len() as int),
                b@.subrange(i as int, b@.len() as int),
            ),
        decreases a@.len() - i,
    {
        proof {
            let sa = a@.subrange(i as int, a@.len() as int);
            let sb = b@.subrange(i as int, b@.len() as int);
            assert(sa.drop_first() =~= a@.subrange(i as int + 1, a@.len() as int));
            assert(sb.drop_first() =~= b@.subrange(i as int + 1, b@.len() as int));
        }
        i += 1;
    }
    proof {
        assert(a@.subrange(0, a@.len() as int) =~= a@);
        assert(b@.subrange(0, b@.len() as int) =~= b@);
    }
    if i == a.len() {
        i < b.len()
    } else if i == b.len() {
        false
    } else {
        a[i] < b[i]
    }
}

/// An identifier shared with the user interface: 1 to 64 ASCII letters, digits,
/// `.`, `_` or `-`, and not in the reserved `orange-` namespace.
pub open spec fn valid_public_identifier(value: Seq<u8>) -> bool {
    &&& 1 <= value.len() <= 64
    &&& !has_prefix(value, seq![111u8, 114u8, 97u8, 110u8, 103u8, 101u8, 45u8])
    &&& forall|i: int|
        0 <= i < value.len() ==> is_alnum(value[i]) || value[i] == 46 || value[i] == 95
            || value[i] == 45
}

pub fn is_valid_public_identifier(value: &[u8]) -> (r: bool)
    ensures
        r == valid_public_identifier(value@),
{
    if value.len() == 0 || value.len() > 64 {
        return false;
    }
    let reserved: [u8; 7] = [111u8, 114u8, 97u8, 110u8, 103u8, 101u8, 45u8];
    assert(reserved@ =~= seq![111u8, 114u8, 97u8, 110u8, 103u8, 101u8, 45u8]);
    if bytes_have_prefix(value, &reserved) {
        return false;
    }
    let mut i: usize = 0;
    while i < value.len()
        invariant
            i <= value@.len(),
            forall|j: int|
                0 <= j < i ==> is_alnum(value@[j]) || value@[j] == 46 || value@[j] == 95
                    || value@[j] == 45,
        decreases value@.len() - i,
    {
        let b = value[i];
        if !(byte_is_alnum(b) || b == 46 || b == 95 || b == 45) {
            return false;
        }
        i += 1;
    }
    true
}

} // verus!
