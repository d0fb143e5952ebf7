//! Upload identifiers, upload tokens and filename hygiene.
use vstd::prelude::*;
use rand::Rng;
use crate::text::{push_hex_byte, chars_of, trim_bounds, string_of_range};

verus! {

/// Number of characters in an upload id.
pub const ID_LEN: usize = 12;

/// Number of random bytes behind an upload token.
pub const TOKEN_BYTES: usize = 32;

/// Longest filename, in characters, that `sanitize_name` accepts.
pub const MAX_NAME_CHARS: usize = 2048;

/// `n` bytes from the thread-local generator of `rand` (`rand::rng().fill`).
/// The contract claims only the length: the bytes themselves are random.
#[verifier::external_body]
fn random_bytes(n: usize) -> (v: Vec<u8>)
    ensures
        v@.len() == n,
{
    let mut v = vec![0u8; n];
    rand::rng().fill(&mut v[..]);
    v
}

// ---------------------------------------------------------------------------
// Ids
// ---------------------------------------------------------------------------

/// The `n`-th character of the alphabet `0-9A-Za-z` (`n < 62`).
pub open spec fn base62_char(n: nat) -> char {
    if n < 10 {
        (48 + n) as char
    } else if n < 36 {
        (65 + (n - 10)) as char
    } else {
        (97 + (n - 36)) as char
    }
}

/// An ASCII letter or digit.
pub open spec fn is_ascii_alphanumeric(c: char) -> bool {
    (48 <= c as u32 <= 57) || (65 <= c as u32 <= 90) || (97 <= c as u32 <= 122)
}

/// An upload id: twelve ASCII letters and digits.
pub open spec fn is_upload_id(s: Seq<char>) -> bool {
    &&& s.len() == ID_LEN
    &&& forall|i: int| 0 <= i < s.len() ==> #[trigger] is_ascii_alphanumeric(s[i])
}

/// The id that a sequence of random bytes maps to: one alphabet character per byte.
pub open spec fn id_chars(bytes: Seq<u8>) -> Seq<char> {
    Seq::new(bytes.len(), |i: int| base62_char((bytes[i] % 62) as nat))
}

fn base62_char_exec(n: u8) -> (c: char)
    requires
        n < 62,
    ensures
        c == base62_char(n as nat),
{
    if n < 10 {
        (48u8 + n) as char
    } else if n < 36 {
        (65u8 + (n - 10)) as char
    } else {
        (97u8 + (n - 36)) as char
    }
}

/// Maps each byte to `ALPHABET[byte % 62]`.
pub fn id_from_bytes(bytes: &Vec<u8>) -> (s: String)
    ensures
        s@ == id_chars(bytes@),
{
    let mut s = String::new();
    let mut i: usize = 0;
    while i < bytes.len()
        invariant
            0 <= i <= bytes@.len(),
            s@ == id_chars(bytes@).take(i as int),
        decreases bytes.len() - i,
    {
        s.push(base62_char_exec(bytes[i] % 62));
        i = i + 1;
        assert(s@ =~= id_chars(bytes@).take(i as int));
    }
    assert(id_chars(bytes@).take(i as int) =~= id_chars(bytes@));
    s
}

/// A fresh 12-character base62 upload id.
pub fn new_id() -> (s: String)
    ensures
        s@.len() == ID_LEN,
        forall|i: int| 0 <= i < s@.len() ==> #[trigger] is_ascii_alphanumeric(s@[i]),
{
    let bytes = random_bytes(ID_LEN);
    let s = id_from_bytes(&bytes);
    assert forall|i: int| 0 <= i < s@.len() implies #[trigger] is_ascii_alphanumeric(s@[i]) by {
        let n = (bytes@[i] % 62) as nat;
        assert(s@[i] == base62_char(n));
    }
    s
}

// ---------------------------------------------------------------------------
// Tokens
// ---------------------------------------------------------------------------

/// Lower-case hexadecimal text of `bytes`, two digits per byte.
pub open spec fn hex_lower(bytes: Seq<u8>) -> Seq<char>
    decreases bytes.len(),
{
    if bytes.len() == 0 {
        Seq::empty()
    } else {
        hex_lower(bytes.drop_last()) + crate::text::hex_byte(bytes.last(), false)
    }
}

/// A lower-case hexadecimal digit.
pub open spec fn is_lower_hex_digit(c: char) -> bool {
    (48 <= c as u32 <= 57) || (97 <= c as u32 <= 102)
}

pub proof fn lemma_hex_lower_shape(bytes: Seq<u8>)
    ensures
        hex_lower(bytes).len() == 2 * bytes.len(),
        forall|i: int| 0 <= i < hex_lower(bytes).len() ==> #[trigger] is_lower_hex_digit(hex_lower(bytes)[i]),
    decreases bytes.len(),
{
    if bytes.len() > 0 {
        lemma_hex_lower_shape(bytes.drop_last());
        let b = bytes.last();
        let prev = hex_lower(bytes.drop_last());
        let h = crate::text::hex_byte(b, false);
        assert(is_lower_hex_digit(h[0]));
        assert(is_lower_hex_digit(h[1]));
        assert forall|i: int| 0 <= i < hex_lower(bytes).len() implies #[trigger] is_lower_hex_digit(
            hex_lower(bytes)[i],
        ) by {
            if i < prev.len() {
                assert(hex_lower(bytes)[i] == prev[i]);
            } else {
                assert(hex_lower(bytes)[i] == h[i - prev.len()]);
            }
        }
    }
}

/// Lower-case hexadecimal text of `bytes` (`{:02x}` per byte).
pub fn token_from_bytes(bytes: &Vec<u8>) -> (s: String)
    ensures
        s@ == hex_lower(bytes@),
{
    let mut s = String::new();
    let mut i: usize = 0;
    while i < bytes.len()
        invariant
            0 <= i <= bytes@.len(),
            s@ == hex_lower(bytes@.take(i as int)),
        decreases bytes.len() - i,
    {
        push_hex_byte(&mut s, bytes[i], false);
        assert(bytes@.take(i + 1).drop_last() =~= bytes@.take(i as int));
        i = i + 1;
    }
    assert(bytes@.take(i as int) =~= bytes@);
    s
}

/// A fresh 64-character lower-case hexadecimal upload token (32 random bytes).
pub fn new_token() -> (s: String)
    ensures
        s@.len() == 2 * TOKEN_BYTES,
        forall|i: int| 0 <= i < s@.len() ==> #[trigger] is_lower_hex_digit(s@[i]),
{
    let bytes = random_bytes(TOKEN_BYTES);
    let s = token_from_bytes(&bytes);
    proof {
        lemma_hex_lower_shape(bytes@);
    }
    s
}

// ---------------------------------------------------------------------------
// Filenames
// ---------------------------------------------------------------------------

/// Why a filename was refused.
#[derive(Debug, PartialEq, Eq, Structural, Clone, Copy)]
pub enum NameError {
    Empty,
    TooLong,
}

impl NameError {
    /// The human-readable text of the error.
    pub fn message(&self) -> (s: String)
        ensures
            s@ == match self {
                NameError::Empty => "filename is empty"@,
                NameError::TooLong => "filename exceeds 2048 chars"@,
            },
    {
        match self {
            NameError::Empty => String::from_str("filename is empty"),
            NameError::TooLong => String::from_str("filename exceeds 2048 chars"),
        }
    }
}

/// A Unicode control character (general category Cc), as `char::is_control` tests.
pub open spec fn is_control(c: char) -> bool {
    (c as u32) <= 0x1f || (0x7f <= (c as u32) <= 0x9f)
}

/// `s` without its control characters.
pub open spec fn strip_controls(s: Seq<char>) -> Seq<char>
    decreases s.len(),
{
    if s.len() == 0 {
        Seq::empty()
    } else if is_control(s.last()) {
        strip_controls(s.drop_last())
    } else {
        strip_controls(s.drop_last()).push(s.last())
    }
}

/// What `sanitize_name` makes of `raw`: control characters removed, then trimmed.
pub open spec fn cleaned_name(raw: Seq<char>) -> Seq<char> {
    crate::text::trim(strip_controls(raw))
}

/// The result of `sanitize_name`.
pub open spec fn spec_sanitize_name(raw: Seq<char>) -> Result<Seq<char>, NameError> {
    let t = cleaned_name(raw);
    if t.len() == 0 {
        Err(NameError::Empty)
    } else if t.len() > MAX_NAME_CHARS {
        Err(NameError::TooLong)
    } else {
        Ok(t)
    }
}

/// Strips control characters, trims whitespace and caps the name at 2048 characters.
pub fn sanitize_name(raw: &str) -> (r: Result<String, NameError>)
    ensures
        match spec_sanitize_name(raw@) {
            Ok(t) => r matches Ok(s) && s@ == t,
            Err(e) => r == Err::<String, NameError>(e),
        },
{
    let cs = chars_of(raw);
    let mut kept: Vec<char> = Vec::new();
    let mut i: usize = 0;
    while i < cs.len()
        invariant
            0 <= i <= cs@.len(),
            cs@ == raw@,
            kept@ == strip_controls(cs@.take(i as int)),
        decreases cs.len() - i,
    {
        let c = cs[i];
        let v = c as u32;
        assert(cs@.take(i + 1).drop_last() =~= cs@.take(i as int));
        if !(v <= 0x1f || (0x7f <= v && v <= 0x9f)) {
            kept.push(c);
        }
        i = i + 1;
    }
    assert(cs@.take(i as int) =~= cs@);
    let (a, b) = trim_bounds(&kept, 0, kept.len());
    assert(kept@.subrange(0, kept@.len() as int) =~= kept@);
    if a == b {
        return Err(NameError::Empty);
    }
    if b - a > MAX_NAME_CHARS {
        return Err(NameError::TooLong);
    }
    Ok(string_of_range(&kept, a, b))
}

/// The character that stands for `c` inside a quoted header filename.
pub open spec fn header_safe_char(c: char) -> char {
    if c == '"' || c == '\\' || c == '\r' || c == '\n' {
        '_'
    } else {
        c
    }
}

/// `name` with `"`, `\`, CR and LF replaced by `_`.
pub open spec fn spec_header_filename(name: Seq<char>) -> Seq<char> {
    Seq::new(name.len(), |i: int| header_safe_char(name[i]))
}

/// Safe for a quoted Content-Disposition filename: replaces `"`, `\`, CR, LF with `_`.
pub fn header_filename(name: &str) -> (s: String)
    ensures
        s@ == spec_header_filename(name@),
{
    let cs = chars_of(name);
    let mut s = String::new();
    let mut i: usize = 0;
    while i < cs.len()
        invariant
            0 <= i <= cs@.len(),
            cs@ == name@,
            s@ == spec_header_filename(name@).take(i as int),
        decreases cs.len() - i,
    {
        let c = cs[i];
        let d = if c == '"' || c == '\\' || c == '\r' || c == '\n' { '_' } else { c };
        s.push(d);
        i = i + 1;
        assert(s@ =~= spec_header_filename(name@).take(i as int));
    }
    assert(spec_header_filename(name@).take(i as int) =~= spec_header_filename(name@));
    s
}

/// An RFC 5987 unreserved byte: ASCII letters, digits and `-_.~`.
pub open spec fn is_unreserved(b: u8) -> bool {
    (48 <= b <= 57) || (65 <= b <= 90) || (97 <= b <= 122) || b == 45 || b == 95 || b == 46
        || b == 126
}

/// The RFC 5987 encoding of one byte: itself if unreserved, else `%XX`.
pub open spec fn pct_byte(b: u8) -> Seq<char> {
    if is_unreserved(b) {
        seq![b as char]
    } else {
        seq!['%'] + crate::text::hex_byte(b, true)
    }
}

/// RFC 5987 percent-encoding of a byte string.
pub open spec fn pct_encode_bytes(bytes: Seq<u8>) -> Seq<char>
    decreases bytes.len(),
{
    if bytes.len() == 0 {
        Seq::empty()
    } else {
        pct_encode_bytes(bytes.drop_last()) + pct_byte(bytes.last())
    }
}

/// RFC 5987 `filename*` percent-encoding of the UTF-8 bytes of `s`.
pub fn pct_encode(s: &str) -> (out: String)
    ensures
        out@ == pct_encode_bytes(vstd::utf8::encode_utf8(s@)),
{
    let bytes = s.as_bytes();
    let mut out = String::new();
    let mut i: usize = 0;
    while i < bytes.len()
        invariant
            0 <= i <= bytes@.len(),
            bytes@ == vstd::utf8::encode_utf8(s@),
            out@ == pct_encode_bytes(bytes@.take(i as int)),
        decreases bytes.len() - i,
    {
        let b = bytes[i];
        assert(bytes@.take(i + 1).drop_last() =~= bytes@.take(i as int));
        if (48 <= b && b <= 57) || (65 <= b && b <= 90) || (97 <= b && b <= 122) || b == 45 || b
            == 95 || b == 46 || b == 126 {
            out.push(b as char);
            assert(out@ =~= pct_encode_bytes(bytes@.take(i + 1)));
        } else {
            out.push('%');
            push_hex_byte(&mut out, b, true);
            assert(out@ =~= pct_encode_bytes(bytes@.take(i + 1)));
        }
        i = i + 1;
    }
    assert(bytes@.take(i as int) =~= bytes@);
    out
}

/// A character that percent-encoding emits for a byte that needs no escape.
pub open spec fn is_unreserved_char(c: char) -> bool {
    is_ascii_alphanumeric(c) || c == '-' || c == '_' || c == '.' || c == '~'
}

/// The value of a hexadecimal digit, either case (0 for any other character).
pub open spec fn hex_value(c: char) -> int {
    if 48 <= c as u32 <= 57 {
        c as u32 - 48
    } else if 65 <= c as u32 <= 70 {
        c as u32 - 55
    } else if 97 <= c as u32 <= 102 {
        c as u32 - 87
    } else {
        0
    }
}

/// Percent-decoding: `%XY` stands for the byte `0xXY`, any other character
/// for its own code.
pub open spec fn pct_decode(s: Seq<char>) -> Seq<u8>
    decreases s.len(),
{
    if s.len() == 0 {
        Seq::empty()
    } else if s[0] == '%' && s.len() >= 3 {
        seq![(16 * hex_value(s[1]) + hex_value(s[2])) as u8] + pct_decode(s.skip(3))
    } else {
        seq![(s[0] as u32) as u8] + pct_decode(s.skip(1))
    }
}

proof fn lemma_hex_char_value(d: nat)
    requires
        d < 16,
    ensures
        hex_value(crate::text::hex_char(d, true)) == d,
        is_ascii_alphanumeric(crate::text::hex_char(d, true)),
{
}

proof fn lemma_pct_encode_append(a: Seq<u8>, b: Seq<u8>)
    ensures
        pct_encode_bytes(a + b) == pct_encode_bytes(a) + pct_encode_bytes(b),
    decreases b.len(),
{
    if b.len() == 0 {
        assert(a + b =~= a);
        assert(pct_encode_bytes(a) + pct_encode_bytes(b) =~= pct_encode_bytes(a));
    } else {
        lemma_pct_encode_append(a, b.drop_last());
        assert((a + b).drop_last() =~= a + b.drop_last());
        assert((a + b).last() == b.last());
        assert(pct_encode_bytes(a + b) =~= pct_encode_bytes(a) + pct_encode_bytes(b));
    }
}

/// Percent-decoding gives back the encoded bytes.
pub proof fn lemma_pct_round_trip(bytes: Seq<u8>)
    ensures
        pct_decode(pct_encode_bytes(bytes)) == bytes,
    decreases bytes.len(),
{
    if bytes.len() > 0 {
        let b = bytes[0];
        let rest = bytes.skip(1);
        assert(bytes =~= seq![b] + rest);
        lemma_pct_encode_append(seq![b], rest);
        assert(seq![b].drop_last() =~= Seq::<u8>::empty());
        assert(seq![b].last() == b);
        assert(pct_encode_bytes(seq![b].drop_last()) =~= Seq::<char>::empty());
        assert(pct_encode_bytes(seq![b]) =~= pct_byte(b));
        let e = pct_encode_bytes(bytes);
        let tail = pct_encode_bytes(rest);
        assert(e == pct_byte(b) + tail);
        lemma_pct_round_trip(rest);
        if is_unreserved(b) {
            assert(e[0] == b as char);
            assert(e.skip(1) =~= tail);
            assert(((b as char) as u32) as u8 == b);
            assert(pct_decode(e) =~= seq![b] + rest);
        } else {
            lemma_hex_char_value((b / 16) as nat);
            lemma_hex_char_value((b % 16) as nat);
            assert(e[0] == '%');
            assert(e[1] == crate::text::hex_char((b / 16) as nat, true));
            assert(e[2] == crate::text::hex_char((b % 16) as nat, true));
            assert(e.skip(3) =~= tail);
            assert(16 * (b / 16) + b % 16 == b);
            assert(pct_decode(e) =~= seq![b] + rest);
        }
    }
}

/// Percent-encoding emits only unreserved ASCII characters and `%`.
pub proof fn lemma_pct_alphabet(bytes: Seq<u8>)
    ensures
        forall|i: int|
            0 <= i < pct_encode_bytes(bytes).len() ==> #[trigger] is_unreserved_char(
                pct_encode_bytes(bytes)[i],
            ) || pct_encode_bytes(bytes)[i] == '%',
    decreases bytes.len(),
{
    if bytes.len() > 0 {
        lemma_pct_alphabet(bytes.drop_last());
        let prev = pct_encode_bytes(bytes.drop_last());
        let b = bytes.last();
        let last = pct_byte(b);
        if !is_unreserved(b) {
            lemma_hex_char_value((b / 16) as nat);
            lemma_hex_char_value((b % 16) as nat);
        }
        assert forall|i: int| 0 <= i < (prev + last).len() implies #[trigger] is_unreserved_char(
            (prev + last)[i],
        ) || (prev + last)[i] == '%' by {
            if i < prev.len() {
                assert((prev + last)[i] == prev[i]);
            } else {
                assert((prev + last)[i] == last[i - prev.len()]);
            }
        }
    }
}

/// The bytes as characters, one for one.
pub open spec fn bytes_as_chars(bytes: Seq<u8>) -> Seq<char> {
    Seq::new(bytes.len(), |i: int| bytes[i] as char)
}

proof fn lemma_pct_len(bytes: Seq<u8>)
    ensures
        pct_encode_bytes(bytes).len() >= bytes.len(),
        (exists|i: int| 0 <= i < bytes.len() && !is_unreserved(#[trigger] bytes[i]))
            ==> pct_encode_bytes(bytes).len() >= bytes.len() + 2,
    decreases bytes.len(),
{
    if bytes.len() > 0 {
        let d = bytes.drop_last();
        lemma_pct_len(d);
        if exists|i: int| 0 <= i < bytes.len() && !is_unreserved(#[trigger] bytes[i]) {
            let i = choose|i: int| 0 <= i < bytes.len() && !is_unreserved(#[trigger] bytes[i]);
            if i < d.len() {
                assert(d[i] == bytes[i]);
            }
        }
    }
}

/// Percent-encoding leaves a byte string unchanged exactly when every byte is
/// unreserved.
pub proof fn lemma_pct_unchanged_iff_unreserved(bytes: Seq<u8>)
    ensures
        pct_encode_bytes(bytes) == bytes_as_chars(bytes) <==> forall|i: int|
            0 <= i < bytes.len() ==> is_unreserved(#[trigger] bytes[i]),
    decreases bytes.len(),
{
    lemma_pct_len(bytes);
    if bytes.len() > 0 {
        let d = bytes.drop_last();
        lemma_pct_unchanged_iff_unreserved(d);
        if forall|i: int| 0 <= i < bytes.len() ==> is_unreserved(#[trigger] bytes[i]) {
            assert forall|i: int| 0 <= i < d.len() implies is_unreserved(#[trigger] d[i]) by {
                assert(d[i] == bytes[i]);
            }
            assert(is_unreserved(bytes[bytes.len() - 1]));
            assert(pct_encode_bytes(bytes) =~= bytes_as_chars(bytes)) by {
                assert(bytes_as_chars(d) + seq![bytes.last() as char] =~= bytes_as_chars(bytes));
            }
        } else {
            let i = choose|i: int| 0 <= i < bytes.len() && !is_unreserved(#[trigger] bytes[i]);
            assert(pct_encode_bytes(bytes).len() != bytes_as_chars(bytes).len());
        }
    } else {
        assert(pct_encode_bytes(bytes) =~= bytes_as_chars(bytes));
    }
}

proof fn lemma_strip_controls_clean(s: Seq<char>)
    ensures
        forall|i: int| 0 <= i < strip_controls(s).len() ==> !is_control(#[trigger] strip_controls(s)[i]),
    decreases s.len(),
{
    if s.len() > 0 {
        lemma_strip_controls_clean(s.drop_last());
        let p = strip_controls(s.drop_last());
        if !is_control(s.last()) {
            assert forall|i: int| 0 <= i < p.push(s.last()).len() implies !is_control(
                #[trigger] p.push(s.last())[i],
            ) by {
                if i < p.len() {
                    assert(p.push(s.last())[i] == p[i]);
                }
            }
        }
    }
}

/// A filename that `sanitize_name` accepts is 1 to 2048 characters long, holds
/// no control character (so no CR or LF) and neither starts nor ends with whitespace.
pub proof fn lemma_sanitized_name_is_clean(raw: Seq<char>)
    requires
        spec_sanitize_name(raw) is Ok,
    ensures
        ({
            let t = cleaned_name(raw);
            &&& 1 <= t.len() <= MAX_NAME_CHARS
            &&& forall|i: int| 0 <= i < t.len() ==> !is_control(#[trigger] t[i])
            &&& !crate::text::is_whitespace(t[0])
            &&& !crate::text::is_whitespace(t.last())
        }),
{
    let s = strip_controls(raw);
    lemma_strip_controls_clean(raw);
    let (a, b) = crate::text::lemma_trim_shape(s);
    let t = cleaned_name(raw);
    assert forall|i: int| 0 <= i < t.len() implies !is_control(#[trigger] t[i]) by {
        assert(t[i] == s[a + i]);
    }
}

/// Only control characters (U+0000 to U+001F and U+007F to U+009F) are
/// removed: a name of 1 to 2048 characters with none of them, which neither
/// starts nor ends with whitespace, is kept as it is, interior spaces included.
pub proof fn lemma_clean_name_is_kept(n: Seq<char>)
    requires
        1 <= n.len() <= MAX_NAME_CHARS,
        forall|i: int|
            0 <= i < n.len() ==> (#[trigger] n[i] as u32) >= 0x20 && !(0x7f <= n[i] as u32
                <= 0x9f),
        !crate::text::is_whitespace(n[0]),
        !crate::text::is_whitespace(n.last()),
    ensures
        spec_sanitize_name(n) == Ok::<Seq<char>, NameError>(n),
{
    lemma_strip_controls_identity(n);
    lemma_trim_identity(n);
}

/// A printable ASCII name (space to `~`) of 1 to 2048 characters that neither
/// starts nor ends with a space is kept as it is.
pub proof fn lemma_printable_name_is_kept(n: Seq<char>)
    requires
        1 <= n.len() <= MAX_NAME_CHARS,
        forall|i: int| 0 <= i < n.len() ==> 0x20 <= (#[trigger] n[i] as u32) <= 0x7e,
        n[0] as u32 != 0x20,
        n.last() as u32 != 0x20,
    ensures
        spec_sanitize_name(n) == Ok::<Seq<char>, NameError>(n),
{
    assert(0x20 <= n[n.len() - 1] as u32 <= 0x7e);
    lemma_clean_name_is_kept(n);
}

/// Sanitizing is stable: a sanitized filename sanitizes to itself.
pub proof fn lemma_sanitize_is_idempotent(raw: Seq<char>)
    requires
        spec_sanitize_name(raw) is Ok,
    ensures
        spec_sanitize_name(cleaned_name(raw)) == spec_sanitize_name(raw),
{
    let t = cleaned_name(raw);
    lemma_sanitized_name_is_clean(raw);
    lemma_strip_controls_identity(t);
    lemma_trim_identity(t);
}

proof fn lemma_strip_controls_identity(s: Seq<char>)
    requires
        forall|i: int| 0 <= i < s.len() ==> !is_control(#[trigger] s[i]),
    ensures
        strip_controls(s) == s,
    decreases s.len(),
{
    if s.len() > 0 {
        assert forall|i: int| 0 <= i < s.drop_last().len() implies !is_control(
            #[trigger] s.drop_last()[i],
        ) by {
            assert(s.drop_last()[i] == s[i]);
        }
        lemma_strip_controls_identity(s.drop_last());
        assert(!is_control(s[s.len() - 1]));
        assert(s.drop_last().push(s.last()) =~= s);
    }
}

proof fn lemma_trim_identity(s: Seq<char>)
    requires
        s.len() > 0,
        !crate::text::is_whitespace(s[0]),
        !crate::text::is_whitespace(s.last()),
    ensures
        crate::text::trim(s) == s,
{
    assert(crate::text::trim_start(s) == s);
    assert(crate::text::trim_end(s) == s);
}

} // verus!
