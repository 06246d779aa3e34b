//! Byte-level codecs shared by both token schemes: decimal rendering and
//! parsing of unsigned values, and the hexadecimal transform that turns raw
//! session token bytes into their storage value.
use vstd::prelude::*;
use vstd::string::StrSliceExecFns;

verus! {

/// ASCII ':' — the delimiter of the signed-claims wire format.
pub const COLON: u8 = 0x3a;

pub open spec fn is_digit(b: u8) -> bool {
    0x30 <= b <= 0x39
}

pub open spec fn all_digits(s: Seq<u8>) -> bool {
    forall|i: int| 0 <= i < s.len() ==> is_digit(#[trigger] s[i])
}

/// Numeric value of a digit string, most significant digit first.
pub open spec fn spec_val(s: Seq<u8>) -> int
    decreases s.len(),
{
    if s.len() == 0 {
        0
    } else {
        spec_val(s.drop_last()) * 10 + (s.last() - 0x30)
    }
}

/// The canonical decimal digits of `n`, without leading zeros.
pub open spec fn spec_digits(n: nat) -> Seq<u8>
    decreases n,
{
    if n < 10 {
        seq![(n + 0x30) as u8]
    } else {
        spec_digits(n / 10).push((n % 10 + 0x30) as u8)
    }
}

pub proof fn lemma_digits_are_digits(n: nat)
    ensures
        all_digits(spec_digits(n)),
        spec_digits(n).len() >= 1,
    decreases n,
{
    if n >= 10 {
        lemma_digits_are_digits(n / 10);
        assert forall|i: int| 0 <= i < spec_digits(n).len() implies is_digit(
            #[trigger] spec_digits(n)[i],
        ) by {
            if i < spec_digits(n / 10).len() {
                assert(spec_digits(n)[i] == spec_digits(n / 10)[i]);
            }
        }
    }
}

pub proof fn lemma_val_of_digits(n: nat)
    ensures
        spec_val(spec_digits(n)) == n,
    decreases n,
{
    if n < 10 {
        let d = spec_digits(n);
        assert(d.last() == (n + 0x30) as u8);
        assert(d.drop_last() =~= Seq::<u8>::empty());
        assert(spec_val(d) == spec_val(d.drop_last()) * 10 + (d.last() - 0x30));
    } else {
        lemma_val_of_digits(n / 10);
        let d = spec_digits(n);
        assert(d.last() == (n % 10 + 0x30) as u8);
        assert(d.drop_last() =~= spec_digits(n / 10));
        assert(spec_val(d) == spec_val(spec_digits(n / 10)) * 10 + (n % 10));
    }
}

/// Nonnegativity of a digit string's value.
pub proof fn lemma_val_nonneg(s: Seq<u8>)
    requires
        all_digits(s),
    ensures
        spec_val(s) >= 0,
    decreases s.len(),
{
    if s.len() > 0 {
        assert(all_digits(s.drop_last())) by {
            assert forall|i: int| 0 <= i < s.len() - 1 implies is_digit(
                #[trigger] s.drop_last()[i],
            ) by {
                assert(s.drop_last()[i] == s[i]);
            }
        }
        lemma_val_nonneg(s.drop_last());
    }
}

/// Extending a digit string on the right never decreases its value.
pub proof fn lemma_val_prefix_le(s: Seq<u8>, i: int)
    requires
        all_digits(s),
        0 <= i <= s.len(),
    ensures
        spec_val(s.take(i)) <= spec_val(s),
    decreases s.len() - i,
{
    assert(all_digits(s.take(i))) by {
        assert forall|j: int| 0 <= j < i implies is_digit(#[trigger] s.take(i)[j]) by {
            assert(s.take(i)[j] == s[j]);
        }
    }
    if i < s.len() {
        lemma_val_prefix_le(s, i + 1);
        assert(s.take(i + 1).drop_last() =~= s.take(i));
        assert(s.take(i + 1).last() == s[i]);
        lemma_val_nonneg(s.take(i));
        assert(spec_val(s.take(i)) <= spec_val(s.take(i)) * 10 + (s[i] - 0x30));
    } else {
        assert(s.take(i) =~= s);
    }
}

/// Renders `n` as its decimal digit bytes.
pub fn render_u64(n: u64) -> (r: Vec<u8>)
    ensures
        r@ == spec_digits(n as nat),
    decreases n,
{
    if n < 10 {
        let mut v: Vec<u8> = Vec::new();
        v.push((n + 0x30) as u8);
        v
    } else {
        let mut v = render_u64(n / 10);
        v.push((n % 10 + 0x30) as u8);
        v
    }
}

/// A crude but sufficient bound on the digit count.
pub proof fn lemma_digits_len_le(n: nat)
    ensures
        spec_digits(n).len() <= n + 1,
    decreases n,
{
    if n >= 10 {
        lemma_digits_len_le(n / 10);
    }
}

/// First index at or after `i` holding a non-digit byte (or the length).
pub open spec fn spec_scan_digits(s: Seq<u8>, i: int) -> int
    decreases s.len() - i,
{
    if i < 0 || i >= s.len() {
        i
    } else if is_digit(s[i]) {
        spec_scan_digits(s, i + 1)
    } else {
        i
    }
}

/// The scan stops exactly at `j` when the bytes from `i` to `j` are digits
/// and a non-digit stands at `j`.
pub proof fn lemma_scan_digits_stops(s: Seq<u8>, i: int, j: int)
    requires
        0 <= i <= j <= s.len(),
        forall|k: int| i <= k < j ==> is_digit(#[trigger] s[k]),
        j < s.len() ==> !is_digit(s[j]),
    ensures
        spec_scan_digits(s, i) == j,
    decreases j - i,
{
    if i < j {
        lemma_scan_digits_stops(s, i + 1, j);
    }
}

/// Reads one colon-terminated decimal number starting at `i`: its value and
/// the index just past the colon. `None` when the shape or range is wrong.
pub open spec fn spec_read_dec(s: Seq<u8>, i: int) -> Option<(u64, int)> {
    let j = spec_scan_digits(s, i);
    if i < j && j < s.len() && s[j] == COLON && spec_val(s.subrange(i, j)) <= u64::MAX {
        Some((spec_val(s.subrange(i, j)) as u64, j + 1))
    } else {
        None
    }
}

/// A decimal rendering followed by a colon is read back exactly.
pub proof fn lemma_read_dec_at(s: Seq<u8>, i: int, n: u64, j: int)
    requires
        0 <= i <= j <= s.len(),
        s.subrange(i, j) == spec_digits(n as nat).push(COLON),
    ensures
        spec_read_dec(s, i) == Some((n, j)),
{
    let d = spec_digits(n as nat);
    lemma_digits_are_digits(n as nat);
    assert(s.subrange(i, j).len() == j - i);
    assert(d.push(COLON).len() == d.len() + 1);
    assert(j - i == d.len() + 1);
    assert forall|k: int| i <= k < j - 1 implies is_digit(#[trigger] s[k]) by {
        assert(s[k] == s.subrange(i, j)[k - i]);
        assert(s.subrange(i, j)[k - i] == d[k - i]);
    }
    assert(s[j - 1] == s.subrange(i, j)[j - 1 - i]);
    assert(s[j - 1] == COLON);
    assert(!is_digit(COLON));
    lemma_scan_digits_stops(s, i, j - 1);
    assert(s.subrange(i, j - 1) =~= d);
    lemma_val_of_digits(n as nat);
}

/// Executable twin of `spec_read_dec`.
pub fn read_dec(s: &Vec<u8>, i: usize) -> (r: Option<(u64, usize)>)
    requires
        i <= s@.len(),
    ensures
        match r {
            Some((n, j)) => spec_read_dec(s@, i as int) == Some((n, j as int)) && i < j <= s@.len(),
            None => spec_read_dec(s@, i as int) is None,
        },
{
    let ghost sv = s@;
    let mut j: usize = i;
    let mut acc: u64 = 0;
    let mut overflow: bool = false;
    while j < s.len() && 0x30 <= s[j] && s[j] <= 0x39
        invariant
            i <= j <= sv.len(),
            s@ == sv,
            forall|k: int| i <= k < j ==> is_digit(#[trigger] sv[k]),
            !overflow ==> acc == spec_val(sv.subrange(i as int, j as int)),
            overflow ==> spec_val(sv.subrange(i as int, j as int)) > u64::MAX,
        decreases sv.len() - j,
    {
        let d: u64 = (s[j] - 0x30) as u64;
        let ghost pre = sv.subrange(i as int, j as int);
        let ghost post = sv.subrange(i as int, j as int + 1);
        proof {
            assert(post.drop_last() =~= pre);
            assert(post.last() == sv[j as int]);
        }
        if !overflow {
            match acc.checked_mul(10) {
                Some(m) => {
                    match m.checked_add(d) {
                        Some(v) => {
                            acc = v;
                        },
                        None => {
                            overflow = true;
                        },
                    }
                },
                None => {
                    overflow = true;
                },
            }
        } else {
            proof {
                assert forall|k: int| 0 <= k < pre.len() implies is_digit(#[trigger] pre[k]) by {
                    assert(pre[k] == sv[i + k]);
                }
                lemma_val_nonneg(pre);
                assert(spec_val(post) == spec_val(pre) * 10 + (sv[j as int] - 0x30));
            }
        }
        j = j + 1;
    }
    proof {
        lemma_scan_digits_stops(sv, i as int, j as int);
    }
    if j == i || j == s.len() || s[j] != COLON || overflow {
        None
    } else {
        Some((acc, j + 1))
    }
}

/// Lowercase hex digit for a nibble.
pub open spec fn spec_hex_digit(n: u8) -> u8 {
    if n < 10 {
        (n + 0x30) as u8
    } else {
        (n - 10 + 0x61) as u8
    }
}

/// Lowercase hexadecimal bytes of a byte string, two digits per byte.
pub open spec fn spec_hex(s: Seq<u8>) -> Seq<u8>
    decreases s.len(),
{
    if s.len() == 0 {
        Seq::empty()
    } else {
        spec_hex(s.drop_last()) + seq![
            spec_hex_digit(s.last() / 16),
            spec_hex_digit(s.last() % 16),
        ]
    }
}

pub proof fn lemma_hex_len(s: Seq<u8>)
    ensures
        spec_hex(s).len() == 2 * s.len(),
    decreases s.len(),
{
    if s.len() > 0 {
        lemma_hex_len(s.drop_last());
    }
}

/// Hex-encodes a byte string.
pub fn hex_encode(s: &Vec<u8>) -> (r: Vec<u8>)
    ensures
        r@ == spec_hex(s@),
{
    let mut r: Vec<u8> = Vec::new();
    let mut i: usize = 0;
    while i < s.len()
        invariant
            i <= s@.len(),
            r@ == spec_hex(s@.take(i as int)),
        decreases s@.len() - i,
    {
        let b = s[i];
        let hi = b / 16;
        let lo = b % 16;
        r.push(if hi < 10 {
            (hi + 0x30) as u8
        } else {
            (hi - 10 + 0x61) as u8
        });
        r.push(if lo < 10 {
            (lo + 0x30) as u8
        } else {
            (lo - 10 + 0x61) as u8
        });
        proof {
            let pre = s@.take(i as int);
            let post = s@.take(i as int + 1);
            assert(post.drop_last() =~= pre);
            assert(post.last() == s@[i as int]);
            assert(r@ =~= spec_hex(pre) + seq![
                spec_hex_digit(s@[i as int] / 16),
                spec_hex_digit(s@[i as int] % 16),
            ]);
        }
        i = i + 1;
    }
    proof {
        assert(s@.take(s@.len() as int) =~= s@);
    }
    r
}

/// Whether every byte is below 0x80, so the string is plain ASCII.
pub open spec fn all_ascii(s: Seq<u8>) -> bool {
    forall|i: int| 0 <= i < s.len() ==> #[trigger] s[i] < 0x80
}

/// The characters of an ASCII byte string.
pub open spec fn chars_of_bytes(s: Seq<u8>) -> Seq<char> {
    Seq::new(s.len(), |i: int| s[i] as char)
}

/// The byte codes of a character sequence; faithful only for ASCII text.
pub open spec fn bytes_of_chars(s: Seq<char>) -> Seq<u8> {
    Seq::new(s.len(), |i: int| s[i] as u8)
}

/// For ASCII text, going to bytes and back to characters is the identity,
/// and the bytes are all below 0x80.
pub proof fn lemma_ascii_chars_bytes_roundtrip(s: Seq<char>)
    requires
        vstd::utf8::is_ascii_chars(s),
    ensures
        chars_of_bytes(bytes_of_chars(s)) =~= s,
        all_ascii(bytes_of_chars(s)),
{
    assert forall|i: int| 0 <= i < s.len() implies chars_of_bytes(bytes_of_chars(s))[i] == s[i]
        && bytes_of_chars(s)[i] < 0x80 by {
        assert('\0' <= s[i] <= '\u{7f}');
    }
}

/// The inverse direction: ASCII bytes made characters and back are the
/// identity, and those characters are ASCII.
pub proof fn lemma_ascii_bytes_chars_roundtrip(s: Seq<u8>)
    requires
        all_ascii(s),
    ensures
        bytes_of_chars(chars_of_bytes(s)) =~= s,
        vstd::utf8::is_ascii_chars(chars_of_bytes(s)),
{
    assert forall|i: int| 0 <= i < s.len() implies bytes_of_chars(chars_of_bytes(s))[i] == s[i]
        && '\0' <= chars_of_bytes(s)[i] <= '\u{7f}' by {
        assert(s[i] < 0x80);
    }
}

/// The bytes of an ASCII string slice, as plain data.
pub fn str_bytes(s: &str) -> (r: Vec<u8>)
    requires
        vstd::string::is_ascii(s),
    ensures
        r@ == bytes_of_chars(s@),
{
    broadcast use vstd::string::is_ascii_spec_bytes;

    let r = s.as_bytes_vec();
    proof {
        assert(r@ =~= bytes_of_chars(s@));
    }
    r
}

/// Relies on `String::from_utf8`: ASCII bytes are valid UTF-8, so the call
/// cannot fail, and each byte becomes the character with the same code.
#[verifier::external_body]
pub fn ascii_bytes_to_string(v: Vec<u8>) -> (r: String)
    requires
        all_ascii(v@),
    ensures
        r@ == chars_of_bytes(v@),
{
    match String::from_utf8(v) {
        Ok(s) => s,
        Err(_) => String::new(),
    }
}

/// Appends the bytes of `src` to `dst`.
pub fn append_bytes(dst: &mut Vec<u8>, src: &Vec<u8>)
    ensures
        final(dst)@ == old(dst)@ + src@,
{
    let mut i: usize = 0;
    while i < src.len()
        invariant
            i <= src@.len(),
            dst@ == old(dst)@ + src@.take(i as int),
        decreases src@.len() - i,
    {
        dst.push(src[i]);
        proof {
            assert(old(dst)@ + src@.take(i as int + 1) =~= (old(dst)@ + src@.take(
                i as int,
            )).push(src@[i as int]));
        }
        i = i + 1;
    }
    proof {
        assert(src@.take(src@.len() as int) =~= src@);
    }
}

} // verus!
