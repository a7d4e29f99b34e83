//! ALiS v1: the binary live-streaming protocol.
//!
//! Every frame starts with a one-byte type, then the event id and the time
//! since the previous frame, both as unsigned LEB128, then a payload.
use vstd::prelude::*;
use vstd::string::StrSliceExecFns;
use vstd::utf8::{decode_utf8, encode_utf8, encode_utf8_decode_utf8, encode_utf8_valid_utf8, valid_utf8};

verus! {

/// The frame types of the protocol.
#[derive(Debug, Clone, Copy, PartialEq, Eq)]
pub enum EventType {
    Init,
    EOT,
    Output,
    Input,
    Resize,
    Marker,
    Exit,
}

impl EventType {
    pub open spec fn spec_code(self) -> u8 {
        match self {
            EventType::Init => 0x01,
            EventType::EOT => 0x04,
            EventType::Output => 0x6F,
            EventType::Input => 0x69,
            EventType::Resize => 0x72,
            EventType::Marker => 0x6D,
            EventType::Exit => 0x78,
        }
    }

    /// The byte that opens a frame of this type.
    #[verifier::when_used_as_spec(spec_code)]
    pub fn code(self) -> (r: u8)
        ensures
            r == self.spec_code(),
    {
        match self {
            EventType::Init => 0x01,
            EventType::EOT => 0x04,
            EventType::Output => 0x6F,
            EventType::Input => 0x69,
            EventType::Resize => 0x72,
            EventType::Marker => 0x6D,
            EventType::Exit => 0x78,
        }
    }
}

/// How a theme is laid out in an Init frame.
#[derive(Debug, Clone, Copy, PartialEq, Eq)]
pub enum ThemeFormat {
    Absent,
    Palette8,
    Palette16,
}

impl ThemeFormat {
    pub open spec fn spec_code(self) -> u8 {
        match self {
            ThemeFormat::Absent => 0x00,
            ThemeFormat::Palette8 => 0x08,
            ThemeFormat::Palette16 => 0x10,
        }
    }

    /// The byte that announces this layout.
    #[verifier::when_used_as_spec(spec_code)]
    pub fn code(self) -> (r: u8)
        ensures
            r == self.spec_code(),
    {
        match self {
            ThemeFormat::Absent => 0x00,
            ThemeFormat::Palette8 => 0x08,
            ThemeFormat::Palette16 => 0x10,
        }
    }
}

/// The frame that opens every ALiS connection: "ALiS" and version 1.
pub open spec fn magic_bytes() -> Seq<u8> {
    seq![0x41u8, 0x4Cu8, 0x69u8, 0x53u8, 0x01u8]
}

/// The bytes of the opening frame.
pub fn alis_magic() -> (r: Vec<u8>)
    ensures
        r@ == magic_bytes(),
{
    let r: Vec<u8> = vec![0x41u8, 0x4Cu8, 0x69u8, 0x53u8, 0x01u8];
    assert(r@ =~= magic_bytes());
    r
}

// ---------------------------------------------------------------------------
// LEB128

/// LEB128 of `n`: seven data bits per byte, least significant group first,
/// with the high bit set on every byte but the last.
pub open spec fn leb128(n: nat) -> Seq<u8>
    decreases n,
{
    if n < 128 {
        seq![n as u8]
    } else {
        seq![(n % 128 + 128) as u8] + leb128(n / 128)
    }
}

/// Reads one LEB128 number from the front of `bytes`: its value and how many
/// bytes it took, or `None` where the input ends before the last byte.
pub open spec fn leb128_decode(bytes: Seq<u8>) -> Option<(nat, nat)>
    decreases bytes.len(),
{
    if bytes.len() == 0 {
        None
    } else if bytes[0] < 128 {
        Some((bytes[0] as nat, 1))
    } else {
        match leb128_decode(bytes.drop_first()) {
            Some((v, n)) => Some((((bytes[0] - 128) + 128 * v) as nat, n + 1)),
            None => None,
        }
    }
}

/// Decoding the LEB128 of `n` gives back `n`, whatever follows it.
pub proof fn lemma_leb128_round_trip(n: nat, rest: Seq<u8>)
    ensures
        leb128_decode(leb128(n) + rest) == Some((n, leb128(n).len())),
    decreases n,
{
    let s = leb128(n) + rest;
    if n < 128 {
        assert(s[0] == n as u8);
    } else {
        lemma_leb128_round_trip(n / 128, rest);
        assert(s.drop_first() =~= leb128(n / 128) + rest);
        assert(s[0] == (n % 128 + 128) as u8);
    }
}

pub open spec fn pow128(k: nat) -> nat
    decreases k,
{
    if k == 0 {
        1
    } else {
        128 * pow128((k - 1) as nat)
    }
}

/// A number below `128^k` takes at most `k` bytes.
pub proof fn lemma_leb128_len(n: nat, k: nat)
    requires
        k >= 1,
        n < pow128(k),
    ensures
        leb128(n).len() <= k,
    decreases k,
{
    if n >= 128 {
        let p = pow128((k - 1) as nat);
        assert(n / 128 < p) by (nonlinear_arith)
            requires
                n < 128 * p,
        ;
        if k == 1 {
            assert(false);
        } else {
            lemma_leb128_len(n / 128, (k - 1) as nat);
        }
    }
}

/// A 64-bit number takes at most ten bytes.
pub proof fn lemma_leb128_len_u64(n: u64)
    ensures
        1 <= leb128(n as nat).len() <= 10,
{
    reveal_with_fuel(pow128, 11);
    assert(pow128(10) == 0x40_0000_0000_0000_0000);
    lemma_leb128_len(n as nat, 10);
}

/// A decoded number takes at least one byte and no more than there are.
pub proof fn lemma_leb128_decode_len(bytes: Seq<u8>)
    ensures
        leb128_decode(bytes) matches Some((v, n)) ==> 1 <= n <= bytes.len(),
    decreases bytes.len(),
{
    if bytes.len() > 0 && bytes[0] >= 128 {
        lemma_leb128_decode_len(bytes.drop_first());
    }
}

/// Every 64-bit number comes back from its LEB128, which takes at most ten
/// bytes, so that `decode_leb128` gives it back.
pub proof fn lemma_leb128_u64_round_trip(n: u64)
    ensures
        leb128_decode(leb128(n as nat)) == Some((n as nat, leb128(n as nat).len())),
        leb128(n as nat).len() <= 10,
{
    lemma_leb128_round_trip(n as nat, Seq::empty());
    assert(leb128(n as nat) + Seq::<u8>::empty() =~= leb128(n as nat));
    lemma_leb128_len_u64(n);
}

/// Encodes `value` as unsigned LEB128.
pub fn encode_leb128(value: u64) -> (r: Vec<u8>)
    ensures
        r@ == leb128(value as nat),
{
    let mut result: Vec<u8> = Vec::new();
    let mut val: u64 = value;
    loop
        invariant
            result@ + leb128(val as nat) == leb128(value as nat),
        decreases val,
    {
        if val < 128 {
            result.push(val as u8);
            assert(leb128(val as nat) == seq![val as u8]);
            return result;
        }
        let byte: u8 = (val % 128 + 128) as u8;
        proof {
            assert(leb128(val as nat) == seq![byte] + leb128((val / 128) as nat));
            assert(result@.push(byte) + leb128((val / 128) as nat) == result@ + leb128(val as nat));
        }
        result.push(byte);
        val = val / 128;
    }
}

fn decode_leb128_at(bytes: &[u8], start: usize, budget: usize) -> (r: Option<(u64, usize)>)
    requires
        start <= bytes@.len(),
    ensures
        match r {
            Some((v, n)) => leb128_decode(bytes@.subrange(start as int, bytes@.len() as int))
                == Some((v as nat, n as nat)) && n <= budget,
            None => match leb128_decode(bytes@.subrange(start as int, bytes@.len() as int)) {
                Some((v, n)) => v > u64::MAX || n > budget,
                None => true,
            },
        },
    decreases budget,
{
    let ghost sub = bytes@.subrange(start as int, bytes@.len() as int);
    if start >= bytes.len() || budget == 0 {
        proof {
            lemma_leb128_decode_len(sub);
        }
        return None;
    }
    let b = bytes[start];
    if b < 128 {
        return Some((b as u64, 1));
    }
    proof {
        assert(sub.drop_first() =~= bytes@.subrange(start + 1, bytes@.len() as int));
    }
    let low: u64 = (b - 128) as u64;
    match decode_leb128_at(bytes, start + 1, budget - 1) {
        None => None,
        Some((v, n)) => {
            if v > (u64::MAX - low) / 128 {
                assert(low + 128 * v > u64::MAX) by (nonlinear_arith)
                    requires
                        v > (u64::MAX - low) / 128,
                        low < 128,
                ;
                None
            } else {
                assert(low + 128 * v <= u64::MAX) by (nonlinear_arith)
                    requires
                        v <= (u64::MAX - low) / 128,
                        low < 128,
                ;
                Some((low + 128 * v, n + 1))
            }
        },
    }
}

/// Reads one LEB128 number from the front of `bytes`. It gives `None` where
/// the input ends before the number does, where the number takes more than
/// ten bytes, or where it does not fit in 64 bits.
pub fn decode_leb128(bytes: &[u8]) -> (r: Option<(u64, usize)>)
    ensures
        match r {
            Some((v, n)) => leb128_decode(bytes@) == Some((v as nat, n as nat)) && n <= 10,
            None => match leb128_decode(bytes@) {
                Some((v, n)) => v > u64::MAX || n > 10,
                None => true,
            },
        },
{
    assert(bytes@.subrange(0, bytes@.len() as int) =~= bytes@);
    decode_leb128_at(bytes, 0, 10)
}

// ---------------------------------------------------------------------------
// Strings

/// A string on the wire: the LEB128 of its UTF-8 length, then its UTF-8.
pub open spec fn string_frame(s: Seq<char>) -> Seq<u8> {
    leb128(encode_utf8(s).len()) + encode_utf8(s)
}

/// Reads one string from the front of `bytes`: its characters and how many
/// bytes it took, or `None` where the length does not decode, the bytes run
/// short, or they are not UTF-8.
pub open spec fn string_decode(bytes: Seq<u8>) -> Option<(Seq<char>, nat)> {
    match leb128_decode(bytes) {
        Some((len, n)) => if n + len <= bytes.len() && valid_utf8(
            bytes.subrange(n as int, (n + len) as int),
        ) {
            Some((decode_utf8(bytes.subrange(n as int, (n + len) as int)), n + len))
        } else {
            None
        },
        None => None,
    }
}

/// Decoding an encoded string gives back the string.
pub proof fn lemma_string_round_trip(s: Seq<char>, rest: Seq<u8>)
    ensures
        string_decode(string_frame(s) + rest) == Some((s, string_frame(s).len())),
{
    let body = encode_utf8(s);
    let head = leb128(body.len());
    let all = string_frame(s) + rest;
    assert(all =~= head + (body + rest));
    lemma_leb128_round_trip(body.len(), body + rest);
    assert(all.subrange(head.len() as int, (head.len() + body.len()) as int) =~= body);
    encode_utf8_valid_utf8(s);
    encode_utf8_decode_utf8(s);
}

/// Appends `bytes` to `buf`.
fn push_all(buf: &mut Vec<u8>, bytes: &[u8])
    ensures
        final(buf)@ == old(buf)@ + bytes@,
{
    let mut i: usize = 0;
    while i < bytes.len()
        invariant
            i <= bytes@.len(),
            buf@ == old(buf)@ + bytes@.subrange(0, i as int),
        decreases bytes@.len() - i,
    {
        buf.push(bytes[i]);
        i += 1;
        assert(bytes@.subrange(0, i as int) =~= bytes@.subrange(0, i - 1) + seq![bytes@[i - 1]]);
    }
    assert(bytes@.subrange(0, i as int) =~= bytes@);
}

/// Encodes a string with its length in front.
pub fn encode_string(s: &str) -> (r: Vec<u8>)
    ensures
        r@ == string_frame(s@),
{
    let bytes = s.as_bytes();
    let mut result = encode_leb128(bytes.len() as u64);
    push_all(&mut result, bytes);
    result
}

/// Relies on `std::str::from_utf8`: it accepts exactly the valid UTF-8 byte
/// sequences, and the string it gives holds the characters they encode.
#[verifier::external_body]
fn utf8_text(bytes: &[u8]) -> (r: Option<String>)
    ensures
        r is Some <==> valid_utf8(bytes@),
        r matches Some(s) ==> s@ == decode_utf8(bytes@),
{
    match std::str::from_utf8(bytes) {
        Ok(s) => Some(s.to_string()),
        Err(_) => None,
    }
}

/// Reads one length-prefixed string from the front of `bytes`, with the
/// number of bytes it took.
pub fn decode_string(bytes: &[u8]) -> (r: Option<(String, usize)>)
    ensures
        match r {
            Some((s, n)) => string_decode(bytes@) == Some((s@, n as nat)),
            None => match leb128_decode(bytes@) {
                Some((_, n)) => n > 10 || string_decode(bytes@) is None,
                None => true,
            },
        },
{
    let total = bytes.len();
    match decode_leb128(bytes) {
        None => {
            proof {
                lemma_leb128_decode_len(bytes@);
            }
            None
        },
        Some((len, n)) => {
            proof {
                lemma_leb128_decode_len(bytes@);
            }
            if len > (bytes.len() - n) as u64 {
                assert(n + len > bytes@.len());
                assert(string_decode(bytes@) is None);
                return None;
            }
            let end: usize = n + len as usize;
            let body = &bytes[n..end];
            assert(body@ =~= bytes@.subrange(n as int, end as int));
            match utf8_text(body) {
                None => {
                    assert(!valid_utf8(bytes@.subrange(n as int, end as int)));
                    assert(string_decode(bytes@) is None);
                    None
                },
                Some(s) => Some((s, end)),
            }
        },
    }
}

// ---------------------------------------------------------------------------
// Colors and themes

/// Why a color string was refused.
#[derive(Debug, Clone, Copy, PartialEq, Eq)]
pub enum ColorError {
    /// Not six characters once the leading `#` are taken off.
    Format,
    /// Six characters, but not all of them hexadecimal digits.
    Component,
}

pub open spec fn hex_digit(c: char) -> Option<u8> {
    if '0' <= c <= '9' {
        Some((c as u32 - '0' as u32) as u8)
    } else if 'a' <= c <= 'f' {
        Some((c as u32 - 'a' as u32 + 10) as u8)
    } else if 'A' <= c <= 'F' {
        Some((c as u32 - 'A' as u32 + 10) as u8)
    } else {
        None
    }
}

pub open spec fn all_hex(t: Seq<char>) -> bool {
    forall|i: int| 0 <= i < t.len() ==> (#[trigger] hex_digit(t[i])) is Some
}

pub open spec fn hex_pair(t: Seq<char>, i: int) -> u8 {
    (hex_digit(t[i])->0 * 16 + hex_digit(t[i + 1])->0) as u8
}

/// The red, green and blue bytes of `#RRGGBB` (either case of hex digit),
/// or why it is refused.
pub open spec fn color_rgb(s: Seq<char>) -> Result<Seq<u8>, ColorError> {
    let t = s.drop_first();
    if s.len() != 7 || s[0] != '#' {
        Err(ColorError::Format)
    } else if !all_hex(t) {
        Err(ColorError::Component)
    } else {
        Ok(seq![hex_pair(t, 0), hex_pair(t, 2), hex_pair(t, 4)])
    }
}

fn hex_value(c: char) -> (r: Option<u8>)
    ensures
        r == hex_digit(c),
{
    if '0' <= c && c <= '9' {
        Some((c as u32 - '0' as u32) as u8)
    } else if 'a' <= c && c <= 'f' {
        Some((c as u32 - 'a' as u32 + 10) as u8)
    } else if 'A' <= c && c <= 'F' {
        Some((c as u32 - 'A' as u32 + 10) as u8)
    } else {
        None
    }
}

/// Parses a color of the form `#RRGGBB` into its three bytes.
pub fn parse_color(color: &str) -> (r: Result<[u8; 3], ColorError>)
    ensures
        match r {
            Ok(rgb) => color_rgb(color@) == Ok::<Seq<u8>, ColorError>(rgb@),
            Err(e) => color_rgb(color@) == Err::<Seq<u8>, ColorError>(e),
        },
{
    let n = color.unicode_len();
    if n != 7 || color.get_char(0) != '#' {
        return Err(ColorError::Format);
    }
    let i: usize = 1;
    let ghost t = color@.subrange(1, 7);
    assert(t =~= color@.drop_first());
    let mut digits: [u8; 6] = [0u8; 6];
    let mut k: usize = 0;
    while k < 6
        invariant
            k <= 6,
            i + 6 == n,
            n == color@.len(),
            i == 1,
            t == color@.drop_first(),
            color@[0] == '#',
            t == color@.subrange(i as int, n as int),
            forall|j: int| 0 <= j < k ==> (#[trigger] hex_digit(t[j])) == Some(digits@[j]),
        decreases 6 - k,
    {
        match hex_value(color.get_char(i + k)) {
            Some(d) => {
                digits[k] = d;
            },
            None => {
                assert(hex_digit(t[k as int]) is None);
                assert(!all_hex(t));
                return Err(ColorError::Component);
            },
        }
        k += 1;
    }
    assert(all_hex(t));
    let rgb: [u8; 3] = [
        digits[0] * 16 + digits[1],
        digits[2] * 16 + digits[3],
        digits[4] * 16 + digits[5],
    ];
    assert(rgb@ =~= seq![hex_pair(t, 0), hex_pair(t, 2), hex_pair(t, 4)]);
    Ok(rgb)
}

/// A terminal theme: foreground, background and palette colors, each
/// written `#RRGGBB`.
#[derive(Debug, Clone)]
pub struct Theme {
    pub fg: String,
    pub bg: String,
    pub palette: Vec<String>,
}

/// The number of palette slots a theme is sent with: 8 for up to eight
/// colors, 16 otherwise.
pub open spec fn palette_slots(len: nat) -> nat {
    if len <= 8 {
        8
    } else {
        16
    }
}

pub open spec fn palette_chars(t: Theme) -> Seq<Seq<char>> {
    t.palette@.map_values(|c: String| c@)
}

/// The colors that encoding `t` reads, in the order it reads them:
/// foreground, background, then the palette entries that fit the slots.
pub open spec fn theme_colors(t: Theme) -> Seq<Seq<char>> {
    let p = palette_chars(t);
    let used = if p.len() <= palette_slots(p.len()) {
        p.len()
    } else {
        palette_slots(p.len())
    };
    seq![t.fg@, t.bg@] + p.take(used as int)
}

/// The error of the first refused color of `cs`, if any.
pub open spec fn first_color_error(cs: Seq<Seq<char>>) -> Option<ColorError>
    decreases cs.len(),
{
    if cs.len() == 0 {
        None
    } else {
        match color_rgb(cs[0]) {
            Err(e) => Some(e),
            Ok(_) => first_color_error(cs.drop_first()),
        }
    }
}

pub open spec fn rgb_bytes(c: Seq<char>) -> Seq<u8> {
    match color_rgb(c) {
        Ok(b) => b,
        Err(_) => seq![0u8, 0u8, 0u8],
    }
}

/// The first `k` palette slots: each entry's three bytes, and three zero
/// bytes for each slot past the end of the palette.
pub open spec fn palette_bytes(p: Seq<Seq<char>>, k: nat) -> Seq<u8>
    decreases k,
{
    if k == 0 {
        Seq::empty()
    } else {
        palette_bytes(p, (k - 1) as nat) + if k - 1 < p.len() {
            rgb_bytes(p[k - 1])
        } else {
            seq![0u8, 0u8, 0u8]
        }
    }
}

/// The theme section of an Init frame.
pub open spec fn theme_bytes(theme: Option<Theme>) -> Result<Seq<u8>, ColorError> {
    match theme {
        None => Ok(seq![0x00u8]),
        Some(t) => {
            let p = palette_chars(t);
            if p.len() == 0 {
                Ok(seq![0x00u8])
            } else {
                match first_color_error(theme_colors(t)) {
                    Some(e) => Err(e),
                    None => Ok(
                        seq![if p.len() <= 8 { 0x08u8 } else { 0x10u8 }] + rgb_bytes(t.fg@)
                            + rgb_bytes(t.bg@) + palette_bytes(p, palette_slots(p.len())),
                    ),
                }
            }
        },
    }
}

proof fn lemma_first_error_step(cs: Seq<Seq<char>>, k: int)
    requires
        0 <= k < cs.len(),
        first_color_error(cs.take(k)) is None,
    ensures
        color_rgb(cs[k]) is Ok ==> first_color_error(cs.take(k + 1)) is None,
        color_rgb(cs[k]) matches Err(e) ==> first_color_error(cs) == Some(e),
    decreases k,
{
    if k == 0 {
        assert(cs.take(1).drop_first() =~= Seq::<Seq<char>>::empty());
        assert(cs.take(1)[0] == cs[0]);
        if color_rgb(cs[0]) is Ok {
            assert(first_color_error(cs.take(1)) == first_color_error(cs.take(1).drop_first()));
        }
    } else {
        assert(cs.take(k)[0] == cs[0]);
        assert(cs.take(k).drop_first() =~= cs.drop_first().take(k - 1));
        assert(cs.take(k + 1).drop_first() =~= cs.drop_first().take(k));
        assert(cs.take(k + 1)[0] == cs[0]);
        lemma_first_error_step(cs.drop_first(), k - 1);
        if color_rgb(cs[k]) is Ok {
            assert(first_color_error(cs.take(k + 1)) == first_color_error(cs.take(k + 1).drop_first()));
        }
    }
}

/// Parses the `k`-th color that theme encoding reads and appends its bytes.
fn push_color(result: &mut Vec<u8>, c: &str, Ghost(cs): Ghost<Seq<Seq<char>>>, Ghost(k): Ghost<int>) -> (r: Result<(), ColorError>)
    requires
        0 <= k < cs.len(),
        cs[k] == c@,
        first_color_error(cs.take(k)) is None,
    ensures
        match r {
            Ok(()) => final(result)@ == old(result)@ + rgb_bytes(c@)
                && first_color_error(cs.take(k + 1)) is None,
            Err(e) => first_color_error(cs) == Some(e),
        },
{
    proof {
        lemma_first_error_step(cs, k);
    }
    match parse_color(c) {
        Ok(rgb) => {
            push_all(result, rgb.as_slice());
            Ok(())
        },
        Err(e) => Err(e),
    }
}

/// Encodes the theme section of an Init frame: one format byte, then for a
/// theme with a palette the foreground, background and 8 or 16 palette
/// colors, three bytes each. Fails on the first color that does not parse.
pub fn encode_theme(theme: Option<&Theme>) -> (r: Result<Vec<u8>, ColorError>)
    ensures
        match r {
            Ok(v) => theme_bytes(match theme {
                Some(t) => Some(*t),
                None => None,
            }) == Ok::<Seq<u8>, ColorError>(v@),
            Err(e) => theme_bytes(match theme {
                Some(t) => Some(*t),
                None => None,
            }) == Err::<Seq<u8>, ColorError>(e),
        },
{
    let mut result: Vec<u8> = Vec::new();
    match theme {
        None => {
            result.push(ThemeFormat::Absent.code());
            assert(result@ =~= seq![0x00u8]);
        },
        Some(t) => {
            let palette_len = t.palette.len();
            let ghost p = palette_chars(*t);
            let ghost cs = theme_colors(*t);
            assert(p.len() == palette_len);
            if palette_len == 0 {
                result.push(ThemeFormat::Absent.code());
                assert(result@ =~= seq![0x00u8]);
                return Ok(result);
            }
            let slots: usize = if palette_len <= 8 {
                result.push(ThemeFormat::Palette8.code());
                8
            } else {
                result.push(ThemeFormat::Palette16.code());
                16
            };
            let ghost head = result@;
            assert(cs.take(0) =~= Seq::<Seq<char>>::empty());
            match push_color(&mut result, t.fg.as_str(), Ghost(cs), Ghost(0)) {
                Ok(()) => {},
                Err(e) => return Err(e),
            }
            match push_color(&mut result, t.bg.as_str(), Ghost(cs), Ghost(1)) {
                Ok(()) => {},
                Err(e) => return Err(e),
            }
            let ghost colors_end = result@;
            let mut i: usize = 0;
            while i < slots
                invariant
                    i <= slots,
                    slots == palette_slots(palette_len as nat),
                    palette_len == t.palette@.len(),
                    theme == Some(t),
                    p == palette_chars(*t),
                    p.len() == palette_len,
                    palette_len > 0,
                    cs == theme_colors(*t),
                    first_color_error(cs.take(2 + if i < palette_len { i } else { palette_len } as int)) is None,
                    result@ == colors_end + palette_bytes(p, i as nat),
                decreases slots - i,
            {
                if i < palette_len {
                    assert(cs[2 + i as int] == p[i as int]);
                    match push_color(&mut result, t.palette[i].as_str(), Ghost(cs), Ghost(2 + i as int)) {
                        Ok(()) => {},
                        Err(e) => return Err(e),
                    }
                } else {
                    push_all(&mut result, [0u8, 0u8, 0u8].as_slice());
                }
                i += 1;
                assert(palette_bytes(p, i as nat) == palette_bytes(p, (i - 1) as nat) + if i - 1 < p.len() {
                    rgb_bytes(p[i - 1])
                } else {
                    seq![0u8, 0u8, 0u8]
                });
            }
            assert(cs.take(cs.len() as int) =~= cs);
            assert(result@ =~= head + rgb_bytes(t.fg@) + rgb_bytes(t.bg@) + palette_bytes(p, slots as nat));
        },
    }
    Ok(result)
}

// ---------------------------------------------------------------------------
// Frames

/// The bytes every frame starts with: its type, its id, its relative time.
pub open spec fn frame_head(kind: u8, id: nat, rel_time: nat) -> Seq<u8> {
    seq![kind] + leb128(id) + leb128(rel_time)
}

/// An exit status read as an unsigned 64-bit number (two's complement).
pub open spec fn unsigned_status(status: i32) -> nat {
    if status >= 0 {
        status as nat
    } else {
        (status + 0x1_0000_0000_0000_0000) as nat
    }
}

fn start_frame(kind: EventType, id: u64, rel_time: u64) -> (r: Vec<u8>)
    ensures
        r@ == frame_head(kind.spec_code(), id as nat, rel_time as nat),
{
    let mut buf: Vec<u8> = Vec::new();
    buf.push(kind.code());
    let id_bytes = encode_leb128(id);
    push_all(&mut buf, id_bytes.as_slice());
    let time_bytes = encode_leb128(rel_time);
    push_all(&mut buf, time_bytes.as_slice());
    buf
}

/// Encodes an Init frame. Its id slot carries `last_id`, the id of the last
/// event sent, so that a viewer can resume.
pub fn encode_init(
    last_id: u64,
    rel_time: u64,
    cols: u16,
    rows: u16,
    theme: Option<&Theme>,
    init_data: &str,
) -> (r: Result<Vec<u8>, ColorError>)
    ensures
        match theme_bytes(match theme {
            Some(t) => Some(*t),
            None => None,
        }) {
            Ok(tb) => r matches Ok(v) && v@ == frame_head(0x01, last_id as nat, rel_time as nat)
                + leb128(cols as nat) + leb128(rows as nat) + tb + string_frame(init_data@),
            Err(e) => r == Err::<Vec<u8>, ColorError>(e),
        },
{
    let mut buf = start_frame(EventType::Init, last_id, rel_time);
    let c = encode_leb128(cols as u64);
    push_all(&mut buf, c.as_slice());
    let rw = encode_leb128(rows as u64);
    push_all(&mut buf, rw.as_slice());
    let tb = match encode_theme(theme) {
        Ok(tb) => tb,
        Err(e) => return Err(e),
    };
    push_all(&mut buf, tb.as_slice());
    let sb = encode_string(init_data);
    push_all(&mut buf, sb.as_slice());
    Ok(buf)
}

/// Encodes an Output frame: bytes from the terminal to its user.
pub fn encode_output(id: u64, rel_time: u64, data: &str) -> (r: Vec<u8>)
    ensures
        r@ == frame_head(0x6F, id as nat, rel_time as nat) + string_frame(data@),
{
    let mut buf = start_frame(EventType::Output, id, rel_time);
    let sb = encode_string(data);
    push_all(&mut buf, sb.as_slice());
    buf
}

/// Encodes an Input frame: bytes written to the terminal.
pub fn encode_input(id: u64, rel_time: u64, data: &str) -> (r: Vec<u8>)
    ensures
        r@ == frame_head(0x69, id as nat, rel_time as nat) + string_frame(data@),
{
    let mut buf = start_frame(EventType::Input, id, rel_time);
    let sb = encode_string(data);
    push_all(&mut buf, sb.as_slice());
    buf
}

/// Encodes a Resize frame.
pub fn encode_resize(id: u64, rel_time: u64, cols: u16, rows: u16) -> (r: Vec<u8>)
    ensures
        r@ == frame_head(0x72, id as nat, rel_time as nat) + leb128(cols as nat) + leb128(
            rows as nat,
        ),
{
    let mut buf = start_frame(EventType::Resize, id, rel_time);
    let c = encode_leb128(cols as u64);
    push_all(&mut buf, c.as_slice());
    let rw = encode_leb128(rows as u64);
    push_all(&mut buf, rw.as_slice());
    buf
}

/// Encodes a Marker frame: a chapter label.
pub fn encode_marker(id: u64, rel_time: u64, label: &str) -> (r: Vec<u8>)
    ensures
        r@ == frame_head(0x6D, id as nat, rel_time as nat) + string_frame(label@),
{
    let mut buf = start_frame(EventType::Marker, id, rel_time);
    let sb = encode_string(label);
    push_all(&mut buf, sb.as_slice());
    buf
}

/// Encodes an Exit frame; the status goes out as an unsigned number.
pub fn encode_exit(id: u64, rel_time: u64, status: i32) -> (r: Vec<u8>)
    ensures
        r@ == frame_head(0x78, id as nat, rel_time as nat) + leb128(unsigned_status(status)),
{
    let mut buf = start_frame(EventType::Exit, id, rel_time);
    let code: u64 = if status >= 0 {
        status as u64
    } else {
        u64::MAX - ((-(status as i64) - 1) as u64)
    };
    let sb = encode_leb128(code);
    push_all(&mut buf, sb.as_slice());
    buf
}

/// Encodes an EOT frame: the end of a stream, with the socket left open.
pub fn encode_eot(id: u64, rel_time: u64) -> (r: Vec<u8>)
    ensures
        r@ == frame_head(0x04, id as nat, rel_time as nat),
{
    start_frame(EventType::EOT, id, rel_time)
}

} // verus!
