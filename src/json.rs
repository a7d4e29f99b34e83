//! The pieces of JSON text that the asciicast encoder writes: quoted
//! strings, integers, and seconds as decimal fractions.
use vstd::prelude::*;
use vstd::string::StringExecFns;

verus! {

pub open spec fn digit_char(d: nat) -> char {
    if d == 0 {
        '0'
    } else if d == 1 {
        '1'
    } else if d == 2 {
        '2'
    } else if d == 3 {
        '3'
    } else if d == 4 {
        '4'
    } else if d == 5 {
        '5'
    } else if d == 6 {
        '6'
    } else if d == 7 {
        '7'
    } else if d == 8 {
        '8'
    } else {
        '9'
    }
}

pub open spec fn is_digit(c: char) -> bool {
    '0' <= c <= '9'
}

/// The decimal digits of `n`, most significant first, with no leading zero.
pub open spec fn decimal(n: nat) -> Seq<char>
    decreases n,
{
    if n < 10 {
        seq![digit_char(n)]
    } else {
        decimal(n / 10) + seq![digit_char(n % 10)]
    }
}

/// `i` in decimal, with a minus sign when negative.
pub open spec fn signed_decimal(i: int) -> Seq<char> {
    if i < 0 {
        seq!['-'] + decimal((-i) as nat)
    } else {
        decimal(i as nat)
    }
}

/// The six digits of a number of microseconds below one second.
pub open spec fn micro_digits(f: nat) -> Seq<char> {
    seq![
        digit_char(f / 100000),
        digit_char(f / 10000 % 10),
        digit_char(f / 1000 % 10),
        digit_char(f / 100 % 10),
        digit_char(f / 10 % 10),
        digit_char(f % 10),
    ]
}

/// `s` without its trailing zeros, but keeping at least one character.
pub open spec fn trim_zeros(s: Seq<char>) -> Seq<char>
    decreases s.len(),
{
    if s.len() > 1 && s.last() == '0' {
        trim_zeros(s.drop_last())
    } else {
        s
    }
}

/// A duration given in microseconds, written in seconds as a JSON number:
/// whole seconds, a point, and the fraction without trailing zeros
/// (`1500000` is `1.5`, `0` is `0.0`).
pub open spec fn seconds_text(us: nat) -> Seq<char> {
    decimal(us / 1_000_000) + seq!['.'] + trim_zeros(micro_digits(us % 1_000_000))
}

pub open spec fn hex_lower(d: nat) -> char {
    if d < 10 {
        digit_char(d)
    } else if d == 10 {
        'a'
    } else if d == 11 {
        'b'
    } else if d == 12 {
        'c'
    } else if d == 13 {
        'd'
    } else if d == 14 {
        'e'
    } else {
        'f'
    }
}

/// How one character stands inside a JSON string: quote and backslash take a
/// backslash, the five usual controls their short escapes, the other controls
/// below 0x20 `\u00XX` with lower-case hex, and every other character itself.
pub open spec fn json_escape(c: char) -> Seq<char> {
    if c == '"' {
        seq!['\\', '"']
    } else if c == '\\' {
        seq!['\\', '\\']
    } else if c == '\x08' {
        seq!['\\', 'b']
    } else if c == '\t' {
        seq!['\\', 't']
    } else if c == '\n' {
        seq!['\\', 'n']
    } else if c == '\x0c' {
        seq!['\\', 'f']
    } else if c == '\r' {
        seq!['\\', 'r']
    } else if (c as u32) < 0x20 {
        seq!['\\', 'u', '0', '0', hex_lower((c as u32 / 16) as nat), hex_lower((c as u32 % 16) as nat)]
    } else {
        seq![c]
    }
}

pub open spec fn json_escaped(s: Seq<char>) -> Seq<char>
    decreases s.len(),
{
    if s.len() == 0 {
        Seq::empty()
    } else {
        json_escaped(s.drop_last()) + json_escape(s.last())
    }
}

/// `s` as a JSON string literal.
pub open spec fn json_quote(s: Seq<char>) -> Seq<char> {
    seq!['"'] + json_escaped(s) + seq!['"']
}

/// Relies on `serde_json::to_string` applied to a `str`: it writes the string
/// between double quotes, escaping bytes by its `ESCAPE` table (quote,
/// backslash, `\b \t \n \f \r`, `\u00xx` for the other controls below 0x20),
/// and cannot fail, since a `str` serializes into a `Vec` that takes all.
#[verifier::external_body]
pub(crate) fn json_string(s: &str) -> (r: String)
    ensures
        r@ == json_quote(s@),
{
    match serde_json::to_string(s) {
        Ok(v) => v,
        Err(_) => String::new(),
    }
}

fn digit_str(d: u64) -> (r: &'static str)
    requires
        d < 10,
    ensures
        r@ == seq![digit_char(d as nat)],
{
    proof {
        reveal_strlit("0");
        reveal_strlit("1");
        reveal_strlit("2");
        reveal_strlit("3");
        reveal_strlit("4");
        reveal_strlit("5");
        reveal_strlit("6");
        reveal_strlit("7");
        reveal_strlit("8");
        reveal_strlit("9");
    }
    if d == 0 {
        "0"
    } else if d == 1 {
        "1"
    } else if d == 2 {
        "2"
    } else if d == 3 {
        "3"
    } else if d == 4 {
        "4"
    } else if d == 5 {
        "5"
    } else if d == 6 {
        "6"
    } else if d == 7 {
        "7"
    } else if d == 8 {
        "8"
    } else {
        "9"
    }
}

/// Appends the decimal digits of `n`.
pub fn push_decimal(out: &mut String, n: u64)
    ensures
        final(out)@ == old(out)@ + decimal(n as nat),
    decreases n,
{
    if n >= 10 {
        push_decimal(out, n / 10);
    }
    out.append(digit_str(n % 10));
    assert(final(out)@ =~= old(out)@ + decimal(n as nat));
}

/// Appends `i` in decimal, with a minus sign when negative.
pub fn push_signed(out: &mut String, i: i64)
    ensures
        final(out)@ == old(out)@ + signed_decimal(i as int),
{
    if i < 0 {
        proof {
            reveal_strlit("-");
        }
        out.append("-");
        let magnitude: u64 = if i == i64::MIN {
            0x8000_0000_0000_0000u64
        } else {
            (-i) as u64
        };
        push_decimal(out, magnitude);
        assert(final(out)@ =~= old(out)@ + signed_decimal(i as int));
    } else {
        push_decimal(out, i as u64);
    }
}

/// Appends a number of microseconds as seconds (see [`seconds_text`]).
pub fn push_seconds(out: &mut String, us: u64)
    ensures
        final(out)@ == old(out)@ + seconds_text(us as nat),
{
    push_decimal(out, us / 1_000_000);
    proof {
        reveal_strlit(".");
    }
    out.append(".");
    let f: u64 = us % 1_000_000;
    let digits: [u64; 6] = [f / 100000, f / 10000 % 10, f / 1000 % 10, f / 100 % 10, f / 10 % 10, f % 10];
    let ghost md = micro_digits(f as nat);
    assert(forall|j: int| 0 <= j < 6 ==> md[j] == digit_char(#[trigger] digits@[j] as nat));
    assert(forall|j: int| 0 <= j < 6 ==> #[trigger] digits@[j] < 10);
    let mut end: usize = 6;
    assert(md.take(6) =~= md);
    while end > 1 && digits[end - 1] == 0
        invariant
            1 <= end <= 6,
            md.len() == 6,
            trim_zeros(md) == trim_zeros(md.take(end as int)),
            forall|j: int| 0 <= j < 6 ==> md[j] == digit_char(#[trigger] digits@[j] as nat),
        decreases end,
    {
        assert(md.take(end as int).drop_last() =~= md.take(end - 1));
        end -= 1;
    }
    proof {
        if end > 1 {
            assert(digits@[end - 1] != 0);
            assert(md[end - 1] != '0');
        }
        assert(trim_zeros(md.take(end as int)) == md.take(end as int));
    }
    let ghost before = out@;
    let mut k: usize = 0;
    while k < end
        invariant
            k <= end <= 6,
            md.len() == 6,
            out@ == before + md.take(k as int),
            forall|j: int| 0 <= j < 6 ==> md[j] == digit_char(#[trigger] digits@[j] as nat),
            forall|j: int| 0 <= j < 6 ==> #[trigger] digits@[j] < 10,
        decreases end - k,
    {
        out.append(digit_str(digits[k]));
        assert(md.take(k + 1) =~= md.take(k as int) + seq![md[k as int]]);
        k += 1;
    }
    assert(final(out)@ =~= old(out)@ + seconds_text(us as nat));
}

/// Every character of a decimal is a digit.
pub proof fn lemma_decimal_digits(n: nat)
    ensures
        decimal(n).len() >= 1,
        forall|i: int| 0 <= i < decimal(n).len() ==> is_digit(#[trigger] decimal(n)[i]),
    decreases n,
{
    if n >= 10 {
        lemma_decimal_digits(n / 10);
    }
}

proof fn lemma_trim_zeros_digits(s: Seq<char>)
    requires
        s.len() >= 1,
        forall|i: int| 0 <= i < s.len() ==> is_digit(#[trigger] s[i]),
    ensures
        trim_zeros(s).len() >= 1,
        forall|i: int| 0 <= i < trim_zeros(s).len() ==> is_digit(#[trigger] trim_zeros(s)[i]),
    decreases s.len(),
{
    if s.len() > 1 && s.last() == '0' {
        lemma_trim_zeros_digits(s.drop_last());
    }
}

/// The text of a duration is a plain non-negative decimal number: digits,
/// one point, and at least one digit on either side. It has no sign, no
/// exponent, and nothing that could stand for an infinity.
pub proof fn lemma_seconds_text_plain(us: nat)
    ensures
        ({
            let t = seconds_text(us);
            let w = decimal(us / 1_000_000).len();
            &&& 1 <= w < t.len() - 1
            &&& t[w as int] == '.'
            &&& forall|i: int| 0 <= i < t.len() && i != w ==> is_digit(#[trigger] t[i])
        }),
{
    lemma_decimal_digits(us / 1_000_000);
    let md = micro_digits(us % 1_000_000);
    assert forall|i: int| 0 <= i < md.len() implies is_digit(#[trigger] md[i]) by {}
    lemma_trim_zeros_digits(md);
}

} // verus!
