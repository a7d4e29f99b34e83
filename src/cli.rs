//! Terminal size as given on the command line: `COLSxROWS`.
use crate::json::{decimal, push_decimal};
use vstd::prelude::*;
use vstd::string::{StrSliceExecFns, StringExecFns};

verus! {

/// A terminal size in character cells.
#[derive(Debug, Clone, Copy, PartialEq, Eq)]
pub struct Size {
    pub cols: u16,
    pub rows: u16,
}

/// Why a size string was refused.
#[derive(Debug, Clone, Copy, PartialEq, Eq)]
pub enum SizeError {
    /// There is no `x` between the two numbers.
    Format,
    /// The columns are not a number from 0 to 65535.
    Cols,
    /// The rows are not a number from 0 to 65535.
    Rows,
}

pub open spec fn ascii_digit(c: char) -> bool {
    '0' <= c <= '9'
}

pub open spec fn digits_value(s: Seq<char>) -> nat
    decreases s.len(),
{
    if s.len() == 0 {
        0
    } else {
        digits_value(s.drop_last()) * 10 + (s.last() as u32 - '0' as u32) as nat
    }
}

pub open spec fn without_plus(s: Seq<char>) -> Seq<char> {
    if s.len() > 0 && s[0] == '+' {
        s.drop_first()
    } else {
        s
    }
}

pub open spec fn all_digits(t: Seq<char>) -> bool {
    forall|i: int| 0 <= i < t.len() ==> ascii_digit(#[trigger] t[i])
}

/// An unsigned 16-bit number in decimal, as Rust reads one: an optional
/// `+`, then at least one digit, with a value up to 65535.
pub open spec fn u16_value(s: Seq<char>) -> Option<u16> {
    let t = without_plus(s);
    if t.len() > 0 && all_digits(t) && digits_value(t) <= 65535 {
        Some(digits_value(t) as u16)
    } else {
        None
    }
}

/// Where the first `x` of `s` stands.
pub open spec fn first_x(s: Seq<char>, i: int) -> bool {
    0 <= i < s.len() && s[i] == 'x' && forall|j: int| 0 <= j < i ==> s[j] != 'x'
}

/// The size that `s` names: columns before the first `x`, rows after it.
pub open spec fn size_value(s: Seq<char>) -> Result<(u16, u16), SizeError> {
    if !(exists|i: int| first_x(s, i)) {
        Err(SizeError::Format)
    } else {
        let i = choose|i: int| first_x(s, i);
        match (u16_value(s.take(i)), u16_value(s.skip(i + 1))) {
            (None, _) => Err(SizeError::Cols),
            (Some(_), None) => Err(SizeError::Rows),
            (Some(c), Some(r)) => Ok((c, r)),
        }
    }
}

proof fn lemma_first_x_unique(s: Seq<char>, i: int, k: int)
    requires
        first_x(s, i),
        first_x(s, k),
    ensures
        i == k,
{
    if i < k {
        assert(s[i] != 'x');
    } else if k < i {
        assert(s[k] != 'x');
    }
}

/// Reads the number written in `s` between `from` and `to`.
fn parse_u16_range(s: &str, from: usize, to: usize) -> (r: Option<u16>)
    requires
        from <= to <= s@.len(),
    ensures
        r == u16_value(s@.subrange(from as int, to as int)),
{
    let ghost whole = s@.subrange(from as int, to as int);
    let mut i = from;
    if i < to && s.get_char(i) == '+' {
        i += 1;
    }
    let ghost t = s@.subrange(i as int, to as int);
    assert(t == without_plus(whole));
    if i == to {
        return None;
    }
    let start = i;
    let mut value: u32 = 0;
    while i < to
        invariant
            from <= start <= i <= to,
            to <= s@.len(),
            t == s@.subrange(start as int, to as int),
            whole == s@.subrange(from as int, to as int),
            t == without_plus(whole),
            t.len() > 0,
            value <= 65535,
            value == digits_value(s@.subrange(start as int, i as int)),
            forall|j: int| start <= j < i ==> ascii_digit(#[trigger] s@[j]),
        decreases to - i,
    {
        let c = s.get_char(i);
        let ghost prefix = s@.subrange(start as int, i as int);
        if !('0' <= c && c <= '9') {
            assert(t[i - start] == c);
            assert(!ascii_digit(t[i - start]));
            assert(u16_value(whole) is None);
            return None;
        }
        assert(s@.subrange(start as int, i + 1).drop_last() =~= prefix);
        value = value * 10 + (c as u32 - '0' as u32);
        i += 1;
        if value > 65535 {
            proof {
                assert(t.take(i - start) =~= s@.subrange(start as int, i as int));
                lemma_digits_value_grows(t, (i - start) as int);
            }
            return None;
        }
    }
    assert(s@.subrange(start as int, i as int) =~= t);
    Some(value as u16)
}

proof fn lemma_digits_value_grows(t: Seq<char>, k: int)
    requires
        0 <= k <= t.len(),
    ensures
        digits_value(t.take(k)) <= digits_value(t),
    decreases t.len(),
{
    if k < t.len() {
        assert(t.drop_last().take(k) =~= t.take(k));
        lemma_digits_value_grows(t.drop_last(), k);
    } else {
        assert(t.take(k) =~= t);
    }
}

impl Size {
    pub fn new(cols: u16, rows: u16) -> (r: Size)
        ensures
            r.cols == cols,
            r.rows == rows,
    {
        Size { cols, rows }
    }

    pub fn cols(&self) -> (r: usize)
        ensures
            r == self.cols,
    {
        self.cols as usize
    }

    pub fn rows(&self) -> (r: usize)
        ensures
            r == self.rows,
    {
        self.rows as usize
    }

    /// Reads `COLSxROWS`.
    pub fn parse(s: &str) -> (r: Result<Size, SizeError>)
        ensures
            match r {
                Ok(size) => size_value(s@) == Ok::<(u16, u16), SizeError>((size.cols, size.rows)),
                Err(e) => size_value(s@) == Err::<(u16, u16), SizeError>(e),
            },
    {
        let n = s.unicode_len();
        let mut i: usize = 0;
        while i < n && s.get_char(i) != 'x'
            invariant
                i <= n,
                n == s@.len(),
                forall|j: int| 0 <= j < i ==> s@[j] != 'x',
            decreases n - i,
        {
            i += 1;
        }
        if i == n {
            assert(!exists|k: int| first_x(s@, k));
            return Err(SizeError::Format);
        }
        proof {
            assert(first_x(s@, i as int));
            let k = choose|k: int| first_x(s@, k);
            lemma_first_x_unique(s@, i as int, k);
            assert(s@.take(i as int) =~= s@.subrange(0, i as int));
            assert(s@.skip(i + 1) =~= s@.subrange(i + 1, n as int));
        }
        let cols = match parse_u16_range(s, 0, i) {
            Some(c) => c,
            None => return Err(SizeError::Cols),
        };
        let rows = match parse_u16_range(s, i + 1, n) {
            Some(r) => r,
            None => return Err(SizeError::Rows),
        };
        Ok(Size { cols, rows })
    }

    /// The size written back as `COLSxROWS`.
    pub fn to_text(&self) -> (r: String)
        ensures
            r@ == decimal(self.cols as nat) + seq!['x'] + decimal(self.rows as nat),
    {
        let mut out = String::new();
        push_decimal(&mut out, self.cols as u64);
        proof {
            reveal_strlit("x");
        }
        out.append("x");
        push_decimal(&mut out, self.rows as u64);
        out
    }
}

} // verus!
