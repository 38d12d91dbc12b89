use vstd::prelude::*;

verus! {

/// Why a duration string was rejected.
#[derive(Debug, Clone, Copy, PartialEq, Eq, Structural)]
pub enum DurationError {
    /// The string is empty.
    InvalidFormat,
    /// The part before the unit is not a decimal number that fits in 64 bits,
    /// or the span it denotes does not fit in 64 bits of seconds.
    InvalidNumber,
    /// The last character is not one of `s`, `m`, `h`, `d`.
    InvalidUnit,
}

pub open spec fn is_digit(c: char) -> bool {
    '0' <= c && c <= '9'
}

pub open spec fn all_digits(s: Seq<char>) -> bool {
    forall|i: int| 0 <= i < s.len() ==> is_digit(#[trigger] s[i])
}

/// The number written by a sequence of decimal digits, most significant first.
pub open spec fn digits_value(s: Seq<char>) -> nat
    decreases s.len(),
{
    if s.len() == 0 {
        0
    } else {
        digits_value(s.drop_last()) * 10 + (s.last() as nat - '0' as nat) as nat
    }
}

/// Seconds in one unit of time.
pub open spec fn unit_factor(c: char) -> Option<nat> {
    if c == 's' {
        Some(1)
    } else if c == 'm' {
        Some(60)
    } else if c == 'h' {
        Some(3600)
    } else if c == 'd' {
        Some(86400)
    } else {
        None
    }
}

/// The number before the unit, when it is a non-empty run of digits whose
/// value fits in a `u64`.
pub open spec fn duration_number(s: Seq<char>) -> Option<nat> {
    let p = s.drop_last();
    if p.len() > 0 && all_digits(p) && digits_value(p) <= u64::MAX {
        Some(digits_value(p))
    } else {
        None
    }
}

/// What `<digits><unit>` means, in seconds.
pub open spec fn duration_spec(s: Seq<char>) -> Result<nat, DurationError> {
    if s.len() == 0 {
        Err(DurationError::InvalidFormat)
    } else if duration_number(s) is None {
        Err(DurationError::InvalidNumber)
    } else if unit_factor(s.last()) is None {
        Err(DurationError::InvalidUnit)
    } else if duration_number(s).unwrap() * unit_factor(s.last()).unwrap() > u64::MAX {
        Err(DurationError::InvalidNumber)
    } else {
        Ok(duration_number(s).unwrap() * unit_factor(s.last()).unwrap())
    }
}

proof fn lemma_digits_value_prefix(s: Seq<char>, k: int)
    requires
        0 <= k <= s.len(),
        all_digits(s),
    ensures
        digits_value(s.subrange(0, k)) <= digits_value(s),
    decreases s.len() - k,
{
    if k < s.len() {
        lemma_digits_value_prefix(s, k + 1);
        let t = s.subrange(0, k + 1);
        assert(t.drop_last() =~= s.subrange(0, k));
        assert(is_digit(s[k]));
    } else {
        assert(s.subrange(0, k) =~= s);
    }
}

fn unit_seconds(c: char) -> (r: Option<u64>)
    ensures
        r matches Some(v) ==> unit_factor(c) == Some(v as nat),
        r is None ==> unit_factor(c) is None,
{
    if c == 's' {
        Some(1)
    } else if c == 'm' {
        Some(60)
    } else if c == 'h' {
        Some(3600)
    } else if c == 'd' {
        Some(86400)
    } else {
        None
    }
}

/// Parses a span written as `<digits><unit>` (`14d`, `23m`, `12h`, `1s`) into
/// seconds.
pub fn parse_duration(duration: &str) -> (r: Result<u64, DurationError>)
    ensures
        r matches Ok(v) ==> duration_spec(duration@) == Ok::<nat, DurationError>(v as nat),
        r matches Err(e) ==> duration_spec(duration@) == Err::<nat, DurationError>(e),
{
    let n = duration.unicode_len();
    if n == 0 {
        return Err(DurationError::InvalidFormat);
    }
    let ghost p = duration@.drop_last();
    if n == 1 {
        return Err(DurationError::InvalidNumber);
    }
    let mut num: u64 = 0;
    let mut i: usize = 0;
    while i < n - 1
        invariant
            n == duration@.len(),
            n >= 2,
            p == duration@.drop_last(),
            0 <= i <= n - 1,
            all_digits(p.subrange(0, i as int)),
            num as nat == digits_value(p.subrange(0, i as int)),
        decreases n - 1 - i,
    {
        let c = duration.get_char(i);
        assert(p[i as int] == c);
        if !('0' <= c && c <= '9') {
            assert(!all_digits(p));
            return Err(DurationError::InvalidNumber);
        }
        let d: u64 = (c as u32 - '0' as u32) as u64;
        proof {
            let t = p.subrange(0, i + 1);
            assert(t.drop_last() =~= p.subrange(0, i as int));
            assert(t.last() == c);
        }
        match num.checked_mul(10) {
            Some(m) => match m.checked_add(d) {
                Some(v) => {
                    num = v;
                },
                None => {
                    proof {
                        if all_digits(p) {
                            lemma_digits_value_prefix(p, i + 1);
                        }
                    }
                    return Err(DurationError::InvalidNumber);
                },
            },
            None => {
                proof {
                    if all_digits(p) {
                        lemma_digits_value_prefix(p, i + 1);
                    }
                }
                return Err(DurationError::InvalidNumber);
            },
        }
        i = i + 1;
        assert(all_digits(p.subrange(0, i as int))) by {
            assert forall|j: int| 0 <= j < i implies is_digit(#[trigger] p.subrange(0, i as int)[j]) by {
                if j < i - 1 {
                    assert(p.subrange(0, i as int)[j] == p.subrange(0, i - 1)[j]);
                }
            }
        }
    }
    assert(p.subrange(0, i as int) =~= p);
    let unit = duration.get_char(n - 1);
    match unit_seconds(unit) {
        None => Err(DurationError::InvalidUnit),
        Some(f) => match num.checked_mul(f) {
            Some(v) => Ok(v),
            None => Err(DurationError::InvalidNumber),
        },
    }
}

/// A string of one or more decimal digits followed by `s`, `m`, `h` or `d`
/// denotes the number the digits write times the unit's seconds, whenever
/// that fits in a `u64`.
pub proof fn lemma_well_formed_duration(digits: Seq<char>, unit: char)
    requires
        digits.len() > 0,
        all_digits(digits),
        unit_factor(unit) is Some,
        digits_value(digits) * unit_factor(unit).unwrap() <= u64::MAX,
    ensures
        duration_spec(digits.push(unit)) == Ok::<nat, DurationError>(
            digits_value(digits) * unit_factor(unit).unwrap(),
        ),
{
    let s = digits.push(unit);
    assert(s.drop_last() =~= digits);
    assert(digits_value(digits) <= u64::MAX) by (nonlinear_arith)
        requires
            digits_value(digits) * unit_factor(unit).unwrap() <= u64::MAX,
            unit_factor(unit).unwrap() >= 1,
    ;
}

} // verus!
