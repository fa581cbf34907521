use vstd::prelude::*;

verus! {

/// Value of the digit `c` in base `radix` (10 or 16; hexadecimal letters in either case).
pub open spec fn digit_value(c: char, radix: nat) -> Option<nat> {
    if '0' <= c && c <= '9' && (c as nat - '0' as nat) < radix {
        Some((c as nat - '0' as nat) as nat)
    } else if radix == 16 && 'a' <= c && c <= 'f' {
        Some((c as nat - 'a' as nat + 10) as nat)
    } else if radix == 16 && 'A' <= c && c <= 'F' {
        Some((c as nat - 'A' as nat + 10) as nat)
    } else {
        None
    }
}

/// The number that the non-empty digit string `s` spells in base `radix`.
pub open spec fn digits_value(s: Seq<char>, radix: nat) -> Option<nat>
    decreases s.len(),
{
    if s.len() == 0 {
        None
    } else if s.len() == 1 {
        digit_value(s[0], radix)
    } else {
        match (digits_value(s.drop_last(), radix), digit_value(s.last(), radix)) {
            (Some(a), Some(d)) => Some(a * radix + d),
            _ => None,
        }
    }
}

/// An optional sign (`-` only where `signed`) followed by digits.
pub open spec fn signed_value(s: Seq<char>, radix: nat, signed: bool) -> Option<int> {
    if s.len() > 0 && s[0] == '+' {
        match digits_value(s.drop_first(), radix) {
            Some(v) => Some(v as int),
            None => None,
        }
    } else if signed && s.len() > 0 && s[0] == '-' {
        match digits_value(s.drop_first(), radix) {
            Some(v) => Some(-(v as int)),
            None => None,
        }
    } else {
        match digits_value(s, radix) {
            Some(v) => Some(v as int),
            None => None,
        }
    }
}

/// `s` read as a 64-bit signed integer in base `radix`, as Rust's integer parsing reads it.
pub open spec fn spec_parse_i64(s: Seq<char>, radix: nat) -> Option<i64> {
    match signed_value(s, radix, true) {
        Some(v) => if i64::MIN <= v <= i64::MAX {
            Some(v as i64)
        } else {
            None
        },
        None => None,
    }
}

/// `s` read as an 8-bit unsigned decimal integer, as Rust's integer parsing reads it.
pub open spec fn spec_parse_u8(s: Seq<char>) -> Option<u8> {
    match signed_value(s, 10, false) {
        Some(v) => if 0 <= v <= u8::MAX {
            Some(v as u8)
        } else {
            None
        },
        None => None,
    }
}

proof fn lemma_digits_valid(s: Seq<char>, radix: nat, i: int)
    requires
        digits_value(s, radix) is Some,
        0 <= i < s.len(),
    ensures
        digit_value(s[i], radix) is Some,
    decreases s.len(),
{
    if s.len() > 1 && i < s.len() - 1 {
        lemma_digits_valid(s.drop_last(), radix, i);
    }
}

/// The magnitude of every value that a parse in this crate can accept fits below this.
const MAGNITUDE_LIMIT: u128 = 0x8000_0000_0000_0000;

/// The digits `s[from..]` in base `radix`: `None` for a bad or missing digit, otherwise the
/// value, or `Some(None)` when it exceeds 2^63.
fn parse_digits(s: &str, from: usize, radix: u32) -> (r: Option<Option<u128>>)
    requires
        from <= s@.len(),
        radix == 10 || radix == 16,
    ensures
        ({
            let v = digits_value(s@.subrange(from as int, s@.len() as int), radix as nat);
            match r {
                None => v is None,
                Some(None) => v is Some && v->0 > MAGNITUDE_LIMIT,
                Some(Some(x)) => v == Some(x as nat) && x <= MAGNITUDE_LIMIT,
            }
        }),
{
    let n = s.unicode_len();
    if from >= n {
        return None;
    }
    let ghost t = s@.subrange(from as int, n as int);
    let mut acc: u128 = 0;
    let mut big = false;
    let mut k: usize = from;
    while k < n
        invariant
            n == s@.len(),
            from < n,
            from <= k <= n,
            t == s@.subrange(from as int, n as int),
            radix == 10 || radix == 16,
            k == from ==> acc == 0 && !big,
            k > from ==> digits_value(t.subrange(0, k - from), radix as nat) is Some,
            k > from && big ==> digits_value(t.subrange(0, k - from), radix as nat)->0
                > MAGNITUDE_LIMIT,
            k > from && !big ==> digits_value(t.subrange(0, k - from), radix as nat) == Some(
                acc as nat,
            ),
            !big ==> acc <= MAGNITUDE_LIMIT,
        decreases n - k,
    {
        let c = s.get_char(k);
        let ghost p = t.subrange(0, k - from);
        let ghost q = t.subrange(0, k + 1 - from);
        assert(q.drop_last() =~= p);
        assert(q.last() == c);
        let d: u32 = if '0' <= c && c <= '9' && (c as u32 - '0' as u32) < radix {
            c as u32 - '0' as u32
        } else if radix == 16 && 'a' <= c && c <= 'f' {
            c as u32 - 'a' as u32 + 10
        } else if radix == 16 && 'A' <= c && c <= 'F' {
            c as u32 - 'A' as u32 + 10
        } else {
            proof {
                if digits_value(t, radix as nat) is Some {
                    lemma_digits_valid(t, radix as nat, k - from);
                }
            }
            return None;
        };
        assert(digit_value(c, radix as nat) == Some(d as nat));
        if !big {
            assert(acc * (radix as u128) <= MAGNITUDE_LIMIT * 16) by (nonlinear_arith)
                requires
                    acc <= MAGNITUDE_LIMIT,
                    radix <= 16,
            ;
            assert(d < 16);
            let next = acc * (radix as u128) + d as u128;
            if k > from {
                assert(digits_value(q, radix as nat) == Some(next as nat));
            } else {
                assert(q.len() == 1);
            }
            acc = next;
            if acc > MAGNITUDE_LIMIT {
                big = true;
            }
        } else {
            proof {
                let a = digits_value(p, radix as nat)->0;
                assert(a * radix as nat + d as nat >= a) by (nonlinear_arith)
                    requires
                        radix >= 10,
                ;
            }
        }
        k = k + 1;
    }
    assert(t.subrange(0, n - from) =~= t);
    if big {
        Some(None)
    } else {
        Some(Some(acc))
    }
}

/// Reads `s[from..]` as an optionally signed integer, as `str::parse` reads one for an
/// integer type: a leading `+`, or `-` where `signed`, then at least one digit. `None` when it
/// is no such text or its magnitude exceeds 2^63.
fn parse_signed(s: &str, from: usize, radix: u32, signed: bool) -> (r: Option<i128>)
    requires
        from <= s@.len(),
        radix == 10 || radix == 16,
    ensures
        ({
            let v = signed_value(s@.subrange(from as int, s@.len() as int), radix as nat, signed);
            match r {
                Some(x) => v == Some(x as int),
                None => v is None || v->0 > MAGNITUDE_LIMIT || v->0 < -MAGNITUDE_LIMIT,
            }
        }),
{
    let n = s.unicode_len();
    let ghost t = s@.subrange(from as int, n as int);
    if from < n && (s.get_char(from) == '+' || (signed && s.get_char(from) == '-')) {
        let neg = s.get_char(from) == '-';
        assert(t.drop_first() =~= s@.subrange(from + 1, n as int));
        match parse_digits(s, from + 1, radix) {
            None => None,
            Some(None) => None,
            Some(Some(x)) => if neg {
                Some(-(x as i128))
            } else {
                Some(x as i128)
            },
        }
    } else {
        match parse_digits(s, from, radix) {
            None => None,
            Some(None) => None,
            Some(Some(x)) => Some(x as i128),
        }
    }
}

/// `s[from..]` as a signed 64-bit integer in base `radix`.
pub fn parse_i64(s: &str, from: usize, radix: u32) -> (r: Option<i64>)
    requires
        from <= s@.len(),
        radix == 10 || radix == 16,
    ensures
        r == spec_parse_i64(s@.subrange(from as int, s@.len() as int), radix as nat),
{
    match parse_signed(s, from, radix, true) {
        Some(x) => if -0x8000_0000_0000_0000i128 <= x && x <= 0x7fff_ffff_ffff_ffffi128 {
            Some(x as i64)
        } else {
            None
        },
        None => None,
    }
}

/// `s[from..]` as an unsigned 8-bit decimal integer.
pub fn parse_u8(s: &str, from: usize) -> (r: Option<u8>)
    requires
        from <= s@.len(),
    ensures
        r == spec_parse_u8(s@.subrange(from as int, s@.len() as int)),
{
    match parse_signed(s, from, 10, false) {
        Some(x) => if 0 <= x && x <= 255 {
            Some(x as u8)
        } else {
            None
        },
        None => None,
    }
}

} // verus!

verus! {

/// Whether `a` and `b` hold the same characters.
pub fn str_eq(a: &str, b: &str) -> (r: bool)
    ensures
        r == (a@ == b@),
{
    let n = a.unicode_len();
    if n != b.unicode_len() {
        return false;
    }
    let mut k: usize = 0;
    while k < n
        invariant
            n == a@.len(),
            n == b@.len(),
            k <= n,
            a@.subrange(0, k as int) == b@.subrange(0, k as int),
        decreases n - k,
    {
        if a.get_char(k) != b.get_char(k) {
            return false;
        }
        assert(a@.subrange(0, k + 1) =~= a@.subrange(0, k as int).push(a@[k as int]));
        assert(b@.subrange(0, k + 1) =~= b@.subrange(0, k as int).push(b@[k as int]));
        k = k + 1;
    }
    assert(a@ =~= a@.subrange(0, n as int));
    assert(b@ =~= b@.subrange(0, n as int));
    true
}

} // verus!
