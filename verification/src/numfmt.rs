use vstd::prelude::*;
use vstd::string::StringSliceAdditionalSpecFns;

verus! {

/// Largest fixed-point value the model carries: 999999.999 distance units,
/// in thousandths.
pub open spec fn max_milli() -> int {
    999_999_999
}

/// The decimal digit character for `d`.
pub open spec fn dec_digit(d: int) -> char
    recommends
        0 <= d < 10,
{
    ((48 + d) as u8) as char
}

/// Decimal digits of a nonnegative integer, most significant first, no
/// leading zeros.
pub open spec fn spec_dec(n: int) -> Seq<char>
    recommends
        n >= 0,
    decreases n,
{
    if n < 10 {
        seq![dec_digit(n)]
    } else {
        spec_dec(n / 10).push(dec_digit(n % 10))
    }
}

/// How a nonnegative fixed-point milli value is rendered for the server:
/// the integer part, then a fractional part with trailing zeros dropped and
/// no decimal point at all for a whole number.
pub open spec fn spec_milli_chars(m: int) -> Seq<char>
    recommends
        m >= 0,
{
    let whole = m / 1000;
    let frac = m % 1000;
    if frac == 0 {
        spec_dec(whole)
    } else if frac % 100 == 0 {
        spec_dec(whole) + seq!['.', dec_digit(frac / 100)]
    } else if frac % 10 == 0 {
        spec_dec(whole) + seq!['.', dec_digit(frac / 100), dec_digit((frac / 10) % 10)]
    } else {
        spec_dec(whole) + seq!['.', dec_digit(frac / 100), dec_digit((frac / 10) % 10), dec_digit(frac % 10)]
    }
}

/// Relies on String::push from std: appends the given character to the end
/// of the string.
pub assume_specification[ String::push ](s: &mut String, c: char)
    ensures
        final(s)@ == old(s)@.push(c),
;

pub fn dec_digit_char(d: u64) -> (c: char)
    requires
        d < 10,
    ensures
        c == dec_digit(d as int),
{
    ((48 + d as u8)) as char
}

/// Decimal rendering of a nonnegative integer, as the server's validator
/// expects the numeric signature fields.
pub fn fmt_u64(n: u64) -> (r: String)
    ensures
        r@ == spec_dec(n as int),
    decreases n,
{
    if n < 10 {
        let mut s = String::new();
        s.push(dec_digit_char(n));
        proof {
            assert(s@ =~= seq![dec_digit(n as int)]);
        }
        s
    } else {
        let mut s = fmt_u64(n / 10);
        s.push(dec_digit_char(n % 10));
        s
    }
}

/// Fixed-point milli value rendered as its decimal distance value.
pub fn fmt_milli(m: i64) -> (r: String)
    requires
        0 <= m,
    ensures
        r@ == spec_milli_chars(m as int),
{
    let whole = (m / 1000) as u64;
    let frac = (m % 1000) as u64;
    let mut s = fmt_u64(whole);
    if frac == 0 {
        return s;
    }
    s.push('.');
    s.push(dec_digit_char(frac / 100));
    if frac % 100 == 0 {
        proof {
            assert(s@ =~= spec_dec(m as int / 1000) + seq!['.', dec_digit((m as int % 1000) / 100)]);
        }
        return s;
    }
    s.push(dec_digit_char((frac / 10) % 10));
    if frac % 10 == 0 {
        proof {
            assert(s@ =~= spec_dec(m as int / 1000) + seq![
                '.',
                dec_digit((m as int % 1000) / 100),
                dec_digit(((m as int % 1000) / 10) % 10),
            ]);
        }
        return s;
    }
    s.push(dec_digit_char(frac % 10));
    proof {
        assert(s@ =~= spec_dec(m as int / 1000) + seq![
            '.',
            dec_digit((m as int % 1000) / 100),
            dec_digit(((m as int % 1000) / 10) % 10),
            dec_digit(m as int % 1000 % 10),
        ]);
    }
    s
}

/// An ASCII decimal digit.
pub open spec fn is_digit(b: u8) -> bool {
    48 <= b && b <= 57
}

pub open spec fn all_digits(b: Seq<u8>) -> bool {
    forall|k: int| 0 <= k < b.len() ==> is_digit(#[trigger] b[k])
}

/// Numeric value of a digit string, most significant first.
pub open spec fn spec_dec_val(b: Seq<u8>) -> int
    decreases b.len(),
{
    if b.len() == 0 {
        0
    } else {
        spec_dec_val(b.drop_last()) * 10 + (b.last() - 48)
    }
}

/// `b` splits as a plain nonnegative decimal at `d`: a nonempty run of
/// digits, then either the end of the string or a dot followed by only
/// digits.
pub open spec fn is_decimal_split(b: Seq<u8>, d: int) -> bool {
    1 <= d <= b.len() && all_digits(b.take(d)) && (d == b.len() || (b[d] == 46 && all_digits(
        b.skip(d + 1),
    )))
}

/// Milli value of a fractional digit run: the first three digits,
/// zero-padded on the right, further digits truncated away.
pub open spec fn spec_frac_milli(b: Seq<u8>) -> int {
    if b.len() >= 3 {
        spec_dec_val(b.take(3))
    } else if b.len() == 2 {
        spec_dec_val(b) * 10
    } else if b.len() == 1 {
        spec_dec_val(b) * 100
    } else {
        0
    }
}

/// Milli value of a decimal string split at `d`.
pub open spec fn spec_split_milli(b: Seq<u8>, d: int) -> int {
    spec_dec_val(b.take(d)) * 1000 + if d < b.len() {
        spec_frac_milli(b.skip(d + 1))
    } else {
        0
    }
}

proof fn lemma_dec_val_nonneg(b: Seq<u8>)
    requires
        all_digits(b),
    ensures
        spec_dec_val(b) >= 0,
    decreases b.len(),
{
    if b.len() > 0 {
        assert forall|k: int| 0 <= k < b.drop_last().len() implies is_digit(
            #[trigger] b.drop_last()[k],
        ) by {
            assert(b.drop_last()[k] == b[k]);
        }
        lemma_dec_val_nonneg(b.drop_last());
    }
}

/// Parses a nonnegative plain decimal string ("20", "12.5") into milli fixed
/// point, truncating fractional digits beyond the third. Returns None when
/// the string is not of that shape or its value is out of range.
pub fn parse_milli(s: &str) -> (r: Option<i64>)
    ensures
        match r {
            Some(v) => 0 <= v <= max_milli() && exists|d: int|
                is_decimal_split(s.spec_bytes(), d) && v == spec_split_milli(s.spec_bytes(), d),
            None => forall|d: int|
                is_decimal_split(s.spec_bytes(), d) ==> spec_split_milli(s.spec_bytes(), d)
                    > max_milli(),
        },
{
    let b = s.as_bytes_vec();
    let ghost bs = s.spec_bytes();
    let n = b.len();
    let mut i: usize = 0;
    let mut whole: i64 = 0;
    let mut over = false;
    while i < n && b[i] != 46
        invariant
            bs == s.spec_bytes(),
            b@ == bs,
            n == bs.len(),
            i <= n,
            forall|k: int| 0 <= k < i ==> is_digit(#[trigger] bs[k]),
            !over ==> 0 <= whole <= 999_999_999 && whole == spec_dec_val(bs.take(i as int)),
            over ==> spec_dec_val(bs.take(i as int)) > 999_999_999,
        decreases n - i,
    {
        let c = b[i];
        if c < 48 || c > 57 {
            proof {
                assert forall|d: int| is_decimal_split(bs, d) implies false by {
                    if d > i {
                        assert(is_digit(bs.take(d)[i as int]));
                    } else if d == i {
                        assert(bs[d] == 46);
                    } else {
                        assert(is_digit(bs[d]));
                        assert(bs[d] == 46);
                    }
                }
            }
            return None;
        }
        let d10 = (c - 48) as i64;
        proof {
            assert(bs.take(i + 1).drop_last() =~= bs.take(i as int));
            assert(bs.take(i + 1).last() == bs[i as int]);
        }
        if over {
        } else if whole * 10 + d10 > 999_999_999 {
            over = true;
        } else {
            whole = whole * 10 + d10;
        }
        i += 1;
    }
    if i == 0 {
        proof {
            assert forall|d: int| is_decimal_split(bs, d) implies false by {
                assert(is_digit(bs.take(d)[0]));
                if n == 0 {
                } else {
                    assert(bs[0] == 46);
                }
            }
        }
        return None;
    }
    if i == n {
        proof {
            assert(bs.take(n as int) =~= bs);
        }
        if over || whole > 999_999 {
            proof {
                assert forall|d: int|
                    is_decimal_split(bs, d) implies spec_split_milli(bs, d) > max_milli() by {
                    if d < n {
                        assert(is_digit(bs[d]));
                        assert(bs[d] == 46);
                    }
                    assert(d == n);
                }
            }
            return None;
        }
        proof {
            assert(is_decimal_split(bs, n as int));
            assert(spec_split_milli(bs, n as int) == whole * 1000);
        }
        return Some(whole * 1000);
    }
    // bs[i] is the first dot; scan the fractional digits.
    let dot = i;
    let mut j = i + 1;
    let mut frac: i64 = 0;
    let mut cnt: usize = 0;
    while j < n
        invariant
            bs == s.spec_bytes(),
            b@ == bs,
            n == bs.len(),
            dot < n,
            bs[dot as int] == 46,
            dot + 1 <= j <= n,
            forall|k: int| 0 <= k < dot ==> is_digit(#[trigger] bs[k]),
            forall|k: int| dot + 1 <= k < j ==> is_digit(#[trigger] bs[k]),
            cnt == if j - (dot + 1) < 3 { j - (dot + 1) } else { 3int },
            0 <= frac,
            frac <= if cnt == 0 { 0int } else if cnt == 1 { 9int } else if cnt == 2 { 99int } else { 999int },
            frac == spec_dec_val(bs.subrange(dot + 1, dot + 1 + cnt)),
            !over ==> 0 <= whole <= 999_999_999 && whole == spec_dec_val(bs.take(dot as int)),
            over ==> spec_dec_val(bs.take(dot as int)) > 999_999_999,
        decreases n - j,
    {
        let c = b[j];
        if c < 48 || c > 57 {
            proof {
                assert forall|d: int| is_decimal_split(bs, d) implies false by {
                    if d < dot {
                        assert(is_digit(bs[d]));
                        assert(bs[d] == 46);
                    } else if d > dot {
                        assert(is_digit(bs.take(d)[dot as int]));
                    } else {
                        assert(is_digit(bs.skip(d + 1)[j - d - 1]));
                    }
                }
            }
            return None;
        }
        if cnt < 3 {
            proof {
                assert(bs.subrange(dot + 1, dot + 1 + (cnt + 1)).drop_last() =~= bs.subrange(
                    dot + 1,
                    dot + 1 + cnt,
                ));
                assert(bs.subrange(dot + 1, dot + 1 + (cnt + 1)).last() == bs[j as int]);
            }
            frac = frac * 10 + (c - 48) as i64;
            cnt = cnt + 1;
        }
        j += 1;
    }
    let padded: i64 = if cnt == 0 {
        0
    } else if cnt == 1 {
        frac * 100
    } else if cnt == 2 {
        frac * 10
    } else {
        frac
    };
    proof {
        let fs = bs.skip(dot + 1);
        assert forall|k: int| 0 <= k < fs.len() implies is_digit(#[trigger] fs[k]) by {
            assert(fs[k] == bs[dot + 1 + k]);
        }
        if fs.len() >= 3 {
            assert(fs.take(3) =~= bs.subrange(dot + 1, dot + 1 + 3));
        } else {
            assert(fs =~= bs.subrange(dot + 1, dot + 1 + fs.len()));
        }
        assert(padded == spec_frac_milli(fs));
        lemma_dec_val_nonneg(fs);
        if fs.len() >= 3 {
            assert forall|k: int| 0 <= k < fs.take(3).len() implies is_digit(
                #[trigger] fs.take(3)[k],
            ) by {
                assert(fs.take(3)[k] == fs[k]);
            }
            lemma_dec_val_nonneg(fs.take(3));
        }
        assert(spec_frac_milli(fs) >= 0);
    }
    if over || whole > 999_999 {
        proof {
            assert forall|d: int|
                is_decimal_split(bs, d) implies spec_split_milli(bs, d) > max_milli() by {
                if d < dot {
                    assert(is_digit(bs[d]));
                    assert(bs[d] == 46);
                } else if d > dot {
                    assert(is_digit(bs.take(d)[dot as int]));
                }
                assert(d == dot);
            }
        }
        return None;
    }
    proof {
        assert(is_decimal_split(bs, dot as int));
        assert(spec_split_milli(bs, dot as int) == whole * 1000 + spec_frac_milli(
            bs.skip(dot + 1),
        ));
    }
    Some(whole * 1000 + padded)
}

} // verus!
