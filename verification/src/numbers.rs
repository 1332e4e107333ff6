use vstd::prelude::*;

verus! {

/// Decimal digits and the integers they denote, plus executable parsers
/// and a renderer with exact contracts. Array indices in dotted paths and
/// the mapper's number casts rest on these.

pub open spec fn spec_is_digit(c: char) -> bool {
    '0' <= c && c <= '9'
}

pub open spec fn spec_all_digits(s: Seq<char>) -> bool {
    forall|i: int| 0 <= i < s.len() ==> spec_is_digit(#[trigger] s[i])
}

/// The integer denoted by a digit string, most significant digit first.
pub open spec fn spec_digits_val(s: Seq<char>) -> int
    decreases s.len(),
{
    if s.len() == 0 {
        0
    } else {
        spec_digits_val(s.drop_last()) * 10 + (s.last() as int - 48)
    }
}

/// What `usize::from_str` accepts: an optional `+`, then one or more
/// digits, denoting a value that fits.
pub open spec fn spec_parse_usize(s: Seq<char>) -> Option<int> {
    let body = if s.len() > 0 && s[0] == '+' {
        s.skip(1)
    } else {
        s
    };
    if body.len() > 0 && spec_all_digits(body) && spec_digits_val(body) <= usize::MAX as int {
        Some(spec_digits_val(body))
    } else {
        None
    }
}

/// What `i64::from_str` accepts: an optional sign, then one or more
/// digits, denoting a value in `i64`'s range.
pub open spec fn spec_parse_i64(s: Seq<char>) -> Option<int> {
    let negative = s.len() > 0 && s[0] == '-';
    let body = if s.len() > 0 && (s[0] == '-' || s[0] == '+') {
        s.skip(1)
    } else {
        s
    };
    if body.len() > 0 && spec_all_digits(body) {
        let mag = spec_digits_val(body);
        let val = if negative {
            -mag
        } else {
            mag
        };
        if i64::MIN <= val <= i64::MAX {
            Some(val)
        } else {
            None
        }
    } else {
        None
    }
}

proof fn lemma_digits_val_nonneg(s: Seq<char>)
    requires
        spec_all_digits(s),
    ensures
        spec_digits_val(s) >= 0,
    decreases s.len(),
{
    if s.len() > 0 {
        assert(spec_all_digits(s.drop_last()));
        lemma_digits_val_nonneg(s.drop_last());
    }
}

proof fn lemma_digits_val_prefix(s: Seq<char>, i: int)
    requires
        spec_all_digits(s),
        0 <= i <= s.len(),
    ensures
        spec_digits_val(s.take(i)) <= spec_digits_val(s),
    decreases s.len() - i,
{
    if i < s.len() {
        lemma_digits_val_prefix(s, i + 1);
        assert(s.take(i + 1).drop_last() =~= s.take(i));
        assert(spec_all_digits(s.take(i)));
        lemma_digits_val_nonneg(s.take(i));
        assert(spec_digits_val(s.take(i + 1))
            == spec_digits_val(s.take(i)) * 10 + (s[i] as int - 48));
    } else {
        assert(s.take(i) =~= s);
    }
}

/// The magnitude parser shared by `parse_usize` and `parse_i64`:
/// all of `s` from `start` on must be digits denoting at most `limit`.
fn parse_digits(s: &Vec<char>, start: usize, limit: u64) -> (r: Option<u64>)
    requires
        start <= s@.len(),
    ensures
        match r {
            Some(v) => {
                &&& s@.skip(start as int).len() > 0
                &&& spec_all_digits(s@.skip(start as int))
                &&& v as int == spec_digits_val(s@.skip(start as int))
                &&& v <= limit
            },
            None => {
                let body = s@.skip(start as int);
                body.len() == 0 || !spec_all_digits(body) || spec_digits_val(body) > limit as int
            },
        },
{
    let ghost body = s@.skip(start as int);
    if start == s.len() {
        return None;
    }
    let mut acc: u64 = 0;
    let mut i: usize = start;
    while i < s.len()
        invariant
            start <= i <= s@.len(),
            body == s@.skip(start as int),
            spec_all_digits(body.take(i - start)),
            acc as int == spec_digits_val(body.take(i - start)),
            acc <= limit,
        decreases s@.len() - i,
    {
        let c = s[i];
        if !('0' <= c && c <= '9') {
            proof {
                assert(body[i - start] == c);
            }
            return None;
        }
        let d: u64 = (c as u32 as u64) - 48;
        let wide: u128 = (acc as u128) * 10 + (d as u128);
        proof {
            assert(body.take(i - start + 1).drop_last() =~= body.take(i - start));
            assert(body.take(i - start + 1).last() == c);
        }
        if wide > limit as u128 {
            proof {
                assert(spec_all_digits(body.take(i - start + 1)));
                assert(spec_digits_val(body.take(i - start + 1)) == wide);
                if spec_all_digits(body) {
                    lemma_digits_val_prefix(body, i - start + 1);
                    assert(spec_digits_val(body) > limit as int);
                }
            }
            return None;
        }
        acc = wide as u64;
        i = i + 1;
    }
    proof {
        assert(body.take(i - start) =~= body);
    }
    Some(acc)
}

/// Parses as `usize::from_str` does: optional `+`, then digits.
pub fn parse_usize(s: &Vec<char>) -> (r: Option<usize>)
    ensures
        match r {
            Some(v) => spec_parse_usize(s@) == Some(v as int),
            None => spec_parse_usize(s@) is None,
        },
{
    let start: usize = if s.len() > 0 && s[0] == '+' {
        1
    } else {
        0
    };
    proof {
        if s@.len() > 0 && s@[0] == '+' {
            assert(s@.skip(1) == s@.skip(start as int));
        } else {
            assert(s@.skip(0) =~= s@);
        }
    }
    match parse_digits(s, start, usize::MAX as u64) {
        Some(v) => Some(v as usize),
        None => None,
    }
}

/// Parses as `i64::from_str` does: optional sign, then digits.
pub fn parse_i64(s: &Vec<char>) -> (r: Option<i64>)
    ensures
        match r {
            Some(v) => spec_parse_i64(s@) == Some(v as int),
            None => spec_parse_i64(s@) is None,
        },
{
    let negative = s.len() > 0 && s[0] == '-';
    let start: usize = if s.len() > 0 && (s[0] == '-' || s[0] == '+') {
        1
    } else {
        0
    };
    proof {
        if s@.len() > 0 && (s@[0] == '-' || s@[0] == '+') {
            assert(s@.skip(1) == s@.skip(start as int));
        } else {
            assert(s@.skip(0) =~= s@);
        }
    }
    if negative {
        // The magnitude of i64::MIN still fits.
        match parse_digits(s, start, 9223372036854775808u64) {
            Some(v) => {
                if v == 9223372036854775808u64 {
                    Some(i64::MIN)
                } else {
                    Some(-((v as i64)))
                }
            },
            None => None,
        }
    } else {
        match parse_digits(s, start, i64::MAX as u64) {
            Some(v) => Some(v as i64),
            None => None,
        }
    }
}

/// The decimal rendering of a nonnegative integer, as `Display` writes it.
pub open spec fn spec_nat_digits(n: int) -> Seq<char>
    decreases n,
{
    if n < 0 {
        Seq::empty()
    } else if n < 10 {
        seq![((48 + n) as u8) as char]
    } else {
        spec_nat_digits(n / 10).push(((48 + n % 10) as u8) as char)
    }
}

/// The decimal rendering of an integer, sign included.
pub open spec fn spec_int_digits(n: int) -> Seq<char> {
    if n < 0 {
        seq!['-'] + spec_nat_digits(-n)
    } else {
        spec_nat_digits(n)
    }
}

/// Renders `v` in decimal, as `i64`'s `Display` does.
pub fn i64_to_digits(v: i64) -> (r: Vec<char>)
    ensures
        r@ == spec_int_digits(v as int),
{
    let mut out: Vec<char> = Vec::new();
    if v < 0 {
        out.push('-');
    }
    let mut n: u64 = if v < 0 {
        ((-(v as i128)) as u64)
    } else {
        v as u64
    };
    let ghost n0 = n as int;
    let mut rev: Vec<char> = Vec::new();
    loop
        invariant_except_break
            (rev@.len() == 0 && n as int == n0)
                || (n as int > 0 && spec_nat_digits(n0) =~= spec_nat_digits(n as int)
                    + rev@.reverse()),
        ensures
            spec_nat_digits(n0) =~= rev@.reverse(),
        decreases n,
    {
        let d: u8 = (n % 10) as u8;
        let c: char = (48 + d) as char;
        let ghost old_n = n as int;
        let ghost old_rev = rev@;
        rev.push(c);
        n = n / 10;
        proof {
            assert(rev@.reverse() =~= seq![c] + old_rev.reverse());
            if old_n >= 10 {
                assert(spec_nat_digits(old_n)
                    == spec_nat_digits(old_n / 10).push(((48 + old_n % 10) as u8) as char));
                assert(spec_nat_digits(old_n / 10).push(c) =~= spec_nat_digits(old_n / 10)
                    + seq![c]);
            } else {
                assert(spec_nat_digits(old_n) == seq![((48 + old_n) as u8) as char]);
            }
            if old_rev.len() > 0 {
                assert(spec_nat_digits(n0) =~= spec_nat_digits(old_n) + old_rev.reverse());
            }
        }
        if n == 0 {
            break;
        }
    }
    let mut i: usize = rev.len();
    proof {
        assert(rev@.skip(rev@.len() as int).reverse() =~= Seq::<char>::empty());
    }
    while i > 0
        invariant
            i <= rev@.len(),
            out@ =~= (if (v as int) < 0 {
                seq!['-']
            } else {
                Seq::<char>::empty()
            }) + rev@.skip(i as int).reverse(),
        decreases i,
    {
        i = i - 1;
        out.push(rev[i]);
        proof {
            assert(rev@.skip(i as int) =~= seq![rev@[i as int]] + rev@.skip(i as int + 1));
            assert(rev@.skip(i as int).reverse()
                =~= rev@.skip(i as int + 1).reverse().push(rev@[i as int]));
        }
    }
    proof {
        assert(rev@.skip(0) =~= rev@);
        if (v as int) < 0 {
            assert(n0 == -(v as int));
        }
    }
    out
}

} // verus!
