use vstd::prelude::*;
use std::time::{SystemTime, UNIX_EPOCH};

verus! {

/// One step of the linear congruential generator (Knuth's MMIX constants).
pub open spec fn lcg_next(s: u64) -> u64 {
    s.wrapping_mul(6364136223846793005u64).wrapping_add(1442695040888963407u64)
}

/// The byte drawn from one generator state: bits 32..40.
pub open spec fn lcg_byte(s: u64) -> u64 {
    (s >> 32u64) & 0xFFu64
}

/// The octet derived from one generator state: the drawn byte, with 0
/// replaced by 1 so that no octet of the synthetic address is 0.
pub open spec fn octet_of(s: u64) -> u64 {
    if lcg_byte(s) == 0 {
        1
    } else {
        lcg_byte(s)
    }
}

/// The character for one decimal digit.
pub open spec fn digit_char(d: int) -> char {
    if d == 0 {
        '0'
    } else if d == 1 {
        '1'
    } else if d == 2 {
        '2'
    } else if d == 3 {
        '3'
    } else if d == 4 {
        '4'
    } else if d == 5 {
        '5'
    } else if d == 6 {
        '6'
    } else if d == 7 {
        '7'
    } else if d == 8 {
        '8'
    } else {
        '9'
    }
}

/// The decimal rendering of an octet value, without leading zeros.
pub open spec fn decimal_chars(n: int) -> Seq<char> {
    if n < 10 {
        seq![digit_char(n)]
    } else if n < 100 {
        seq![digit_char(n / 10), digit_char(n % 10)]
    } else {
        seq![digit_char(n / 100), digit_char((n / 10) % 10), digit_char(n % 10)]
    }
}

/// A dotted-quad address built from four octet values.
pub open spec fn ip_chars(a: int, b: int, c: int, d: int) -> Seq<char> {
    decimal_chars(a) + "."@ + decimal_chars(b) + "."@ + decimal_chars(c) + "."@ + decimal_chars(d)
}

/// The synthetic forwarded-for address derived from one seed: four octets
/// drawn from successive generator states.
pub open spec fn spec_synthetic_ip(seed: u64) -> Seq<char> {
    let s1 = lcg_next(seed);
    let s2 = lcg_next(s1);
    let s3 = lcg_next(s2);
    let s4 = lcg_next(s3);
    ip_chars(octet_of(s1) as int, octet_of(s2) as int, octet_of(s3) as int, octet_of(s4) as int)
}

fn digit_str(d: u8) -> (r: &'static str)
    requires
        d < 10,
    ensures
        r@ =~= seq![digit_char(d as int)],
{
    proof {
        reveal_strlit("0");
        reveal_strlit("1");
        reveal_strlit("2");
        reveal_strlit("3");
        reveal_strlit("4");
        reveal_strlit("5");
        reveal_strlit("6");
        reveal_strlit("7");
        reveal_strlit("8");
        reveal_strlit("9");
    }
    match d {
        0 => "0",
        1 => "1",
        2 => "2",
        3 => "3",
        4 => "4",
        5 => "5",
        6 => "6",
        7 => "7",
        8 => "8",
        _ => "9",
    }
}

/// Renders one octet value in decimal.
fn octet_string(n: u8) -> (r: String)
    ensures
        r@ == decimal_chars(n as int),
{
    if n < 10 {
        let r = String::from_str(digit_str(n));
        proof {
            assert(r@ =~= decimal_chars(n as int));
        }
        r
    } else if n < 100 {
        let mut r = String::from_str(digit_str(n / 10));
        r.append(digit_str(n % 10));
        proof {
            assert(r@ =~= decimal_chars(n as int));
        }
        r
    } else {
        let mut r = String::from_str(digit_str(n / 100));
        r.append(digit_str((n / 10) % 10));
        r.append(digit_str(n % 10));
        proof {
            assert(r@ =~= decimal_chars(n as int));
        }
        r
    }
}

/// Draws the octet for one generator state.
fn extract_octet(s: u64) -> (r: u8)
    ensures
        r as u64 == octet_of(s),
{
    proof {
        assert((s >> 32u64) & 0xFFu64 < 256) by (bit_vector);
    }
    let b = ((s >> 32u64) & 0xFFu64) as u8;
    if b == 0 {
        1
    } else {
        b
    }
}

/// Builds the synthetic address for one seed: a dotted quad whose octets come
/// from four successive generator states, with 0 mapped to 1 in each octet.
pub fn synthetic_ip(seed: u64) -> (r: String)
    ensures
        r@ == spec_synthetic_ip(seed),
{
    let s1 = seed.wrapping_mul(6364136223846793005u64).wrapping_add(1442695040888963407u64);
    let s2 = s1.wrapping_mul(6364136223846793005u64).wrapping_add(1442695040888963407u64);
    let s3 = s2.wrapping_mul(6364136223846793005u64).wrapping_add(1442695040888963407u64);
    let s4 = s3.wrapping_mul(6364136223846793005u64).wrapping_add(1442695040888963407u64);
    let o1 = extract_octet(s1);
    let o2 = extract_octet(s2);
    let o3 = extract_octet(s3);
    let o4 = extract_octet(s4);
    let mut r = octet_string(o1);
    r.append(".");
    r.append(octet_string(o2).as_str());
    r.append(".");
    r.append(octet_string(o3).as_str());
    r.append(".");
    r.append(octet_string(o4).as_str());
    proof {
        assert(r@ =~= spec_synthetic_ip(seed));
    }
    r
}

/// Relies on std::time::SystemTime for the milliseconds since the Unix
/// epoch; nothing is assumed of the value itself.
#[verifier::external_body]
pub(crate) fn clock_seed() -> u64 {
    match SystemTime::now().duration_since(UNIX_EPOCH) {
        Ok(d) => d.as_millis() as u64,
        Err(_) => 0,
    }
}

/// Generates a fresh synthetic forwarded-for address, seeded from the clock.
/// Whatever the clock returned, the result is the generator's rendering of
/// some seed, so it always has the dotted-quad shape.
pub fn generate_random_ip() -> (r: String)
    ensures
        exists|seed: u64| r@ == spec_synthetic_ip(seed),
{
    let seed = clock_seed();
    let r = synthetic_ip(seed);
    proof {
        assert(r@ == spec_synthetic_ip(seed));
    }
    r
}

/// A decimal digit.
pub open spec fn is_digit(c: char) -> bool {
    ||| c == '0'
    ||| c == '1'
    ||| c == '2'
    ||| c == '3'
    ||| c == '4'
    ||| c == '5'
    ||| c == '6'
    ||| c == '7'
    ||| c == '8'
    ||| c == '9'
}

/// The decimal rendering of an octet value is one to three digit characters,
/// and in particular contains no dot.
pub proof fn lemma_decimal_chars_digits(n: int)
    requires
        0 <= n <= 255,
    ensures
        1 <= decimal_chars(n).len() <= 3,
        forall|i: int| 0 <= i < decimal_chars(n).len() ==> is_digit(#[trigger] decimal_chars(n)[i]),
        forall|i: int| 0 <= i < decimal_chars(n).len() ==> #[trigger] decimal_chars(n)[i] != '.',
{
}

/// Every synthetic address is a dotted quad: four decimal octet renderings,
/// each of a value between 1 and 255, joined by single dots.
pub proof fn lemma_synthetic_ip_is_dotted_quad(seed: u64)
    ensures
        exists|a: int, b: int, c: int, d: int|
            1 <= a <= 255 && 1 <= b <= 255 && 1 <= c <= 255 && 1 <= d <= 255
                && spec_synthetic_ip(seed) == ip_chars(a, b, c, d),
{
    let s1 = lcg_next(seed);
    let s2 = lcg_next(s1);
    let s3 = lcg_next(s2);
    let s4 = lcg_next(s3);
    assert forall|s: u64| 1 <= #[trigger] octet_of(s) <= 255 by {
        assert((s >> 32u64) & 0xFFu64 < 256) by (bit_vector);
    }
    let a = octet_of(s1) as int;
    let b = octet_of(s2) as int;
    let c = octet_of(s3) as int;
    let d = octet_of(s4) as int;
    assert(1 <= a <= 255 && 1 <= b <= 255 && 1 <= c <= 255 && 1 <= d <= 255
        && spec_synthetic_ip(seed) == ip_chars(a, b, c, d));
}

} // verus!
