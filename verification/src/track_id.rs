use vstd::prelude::*;
use vstd::string::StrSliceExecFns;

verus! {

/// Why a track identifier could not be resolved to a playable reference.
/// Resolution failures are recoverable: the orchestrator skips the track
/// and advances instead of aborting.
#[derive(Clone, Copy, Debug, PartialEq, Eq, Structural)]
pub enum ResolveError {
    /// The identifier holds a character outside the base-62 alphabet.
    BadChar,
    /// The identifier is well-formed but its value does not fit the
    /// 128-bit playable reference.
    TooLarge,
}

/// The value of one base-62 digit: `0`-`9`, then `a`-`z`, then `A`-`Z`.
pub open spec fn b62_digit(c: char) -> Option<int> {
    let v = c as int;
    if '0' as int <= v && v <= '9' as int {
        Some(v - '0' as int)
    } else if 'a' as int <= v && v <= 'z' as int {
        Some(10 + v - 'a' as int)
    } else if 'A' as int <= v && v <= 'Z' as int {
        Some(36 + v - 'A' as int)
    } else {
        None
    }
}

/// The value of a base-62 numeral, most significant character first, or
/// `None` when some character is not a base-62 digit. The empty numeral has
/// value zero.
pub open spec fn b62_value(s: Seq<char>) -> Option<int>
    decreases s.len(),
{
    if s.len() == 0 {
        Some(0)
    } else {
        match (b62_value(s.drop_last()), b62_digit(s.last())) {
            (Some(v), Some(d)) => Some(v * 62 + d),
            _ => None,
        }
    }
}

/// One character outside the alphabet spoils the whole numeral.
proof fn lemma_b62_invalid_char(s: Seq<char>, j: int)
    requires
        0 <= j < s.len(),
        b62_digit(s[j]) is None,
    ensures
        b62_value(s) is None,
    decreases s.len(),
{
    if j == s.len() - 1 {
        assert(s.last() == s[j]);
    } else {
        assert(s.drop_last()[j] == s[j]);
        lemma_b62_invalid_char(s.drop_last(), j);
    }
}

/// A numeral of digits from the alphabet always has a non-negative value.
proof fn lemma_b62_all_valid(s: Seq<char>)
    requires
        forall|j: int| 0 <= j < s.len() ==> b62_digit(s[j]) is Some,
    ensures
        b62_value(s) is Some,
        b62_value(s) matches Some(v) && v >= 0,
    decreases s.len(),
{
    if s.len() > 0 {
        assert(forall|j: int|
            0 <= j < s.drop_last().len() ==> b62_digit(#[trigger] s.drop_last()[j])
                is Some) by {
            assert(forall|j: int|
                0 <= j < s.len() - 1 ==> #[trigger] s.drop_last()[j] == s[j]);
        }
        lemma_b62_all_valid(s.drop_last());
        assert(b62_digit(s.last()) is Some);
        assert(b62_digit(s.last()) matches Some(d) && d >= 0);
    }
}

/// Dropping trailing digits never increases the value of a valid numeral.
proof fn lemma_b62_prefix_le(s: Seq<char>, k: int)
    requires
        0 <= k <= s.len(),
        forall|j: int| 0 <= j < s.len() ==> b62_digit(s[j]) is Some,
    ensures
        b62_value(s.take(k)) matches Some(vk) && (b62_value(s) matches Some(v) && vk <= v),
    decreases s.len() - k,
{
    lemma_b62_all_valid(s);
    if k == s.len() {
        assert(s.take(k) =~= s);
    } else {
        let shorter = s.drop_last();
        assert(forall|j: int|
            0 <= j < shorter.len() ==> b62_digit(#[trigger] shorter[j]) is Some) by {
            assert(forall|j: int| 0 <= j < s.len() - 1 ==> #[trigger] shorter[j] == s[j]);
        }
        lemma_b62_all_valid(shorter);
        assert(s.take(k) =~= shorter.take(k));
        lemma_b62_prefix_le(shorter, k);
        let d = b62_digit(s.last())->0;
        let v = b62_value(shorter)->0;
        assert(d >= 0);
        assert(v >= 0);
        assert(b62_value(s) == Some(v * 62 + d));
        assert(v * 62 + d >= v) by (nonlinear_arith)
            requires
                v >= 0,
                d >= 0,
        ;
    }
}

/// The value of one base-62 digit, or `None` for a character outside the
/// alphabet.
fn b62_digit_exec(c: char) -> (r: Option<u8>)
    ensures
        match r {
            Some(d) => b62_digit(c) == Some(d as int) && d < 62,
            None => b62_digit(c) is None,
        },
{
    let v: u32 = c as u32;
    if 48 <= v && v <= 57 {
        Some((v - 48) as u8)
    } else if 97 <= v && v <= 122 {
        Some((v - 97 + 10) as u8)
    } else if 65 <= v && v <= 90 {
        Some((v - 65 + 36) as u8)
    } else {
        None
    }
}

/// Resolves an opaque track identifier — a base-62 numeral — to the 128-bit
/// reference the external player loads. Malformed or oversized identifiers
/// are reported, never panicked on.
pub fn resolve_track_id(id: &str) -> (r: Result<u128, ResolveError>)
    ensures
        match r {
            Ok(v) => b62_value(id@) == Some(v as int),
            Err(ResolveError::BadChar) => b62_value(id@) is None,
            Err(ResolveError::TooLarge) => b62_value(id@) matches Some(v) && v > u128::MAX
                as int,
        },
{
    let n: usize = id.unicode_len();
    let mut i: usize = 0;
    while i < n
        invariant
            n == id@.len(),
            i <= n,
            forall|j: int| 0 <= j < i ==> b62_digit(id@[j]) is Some,
        decreases n - i,
    {
        let c = id.get_char(i);
        if b62_digit_exec(c).is_none() {
            proof {
                lemma_b62_invalid_char(id@, i as int);
            }
            return Err(ResolveError::BadChar);
        }
        i += 1;
    }
    proof {
        lemma_b62_all_valid(id@);
    }
    let mut v: u128 = 0;
    let mut i: usize = 0;
    while i < n
        invariant
            n == id@.len(),
            i <= n,
            forall|j: int| 0 <= j < n ==> b62_digit(id@[j]) is Some,
            b62_value(id@.take(i as int)) == Some(v as int),
        decreases n - i,
    {
        let c = id.get_char(i);
        let d = match b62_digit_exec(c) {
            Some(d) => d,
            None => {
                proof {
                    assert(false);
                }
                0
            },
        };
        proof {
            let prefix = id@.take(i as int);
            let longer = id@.take(i + 1);
            assert(longer.drop_last() =~= prefix);
            assert(longer.last() == id@[i as int]);
            assert(b62_value(longer) == Some(v as int * 62 + d as int));
        }
        if v > (u128::MAX - d as u128) / 62 {
            proof {
                let m = u128::MAX as int;
                assert(v as int * 62 + d as int > m) by (nonlinear_arith)
                    requires
                        v as int > (m - d as int) / 62,
                        0 <= d < 62,
                        0 <= v as int,
                        m == u128::MAX as int,
                ;
                lemma_b62_prefix_le(id@, i + 1);
            }
            return Err(ResolveError::TooLarge);
        }
        proof {
            let m = u128::MAX as int;
            assert(v as int * 62 + d as int <= m) by (nonlinear_arith)
                requires
                    v as int <= (m - d as int) / 62,
                    0 <= d < 62,
                    0 <= v as int,
                    m == u128::MAX as int,
            ;
        }
        v = v * 62 + d as u128;
        i += 1;
    }
    proof {
        assert(id@.take(n as int) =~= id@);
    }
    Ok(v)
}

} // verus!
