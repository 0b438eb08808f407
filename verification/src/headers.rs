//! The wire headers of the relay protocol, and the decimal-ASCII integer
//! format their values use.

use vstd::prelude::*;

verus! {

/// On a PUT, carries the worker count and asks for a channel reset.
pub const X_WORKER_NUM: &'static str = "x-worker-num";

/// On a data PUT, the sending worker's id.
pub const X_WORKER: &'static str = "x-worker";

/// The absolute packet index a PUT submits or a GET requests.
pub const X_INDEX: &'static str = "x-index";

/// On a GET, the index the consumer acknowledges before reading.
pub const X_ACK: &'static str = "x-ack";

/// On a GET, asks for the channel's teardown.
pub const X_RESET: &'static str = "x-reset";

pub open spec fn is_digit(c: u8) -> bool {
    48 <= c <= 57
}

/// The integer a string of decimal digits denotes.
pub open spec fn dec_value(s: Seq<u8>) -> int
    decreases s.len(),
{
    if s.len() == 0 {
        0
    } else {
        dec_value(s.drop_last()) * 10 + (s.last() - 48)
    }
}

/// A non-empty, all-digit string whose value fits the machine word.
pub open spec fn valid_decimal(s: Seq<u8>) -> bool {
    &&& s.len() > 0
    &&& forall|i: int| 0 <= i < s.len() ==> is_digit(#[trigger] s[i])
    &&& dec_value(s) <= usize::MAX
}

/// The value of an all-digit string is non-negative.
pub proof fn lemma_dec_value_nonneg(s: Seq<u8>)
    requires
        forall|i: int| 0 <= i < s.len() ==> is_digit(#[trigger] s[i]),
    ensures
        dec_value(s) >= 0,
    decreases s.len(),
{
    if s.len() > 0 {
        lemma_dec_value_nonneg(s.drop_last());
    }
}

/// Extending an all-digit string never lowers its value.
pub proof fn lemma_dec_value_prefix(s: Seq<u8>, k: int)
    requires
        forall|i: int| 0 <= i < s.len() ==> is_digit(#[trigger] s[i]),
        0 <= k <= s.len(),
    ensures
        dec_value(s) >= dec_value(s.subrange(0, k)),
    decreases s.len() - k,
{
    if k < s.len() {
        let t = s.subrange(0, k + 1);
        let p = s.subrange(0, k);
        assert(t.drop_last() =~= p);
        lemma_dec_value_nonneg(p);
        lemma_dec_value_prefix(s, k + 1);
    } else {
        assert(s.subrange(0, k) =~= s);
    }
}

/// Parse a decimal-ASCII integer, as the relay does with every numeric
/// header value.  Returns the denoted value exactly when the bytes are a
/// non-empty digit string whose value fits; anything else is rejected.
pub fn parse_decimal(s: &[u8]) -> (r: Option<usize>)
    ensures
        r is Some <==> valid_decimal(s@),
        r matches Some(v) ==> v == dec_value(s@),
{
    if s.len() == 0 {
        return None;
    }

    let mut acc: usize = 0;
    let mut i: usize = 0;
    while i < s.len()
        invariant
            0 < s@.len(),
            i <= s@.len(),
            forall|j: int| 0 <= j < i ==> is_digit(#[trigger] s@[j]),
            acc == dec_value(s@.subrange(0, i as int)),
        decreases s@.len() - i,
    {
        let c = s[i];
        if c < 48 || c > 57 {
            return None;
        }
        let d = (c - 48) as usize;
        proof {
            vstd::arithmetic::div_mod::lemma_fundamental_div_mod(usize::MAX - d, 10);
            vstd::arithmetic::div_mod::lemma_mod_bound(usize::MAX - d, 10);
        }
        if acc > (usize::MAX - d) / 10 {
            proof {
                let p = s@.subrange(0, i + 1);
                assert(p.drop_last() =~= s@.subrange(0, i as int));
                assert(dec_value(p) == acc * 10 + d);
                assert(dec_value(p) > usize::MAX);
                if valid_decimal(s@) {
                    lemma_dec_value_prefix(s@, i + 1);
                }
            }
            return None;
        }
        proof {
            let p = s@.subrange(0, i + 1);
            assert(p.drop_last() =~= s@.subrange(0, i as int));
            assert(acc * 10 + d <= usize::MAX);
        }
        acc = acc * 10 + d;
        i = i + 1;
    }
    proof {
        assert(s@.subrange(0, s@.len() as int) =~= s@);
    }
    Some(acc)
}

} // verus!
