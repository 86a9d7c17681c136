use vstd::prelude::*;

verus! {

/// Most characters one value may take before the codec gives up on it: twelve five-bit
/// chunks, sixty bits.
pub const MAX_VALUE_CHARS: usize = 12;

/// Most characters a value takes when it encodes valid coordinates: six five-bit chunks
/// hold any coordinate difference at precision 6 or below.
pub const ENCODED_VALUE_CHARS: usize = 6;

/// Bound on the summed magnitudes of all values in a decoded text, `i64::MAX`: below it
/// the running sums the codec keeps cannot leave `i64`.
pub const MAX_DECODE_WEIGHT: u64 = 0x7FFF_FFFF_FFFF_FFFF;

/// A character of the polyline alphabet: `?` (63) through `~` (126).
pub open spec fn in_alphabet(b: u8) -> bool {
    63 <= b && b <= 126
}

/// A chunk that carries the continuation bit: the value goes on with the next character.
pub open spec fn continues(b: u8) -> bool {
    b >= 95
}

/// Some value ends among the `width` characters that start at `i`.
pub open spec fn window_ends_value(s: Seq<u8>, i: int, width: int) -> bool {
    exists|j: int| i <= j < i + width && !continues(#[trigger] s[j])
}

/// Text cut into values: only alphabet characters, the last value finished, and no value
/// longer than `width` characters.
pub open spec fn values_framed(s: Seq<u8>, width: int) -> bool {
    &&& forall|i: int| 0 <= i < s.len() ==> in_alphabet(#[trigger] s[i])
    &&& s.len() > 0 ==> !continues(s.last())
    &&& forall|i: int| 0 <= i && i + width <= s.len() ==> #[trigger] window_ends_value(s, i, width)
}

/// Number of continuing chunks just before position `j`.
pub open spec fn run_before(s: Seq<u8>, j: int) -> nat
    decreases j,
{
    if j <= 0 || j > s.len() || !continues(s[j - 1]) {
        0
    } else {
        1 + run_before(s, j - 1)
    }
}

/// Largest magnitude of a value of `run + 1` characters: `2^(5 * (run + 1) - 1)`.
pub open spec fn value_weight(run: nat) -> nat
    decreases run,
{
    if run == 0 {
        16
    } else {
        32 * value_weight((run - 1) as nat)
    }
}

/// Summed largest magnitudes of the values that end before position `k`.
pub open spec fn weight_upto(s: Seq<u8>, k: int) -> nat
    decreases k,
{
    if k <= 0 || k > s.len() {
        0
    } else if continues(s[k - 1]) {
        weight_upto(s, k - 1)
    } else {
        weight_upto(s, k - 1) + value_weight(run_before(s, k - 1))
    }
}

/// Polyline text the codec decodes without error or overflow: framed values of at most
/// `MAX_VALUE_CHARS` characters whose magnitudes sum to at most `MAX_DECODE_WEIGHT`.
pub open spec fn well_framed(s: Seq<u8>) -> bool {
    values_framed(s, MAX_VALUE_CHARS as int) && weight_upto(s, s.len() as int) <= MAX_DECODE_WEIGHT
}

proof fn lemma_value_weight_grows(a: nat, b: nat)
    requires
        a <= b,
    ensures
        value_weight(a) <= value_weight(b),
    decreases b,
{
    if a < b {
        lemma_value_weight_grows(a, (b - 1) as nat);
    }
}

proof fn lemma_weight_grows(s: Seq<u8>, j: int, k: int)
    requires
        0 <= j <= k <= s.len(),
    ensures
        weight_upto(s, j) <= weight_upto(s, k),
    decreases k,
{
    if j < k {
        lemma_weight_grows(s, j, k - 1);
    }
}

/// Decides whether `text` is polyline text the codec decodes without error or overflow.
pub fn is_well_framed(text: &[u8]) -> (r: bool)
    ensures
        r == well_framed(text@),
{
    let n = text.len();
    // `run` counts the continuing chunks just before position `k`, `cur` is the weight of
    // the value they start, and `total` the weight of the values that end before `k`.
    let mut run: usize = 0;
    let mut cur: u64 = 16;
    let mut total: u64 = 0;
    let mut k: usize = 0;
    proof {
        reveal_with_fuel(value_weight, 12);
        assert(value_weight(11) == 0x0800_0000_0000_0000);
    }
    while k < n
        invariant
            n == text@.len(),
            k <= n,
            run <= k,
            run < MAX_VALUE_CHARS,
            run == run_before(text@, k as int),
            cur == value_weight(run as nat),
            value_weight(11) == 0x0800_0000_0000_0000,
            total == weight_upto(text@, k as int),
            total <= MAX_DECODE_WEIGHT,
            forall|i: int| 0 <= i < k ==> in_alphabet(#[trigger] text@[i]),
            forall|j: int| k - run <= j < k ==> continues(#[trigger] text@[j]),
            run < k ==> !continues(text@[k - run - 1]),
            forall|i: int|
                0 <= i && i + MAX_VALUE_CHARS <= k ==> #[trigger] window_ends_value(
                    text@,
                    i,
                    MAX_VALUE_CHARS as int,
                ),
        decreases n - k,
    {
        let b = text[k];
        if b < 63 || b > 126 {
            assert(!in_alphabet(text@[k as int]));
            return false;
        }
        proof {
            lemma_value_weight_grows(run as nat, 11);
        }
        if b >= 95 {
            if run + 1 == MAX_VALUE_CHARS {
                proof {
                    let i = k - run;
                    assert forall|j: int| i <= j < i + MAX_VALUE_CHARS implies continues(
                        text@[j],
                    ) by {
                        if j < k {
                        }
                    }
                    assert(!window_ends_value(text@, i as int, MAX_VALUE_CHARS as int));
                }
                return false;
            }
            proof {
                assert forall|i: int|
                    0 <= i && i + MAX_VALUE_CHARS <= k + 1 implies #[trigger] window_ends_value(
                    text@,
                    i,
                    MAX_VALUE_CHARS as int,
                ) by {
                    if i + MAX_VALUE_CHARS == k + 1 {
                        let j = k - run - 1;
                        assert(!continues(text@[j]));
                    }
                }
                assert(run_before(text@, k + 1) == run + 1);
                assert(weight_upto(text@, k + 1) == weight_upto(text@, k as int));
                lemma_value_weight_grows((run + 1) as nat, 11);
            }
            run = run + 1;
            cur = cur * 32;
        } else {
            if cur > MAX_DECODE_WEIGHT - total {
                proof {
                    assert(weight_upto(text@, k + 1) == total + cur);
                    lemma_weight_grows(text@, k + 1, n as int);
                }
                return false;
            }
            proof {
                assert forall|i: int|
                    0 <= i && i + MAX_VALUE_CHARS <= k + 1 implies #[trigger] window_ends_value(
                    text@,
                    i,
                    MAX_VALUE_CHARS as int,
                ) by {
                    if i + MAX_VALUE_CHARS == k + 1 {
                        assert(!continues(text@[k as int]));
                    }
                }
                assert(weight_upto(text@, k + 1) == total + cur);
                assert(run_before(text@, k + 1) == 0);
            }
            total = total + cur;
            run = 0;
            cur = 16;
        }
        k = k + 1;
    }
    n == 0 || text[n - 1] < 95
}

/// Text whose values take at most `ENCODED_VALUE_CHARS` characters, as the encoder writes
/// them, decodes without error or overflow as long as it is no longer than 2^33 bytes.
pub proof fn lemma_short_values_decode(s: Seq<u8>)
    requires
        values_framed(s, ENCODED_VALUE_CHARS as int),
        s.len() <= 0x2_0000_0000,
    ensures
        well_framed(s),
{
    assert forall|i: int|
        0 <= i && i + MAX_VALUE_CHARS <= s.len() implies #[trigger] window_ends_value(
        s,
        i,
        MAX_VALUE_CHARS as int,
    ) by {
        assert(window_ends_value(s, i, ENCODED_VALUE_CHARS as int));
    }
    lemma_short_values_weight(s, s.len() as int);
}

proof fn lemma_short_run(s: Seq<u8>, j: int)
    requires
        values_framed(s, ENCODED_VALUE_CHARS as int),
        0 <= j <= s.len(),
    ensures
        run_before(s, j) < ENCODED_VALUE_CHARS,
    decreases j,
{
    if run_before(s, j) >= ENCODED_VALUE_CHARS {
        lemma_run_continues(s, j);
        let i = j - ENCODED_VALUE_CHARS;
        assert(window_ends_value(s, i, ENCODED_VALUE_CHARS as int));
        let w = choose|w: int| i <= w < i + ENCODED_VALUE_CHARS && !continues(#[trigger] s[w]);
        assert(continues(s[w]));
    }
}

proof fn lemma_run_continues(s: Seq<u8>, j: int)
    requires
        0 <= j <= s.len(),
    ensures
        run_before(s, j) <= j,
        forall|w: int| j - run_before(s, j) <= w < j ==> continues(#[trigger] s[w]),
    decreases j,
{
    if j > 0 && continues(s[j - 1]) {
        lemma_run_continues(s, j - 1);
    }
}

proof fn lemma_short_values_weight(s: Seq<u8>, k: int)
    requires
        values_framed(s, ENCODED_VALUE_CHARS as int),
        0 <= k <= s.len(),
    ensures
        weight_upto(s, k) <= k * 0x2000_0000,
    decreases k,
{
    if k > 0 {
        lemma_short_values_weight(s, k - 1);
        lemma_short_run(s, k - 1);
        lemma_value_weight_grows(run_before(s, k - 1), 5);
        reveal_with_fuel(value_weight, 6);
        assert(value_weight(5) == 0x2000_0000);
    }
}

} // verus!
