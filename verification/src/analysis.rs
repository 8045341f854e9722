//! The deterministic cores of the numeric-prediction heuristics: the
//! digital root of a drawn number's text with its per-root frequencies
//! and latest-match lookup, and the most frequent successor of the
//! latest number. The response assembly and the floating-point
//! statistics around them are unverified collaborators of the library.

use vstd::prelude::*;
use vstd::string::*;
use vstd::arithmetic::div_mod::lemma_fundamental_div_mod;
use crate::text::str_eq;

verus! {

/// The numeric value of a decimal digit character; other characters
/// count as zero, mirroring how non-digits are skipped when summing.
pub open spec fn digit_val(c: char) -> int {
    if '0' <= c && c <= '9' {
        c as int - '0' as int
    } else {
        0
    }
}

/// The sum of the decimal-digit characters of `s`.
pub open spec fn char_digit_sum(s: Seq<char>) -> int
    decreases s.len(),
{
    if s.len() == 0 {
        0
    } else {
        char_digit_sum(s.drop_last()) + digit_val(s.last())
    }
}

/// The sum of the decimal digits of a non-negative number.
pub open spec fn dec_digit_sum(n: int) -> int
    decreases n,
{
    if n < 10 {
        n
    } else {
        n % 10 + dec_digit_sum(n / 10)
    }
}

proof fn lemma_dec_digit_sum_bounds(n: int)
    requires
        n >= 0,
    ensures
        0 <= dec_digit_sum(n) <= n,
        n >= 10 ==> dec_digit_sum(n) < n,
    decreases n,
{
    if n >= 10 {
        lemma_fundamental_div_mod(n, 10);
        lemma_dec_digit_sum_bounds(n / 10);
    }
}

/// Summing decimal digits, repeated until a single digit remains.
pub open spec fn spec_digital_root(n: int) -> int
    decreases n,
    via spec_digital_root_decreases
{
    if n <= 9 {
        n
    } else {
        spec_digital_root(dec_digit_sum(n))
    }
}

#[via_fn]
proof fn spec_digital_root_decreases(n: int) {
    if n > 9 {
        lemma_dec_digit_sum_bounds(n);
    }
}

/// The decimal-digit sum of `m`.
fn dec_digit_sum_exec(m0: u128) -> (r: u128)
    ensures
        r as int == dec_digit_sum(m0 as int),
{
    let mut m: u128 = m0;
    let mut acc: u128 = 0;
    proof {
        lemma_dec_digit_sum_bounds(m0 as int);
    }
    while m >= 10
        invariant
            0 <= acc,
            acc + dec_digit_sum(m as int) == dec_digit_sum(m0 as int),
            dec_digit_sum(m0 as int) <= m0,
            m >= 0,
        decreases m,
    {
        proof {
            lemma_fundamental_div_mod(m as int, 10);
            lemma_dec_digit_sum_bounds(m as int / 10);
        }
        acc = acc + m % 10;
        m = m / 10;
    }
    acc + m
}

/// The digital root of a number's text, as [`calculate_digital_root`]
/// computes it.
pub open spec fn droot_of(s: Seq<char>) -> int {
    spec_digital_root(char_digit_sum(s))
}

/// How many of `numbers` have digital root `r`.
pub open spec fn spec_count_root(numbers: Seq<Seq<char>>, r: int) -> int
    decreases numbers.len(),
{
    if numbers.len() == 0 {
        0
    } else {
        spec_count_root(numbers.drop_last(), r) + if droot_of(numbers.last()) == r {
            1int
        } else {
            0int
        }
    }
}

/// The most recent of `numbers` whose digital root is `r`, if any.
pub open spec fn spec_latest_with_root(numbers: Seq<Seq<char>>, r: int) -> Option<Seq<char>>
    decreases numbers.len(),
{
    if numbers.len() == 0 {
        None
    } else if droot_of(numbers.last()) == r {
        Some(numbers.last())
    } else {
        spec_latest_with_root(numbers.drop_last(), r)
    }
}

/// The digital root of the digits of `number_str`: all decimal-digit
/// characters are summed (other characters are skipped), then the sum's
/// own decimal digits are summed, repeatedly, until one digit remains.
pub fn calculate_digital_root(number_str: &str) -> (r: u32)
    ensures
        r as int == spec_digital_root(char_digit_sum(number_str@)),
        0 <= r <= 9,
{
    let len = number_str.unicode_len();
    let mut sum: u128 = 0;
    let mut i: usize = 0;
    while i < len
        invariant
            len == number_str@.len(),
            0 <= i <= len,
            sum as int == char_digit_sum(number_str@.take(i as int)),
            sum <= 9 * (i as u128),
        decreases len - i,
    {
        let c = number_str.get_char(i);
        proof {
            assert(number_str@.take(i + 1).drop_last() =~= number_str@.take(i as int));
            assert(number_str@.take(i + 1).last() == number_str@[i as int]);
        }
        let v = c as u32;
        if v >= 48 && v <= 57 {
            sum = sum + (v - 48) as u128;
        }
        i = i + 1;
    }
    proof {
        assert(number_str@.take(len as int) =~= number_str@);
    }
    while sum > 9
        invariant
            sum >= 0,
            spec_digital_root(sum as int) == spec_digital_root(char_digit_sum(number_str@)),
        decreases sum,
    {
        proof {
            lemma_dec_digit_sum_bounds(sum as int);
        }
        sum = dec_digit_sum_exec(sum);
    }
    sum as u32
}

/// How often each digital root 0 – 9 occurs among `numbers`:
/// `counts[r]` is the number of entries whose digital root is `r`.
pub fn root_counts(numbers: &Vec<String>) -> (counts: Vec<usize>)
    ensures
        counts@.len() == 10,
        forall|r: int|
            0 <= r < 10 ==> counts@[r] as int == spec_count_root(
                numbers@.map_values(|s: String| s@),
                r,
            ),
{
    let ghost nums = numbers@.map_values(|s: String| s@);
    let mut counts: Vec<usize> = Vec::new();
    let mut k: usize = 0;
    while k < 10
        invariant
            counts@.len() == k,
            0 <= k <= 10,
            forall|r: int| 0 <= r < k ==> counts@[r] == 0,
        decreases 10 - k,
    {
        counts.push(0);
        k = k + 1;
    }
    let n = numbers.len();
    for i in 0..n
        invariant
            n == numbers.len(),
            nums == numbers@.map_values(|s: String| s@),
            counts@.len() == 10,
            forall|r: int|
                0 <= r < 10 ==> counts@[r] as int == spec_count_root(nums.take(i as int), r),
            forall|r: int| 0 <= r < 10 ==> counts@[r] <= i,
    {
        proof {
            assert(nums.take(i + 1).drop_last() =~= nums.take(i as int));
            assert(nums.take(i + 1).last() == nums[i as int]);
        }
        let root = calculate_digital_root(numbers[i].as_str()) as usize;
        let c = counts[root];
        counts.set(root, c + 1);
    }
    proof {
        assert(nums.take(n as int) =~= nums);
    }
    counts
}

/// The smallest digital root whose count is highest: every root's
/// count is at most `counts[r]`, and every smaller root's count is
/// strictly below it.
pub fn most_common_root(counts: &Vec<usize>) -> (r: usize)
    requires
        counts@.len() == 10,
    ensures
        0 <= r < 10,
        forall|j: int| 0 <= j < 10 ==> counts@[j] <= counts@[r as int],
        forall|j: int| 0 <= j < r ==> counts@[j] < counts@[r as int],
{
    let mut best: usize = 0;
    let mut k: usize = 1;
    while k < 10
        invariant
            counts@.len() == 10,
            0 <= best < k <= 10,
            forall|j: int| 0 <= j < k ==> counts@[j] <= counts@[best as int],
            forall|j: int| 0 <= j < best ==> counts@[j] < counts@[best as int],
        decreases 10 - k,
    {
        if counts[k] > counts[best] {
            best = k;
        }
        k = k + 1;
    }
    best
}

/// The most recent entry of `numbers` whose digital root is `root`,
/// searching from the end, if any entry has it.
pub fn latest_with_root(numbers: &Vec<String>, root: u32) -> (r: Option<String>)
    ensures
        (match r {
            Some(s) => Some(s@),
            None => None,
        }) == spec_latest_with_root(numbers@.map_values(|s: String| s@), root as int),
{
    let ghost nums = numbers@.map_values(|s: String| s@);
    proof {
        assert(nums.take(numbers@.len() as int) =~= nums);
    }
    let mut i: usize = numbers.len();
    while i > 0
        invariant
            nums == numbers@.map_values(|s: String| s@),
            0 <= i <= numbers.len(),
            spec_latest_with_root(nums, root as int) == spec_latest_with_root(
                nums.take(i as int),
                root as int,
            ),
        decreases i,
    {
        proof {
            assert(nums.take(i as int).drop_last() =~= nums.take(i - 1));
            assert(nums.take(i as int).last() == nums[i - 1]);
        }
        let candidate = &numbers[i - 1];
        if calculate_digital_root(candidate.as_str()) == root {
            return Some(candidate.clone());
        }
        i = i - 1;
    }
    proof {
        assert(nums.take(0) =~= Seq::<Seq<char>>::empty());
    }
    None
}

/// How often `x` immediately follows `prev` in `nums`.
pub open spec fn spec_follow_count(nums: Seq<Seq<char>>, prev: Seq<char>, x: Seq<char>) -> int
    decreases nums.len(),
{
    if nums.len() < 2 {
        0
    } else {
        spec_follow_count(nums.drop_last(), prev, x) + if nums[nums.len() - 2] == prev
            && nums.last() == x {
            1int
        } else {
            0int
        }
    }
}

proof fn lemma_follower_occurs(nums: Seq<Seq<char>>, prev: Seq<char>, x: Seq<char>)
    requires
        spec_follow_count(nums, prev, x) > 0,
    ensures
        exists|j: int| 1 <= j < nums.len() && nums[j - 1] == prev && #[trigger] nums[j] == x,
    decreases nums.len(),
{
    if nums.len() >= 2 {
        if nums[nums.len() - 2] == prev && nums.last() == x {
            assert(nums[nums.len() - 1] == x);
        } else {
            lemma_follower_occurs(nums.drop_last(), prev, x);
            let j = choose|j: int|
                1 <= j < nums.drop_last().len() && nums.drop_last()[j - 1] == prev
                    && #[trigger] nums.drop_last()[j] == x;
            assert(nums[j - 1] == prev && nums[j] == x);
        }
    }
}

/// Counts how often `x` immediately follows `prev` in `numbers`.
pub fn follow_count(numbers: &Vec<String>, prev: &str, x: &str) -> (c: usize)
    ensures
        c as int == spec_follow_count(numbers@.map_values(|s: String| s@), prev@, x@),
{
    let ghost nums = numbers@.map_values(|s: String| s@);
    let mut c: usize = 0;
    let n = numbers.len();
    let mut i: usize = 1;
    if n < 2 {
        return 0;
    }
    while i < n
        invariant
            n == numbers.len(),
            n >= 2,
            nums == numbers@.map_values(|s: String| s@),
            1 <= i <= n,
            c <= i,
            c as int == spec_follow_count(nums.take(i as int), prev@, x@),
        decreases n - i,
    {
        proof {
            assert(nums.take(i + 1).drop_last() =~= nums.take(i as int));
            assert(nums.take(i + 1)[i - 1] == nums[i - 1]);
            assert(nums.take(i + 1).last() == nums[i as int]);
        }
        if str_eq(numbers[i - 1].as_str(), prev) && str_eq(numbers[i].as_str(), x) {
            c = c + 1;
        }
        i = i + 1;
    }
    proof {
        assert(nums.take(n as int) =~= nums);
    }
    c
}

/// The value that most often follows the last entry of `numbers`
/// elsewhere in the sequence: `None` when nothing follows it at all,
/// otherwise some follower whose follow count no value exceeds. Which
/// of several equally frequent followers is returned is left open.
pub fn top_follower(numbers: &Vec<String>) -> (r: Option<String>)
    ensures
        ({
            let nums = numbers@.map_values(|s: String| s@);
            let lastv = nums.last();
            match r {
                None => nums.len() < 2 || forall|j: int|
                    1 <= j < nums.len() ==> #[trigger] nums[j - 1] != lastv,
                Some(s) => {
                    &&& nums.len() >= 2
                    &&& exists|j: int| 1 <= j < nums.len() && nums[j - 1] == lastv && #[trigger] nums[j] == s@
                    &&& forall|y: Seq<char>|
                        #[trigger] spec_follow_count(nums, lastv, y) <= spec_follow_count(
                            nums,
                            lastv,
                            s@,
                        )
                },
            }
        }),
{
    let ghost nums = numbers@.map_values(|s: String| s@);
    let n = numbers.len();
    if n < 2 {
        return None;
    }
    let last = numbers[n - 1].clone();
    let ghost lastv = nums.last();
    let mut best: Option<String> = None;
    let mut best_count: usize = 0;
    let mut i: usize = 1;
    while i < n
        invariant
            n == numbers.len(),
            n >= 2,
            nums == numbers@.map_values(|s: String| s@),
            last@ == lastv,
            1 <= i <= n,
            (match best {
                None => best_count == 0 && forall|j: int|
                    1 <= j < i ==> #[trigger] nums[j - 1] != lastv,
                Some(s) => {
                    &&& best_count as int == spec_follow_count(nums, lastv, s@)
                    &&& best_count >= 1
                    &&& exists|j: int| 1 <= j < n && nums[j - 1] == lastv && #[trigger] nums[j] == s@
                    &&& forall|j: int|
                        1 <= j < i && nums[j - 1] == lastv ==> spec_follow_count(
                            nums,
                            lastv,
                            #[trigger] nums[j],
                        ) <= best_count
                },
            }),
        decreases n - i,
    {
        if str_eq(numbers[i - 1].as_str(), last.as_str()) {
            let c = follow_count(numbers, last.as_str(), numbers[i].as_str());
            proof {
                assert(nums[i as int] == numbers@[i as int]@);
                if c > best_count {
                    assert(spec_follow_count(nums, lastv, nums[i as int]) > 0);
                }
            }
            if c > best_count {
                best = Some(numbers[i].clone());
                best_count = c;
            } else {
                proof {
                    if best is None {
                        assert(c == 0);
                        assert(nums[i - 1] == lastv);
                        assert(spec_follow_count(nums, lastv, nums[i as int]) >= 1) by {
                            lemma_follow_count_at_least_once(nums, lastv, i as int);
                        }
                        assert(false);
                    }
                }
            }
        }
        i = i + 1;
    }
    proof {
        match &best {
            None => {
            },
            Some(s) => {
                assert forall|y: Seq<char>|
                    #[trigger] spec_follow_count(nums, lastv, y) <= spec_follow_count(
                        nums,
                        lastv,
                        s@,
                    ) by {
                    if spec_follow_count(nums, lastv, y) > 0 {
                        lemma_follower_occurs(nums, lastv, y);
                        let j = choose|j: int|
                            1 <= j < nums.len() && nums[j - 1] == lastv && #[trigger] nums[j]
                                == y;
                        assert(spec_follow_count(nums, lastv, nums[j]) <= best_count);
                    }
                }
            },
        }
    }
    best
}

proof fn lemma_follow_count_nonneg(nums: Seq<Seq<char>>, prev: Seq<char>, x: Seq<char>)
    ensures
        spec_follow_count(nums, prev, x) >= 0,
    decreases nums.len(),
{
    if nums.len() >= 2 {
        lemma_follow_count_nonneg(nums.drop_last(), prev, x);
    }
}

proof fn lemma_follow_count_at_least_once(nums: Seq<Seq<char>>, prev: Seq<char>, j: int)
    requires
        1 <= j < nums.len(),
        nums[j - 1] == prev,
    ensures
        spec_follow_count(nums, prev, nums[j]) >= 1,
    decreases nums.len(),
{
    if j == nums.len() - 1 {
        assert(nums[nums.len() - 2] == prev && nums.last() == nums[j]);
        lemma_follow_count_nonneg(nums.drop_last(), prev, nums[j]);
    } else {
        lemma_follow_count_at_least_once(nums.drop_last(), prev, j);
        assert(nums.drop_last()[j] == nums[j]);
        assert(nums.drop_last()[j - 1] == nums[j - 1]);
    }
}

} // verus!
