//! Width resolver: one shared column width for a whole report.
//!
//! Before any counting, the driver measures every named source (best-effort)
//! and asks here for the column width: any source that denotes standard input
//! forces a conservative width of 7; otherwise the width is the number of
//! decimal digits of the measurable sources' total size, with 1 for an empty
//! or unmeasurable total.

use vstd::prelude::*;
use vstd::string::StrSliceExecFns;

verus! {

/// Number of decimal digits of `n`: 1 for 0..9, 2 for 10..99, and so on.
pub open spec fn dec_width(n: nat) -> nat
    decreases n,
{
    if n < 10 {
        1
    } else {
        1 + dec_width(n / 10)
    }
}

spec fn pow10(k: nat) -> nat
    decreases k,
{
    if k == 0 {
        1
    } else {
        10 * pow10((k - 1) as nat)
    }
}

proof fn lemma_dec_width_le(n: nat, k: nat)
    requires
        k >= 1,
        n < pow10(k),
    ensures
        dec_width(n) <= k,
    decreases k,
{
    if n >= 10 {
        assert(pow10(k) == 10 * pow10((k - 1) as nat));
        assert(n / 10 < pow10((k - 1) as nat)) by (nonlinear_arith)
            requires
                n < 10 * pow10((k - 1) as nat),
        ;
        lemma_dec_width_le(n / 10, (k - 1) as nat);
    }
}

/// A 64-bit total has at most 20 decimal digits.
proof fn lemma_dec_width_u64(n: nat)
    requires
        n <= u64::MAX,
    ensures
        dec_width(n) <= 20,
{
    reveal_with_fuel(pow10, 21);
    assert(pow10(20) > u64::MAX);
    lemma_dec_width_le(n, 20);
}

/// A source name that denotes standard input: the empty name or `-`.
pub open spec fn is_stdin_name_spec(name: Seq<char>) -> bool {
    name == Seq::<char>::empty() || name == seq!['-']
}

/// Decide whether a source name denotes standard input.
pub fn is_stdin_name(name: &str) -> (r: bool)
    ensures
        r == is_stdin_name_spec(name@),
{
    let n = name.unicode_len();
    if n == 0 {
        proof {
            assert(name@ =~= Seq::<char>::empty());
        }
        true
    } else if n == 1 && name.get_char(0) == '-' {
        proof {
            assert(name@ =~= seq!['-']);
        }
        true
    } else {
        proof {
            assert(name@ != Seq::<char>::empty());
            assert(name@ == seq!['-'] ==> name@.len() == 1 && name@[0] == '-');
        }
        false
    }
}

/// Total size of the measurable sources; an unmeasurable one contributes 0.
pub open spec fn sum_sizes(sizes: Seq<Option<u64>>) -> nat
    decreases sizes.len(),
{
    if sizes.len() == 0 {
        0
    } else {
        sum_sizes(sizes.drop_last()) + (match sizes.last() {
            Some(s) => s as nat,
            None => 0nat,
        })
    }
}

proof fn lemma_sum_sizes_prefix(sizes: Seq<Option<u64>>, j: int)
    requires
        0 <= j <= sizes.len(),
    ensures
        sum_sizes(sizes.take(j)) <= sum_sizes(sizes),
    decreases sizes.len() - j,
{
    if j < sizes.len() {
        assert(sizes.take(j + 1).drop_last() =~= sizes.take(j));
        assert(sizes.take(j + 1).last() == sizes[j]);
        lemma_sum_sizes_prefix(sizes, j + 1);
        assert(sizes.take(sizes.len() as int) =~= sizes);
    } else {
        assert(sizes.take(j) =~= sizes);
    }
}

/// The column width the report uses, given the source names and their
/// best-effort sizes: 7 when any source is standard input, else the decimal
/// width of the total size (1 when the total is 0).
pub open spec fn width_model(names: Seq<String>, sizes: Seq<Option<u64>>) -> nat {
    if exists|i: int| 0 <= i < names.len() && is_stdin_name_spec(names[i]@) {
        7
    } else {
        dec_width(sum_sizes(sizes))
    }
}

/// Number of decimal digits of `n`, as executable code.
pub fn decimal_width(n: u64) -> (w: usize)
    ensures
        w == dec_width(n as nat),
        1 <= w <= 20,
{
    proof {
        lemma_dec_width_u64(n as nat);
    }
    let mut t = n;
    let mut w: usize = 1;
    while t >= 10
        invariant
            w >= 1,
            w - 1 + dec_width(t as nat) == dec_width(n as nat),
            dec_width(n as nat) <= 20,
        decreases t,
    {
        t = t / 10;
        w = w + 1;
    }
    w
}

/// Resolve the report's column width from the source names and their
/// best-effort sizes (`None` marks a source that could not be measured).
pub fn resolve_width(names: &Vec<String>, sizes: &Vec<Option<u64>>) -> (w: usize)
    requires
        sum_sizes(sizes@) <= u64::MAX,
    ensures
        w == width_model(names@, sizes@),
{
    let mut i: usize = 0;
    while i < names.len()
        invariant
            i <= names@.len(),
            forall|j: int| 0 <= j < i ==> !is_stdin_name_spec(names@[j]@),
        decreases names@.len() - i,
    {
        if is_stdin_name(names[i].as_str()) {
            return 7;
        }
        i = i + 1;
    }
    let mut total: u64 = 0;
    let mut k: usize = 0;
    while k < sizes.len()
        invariant
            k <= sizes@.len(),
            total == sum_sizes(sizes@.take(k as int)),
            sum_sizes(sizes@) <= u64::MAX,
        decreases sizes@.len() - k,
    {
        proof {
            lemma_sum_sizes_prefix(sizes@, k as int + 1);
            assert(sizes@.take(k as int + 1).drop_last() =~= sizes@.take(k as int));
            assert(sizes@.take(k as int + 1).last() == sizes@[k as int]);
        }
        match sizes[k] {
            Some(s) => {
                total = total + s;
            },
            None => (),
        }
        k = k + 1;
    }
    proof {
        assert(sizes@.take(sizes@.len() as int) =~= sizes@);
    }
    decimal_width(total)
}

} // verus!
