//! Words for the laws: the order of texts, and numbers written as digits.

use std::cmp::Ordering;

use vstd::prelude::*;

use crate::order::compare_names;

verus! {

/// Whether `a` comes before `b`: it is a proper beginning of `b`, or has the
/// smaller character where the two first differ.
pub open spec fn comes_before(a: Seq<char>, b: Seq<char>) -> bool {
    ||| a.len() < b.len() && a == b.take(a.len() as int)
    ||| exists|k: int|
        #![trigger a[k]]
        0 <= k < a.len() && k < b.len() && a.take(k) == b.take(k) && a[k] < b[k]
}

/// Whether `digits` is how the number `n` is written: in decimal digits, and
/// without a needless zero in front.
pub open spec fn writes(digits: Seq<char>, n: int) -> bool {
    &&& digits.len() > 0
    &&& digits.len() > 1 ==> digits[0] != '0'
    &&& forall|i: int| 0 <= i < digits.len() ==> '0' <= #[trigger] digits[i] && digits[i] <= '9'
    &&& digits.fold_left(0int, |value: int, digit: char| 10 * value + (digit as int - '0' as int))
        == n
}

pub(crate) proof fn lemma_decimal_writes(n: nat)
    ensures
        writes(crate::connect::decimal(n), n as int),
        n > 0 ==> crate::connect::decimal(n)[0] != '0',
    decreases n,
{
    let digits = crate::connect::decimal(n);
    let front = digits.drop_last();
    let step = |value: int, digit: char| 10 * value + (digit as int - '0' as int);
    if n < 10 {
        assert(front =~= Seq::empty());
        assert(front.fold_left(0int, step) == 0);
        assert(digits.fold_left(0int, step) == step(0, digits[0]));
    } else {
        lemma_decimal_writes(n / 10);
        assert(front =~= crate::connect::decimal(n / 10));
        assert(digits[0] == front[0]);
        assert(digits.fold_left(0int, step) == step(front.fold_left(0int, step), digits.last()));
        assert forall|i: int| 0 <= i < digits.len() implies '0' <= #[trigger] digits[i]
            && digits[i] <= '9' by {
            if i < front.len() {
                assert(digits[i] == front[i]);
            }
        }
    }
}

pub(crate) proof fn lemma_name_le(a: Seq<char>, b: Seq<char>)
    ensures
        crate::order::name_le(a, b) <==> a == b || comes_before(a, b),
    decreases a.len(),
{
    if a.len() == 0 {
        assert(a =~= b.take(0));
        if b.len() == 0 {
            assert(a =~= b);
        }
    } else if b.len() > 0 {
        let (x, y) = (a.drop_first(), b.drop_first());
        lemma_name_le(x, y);
        if a[0] == b[0] {
            assert(a =~= seq![a[0]] + x);
            assert(b =~= seq![b[0]] + y);
            if x.len() < y.len() && x == y.take(x.len() as int) {
                assert(a =~= b.take(a.len() as int));
            }
            if a.len() < b.len() && a == b.take(a.len() as int) {
                assert forall|i: int| 0 <= i < x.len() implies x[i] == y[i] by {
                    assert(a[i + 1] == b.take(a.len() as int)[i + 1]);
                }
                assert(x =~= y.take(x.len() as int));
            }
            if exists|k: int|
                #![trigger x[k]]
                0 <= k < x.len() && k < y.len() && x.take(k) == y.take(k) && x[k] < y[k] {
                let k = choose|k: int|
                    #![trigger x[k]]
                    0 <= k < x.len() && k < y.len() && x.take(k) == y.take(k) && x[k] < y[k];
                assert(a[k + 1] < b[k + 1]);
                assert forall|i: int| 0 <= i < k + 1 implies a[i] == b[i] by {
                    if i > 0 {
                        assert(x.take(k)[i - 1] == y.take(k)[i - 1]);
                    }
                }
                assert(a.take(k + 1) =~= b.take(k + 1));
            }
            if exists|k: int|
                #![trigger a[k]]
                0 <= k < a.len() && k < b.len() && a.take(k) == b.take(k) && a[k] < b[k] {
                let k = choose|k: int|
                    #![trigger a[k]]
                    0 <= k < a.len() && k < b.len() && a.take(k) == b.take(k) && a[k] < b[k];
                assert(x[k - 1] < y[k - 1]);
                assert forall|i: int| 0 <= i < k - 1 implies x[i] == y[i] by {
                    assert(a.take(k)[i + 1] == b.take(k)[i + 1]);
                }
                assert(x.take(k - 1) =~= y.take(k - 1));
            }
        } else {
            if a[0] < b[0] {
                assert(a.take(0) =~= b.take(0));
            }
            if a.len() < b.len() && a == b.take(a.len() as int) {
                assert(a[0] == b.take(a.len() as int)[0]);
            }
            if exists|k: int|
                #![trigger a[k]]
                0 <= k < a.len() && k < b.len() && a.take(k) == b.take(k) && a[k] < b[k] {
                let k = choose|k: int|
                    #![trigger a[k]]
                    0 <= k < a.len() && k < b.len() && a.take(k) == b.take(k) && a[k] < b[k];
                if k > 0 {
                    assert(a.take(k)[0] == b.take(k)[0]);
                }
            }
        }
    }
}

/// Comparing two texts says which comes first, or that they are the same.
pub proof fn law_texts_are_compared(a: &str, b: &str, order: Ordering)
    requires
        call_ensures(compare_names, (a, b), order),
    ensures
        match order {
            Ordering::Less => {
                ||| a@ != b@ && a@.is_prefix_of(b@)
                ||| exists|k: int|
                    #![trigger a@[k]]
                    0 <= k < a@.len() && k < b@.len() && a@.take(k) == b@.take(k) && a@[k] < b@[k]
            },
            Ordering::Equal => a@ == b@,
            Ordering::Greater => {
                ||| a@ != b@ && b@.is_prefix_of(a@)
                ||| exists|k: int|
                    #![trigger b@[k]]
                    0 <= k < a@.len() && k < b@.len() && a@.take(k) == b@.take(k) && b@[k] < a@[k]
            },
        },
{
    lemma_name_le(a@, b@);
    lemma_name_le(b@, a@);
}

} // verus!
