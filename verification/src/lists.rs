//! Stepping through a list.

use vstd::arithmetic::div_mod;
use vstd::prelude::*;

verus! {

/// `delta` steps from `at` through a list of `len` entries that goes round at both ends.
pub open spec fn wrapped(at: int, delta: int, len: int) -> int {
    (at + delta) % len
}

/// Where `x` first stands in a list at or after `from`; the length where it does not.
pub open spec fn first_at<T>(list: Seq<T>, x: T, from: int) -> int
    decreases list.len() - from,
{
    if from >= list.len() {
        list.len() as int
    } else if list[from] == x {
        from
    } else {
        first_at(list, x, from + 1)
    }
}

/// What stands where `x` is first found is `x`, and it is found where it is anywhere.
pub proof fn lemma_first_at<T>(list: Seq<T>, x: T, from: int)
    requires
        0 <= from <= list.len(),
    ensures
        from <= first_at(list, x, from) <= list.len(),
        first_at(list, x, from) < list.len() ==> list[first_at(list, x, from)] == x,
        (exists|i: int| from <= i < list.len() && #[trigger] list[i] == x) ==> first_at(
            list,
            x,
            from,
        ) < list.len(),
    decreases list.len() - from,
{
    if from < list.len() && list[from] != x {
        lemma_first_at(list, x, from + 1);
    }
}

/// A number that differs from `x` by a multiple of `len`, and lies in the list, is where `x`
/// wraps to.
proof fn lemma_wraps_to(x: int, r: int, q: int, len: int)
    requires
        0 <= r < len,
        x == q * len + r,
    ensures
        x % len == r,
{
    div_mod::lemma_mod_multiples_vanish(q, r, len);
    assert(q * len == len * q) by (nonlinear_arith);
    div_mod::lemma_small_mod(r as nat, len as nat);
}

/// `delta` steps from `at` through a list of `len` entries that goes round at both ends.
pub fn wrap(at: usize, delta: isize, len: usize) -> (r: usize)
    requires
        at < len,
    ensures
        r == wrapped(at as int, delta as int, len as int),
        r < len,
{
    // How far forward, short of going all the way round.
    let forward: usize = if delta >= 0 {
        (delta as usize) % len
    } else {
        let back: usize = (-(delta + 1)) as usize;
        len - 1 - back % len
    };
    let ghost quotient: int = if delta >= 0 {
        (delta as int) / (len as int)
    } else {
        -((-(delta + 1)) / (len as int)) - 1
    };
    proof {
        let l = len as int;
        if delta >= 0 {
            div_mod::lemma_fundamental_div_mod(delta as int, l);
            assert(l * quotient == quotient * l) by (nonlinear_arith);
            assert(delta == quotient * l + forward);
        } else {
            let back = -(delta + 1);
            div_mod::lemma_fundamental_div_mod(back, l);
            assert(l * (back / l) == -(quotient * l) - l) by (nonlinear_arith)
                requires
                    quotient == -(back / l) - 1,
            ;
            assert(delta == quotient * l + forward);
        }
    }
    let r: usize = if at >= len - forward {
        at - (len - forward)
    } else {
        at + forward
    };
    proof {
        let l = len as int;
        if at >= len - forward {
            assert((quotient + 1) * l == quotient * l + l) by (nonlinear_arith);
            lemma_wraps_to(at + delta, r as int, quotient + 1, l);
        } else {
            lemma_wraps_to(at + delta, r as int, quotient, l);
        }
    }
    r
}

/// `delta` steps from `at` through a list of `len` entries that goes round at both ends, wherever
/// `at` lies: the list may have changed since.
pub fn wrap_from(at: usize, delta: isize, len: usize) -> (r: usize)
    requires
        len > 0,
    ensures
        r == wrapped(at as int, delta as int, len as int),
        r < len,
{
    let r: usize = wrap(at % len, delta, len);
    proof {
        let l = len as int;
        let a = at as int;
        div_mod::lemma_fundamental_div_mod(a, l);
        div_mod::lemma_fundamental_div_mod(a % l + delta, l);
        let q = a / l;
        let p = (a % l + delta) / l;
        assert(a + delta == (q + p) * l + r) by (nonlinear_arith)
            requires
                a == l * q + a % l,
                a % l + delta == l * p + r,
        ;
        lemma_wraps_to(a + delta, r as int, q + p, l);
    }
    r
}

/// Stepping round and back comes home.
pub proof fn stepping_back_comes_home(at: int, delta: int, len: int)
    requires
        0 <= at < len,
    ensures
        wrapped(wrapped(at, delta, len), -delta, len) == at,
        wrapped(at, 0, len) == at,
        0 <= wrapped(at, delta, len) < len,
{
    div_mod::lemma_small_mod(at as nat, len as nat);
    let there = wrapped(at, delta, len);
    div_mod::lemma_fundamental_div_mod(at + delta, len);
    let q = (at + delta) / len;
    assert(there - delta == (-q) * len + at) by (nonlinear_arith)
        requires
            at + delta == len * q + there,
    ;
    lemma_wraps_to(there - delta, at, -q, len);
}

/// Steps add up, and one step goes to the next entry, from the last to the first, and back.
pub proof fn steps_go_round_one_by_one(at: int, a: int, b: int, len: int)
    requires
        0 <= at < len,
    ensures
        wrapped(wrapped(at, a, len), b, len) == wrapped(at, a + b, len),
        at + 1 < len ==> wrapped(at, 1, len) == at + 1,
        at + 1 == len ==> wrapped(at, 1, len) == 0,
        at > 0 ==> wrapped(at, -1, len) == at - 1,
        at == 0 ==> wrapped(at, -1, len) == len - 1,
{
    let there = wrapped(at, a, len);
    div_mod::lemma_fundamental_div_mod(at + a, len);
    div_mod::lemma_fundamental_div_mod(there + b, len);
    stepping_back_comes_home(at, a, len);
    stepping_back_comes_home(there, b, len);
    let q = (at + a) / len;
    let p = (there + b) / len;
    let r = wrapped(there, b, len);
    assert(at + a + b == (q + p) * len + r) by (nonlinear_arith)
        requires
            at + a == len * q + there,
            there + b == len * p + r,
    ;
    lemma_wraps_to(at + (a + b), r, q + p, len);
    if at + 1 < len {
        div_mod::lemma_small_mod((at + 1) as nat, len as nat);
    } else {
        lemma_wraps_to(len, 0, 1, len);
    }
    if at > 0 {
        div_mod::lemma_small_mod((at - 1) as nat, len as nat);
    } else {
        lemma_wraps_to(-1, len - 1, -1, len);
    }
}

/// What is first found is not anywhere before, and what is nowhere is not found.
pub proof fn nothing_is_found_later_than_it_stands<T>(list: Seq<T>, x: T, from: int)
    requires
        0 <= from <= list.len(),
    ensures
        forall|i: int| from <= i < first_at(list, x, from) ==> #[trigger] list[i] != x,
        first_at(list, x, from) == list.len() <==> forall|i: int|
            from <= i < list.len() ==> #[trigger] list[i] != x,
        first_at(list, x, from) < list.len() ==> list[first_at(list, x, from)] == x,
    decreases list.len() - from,
{
    lemma_first_at(list, x, from);
    if from < list.len() && list[from] != x {
        nothing_is_found_later_than_it_stands(list, x, from + 1);
    }
}

} // verus!
