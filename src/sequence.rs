use vstd::prelude::*;
use crate::value::StrError;

verus! {

/// Where an index lands in a sequence of length `len`: counted from the end
/// when negative, `None` when outside.
pub open spec fn index_target(len: int, i: int) -> Option<int> {
    if 0 <= i < len {
        Some(i)
    } else if -len <= i < 0 {
        Some(len + i)
    } else {
        None
    }
}

/// A slice bound resolved against `len`: negative counts from the end, and
/// the result is clamped into `[0, len]`.
pub open spec fn bound_target(len: int, b: Option<i128>, default: int) -> int {
    match b {
        None => default,
        Some(v) => if v < 0 {
            if len + v < 0 { 0 } else { len + v }
        } else {
            if v > len { len } else { v as int }
        },
    }
}

/// The resolved start of a slice.
pub open spec fn slice_start(len: int, start: Option<i128>) -> int {
    bound_target(len, start, 0)
}

/// The resolved stop of a slice: never before its start.
pub open spec fn slice_stop(len: int, start: Option<i128>, stop: Option<i128>) -> int {
    let b = bound_target(len, stop, len);
    if b < slice_start(len, start) { slice_start(len, start) } else { b }
}

/// The resolved step of a slice, when it is positive.
pub open spec fn slice_step(step: Option<i128>) -> int {
    match step {
        None => 1,
        Some(k) => if k > usize::MAX { usize::MAX as int } else { k as int },
    }
}

pub open spec fn step_valid(step: Option<i128>) -> bool {
    match step {
        None => true,
        Some(k) => k > 0,
    }
}

/// The elements at `start`, `start + step`, ... before `stop`, in order.
pub open spec fn stepped<T>(s: Seq<T>, start: int, stop: int, step: int) -> Seq<T> {
    Seq::new(
        (if stop <= start { 0 } else { (stop - start + step - 1) / step }) as nat,
        |k: int| s[start + k * step],
    )
}

/// Resolves a raw, possibly negative index against a length.
pub fn resolve_index(length: usize, raw: i128) -> (r: Result<usize, StrError>)
    ensures
        match r {
            Ok(k) => index_target(length as int, raw as int) == Some(k as int),
            Err(e) => index_target(length as int, raw as int) is None && e is IndexOutOfRange,
        },
{
    if raw >= 0 {
        if raw < length as i128 {
            Ok(raw as usize)
        } else {
            Err(StrError::IndexOutOfRange)
        }
    } else {
        let back: i128 = length as i128 + raw;
        if back >= 0 {
            Ok(back as usize)
        } else {
            Err(StrError::IndexOutOfRange)
        }
    }
}

fn resolve_bound(length: usize, b: Option<i128>, default: usize) -> (r: usize)
    requires
        default <= length,
    ensures
        r as int == bound_target(length as int, b, default as int),
        r <= length,
{
    match b {
        None => default,
        Some(v) => if v < 0 {
            let back: i128 = length as i128 + v;
            if back < 0 { 0 } else { back as usize }
        } else {
            if v > length as i128 { length } else { v as usize }
        },
    }
}

/// Resolves optional slice bounds and step against a length. Bounds are
/// clamped rather than refused; a step that is not positive is refused.
pub fn resolve_slice(length: usize, start: Option<i128>, stop: Option<i128>, step: Option<i128>)
    -> (r: Result<(usize, usize, usize), StrError>)
    ensures
        match r {
            Ok((a, b, k)) => step_valid(step) && a == slice_start(length as int, start)
                && b == slice_stop(length as int, start, stop) && k == slice_step(step)
                && a <= b <= length && k >= 1,
            Err(e) => !step_valid(step) && e is InvalidStep,
        },
{
    let k: usize = match step {
        None => 1,
        Some(k) => if k <= 0 {
            return Err(StrError::InvalidStep);
        } else if k > usize::MAX as i128 {
            usize::MAX
        } else {
            k as usize
        },
    };
    let a = resolve_bound(length, start, 0);
    let b0 = resolve_bound(length, stop, length);
    let b = if b0 < a { a } else { b0 };
    Ok((a, b, k))
}

/// The contiguous part `[start, stop)` of a sequence.
pub fn do_slice<T: Copy>(s: &Vec<T>, start: usize, stop: usize) -> (r: Vec<T>)
    requires
        start <= stop <= s@.len(),
    ensures
        r@ == s@.subrange(start as int, stop as int),
{
    let mut r: Vec<T> = Vec::new();
    let mut i: usize = start;
    while i < stop
        invariant
            start <= i <= stop <= s@.len(),
            r@ == s@.subrange(start as int, i as int),
        decreases stop - i,
    {
        r.push(s[i]);
        i = i + 1;
        assert(r@ =~= s@.subrange(start as int, i as int));
    }
    r
}

/// The elements at `start`, `start + step`, ... before `stop`, in order.
pub fn do_stepped_slice<T: Copy>(s: &Vec<T>, start: usize, stop: usize, step: usize) -> (r: Vec<T>)
    requires
        start <= stop <= s@.len(),
        step >= 1,
    ensures
        r@ == stepped(s@, start as int, stop as int, step as int),
{
    let mut r: Vec<T> = Vec::new();
    let mut i: usize = start;
    let ghost n = stepped(s@, start as int, stop as int, step as int).len();
    proof {
        assert(0 * step == 0);
        if start < stop {
            let d = stop - start + step - 1;
            assert(d / (step as int) >= 1) by (nonlinear_arith)
                requires d >= step, step >= 1;
        }
        assert(r@ =~= stepped(s@, start as int, stop as int, step as int).subrange(0, 0));
    }
    while i < stop
        invariant
            start <= i,
            i <= stop || r@.len() == n,
            stop <= s@.len(),
            step >= 1,
            n == stepped(s@, start as int, stop as int, step as int).len(),
            i == start + r@.len() * step,
            r@.len() <= n,
            i < stop ==> r@.len() < n,
            r@.len() > 0 ==> i < stop,
            r@ == stepped(s@, start as int, stop as int, step as int).subrange(0, r@.len() as int),
        decreases n - r@.len(),
    {
        proof {
            assert(r@.len() * step + step == (r@.len() + 1) * step) by (nonlinear_arith);
        }
        r.push(s[i]);
        assert(r@ =~= stepped(s@, start as int, stop as int, step as int).subrange(0, r@.len() as int));
        if stop - i <= step {
            proof { lemma_stepped_len(start as int, stop as int, step as int, r@.len() as int); }
            assert(r@ =~= stepped(s@, start as int, stop as int, step as int));
            return r;
        }
        i = i + step;
        proof { lemma_stepped_more(start as int, stop as int, step as int, r@.len() as int); }
    }
    assert(r@ =~= stepped(s@, start as int, stop as int, step as int));
    r
}

proof fn lemma_stepped_len(start: int, stop: int, step: int, m: int)
    requires
        step >= 1,
        start < stop,
        m >= 1,
        start + (m - 1) * step < stop <= start + m * step,
    ensures
        (stop - start + step - 1) / step == m,
{
    assert((m - 1) * step + step == m * step) by (nonlinear_arith);
    let d = stop - start + step - 1;
    assert(m * step <= d < m * step + step);
    assert(d / step == m) by (nonlinear_arith)
        requires m * step <= d < m * step + step, step >= 1;
}

proof fn lemma_stepped_more(start: int, stop: int, step: int, m: int)
    requires
        step >= 1,
        m >= 1,
        start + m * step < stop,
    ensures
        m < (stop - start + step - 1) / step,
{
    let d = stop - start + step - 1;
    assert(d >= (m + 1) * step) by (nonlinear_arith)
        requires d == stop - start + step - 1, start + m * step < stop, step >= 1;
    assert(d / step >= m + 1) by (nonlinear_arith)
        requires d >= (m + 1) * step, step >= 1;
}

/// Taking every other element from the start keeps them in order, and
/// yields half the length, rounded up.
pub proof fn lemma_every_other<T>(s: Seq<T>)
    ensures
        stepped(s, 0, s.len() as int, 2).len() == (s.len() + 1) / 2,
        forall|k: int| 0 <= k < (s.len() + 1) / 2 ==> #[trigger] stepped(s, 0, s.len() as int, 2)[k] == s[2 * k],
{
}

} // verus!
