//! Independent helpers: a checked sum, joining string slices with single
//! spaces, and timing one call of a caller-supplied function.

use vstd::prelude::*;

verus! {

/// Sum of the two operands.
pub fn sum(a: u64, b: u64) -> (r: u64)
    requires
        a + b <= u64::MAX,
    ensures
        r == a + b,
{
    a + b
}

/// The given parts joined with a single space between neighbours: no
/// leading or trailing space, and none for an empty list.
pub open spec fn join_spaced(parts: Seq<Seq<char>>) -> Seq<char>
    decreases parts.len(),
{
    if parts.len() == 0 {
        Seq::empty()
    } else if parts.len() == 1 {
        parts[0]
    } else {
        join_spaced(parts.drop_last()) + seq![' '] + parts.last()
    }
}

/// Relies on `String::push_str`: appends the slice's characters to the
/// string.
#[verifier::external_body]
fn push_str(s: &mut String, t: &str)
    ensures
        final(s)@ == old(s)@ + t@,
{
    s.push_str(t);
}

/// Joins the slices with a single space between neighbours.
pub fn concat(a: &[&str]) -> (r: String)
    ensures
        r@ == join_spaced(a@.map_values(|s: &str| s@)),
{
    let mut result = String::new();
    let mut i: usize = 0;
    while i < a.len()
        invariant
            i <= a@.len(),
            result@ == join_spaced(a@.take(i as int).map_values(|s: &str| s@)),
        decreases a@.len() - i,
    {
        if i > 0 {
            push_str(&mut result, " ");
        }
        let part = a[i];
        push_str(&mut result, part);
        proof {
            reveal_strlit(" ");
            let f = |s: &str| s@;
            let upto = a@.take(i as int).map_values(f);
            let next = a@.take(i as int + 1).map_values(f);
            assert(" "@ =~= seq![' ']);
            assert(next =~= upto.push(a@[i as int]@));
            assert(next.drop_last() =~= upto);
            if i > 0 {
                assert(join_spaced(next) == join_spaced(upto) + seq![' '] + a@[i as int]@);
            }
        }
        i += 1;
    }
    proof {
        assert(a@.take(a@.len() as int) =~= a@);
    }
    result
}

/// Calls `f` on `args` and pairs its result with how long the call took on
/// the monotonic clock.
pub fn measure_time<F, T, R>(f: F, args: T) -> (result: (R, std::time::Duration)) where
    F: FnOnce(T) -> R,

    requires
        call_requires(f, (args,)),
    ensures
        call_ensures(f, (args,), result.0),
{
    let now = clock_now();
    let result = f(args);
    let elapsed = clock_elapsed(&now);
    (result, elapsed)
}

/// Relies on `std::time::Instant::now`: an opaque reading of the
/// monotonic clock; nothing can be promised of its value.
#[verifier::external_body]
fn clock_now() -> std::time::Instant {
    std::time::Instant::now()
}

/// Relies on `std::time::Instant::elapsed`: the time since the reading
/// was taken; nothing can be promised of its value.
#[verifier::external_body]
fn clock_elapsed(start: &std::time::Instant) -> std::time::Duration {
    start.elapsed()
}

/// Declares `std::time::Instant` so that clock readings can be carried
/// through signatures; the type stays opaque.
#[verifier::external_type_specification]
#[verifier::external_body]
pub struct ExInstant(std::time::Instant);

} // verus!
