use crate::easings::{is_ordered, CombinedEasing};
use crate::grid::position::GridPosition;
use crate::pixels::components::{Pixel, PixelLifetime};
use crate::scenes::story::{next_in_sweep, PixelStates};
use std::ops::{Add, Div, Mul};
use vstd::prelude::*;
use vstd::std_specs::cmp::PartialOrdIs;
use vstd::std_specs::convert::FromSpec;
use vstd::std_specs::ops::{AddSpec, DivSpec, MulSpec};

verus! {

/// `deadline` is a deadline that a sweep arriving at `upcoming` at clock
/// reading `millis_elapsed` may be given: the reading plus `wait` times the
/// easing's response, where the response is the easing evaluated at the
/// normalised position together with `width` and `sharpness`.
pub open spec fn schedules<T, F>(
    millis_elapsed: T,
    wait: T,
    width: T,
    sharpness: T,
    bell_easing: CombinedEasing<(T, T, T), T, F>,
    upcoming: GridPosition,
    deadline: T,
) -> bool where
    T: Copy + PartialOrd + From<i32> + Div<Output = T> + Mul<Output = T> + Add<Output = T>,
    F: Fn((T, T, T)) -> T,
 {
    exists|x: T, response: T, dwell: T|
        #![trigger
            bell_easing.evaluates_to((x, width, sharpness), response),
            call_ensures(T::mul, (wait, response), dwell)
        ]
        {
            &&& upcoming.normalises_to(x)
            &&& bell_easing.evaluates_to((x, width, sharpness), response)
            &&& call_ensures(T::mul, (wait, response), dwell)
            &&& call_ensures(T::add, (millis_elapsed, dwell), deadline)
        }
}

/// The arithmetic of a deadline can be carried out in `T`: the position of
/// `upcoming` can be normalised, `wait` can be multiplied by every response
/// that may come of it, and every product can be added to `millis_elapsed`.
pub open spec fn can_schedule<T, F>(
    millis_elapsed: T,
    wait: T,
    width: T,
    sharpness: T,
    bell_easing: CombinedEasing<(T, T, T), T, F>,
    upcoming: GridPosition,
) -> bool where
    T: Copy + PartialOrd + From<i32> + Div<Output = T> + Mul<Output = T> + Add<Output = T>,
    F: Fn((T, T, T)) -> T,
 {
    &&& upcoming.can_normalise::<T>()
    &&& forall|x: T, response: T|
        #![trigger bell_easing.evaluates_to((x, width, sharpness), response)]
        upcoming.normalises_to(x) && bell_easing.evaluates_to((x, width, sharpness), response)
            ==> call_requires(T::mul, (wait, response))
    &&& forall|x: T, response: T, dwell: T|
        #![trigger
            bell_easing.evaluates_to((x, width, sharpness), response),
            call_ensures(T::mul, (wait, response), dwell)
        ]
        upcoming.normalises_to(x) && bell_easing.evaluates_to((x, width, sharpness), response)
            && call_ensures(T::mul, (wait, response), dwell) ==> call_requires(
            T::add,
            (millis_elapsed, dwell),
        )
}

/// One advance of the sweep at clock reading `millis_elapsed`. The cell that
/// was due comes back together with the reading, which is its new lifetime.
/// The sweep moves to the next cell in scan order, and its new deadline is
/// `millis_elapsed + wait * response`, where `response` is `bell_easing`
/// evaluated at the normalised position of that next cell, with `width` and
/// `sharpness`.
pub fn update_pixel_lit_time<T, F>(
    millis_elapsed: T,
    wait: T,
    width: T,
    sharpness: T,
    state: &mut PixelStates<T>,
    bell_easing: &CombinedEasing<(T, T, T), T, F>,
) -> (lit: (Pixel, PixelLifetime<T>)) where
    T: Copy + PartialOrd + From<i32> + Div<Output = T> + Mul<Output = T> + Add<Output = T>,
    F: Fn((T, T, T)) -> T,

    requires
        i32::MIN <= old(state).next_lit_pixel.cells() <= i32::MAX,
        old(state).next_lit_pixel.cells() != 0,
        old(state).next_lit_pixel.packed < i32::MAX,
        bell_easing.wf(),
        can_schedule(
            millis_elapsed,
            wait,
            width,
            sharpness,
            *bell_easing,
            next_in_sweep(old(state).next_lit_pixel),
        ),
    ensures
        lit.0.pos == old(state).next_lit_pixel,
        lit.1.0 == millis_elapsed,
        final(state).next_lit_pixel == next_in_sweep(old(state).next_lit_pixel),
        old(state).next_lit_pixel.wf() ==> final(state).next_lit_pixel.wf(),
        schedules(
            millis_elapsed,
            wait,
            width,
            sharpness,
            *bell_easing,
            final(state).next_lit_pixel,
            final(state).next_lit_time,
        ),
{
    let lit = Pixel { pos: state.next_lit_pixel };
    state.update_next_pixel();
    let x: T = state.next_lit_pixel.normalised();
    let response = bell_easing.evaluate((x, width, sharpness));
    let dwell = wait * response;
    state.next_lit_time = millis_elapsed + dwell;
    (lit, PixelLifetime(millis_elapsed))
}

/// In a type whose conversion, division, multiplication and addition keep to
/// their specifications, a deadline is `millis_elapsed + wait * response`,
/// where `response` is a value of the easing at the quotient of the index of
/// `upcoming` by its divisor.
pub proof fn lemma_deadline_of_specified<T, F>(
    millis_elapsed: T,
    wait: T,
    width: T,
    sharpness: T,
    bell_easing: CombinedEasing<(T, T, T), T, F>,
    upcoming: GridPosition,
    deadline: T,
) where
    T: Copy + PartialOrd + From<i32> + Div<Output = T> + Mul<Output = T> + Add<Output = T>,
    F: Fn((T, T, T)) -> T,

    requires
        <T as FromSpec<i32>>::obeys_from_spec(),
        <T as DivSpec>::obeys_div_spec(),
        <T as MulSpec>::obeys_mul_spec(),
        <T as AddSpec>::obeys_add_spec(),
        schedules(millis_elapsed, wait, width, sharpness, bell_easing, upcoming, deadline),
    ensures
        exists|response: T|
            {
                &&& #[trigger] bell_easing.evaluates_to(
                    (
                        T::from_spec(upcoming.packed).div_spec(
                            T::from_spec(upcoming.divisor() as i32),
                        ),
                        width,
                        sharpness,
                    ),
                    response,
                )
                &&& deadline == millis_elapsed.add_spec(wait.mul_spec(response))
            },
{
    let (x, response, dwell) = choose|x: T, response: T, dwell: T|
        #![trigger
            bell_easing.evaluates_to((x, width, sharpness), response),
            call_ensures(T::mul, (wait, response), dwell)
        ]
        {
            &&& upcoming.normalises_to(x)
            &&& bell_easing.evaluates_to((x, width, sharpness), response)
            &&& call_ensures(T::mul, (wait, response), dwell)
            &&& call_ensures(T::add, (millis_elapsed, dwell), deadline)
        };
    crate::grid::position::lemma_normalised_of_specified(upcoming, x);
}

/// Whether the sweep is due: the clock reading is past the deadline.
pub fn update_pixel_lit_time_run_if<T: PartialOrd>(
    millis_elapsed: T,
    state: &PixelStates<T>,
) -> (due: bool)
    ensures
        call_ensures(T::gt, (&millis_elapsed, &state.next_lit_time), due),
        is_ordered::<T>() ==> due == millis_elapsed.is_gt(&state.next_lit_time),
{
    millis_elapsed > state.next_lit_time
}

/// A marker was placed at `pos`: its curve, which `bell_at` makes for the
/// normalised position of the marker as its center, is folded into the
/// easing.
pub fn user_pixel_added<T, F, B>(
    pos: &GridPosition,
    bell_easing: &mut CombinedEasing<(T, T, T), T, F>,
    bell_at: B,
) where
    T: Copy + PartialOrd + From<i32> + Div<Output = T>,
    F: Fn((T, T, T)) -> T,
    B: FnOnce(T) -> F,

    requires
        old(bell_easing).wf(),
        pos.can_normalise::<T>(),
        forall|center: T|
            #[trigger] pos.normalises_to(center) ==> call_requires(bell_at, (center,)),
        forall|center: T, curve: F, args: (T, T, T)|
            pos.normalises_to(center) && #[trigger] call_ensures(bell_at, (center,), curve)
                ==> #[trigger] call_requires(curve, (args,)),
    ensures
        final(bell_easing).wf(),
        exists|center: T, curve: F|
            {
                &&& pos.normalises_to(center)
                &&& #[trigger] call_ensures(bell_at, (center,), curve)
                &&& final(bell_easing)@ == old(bell_easing)@.push(curve)
            },
{
    let center: T = pos.normalised();
    let curve = bell_at(center);
    bell_easing.extend(curve);
}

} // verus!
