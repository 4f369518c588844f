use std::marker::PhantomData;
use vstd::prelude::*;
use vstd::std_specs::cmp::{PartialOrdIs, PartialOrdSpec};

verus! {

/// The comparison of `T` is the one its specification describes, so that
/// `a <= b` evaluates to `a.is_le(&b)`.
pub open spec fn is_ordered<T: PartialOrd>() -> bool {
    T::obeys_partial_cmp_spec()
}

/// `a` is below or equal to `b` in the specified order of `T`.
pub open spec fn spec_le<T: PartialOrd>(a: T, b: T) -> bool {
    a.is_le(&b)
}

/// The order of `T` compares any two values and is transitive.
pub open spec fn is_total_preorder<T: PartialOrd>() -> bool {
    &&& forall|a: T, b: T| #![trigger spec_le(a, b)] spec_le(a, b) || spec_le(b, a)
    &&& forall|a: T, b: T, c: T|
        #![trigger spec_le(a, b), spec_le(b, c)]
        spec_le(a, b) && spec_le(b, c) ==> spec_le(a, c)
}

/// The order of `T` is a total preorder in which only equal values are below
/// each other.
pub open spec fn is_total_order<T: PartialOrd>() -> bool {
    &&& is_total_preorder::<T>()
    &&& forall|a: T, b: T| #![trigger spec_le(a, b)] spec_le(a, b) && spec_le(b, a) ==> a == b
}

/// The loose maximum: `b` where `a` is below or equal to `b`, otherwise `a`.
/// Of two equal operands it is the second, of two that do not compare the
/// first.
pub open spec fn spec_loose_max<T: PartialOrd>(a: T, b: T) -> T {
    if spec_le(a, b) {
        b
    } else {
        a
    }
}

/// `r` is a value that `loose_max(a, b)` may return: `b` where `a <= b`
/// evaluates to true, `a` where it evaluates to false. This holds of every
/// comparison, whether or not it keeps to a specification.
pub open spec fn loose_max_gives<T: PartialOrd>(a: T, b: T, r: T) -> bool {
    exists|le: bool|
        #![trigger call_ensures(T::le, (&a, &b), le)]
        call_ensures(T::le, (&a, &b), le) && r == (if le {
            b
        } else {
            a
        })
}

/// A maximum that asks only for a partial order. Where `a <= b` holds the
/// result is `b`, otherwise `a`.
pub fn loose_max<T: PartialOrd>(a: T, b: T) -> (r: T)
    ensures
        loose_max_gives(a, b, r),
        is_ordered::<T>() ==> r == spec_loose_max(a, b),
{
    if a <= b {
        b
    } else {
        a
    }
}

/// The loose maximum of a non-empty sequence, taken from the left:
/// `loose_max(.. loose_max(loose_max(o[0], o[1]), o[2]) .., o[n - 1])`.
pub open spec fn loose_max_fold<T: PartialOrd>(outputs: Seq<T>) -> T
    recommends
        outputs.len() > 0,
    decreases outputs.len(),
{
    if outputs.len() <= 1 {
        outputs[0]
    } else {
        spec_loose_max(loose_max_fold(outputs.drop_last()), outputs.last())
    }
}

/// `r` is a value that folding `outputs` from the left with `loose_max` may
/// return.
pub open spec fn fold_gives<T: PartialOrd>(outputs: Seq<T>, r: T) -> bool
    decreases outputs.len(),
{
    if outputs.len() == 0 {
        false
    } else if outputs.len() == 1 {
        r == outputs[0]
    } else {
        exists|acc: T|
            #![trigger loose_max_gives(acc, outputs.last(), r)]
            fold_gives(outputs.drop_last(), acc) && loose_max_gives(acc, outputs.last(), r)
    }
}

/// The pointwise loose maximum of one or more curves of type `F`, each a
/// function from `Args` to `Ret`. The view is the sequence of curves in the
/// order in which they were added.
#[verifier::reject_recursive_types(Args)]
#[verifier::reject_recursive_types(Ret)]
pub struct CombinedEasing<Args, Ret, F: Fn(Args) -> Ret> {
    curves: Vec<F>,
    marker: PhantomData<(Args, Ret)>,
}

impl<Args, Ret, F: Fn(Args) -> Ret> View for CombinedEasing<Args, Ret, F> {
    type V = Seq<F>;

    closed spec fn view(&self) -> Seq<F> {
        self.curves@
    }
}

impl<Args, Ret, F> CombinedEasing<Args, Ret, F> where
    Args: Copy,
    Ret: PartialOrd + Copy,
    F: Fn(Args) -> Ret,
 {
    /// There is at least one curve, and every curve accepts every argument.
    pub open spec fn wf(&self) -> bool {
        &&& self@.len() > 0
        &&& forall|i: int, x: Args|
            0 <= i < self@.len() ==> #[trigger] call_requires(self@[i], (x,))
    }

    /// `outputs` holds, curve by curve, a value that the curve may return at
    /// `x`.
    pub open spec fn samples(&self, x: Args, outputs: Seq<Ret>) -> bool {
        &&& outputs.len() == self@.len()
        &&& forall|i: int|
            0 <= i < self@.len() ==> call_ensures(self@[i], (x,), #[trigger] outputs[i])
    }

    /// `outputs` holds, curve by curve, the one value that the curve returns
    /// at `x`.
    pub open spec fn single_valued(&self, x: Args, outputs: Seq<Ret>) -> bool {
        &&& outputs.len() == self@.len()
        &&& forall|i: int, v: Ret|
            0 <= i < self@.len() && #[trigger] call_ensures(self@[i], (x,), v) ==> v == outputs[i]
    }

    /// `r` is a value that evaluating at `x` may return: the left fold, under
    /// `loose_max`, of one output of each curve.
    pub open spec fn evaluates_to(&self, x: Args, r: Ret) -> bool {
        exists|outputs: Seq<Ret>|
            #![trigger self.samples(x, outputs)]
            self.samples(x, outputs) && fold_gives(outputs, r)
    }

    /// The easing that consists of `easing_fn` alone.
    pub fn new(easing_fn: F) -> (easing: Self)
        requires
            forall|x: Args| call_requires(easing_fn, (x,)),
        ensures
            easing.wf(),
            easing@ == seq![easing_fn],
    {
        let mut curves = Vec::new();
        curves.push(easing_fn);
        Self { curves, marker: PhantomData }
    }

    /// Folds `next` in: from now on the easing evaluates to the loose maximum
    /// of what it evaluated to before and of `next`, in this order.
    pub fn extend(&mut self, next: F)
        requires
            old(self).wf(),
            forall|x: Args| call_requires(next, (x,)),
        ensures
            final(self).wf(),
            final(self)@ == old(self)@.push(next),
    {
        self.curves.push(next);
    }

    /// Calls every curve on `x`, oldest first, and folds the outputs with
    /// `loose_max`.
    pub fn evaluate(&self, x: Args) -> (r: Ret)
        requires
            self.wf(),
        ensures
            self.evaluates_to(x, r),
    {
        let mut acc = (self.curves[0])(x);
        let ghost mut outputs = seq![acc];
        let mut i: usize = 1;
        while i < self.curves.len()
            invariant
                self.wf(),
                1 <= i <= self.curves.len(),
                outputs.len() == i,
                forall|k: int|
                    0 <= k < i ==> call_ensures(self.curves@[k], (x,), #[trigger] outputs[k]),
                fold_gives(outputs, acc),
            decreases self.curves.len() - i,
        {
            let output = (self.curves[i])(x);
            let ghost before = outputs;
            let ghost folded = acc;
            acc = loose_max(acc, output);
            proof {
                outputs = before.push(output);
                assert(outputs.drop_last() =~= before);
                assert(outputs.last() == output);
                assert(fold_gives(outputs.drop_last(), folded));
            }
            i = i + 1;
        }
        proof {
            assert(self.samples(x, outputs));
        }
        acc
    }
}

/// With a comparison that keeps to its specification, a fold can return
/// nothing but the loose maximum of the sequence.
pub proof fn lemma_fold_of_ordered<T: PartialOrd>(outputs: Seq<T>, r: T)
    requires
        is_ordered::<T>(),
        fold_gives(outputs, r),
    ensures
        outputs.len() > 0,
        r == loose_max_fold(outputs),
    decreases outputs.len(),
{
    if outputs.len() > 1 {
        let acc = choose|acc: T|
            #![trigger loose_max_gives(acc, outputs.last(), r)]
            fold_gives(outputs.drop_last(), acc) && loose_max_gives(acc, outputs.last(), r);
        lemma_fold_of_ordered(outputs.drop_last(), acc);
    }
}

/// Whatever the comparison does, the result of a fold is one of the values
/// folded.
pub proof fn lemma_fold_picks_an_output<T: PartialOrd>(outputs: Seq<T>, r: T)
    requires
        fold_gives(outputs, r),
    ensures
        outputs.contains(r),
    decreases outputs.len(),
{
    if outputs.len() == 1 {
        assert(outputs[0] == r);
    } else {
        let acc = choose|acc: T|
            #![trigger loose_max_gives(acc, outputs.last(), r)]
            fold_gives(outputs.drop_last(), acc) && loose_max_gives(acc, outputs.last(), r);
        lemma_fold_picks_an_output(outputs.drop_last(), acc);
        if r == acc {
            let before = outputs.drop_last();
            let k = choose|k: int| 0 <= k < before.len() && before[k] == acc;
            assert(outputs[k] == r);
        } else {
            assert(outputs[outputs.len() - 1] == r);
        }
    }
}

/// Where every curve has one output at `x` and the comparison keeps to its
/// specification, evaluating at `x` gives the loose maximum of the outputs,
/// folded from the oldest curve to the newest, and nothing else.
pub proof fn lemma_evaluates_to_the_fold<Args: Copy, Ret: PartialOrd + Copy, F: Fn(Args) -> Ret>(
    easing: CombinedEasing<Args, Ret, F>,
    x: Args,
    outputs: Seq<Ret>,
    r: Ret,
)
    requires
        is_ordered::<Ret>(),
        easing.single_valued(x, outputs),
        easing.evaluates_to(x, r),
    ensures
        r == loose_max_fold(outputs),
{
    let seen = choose|seen: Seq<Ret>|
        #![trigger easing.samples(x, seen)]
        easing.samples(x, seen) && fold_gives(seen, r);
    assert(seen =~= outputs);
    lemma_fold_of_ordered(seen, r);
}

/// Evaluation is deterministic where the curves and the comparison are: two
/// results at one argument are equal.
pub proof fn lemma_evaluation_is_deterministic<
    Args: Copy,
    Ret: PartialOrd + Copy,
    F: Fn(Args) -> Ret,
>(easing: CombinedEasing<Args, Ret, F>, x: Args, outputs: Seq<Ret>, r1: Ret, r2: Ret)
    requires
        is_ordered::<Ret>(),
        easing.single_valued(x, outputs),
        easing.evaluates_to(x, r1),
        easing.evaluates_to(x, r2),
    ensures
        r1 == r2,
{
    lemma_evaluates_to_the_fold(easing, x, outputs, r1);
    lemma_evaluates_to_the_fold(easing, x, outputs, r2);
}

/// An easing built from a curve `a` and extended first by `b`, then by `c`,
/// evaluates to `loose_max(loose_max(a(x), b(x)), c(x))`, where each curve has
/// one output at `x` and the comparison keeps to its specification.
pub proof fn lemma_three_curves<Args: Copy, Ret: PartialOrd + Copy, F: Fn(Args) -> Ret>(
    easing: CombinedEasing<Args, Ret, F>,
    x: Args,
    a: Ret,
    b: Ret,
    c: Ret,
    r: Ret,
)
    requires
        is_ordered::<Ret>(),
        easing.single_valued(x, seq![a, b, c]),
        easing.evaluates_to(x, r),
    ensures
        r == spec_loose_max(spec_loose_max(a, b), c),
{
    let outputs = seq![a, b, c];
    lemma_evaluates_to_the_fold(easing, x, outputs, r);
    let two = outputs.drop_last();
    assert(two.drop_last().len() == 1);
    assert(loose_max_fold(two.drop_last()) == a);
    assert(loose_max_fold(two) == spec_loose_max(a, b));
}

/// Extending an easing by a curve with output `v` turns the fold of the
/// outputs so far into the loose maximum of that fold and `v`, whatever the
/// number of curves before.
pub proof fn lemma_extend_takes_maximum<T: PartialOrd>(outputs: Seq<T>, v: T)
    requires
        outputs.len() > 0,
    ensures
        loose_max_fold(outputs.push(v)) == spec_loose_max(loose_max_fold(outputs), v),
{
    assert(outputs.push(v).drop_last() =~= outputs);
}

/// Under a total order the loose maximum does not depend on the order of its
/// operands nor on how three of them are grouped.
pub proof fn lemma_loose_max_of_total_order<T: PartialOrd>(a: T, b: T, c: T)
    requires
        is_total_order::<T>(),
    ensures
        spec_loose_max(a, b) == spec_loose_max(b, a),
        spec_loose_max(spec_loose_max(a, b), c) == spec_loose_max(a, spec_loose_max(b, c)),
{
    assert(spec_le(a, b) || spec_le(b, a));
    assert(spec_le(b, c) || spec_le(c, b));
    assert(spec_le(a, c) || spec_le(c, a));
    assert(spec_le(a, b) && spec_le(b, c) ==> spec_le(a, c));
    assert(spec_le(c, b) && spec_le(b, a) ==> spec_le(c, a));
    assert(spec_le(a, c) && spec_le(c, b) ==> spec_le(a, b));
    assert(spec_le(b, a) && spec_le(a, c) ==> spec_le(b, c));
}

/// Where any two values compare and the order is transitive, the loose
/// maximum is a maximum: the fold is at least every value folded.
pub proof fn lemma_fold_is_upper_bound<T: PartialOrd>(outputs: Seq<T>, i: int)
    requires
        is_total_preorder::<T>(),
        0 <= i < outputs.len(),
    ensures
        spec_le(outputs[i], loose_max_fold(outputs)),
    decreases outputs.len(),
{
    if outputs.len() <= 1 {
        assert(spec_le(outputs[0], outputs[0]) || spec_le(outputs[0], outputs[0]));
    } else {
        let before = loose_max_fold(outputs.drop_last());
        let last = outputs.last();
        let all = loose_max_fold(outputs);
        assert(spec_le(before, last) || spec_le(last, before));
        assert(spec_le(before, before) || spec_le(before, before));
        assert(spec_le(last, last) || spec_le(last, last));
        assert(spec_le(before, all));
        assert(spec_le(last, all));
        if i < outputs.len() - 1 {
            lemma_fold_is_upper_bound(outputs.drop_last(), i);
            assert(spec_le(outputs[i], before) && spec_le(before, all));
        }
    }
}

} // verus!
