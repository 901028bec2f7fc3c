//! Random sequences of directives, and how to shrink them.
//!
//! A [`PartialWithErrors`] is a sequence of directives generated at random
//! under an error policy, a type that implements [`GenError`]. The policies
//! here inject `Interrupted`, `WouldBlock`, either of the two, or nothing.
//! A generated sequence never holds `Limited(0)`: to a writer, zero bytes
//! written can mean that no more writes are accepted.

use vstd::prelude::*;
use vstd::std_specs::iter::IteratorSpec;
use quickcheck::Gen;
use rand::rngs::SmallRng;
use rand::Rng;
use rand::SeedableRng;
use std::marker::PhantomData;
use std::ops::Deref;
use crate::op::{ErrorKind, PartialOp};

verus! {

/// `quickcheck::Gen`, the source of randomness and of the size that a
/// property test hands to a generator. Nothing is known of what it holds.
#[verifier::external_type_specification]
#[verifier::external_body]
pub struct ExGen(Gen);

/// `rand::rngs::SmallRng`, a small pseudo-random number generator. Nothing is
/// known of what it holds.
#[verifier::external_type_specification]
#[verifier::external_body]
pub struct ExSmallRng(SmallRng);

/// The size that a generator was made with.
pub uninterp spec fn gen_size(g: Gen) -> usize;

/// `quickcheck::Gen::size` returns the size that the generator was made
/// with, which depends on the generator alone.
pub assume_specification[ Gen::size ](g: &Gen) -> (size: usize)
    ensures
        size == gen_size(*g),
;

/// `quickcheck::Gen::choose` picks one item of a slice at random: nothing
/// from an empty slice, and otherwise a reference to one of its items.
pub assume_specification<'a, T>[ Gen::choose::<T> ](g: &mut Gen, slice: &'a [T]) -> (picked:
    Option<&'a T>)
    ensures
        slice@.len() == 0 ==> picked is None,
        slice@.len() > 0 ==> picked is Some && slice@.contains(*picked.unwrap()),
;

/// `SmallRng::from_entropy` makes a generator seeded by the operating system.
/// Nothing is claimed of it. It panics if the system has no entropy to give.
#[verifier::external_body]
fn entropy_rng() -> (rng: SmallRng) {
    SmallRng::from_entropy()
}

/// `Rng::gen_ratio` returns `true` with probability `numerator` in
/// `denominator`. Nothing is claimed of the outcome; the two bounds keep the
/// call from panicking.
#[verifier::external_body]
fn draw_ratio(rng: &mut SmallRng, numerator: u32, denominator: u32) -> (hit: bool)
    requires
        0 < denominator,
        numerator <= denominator,
{
    rng.gen_ratio(numerator, denominator)
}

/// `Rng::gen_range` on `low..high` returns a value of that range, `high`
/// left out. It panics on an empty range, which `low < high` excludes.
#[verifier::external_body]
fn draw_range(rng: &mut SmallRng, low: usize, high: usize) -> (k: usize)
    requires
        low < high,
    ensures
        low <= k < high,
{
    rng.gen_range(low..high)
}

/// A way to generate error kinds at random.
pub trait GenError: Clone + Default + Send {
    /// Whether this policy can generate `kind` at all.
    spec fn may_generate(kind: ErrorKind) -> bool;

    /// Generates an error kind, or nothing.
    fn gen_error(&mut self, g: &mut Gen) -> (kind: Option<ErrorKind>)
        ensures
            kind matches Some(k) ==> Self::may_generate(k),
    ;
}

/// Picks one of `kinds` at random if `hit`, and nothing otherwise.
pub fn pick_error(hit: bool, g: &mut Gen, kinds: &[ErrorKind]) -> (kind: Option<ErrorKind>)
    requires
        kinds@.len() > 0,
    ensures
        kind is Some <==> hit,
        kind matches Some(k) ==> kinds@.contains(k),
{
    if hit {
        match g.choose(kinds) {
            Some(k) => Some(*k),
            None => None,
        }
    } else {
        None
    }
}

/// Generates one of `kinds` one time in five, and nothing the other four.
fn one_in_five(g: &mut Gen, kinds: &[ErrorKind]) -> (kind: Option<ErrorKind>)
    requires
        kinds@.len() > 0,
    ensures
        kind matches Some(k) ==> kinds@.contains(k),
{
    let mut rng = entropy_rng();
    let hit = draw_ratio(&mut rng, 1, 5);
    pick_error(hit, g, kinds)
}

/// Generates an `Interrupted` error 20% of the time.
#[derive(Clone, Copy, Debug, Default)]
pub struct GenInterrupted;

/// Generates a `WouldBlock` error 20% of the time.
#[derive(Clone, Copy, Debug, Default)]
pub struct GenWouldBlock;

/// Generates `Interrupted` and `WouldBlock` errors 10% of the time each.
#[derive(Clone, Copy, Debug, Default)]
pub struct GenInterruptedWouldBlock;

/// Generates no errors: every directive generated is a `Limited`.
#[derive(Clone, Copy, Debug, Default)]
pub struct GenNoErrors;

impl GenError for GenInterrupted {
    open spec fn may_generate(kind: ErrorKind) -> bool {
        kind == ErrorKind::Interrupted
    }

    fn gen_error(&mut self, g: &mut Gen) -> (kind: Option<ErrorKind>) {
        let kinds = [ErrorKind::Interrupted];
        one_in_five(g, kinds.as_slice())
    }
}

impl GenError for GenWouldBlock {
    open spec fn may_generate(kind: ErrorKind) -> bool {
        kind == ErrorKind::WouldBlock
    }

    fn gen_error(&mut self, g: &mut Gen) -> (kind: Option<ErrorKind>) {
        let kinds = [ErrorKind::WouldBlock];
        one_in_five(g, kinds.as_slice())
    }
}

impl GenError for GenInterruptedWouldBlock {
    open spec fn may_generate(kind: ErrorKind) -> bool {
        kind == ErrorKind::Interrupted || kind == ErrorKind::WouldBlock
    }

    fn gen_error(&mut self, g: &mut Gen) -> (kind: Option<ErrorKind>) {
        let kinds = [ErrorKind::Interrupted, ErrorKind::WouldBlock];
        one_in_five(g, kinds.as_slice())
    }
}

impl GenError for GenNoErrors {
    open spec fn may_generate(kind: ErrorKind) -> bool {
        false
    }

    fn gen_error(&mut self, _g: &mut Gen) -> (kind: Option<ErrorKind>) {
        None
    }
}

/// The values that quickcheck's shrinker for `usize` offers in place of `n`,
/// in the order in which it offers them.
pub uninterp spec fn usize_shrink(n: usize) -> Seq<usize>;

/// `<usize as quickcheck::Arbitrary>::shrink` offers a fixed list of values
/// in place of `n`, each of them smaller than `n`; in particular none for 0.
#[verifier::external_body]
fn shrink_usize(n: usize) -> (smaller: Vec<usize>)
    ensures
        smaller@ == usize_shrink(n),
        forall|i: int| 0 <= i < smaller@.len() ==> smaller@[i] < n,
{
    quickcheck::Arbitrary::shrink(&n).collect()
}

/// The limits that replace a limit for which `candidates` were offered: one
/// `Limited` for each candidate but 0, in the same order.
pub open spec fn shrunk_limits(candidates: Seq<usize>) -> Seq<PartialOp> {
    candidates.filter(|k: usize| k != 0).map_values(|k: usize| PartialOp::Limited(k))
}

/// The directives that may replace `op` when a failing sequence is shrunk. A
/// limit shrinks towards smaller limits, never to 0; nothing else shrinks.
pub open spec fn shrunk_ops(op: PartialOp) -> Seq<PartialOp> {
    match op {
        PartialOp::Limited(n) => shrunk_limits(usize_shrink(n)),
        _ => Seq::empty(),
    }
}

/// Turns the candidates offered for a limit into directives, leaving out 0.
pub fn limits_from(candidates: &Vec<usize>) -> (ops: Vec<PartialOp>)
    ensures
        ops@ == shrunk_limits(candidates@),
{
    let mut ops: Vec<PartialOp> = Vec::new();
    let mut i: usize = 0;
    proof {
        reveal(Seq::filter);
        assert(candidates@.take(0) =~= Seq::<usize>::empty());
        assert(shrunk_limits(candidates@.take(0)) =~= Seq::<PartialOp>::empty());
    }
    while i < candidates.len()
        invariant
            i <= candidates.len(),
            ops@ == shrunk_limits(candidates@.take(i as int)),
        decreases candidates.len() - i,
    {
        let k = candidates[i];
        proof {
            let seen = candidates@.take(i as int);
            assert(candidates@.take(i + 1) =~= seen.push(k));
            seen.lemma_filter_push(k, |k: usize| k != 0);
            if k != 0 {
                assert(shrunk_limits(seen.push(k)) =~= shrunk_limits(seen).push(
                    PartialOp::Limited(k),
                ));
            }
        }
        if k != 0 {
            ops.push(PartialOp::Limited(k));
        }
        i = i + 1;
    }
    proof {
        assert(candidates@.take(candidates.len() as int) =~= candidates@);
    }
    ops
}

impl PartialOp {
    /// The directives to try in place of this one when a failing sequence is
    /// shrunk. Only a limit shrinks: to smaller limits, and never to 0.
    pub fn shrink(&self) -> (smaller: Vec<PartialOp>)
        ensures
            smaller@ == shrunk_ops(*self),
            forall|i: int| 0 <= i < smaller@.len() ==> smaller@[i] != PartialOp::Limited(0),
            *self matches PartialOp::Limited(n) ==> forall|i: int|
                0 <= i < smaller@.len() ==> (#[trigger] smaller@[i] matches PartialOp::Limited(k)
                    && 1 <= k < n),
            *self matches PartialOp::Limited(n) && n <= 1 ==> smaller@.len() == 0,
            !(*self is Limited) ==> smaller@.len() == 0,
    {
        match *self {
            PartialOp::Limited(n) => {
                let candidates = shrink_usize(n);
                let smaller = limits_from(&candidates);
                proof {
                    lemma_shrunk_limits(candidates@, n);
                    if n <= 1 && smaller@.len() > 0 {
                        assert(smaller@[0] is Limited);
                    }
                }
                smaller
            },
            _ => Vec::new(),
        }
    }
}

/// No candidate 0 survives. Where every candidate is below `n`, every
/// directive of `shrunk_limits` is a limit of at least 1 and below `n`, and
/// there are no more directives than candidates.
pub proof fn lemma_shrunk_limits(candidates: Seq<usize>, n: usize)
    requires
        forall|i: int| 0 <= i < candidates.len() ==> candidates[i] < n,
    ensures
        shrunk_limits(candidates).len() <= candidates.len(),
        forall|i: int|
            0 <= i < shrunk_limits(candidates).len() ==> (#[trigger] shrunk_limits(candidates)[i]
                matches PartialOp::Limited(k) && 1 <= k < n),
{
    let positive = |k: usize| k != 0;
    let kept = candidates.filter(positive);
    candidates.lemma_filter_len(positive);
    assert forall|i: int| 0 <= i < shrunk_limits(candidates).len() implies (
    #[trigger] shrunk_limits(candidates)[i] matches PartialOp::Limited(k) && 1 <= k < n) by {
        candidates.lemma_filter_pred(positive, i);
        candidates.lemma_filter_contains_rev(positive, kept[i]);
        assert(candidates.contains(kept[i]));
    }
}

/// Shrinking never turns a positive limit into `Limited(0)`, and never
/// shrinks anything but a limit: every directive offered in place of
/// `Limited(n)` is a limit of at least 1, and nothing is offered in place of
/// `Unlimited` or of a failure.
pub proof fn lemma_shrink_never_yields_zero(op: PartialOp)
    ensures
        forall|i: int| 0 <= i < shrunk_ops(op).len() ==> shrunk_ops(op)[i] != PartialOp::Limited(0),
        !(op is Limited) ==> shrunk_ops(op).len() == 0,
{
    if let PartialOp::Limited(n) = op {
        let candidates = usize_shrink(n);
        let positive = |k: usize| k != 0;
        assert forall|i: int| 0 <= i < shrunk_ops(op).len() implies shrunk_ops(op)[i]
            != PartialOp::Limited(0) by {
            candidates.lemma_filter_pred(positive, i);
        }
    }
}

/// Whether a generator of size `size` under policy `GE` can emit `op`: a
/// limit of at least 1 and below `size`, or a failure of a kind that the
/// policy generates.
pub open spec fn may_emit<GE: GenError>(op: PartialOp, size: usize) -> bool {
    match op {
        PartialOp::Limited(n) => 1 <= n < size,
        PartialOp::Unlimited => false,
        PartialOp::Fail(kind) => GE::may_generate(kind),
    }
}

/// The directive for one position of a generated sequence: the failure that
/// the policy came up with, or else a limit drawn from `1..size`. Where the
/// policy has no failure and `size` is below 2, there is no limit to draw and
/// so no directive.
pub fn emit_op(error: Option<ErrorKind>, size: usize) -> (op: Option<PartialOp>)
    ensures
        error matches Some(kind) ==> op == Some(PartialOp::Fail(kind)),
        error is None && size >= 2 ==> (op matches Some(PartialOp::Limited(n)) && 1 <= n < size),
        error is None && size < 2 ==> op is None,
{
    match error {
        Some(kind) => Some(PartialOp::Fail(kind)),
        None => {
            if size < 2 {
                None
            } else {
                let mut rng = entropy_rng();
                Some(PartialOp::Limited(draw_range(&mut rng, 1, size)))
            }
        },
    }
}

/// A sequence of directives generated at random under the error policy `GE`.
#[derive(Debug)]
pub struct PartialWithErrors<GE> {
    items: Vec<PartialOp>,
    _marker: PhantomData<GE>,
}

impl<GE> PartialWithErrors<GE> {
    #[verifier::type_invariant]
    spec fn no_zero_limit(self) -> bool {
        forall|i: int| 0 <= i < self.items@.len() ==> self.items@[i] != PartialOp::Limited(0)
    }

    /// The directives, in the order in which they are to be consumed.
    pub closed spec fn view(&self) -> Seq<PartialOp> {
        self.items@
    }

    /// Makes a sequence of `items`, unless one of them is `Limited(0)`.
    pub fn from_items(items: Vec<PartialOp>) -> (seq: Option<Self>)
        ensures
            seq is Some <==> (forall|i: int|
                0 <= i < items@.len() ==> items@[i] != PartialOp::Limited(0)),
            seq matches Some(s) ==> s@ == items@,
    {
        let mut i: usize = 0;
        while i < items.len()
            invariant
                i <= items.len(),
                forall|j: int| 0 <= j < i ==> items@[j] != PartialOp::Limited(0),
            decreases items.len() - i,
        {
            match items[i] {
                PartialOp::Limited(n) => {
                    if n == 0 {
                        return None;
                    }
                },
                _ => {},
            }
            i = i + 1;
        }
        Some(PartialWithErrors { items, _marker: PhantomData })
    }

    /// Hands out the directives, to be queued in a wrapper.
    pub fn into_vec(self) -> (items: Vec<PartialOp>)
        ensures
            items@ == self@,
            forall|i: int| 0 <= i < items@.len() ==> items@[i] != PartialOp::Limited(0),
    {
        proof {
            use_type_invariant(&self);
        }
        self.items
    }
}

impl<GE: GenError> PartialWithErrors<GE> {
    /// Generates `size` directives, for a size that always leaves a limit to
    /// draw. For each position the policy is asked for an error; where it
    /// has none, the directive is a limit drawn from `1..size`.
    pub fn generate(size: usize, g: &mut Gen) -> (seq: Self)
        requires
            size != 1,
        ensures
            seq@.len() == size,
            forall|i: int| 0 <= i < seq@.len() ==> may_emit::<GE>(#[trigger] seq@[i], size),
    {
        Self::try_generate(size, g).unwrap()
    }

    /// Generates a sequence of the size that `g` is configured with, as
    /// [`PartialWithErrors::try_generate`] does for that size.
    pub fn arbitrary(g: &mut Gen) -> (seq: Option<Self>)
        ensures
            gen_size(*old(g)) != 1 ==> seq is Some,
            seq matches Some(s) ==> s@.len() == gen_size(*old(g)) && forall|i: int|
                0 <= i < s@.len() ==> may_emit::<GE>(#[trigger] s@[i], gen_size(*old(g))),
            gen_size(*old(g)) == 1 && (forall|kind: ErrorKind| !GE::may_generate(kind))
                ==> seq is None,
    {
        let size = g.size();
        Self::try_generate(size, g)
    }

    /// Generates `size` directives. For each position the policy is asked
    /// for an error; where it has none, the directive is a limit drawn from
    /// `1..size`. Only a size of 1 can leave no limit to draw: the outcome is
    /// then one failure if the policy comes up with one, and nothing if not.
    pub fn try_generate(size: usize, g: &mut Gen) -> (seq: Option<Self>)
        ensures
            size != 1 ==> seq is Some,
            seq matches Some(s) ==> s@.len() == size && forall|i: int|
                0 <= i < s@.len() ==> may_emit::<GE>(#[trigger] s@[i], size),
            size == 1 && (forall|kind: ErrorKind| !GE::may_generate(kind)) ==> seq is None,
    {
        let mut gen_error = GE::default();
        let mut items: Vec<PartialOp> = Vec::new();
        let mut i: usize = 0;
        while i < size
            invariant
                i <= size,
                items@.len() == i,
                forall|j: int| 0 <= j < items@.len() ==> may_emit::<GE>(#[trigger] items@[j], size),
                size == 1 && (forall|kind: ErrorKind| !GE::may_generate(kind)) ==> i == 0,
            decreases size - i,
        {
            let error = gen_error.gen_error(g);
            match emit_op(error, size) {
                Some(op) => {
                    items.push(op);
                },
                None => {
                    return None;
                },
            }
            i = i + 1;
        }
        Some(PartialWithErrors { items, _marker: PhantomData })
    }
}

impl<GE> Clone for PartialWithErrors<GE> {
    fn clone(&self) -> (copy: Self)
        ensures
            copy@ == self@,
    {
        proof {
            use_type_invariant(self);
        }
        PartialWithErrors { items: self.items.clone(), _marker: PhantomData }
    }
}

impl<GE> Deref for PartialWithErrors<GE> {
    type Target = [PartialOp];

    fn deref(&self) -> (ops: &[PartialOp])
        ensures
            ops@ == self@,
            forall|i: int| 0 <= i < ops@.len() ==> ops@[i] != PartialOp::Limited(0),
    {
        proof {
            use_type_invariant(self);
        }
        self.items.as_slice()
    }
}

impl<GE> IntoIterator for PartialWithErrors<GE> {
    type Item = PartialOp;

    type IntoIter = std::vec::IntoIter<PartialOp>;

    fn into_iter(self) -> (iter: std::vec::IntoIter<PartialOp>)
        ensures
            iter.remaining() == self@,
            iter.decrease() is Some,
    {
        broadcast use vstd::std_specs::vec::axiom_spec_into_iter;

        self.items.into_iter()
    }
}

} // verus!
