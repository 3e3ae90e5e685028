//! Aggregation of the optional side effects that handlers emit: zero effects
//! aggregate to nothing, one effect passes through unchanged, and several
//! effects become a run-in-order batch.

use vstd::prelude::*;

verus! {

/// The composite side effect of one dispatch: either a single handler's
/// effect unchanged, or an ordered batch of effects to run in registration
/// order.
#[derive(Debug, PartialEq, Eq)]
pub enum Aggregate<E> {
    Single(E),
    Batch(Vec<E>),
}

/// The effects an aggregate carries, in order: none, the single effect, or
/// the batch.
pub open spec fn spec_effects<E>(a: Option<Aggregate<E>>) -> Seq<E> {
    match a {
        Option::None => Seq::empty(),
        Option::Some(Aggregate::Single(e)) => seq![e],
        Option::Some(Aggregate::Batch(v)) => v@,
    }
}

/// Append the effects one dispatch produced to the effects collected so
/// far, keeping both orders.
pub fn append_effects<E>(filters: &mut Vec<E>, produced: Option<Aggregate<E>>)
    ensures
        final(filters)@ == old(filters)@ + spec_effects(produced),
{
    match produced {
        Option::None => {
            proof {
                assert(filters@ =~= filters@ + Seq::<E>::empty());
            }
        },
        Option::Some(Aggregate::Single(e)) => {
            filters.push(e);
            proof {
                assert(filters@ =~= old(filters)@ + spec_effects(produced));
            }
        },
        Option::Some(Aggregate::Batch(mut v)) => {
            filters.append(&mut v);
        },
    }
}

/// Combine the effects collected from a dispatch into one optional
/// composite: none for zero effects, the effect itself for one, and an
/// ordered batch for more, keeping the order in which they were collected.
pub fn as_filter_chain<E>(effects: Vec<E>) -> (r: Option<Aggregate<E>>)
    ensures
        effects@.len() == 0 ==> r is None,
        effects@.len() == 1 ==> (r matches Some(a) && a matches Aggregate::Single(e) && e
            == effects@[0]),
        effects@.len() >= 2 ==> (r matches Some(a) && a matches Aggregate::Batch(v) && v@
            == effects@),
{
    if effects.len() == 0 {
        None
    } else if effects.len() == 1 {
        let mut effects = effects;
        match effects.pop() {
            Some(e) => Some(Aggregate::Single(e)),
            None => vstd::pervasive::unreached(),
        }
    } else {
        Some(Aggregate::Batch(effects))
    }
}

} // verus!
