use vstd::prelude::*;
use crate::explosion::{lemma_primary_total_pos, lemma_secondary_total_pos, secondary_total};
use crate::firework::{has_eligible_center, no_secondary_trigger, prune_advanced, Firework};
use crate::rng::Rng;

verus! {

/// Whether the driver should launch a new firework this tick: there is
/// room for one more, and the random spawn delay has elapsed.
pub fn should_spawn(active: usize, max_fireworks: u16, elapsed_ms: u64, threshold_ms: u64) -> (r:
    bool)
    ensures
        r == (active < max_fireworks as usize && elapsed_ms > threshold_ms),
{
    active < max_fireworks as usize && elapsed_ms > threshold_ms
}

/// The identity of a firework: the fields a tick never changes.
pub open spec fn same_identity(a: Firework, b: Firework) -> bool {
    &&& a.x == b.x
    &&& a.explosion_x == b.explosion_x
    &&& a.explosion_y == b.explosion_y
    &&& a.size == b.size
    &&& a.max_age == b.max_age
    &&& a.max_explosion_stages == b.max_explosion_stages
    &&& a.primary_color == b.primary_color
    &&& a.secondary_color == b.secondary_color
    &&& a.tertiary_color == b.tertiary_color
}

/// Whether a firework's one-tick image is still live. An ascending
/// firework always is (an explosion yields a non-empty burst at age
/// zero); an exploded one survives exactly when some particle outlives
/// the tick — counting a secondary burst where the trigger fires and a
/// bright centre exists — and the explosion phase has not aged out.
pub open spec fn survives_tick(fw: Firework) -> bool {
    if !fw.exploded {
        true
    } else {
        let kept = prune_advanced(fw.particles@).len() + (
        if !no_secondary_trigger(fw) && has_eligible_center(fw.particles@) {
            secondary_total(fw.size as int)
        } else {
            0
        });
        kept != 0 && fw.age + 1 < fw.max_age
    }
}

/// The fireworks of `fws` whose one-tick image is still live, in order.
pub open spec fn survivors_of(fws: Seq<Firework>) -> Seq<Firework>
    decreases fws.len(),
{
    if fws.len() == 0 {
        Seq::empty()
    } else {
        let rest = survivors_of(fws.drop_last());
        if survives_tick(fws.last()) {
            rest.push(fws.last())
        } else {
            rest
        }
    }
}

/// Advance every active firework one tick, in container order, and
/// discard the spent ones: exactly the fireworks whose one-tick image
/// is still live are kept, in order, each under its own identity; a
/// firework that reports done is never updated or drawn again.
#[verifier::loop_isolation(false)]
pub fn advance_all(fireworks: &mut Vec<Firework>, rng: &mut Rng)
    requires
        forall|k: int|
            0 <= k < old(fireworks)@.len() ==> (#[trigger] old(fireworks)@[k]).wf()
                && old(fireworks)@[k].age < 60000,
    ensures
        final(fireworks)@.len() == survivors_of(old(fireworks)@).len(),
        forall|k: int|
            0 <= k < final(fireworks)@.len() ==> same_identity(
                #[trigger] final(fireworks)@[k],
                survivors_of(old(fireworks)@)[k],
            ),
        forall|k: int|
            0 <= k < final(fireworks)@.len() ==> (#[trigger] final(fireworks)@[k]).wf()
                && !final(fireworks)@[k].done_spec() && final(fireworks)@[k].age < 60000,
{
    let ghost orig = fireworks@;
    let ghost mut processed: int = 0;
    let mut out: Vec<Firework> = Vec::new();
    while fireworks.len() > 0
        invariant
            0 <= processed <= orig.len(),
            fireworks@ == orig.subrange(processed, orig.len() as int),
            forall|k: int|
                0 <= k < fireworks@.len() ==> (#[trigger] fireworks@[k]).wf() && fireworks@[k].age
                    < 60000,
            out@.len() == survivors_of(orig.subrange(0, processed)).len(),
            forall|k: int|
                0 <= k < out@.len() ==> same_identity(
                    #[trigger] out@[k],
                    survivors_of(orig.subrange(0, processed))[k],
                ),
            forall|k: int|
                0 <= k < out@.len() ==> (#[trigger] out@[k]).wf() && !out@[k].done_spec()
                    && out@[k].age < 60000,
        decreases fireworks@.len(),
    {
        let ghost before = fireworks@;
        let mut fw = fireworks.remove(0);
        proof {
            assert(fw == orig[processed]);
            assert(fireworks@ =~= orig.subrange(processed + 1, orig.len() as int));
        }
        let ghost pre = fw;
        fw.update(rng);
        proof {
            if !pre.exploded {
                if pre.y <= pre.explosion_y {
                    lemma_primary_total_pos(pre.size as int);
                }
            } else {
                if !no_secondary_trigger(pre) && has_eligible_center(pre.particles@) {
                    lemma_secondary_total_pos(pre.size as int);
                }
            }
            assert(!fw.done_spec() == survives_tick(pre));
            let subp = orig.subrange(0, processed + 1);
            assert(subp.drop_last() =~= orig.subrange(0, processed));
            assert(subp.last() == orig[processed]);
        }
        if !fw.is_done() {
            out.push(fw);
        }
        proof {
            processed = processed + 1;
        }
    }
    proof {
        assert(orig.subrange(0, orig.len() as int) =~= orig);
    }
    *fireworks = out;
}

} // verus!
