use vstd::prelude::*;

verus! {

/// Highest health a player can have; also the starting health.
pub const MAX_HEALTH: i32 = 100;

/// What opening a box does to the player's health.
#[derive(Clone, Copy, Debug, PartialEq, Eq, Structural)]
pub enum BoxEffect {
    /// Heals by the amount, in `[5, 50)`.
    Cure(i32),
    /// Hurts by the amount, in `[50, 100)`.
    Injury(i32),
    /// Leaves health as it is.
    NoEffect,
}

/// A health value within `[0, MAX_HEALTH]`.
pub open spec fn valid_health(h: int) -> bool {
    0 <= h <= MAX_HEALTH
}

/// Health `h` after an effect: cures saturate at the maximum, injuries at zero.
pub open spec fn applied(e: BoxEffect, h: int) -> int {
    match e {
        BoxEffect::Cure(n) => if h + n < MAX_HEALTH { h + n } else { MAX_HEALTH as int },
        BoxEffect::Injury(n) => if h - n > 0 { h - n } else { 0 },
        BoxEffect::NoEffect => h,
    }
}

/// Health `h` after the effects of `effects`, applied in order.
pub open spec fn applied_all(effects: Seq<BoxEffect>, h: int) -> int
    decreases effects.len(),
{
    if effects.len() == 0 {
        h
    } else {
        applied(effects.last(), applied_all(effects.drop_last(), h))
    }
}

impl BoxEffect {
    /// The amount lies in the range that the effect's kind allows.
    pub open spec fn wf(self) -> bool {
        match self {
            BoxEffect::Cure(n) => 5 <= n < 50,
            BoxEffect::Injury(n) => 50 <= n < 100,
            BoxEffect::NoEffect => true,
        }
    }

    /// The effect for a drawn kind and amount: kind 0 cures, kind 1 injures,
    /// any other kind does nothing.
    pub open spec fn from_draws_spec(kind: i32, amount: i32) -> BoxEffect {
        if kind == 0 {
            BoxEffect::Cure(amount)
        } else if kind == 1 {
            BoxEffect::Injury(amount)
        } else {
            BoxEffect::NoEffect
        }
    }

    /// Builds the effect for a drawn kind and amount (see `from_draws_spec`).
    pub fn from_draws(kind: i32, amount: i32) -> (r: BoxEffect)
        ensures
            r == Self::from_draws_spec(kind, amount),
    {
        match kind {
            0 => BoxEffect::Cure(amount),
            1 => BoxEffect::Injury(amount),
            _ => BoxEffect::NoEffect,
        }
    }

    /// Returns the player's health after this effect: `min(health + n, 100)`
    /// for a cure, `max(health - n, 0)` for an injury, unchanged otherwise.
    pub fn apply(&self, health: i32) -> (r: i32)
        requires
            self.wf(),
            valid_health(health as int),
        ensures
            r == applied(*self, health as int),
            valid_health(r as int),
    {
        match *self {
            BoxEffect::Injury(points) => if health - points > 0 { health - points } else { 0 },
            BoxEffect::Cure(points) => if health + points < MAX_HEALTH { health + points } else { MAX_HEALTH },
            BoxEffect::NoEffect => health,
        }
    }
}

/// Starting from a valid health, any sequence of well-formed effects leaves the
/// health within `[0, 100]` after every step.
pub proof fn lemma_health_bounds(effects: Seq<BoxEffect>, h: int)
    requires
        valid_health(h),
        forall|i: int| 0 <= i < effects.len() ==> #[trigger] effects[i].wf(),
    ensures
        forall|k: int| 0 <= k <= effects.len() ==> valid_health(#[trigger] applied_all(effects.subrange(0, k), h)),
    decreases effects.len(),
{
    if effects.len() > 0 {
        let init = effects.drop_last();
        lemma_health_bounds(init, h);
        assert forall|k: int| 0 <= k <= effects.len() implies valid_health(#[trigger] applied_all(effects.subrange(0, k), h)) by {
            if k < effects.len() {
                assert(effects.subrange(0, k) =~= init.subrange(0, k));
            } else {
                assert(effects.subrange(0, k) =~= effects);
                assert(init =~= init.subrange(0, init.len() as int));
                assert(valid_health(applied_all(init.subrange(0, init.len() as int), h)));
                assert(effects.last().wf());
            }
        }
    } else {
        assert forall|k: int| 0 <= k <= effects.len() implies valid_health(#[trigger] applied_all(effects.subrange(0, k), h)) by {
            assert(effects.subrange(0, k).len() == 0);
        }
    }
}

} // verus!
