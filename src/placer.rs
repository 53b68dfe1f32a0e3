use vstd::prelude::*;
use vstd::arithmetic::div_mod::lemma_fundamental_div_mod_converse_div;
use vstd::set_lib::{lemma_int_range, lemma_len_subset, set_int_range};

use crate::effect::BoxEffect;
use crate::geometry::{
    boxes_overlap, in_field, overlaps, Point, BOX_SIZE, FIELD_HEIGHT, FIELD_WIDTH,
};
use crate::random::draw_in_range;

verus! {

/// Number of boxes in a game.
pub const BOX_COUNT: usize = 10;

/// Random draws tried for one box before the fallback placement takes over.
pub const MAX_PLACEMENT_ATTEMPTS: u32 = 1000;

/// Distance between neighbouring spots of the fallback diagonal.
pub const FALLBACK_SPACING: i32 = 60;

/// Some already placed box overlaps a box anchored at `p`.
pub open spec fn collides_with_any(placed: Seq<Point>, p: Point) -> bool {
    exists|i: int| 0 <= i < placed.len() && overlaps(#[trigger] placed[i], p)
}

/// No two boxes of `s` overlap.
pub open spec fn pairwise_apart(s: Seq<Point>) -> bool {
    forall|i: int, j: int|
        0 <= i < s.len() && 0 <= j < s.len() && i != j ==> !overlaps(#[trigger] s[i], #[trigger] s[j])
}

/// Every anchor of `s` lies inside the field.
pub open spec fn all_in_field(s: Seq<Point>) -> bool {
    forall|i: int| 0 <= i < s.len() ==> in_field(#[trigger] s[i])
}

/// The `k`-th spot of the fallback diagonal.
pub open spec fn fallback_spot(k: int) -> Point {
    Point { x: (FALLBACK_SPACING * k) as i32, y: (FALLBACK_SPACING * k) as i32 }
}

/// The one diagonal spot that a box anchored at `p` can overlap, if any.
pub open spec fn diagonal_slot(p: Point) -> int {
    (p.x + BOX_SIZE) / (FALLBACK_SPACING as int)
}

/// A box overlapping the `k`-th diagonal spot has that spot as its slot:
/// spots lie twice the box size apart.
proof fn lemma_spot_overlap_slot(p: Point, k: int)
    requires
        0 <= k < BOX_COUNT,
        overlaps(p, fallback_spot(k)),
    ensures
        diagonal_slot(p) == k,
{
    let x = p.x + BOX_SIZE;
    lemma_fundamental_div_mod_converse_div(x, 60, k, x - k * 60);
}

/// Fewer than `BOX_COUNT` boxes cannot block every spot of the diagonal.
proof fn lemma_some_spot_free(placed: Seq<Point>)
    requires
        placed.len() < BOX_COUNT,
    ensures
        exists|k: int| 0 <= k < BOX_COUNT && !collides_with_any(placed, #[trigger] fallback_spot(k)),
{
    if forall|k: int| 0 <= k < BOX_COUNT ==> collides_with_any(placed, #[trigger] fallback_spot(k)) {
        let slots = placed.map_values(|p: Point| diagonal_slot(p));
        assert forall|k: int| #[trigger] set_int_range(0, BOX_COUNT as int).contains(k) implies slots.to_set().contains(k) by {
            assert(collides_with_any(placed, fallback_spot(k)));
            let i = choose|i: int| 0 <= i < placed.len() && overlaps(#[trigger] placed[i], fallback_spot(k));
            lemma_spot_overlap_slot(placed[i], k);
            assert(slots[i] == k);
        }
        lemma_int_range(0, BOX_COUNT as int);
        slots.lemma_cardinality_of_set();
        vstd::seq_lib::seq_to_set_is_finite(slots);
        lemma_len_subset(set_int_range(0, BOX_COUNT as int), slots.to_set());
    }
}

/// Whether a box anchored at `p` would overlap one of `placed`.
pub fn collides(placed: &Vec<Point>, p: &Point) -> (r: bool)
    ensures
        r == collides_with_any(placed@, *p),
{
    let mut i: usize = 0;
    while i < placed.len()
        invariant
            i <= placed.len(),
            forall|j: int| 0 <= j < i ==> !overlaps(#[trigger] placed@[j], *p),
        decreases placed.len() - i,
    {
        if boxes_overlap(&placed[i], p) {
            return true;
        }
        i = i + 1;
    }
    false
}

/// The first spot of the diagonal `(0, 0), (60, 60), ..., (540, 540)` that
/// overlaps none of `placed`; used when random draws keep colliding. Such a
/// spot always exists, and lies inside the field.
pub fn fallback_position(placed: &Vec<Point>) -> (r: Point)
    requires
        placed.len() < BOX_COUNT,
    ensures
        in_field(r),
        !collides_with_any(placed@, r),
        exists|k: int|
            0 <= k < BOX_COUNT && r == fallback_spot(k) && forall|j: int|
                0 <= j < k ==> collides_with_any(placed@, #[trigger] fallback_spot(j)),
{
    proof {
        lemma_some_spot_free(placed@);
    }
    let mut k: i32 = 0;
    while k < BOX_COUNT as i32
        invariant
            0 <= k <= BOX_COUNT,
            forall|j: int| 0 <= j < k ==> collides_with_any(placed@, #[trigger] fallback_spot(j)),
        decreases BOX_COUNT - k,
    {
        let spot = Point { x: FALLBACK_SPACING * k, y: FALLBACK_SPACING * k };
        assert(spot == fallback_spot(k as int));
        if !collides(placed, &spot) {
            return spot;
        }
        k = k + 1;
    }
    Point { x: 0, y: 0 }
}

/// Places one more box: up to `MAX_PLACEMENT_ATTEMPTS` uniform draws in the
/// field, the first that overlaps no placed box being taken; the fallback
/// diagonal otherwise.
pub fn place_box(rng: &mut rand::rngs::StdRng, placed: &Vec<Point>) -> (r: Point)
    requires
        placed.len() < BOX_COUNT,
    ensures
        in_field(r),
        !collides_with_any(placed@, r),
{
    let mut attempt: u32 = 0;
    while attempt < MAX_PLACEMENT_ATTEMPTS
        invariant
            attempt <= MAX_PLACEMENT_ATTEMPTS,
        decreases MAX_PLACEMENT_ATTEMPTS - attempt,
    {
        let x = draw_in_range(rng, 0, FIELD_WIDTH);
        let y = draw_in_range(rng, 0, FIELD_HEIGHT);
        let candidate = Point { x, y };
        if !collides(placed, &candidate) {
            return candidate;
        }
        attempt = attempt + 1;
    }
    fallback_position(placed)
}

/// Places `BOX_COUNT` boxes inside the field, no two of them overlapping.
pub fn place_boxes(rng: &mut rand::rngs::StdRng) -> (r: Vec<Point>)
    ensures
        r.len() == BOX_COUNT,
        all_in_field(r@),
        pairwise_apart(r@),
{
    let mut placed: Vec<Point> = Vec::new();
    while placed.len() < BOX_COUNT
        invariant
            placed.len() <= BOX_COUNT,
            all_in_field(placed@),
            pairwise_apart(placed@),
        decreases BOX_COUNT - placed.len(),
    {
        let p = place_box(rng, &placed);
        let ghost before = placed@;
        placed.push(p);
        proof {
            assert forall|i: int, j: int|
                0 <= i < placed@.len() && 0 <= j < placed@.len() && i != j implies !overlaps(
                #[trigger] placed@[i],
                #[trigger] placed@[j],
            ) by {
                if i < before.len() && j < before.len() {
                    assert(placed@[i] == before[i] && placed@[j] == before[j]);
                } else if i < before.len() {
                    assert(!overlaps(before[i], p));
                } else {
                    assert(!overlaps(before[j], p));
                }
            }
        }
    }
    placed
}

/// Draws an effect: a cure or an injury with equal chance, then its amount
/// uniformly in `[5, 50)` for a cure or `[50, 100)` for an injury.
pub fn random_effect(rng: &mut rand::rngs::StdRng) -> (r: BoxEffect)
    ensures
        r.wf(),
        r != BoxEffect::NoEffect,
{
    let kind = draw_in_range(rng, 0, 2);
    let amount = if kind == 0 {
        draw_in_range(rng, 5, 50)
    } else {
        draw_in_range(rng, 50, 100)
    };
    BoxEffect::from_draws(kind, amount)
}

} // verus!
