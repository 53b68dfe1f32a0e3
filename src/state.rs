use vstd::prelude::*;

use crate::effect::{applied, valid_health, BoxEffect, MAX_HEALTH};
use crate::geometry::{in_field_of_view, in_view, near, player_near_box, Point};
use crate::placer::{all_in_field, pairwise_apart, place_boxes, random_effect, BOX_COUNT};
use crate::random::{entropy_rng, seeded_rng};

verus! {

/// Distance the player moves along an axis in one tick.
pub const PLAYER_SPEED: i32 = 2;

/// Where the player starts.
pub const START_X: i32 = 300;

/// Where the player starts.
pub const START_Y: i32 = 550;

/// A box on the field.
#[derive(Clone, Copy, Debug, PartialEq, Eq, Structural)]
pub struct GameBox {
    /// Top-left corner of the box's 30x30 square.
    pub position: Point,
    pub effect: BoxEffect,
    pub opened: bool,
}

/// The logical actions that are active during one tick.
#[derive(Clone, Copy, Debug, PartialEq, Eq, Structural)]
pub struct Actions {
    pub move_up: bool,
    pub move_down: bool,
    pub move_left: bool,
    pub move_right: bool,
    pub open: bool,
}

/// The state of one game: the player, the boxes and how many were opened.
#[derive(Clone, Debug)]
pub struct GameState {
    pub player_health: i32,
    pub opened_boxes: usize,
    pub player_position: Point,
    pub boxes: Vec<GameBox>,
}

/// The mathematical value of a `GameState`.
pub struct GameModel {
    pub health: int,
    pub opened: int,
    pub player: Point,
    pub boxes: Seq<GameBox>,
}

impl View for GameState {
    type V = GameModel;

    open spec fn view(&self) -> GameModel {
        GameModel {
            health: self.player_health as int,
            opened: self.opened_boxes as int,
            player: self.player_position,
            boxes: self.boxes@,
        }
    }
}

/// Number of opened boxes in `boxes`.
pub open spec fn num_opened(boxes: Seq<GameBox>) -> int
    decreases boxes.len(),
{
    if boxes.len() == 0 {
        0
    } else {
        num_opened(boxes.drop_last()) + if boxes.last().opened { 1int } else { 0 }
    }
}

/// The box `b` gets opened by a player standing at `p` who opens.
pub open spec fn opens(b: GameBox, p: Point) -> bool {
    !b.opened && near(p, b.position)
}

/// Health `h` after opening, in order, the boxes of `boxes` that `p` opens.
pub open spec fn health_after_opening(h: int, boxes: Seq<GameBox>, p: Point) -> int
    decreases boxes.len(),
{
    if boxes.len() == 0 {
        h
    } else {
        let before = health_after_opening(h, boxes.drop_last(), p);
        if opens(boxes.last(), p) { applied(boxes.last().effect, before) } else { before }
    }
}

/// The box `b` after a player standing at `p` opened what is near.
pub open spec fn opened_by(b: GameBox, p: Point) -> GameBox {
    GameBox { opened: b.opened || near(p, b.position), ..b }
}

/// `v` moved by `delta`, held within the range of `i32`.
pub open spec fn shifted(v: int, delta: int) -> int {
    if v + delta > i32::MAX { i32::MAX as int } else if v + delta < i32::MIN { i32::MIN as int } else { v + delta }
}

/// The axis step that a pair of opposite actions asks for.
pub open spec fn axis_delta(negative: bool, positive: bool, speed: int) -> int {
    (if positive { speed } else { 0 }) - (if negative { speed } else { 0 })
}

/// The player at `p` after one tick of the movement actions of `a`.
pub open spec fn moved(p: Point, a: Actions, speed: int) -> Point {
    Point {
        x: shifted(p.x as int, axis_delta(a.move_left, a.move_right, speed)) as i32,
        y: shifted(p.y as int, axis_delta(a.move_up, a.move_down, speed)) as i32,
    }
}

/// The unopened boxes of `boxes`, in order, that lie in the view of `p`.
pub open spec fn visible_in(boxes: Seq<GameBox>, p: Point) -> Seq<GameBox>
    decreases boxes.len(),
{
    if boxes.len() == 0 {
        Seq::empty()
    } else {
        let init = visible_in(boxes.drop_last(), p);
        if !boxes.last().opened && in_view(p, boxes.last().position) {
            init.push(boxes.last())
        } else {
            init
        }
    }
}

impl GameModel {
    /// Health lies in `[0, 100]`, every effect is well formed and the counter
    /// equals the number of opened boxes.
    pub open spec fn wf(self) -> bool {
        &&& valid_health(self.health)
        &&& self.opened == num_opened(self.boxes)
        &&& forall|i: int| 0 <= i < self.boxes.len() ==> (#[trigger] self.boxes[i]).effect.wf()
    }

    /// The state after the player moves by `speed` per active direction.
    pub open spec fn move_player(self, a: Actions, speed: int) -> GameModel {
        GameModel { player: moved(self.player, a, speed), ..self }
    }

    /// The state after the open action (when `open` is set): every unopened
    /// box near the player is opened and its effect applied, in box order.
    pub open spec fn open_nearest(self, open: bool) -> GameModel {
        if !open {
            self
        } else {
            GameModel {
                health: health_after_opening(self.health, self.boxes, self.player),
                opened: num_opened(self.boxes.map_values(|b: GameBox| opened_by(b, self.player))),
                player: self.player,
                boxes: self.boxes.map_values(|b: GameBox| opened_by(b, self.player)),
            }
        }
    }

    /// The state after one tick of input: movement first, then opening.
    pub open spec fn handle_input(self, a: Actions) -> GameModel {
        self.move_player(a, PLAYER_SPEED as int).open_nearest(a.open)
    }
}

/// Updating one box changes the count of opened boxes by the change of that
/// box's flag.
proof fn lemma_num_opened_update(s: Seq<GameBox>, i: int, b: GameBox)
    requires
        0 <= i < s.len(),
    ensures
        num_opened(s.update(i, b)) == num_opened(s) - (if s[i].opened { 1int } else { 0 })
            + (if b.opened { 1int } else { 0 }),
    decreases s.len(),
{
    let t = s.update(i, b);
    if i == s.len() - 1 {
        assert(t.drop_last() =~= s.drop_last());
    } else {
        assert(t.drop_last() =~= s.drop_last().update(i, b));
        lemma_num_opened_update(s.drop_last(), i, b);
    }
}

/// The count of opened boxes lies between zero and the number of boxes.
proof fn lemma_num_opened_bounds(s: Seq<GameBox>)
    ensures
        0 <= num_opened(s) <= s.len(),
    decreases s.len(),
{
    if s.len() > 0 {
        lemma_num_opened_bounds(s.drop_last());
    }
}

/// Where every box opened in `s` is opened in `t` too, `t` counts at least as
/// many opened boxes.
proof fn lemma_num_opened_monotonic(s: Seq<GameBox>, t: Seq<GameBox>)
    requires
        s.len() == t.len(),
        forall|i: int| 0 <= i < s.len() && (#[trigger] s[i]).opened ==> t[i].opened,
    ensures
        num_opened(s) <= num_opened(t),
    decreases s.len(),
{
    if s.len() > 0 {
        lemma_num_opened_monotonic(s.drop_last(), t.drop_last());
        assert(s.last() == s[s.len() - 1]);
    }
}

/// Where no box of `boxes` is opened by `p`, opening leaves health as it is.
proof fn lemma_nothing_to_open(h: int, boxes: Seq<GameBox>, p: Point)
    requires
        forall|i: int| 0 <= i < boxes.len() ==> !opens(#[trigger] boxes[i], p),
    ensures
        health_after_opening(h, boxes, p) == h,
    decreases boxes.len(),
{
    if boxes.len() > 0 {
        lemma_nothing_to_open(h, boxes.drop_last(), p);
        assert(boxes.last() == boxes[boxes.len() - 1]);
    }
}

/// Boxes that nobody opened yet.
proof fn lemma_none_opened(s: Seq<GameBox>)
    requires
        forall|i: int| 0 <= i < s.len() ==> !(#[trigger] s[i]).opened,
    ensures
        num_opened(s) == 0,
    decreases s.len(),
{
    if s.len() > 0 {
        lemma_none_opened(s.drop_last());
        assert(s.last() == s[s.len() - 1]);
    }
}

/// A tick of input keeps the state well formed, never lowers the count of
/// opened boxes, never lets it exceed the number of boxes, and never closes an
/// opened box.
pub proof fn lemma_open_monotonic(m: GameModel, a: Actions)
    requires
        m.wf(),
    ensures
        m.handle_input(a).wf(),
        m.handle_input(a).boxes.len() == m.boxes.len(),
        m.opened <= m.handle_input(a).opened <= m.boxes.len(),
        forall|i: int| 0 <= i < m.boxes.len() && (#[trigger] m.boxes[i]).opened ==> m.handle_input(a).boxes[i].opened,
{
    let moved = m.move_player(a, PLAYER_SPEED as int);
    lemma_open_preserves_wf(moved, a.open);
    let r = moved.open_nearest(a.open);
    lemma_num_opened_monotonic(m.boxes, r.boxes);
    lemma_num_opened_bounds(r.boxes);
}

/// Opening keeps the state well formed.
proof fn lemma_open_preserves_wf(m: GameModel, open: bool)
    requires
        m.wf(),
    ensures
        m.open_nearest(open).wf(),
        m.open_nearest(open).boxes.len() == m.boxes.len(),
        forall|i: int| 0 <= i < m.boxes.len() && (#[trigger] m.boxes[i]).opened ==> m.open_nearest(open).boxes[i].opened,
{
    if open {
        lemma_opening_health(m.health, m.boxes, m.player);
    }
}

/// Opening from a valid health with well-formed effects gives a valid health.
proof fn lemma_opening_health(h: int, boxes: Seq<GameBox>, p: Point)
    requires
        valid_health(h),
        forall|i: int| 0 <= i < boxes.len() ==> (#[trigger] boxes[i]).effect.wf(),
    ensures
        valid_health(health_after_opening(h, boxes, p)),
    decreases boxes.len(),
{
    if boxes.len() > 0 {
        lemma_opening_health(h, boxes.drop_last(), p);
        assert(boxes.last() == boxes[boxes.len() - 1]);
    }
}

/// With the player standing still, opening a second time changes nothing:
/// every box near the player is already open.
pub proof fn lemma_open_idempotent(m: GameModel, open: bool)
    requires
        m.wf(),
    ensures
        m.open_nearest(open).open_nearest(open) == m.open_nearest(open),
{
    if open {
        let r = m.open_nearest(open);
        assert forall|i: int| 0 <= i < r.boxes.len() implies !opens(#[trigger] r.boxes[i], r.player) by {}
        lemma_nothing_to_open(r.health, r.boxes, r.player);
        let again = r.boxes.map_values(|b: GameBox| opened_by(b, r.player));
        assert(again =~= r.boxes);
    }
}

/// `v` held within the range of `i32`.
fn saturate(v: i64) -> (r: i32)
    ensures
        r == shifted(v as int, 0),
{
    if v > i32::MAX as i64 {
        i32::MAX
    } else if v < i32::MIN as i64 {
        i32::MIN
    } else {
        v as i32
    }
}

/// Applies one tick of input: the player moves by `PLAYER_SPEED`, then opens
/// what is near when the open action is active.
pub fn handle_input(game_state: &mut GameState, actions: &Actions)
    requires
        old(game_state).wf(),
    ensures
        final(game_state)@ == old(game_state)@.handle_input(*actions),
        final(game_state).wf(),
{
    game_state.move_player(actions, PLAYER_SPEED);
    game_state.try_open_nearest(actions.open);
}

impl Default for GameState {
    /// A fresh game (see `GameState::new`).
    fn default() -> (r: GameState)
        ensures
            r.is_fresh(),
    {
        GameState::new()
    }
}

impl GameState {
    /// The state satisfies the invariant of its model.
    pub open spec fn wf(&self) -> bool {
        self@.wf()
    }

    /// A fresh game (see `is_fresh`) drawn from `rng`.
    pub fn from_rng(rng: &mut rand::rngs::StdRng) -> (r: GameState)
        ensures
            r.is_fresh(),
    {
        let positions = place_boxes(rng);
        let mut boxes: Vec<GameBox> = Vec::new();
        let mut i: usize = 0;
        while i < positions.len()
            invariant
                positions.len() == BOX_COUNT,
                i <= positions.len(),
                boxes.len() == i,
                forall|j: int| 0 <= j < i ==> {
                    &&& (#[trigger] boxes@[j]).position == positions@[j]
                    &&& !boxes@[j].opened
                    &&& boxes@[j].effect.wf()
                    &&& boxes@[j].effect != BoxEffect::NoEffect
                },
            decreases positions.len() - i,
        {
            let effect = random_effect(rng);
            boxes.push(GameBox { position: positions[i], effect, opened: false });
            i = i + 1;
        }
        proof {
            lemma_none_opened(boxes@);
        }
        let r = GameState {
            player_health: MAX_HEALTH,
            opened_boxes: 0,
            player_position: Point { x: START_X, y: START_Y },
            boxes,
        };
        assert(r.box_positions() =~= positions@);
        r
    }

    /// A fresh game (see `is_fresh`) from a generator seeded by the operating
    /// system.
    pub fn new() -> (r: GameState)
        ensures
            r.is_fresh(),
    {
        let mut rng = entropy_rng();
        GameState::from_rng(&mut rng)
    }

    /// A fresh game (see `is_fresh`) whose boxes depend on `seed` alone.
    pub fn from_seed(seed: u64) -> (r: GameState)
        ensures
            r.is_fresh(),
    {
        let mut rng = seeded_rng(seed);
        GameState::from_rng(&mut rng)
    }

    /// Moves the player by `speed` along each axis with an active direction
    /// (opposite directions cancel); coordinates saturate at the limits of
    /// `i32` and are otherwise unbounded.
    pub fn move_player(&mut self, actions: &Actions, speed: i32)
        ensures
            final(self)@ == old(self)@.move_player(*actions, speed as int),
    {
        let s = speed as i64;
        let dx: i64 = (if actions.move_right { s } else { 0 }) - (if actions.move_left { s } else { 0 });
        let dy: i64 = (if actions.move_down { s } else { 0 }) - (if actions.move_up { s } else { 0 });
        self.player_position = Point {
            x: saturate(self.player_position.x as i64 + dx),
            y: saturate(self.player_position.y as i64 + dy),
        };
    }

    /// When `open` is set, opens every unopened box near the player, in box
    /// order: its effect is applied to health, it is marked opened and the
    /// counter grows by one. Nothing changes when `open` is not set.
    pub fn try_open_nearest(&mut self, open: bool)
        requires
            old(self).wf(),
        ensures
            final(self)@ == old(self)@.open_nearest(open),
            final(self).wf(),
    {
        proof {
            lemma_open_preserves_wf(self@, open);
        }
        if !open {
            return;
        }
        let ghost start = self@;
        let ghost p = self.player_position;
        let mut i: usize = 0;
        while i < self.boxes.len()
            invariant
                self.boxes.len() == start.boxes.len(),
                i <= self.boxes.len(),
                self.player_position == p,
                p == start.player,
                start.wf(),
                self.player_health as int == health_after_opening(start.health, start.boxes.subrange(0, i as int), p),
                valid_health(self.player_health as int),
                self.opened_boxes as int == num_opened(self.boxes@),
                forall|j: int| 0 <= j < i ==> #[trigger] self.boxes@[j] == opened_by(start.boxes[j], p),
                forall|j: int| i <= j < self.boxes.len() ==> #[trigger] self.boxes@[j] == start.boxes[j],
            decreases self.boxes.len() - i,
        {
            let b = self.boxes[i];
            proof {
                assert(start.boxes.subrange(0, i + 1).drop_last() =~= start.boxes.subrange(0, i as int));
                assert(b.effect.wf());
            }
            if player_near_box(&self.player_position, &b.position) && !b.opened {
                self.player_health = b.effect.apply(self.player_health);
                proof {
                    lemma_num_opened_update(self.boxes@, i as int, GameBox { opened: true, ..b });
                    lemma_num_opened_bounds(self.boxes@.update(i as int, GameBox { opened: true, ..b }));
                }
                self.opened_boxes = self.opened_boxes + 1;
                self.boxes.set(i, GameBox { opened: true, ..b });
            }
            i = i + 1;
        }
        proof {
            assert(start.boxes.subrange(0, start.boxes.len() as int) =~= start.boxes);
            assert(self.boxes@ =~= start.boxes.map_values(|b: GameBox| opened_by(b, p)));
        }
    }

    /// The unopened boxes, in order, whose square meets the 200x200 field of
    /// view centred on the player.
    pub fn visible_boxes(&self) -> (r: Vec<GameBox>)
        ensures
            r@ == visible_in(self.boxes@, self.player_position),
    {
        let mut r: Vec<GameBox> = Vec::new();
        let mut i: usize = 0;
        while i < self.boxes.len()
            invariant
                i <= self.boxes.len(),
                r@ == visible_in(self.boxes@.subrange(0, i as int), self.player_position),
            decreases self.boxes.len() - i,
        {
            let b = self.boxes[i];
            proof {
                assert(self.boxes@.subrange(0, i + 1).drop_last() =~= self.boxes@.subrange(0, i as int));
            }
            if !b.opened && in_field_of_view(&self.player_position, &b.position) {
                r.push(b);
            }
            i = i + 1;
        }
        proof {
            assert(self.boxes@.subrange(0, self.boxes.len() as int) =~= self.boxes@);
        }
        r
    }

    /// Filled width of the 200-unit health bar: `health / 100 * 200`.
    pub fn health_bar_width(&self) -> (r: i32)
        requires
            self.wf(),
        ensures
            r == 2 * self.player_health,
    {
        2 * self.player_health
    }

    /// A game as it starts: well formed, full health, the player at its start,
    /// `BOX_COUNT` unopened boxes inside the field, no two overlapping, each
    /// with a cure or an injury.
    pub open spec fn is_fresh(&self) -> bool {
        &&& self.wf()
        &&& self.player_health == MAX_HEALTH
        &&& self.opened_boxes == 0
        &&& self.player_position == (Point { x: START_X, y: START_Y })
        &&& self.boxes.len() == BOX_COUNT
        &&& all_in_field(self.box_positions())
        &&& pairwise_apart(self.box_positions())
        &&& forall|i: int| 0 <= i < self.boxes.len() ==> {
            &&& !(#[trigger] self.boxes[i]).opened
            &&& self.boxes[i].effect != BoxEffect::NoEffect
        }
    }

    /// The anchors of the boxes, in order.
    pub open spec fn box_positions(&self) -> Seq<Point> {
        self.boxes@.map_values(|b: GameBox| b.position)
    }
}

} // verus!
