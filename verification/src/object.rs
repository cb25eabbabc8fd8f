use vstd::prelude::*;
use vstd::arithmetic::div_mod::{lemma_div_nonincreasing, lemma_div_pos_is_pos};
use crate::game_constants::{
    CIRCLE_SIZE, DIR_LIMIT, FIELD_HEIGHT, FIELD_WIDTH, POS_LIMIT, SCALE_LIMIT, SQUARE_SIZE,
};

verus! {

/// Ownership tag of an entity: every cell and token belongs to exactly one of
/// the two teams, Moon or Sun.
#[derive(Clone, Copy, PartialEq, Eq, Structural, Debug)]
pub enum Team {
    MOON,
    SUN,
}

/// Which shape an entity has: circles are the moving tokens, squares are the
/// static grid cells that get captured.
#[derive(Clone, Copy, PartialEq, Eq, Structural, Debug)]
pub enum ObjectKind {
    Circle,
    Square,
}

/// A plane vector with whole-unit components, used for token directions.
#[derive(Clone, Copy, PartialEq, Eq, Structural, Debug)]
pub struct Vec2 {
    pub x: i64,
    pub y: i64,
}

/// One entity of the game: a moving circular token or a static square cell.
/// All geometry is kept in whole field units.
#[derive(Clone, Copy, PartialEq, Eq, Debug)]
pub struct Object {
    pub position: (i64, i64),
    pub team: Team,
    pub kind: ObjectKind,
    pub direction: Vec2,
    pub scale: i64,
}

/// The opposing team.
pub open spec fn spec_opposite(t: Team) -> Team {
    match t {
        Team::MOON => Team::SUN,
        Team::SUN => Team::MOON,
    }
}

impl Team {
    /// Every team value is one of the two variants: no third state exists.
    pub proof fn lemma_two_states(t: Team)
        ensures
            t == Team::MOON || t == Team::SUN,
    {
    }

    /// Flipping a team twice returns the original owner: a cell captured
    /// once by each side in turn ends where it began.
    pub proof fn lemma_toggle_round_trip(t: Team)
        ensures
            spec_opposite(spec_opposite(t)) == t,
    {
    }
}

/// Truncating integer division (rounds toward zero), the convention the
/// machine division operator follows.
pub open spec fn div_trunc(a: int, b: int) -> int
    recommends
        b > 0,
{
    if a >= 0 {
        a / b
    } else {
        -((-a) / b)
    }
}

/// A truncating quotient never exceeds the dividend in magnitude.
pub proof fn lemma_div_trunc_magnitude(a: int, b: int)
    requires
        b >= 1,
    ensures
        a >= 0 ==> 0 <= div_trunc(a, b) <= a,
        a < 0 ==> a <= div_trunc(a, b) <= 0,
{
    if a >= 0 {
        lemma_div_pos_is_pos(a, b);
        lemma_div_nonincreasing(a, b);
    } else {
        lemma_div_pos_is_pos(-a, b);
        lemma_div_nonincreasing(-a, b);
    }
}

/// Clamps a direction component into the well-formed speed band.
pub open spec fn spec_clamp_dir(v: int) -> int {
    if v > DIR_LIMIT {
        DIR_LIMIT as int
    } else if v < -DIR_LIMIT {
        -DIR_LIMIT as int
    } else {
        v
    }
}

/// The x coordinate of the closest point of a square to a circle center:
/// the center's x clamped to the square's full horizontal extent, whose
/// anchor is the square's left edge.
pub open spec fn spec_closest_x(circle_x: int, square_x: int) -> int {
    if circle_x < square_x {
        square_x
    } else if circle_x > square_x + SQUARE_SIZE {
        square_x + SQUARE_SIZE
    } else {
        circle_x
    }
}

/// The y coordinate of the closest point of a square to a circle center:
/// the center's y clamped to half a side around the square's anchor, which
/// is treated as a vertical center on this axis.  The anchor is thus read
/// as a left edge horizontally but as a center vertically; the asymmetry
/// is kept deliberately, as the capture behavior of the game depends on it.
pub open spec fn spec_closest_y(circle_y: int, square_y: int) -> int {
    let lo = square_y - SQUARE_SIZE / 2;
    let hi = square_y + SQUARE_SIZE / 2;
    if circle_y < lo {
        lo
    } else if circle_y > hi {
        hi
    } else {
        circle_y
    }
}

/// Whether a circle at `circle`'s position overlaps the square anchored at
/// `square`'s position: the squared distance from the circle center to the
/// closest point of the square is strictly below the squared radius, so
/// tangential contact does not count.
pub open spec fn spec_circle_intersects_square(circle: Object, square: Object) -> bool {
    let dx = circle.position.0 - spec_closest_x(circle.position.0 as int, square.position.0 as int);
    let dy = circle.position.1 - spec_closest_y(circle.position.1 as int, square.position.1 as int);
    dx * dx + dy * dy < CIRCLE_SIZE * CIRCLE_SIZE
}

/// Intersection test dispatched on the receiver's kind: a circle tests
/// itself against the other as a square, a square lets the other test as
/// the circle.
pub open spec fn spec_intersects(a: Object, b: Object) -> bool {
    match a.kind {
        ObjectKind::Circle => spec_circle_intersects_square(a, b),
        ObjectKind::Square => spec_circle_intersects_square(b, a),
    }
}

/// The vector from `a` to `b` with both positions premultiplied by their
/// render scale: the reflection normal is computed in screen space.
pub open spec fn spec_scaled_delta(a: Object, b: Object) -> (int, int) {
    (
        b.position.0 * b.scale - a.position.0 * a.scale,
        b.position.1 * b.scale - a.position.1 * a.scale,
    )
}

/// One component of the direction reflected across the (unnormalized)
/// normal `w`: the exact reflection formula `d - 2(d.w)w / (w.w)` with a
/// truncating division, clamped into the speed band.
pub open spec fn spec_reflect_component(d_i: int, dot: int, w_i: int, ww: int) -> int {
    spec_clamp_dir(d_i - div_trunc(2 * dot * w_i, ww))
}

/// The direction after reflecting `d` across the normal `w`.  A zero
/// normal (coincident scaled positions) has no direction to reflect
/// across, so the direction is left unchanged in that degenerate case.
pub open spec fn spec_reflect(d: Vec2, w: (int, int)) -> Vec2 {
    if w.0 == 0 && w.1 == 0 {
        d
    } else {
        let dot = d.x * w.0 + d.y * w.1;
        let ww = w.0 * w.0 + w.1 * w.1;
        Vec2 {
            x: spec_reflect_component(d.x as int, dot, w.0, ww) as i64,
            y: spec_reflect_component(d.y as int, dot, w.1, ww) as i64,
        }
    }
}

/// The pair (token, cell) after one capture attempt: if the two intersect
/// and share a team, the token's direction is reflected off the cell and
/// the cell changes sides; otherwise both are untouched.
pub open spec fn spec_collide(token: Object, cell: Object) -> (Object, Object) {
    if spec_intersects(token, cell) && token.team == cell.team {
        let token2 = Object {
            direction: spec_reflect(token.direction, spec_scaled_delta(token, cell)),
            ..token
        };
        let cell2 = Object { team: spec_opposite(cell.team), ..cell };
        (token2, cell2)
    } else {
        (token, cell)
    }
}

/// Position advanced by one tick of movement: direction times speed scale.
pub open spec fn spec_advance(o: Object) -> Object {
    Object {
        position: (
            (o.position.0 + o.direction.x * o.scale) as i64,
            (o.position.1 + o.direction.y * o.scale) as i64,
        ),
        ..o
    }
}

/// One axis of boundary handling: if the leading edge (center plus or
/// minus the circle radius) has reached either wall, the direction
/// component is negated and the position nudged once by the new value.
pub open spec fn spec_bounce_axis(x: int, dx: int, b: int, size: int) -> (int, int) {
    if x - CIRCLE_SIZE <= b || x + CIRCLE_SIZE >= b + size {
        (x + -dx, -dx)
    } else {
        (x, dx)
    }
}

/// The object after boundary handling on both axes independently.
pub open spec fn spec_bounce(o: Object, bounds: (i64, i64)) -> Object {
    let rx = spec_bounce_axis(
        o.position.0 as int,
        o.direction.x as int,
        bounds.0 as int,
        FIELD_WIDTH as int,
    );
    let ry = spec_bounce_axis(
        o.position.1 as int,
        o.direction.y as int,
        bounds.1 as int,
        FIELD_HEIGHT as int,
    );
    Object {
        position: (rx.0 as i64, ry.0 as i64),
        direction: (Vec2 { x: rx.1 as i64, y: ry.1 as i64 }),
        ..o
    }
}

/// Magnitude bounds under which every product and sum of the collision
/// arithmetic stays inside the machine integers used.
pub open spec fn collision_ready(o: Object) -> bool {
    &&& -4 * POS_LIMIT <= o.position.0 <= 4 * POS_LIMIT
    &&& -4 * POS_LIMIT <= o.position.1 <= 4 * POS_LIMIT
    &&& -DIR_LIMIT <= o.direction.x <= DIR_LIMIT
    &&& -DIR_LIMIT <= o.direction.y <= DIR_LIMIT
    &&& 1 <= o.scale <= SCALE_LIMIT
}

/// A well-formed entity: coordinates inside the field's coordinate range,
/// direction inside the speed band, a positive bounded scale.
pub open spec fn wf_object(o: Object) -> bool {
    &&& -POS_LIMIT <= o.position.0 <= POS_LIMIT
    &&& -POS_LIMIT <= o.position.1 <= POS_LIMIT
    &&& -DIR_LIMIT <= o.direction.x <= DIR_LIMIT
    &&& -DIR_LIMIT <= o.direction.y <= DIR_LIMIT
    &&& 1 <= o.scale <= SCALE_LIMIT
}

impl Object {
    /// Advances the position by one tick: each axis moves by the direction
    /// component times the speed scale.
    pub fn update_position(&mut self)
        requires
            collision_ready(*old(self)),
        ensures
            *final(self) == spec_advance(*old(self)),
            (-POS_LIMIT <= old(self).position.0 <= POS_LIMIT) ==> -2 * POS_LIMIT <= final(self).position.0 <= 2 * POS_LIMIT,
            (-POS_LIMIT <= old(self).position.1 <= POS_LIMIT) ==> -2 * POS_LIMIT <= final(self).position.1 <= 2 * POS_LIMIT,
    {
        proof {
            let mx = self.direction.x as int;
            let my = self.direction.y as int;
            let ms = self.scale as int;
            assert(mx * ms <= DIR_LIMIT * SCALE_LIMIT && mx * ms >= -DIR_LIMIT * SCALE_LIMIT)
                by (nonlinear_arith)
                requires
                    -DIR_LIMIT <= mx <= DIR_LIMIT,
                    1 <= ms <= SCALE_LIMIT,
            ;
            assert(my * ms <= DIR_LIMIT * SCALE_LIMIT && my * ms >= -DIR_LIMIT * SCALE_LIMIT)
                by (nonlinear_arith)
                requires
                    -DIR_LIMIT <= my <= DIR_LIMIT,
                    1 <= ms <= SCALE_LIMIT,
            ;
        }
        self.position.0 = self.position.0 + self.direction.x * self.scale;
        self.position.1 = self.position.1 + self.direction.y * self.scale;
    }

    /// Hands the entity to the opposing team.
    pub fn toggle_team(&mut self)
        ensures
            final(self).team == spec_opposite(old(self).team),
            final(self).position == old(self).position,
            final(self).kind == old(self).kind,
            final(self).direction == old(self).direction,
            final(self).scale == old(self).scale,
    {
        self.team = match self.team {
            Team::MOON => Team::SUN,
            Team::SUN => Team::MOON,
        };
    }

    /// Whether this entity and `other` overlap, reading the receiver's
    /// kind to decide which one is the circle.
    pub fn intersects(&self, other: &Object) -> (r: bool)
        requires
            collision_ready(*self),
            collision_ready(*other),
        ensures
            r == spec_intersects(*self, *other),
    {
        match self.kind {
            ObjectKind::Circle => self.circle_intersects_square(other),
            ObjectKind::Square => other.circle_intersects_square(self),
        }
    }

    /// The strict squared-distance intersection test between this circle
    /// and `square`, clamping per axis to find the closest point.
    pub fn circle_intersects_square(&self, square: &Object) -> (r: bool)
        requires
            -4 * POS_LIMIT <= self.position.0 <= 4 * POS_LIMIT,
            -4 * POS_LIMIT <= self.position.1 <= 4 * POS_LIMIT,
            -4 * POS_LIMIT <= square.position.0 <= 4 * POS_LIMIT,
            -4 * POS_LIMIT <= square.position.1 <= 4 * POS_LIMIT,
        ensures
            r == spec_circle_intersects_square(*self, *square),
    {
        let circle_x = self.position.0;
        let circle_y = self.position.1;
        let square_x = square.position.0;
        let square_y = square.position.1;
        let half_size = SQUARE_SIZE / 2;

        let closest_x = if circle_x < square_x {
            square_x
        } else if circle_x > square_x + SQUARE_SIZE {
            square_x + SQUARE_SIZE
        } else {
            circle_x
        };

        let lo = square_y - half_size;
        let hi = square_y + half_size;
        let closest_y = if circle_y < lo {
            lo
        } else if circle_y > hi {
            hi
        } else {
            circle_y
        };

        let dx = circle_x - closest_x;
        let dy = circle_y - closest_y;

        proof {
            assert((dx as i128) * (dx as i128) <= 81_000_000_000_000_000_000i128 && (dx as i128) * (
            dx as i128) >= 0) by (nonlinear_arith)
                requires
                    -9_000_000_000 <= dx as i128 <= 9_000_000_000,
            ;
            assert((dy as i128) * (dy as i128) <= 81_000_000_000_000_000_000i128 && (dy as i128) * (
            dy as i128) >= 0) by (nonlinear_arith)
                requires
                    -9_000_000_000 <= dy as i128 <= 9_000_000_000,
            ;
        }
        let distance_squared = (dx as i128) * (dx as i128) + (dy as i128) * (dy as i128);
        proof {
            assert(CIRCLE_SIZE == 25);
            assert((CIRCLE_SIZE as i128) * (CIRCLE_SIZE as i128) == 625) by (nonlinear_arith)
                requires
                    CIRCLE_SIZE as i128 == 25,
            ;
        }
        let radius_squared = (CIRCLE_SIZE as i128) * (CIRCLE_SIZE as i128);
        let is_intersecting = distance_squared < radius_squared;

        is_intersecting
    }

    /// One capture attempt of this token against `other`, a cell: on a
    /// same-team overlap the token's direction reflects off the cell's
    /// scaled position and the cell flips to the opposing team; any other
    /// pairing leaves both entities exactly as they were.
    pub fn handle_collision(&mut self, other: &mut Object)
        requires
            collision_ready(*old(self)),
            collision_ready(*old(other)),
        ensures
            (*final(self), *final(other)) == spec_collide(*old(self), *old(other)),
            collision_ready(*final(self)),
            collision_ready(*final(other)),
            final(other).position == old(other).position,
            final(other).kind == old(other).kind,
            final(other).direction == old(other).direction,
            final(other).scale == old(other).scale,
            final(self).position == old(self).position,
            final(self).team == old(self).team,
            final(self).kind == old(self).kind,
            final(self).scale == old(self).scale,
            old(self).team != old(other).team ==> *final(self) == *old(self) && *final(other) == *old(other),
    {
        let is_intersecting = self.intersects(other);
        if is_intersecting && self.team == other.team {
            proof {
                assert(other.position.0 as i128 * other.scale as i128 <= 4_000_000_000_000i128
                    && other.position.0 as i128 * other.scale as i128 >= -4_000_000_000_000i128)
                    by (nonlinear_arith)
                    requires
                        -4_000_000_000 <= other.position.0 as i128 <= 4_000_000_000,
                        1 <= other.scale as i128 <= 1_000,
                ;
                assert(other.position.1 as i128 * other.scale as i128 <= 4_000_000_000_000i128
                    && other.position.1 as i128 * other.scale as i128 >= -4_000_000_000_000i128)
                    by (nonlinear_arith)
                    requires
                        -4_000_000_000 <= other.position.1 as i128 <= 4_000_000_000,
                        1 <= other.scale as i128 <= 1_000,
                ;
                assert(self.position.0 as i128 * self.scale as i128 <= 4_000_000_000_000i128
                    && self.position.0 as i128 * self.scale as i128 >= -4_000_000_000_000i128)
                    by (nonlinear_arith)
                    requires
                        -4_000_000_000 <= self.position.0 as i128 <= 4_000_000_000,
                        1 <= self.scale as i128 <= 1_000,
                ;
                assert(self.position.1 as i128 * self.scale as i128 <= 4_000_000_000_000i128
                    && self.position.1 as i128 * self.scale as i128 >= -4_000_000_000_000i128)
                    by (nonlinear_arith)
                    requires
                        -4_000_000_000 <= self.position.1 as i128 <= 4_000_000_000,
                        1 <= self.scale as i128 <= 1_000,
                ;
            }
            let wx: i128 = other.position.0 as i128 * other.scale as i128 - self.position.0 as i128
                * self.scale as i128;
            let wy: i128 = other.position.1 as i128 * other.scale as i128 - self.position.1 as i128
                * self.scale as i128;
            if !(wx == 0 && wy == 0) {
                let dx: i128 = self.direction.x as i128;
                let dy: i128 = self.direction.y as i128;
                proof {
                    assert(dx * wx <= 8_000_000_000_000_000_000i128 && dx * wx
                        >= -8_000_000_000_000_000_000i128) by (nonlinear_arith)
                        requires
                            -1_000_000 <= dx <= 1_000_000,
                            -8_000_000_000_000 <= wx <= 8_000_000_000_000,
                    ;
                    assert(dy * wy <= 8_000_000_000_000_000_000i128 && dy * wy
                        >= -8_000_000_000_000_000_000i128) by (nonlinear_arith)
                        requires
                            -1_000_000 <= dy <= 1_000_000,
                            -8_000_000_000_000 <= wy <= 8_000_000_000_000,
                    ;
                    assert(wx * wx <= 64_000_000_000_000_000_000_000_000i128 && wx * wx >= 0 && (wx
                        != 0 ==> wx * wx >= 1)) by (nonlinear_arith)
                        requires
                            -8_000_000_000_000 <= wx <= 8_000_000_000_000,
                    ;
                    assert(wy * wy <= 64_000_000_000_000_000_000_000_000i128 && wy * wy >= 0 && (wy
                        != 0 ==> wy * wy >= 1)) by (nonlinear_arith)
                        requires
                            -8_000_000_000_000 <= wy <= 8_000_000_000_000,
                    ;
                }
                let dot: i128 = dx * wx + dy * wy;
                let ww: i128 = wx * wx + wy * wy;
                proof {
                    assert(2 * dot * wx <= 300_000_000_000_000_000_000_000_000_000_000i128 && 2
                        * dot * wx >= -300_000_000_000_000_000_000_000_000_000_000i128)
                        by (nonlinear_arith)
                        requires
                            -16_000_000_000_000_000_000 <= dot <= 16_000_000_000_000_000_000,
                            -8_000_000_000_000 <= wx <= 8_000_000_000_000,
                    ;
                    assert(2 * dot * wy <= 300_000_000_000_000_000_000_000_000_000_000i128 && 2
                        * dot * wy >= -300_000_000_000_000_000_000_000_000_000_000i128)
                        by (nonlinear_arith)
                        requires
                            -16_000_000_000_000_000_000 <= dot <= 16_000_000_000_000_000_000,
                            -8_000_000_000_000 <= wy <= 8_000_000_000_000,
                    ;
                }
                let qx: i128 = 2 * dot * wx / ww;
                let qy: i128 = 2 * dot * wy / ww;
                proof {
                    lemma_div_trunc_magnitude(2 * dot * wx, ww as int);
                    lemma_div_trunc_magnitude(2 * dot * wy, ww as int);
                }
                let rx: i128 = dx - qx;
                let ry: i128 = dy - qy;
                self.direction.x = clamp_direction(rx);
                self.direction.y = clamp_direction(ry);
            }
            other.toggle_team();
        }
    }

    /// Boundary handling against the field rectangle anchored at `bounds`:
    /// on each axis independently, a leading edge at or past a wall
    /// negates that direction component and nudges the position once by
    /// the new value.
    pub fn handle_boundary_collision(&mut self, bounds: (i64, i64))
        requires
            -4 * POS_LIMIT <= old(self).position.0 <= 4 * POS_LIMIT,
            -4 * POS_LIMIT <= old(self).position.1 <= 4 * POS_LIMIT,
            -DIR_LIMIT <= old(self).direction.x <= DIR_LIMIT,
            -DIR_LIMIT <= old(self).direction.y <= DIR_LIMIT,
            -POS_LIMIT <= bounds.0 <= POS_LIMIT,
            -POS_LIMIT <= bounds.1 <= POS_LIMIT,
        ensures
            *final(self) == spec_bounce(*old(self), bounds),
            (-2 * POS_LIMIT <= old(self).position.0 <= 2 * POS_LIMIT) ==> -4 * POS_LIMIT <= final(self).position.0 <= 4 * POS_LIMIT,
            (-2 * POS_LIMIT <= old(self).position.1 <= 2 * POS_LIMIT) ==> -4 * POS_LIMIT <= final(self).position.1 <= 4 * POS_LIMIT,
            -DIR_LIMIT <= final(self).direction.x <= DIR_LIMIT,
            -DIR_LIMIT <= final(self).direction.y <= DIR_LIMIT,
            final(self).team == old(self).team,
            final(self).kind == old(self).kind,
            final(self).scale == old(self).scale,
    {
        let mut x = self.position.0;
        let mut y = self.position.1;

        if x - CIRCLE_SIZE <= bounds.0 || x + CIRCLE_SIZE >= bounds.0 + FIELD_WIDTH {
            self.direction.x = -self.direction.x;
            x = x + self.direction.x;
        }

        if y - CIRCLE_SIZE <= bounds.1 || y + CIRCLE_SIZE >= bounds.1 + FIELD_HEIGHT {
            self.direction.y = -self.direction.y;
            y = y + self.direction.y;
        }

        self.position.0 = x;
        self.position.1 = y;
    }
}

/// Clamps a machine-integer direction value into the speed band.
fn clamp_direction(v: i128) -> (r: i64)
    ensures
        r == spec_clamp_dir(v as int),
{
    if v > DIR_LIMIT as i128 {
        DIR_LIMIT
    } else if v < -(DIR_LIMIT as i128) {
        -DIR_LIMIT
    } else {
        v as i64
    }
}

/// A capture hands the cell to the team opposite its capturer, and two
/// captures in immediate succession (one token of each team in turn over
/// the same cell) are a round trip: the cell ends with its original
/// owner, since flipping twice reverts.
pub proof fn lemma_double_capture(first: Object, second: Object, cell: Object)
    requires
        spec_intersects(first, cell),
        first.team == cell.team,
        spec_intersects(second, spec_collide(first, cell).1),
        second.team == spec_collide(first, cell).1.team,
    ensures
        spec_collide(first, cell).1.team == spec_opposite(cell.team),
        spec_collide(second, spec_collide(first, cell).1).1.team == cell.team,
{
}

/// Boundary handling keeps a nonzero direction component nonzero: the
/// reflection negates, it never zeroes.
pub proof fn lemma_bounce_keeps_direction_nonzero(o: Object, bounds: (i64, i64))
    requires
        -DIR_LIMIT <= o.direction.x <= DIR_LIMIT,
        -DIR_LIMIT <= o.direction.y <= DIR_LIMIT,
    ensures
        o.direction.x != 0 ==> spec_bounce(o, bounds).direction.x != 0,
        o.direction.y != 0 ==> spec_bounce(o, bounds).direction.y != 0,
{
}

/// One axis of the boundary invariant: a center that starts within
/// `slack` of the in-field band ends within `slack + step` of the wall
/// interval after boundary handling, where `step` bounds the direction
/// component.  The tolerance is one tick's overshoot.
pub proof fn lemma_bounce_axis_tolerance(x: int, dx: int, b: int, size: int, step: int, slack: int)
    requires
        -step <= dx <= step,
        0 <= step <= CIRCLE_SIZE,
        0 <= slack,
        2 * CIRCLE_SIZE <= size,
        b + CIRCLE_SIZE - slack <= x <= b + size - CIRCLE_SIZE + slack,
    ensures
        b - (slack + step) <= spec_bounce_axis(x, dx, b, size).0 <= b + size + slack + step,
{
}

/// Boundary invariant: after boundary handling, a token's center lies
/// within the field rectangle widened by one tick's overshoot.  `step`
/// bounds the direction components and `slack` the overshoot the center
/// had coming in, so the tolerance on each side is `slack + step`.
pub proof fn lemma_boundary_within_tolerance(o: Object, bounds: (i64, i64), step: int, slack: int)
    requires
        -step <= o.direction.x <= step,
        -step <= o.direction.y <= step,
        0 <= step <= CIRCLE_SIZE,
        0 <= slack <= POS_LIMIT,
        -POS_LIMIT <= bounds.0 <= POS_LIMIT,
        -POS_LIMIT <= bounds.1 <= POS_LIMIT,
        bounds.0 + CIRCLE_SIZE - slack <= o.position.0 <= bounds.0 + FIELD_WIDTH - CIRCLE_SIZE
            + slack,
        bounds.1 + CIRCLE_SIZE - slack <= o.position.1 <= bounds.1 + FIELD_HEIGHT - CIRCLE_SIZE
            + slack,
    ensures
        bounds.0 - (slack + step) <= spec_bounce(o, bounds).position.0 <= bounds.0 + FIELD_WIDTH
            + slack + step,
        bounds.1 - (slack + step) <= spec_bounce(o, bounds).position.1 <= bounds.1 + FIELD_HEIGHT
            + slack + step,
{
    lemma_bounce_axis_tolerance(
        o.position.0 as int,
        o.direction.x as int,
        bounds.0 as int,
        FIELD_WIDTH as int,
        step,
        slack,
    );
    lemma_bounce_axis_tolerance(
        o.position.1 as int,
        o.direction.y as int,
        bounds.1 as int,
        FIELD_HEIGHT as int,
        step,
        slack,
    );
}

} // verus!
