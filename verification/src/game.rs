use vstd::prelude::*;
use vstd::arithmetic::div_mod::{lemma_div_nonincreasing, lemma_div_pos_is_pos};
use vstd::pervasive::VecAdditionalExecFns;
use crate::game_constants::{
    COLUMN_SIZE, FIELD_HEIGHT, FIELD_WIDTH, POS_LIMIT, ROW_SIZE, SCALE_LIMIT, SQUARE_SIZE,
    TOKEN_SPEED,
};
use crate::object::{
    collision_ready, div_trunc, spec_advance, spec_bounce, spec_collide, wf_object, Object,
    ObjectKind, Team, Vec2,
};

verus! {

/// The whole state of one session: the grid of capturable cells, the two
/// moving tokens, the field placement and the speed scale.
pub struct Game {
    pub window_width: i64,
    pub window_height: i64,
    pub scale_factor: i64,
    pub bounds: (i64, i64),
    pub squares: Vec<Object>,
    pub sun_circle: Object,
    pub moon_circle: Object,
}

/// A freshly created token: a circle of the given team at the given
/// position, moving diagonally at the token speed with the chosen sign
/// on each axis.
pub open spec fn is_initial_token(
    c: Object,
    px: int,
    py: int,
    team: Team,
    x_sign: bool,
    y_sign: bool,
    scale: int,
) -> bool {
    &&& c.position.0 == px
    &&& c.position.1 == py
    &&& c.team == team
    &&& c.kind == ObjectKind::Circle
    &&& c.direction.x == (if x_sign {
        TOKEN_SPEED as int
    } else {
        -TOKEN_SPEED as int
    })
    &&& c.direction.y == (if y_sign {
        TOKEN_SPEED as int
    } else {
        -TOKEN_SPEED as int
    })
    &&& c.scale == scale
}

/// A freshly created grid cell: the cell at index `idx` of block 0 (the
/// Moon block) or block 1 (the Sun block, one block width to the right),
/// laid out row-major from the field origin `b`.
pub open spec fn is_initial_cell(c: Object, idx: int, block: int, b: (int, int), scale: int) -> bool {
    &&& c.position.0 == b.0 + (idx % (COLUMN_SIZE as int)) * (SQUARE_SIZE as int) + block * (
        COLUMN_SIZE as int) * (SQUARE_SIZE as int)
    &&& c.position.1 == b.1 + (idx / (COLUMN_SIZE as int)) * (SQUARE_SIZE as int)
    &&& c.team == (if block == 0 {
        Team::MOON
    } else {
        Team::SUN
    })
    &&& c.kind == ObjectKind::Square
    &&& c.direction == (Vec2 { x: 0, y: 0 })
    &&& c.scale == scale
}

/// The state a new session starts in for the given window size and
/// per-axis direction signs: the speed scale is the window width in
/// field widths (rounded down), the field is centered, the two tokens
/// start at fixed window fractions, and the grid is two same-size blocks,
/// the left one all Moon, the right one all Sun.
pub open spec fn is_initial_game(
    g: Game,
    w: int,
    h: int,
    moon_x_sign: bool,
    moon_y_sign: bool,
    sun_x_sign: bool,
    sun_y_sign: bool,
) -> bool {
    let scale = w / (FIELD_WIDTH as int);
    let bx = div_trunc(w - (FIELD_WIDTH as int) * scale, 2);
    let by = div_trunc(h - (FIELD_HEIGHT as int) * scale, 2);
    &&& g.window_width == w
    &&& g.window_height == h
    &&& g.scale_factor == scale
    &&& g.bounds.0 == bx
    &&& g.bounds.1 == by
    &&& is_initial_token(
        g.moon_circle,
        w * 7 / 10,
        h * 6 / 10,
        Team::MOON,
        moon_x_sign,
        moon_y_sign,
        scale,
    )
    &&& is_initial_token(
        g.sun_circle,
        w * 35 / 100,
        h * 6 / 10,
        Team::SUN,
        sun_x_sign,
        sun_y_sign,
        scale,
    )
    &&& g.squares@.len() == 2 * (ROW_SIZE as int) * (COLUMN_SIZE as int)
    &&& forall|i: int|
        0 <= i < (ROW_SIZE as int) * (COLUMN_SIZE as int) ==> is_initial_cell(
            #[trigger] g.squares@[i],
            i,
            0,
            (bx, by),
            scale,
        )
    &&& forall|i: int|
        (ROW_SIZE as int) * (COLUMN_SIZE as int) <= i < 2 * (ROW_SIZE as int) * (
            COLUMN_SIZE as int) ==> is_initial_cell(
            #[trigger] g.squares@[i],
            i - (ROW_SIZE as int) * (COLUMN_SIZE as int),
            1,
            (bx, by),
            scale,
        )
}

/// A session state all of whose entities and bounds are inside the ranges
/// one tick of simulation needs.
pub open spec fn tick_ready(g: Game) -> bool {
    &&& wf_object(g.sun_circle)
    &&& wf_object(g.moon_circle)
    &&& forall|i: int| 0 <= i < g.squares@.len() ==> wf_object(#[trigger] g.squares@[i])
    &&& -POS_LIMIT <= g.bounds.0 <= POS_LIMIT
    &&& -POS_LIMIT <= g.bounds.1 <= POS_LIMIT
}

/// One capture sweep of both tokens over the cells, in grid order: for
/// each cell in turn the sun token makes a capture attempt and then the
/// moon token does, against the cell as the first attempt left it.  The
/// tokens carry their reflections forward from cell to cell, so one
/// sweep may reflect a token several times.
pub open spec fn spec_capture_pass(sun: Object, moon: Object, cells: Seq<Object>) -> (
    Object,
    Object,
    Seq<Object>,
)
    decreases cells.len(),
{
    if cells.len() == 0 {
        (sun, moon, cells)
    } else {
        let r0 = spec_collide(sun, cells[0]);
        let r1 = spec_collide(moon, r0.1);
        let rest = spec_capture_pass(r0.0, r1.0, cells.drop_first());
        (rest.0, rest.1, seq![r1.1] + rest.2)
    }
}

/// The whole state one tick produces: both tokens advanced and bounced
/// off the field walls, then one capture sweep over the grid.
pub open spec fn spec_tick(g: Game) -> (Object, Object, Seq<Object>) {
    let sun1 = spec_bounce(spec_advance(g.sun_circle), g.bounds);
    let moon1 = spec_bounce(spec_advance(g.moon_circle), g.bounds);
    spec_capture_pass(sun1, moon1, g.squares@)
}

/// A capture sweep never moves, reshapes or rescales a cell and never
/// adds or removes one: only team membership changes.
pub proof fn lemma_capture_pass_preserves_cells(sun: Object, moon: Object, cells: Seq<Object>)
    ensures
        spec_capture_pass(sun, moon, cells).2.len() == cells.len(),
        forall|i: int|
            0 <= i < cells.len() ==> (#[trigger] spec_capture_pass(sun, moon, cells).2[i]).position
                == cells[i].position,
        forall|i: int|
            0 <= i < cells.len() ==> (#[trigger] spec_capture_pass(sun, moon, cells).2[i]).kind
                == cells[i].kind,
        forall|i: int|
            0 <= i < cells.len() ==> (#[trigger] spec_capture_pass(sun, moon, cells).2[i]).scale
                == cells[i].scale,
        forall|i: int|
            0 <= i < cells.len() ==> (#[trigger] spec_capture_pass(sun, moon, cells).2[i]).direction
                == cells[i].direction,
    decreases cells.len(),
{
    if cells.len() > 0 {
        let r0 = spec_collide(sun, cells[0]);
        let r1 = spec_collide(moon, r0.1);
        lemma_capture_pass_preserves_cells(r0.0, r1.0, cells.drop_first());
    }
}

/// A capture sweep changes a token's direction at most: its position,
/// team, kind and scale come out as they went in.
pub proof fn lemma_capture_pass_preserves_tokens(sun: Object, moon: Object, cells: Seq<Object>)
    ensures
        spec_capture_pass(sun, moon, cells).0.position == sun.position,
        spec_capture_pass(sun, moon, cells).0.team == sun.team,
        spec_capture_pass(sun, moon, cells).0.kind == sun.kind,
        spec_capture_pass(sun, moon, cells).0.scale == sun.scale,
        spec_capture_pass(sun, moon, cells).1.position == moon.position,
        spec_capture_pass(sun, moon, cells).1.team == moon.team,
        spec_capture_pass(sun, moon, cells).1.kind == moon.kind,
        spec_capture_pass(sun, moon, cells).1.scale == moon.scale,
    decreases cells.len(),
{
    if cells.len() > 0 {
        let r0 = spec_collide(sun, cells[0]);
        let r1 = spec_collide(moon, r0.1);
        lemma_capture_pass_preserves_tokens(r0.0, r1.0, cells.drop_first());
    }
}

/// The grid invariant over a whole tick: the set of cells is fixed in
/// size and position for the session; a tick changes team ownership at
/// most.
pub proof fn lemma_tick_preserves_grid(g: Game)
    ensures
        spec_tick(g).2.len() == g.squares@.len(),
        forall|i: int|
            0 <= i < g.squares@.len() ==> (#[trigger] spec_tick(g).2[i]).position
                == g.squares@[i].position,
        forall|i: int|
            0 <= i < g.squares@.len() ==> (#[trigger] spec_tick(g).2[i]).kind
                == g.squares@[i].kind,
        forall|i: int|
            0 <= i < g.squares@.len() ==> (#[trigger] spec_tick(g).2[i]).scale
                == g.squares@[i].scale,
{
    let sun1 = spec_bounce(spec_advance(g.sun_circle), g.bounds);
    let moon1 = spec_bounce(spec_advance(g.moon_circle), g.bounds);
    lemma_capture_pass_preserves_cells(sun1, moon1, g.squares@);
}

/// A fresh session is inside the ranges one tick of simulation needs:
/// a caller in verified code may run `update` directly on what `new` or
/// `new_with_signs` returned.
pub proof fn lemma_initial_game_tick_ready(
    g: Game,
    w: int,
    h: int,
    moon_x_sign: bool,
    moon_y_sign: bool,
    sun_x_sign: bool,
    sun_y_sign: bool,
)
    requires
        is_initial_game(g, w, h, moon_x_sign, moon_y_sign, sun_x_sign, sun_y_sign),
        FIELD_WIDTH <= w <= FIELD_WIDTH * SCALE_LIMIT,
        FIELD_HEIGHT <= h <= FIELD_HEIGHT * SCALE_LIMIT,
    ensures
        tick_ready(g),
{
    assert(FIELD_WIDTH * SCALE_LIMIT == 1_000_000) by (nonlinear_arith)
        requires
            FIELD_WIDTH == 1000,
            SCALE_LIMIT == 1000,
    ;
    assert(FIELD_HEIGHT * SCALE_LIMIT == 1_000_000) by (nonlinear_arith)
        requires
            FIELD_HEIGHT == 1000,
            SCALE_LIMIT == 1000,
    ;
    let scale = w / (FIELD_WIDTH as int);
    assert(1 <= scale <= 1000);
    assert(1000 <= (FIELD_WIDTH as int) * scale <= 1_000_000) by (nonlinear_arith)
        requires
            FIELD_WIDTH == 1000,
            1 <= scale <= 1000,
    ;
    assert(1000 <= (FIELD_HEIGHT as int) * scale <= 1_000_000) by (nonlinear_arith)
        requires
            FIELD_HEIGHT == 1000,
            1 <= scale <= 1000,
    ;
    let bx = div_trunc(w - (FIELD_WIDTH as int) * scale, 2);
    let by = div_trunc(h - (FIELD_HEIGHT as int) * scale, 2);
    crate::object::lemma_div_trunc_magnitude(w - (FIELD_WIDTH as int) * scale, 2);
    crate::object::lemma_div_trunc_magnitude(h - (FIELD_HEIGHT as int) * scale, 2);
    assert(-POS_LIMIT <= bx <= POS_LIMIT);
    assert(-POS_LIMIT <= by <= POS_LIMIT);
    lemma_div_pos_is_pos(w * 7, 10);
    lemma_div_nonincreasing(w * 7, 10);
    lemma_div_pos_is_pos(w * 35, 100);
    lemma_div_nonincreasing(w * 35, 100);
    lemma_div_pos_is_pos(h * 6, 10);
    lemma_div_nonincreasing(h * 6, 10);
    assert(wf_object(g.sun_circle));
    assert(wf_object(g.moon_circle));
    assert forall|i: int| 0 <= i < g.squares@.len() implies wf_object(
        #[trigger] g.squares@[i],
    ) by {
        let idx = if i < 200 {
            i
        } else {
            i - 200
        };
        assert(is_initial_cell(g.squares@[i], idx, if i < 200 { 0int } else { 1int }, (bx, by), scale));
        assert(0 <= idx % (COLUMN_SIZE as int) <= 9);
        assert(0 <= idx / (COLUMN_SIZE as int) <= 19);
        assert(0 <= (idx % (COLUMN_SIZE as int)) * (SQUARE_SIZE as int) <= 450)
            by (nonlinear_arith)
            requires
                0 <= idx % (COLUMN_SIZE as int) <= 9,
                SQUARE_SIZE == 50,
        ;
        assert(0 <= (idx / (COLUMN_SIZE as int)) * (SQUARE_SIZE as int) <= 950)
            by (nonlinear_arith)
            requires
                0 <= idx / (COLUMN_SIZE as int) <= 19,
                SQUARE_SIZE == 50,
        ;
    };
}

/// Determinism of initialization: the starting state is a function of
/// the window size and the four direction signs alone, so two sessions
/// begun with the same values are the same state.
pub proof fn lemma_initial_game_deterministic(
    g1: Game,
    g2: Game,
    w: int,
    h: int,
    moon_x_sign: bool,
    moon_y_sign: bool,
    sun_x_sign: bool,
    sun_y_sign: bool,
)
    requires
        is_initial_game(g1, w, h, moon_x_sign, moon_y_sign, sun_x_sign, sun_y_sign),
        is_initial_game(g2, w, h, moon_x_sign, moon_y_sign, sun_x_sign, sun_y_sign),
    ensures
        g1.window_width == g2.window_width,
        g1.window_height == g2.window_height,
        g1.scale_factor == g2.scale_factor,
        g1.bounds == g2.bounds,
        g1.sun_circle == g2.sun_circle,
        g1.moon_circle == g2.moon_circle,
        g1.squares@ == g2.squares@,
{
    assert forall|i: int| 0 <= i < g1.squares@.len() implies g1.squares@[i] == g2.squares@[i] by {
        assert(g1.squares@[i].position.0 == g2.squares@[i].position.0);
        assert(g1.squares@[i].position.1 == g2.squares@[i].position.1);
        assert(g1.squares@[i].team == g2.squares@[i].team);
        assert(g1.squares@[i].kind == g2.squares@[i].kind);
        assert(g1.squares@[i].direction == g2.squares@[i].direction);
        assert(g1.squares@[i].scale == g2.squares@[i].scale);
    };
    assert(g1.squares@ =~= g2.squares@);
}

/// Relies on rand::random::<bool>, which draws one boolean from the
/// thread rng.  Nothing is promised of the outcome: callers state what
/// holds of either value.
#[verifier::external_body]
fn random_bool() -> bool {
    rand::random::<bool>()
}

impl Game {
    /// Builds the starting state for the given window size, with the
    /// diagonal direction sign of each token given explicitly on each
    /// axis, so a session is reproducible.
    pub fn new_with_signs(
        window_width: i64,
        window_height: i64,
        moon_x_sign: bool,
        moon_y_sign: bool,
        sun_x_sign: bool,
        sun_y_sign: bool,
    ) -> (g: Game)
        requires
            FIELD_WIDTH <= window_width <= FIELD_WIDTH * SCALE_LIMIT,
            FIELD_HEIGHT <= window_height <= FIELD_HEIGHT * SCALE_LIMIT,
        ensures
            is_initial_game(
                g,
                window_width as int,
                window_height as int,
                moon_x_sign,
                moon_y_sign,
                sun_x_sign,
                sun_y_sign,
            ),
    {
        proof {
            assert(FIELD_WIDTH == 1000 && FIELD_HEIGHT == 1000 && SCALE_LIMIT == 1000
                && COLUMN_SIZE == 10 && ROW_SIZE == 20 && SQUARE_SIZE == 50);
            assert(FIELD_WIDTH * SCALE_LIMIT == 1_000_000) by (nonlinear_arith)
                requires
                    FIELD_WIDTH == 1000,
                    SCALE_LIMIT == 1000,
            ;
            assert(FIELD_HEIGHT * SCALE_LIMIT == 1_000_000) by (nonlinear_arith)
                requires
                    FIELD_HEIGHT == 1000,
                    SCALE_LIMIT == 1000,
            ;
        }
        let scale_factor = window_width / FIELD_WIDTH;
        proof {
            assert(1 <= scale_factor <= 1000);
        }

        let moon_pos = (window_width * 7 / 10, window_height * 6 / 10);
        let sun_pos = (window_width * 35 / 100, window_height * 6 / 10);

        proof {
            assert(1000 <= FIELD_WIDTH * scale_factor <= 1_000_000) by (nonlinear_arith)
                requires
                    FIELD_WIDTH == 1000,
                    1 <= scale_factor <= 1000,
            ;
            assert(1000 <= FIELD_HEIGHT * scale_factor <= 1_000_000) by (nonlinear_arith)
                requires
                    FIELD_HEIGHT == 1000,
                    1 <= scale_factor <= 1000,
            ;
        }
        let field_start_x = (window_width - FIELD_WIDTH * scale_factor) / 2;
        let field_start_y = (window_height - FIELD_HEIGHT * scale_factor) / 2;

        let bounds = (field_start_x, field_start_y);

        let moon_circle = Object {
            position: moon_pos,
            team: Team::MOON,
            kind: ObjectKind::Circle,
            direction: (Vec2 {
                x: if moon_x_sign {
                    TOKEN_SPEED
                } else {
                    -TOKEN_SPEED
                },
                y: if moon_y_sign {
                    TOKEN_SPEED
                } else {
                    -TOKEN_SPEED
                },
            }),
            scale: scale_factor,
        };

        let sun_circle = Object {
            position: sun_pos,
            team: Team::SUN,
            kind: ObjectKind::Circle,
            direction: (Vec2 {
                x: if sun_x_sign {
                    TOKEN_SPEED
                } else {
                    -TOKEN_SPEED
                },
                y: if sun_y_sign {
                    TOKEN_SPEED
                } else {
                    -TOKEN_SPEED
                },
            }),
            scale: scale_factor,
        };

        let ghost bspec = (field_start_x as int, field_start_y as int);
        let mut squares: Vec<Object> = Vec::new();

        let block_len: usize = 200;
        proof {
            assert(ROW_SIZE * COLUMN_SIZE == 200) by (nonlinear_arith)
                requires
                    ROW_SIZE == 20,
                    COLUMN_SIZE == 10,
            ;
        }

        let mut i: usize = 0;
        while i < block_len
            invariant
                0 <= i <= block_len,
                block_len == 200,
                squares@.len() == i,
                -1_000_000 <= field_start_x <= 1_000_000,
                -1_000_000 <= field_start_y <= 1_000_000,
                1 <= scale_factor <= 1000,
                COLUMN_SIZE == 10,
                SQUARE_SIZE == 50,
                bspec == (field_start_x as int, field_start_y as int),
                forall|j: int|
                    0 <= j < i ==> is_initial_cell(
                        #[trigger] squares@[j],
                        j,
                        0,
                        bspec,
                        scale_factor as int,
                    ),
            decreases block_len - i,
        {
            let col = (i as i64) % COLUMN_SIZE;
            let row = (i as i64) / COLUMN_SIZE;
            proof {
                assert(0 <= col <= 9 && 0 <= row <= 19);
                assert(col * SQUARE_SIZE <= 450 && col * SQUARE_SIZE >= 0) by (nonlinear_arith)
                    requires
                        0 <= col <= 9,
                        SQUARE_SIZE == 50,
                ;
                assert(row * SQUARE_SIZE <= 950 && row * SQUARE_SIZE >= 0) by (nonlinear_arith)
                    requires
                        0 <= row <= 19,
                        SQUARE_SIZE == 50,
                ;
            }
            squares.push(
                Object {
                    position: (field_start_x + col * SQUARE_SIZE, field_start_y + row * SQUARE_SIZE),
                    team: Team::MOON,
                    kind: ObjectKind::Square,
                    direction: (Vec2 { x: 0, y: 0 }),
                    scale: scale_factor,
                },
            );
            i = i + 1;
        }

        proof {
            assert(COLUMN_SIZE * SQUARE_SIZE == 500) by (nonlinear_arith)
                requires
                    COLUMN_SIZE == 10,
                    SQUARE_SIZE == 50,
            ;
        }
        let block_offset: i64 = COLUMN_SIZE * SQUARE_SIZE;
        let mut i2: usize = 0;
        while i2 < block_len
            invariant
                0 <= i2 <= block_len,
                block_len == 200,
                block_offset == 500,
                squares@.len() == 200 + i2,
                -1_000_000 <= field_start_x <= 1_000_000,
                -1_000_000 <= field_start_y <= 1_000_000,
                1 <= scale_factor <= 1000,
                COLUMN_SIZE == 10,
                SQUARE_SIZE == 50,
                bspec == (field_start_x as int, field_start_y as int),
                forall|j: int|
                    0 <= j < 200 ==> is_initial_cell(
                        #[trigger] squares@[j],
                        j,
                        0,
                        bspec,
                        scale_factor as int,
                    ),
                forall|j: int|
                    200 <= j < 200 + i2 ==> is_initial_cell(
                        #[trigger] squares@[j],
                        j - 200,
                        1,
                        bspec,
                        scale_factor as int,
                    ),
            decreases block_len - i2,
        {
            let col = (i2 as i64) % COLUMN_SIZE;
            let row = (i2 as i64) / COLUMN_SIZE;
            proof {
                assert(0 <= col <= 9 && 0 <= row <= 19);
                assert(col * SQUARE_SIZE <= 450 && col * SQUARE_SIZE >= 0) by (nonlinear_arith)
                    requires
                        0 <= col <= 9,
                        SQUARE_SIZE == 50,
                ;
                assert(row * SQUARE_SIZE <= 950 && row * SQUARE_SIZE >= 0) by (nonlinear_arith)
                    requires
                        0 <= row <= 19,
                        SQUARE_SIZE == 50,
                ;
            }
            squares.push(
                Object {
                    position: (
                        field_start_x + col * SQUARE_SIZE + block_offset,
                        field_start_y + row * SQUARE_SIZE,
                    ),
                    team: Team::SUN,
                    kind: ObjectKind::Square,
                    direction: (Vec2 { x: 0, y: 0 }),
                    scale: scale_factor,
                },
            );
            i2 = i2 + 1;
        }

        Game {
            window_width,
            window_height,
            scale_factor,
            bounds,
            squares,
            sun_circle,
            moon_circle,
        }
    }

    /// Builds the starting state for the given window size, drawing the
    /// four direction signs at random, as a fresh session does.
    pub fn new(window_width: i64, window_height: i64) -> (g: Game)
        requires
            FIELD_WIDTH <= window_width <= FIELD_WIDTH * SCALE_LIMIT,
            FIELD_HEIGHT <= window_height <= FIELD_HEIGHT * SCALE_LIMIT,
        ensures
            exists|mx: bool, my: bool, sx: bool, sy: bool|
                is_initial_game(g, window_width as int, window_height as int, mx, my, sx, sy),
    {
        let moon_x_sign = random_bool();
        let moon_y_sign = random_bool();
        let sun_x_sign = random_bool();
        let sun_y_sign = random_bool();
        let g = Game::new_with_signs(
            window_width,
            window_height,
            moon_x_sign,
            moon_y_sign,
            sun_x_sign,
            sun_y_sign,
        );
        proof {
            assert(is_initial_game(
                g,
                window_width as int,
                window_height as int,
                moon_x_sign,
                moon_y_sign,
                sun_x_sign,
                sun_y_sign,
            ));
        }
        g
    }

    /// One simulation tick: both tokens advance by one step of movement,
    /// bounce off the field walls, and then sweep the grid making capture
    /// attempts cell by cell, the sun token before the moon token at each
    /// cell.
    pub fn update(&mut self)
        requires
            tick_ready(*old(self)),
        ensures
            final(self).sun_circle == spec_tick(*old(self)).0,
            final(self).moon_circle == spec_tick(*old(self)).1,
            final(self).squares@ == spec_tick(*old(self)).2,
            final(self).bounds == old(self).bounds,
            final(self).scale_factor == old(self).scale_factor,
            final(self).window_width == old(self).window_width,
            final(self).window_height == old(self).window_height,
    {
        let bounds = self.bounds;
        self.sun_circle.update_position();
        self.moon_circle.update_position();

        self.sun_circle.handle_boundary_collision(bounds);
        self.moon_circle.handle_boundary_collision(bounds);

        let ghost sun1 = self.sun_circle;
        let ghost moon1 = self.moon_circle;
        let ghost cells0 = self.squares@;

        proof {
            assert(cells0.skip(0) =~= cells0);
            assert(self.squares@.take(0) =~= Seq::<Object>::empty());
            assert(Seq::<Object>::empty() + spec_capture_pass(sun1, moon1, cells0).2
                =~= spec_capture_pass(sun1, moon1, cells0).2);
        }

        let n = self.squares.len();
        let mut i: usize = 0;
        while i < n
            invariant
                0 <= i <= n,
                self.squares@.len() == n,
                cells0.len() == n,
                forall|j: int| i <= j < n ==> self.squares@[j] == cells0[j],
                forall|j: int| 0 <= j < n ==> wf_object(#[trigger] cells0[j]),
                collision_ready(self.sun_circle),
                collision_ready(self.moon_circle),
                spec_capture_pass(sun1, moon1, cells0) == ({
                    let r = spec_capture_pass(
                        self.sun_circle,
                        self.moon_circle,
                        cells0.skip(i as int),
                    );
                    (r.0, r.1, self.squares@.take(i as int) + r.2)
                }),
                self.bounds == old(self).bounds,
                self.scale_factor == old(self).scale_factor,
                self.window_width == old(self).window_width,
                self.window_height == old(self).window_height,
            decreases n - i,
        {
            let ghost pre_sun = self.sun_circle;
            let ghost pre_moon = self.moon_circle;
            let ghost pre_squares = self.squares@;
            let mut square = self.squares[i];
            proof {
                assert(square == cells0[i as int]);
                assert(cells0.skip(i as int)[0] == cells0[i as int]);
            }
            self.sun_circle.handle_collision(&mut square);
            self.moon_circle.handle_collision(&mut square);
            self.squares.set(i, square);
            proof {
                let iv = i as int;
                let r0 = spec_collide(pre_sun, cells0[iv]);
                let r1 = spec_collide(pre_moon, r0.1);
                assert(self.sun_circle == r0.0);
                assert(self.moon_circle == r1.0);
                assert(square == r1.1);
                assert(cells0.skip(iv).drop_first() =~= cells0.skip(iv + 1));
                assert(self.squares@.take(iv + 1) =~= pre_squares.take(iv).push(square));
                let rest = spec_capture_pass(r0.0, r1.0, cells0.skip(iv + 1));
                assert(spec_capture_pass(pre_sun, pre_moon, cells0.skip(iv)) == (
                    rest.0,
                    rest.1,
                    seq![r1.1] + rest.2,
                ));
                assert(pre_squares.take(iv) + (seq![r1.1] + rest.2) =~= self.squares@.take(iv + 1)
                    + rest.2);
            }
            i = i + 1;
        }
        proof {
            assert(cells0.skip(n as int) =~= Seq::<Object>::empty());
            assert(self.squares@.take(n as int) =~= self.squares@);
            assert(self.squares@ + spec_capture_pass(
                self.sun_circle,
                self.moon_circle,
                Seq::<Object>::empty(),
            ).2 =~= self.squares@);
        }
    }

    /// Accepts a new window size before the next tick: recomputes the
    /// speed scale as the largest that fits both window dimensions,
    /// recenters the field, and hands the new scale to every entity.
    pub fn resize_event(&mut self, width: i64, height: i64)
        requires
            FIELD_WIDTH <= width <= FIELD_WIDTH * SCALE_LIMIT,
            FIELD_HEIGHT <= height <= FIELD_HEIGHT * SCALE_LIMIT,
        ensures
            final(self).window_width == width,
            final(self).window_height == height,
            final(self).scale_factor == (if width / FIELD_WIDTH <= height / FIELD_HEIGHT {
                width / FIELD_WIDTH
            } else {
                height / FIELD_HEIGHT
            }),
            final(self).bounds.0 == (width - FIELD_WIDTH * final(self).scale_factor) / 2,
            final(self).bounds.1 == (height - FIELD_HEIGHT * final(self).scale_factor) / 2,
            final(self).squares@.len() == old(self).squares@.len(),
            forall|j: int|
                0 <= j < old(self).squares@.len() ==> #[trigger] final(self).squares@[j] == (Object {
                    scale: final(self).scale_factor,
                    ..old(self).squares@[j]
                }),
            final(self).sun_circle == (Object {
                scale: final(self).scale_factor,
                ..old(self).sun_circle
            }),
            final(self).moon_circle == (Object {
                scale: final(self).scale_factor,
                ..old(self).moon_circle
            }),
    {
        proof {
            assert(FIELD_WIDTH == 1000 && FIELD_HEIGHT == 1000 && SCALE_LIMIT == 1000);
            assert(FIELD_WIDTH * SCALE_LIMIT == 1_000_000) by (nonlinear_arith)
                requires
                    FIELD_WIDTH == 1000,
                    SCALE_LIMIT == 1000,
            ;
            assert(FIELD_HEIGHT * SCALE_LIMIT == 1_000_000) by (nonlinear_arith)
                requires
                    FIELD_HEIGHT == 1000,
                    SCALE_LIMIT == 1000,
            ;
        }
        self.window_width = width;
        self.window_height = height;

        let scale_factor_width = width / FIELD_WIDTH;
        let scale_factor_height = height / FIELD_HEIGHT;
        let scale_factor = if scale_factor_width <= scale_factor_height {
            scale_factor_width
        } else {
            scale_factor_height
        };
        self.scale_factor = scale_factor;

        proof {
            assert(1 <= scale_factor <= 1000);
            assert(1000 <= FIELD_WIDTH * scale_factor <= 1_000_000) by (nonlinear_arith)
                requires
                    FIELD_WIDTH == 1000,
                    1 <= scale_factor <= 1000,
            ;
            assert(1000 <= FIELD_HEIGHT * scale_factor <= 1_000_000) by (nonlinear_arith)
                requires
                    FIELD_HEIGHT == 1000,
                    1 <= scale_factor <= 1000,
            ;
        }
        let field_start_x = (width - FIELD_WIDTH * scale_factor) / 2;
        let field_start_y = (height - FIELD_HEIGHT * scale_factor) / 2;
        self.bounds = (field_start_x, field_start_y);

        let n = self.squares.len();
        let mut i: usize = 0;
        while i < n
            invariant
                0 <= i <= n,
                self.squares@.len() == n,
                old(self).squares@.len() == n,
                self.scale_factor == scale_factor,
                forall|j: int|
                    0 <= j < i ==> #[trigger] self.squares@[j] == (Object {
                        scale: scale_factor,
                        ..old(self).squares@[j]
                    }),
                forall|j: int| i <= j < n ==> self.squares@[j] == old(self).squares@[j],
                self.bounds == (field_start_x, field_start_y),
                self.window_width == width,
                self.window_height == height,
                self.sun_circle == old(self).sun_circle,
                self.moon_circle == old(self).moon_circle,
            decreases n - i,
        {
            let mut square = self.squares[i];
            square.scale = scale_factor;
            self.squares.set(i, square);
            i = i + 1;
        }

        self.sun_circle.scale = scale_factor;
        self.moon_circle.scale = scale_factor;
    }
}

} // verus!
