use vstd::prelude::*;
use vstd::arithmetic::div_mod::{lemma_div_is_ordered, lemma_div_multiples_vanish, lemma_div_pos_is_pos};
use crate::dimension::Dimension;
use crate::grid::{cell_count, unlocked, Cell, DualGrid, ItemType, placements};
use crate::map_data::{grid_height, valid_size, MapData};
use crate::physics::{
    cell_coord, cell_of, check_circle_collision, check_wall_collision, circle_touches_square,
    circles_touch, clamp, UNIT,
};
use crate::state::{GameState, LevelChoice};
use crate::tutorial::{checked, dismissed, init_tuto, tutorial_script, Tutorial, SWITCH_COLUMN};

verus! {

/// Stick readings are integers in thousandths: this is a full deflection.
pub const STICK_MAX: i32 = 1000;

/// A stick reading must exceed this (0.01) on some axis to turn the player.
pub const DEADZONE: i32 = 10;

/// Cells the player covers per second at full deflection.
pub const SPEED: i64 = 2;

/// The player: its centre in sub-units (see `UNIT`), the direction it last
/// moved in (at length `STICK_MAX`, up to rounding), and the goal's cell.
#[derive(Clone, Copy, Debug, PartialEq, Eq, Structural)]
pub struct Player {
    pub x: i64,
    pub y: i64,
    pub dir_x: i32,
    pub dir_y: i32,
    pub goal_x: i32,
    pub goal_y: i32,
}

/// The player a level starts with: half a cell past the start coordinates
/// on both axes, facing right.
pub open spec fn start_player(d: MapData) -> Player {
    Player {
        x: (d.start_x * UNIT + UNIT / 2) as i64,
        y: (d.start_y * UNIT + UNIT / 2) as i64,
        dir_x: STICK_MAX,
        dir_y: 0,
        goal_x: d.goal_x,
        goal_y: d.goal_y,
    }
}

/// A coordinate after a move of `stick * dt_micros * SPEED` sub-units,
/// held within the range of the coordinate type.
pub open spec fn moved(v: int, stick: int, dt_micros: int) -> int {
    clamp(v + stick * dt_micros * SPEED, i64::MIN as int, i64::MAX as int)
}

/// Whether a stick reading is strong enough to set the facing direction:
/// its length exceeds the dead zone.
pub open spec fn outside_deadzone(stick_x: int, stick_y: int) -> bool {
    stick_x * stick_x + stick_y * stick_y > DEADZONE * DEADZONE
}

/// The largest integer whose square is at most `n`.
pub open spec fn isqrt(n: nat) -> nat
    decreases n,
{
    if n == 0 {
        0
    } else {
        let r = isqrt((n - 1) as nat);
        if (r + 1) * (r + 1) <= n {
            (r + 1) as nat
        } else {
            r
        }
    }
}

proof fn lemma_isqrt(n: nat)
    ensures
        isqrt(n) * isqrt(n) <= n < (isqrt(n) + 1) * (isqrt(n) + 1),
    decreases n,
{
    if n == 0 {
        assert(isqrt(0) == 0);
        assert(0 * 0 <= 0nat < 1 * 1);
    } else {
        lemma_isqrt((n - 1) as nat);
        let r = isqrt((n - 1) as nat) as int;
        assert(r * r <= n - 1 < (r + 1) * (r + 1));
        if (r + 1) * (r + 1) <= n {
            assert(isqrt(n) == r + 1);
            assert((r + 1) * (r + 1) < (r + 2) * (r + 2)) by (nonlinear_arith)
                requires
                    r >= 0,
            ;
            assert((r + 1) * (r + 1) <= n < (r + 2) * (r + 2));
        } else {
            assert(isqrt(n) == r);
            assert(r * r <= n < (r + 1) * (r + 1));
        }
    }
}

proof fn lemma_isqrt_unique(n: nat, r: int)
    requires
        0 <= r,
        r * r <= n < (r + 1) * (r + 1),
    ensures
        r == isqrt(n),
{
    lemma_isqrt(n);
    let q = isqrt(n) as int;
    if r < q {
        assert((r + 1) * (r + 1) <= q * q) by (nonlinear_arith)
            requires
                0 <= r,
                r + 1 <= q,
        ;
    }
    if q < r {
        assert((q + 1) * (q + 1) <= r * r) by (nonlinear_arith)
            requires
                0 <= q,
                q + 1 <= r,
        ;
    }
}

/// Component `c` of the facing for a stick reading `(stick_x, stick_y)`:
/// that component of the reading scaled to length `STICK_MAX`, rounded
/// toward zero. Its magnitude is the integer square root of
/// `STICK_MAX² · c² / (stick_x² + stick_y²)`, rounded down.
pub open spec fn facing_component(c: int, stick_x: int, stick_y: int) -> int {
    let m = isqrt(
        ((STICK_MAX * STICK_MAX) * (c * c) / (stick_x * stick_x + stick_y * stick_y)) as nat,
    ) as int;
    if c < 0 {
        -m
    } else {
        m
    }
}

/// The player after one frame of `dt_micros` microseconds with the stick at
/// `(stick_x, stick_y)`: it moves, and when the reading clears the dead zone
/// it faces the reading's direction, at length `STICK_MAX`.
pub open spec fn player_moved(p: Player, stick_x: i32, stick_y: i32, dt_micros: u32) -> Player {
    let turned = outside_deadzone(stick_x as int, stick_y as int);
    Player {
        x: moved(p.x as int, stick_x as int, dt_micros as int) as i64,
        y: moved(p.y as int, stick_y as int, dt_micros as int) as i64,
        dir_x: if turned {
            facing_component(stick_x as int, stick_x as int, stick_y as int) as i32
        } else {
            p.dir_x
        },
        dir_y: if turned {
            facing_component(stick_y as int, stick_x as int, stick_y as int) as i32
        } else {
            p.dir_y
        },
        ..p
    }
}

/// `v * v`, without overflow.
fn square(v: i32) -> (r: i128)
    ensures
        r == v * v,
        0 <= r <= 0x4000_0000_0000_0000,
{
    assert(0 <= v * v <= 0x4000_0000_0000_0000) by (nonlinear_arith)
        requires
            -0x8000_0000 <= v < 0x8000_0000,
    ;
    (v as i128) * (v as i128)
}

/// The integer square root of `n`.
fn isqrt_exec(n: u64) -> (r: u64)
    requires
        n <= 1_000_000,
    ensures
        r as int == isqrt(n as nat),
        r <= 1000,
{
    let mut r: u64 = 0;
    loop
        invariant
            n <= 1_000_000,
            r <= 1000,
            r * r <= n,
        ensures
            r * r <= n < (r + 1) * (r + 1),
        decreases 1001 - r,
    {
        assert((r + 1) * (r + 1) <= 1001 * 1001) by (nonlinear_arith)
            requires
                r <= 1000,
        ;
        if (r + 1) * (r + 1) > n {
            break;
        }
        assert(r + 1 <= 1000) by (nonlinear_arith)
            requires
                (r + 1) * (r + 1) <= n,
                n <= 1_000_000,
                r >= 0,
        ;
        r = r + 1;
    }
    proof {
        lemma_isqrt_unique(n as nat, r as int);
    }
    r
}

/// Component `c` of the facing for the stick reading `(stick_x, stick_y)`.
fn facing(c: i32, stick_x: i32, stick_y: i32) -> (r: i32)
    requires
        c == stick_x || c == stick_y,
        stick_x * stick_x + stick_y * stick_y > 0,
    ensures
        r as int == facing_component(c as int, stick_x as int, stick_y as int),
{
    let cc = square(c);
    let len2 = square(stick_x) + square(stick_y);
    proof {
        assert(0 <= cc <= len2 && len2 <= 0x8000_0000_0000_0000 && cc <= 0x4000_0000_0000_0000)
            by (nonlinear_arith)
            requires
                c == stick_x || c == stick_y,
                cc == c * c,
                len2 == stick_x * stick_x + stick_y * stick_y,
                -0x8000_0000 <= c < 0x8000_0000,
                -0x8000_0000 <= stick_x < 0x8000_0000,
                -0x8000_0000 <= stick_y < 0x8000_0000,
        ;
        lemma_div_is_ordered(1_000_000 * cc, 1_000_000 * len2, len2 as int);
        lemma_div_multiples_vanish(1_000_000, len2 as int);
        assert(len2 * 1_000_000 == 1_000_000 * len2);
        lemma_div_pos_is_pos(1_000_000 * cc, len2 as int);
    }
    let q = (1_000_000 * cc) / len2;
    assert(STICK_MAX * STICK_MAX == 1_000_000);
    let m = isqrt_exec(q as u64) as i32;
    if c < 0 {
        -m
    } else {
        m
    }
}

impl Player {
    /// The player a level starts with.
    pub fn new(level_data: &MapData) -> (r: Player)
        ensures
            r == start_player(*level_data),
    {
        Player {
            x: (level_data.start_x as i64) * UNIT + UNIT / 2,
            y: (level_data.start_y as i64) * UNIT + UNIT / 2,
            dir_x: STICK_MAX,
            dir_y: 0,
            goal_x: level_data.goal_x,
            goal_y: level_data.goal_y,
        }
    }
}

/// One coordinate moved by `stick * dt_micros * SPEED` sub-units.
fn move_coord(v: i64, stick: i32, dt_micros: u32) -> (r: i64)
    ensures
        r == moved(v as int, stick as int, dt_micros as int),
{
    let s = stick as i128;
    let t = dt_micros as i128;
    assert(-0x1_0000_0000_0000_0000 <= s * t <= 0x1_0000_0000_0000_0000) by (nonlinear_arith)
        requires
            -0x8000_0000 <= s < 0x8000_0000,
            0 <= t < 0x1_0000_0000,
    ;
    let st = s * t;
    assert(-0x2_0000_0000_0000_0000 <= st * (SPEED as i128) <= 0x2_0000_0000_0000_0000) by (nonlinear_arith)
        requires
            -0x1_0000_0000_0000_0000 <= st <= 0x1_0000_0000_0000_0000,
            SPEED == 2,
    ;
    let step = st * (SPEED as i128);
    let target = (v as i128) + step;
    if target < i64::MIN as i128 {
        i64::MIN
    } else if target > i64::MAX as i128 {
        i64::MAX
    } else {
        target as i64
    }
}

/// Everything a running level holds.
pub struct GameData {
    pub map: DualGrid,
    pub player: Player,
    /// The dimension the player is in.
    pub dimension: Dimension,
    /// Whether the player may switch dimension yet.
    pub dimension_enabled: bool,
}

impl GameData {
    /// A level at its start: the grid built from its document, the player on
    /// the start cell, in the light dimension, free to switch.
    pub fn new(level_data: &MapData) -> (r: GameData)
        requires
            valid_size(level_data.size),
            cell_count(level_data.size) <= usize::MAX,
        ensures
            r.map.wf(),
            r.map.width == level_data.size,
            r.map.height == grid_height(level_data.size),
            r.map.shows(placements(*level_data)),
            r.player == start_player(*level_data),
            r.dimension == Dimension::Light,
            r.dimension_enabled,
    {
        GameData {
            map: DualGrid::new(level_data),
            player: Player::new(level_data),
            dimension: Dimension::Light,
            dimension_enabled: true,
        }
    }

    /// Moves the player for one frame of `dt_micros` microseconds with the
    /// stick at `(stick_x, stick_y)` (thousandths of a full deflection), and
    /// turns it to face that way, at length `STICK_MAX`, when the reading's
    /// length clears the dead zone.
    pub fn move_player(&mut self, stick_x: i32, stick_y: i32, dt_micros: u32)
        ensures
            final(self).player == player_moved(old(self).player, stick_x, stick_y, dt_micros),
            final(self).map == old(self).map,
            final(self).dimension == old(self).dimension,
            final(self).dimension_enabled == old(self).dimension_enabled,
    {
        let len2 = square(stick_x) + square(stick_y);
        if len2 > square(DEADZONE) {
            self.player.dir_x = facing(stick_x, stick_x, stick_y);
            self.player.dir_y = facing(stick_y, stick_x, stick_y);
        }
        self.player.x = move_coord(self.player.x, stick_x, dt_micros);
        self.player.y = move_coord(self.player.y, stick_y, dt_micros);
    }
}

/// What touching one cell does this frame.
#[derive(Clone, Copy, Debug, PartialEq, Eq, Structural)]
pub enum Effect {
    Nothing,
    /// Ran into a wall or a closed door.
    Over,
    /// Reached the goal.
    Win,
    /// Picked up a key for this door id.
    Unlock(u32),
}

/// The cell a probe at `(x, y)` sees: the grid's cell, or a wall outside the
/// grid, whose edge is solid.
pub open spec fn probe_cell(map: DualGrid, dimension: Dimension, x: int, y: int) -> Cell {
    if map.in_bounds(x, y) {
        Cell { x: x as i64, y: y as i64, item_type: map.item_at(dimension, x, y) }
    } else {
        Cell { x: x as i64, y: y as i64, item_type: ItemType::Wall }
    }
}

/// The nine cells around the one holding `(px, py)`, that one included:
/// column offsets -1, 0, 1 in turn, and within each the row offsets -1, 0, 1.
pub open spec fn surroundings(map: DualGrid, dimension: Dimension, px: int, py: int) -> Seq<Cell> {
    Seq::new(
        9,
        |k: int| probe_cell(map, dimension, cell_coord(px) + k / 3 - 1, cell_coord(py) + k % 3 - 1),
    )
}

/// What a cell does to a player centred at `(px, py)`. Walls and closed
/// doors are squares; keys and the goal are circles like the player.
pub open spec fn effect_of(cell: Cell, px: int, py: int) -> Effect {
    match cell.item_type {
        ItemType::Wall => if circle_touches_square(px, py, cell.x as int, cell.y as int) {
            Effect::Over
        } else {
            Effect::Nothing
        },
        ItemType::Door(d) => if !d.open && circle_touches_square(px, py, cell.x as int, cell.y as int) {
            Effect::Over
        } else {
            Effect::Nothing
        },
        ItemType::Key(k) => if circles_touch(px, py, cell.x as int, cell.y as int) {
            Effect::Unlock(k.door_id)
        } else {
            Effect::Nothing
        },
        ItemType::Goal => if circles_touch(px, py, cell.x as int, cell.y as int) {
            Effect::Win
        } else {
            Effect::Nothing
        },
        ItemType::Empty => Effect::Nothing,
    }
}

/// The effects of the surroundings of `(px, py)`, in probe order.
pub open spec fn frame_effects(map: DualGrid, dimension: Dimension, px: int, py: int) -> Seq<Effect> {
    surroundings(map, dimension, px, py).map_values(|c: Cell| effect_of(c, px, py))
}

/// The state a sequence of effects asks for: the last loss or win, if any.
pub open spec fn verdict(effects: Seq<Effect>) -> Option<GameState>
    decreases effects.len(),
{
    if effects.len() == 0 {
        None
    } else {
        match effects.last() {
            Effect::Over => Some(GameState::Over),
            Effect::Win => Some(GameState::Win),
            _ => verdict(effects.drop_last()),
        }
    }
}

/// The door ids a sequence of effects unlocks, in order.
pub open spec fn unlocks(effects: Seq<Effect>) -> Seq<u32>
    decreases effects.len(),
{
    if effects.len() == 0 {
        Seq::empty()
    } else {
        match effects.last() {
            Effect::Unlock(id) => unlocks(effects.drop_last()).push(id),
            _ => unlocks(effects.drop_last()),
        }
    }
}

/// An item after every door id in `ids` was unlocked.
pub open spec fn unlocked_by(item: ItemType, ids: Seq<u32>) -> ItemType {
    match item {
        ItemType::Door(d) => if ids.contains(d.id) {
            ItemType::Door(crate::grid::Door { open: true, id: d.id })
        } else {
            item
        },
        ItemType::Key(k) => if ids.contains(k.door_id) {
            ItemType::Key(crate::grid::Key { taken: true, door_id: k.door_id })
        } else {
            item
        },
        _ => item,
    }
}

proof fn lemma_unlock_one_more(item: ItemType, ids: Seq<u32>, id: u32)
    ensures
        unlocked(unlocked_by(item, ids), id) == unlocked_by(item, ids.push(id)),
{
    assert forall|z: u32| ids.push(id).contains(z) <==> (ids.contains(z) || z == id) by {
        if ids.contains(z) {
            let j = choose|j: int| 0 <= j < ids.len() && ids[j] == z;
            assert(ids.push(id)[j] == z);
        }
        if z == id {
            assert(ids.push(id)[ids.len() as int] == z);
        }
        if ids.push(id).contains(z) {
            let j = choose|j: int| 0 <= j < ids.push(id).len() && ids.push(id)[j] == z;
            if j < ids.len() {
                assert(ids[j] == z);
            }
        }
    }
}

/// What one frame of collisions asked for.
pub struct Collisions {
    /// The state the game moves to, if the player lost or won.
    pub next_state: Option<GameState>,
    /// The door ids unlocked by keys picked up, in order.
    pub opened_doors: Vec<u32>,
}

impl GameData {
    /// The cell a probe at `(x, y)` sees in the player's dimension.
    fn probe(&self, x: i64, y: i64) -> (r: Cell)
        requires
            self.map.wf(),
        ensures
            r == probe_cell(self.map, self.dimension, x as int, y as int),
    {
        if x >= i32::MIN as i64 && x <= i32::MAX as i64 && y >= i32::MIN as i64 && y <= i32::MAX as i64 {
            match self.map.at(x as i32, y as i32, self.dimension) {
                Some(cell) => cell,
                None => Cell { x, y, item_type: ItemType::Wall },
            }
        } else {
            Cell { x, y, item_type: ItemType::Wall }
        }
    }

    /// Resolves the player's contacts with the nine cells around it: walls
    /// and closed doors end the game, the goal wins it, and a key unlocks its
    /// doors in both dimensions. All nine cells are read before any key acts,
    /// and when several contacts decide the state, the last in probe order
    /// wins.
    pub fn physic_step(&mut self) -> (r: Collisions)
        requires
            old(self).map.wf(),
        ensures
            ({
                let effects = frame_effects(
                    old(self).map,
                    old(self).dimension,
                    old(self).player.x as int,
                    old(self).player.y as int,
                );
                &&& r.next_state == verdict(effects)
                &&& r.opened_doors@ == unlocks(effects)
            }),
            final(self).map.wf(),
            final(self).map.width == old(self).map.width,
            final(self).map.height == old(self).map.height,
            forall|d: Dimension, x: int, y: int|
                old(self).map.in_bounds(x, y) ==> #[trigger] final(self).map.item_at(d, x, y) == unlocked_by(
                    old(self).map.item_at(d, x, y),
                    r.opened_doors@,
                ),
            final(self).player == old(self).player,
            final(self).dimension == old(self).dimension,
            final(self).dimension_enabled == old(self).dimension_enabled,
    {
        let ghost pre = *self;
        let px = self.player.x;
        let py = self.player.y;
        let cx = cell_of(px);
        let cy = cell_of(py);
        let ghost cells = surroundings(pre.map, pre.dimension, px as int, py as int);
        let ghost effects = frame_effects(pre.map, pre.dimension, px as int, py as int);
        let mut surrounding_cells: Vec<Cell> = Vec::new();
        let mut k: i64 = 0;
        while k < 9
            invariant
                *self == pre,
                self.map.wf(),
                px == pre.player.x,
                py == pre.player.y,
                cx == cell_coord(px as int),
                cy == cell_coord(py as int),
                cells == surroundings(pre.map, pre.dimension, px as int, py as int),
                0 <= k <= 9,
                surrounding_cells@ == cells.take(k as int),
            decreases 9 - k,
        {
            let cell = self.probe(cx + k / 3 - 1, cy + k % 3 - 1);
            assert(cells.take(k + 1) =~= cells.take(k as int).push(cell));
            surrounding_cells.push(cell);
            k = k + 1;
        }
        assert(cells.take(9) =~= cells);
        let mut next_state: Option<GameState> = None;
        let mut opened_doors: Vec<u32> = Vec::new();
        let mut i: usize = 0;
        while i < surrounding_cells.len()
            invariant
                surrounding_cells@ == cells,
                cells.len() == 9,
                effects == frame_effects(pre.map, pre.dimension, px as int, py as int),
                effects == cells.map_values(|c: Cell| effect_of(c, px as int, py as int)),
                px == pre.player.x,
                py == pre.player.y,
                0 <= i <= 9,
                next_state == verdict(effects.take(i as int)),
                opened_doors@ == unlocks(effects.take(i as int)),
                self.map.wf(),
                self.map.width == pre.map.width,
                self.map.height == pre.map.height,
                forall|d: Dimension, x: int, y: int|
                    pre.map.in_bounds(x, y) ==> #[trigger] self.map.item_at(d, x, y) == unlocked_by(
                        pre.map.item_at(d, x, y),
                        opened_doors@,
                    ),
                self.player == pre.player,
                self.dimension == pre.dimension,
                self.dimension_enabled == pre.dimension_enabled,
            decreases 9 - i,
        {
            let cell = surrounding_cells[i];
            let ghost before = self.map;
            let ghost ids = opened_doors@;
            assert(effects[i as int] == effect_of(cell, px as int, py as int));
            assert(effects.take(i + 1).drop_last() =~= effects.take(i as int));
            assert(effects.take(i + 1).last() == effects[i as int]);
            match cell.item_type {
                ItemType::Wall => {
                    if check_wall_collision(px, py, cell.x, cell.y) {
                        next_state = Some(GameState::Over);
                    }
                },
                ItemType::Door(door) => {
                    if !door.open && check_wall_collision(px, py, cell.x, cell.y) {
                        next_state = Some(GameState::Over);
                    }
                },
                ItemType::Key(key) => {
                    if check_circle_collision(px, py, cell.x, cell.y) {
                        self.map.open_door(key.door_id);
                        opened_doors.push(key.door_id);
                        proof {
                            assert forall|d: Dimension, x: int, y: int| pre.map.in_bounds(
                                x,
                                y,
                            ) implies #[trigger] self.map.item_at(d, x, y) == unlocked_by(
                                pre.map.item_at(d, x, y),
                                opened_doors@,
                            ) by {
                                assert(before.item_at(d, x, y) == unlocked_by(pre.map.item_at(d, x, y), ids));
                                lemma_unlock_one_more(pre.map.item_at(d, x, y), ids, key.door_id);
                            }
                        }
                    }
                },
                ItemType::Goal => {
                    if check_circle_collision(px, py, cell.x, cell.y) {
                        next_state = Some(GameState::Win);
                    }
                },
                ItemType::Empty => {},
            }
            i = i + 1;
        }
        assert(effects.take(9) =~= effects);
        Collisions { next_state, opened_doors }
    }
}

/// What the player does during one frame.
#[derive(Clone, Copy, Debug, PartialEq, Eq, Structural)]
pub struct TickInput {
    /// Stick reading in thousandths of a full deflection, per axis.
    pub stick_x: i32,
    pub stick_y: i32,
    /// The acknowledge / switch button was pressed.
    pub button_a: bool,
    /// Length of the frame in microseconds.
    pub dt_micros: u32,
}

/// What one frame did.
pub struct TickReport {
    pub collisions: Collisions,
    /// The player switched dimension at the end of the frame.
    pub switched: bool,
}

impl GameData {
    /// Runs one frame. The tutorial looks at the player's column first; while
    /// it shows a message the player stands still and the button only
    /// dismisses it. Otherwise the player moves. Contacts are then resolved in
    /// the current dimension, and last, when the button was pressed and
    /// switching is allowed, the player switches dimension.
    pub fn tick(&mut self, tutorial: &mut Tutorial, input: TickInput) -> (r: TickReport)
        requires
            old(self).map.wf(),
            old(tutorial).wf(),
        ensures
            ({
                let col = cell_coord(old(self).player.x as int);
                let shown = checked(old(tutorial).view(), col);
                let enabled = old(self).dimension_enabled || col == SWITCH_COLUMN;
                let held = shown.current is Some;
                let effects = frame_effects(
                    old(self).map,
                    old(self).dimension,
                    final(self).player.x as int,
                    final(self).player.y as int,
                );
                &&& final(tutorial).wf()
                &&& final(tutorial).view() == if held && input.button_a {
                    dismissed(shown)
                } else {
                    shown
                }
                &&& final(self).player == if held {
                    old(self).player
                } else {
                    player_moved(old(self).player, input.stick_x, input.stick_y, input.dt_micros)
                }
                &&& r.collisions.next_state == verdict(effects)
                &&& r.collisions.opened_doors@ == unlocks(effects)
                &&& r.switched == (!held && input.button_a && enabled)
                &&& final(self).dimension == if r.switched {
                    old(self).dimension.other()
                } else {
                    old(self).dimension
                }
                &&& final(self).dimension_enabled == enabled
            }),
            final(self).map.wf(),
            final(self).map.width == old(self).map.width,
            final(self).map.height == old(self).map.height,
            forall|d: Dimension, x: int, y: int|
                old(self).map.in_bounds(x, y) ==> #[trigger] final(self).map.item_at(d, x, y) == unlocked_by(
                    old(self).map.item_at(d, x, y),
                    r.collisions.opened_doors@,
                ),
    {
        tutorial.check_message(self);
        let held = tutorial.current_message_index.is_some();
        if held {
            if input.button_a {
                tutorial.delete_message();
            }
        } else {
            self.move_player(input.stick_x, input.stick_y, input.dt_micros);
        }
        let collisions = self.physic_step();
        let switched = !held && input.button_a && self.dimension_enabled;
        if switched {
            self.dimension.switch_dimension();
        }
        TickReport { collisions, switched }
    }
}

/// Starts a level from its document: the level's data, and its tutorial,
/// which holds the tutorial's hints, with switching locked, when the level
/// is the tutorial, and is empty otherwise.
pub fn setup_level(level_data: &MapData, level: LevelChoice) -> (r: (GameData, Tutorial))
    requires
        valid_size(level_data.size),
        cell_count(level_data.size) <= usize::MAX,
    ensures
        r.0.map.wf(),
        r.0.map.width == level_data.size,
        r.0.map.height == grid_height(level_data.size),
        r.0.map.shows(placements(*level_data)),
        r.0.player == start_player(*level_data),
        r.0.dimension == Dimension::Light,
        r.0.dimension_enabled == (level != LevelChoice::Tutorial),
        r.1.wf(),
        r.1.view().current is None,
        level != LevelChoice::Tutorial ==> r.1.view().messages.len() == 0,
        level == LevelChoice::Tutorial ==> r.1.view().messages.len() == tutorial_script().len(),
        level == LevelChoice::Tutorial ==> forall|k: int|
            0 <= k < tutorial_script().len() ==> {
                let m = #[trigger] r.1.view().messages[k];
                m.text@ == tutorial_script()[k].0 && m.col == tutorial_script()[k].1
            },
{
    let mut game_data = GameData::new(level_data);
    let mut tutorial = Tutorial::new();
    match level {
        LevelChoice::Tutorial => {
            init_tuto(&mut game_data, &mut tutorial);
            assert forall|k: int| 0 <= k < tutorial_script().len() implies {
                let m = #[trigger] tutorial.view().messages[k];
                m.text@ == tutorial_script()[k].0 && m.col == tutorial_script()[k].1
            } by {
                assert(tutorial.view().messages[0 + k] == tutorial.view().messages[k]);
            }
        },
        _ => {},
    }
    (game_data, tutorial)
}

} // verus!
