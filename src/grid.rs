use vstd::prelude::*;
use vstd::arithmetic::div_mod::{lemma_fundamental_div_mod_converse, lemma_multiply_divide_lt};
use crate::dimension::Dimension;
use crate::map_data::{self, MapData, valid_size, grid_height, WIDTH_STEP, ROWS_PER_16_COLUMNS};

verus! {

/// A door held by a cell; it blocks the player until it is open.
#[derive(Clone, Copy, Debug, PartialEq, Eq, Structural)]
pub struct Door {
    pub open: bool,
    pub id: u32,
}

/// A key held by a cell; picking it up opens the doors whose id is `door_id`.
#[derive(Clone, Copy, Debug, PartialEq, Eq, Structural)]
pub struct Key {
    pub taken: bool,
    pub door_id: u32,
}

/// What a cell holds.
#[derive(Clone, Copy, Debug, PartialEq, Eq, Structural)]
pub enum ItemType {
    Goal,
    Wall,
    Door(Door),
    Key(Key),
    Empty,
}

/// One grid position, in cell units, and what it holds.
#[derive(Clone, Copy, Debug, PartialEq, Eq, Structural)]
pub struct Cell {
    pub x: i64,
    pub y: i64,
    pub item_type: ItemType,
}

impl Cell {
    /// An empty cell at `(x, y)`.
    pub fn new(x: i32, y: i32) -> (r: Cell)
        ensures
            r == (Cell { x: x as i64, y: y as i64, item_type: ItemType::Empty }),
    {
        Cell { x: x as i64, y: y as i64, item_type: ItemType::Empty }
    }

    /// Puts `item_type` in the cell, replacing what it held; tells whether
    /// the cell held something before.
    pub fn set_data(&mut self, item_type: ItemType) -> (overwrote: bool)
        ensures
            *final(self) == (Cell { item_type, ..*old(self) }),
            overwrote == (old(self).item_type != ItemType::Empty),
    {
        let overwrote = match self.item_type {
            ItemType::Empty => false,
            _ => true,
        };
        self.item_type = item_type;
        overwrote
    }
}

/// Number of cells of one dimension's grid for a grid of width `size`.
pub open spec fn cell_count(size: i32) -> int {
    if size > 0 {
        size * grid_height(size)
    } else {
        0
    }
}

/// The two grids of a level, one per dimension, of the same shape. The cell
/// at column `x` and row `y` is at index `x * height + y` of each grid.
pub struct DualGrid {
    pub width: i32,
    pub height: i32,
    pub light_cells: Vec<Cell>,
    pub dark_cells: Vec<Cell>,
}

/// Facts on the flat index of a cell.
proof fn lemma_cell_index(x: int, y: int, w: int, h: int)
    requires
        0 <= x < w,
        0 <= y < h,
    ensures
        0 <= x * h + y < w * h,
        (x * h + y) / h == x,
        (x * h + y) % h == y,
{
    assert(0 <= x * h + y < w * h) by (nonlinear_arith)
        requires
            0 <= x < w,
            0 <= y < h,
    ;
    lemma_fundamental_div_mod_converse(x * h + y, h, x, y);
}

impl DualGrid {
    /// The grid of one dimension.
    pub open spec fn cells(&self, dimension: Dimension) -> Seq<Cell> {
        match dimension {
            Dimension::Light => self.light_cells@,
            Dimension::Dark => self.dark_cells@,
        }
    }

    pub open spec fn num_cells(&self) -> int {
        cell_count(self.width)
    }

    pub open spec fn in_bounds(&self, x: int, y: int) -> bool {
        0 <= x < self.width && 0 <= y < self.height
    }

    pub open spec fn index_of(&self, x: int, y: int) -> int {
        x * self.height + y
    }

    /// What the cell at `(x, y)` of a dimension holds.
    pub open spec fn item_at(&self, dimension: Dimension, x: int, y: int) -> ItemType {
        self.cells(dimension)[self.index_of(x, y)].item_type
    }

    /// The shape is fixed by the width, both grids have one cell per
    /// position, and each cell knows its own position.
    pub open spec fn wf(&self) -> bool {
        &&& valid_size(self.width)
        &&& self.height == grid_height(self.width)
        &&& self.num_cells() <= usize::MAX
        &&& self.light_cells@.len() == self.num_cells()
        &&& self.dark_cells@.len() == self.num_cells()
        &&& forall|d: Dimension, i: int|
            0 <= i < self.num_cells() ==> (#[trigger] self.cells(d)[i]).x == i / (self.height as int)
                && self.cells(d)[i].y == i % (self.height as int)
    }

    /// Two empty grids for a level of width `size`.
    fn empty(size: i32) -> (r: DualGrid)
        requires
            valid_size(size),
            cell_count(size) <= usize::MAX,
        ensures
            r.wf(),
            r.width == size,
            forall|d: Dimension, i: int|
                0 <= i < r.num_cells() ==> (#[trigger] r.cells(d)[i]).item_type == ItemType::Empty,
    {
        let height: i32 = (size / WIDTH_STEP) * ROWS_PER_16_COLUMNS;
        let count: usize = if size > 0 {
            (size as usize) * (height as usize)
        } else {
            0
        };
        let mut light_cells: Vec<Cell> = Vec::new();
        let mut dark_cells: Vec<Cell> = Vec::new();
        let mut i: usize = 0;
        while i < count
            invariant
                count == cell_count(size),
                height == grid_height(size),
                count > 0 ==> height > 0 && size > 0,
                i <= count,
                light_cells@.len() == i,
                dark_cells@.len() == i,
                forall|j: int|
                    0 <= j < i ==> #[trigger] light_cells@[j].x == j / (height as int)
                        && light_cells@[j].y == j % (height as int)
                        && light_cells@[j].item_type == ItemType::Empty,
                forall|j: int|
                    0 <= j < i ==> #[trigger] dark_cells@[j].x == j / (height as int)
                        && dark_cells@[j].y == j % (height as int)
                        && dark_cells@[j].item_type == ItemType::Empty,
            decreases count - i,
        {
            let h = height as usize;
            let x = i / h;
            let y = i % h;
            proof {
                assert((i as int) < height * size) by (nonlinear_arith)
                    requires
                        (i as int) < count,
                        count == size * height,
                ;
                lemma_multiply_divide_lt(i as int, height as int, size as int);
            }
            let cell = Cell::new(x as i32, y as i32);
            assert(cell.x == i as int / height as int);
            assert(cell.y == i as int % height as int);
            light_cells.push(cell);
            dark_cells.push(cell);
            i = i + 1;
        }
        let r = DualGrid { width: size, height, light_cells, dark_cells };
        assert forall|d: Dimension, j: int| 0 <= j < r.num_cells() implies (#[trigger] r.cells(d)[j]).x
            == j / (r.height as int) && r.cells(d)[j].y == j % (r.height as int)
            && r.cells(d)[j].item_type == ItemType::Empty by {
            match d {
                Dimension::Light => assert(light_cells@[j].x == j / (height as int)),
                Dimension::Dark => assert(dark_cells@[j].x == j / (height as int)),
            }
        }
        r
    }

    /// A copy of the cell at `(x, y)` of a dimension, or `None` outside the grid.
    pub fn at(&self, x: i32, y: i32, dimension: Dimension) -> (r: Option<Cell>)
        requires
            self.wf(),
        ensures
            self.in_bounds(x as int, y as int) ==> r == Some(
                Cell { x: x as i64, y: y as i64, item_type: self.item_at(dimension, x as int, y as int) },
            ),
            !self.in_bounds(x as int, y as int) ==> r is None,
    {
        if x >= 0 && x < self.width && y >= 0 && y < self.height {
            proof {
                lemma_cell_index(x as int, y as int, self.width as int, self.height as int);
            }
            let index = (x as usize) * (self.height as usize) + (y as usize);
            assert(self.cells(dimension)[index as int].x == x);
            assert(self.cells(dimension)[index as int].y == y);
            match dimension {
                Dimension::Light => Some(self.light_cells[index]),
                Dimension::Dark => Some(self.dark_cells[index]),
            }
        } else {
            None
        }
    }
}

impl DualGrid {
    /// The cell at `(x, y)` of a dimension, to be changed in place, or `None`
    /// outside the grid.
    pub fn get_mut_cell(&mut self, x: i32, y: i32, dimension: Dimension) -> (r: Option<&mut Cell>)
        requires
            old(self).wf(),
        ensures
            old(self).in_bounds(x as int, y as int) <==> r is Some,
            match r {
                Some(c) => {
                    &&& *c == old(self).cells(dimension)[old(self).index_of(x as int, y as int)]
                    &&& final(self).width == old(self).width
                    &&& final(self).height == old(self).height
                    &&& final(self).cells(dimension) == old(self).cells(dimension).update(
                        old(self).index_of(x as int, y as int),
                        *final(c),
                    )
                    &&& final(self).cells(dimension.other()) == old(self).cells(dimension.other())
                },
                None => *final(self) == *old(self),
            },
    {
        if x >= 0 && x < self.width && y >= 0 && y < self.height {
            proof {
                lemma_cell_index(x as int, y as int, self.width as int, self.height as int);
            }
            let index = (x as usize) * (self.height as usize) + (y as usize);
            match dimension {
                Dimension::Light => Some(&mut self.light_cells[index]),
                Dimension::Dark => Some(&mut self.dark_cells[index]),
            }
        } else {
            None
        }
    }
}

/// An item that a map document puts at a position of one dimension.
#[derive(Clone, Copy, Debug, PartialEq, Eq, Structural)]
pub struct Placement {
    pub x: i32,
    pub y: i32,
    pub dimension: Dimension,
    pub item: ItemType,
}

/// Something in a map document that building the grid had to work around.
#[derive(Clone, Copy, Debug, PartialEq, Eq, Structural)]
pub enum BuildWarning {
    /// An entry lies outside the grid; it was dropped.
    OutOfGrid { x: i32, y: i32 },
    /// An entry landed on a cell that already held an item; the later entry won.
    Overwrite { x: i32, y: i32 },
}

pub open spec fn wall_placement(w: map_data::Wall) -> Placement {
    Placement { x: w.x, y: w.y, dimension: w.dimension, item: ItemType::Wall }
}

pub open spec fn door_placement(d: map_data::Door) -> Placement {
    Placement { x: d.x, y: d.y, dimension: d.dimension, item: ItemType::Door(Door { open: false, id: d.id }) }
}

pub open spec fn key_placement(k: map_data::Key) -> Placement {
    Placement {
        x: k.x,
        y: k.y,
        dimension: k.dimension,
        item: ItemType::Key(Key { taken: false, door_id: k.door_id }),
    }
}

/// The goal goes to the same position in both dimensions.
pub open spec fn goal_placements(d: MapData) -> Seq<Placement> {
    seq![
        Placement { x: d.goal_x, y: d.goal_y, dimension: Dimension::Light, item: ItemType::Goal },
        Placement { x: d.goal_x, y: d.goal_y, dimension: Dimension::Dark, item: ItemType::Goal },
    ]
}

/// Every item a document places, in the order the grid receives them: the
/// goal, then the walls, the doors and the keys, each in document order.
pub open spec fn placements(d: MapData) -> Seq<Placement> {
    goal_placements(d) + d.walls@.map_values(|w: map_data::Wall| wall_placement(w)) + d.doors@.map_values(
        |e: map_data::Door| door_placement(e),
    ) + d.keys@.map_values(|k: map_data::Key| key_placement(k))
}

/// What a cell holds after a sequence of placements: the item of the last
/// one aimed at it, or nothing.
pub open spec fn last_write(ps: Seq<Placement>, dimension: Dimension, x: int, y: int) -> ItemType
    decreases ps.len(),
{
    if ps.len() == 0 {
        ItemType::Empty
    } else {
        let p = ps.last();
        if p.dimension == dimension && p.x == x && p.y == y {
            p.item
        } else {
            last_write(ps.drop_last(), dimension, x, y)
        }
    }
}

/// The warnings a sequence of placements gives on a grid of the given shape.
pub open spec fn warnings_of(width: int, height: int, ps: Seq<Placement>) -> Seq<BuildWarning>
    decreases ps.len(),
{
    if ps.len() == 0 {
        Seq::empty()
    } else {
        let p = ps.last();
        let before = warnings_of(width, height, ps.drop_last());
        if !(0 <= p.x < width && 0 <= p.y < height) {
            before.push(BuildWarning::OutOfGrid { x: p.x, y: p.y })
        } else if last_write(ps.drop_last(), p.dimension, p.x as int, p.y as int) != ItemType::Empty {
            before.push(BuildWarning::Overwrite { x: p.x, y: p.y })
        } else {
            before
        }
    }
}

impl DualGrid {
    /// Every cell holds what the placements `ps` put there last.
    pub open spec fn shows(&self, ps: Seq<Placement>) -> bool {
        forall|d: Dimension, x: int, y: int|
            self.in_bounds(x, y) ==> #[trigger] self.item_at(d, x, y) == last_write(ps, d, x, y)
    }

    /// Puts one more item in the grid, or records why it could not or what
    /// it replaced.
    fn place(
        &mut self,
        p: Placement,
        warnings: &mut Vec<BuildWarning>,
        Ghost(ps): Ghost<Seq<Placement>>,
    )
        requires
            old(self).wf(),
            old(self).shows(ps),
            old(warnings)@ == warnings_of(old(self).width as int, old(self).height as int, ps),
        ensures
            final(self).wf(),
            final(self).width == old(self).width,
            final(self).height == old(self).height,
            final(self).shows(ps.push(p)),
            final(warnings)@ == warnings_of(final(self).width as int, final(self).height as int, ps.push(p)),
    {
        let ghost pre = *self;
        match self.get_mut_cell(p.x, p.y, p.dimension) {
            Some(cell) => {
                let overwrote = cell.set_data(p.item);
                if overwrote {
                    warnings.push(BuildWarning::Overwrite { x: p.x, y: p.y });
                }
            },
            None => {
                warnings.push(BuildWarning::OutOfGrid { x: p.x, y: p.y });
            },
        }
        proof {
            let h = pre.height as int;
            let w = pre.width as int;
            assert(ps.push(p).drop_last() =~= ps);
            assert(ps.push(p).last() == p);
            if pre.in_bounds(p.x as int, p.y as int) {
                lemma_cell_index(p.x as int, p.y as int, w, h);
                assert(pre.item_at(p.dimension, p.x as int, p.y as int) == last_write(
                    ps,
                    p.dimension,
                    p.x as int,
                    p.y as int,
                ));
                assert forall|d: Dimension, x: int, y: int| self.in_bounds(x, y) implies #[trigger] self.item_at(
                    d,
                    x,
                    y,
                ) == last_write(ps.push(p), d, x, y) by {
                    lemma_cell_index(x, y, w, h);
                    assert(pre.item_at(d, x, y) == last_write(ps, d, x, y));
                    if d != p.dimension {
                        assert(p.dimension.other() == d);
                    }
                }
            } else {
                assert forall|d: Dimension, x: int, y: int| self.in_bounds(x, y) implies #[trigger] self.item_at(
                    d,
                    x,
                    y,
                ) == last_write(ps.push(p), d, x, y) by {
                    assert(pre.item_at(d, x, y) == last_write(ps, d, x, y));
                }
            }
        }
    }
}

/// No wall, door or key entry of a document shares the goal's cell.
pub open spec fn goal_unshared(map_data: MapData) -> bool {
    &&& forall|k: int|
        0 <= k < map_data.walls@.len() ==> !(#[trigger] map_data.walls@[k].x == map_data.goal_x
            && map_data.walls@[k].y == map_data.goal_y)
    &&& forall|k: int|
        0 <= k < map_data.doors@.len() ==> !(#[trigger] map_data.doors@[k].x == map_data.goal_x
            && map_data.doors@[k].y == map_data.goal_y)
    &&& forall|k: int|
        0 <= k < map_data.keys@.len() ==> !(#[trigger] map_data.keys@[k].x == map_data.goal_x
            && map_data.keys@[k].y == map_data.goal_y)
}

/// Fills a grid of empty cells with a document's goal, walls, doors and
/// keys, in that order; returns what it had to work around.
fn generate_map(map_data: &MapData, map: &mut DualGrid) -> (warnings: Vec<BuildWarning>)
    requires
        old(map).wf(),
        old(map).shows(Seq::empty()),
    ensures
        final(map).wf(),
        final(map).width == old(map).width,
        final(map).height == old(map).height,
        final(map).shows(placements(*map_data)),
        warnings@ == warnings_of(old(map).width as int, old(map).height as int, placements(*map_data)),
{
    let ghost w = map.width as int;
    let ghost h = map.height as int;
    let ghost goal = goal_placements(*map_data);
    let ghost walls = map_data.walls@.map_values(|e: map_data::Wall| wall_placement(e));
    let ghost doors = map_data.doors@.map_values(|e: map_data::Door| door_placement(e));
    let ghost keys = map_data.keys@.map_values(|e: map_data::Key| key_placement(e));
    let mut warnings: Vec<BuildWarning> = Vec::new();
    let light_goal = Placement {
        x: map_data.goal_x,
        y: map_data.goal_y,
        dimension: Dimension::Light,
        item: ItemType::Goal,
    };
    let dark_goal = Placement { dimension: Dimension::Dark, ..light_goal };
    map.place(light_goal, &mut warnings, Ghost(Seq::empty()));
    map.place(dark_goal, &mut warnings, Ghost(Seq::empty().push(light_goal)));
    assert(Seq::empty().push(light_goal).push(dark_goal) =~= goal);
    let mut i: usize = 0;
    while i < map_data.walls.len()
        invariant
            goal == goal_placements(*map_data),
            walls == map_data.walls@.map_values(|e: map_data::Wall| wall_placement(e)),
            doors == map_data.doors@.map_values(|e: map_data::Door| door_placement(e)),
            keys == map_data.keys@.map_values(|e: map_data::Key| key_placement(e)),
            w == old(map).width,
            h == old(map).height,
            map.wf(),
            map.width == w,
            map.height == h,
            i <= map_data.walls@.len(),
            walls.len() == map_data.walls@.len(),
            map.shows(goal + walls.take(i as int)),
            warnings@ == warnings_of(w, h, goal + walls.take(i as int)),
        decreases map_data.walls.len() - i,
    {
        let e = map_data.walls[i];
        let p = Placement { x: e.x, y: e.y, dimension: e.dimension, item: ItemType::Wall };
        map.place(p, &mut warnings, Ghost(goal + walls.take(i as int)));
        assert(walls[i as int] == p);
        assert(walls.take(i + 1) =~= walls.take(i as int).push(p));
        assert(goal + walls.take(i + 1) =~= (goal + walls.take(i as int)).push(p));
        i = i + 1;
    }
    assert(walls.take(i as int) =~= walls);
    let mut i: usize = 0;
    while i < map_data.doors.len()
        invariant
            goal == goal_placements(*map_data),
            walls == map_data.walls@.map_values(|e: map_data::Wall| wall_placement(e)),
            doors == map_data.doors@.map_values(|e: map_data::Door| door_placement(e)),
            keys == map_data.keys@.map_values(|e: map_data::Key| key_placement(e)),
            w == old(map).width,
            h == old(map).height,
            map.wf(),
            map.width == w,
            map.height == h,
            i <= map_data.doors@.len(),
            doors.len() == map_data.doors@.len(),
            map.shows(goal + walls + doors.take(i as int)),
            warnings@ == warnings_of(w, h, goal + walls + doors.take(i as int)),
        decreases map_data.doors.len() - i,
    {
        let e = map_data.doors[i];
        let p = Placement {
            x: e.x,
            y: e.y,
            dimension: e.dimension,
            item: ItemType::Door(Door { open: false, id: e.id }),
        };
        map.place(p, &mut warnings, Ghost(goal + walls + doors.take(i as int)));
        assert(doors[i as int] == p);
        assert(doors.take(i + 1) =~= doors.take(i as int).push(p));
        assert(goal + walls + doors.take(i + 1) =~= (goal + walls + doors.take(i as int)).push(p));
        i = i + 1;
    }
    assert(doors.take(i as int) =~= doors);
    let mut i: usize = 0;
    while i < map_data.keys.len()
        invariant
            goal == goal_placements(*map_data),
            walls == map_data.walls@.map_values(|e: map_data::Wall| wall_placement(e)),
            doors == map_data.doors@.map_values(|e: map_data::Door| door_placement(e)),
            keys == map_data.keys@.map_values(|e: map_data::Key| key_placement(e)),
            w == old(map).width,
            h == old(map).height,
            map.wf(),
            map.width == w,
            map.height == h,
            i <= map_data.keys@.len(),
            keys.len() == map_data.keys@.len(),
            map.shows(goal + walls + doors + keys.take(i as int)),
            warnings@ == warnings_of(w, h, goal + walls + doors + keys.take(i as int)),
        decreases map_data.keys.len() - i,
    {
        let e = map_data.keys[i];
        let p = Placement {
            x: e.x,
            y: e.y,
            dimension: e.dimension,
            item: ItemType::Key(Key { taken: false, door_id: e.door_id }),
        };
        map.place(p, &mut warnings, Ghost(goal + walls + doors + keys.take(i as int)));
        assert(keys[i as int] == p);
        assert(keys.take(i + 1) =~= keys.take(i as int).push(p));
        assert(goal + walls + doors + keys.take(i + 1) =~= (goal + walls + doors + keys.take(i as int)).push(
            p,
        ));
        i = i + 1;
    }
    assert(keys.take(i as int) =~= keys);
    warnings
}

impl DualGrid {
    /// Builds the two grids of a level from its document, and reports the
    /// entries that fell outside the grid or landed on an occupied cell.
    pub fn build(map_data: &MapData) -> (r: (DualGrid, Vec<BuildWarning>))
        requires
            valid_size(map_data.size),
            cell_count(map_data.size) <= usize::MAX,
        ensures
            r.0.wf(),
            r.0.width == map_data.size,
            r.0.height == grid_height(map_data.size),
            r.0.shows(placements(*map_data)),
            r.1@ == warnings_of(r.0.width as int, r.0.height as int, placements(*map_data)),
            r.0.light_cells@.len() == cell_count(map_data.size),
            r.0.dark_cells@.len() == cell_count(map_data.size),
            r.0.in_bounds(map_data.goal_x as int, map_data.goal_y as int) && goal_unshared(*map_data)
                ==> r.0.item_at(Dimension::Light, map_data.goal_x as int, map_data.goal_y as int)
                == ItemType::Goal && r.0.item_at(Dimension::Dark, map_data.goal_x as int, map_data.goal_y as int)
                == ItemType::Goal,
    {
        let mut map = DualGrid::empty(map_data.size);
        proof {
            assert forall|d: Dimension, x: int, y: int| map.in_bounds(x, y) implies #[trigger] map.item_at(
                d,
                x,
                y,
            ) == last_write(Seq::empty(), d, x, y) by {
                lemma_cell_index(x, y, map.width as int, map.height as int);
            }
        }
        let warnings = generate_map(map_data, &mut map);
        proof {
            if map.in_bounds(map_data.goal_x as int, map_data.goal_y as int) && goal_unshared(*map_data) {
                lemma_goal_in_both_dimensions(*map_data, map);
            }
        }
        (map, warnings)
    }

    /// Builds the two grids of a level from its document.
    pub fn new(map_data: &MapData) -> (r: DualGrid)
        requires
            valid_size(map_data.size),
            cell_count(map_data.size) <= usize::MAX,
        ensures
            r.wf(),
            r.width == map_data.size,
            r.height == grid_height(map_data.size),
            r.shows(placements(*map_data)),
            r.light_cells@.len() == cell_count(map_data.size),
            r.dark_cells@.len() == cell_count(map_data.size),
            r.in_bounds(map_data.goal_x as int, map_data.goal_y as int) && goal_unshared(*map_data)
                ==> r.item_at(Dimension::Light, map_data.goal_x as int, map_data.goal_y as int)
                == ItemType::Goal && r.item_at(Dimension::Dark, map_data.goal_x as int, map_data.goal_y as int)
                == ItemType::Goal,
    {
        DualGrid::build(map_data).0
    }
}

/// What an item becomes when the doors and keys of `door_id` are unlocked:
/// such a door opens, such a key is taken, anything else stays as it is.
pub open spec fn unlocked(item: ItemType, door_id: u32) -> ItemType {
    match item {
        ItemType::Door(d) => if d.id == door_id {
            ItemType::Door(Door { open: true, id: d.id })
        } else {
            item
        },
        ItemType::Key(k) => if k.door_id == door_id {
            ItemType::Key(Key { taken: true, door_id: k.door_id })
        } else {
            item
        },
        _ => item,
    }
}

/// Unlocks `door_id` in every cell of one grid.
fn unlock_cells(cells: &mut Vec<Cell>, door_id: u32)
    ensures
        final(cells)@.len() == old(cells)@.len(),
        forall|i: int|
            0 <= i < old(cells)@.len() ==> #[trigger] final(cells)@[i] == (Cell {
                item_type: unlocked(old(cells)@[i].item_type, door_id),
                ..old(cells)@[i]
            }),
{
    let mut i: usize = 0;
    while i < cells.len()
        invariant
            cells@.len() == old(cells)@.len(),
            i <= cells@.len(),
            forall|j: int|
                0 <= j < i ==> #[trigger] cells@[j] == (Cell {
                    item_type: unlocked(old(cells)@[j].item_type, door_id),
                    ..old(cells)@[j]
                }),
            forall|j: int| i <= j < cells@.len() ==> #[trigger] cells@[j] == old(cells)@[j],
        decreases cells@.len() - i,
    {
        let cell = cells[i];
        let item_type = match cell.item_type {
            ItemType::Door(d) => if d.id == door_id {
                ItemType::Door(Door { open: true, id: d.id })
            } else {
                cell.item_type
            },
            ItemType::Key(k) => if k.door_id == door_id {
                ItemType::Key(Key { taken: true, door_id: k.door_id })
            } else {
                cell.item_type
            },
            _ => cell.item_type,
        };
        cells[i] = Cell { item_type, ..cell };
        i = i + 1;
    }
}

impl DualGrid {
    /// Opens every door whose id is `door_id` and marks every key for it as
    /// taken, in both dimensions; nothing else changes.
    pub fn open_door(&mut self, door_id: u32)
        requires
            old(self).wf(),
        ensures
            final(self).wf(),
            final(self).width == old(self).width,
            final(self).height == old(self).height,
            forall|d: Dimension, i: int|
                0 <= i < old(self).num_cells() ==> #[trigger] final(self).cells(d)[i] == (Cell {
                    item_type: unlocked(old(self).cells(d)[i].item_type, door_id),
                    ..old(self).cells(d)[i]
                }),
            forall|d: Dimension, x: int, y: int|
                old(self).in_bounds(x, y) ==> #[trigger] final(self).item_at(d, x, y) == unlocked(
                    old(self).item_at(d, x, y),
                    door_id,
                ),
    {
        let ghost pre = *self;
        unlock_cells(&mut self.light_cells, door_id);
        unlock_cells(&mut self.dark_cells, door_id);
        proof {
            assert forall|d: Dimension, i: int| 0 <= i < pre.num_cells() implies #[trigger] self.cells(d)[i]
                == (Cell { item_type: unlocked(pre.cells(d)[i].item_type, door_id), ..pre.cells(d)[i] }) by {
                match d {
                    Dimension::Light => assert(self.light_cells@[i] == (Cell {
                        item_type: unlocked(pre.light_cells@[i].item_type, door_id),
                        ..pre.light_cells@[i]
                    })),
                    Dimension::Dark => assert(self.dark_cells@[i] == (Cell {
                        item_type: unlocked(pre.dark_cells@[i].item_type, door_id),
                        ..pre.dark_cells@[i]
                    })),
                }
            }
            assert forall|d: Dimension, x: int, y: int| pre.in_bounds(x, y) implies #[trigger] self.item_at(
                d,
                x,
                y,
            ) == unlocked(pre.item_at(d, x, y), door_id) by {
                lemma_cell_index(x, y, pre.width as int, pre.height as int);
                assert(self.cells(d)[pre.index_of(x, y)] == (Cell {
                    item_type: unlocked(pre.cells(d)[pre.index_of(x, y)].item_type, door_id),
                    ..pre.cells(d)[pre.index_of(x, y)]
                }));
            }
        }
    }
}

/// Placements that never aim at a cell leave what it holds unchanged.
proof fn lemma_last_write_skip(ps: Seq<Placement>, qs: Seq<Placement>, d: Dimension, x: int, y: int)
    requires
        forall|k: int|
            0 <= k < qs.len() ==> !(#[trigger] qs[k].dimension == d && qs[k].x == x && qs[k].y == y),
    ensures
        last_write(ps + qs, d, x, y) == last_write(ps, d, x, y),
    decreases qs.len(),
{
    if qs.len() > 0 {
        assert((ps + qs).drop_last() =~= ps + qs.drop_last());
        assert((ps + qs).last() == qs[qs.len() - 1]);
        lemma_last_write_skip(ps, qs.drop_last(), d, x, y);
    } else {
        assert(ps + qs =~= ps);
    }
}

/// Once a grid is built from a document whose goal lies inside the grid and
/// shares its cell with no wall, door or key entry, the goal is at that
/// cell in both dimensions.
pub proof fn lemma_goal_in_both_dimensions(map_data: MapData, grid: DualGrid)
    requires
        grid.shows(placements(map_data)),
        grid.in_bounds(map_data.goal_x as int, map_data.goal_y as int),
        goal_unshared(map_data),
    ensures
        grid.item_at(Dimension::Light, map_data.goal_x as int, map_data.goal_y as int) == ItemType::Goal,
        grid.item_at(Dimension::Dark, map_data.goal_x as int, map_data.goal_y as int) == ItemType::Goal,
{
    let gx = map_data.goal_x as int;
    let gy = map_data.goal_y as int;
    let goal = goal_placements(map_data);
    let rest = map_data.walls@.map_values(|w: map_data::Wall| wall_placement(w)) + map_data.doors@.map_values(
        |e: map_data::Door| door_placement(e),
    ) + map_data.keys@.map_values(|k: map_data::Key| key_placement(k));
    assert(placements(map_data) =~= goal + rest);
    assert forall|k: int| 0 <= k < rest.len() implies !(#[trigger] rest[k].x == gx && rest[k].y == gy) by {
        let nw = map_data.walls@.len() as int;
        let nd = map_data.doors@.len() as int;
        if k < nw {
            assert(rest[k] == wall_placement(map_data.walls@[k]));
        } else if k < nw + nd {
            assert(rest[k] == door_placement(map_data.doors@[k - nw]));
        } else {
            assert(rest[k] == key_placement(map_data.keys@[k - nw - nd]));
        }
    }
    assert(goal.drop_last() =~= seq![goal[0]]);
    assert(last_write(goal, Dimension::Dark, gx, gy) == ItemType::Goal);
    assert(last_write(goal.drop_last(), Dimension::Light, gx, gy) == ItemType::Goal);
    assert(last_write(goal, Dimension::Light, gx, gy) == ItemType::Goal);
    lemma_last_write_skip(goal, rest, Dimension::Light, gx, gy);
    lemma_last_write_skip(goal, rest, Dimension::Dark, gx, gy);
    assert(grid.item_at(Dimension::Light, gx, gy) == last_write(placements(map_data), Dimension::Light, gx, gy));
    assert(grid.item_at(Dimension::Dark, gx, gy) == last_write(placements(map_data), Dimension::Dark, gx, gy));
}

/// The id of the door a presentation entity stands for, so that the entity
/// can go when its door opens.
#[derive(Clone, Copy, Debug, PartialEq, Eq, Structural)]
pub struct DoorId(pub u32);

impl DoorId {
    /// Whether this door is among the door ids `opened`.
    pub fn opened_by(&self, opened: &Vec<u32>) -> (r: bool)
        ensures
            r == opened@.contains(self.0),
    {
        let mut i: usize = 0;
        while i < opened.len()
            invariant
                i <= opened@.len(),
                forall|j: int| 0 <= j < i ==> opened@[j] != self.0,
            decreases opened@.len() - i,
        {
            if opened[i] == self.0 {
                assert(opened@[i as int] == self.0);
                return true;
            }
            i = i + 1;
        }
        false
    }
}

} // verus!
