//! The application state: the registry of tiles with its active tile, the
//! palette, and the preview map.

use vstd::prelude::*;
use crate::canvas::{decoded_tile, saved_bytes, Canvas, CanvasView};
use crate::grid::{blank_cells, is_grid, lemma_transforms_keep_grid, lemma_variant_keeps_grid};
use crate::random::{random_flag, random_index};
use crate::listing::{in_path_order, is_sorted_order, occurs, occurs_at, path_keys, path_order};
use crate::tile_file::{file_views, tile_path, TileFile, TileFileView};
use crate::color::Color;
use crate::error::TileError;

verus! {

/// Side length of the preview map, in tiles.
pub const MAP_SIZE: usize = 16;

/// What the application state is, as mathematical values.
pub struct AppStateView {
    pub active_canvas_id: usize,
    pub modules: Seq<CanvasView>,
    pub selected_color: Color,
    pub palette: Seq<Color>,
    pub map: Seq<Seq<CanvasView>>,
}

/// The colours offered for painting: black, white and a teal.
pub open spec fn default_palette() -> Seq<Color> {
    seq![Color::black(), Color::white(), Color { r: 10, g: 127, b: 127 }]
}

impl AppStateView {
    /// Identifiers grow along the registry, so no two tiles share one and
    /// the last tile carries the largest; the identifier after the largest
    /// is one that the machine can hold; and every tile, in the registry and
    /// on the map, has all its cells.
    pub open spec fn registry_ok(self) -> bool {
        &&& forall|i: int, j: int|
            0 <= i < j < self.modules.len() ==> (#[trigger] self.modules[i]).id < (
            #[trigger] self.modules[j]).id
        &&& forall|i: int|
            0 <= i < self.modules.len() ==> is_grid((#[trigger] self.modules[i]).cells)
        &&& forall|r: int, c: int|
            0 <= r < self.map.len() && 0 <= c < self.map[r].len() ==> is_grid(
                (#[trigger] self.map[r][c]).cells,
            )
        &&& self.next_id() <= usize::MAX
    }

    /// The tile at place `i` of the registry carries the identifier `id`.
    pub open spec fn carries(self, i: int, id: usize) -> bool {
        carries(self.modules, i, id)
    }

    /// Some tile of the registry carries the identifier `id`.
    pub open spec fn has_tile(self, id: usize) -> bool {
        exists|i: int| carries(self.modules, i, id)
    }

    /// The place in the registry of the tile that carries the identifier
    /// `id`.
    pub open spec fn index_of(self, id: usize) -> int {
        place_of(self.modules, id)
    }

    /// The registry holds at least one tile, and the active identifier is
    /// that of one of its tiles.
    pub open spec fn wf(self) -> bool {
        &&& self.registry_ok()
        &&& self.modules.len() >= 1
        &&& self.has_tile(self.active_canvas_id)
    }

    /// Well formed, or still without tiles and waiting for them to be loaded.
    pub open spec fn loadable(self) -> bool {
        &&& self.registry_ok()
        &&& if self.modules.len() == 0 {
            self.active_canvas_id == 0
        } else {
            self.has_tile(self.active_canvas_id)
        }
    }

    /// The active tile.
    pub open spec fn active_module(self) -> CanvasView {
        self.modules[self.index_of(self.active_canvas_id)]
    }

    /// The same state with `module` in place of the active tile.
    pub open spec fn with_active_module(self, module: CanvasView) -> AppStateView {
        AppStateView {
            modules: self.modules.update(self.index_of(self.active_canvas_id), module),
            ..self
        }
    }

    /// The identifier that the next new tile gets: one more than that of the
    /// last tile, zero in an empty registry.
    pub open spec fn next_id(self) -> int {
        if self.modules.len() == 0 {
            0
        } else {
            self.modules.last().id + 1
        }
    }

    /// The state after `color` was selected: the active tile paints with it.
    pub open spec fn with_color(self, color: Color) -> AppStateView {
        AppStateView {
            selected_color: color,
            ..self.with_active_module(CanvasView { current_color: color, ..self.active_module() })
        }
    }

    /// The state after the tile with identifier `id` was made the active
    /// one: it paints with the selected colour.
    pub open spec fn activated(self, id: usize) -> AppStateView {
        let chosen = AppStateView { active_canvas_id: id, ..self };
        chosen.with_active_module(
            CanvasView { current_color: self.selected_color, ..chosen.active_module() },
        )
    }

    /// The state after a blank tile was added: it carries the next
    /// identifier, is the active one and paints with the selected colour.
    pub open spec fn with_new_module(self) -> AppStateView {
        AppStateView {
            active_canvas_id: self.next_id() as usize,
            modules: self.modules.push(
                CanvasView {
                    current_color: self.selected_color,
                    ..CanvasView::fresh(self.next_id() as usize, blank_cells())
                },
            ),
            ..self
        }
    }
}

/// The tile at place `i` of `modules` carries the identifier `id`.
pub open spec fn carries(modules: Seq<CanvasView>, i: int, id: usize) -> bool {
    0 <= i < modules.len() && modules[i].id == id
}

/// The place in `modules` of a tile that carries the identifier `id`.
pub open spec fn place_of(modules: Seq<CanvasView>, id: usize) -> int {
    choose|i: int| carries(modules, i, id)
}

/// In a registry whose identifiers grow, an identifier is carried at one
/// place only, and no tile carries a larger identifier than the last.
pub proof fn lemma_place_of_id(state: AppStateView, i: int, id: usize)
    requires
        state.registry_ok(),
        state.carries(i, id),
    ensures
        state.has_tile(id),
        state.index_of(id) == i,
        id < state.next_id(),
{
    let chosen = state.index_of(id);
    assert(state.carries(chosen, id));
    if chosen < i {
        assert(state.modules[chosen].id < state.modules[i].id);
    } else if i < chosen {
        assert(state.modules[i].id < state.modules[chosen].id);
    }
    if i < state.modules.len() - 1 {
        assert(state.modules[i].id < state.modules[state.modules.len() - 1].id);
    }
}

/// A change to the active tile that keeps its identifier and the number of
/// its cells leaves the state well formed, with the same tile active.
pub proof fn lemma_change_of_active_tile(state: AppStateView, module: CanvasView)
    requires
        state.wf(),
        module.id == state.active_module().id,
        is_grid(module.cells),
    ensures
        state.with_active_module(module).wf(),
        state.with_active_module(module).index_of(state.active_canvas_id) == state.index_of(
            state.active_canvas_id,
        ),
        state.with_active_module(module).active_module() == module,
{
    let place = state.index_of(state.active_canvas_id);
    let after = state.with_active_module(module);
    assert(state.carries(place, state.active_canvas_id));
    assert(after.carries(place, state.active_canvas_id));
    assert forall|i: int, j: int| 0 <= i < j < after.modules.len() implies (
    #[trigger] after.modules[i]).id < (#[trigger] after.modules[j]).id by {
        assert(state.modules[i].id < state.modules[j].id);
    }
    assert forall|i: int| 0 <= i < after.modules.len() implies is_grid(
        (#[trigger] after.modules[i]).cells,
    ) by {
        if i != place {
            assert(is_grid(state.modules[i].cells));
        }
    }
    assert(after.map == state.map);
    lemma_place_of_id(after, place, state.active_canvas_id);
}

/// One draw for a place on the map: which tile of the registry is copied
/// there, and which of the three transforms the copy undergoes.
#[derive(Clone, Copy, Debug, PartialEq, Eq, Structural)]
pub struct MapDraw {
    pub index: usize,
    pub rotated: bool,
    pub flipped_horizontal: bool,
    pub flipped_vertical: bool,
}

/// One draw for each place on the map, each naming a tile of a registry of
/// `tiles` tiles.
pub open spec fn valid_draws(draws: Seq<MapDraw>, tiles: nat) -> bool {
    &&& draws.len() == MAP_SIZE * MAP_SIZE
    &&& forall|k: int| 0 <= k < draws.len() ==> (#[trigger] draws[k]).index < tiles
}

/// The copy that a draw places on the map.
pub open spec fn placed(modules: Seq<CanvasView>, draw: MapDraw) -> CanvasView {
    modules[draw.index as int].variant(draw.rotated, draw.flipped_horizontal, draw.flipped_vertical)
}

/// The map that the draws assemble from the tiles of the registry: row `r`
/// holds in place `c` the copy placed by draw `r * MAP_SIZE + c`.
pub open spec fn assembled_map(modules: Seq<CanvasView>, draws: Seq<MapDraw>) -> Seq<
    Seq<CanvasView>,
> {
    Seq::new(
        MAP_SIZE as nat,
        |r: int| Seq::new(MAP_SIZE as nat, |c: int| placed(modules, draws[r * MAP_SIZE + c])),
    )
}

/// The tiles that a list of image files holds, with identifiers counted on
/// from `first_id` in the order of the list; `None` when one of the files
/// does not hold a tile.
pub open spec fn loaded_tiles(files: Seq<TileFileView>, first_id: int) -> Option<Seq<CanvasView>> {
    if forall|i: int| 0 <= i < files.len() ==> #[trigger] holds_tile(files[i]) {
        Some(
            Seq::new(
                files.len(),
                |i: int|
                    CanvasView::fresh(
                        (first_id + i) as usize,
                        decoded_tile(files[i].bytes)->Some_0,
                    ),
            ),
        )
    } else {
        None
    }
}

/// The file holds a tile.
pub open spec fn holds_tile(file: TileFileView) -> bool {
    decoded_tile(file.bytes) is Some
}

/// A registry is never left empty: where there is no tile, one blank tile
/// with identifier zero is put in.
pub open spec fn backfilled(modules: Seq<CanvasView>) -> Seq<CanvasView> {
    if modules.len() == 0 {
        seq![CanvasView::fresh(0, blank_cells())]
    } else {
        modules
    }
}

/// Every place of an assembled map holds a copy of some tile of the
/// registry, turned and mirrored in one of the eight ways.
pub proof fn lemma_map_cells_are_variants(
    modules: Seq<CanvasView>,
    draws: Seq<MapDraw>,
    r: int,
    c: int,
)
    requires
        valid_draws(draws, modules.len()),
        0 <= r < MAP_SIZE,
        0 <= c < MAP_SIZE,
    ensures
        assembled_map(modules, draws).len() == MAP_SIZE,
        assembled_map(modules, draws)[r].len() == MAP_SIZE,
        exists|i: int, rotated: bool, flipped_horizontal: bool, flipped_vertical: bool|
            0 <= i < modules.len() && assembled_map(modules, draws)[r][c] == (
            #[trigger] modules[i].variant(rotated, flipped_horizontal, flipped_vertical)),
{
    let draw = draws[r * MAP_SIZE + c];
    assert(assembled_map(modules, draws)[r][c] == modules[draw.index as int].variant(
        draw.rotated,
        draw.flipped_horizontal,
        draw.flipped_vertical,
    ));
}

/// The views of a sequence of tiles.
pub open spec fn canvas_views(tiles: Seq<Canvas>) -> Seq<CanvasView> {
    Seq::new(tiles.len(), |i: int| tiles[i]@)
}

/// The application state: tiles in the order they were added, the identifier
/// of the active one, the colour selected in the palette, the palette, and
/// the preview map row by row.
#[derive(Debug)]
pub struct AppState {
    active_canvas_id: usize,
    modules: Vec<Canvas>,
    selected_color: Color,
    palette: Vec<Color>,
    map: Vec<Vec<Canvas>>,
}

impl View for AppState {
    type V = AppStateView;

    closed spec fn view(&self) -> AppStateView {
        AppStateView {
            active_canvas_id: self.active_canvas_id,
            modules: canvas_views(self.modules@),
            selected_color: self.selected_color,
            palette: self.palette@,
            map: Seq::new(self.map@.len(), |r: int| canvas_views(self.map@[r]@)),
        }
    }
}

impl AppState {
    /// See [`AppStateView::wf`].
    pub open spec fn wf(&self) -> bool {
        self@.wf()
    }

    /// The state the application starts in: the tiles that the given files
    /// hold, taken in the order of their paths, or one blank tile where
    /// there is no file; the first tile active; white selected in the
    /// default palette; no map yet. `Decode` when one of the files does not
    /// hold a tile.
    pub fn new(files: &Vec<TileFile>) -> (result: Result<AppState, TileError>)
        ensures
            match result {
                Ok(state) => {
                    &&& state.wf()
                    &&& loaded_tiles(in_path_order(file_views(files@)), 0) matches Some(tiles)
                    &&& state@ == (AppStateView {
                        active_canvas_id: 0,
                        modules: backfilled(tiles),
                        selected_color: Color::white(),
                        palette: default_palette(),
                        map: Seq::empty(),
                    })
                },
                Err(error) => loaded_tiles(in_path_order(file_views(files@)), 0) is None && error
                    == TileError::Decode,
            },
            result is Ok <==> forall|i: int|
                0 <= i < files@.len() ==> holds_tile(#[trigger] files@[i]@),
            files@.len() == 0 ==> result is Ok && result->Ok_0@.modules.len() == 1,
    {
        let mut palette: Vec<Color> = Vec::new();
        palette.push(Color::black());
        palette.push(Color::white());
        palette.push(Color::rgb8(10, 127, 127));
        assert(palette@ =~= default_palette());
        let mut state = AppState {
            active_canvas_id: 0,
            modules: Vec::new(),
            selected_color: Color::white(),
            palette,
            map: Vec::new(),
        };
        assert(state@.modules =~= Seq::empty());
        assert(state@.map =~= Seq::empty());
        match state.load_modules_from_path(files) {
            Ok(_) => {
                assert(state@.modules =~= backfilled(
                    loaded_tiles(in_path_order(file_views(files@)), 0)->Some_0,
                ));
                Ok(state)
            },
            Err(error) => Err(error),
        }
    }

    /// Appends the tiles that the given files hold, taken in the order of
    /// their paths and with identifiers counted on from the next free one.
    /// A registry that is empty after that gets one blank tile. `Decode`,
    /// and nothing changed, when one of the files does not hold a tile.
    pub fn load_modules_from_path(&mut self, files: &Vec<TileFile>) -> (result: Result<
        (),
        TileError,
    >)
        requires
            old(self)@.loadable(),
            old(self)@.next_id() + files.len() <= usize::MAX,
        ensures
            match result {
                Ok(_) => {
                    &&& final(self).wf()
                    &&& loaded_tiles(
                        in_path_order(file_views(files@)),
                        old(self)@.next_id(),
                    ) matches Some(tiles)
                    &&& final(self)@ == (AppStateView {
                        modules: backfilled(old(self)@.modules + tiles),
                        ..old(self)@
                    })
                },
                Err(error) => loaded_tiles(
                    in_path_order(file_views(files@)),
                    old(self)@.next_id(),
                ) is None && error == TileError::Decode && final(self)@ == old(self)@,
            },
            result is Ok <==> forall|i: int|
                0 <= i < files@.len() ==> holds_tile(#[trigger] files@[i]@),
            old(self)@.modules.len() == 0 && files@.len() == 0 ==> result is Ok
                && final(self)@.modules == seq![CanvasView::fresh(0, blank_cells())],
    {
        let first_id = self.next_id();
        let order = path_order(files);
        let ghost contents = in_path_order(file_views(files@));
        let mut tiles: Vec<Canvas> = Vec::new();
        let mut i: usize = 0;
        while i < order.len()
            invariant
                i <= order@.len(),
                order@.len() == files@.len(),
                is_sorted_order(path_keys(file_views(files@)), order@),
                forall|p: int| 0 <= p < order@.len() ==> (#[trigger] order@[p]) < files@.len(),
                first_id + files@.len() <= usize::MAX,
                contents == in_path_order(file_views(files@)),
                forall|p: int|
                    0 <= p < order@.len() ==> #[trigger] contents[p] == files@[order@[p] as int]@,
                tiles@.len() == i,
                forall|k: int| 0 <= k < i ==> holds_tile(#[trigger] contents[k]),
                forall|k: int|
                    0 <= k < i ==> (#[trigger] tiles@[k])@ == CanvasView::fresh(
                        (first_id + k) as usize,
                        decoded_tile(contents[k].bytes)->Some_0,
                    ) && tiles@[k].wf(),
            decreases order@.len() - i,
        {
            assert(contents[i as int] == files@[order@[i as int] as int]@);
            match Canvas::new_from_image(&files[order[i]], first_id + i) {
                Ok(canvas) => {
                    tiles.push(canvas);
                },
                Err(error) => {
                    assert(!holds_tile(contents[i as int]));
                    return Err(error);
                },
            }
            i += 1;
        }
        assert forall|j: int| 0 <= j < files@.len() implies holds_tile(#[trigger] files@[j]@) by {
            assert(occurs(order@, j));
            let p = choose|p: int| occurs_at(order@, p, j);
            assert(holds_tile(contents[p]));
        }
        let ghost loaded = loaded_tiles(contents, first_id as int)->Some_0;
        assert(canvas_views(tiles@) =~= loaded);
        assert(canvas_views(self.modules@ + tiles@) =~= canvas_views(self.modules@) + loaded);
        self.modules.append(&mut tiles);
        if self.modules.len() == 0 {
            let blank = Canvas::new(self.next_id());
            assert(canvas_views(self.modules@.push(blank)) =~= seq![blank@]);
            self.modules.push(blank);
        }
        proof {
            let before = old(self)@;
            let after = self@;
            let kept = before.modules.len() as int;
            assert(after.map == before.map);
            assert forall|k: int| 0 <= k < after.modules.len() implies is_grid(
                (#[trigger] after.modules[k]).cells,
            ) by {
                if k < kept {
                    assert(after.modules[k] == before.modules[k]);
                } else if kept + loaded.len() > 0 {
                    assert(after.modules[k] == loaded[k - kept]);
                }
            }
            assert forall|i: int, j: int| 0 <= i < j < after.modules.len() implies (
            #[trigger] after.modules[i]).id < (#[trigger] after.modules[j]).id by {
                assert(after.modules[j] == loaded[j - kept] || after.modules[j]
                    == before.modules[j]);
                if i < kept {
                    assert(after.modules[i] == before.modules[i]);
                    lemma_place_of_id(before, i, before.modules[i].id);
                } else {
                    assert(after.modules[i] == loaded[i - kept]);
                }
            }
            assert(after.modules.last() == after.modules[after.modules.len() - 1]);
            if kept > 0 {
                let place = before.index_of(before.active_canvas_id);
                assert(carries(before.modules, place, before.active_canvas_id));
                assert(after.modules[place] == before.modules[place]);
                assert(carries(after.modules, place, after.active_canvas_id));
            } else {
                assert(carries(after.modules, 0, after.active_canvas_id));
            }
        }
        Ok(())
    }

    /// The identifier of the active tile.
    pub fn active_canvas_id(&self) -> (id: usize)
        ensures
            id == self@.active_canvas_id,
    {
        self.active_canvas_id
    }

    /// The colour selected in the palette.
    pub fn selected_color(&self) -> (color: Color)
        ensures
            color == self@.selected_color,
    {
        self.selected_color
    }

    /// The colours offered for painting.
    pub fn palette(&self) -> (palette: &Vec<Color>)
        ensures
            palette@ == self@.palette,
    {
        &self.palette
    }

    /// The tiles of the registry, in the order they were added.
    pub fn modules(&self) -> (modules: &Vec<Canvas>)
        ensures
            canvas_views(modules@) == self@.modules,
    {
        &self.modules
    }

    /// The preview map, row by row; empty until it is first filled.
    pub fn map(&self) -> (map: &Vec<Vec<Canvas>>)
        ensures
            map@.len() == self@.map.len(),
            forall|r: int|
                0 <= r < map@.len() ==> canvas_views(#[trigger] map@[r]@) == self@.map[r],
    {
        &self.map
    }

    /// The identifier that the next new tile gets: one more than that of the
    /// last tile, zero in an empty registry.
    pub fn next_id(&self) -> (id: usize)
        requires
            self@.registry_ok(),
        ensures
            id == self@.next_id(),
    {
        let count = self.modules.len();
        if count > 0 {
            assert(self@.modules.last() == self@.modules[count - 1]);
            self.modules[count - 1].id() + 1
        } else {
            0
        }
    }

    /// Where in the registry the first tile with identifier `id` stands;
    /// `NotFound` when no tile carries that identifier.
    pub fn get_index_from_id(&self, id: usize) -> (result: Result<usize, TileError>)
        ensures
            match result {
                Ok(index) => {
                    &&& self@.carries(index as int, id)
                    &&& forall|j: int| 0 <= j < index ==> (#[trigger] self@.modules[j]).id != id
                },
                Err(error) => error == TileError::NotFound && !self@.has_tile(id),
            },
    {
        let mut index: usize = 0;
        while index < self.modules.len()
            invariant
                index <= self.modules@.len(),
                forall|j: int| 0 <= j < index ==> (#[trigger] self@.modules[j]).id != id,
            decreases self.modules@.len() - index,
        {
            if self.modules[index].id() == id {
                return Ok(index);
            }
            index += 1;
        }
        assert forall|i: int| !carries(self@.modules, i, id) by {
            if 0 <= i < self@.modules.len() {
                assert(self@.modules[i].id != id);
            }
        }
        Err(TileError::NotFound)
    }

    /// Where in the registry the active tile stands.
    fn active_index(&self) -> (index: usize)
        requires
            self.wf(),
        ensures
            index == self@.index_of(self@.active_canvas_id),
            self@.carries(index as int, self@.active_canvas_id),
    {
        match self.get_index_from_id(self.active_canvas_id) {
            Ok(index) => {
                proof {
                    lemma_place_of_id(self@, index as int, self.active_canvas_id);
                }
                index
            },
            Err(_) => unreached(),
        }
    }

    /// The active tile.
    pub fn get_active_module(&self) -> (module: &Canvas)
        requires
            self.wf(),
        ensures
            module@ == self@.active_module(),
            module@.id == self@.active_canvas_id,
            module.wf(),
    {
        let index = self.active_index();
        &self.modules[index]
    }

    /// The active tile, to be changed in place: painting goes this way. See
    /// [`lemma_change_of_active_tile`] for what keeps the state well formed.
    pub fn get_active_module_mut(&mut self) -> (module: &mut Canvas)
        requires
            old(self).wf(),
        ensures
            module@ == old(self)@.active_module(),
            module@.id == old(self)@.active_canvas_id,
            module.wf(),
            final(self)@ == old(self)@.with_active_module(final(module)@),
    {
        let index = self.active_index();
        let module = &mut self.modules[index];
        assert(canvas_views(old(self).modules@.update(index as int, *final(module)))
            =~= canvas_views(old(self).modules@).update(index as int, final(module)@));
        module
    }

    /// Selects `color` in the palette; the active tile paints with it from
    /// now on.
    pub fn click_color(&mut self, color: Color)
        requires
            old(self).wf(),
        ensures
            final(self).wf(),
            final(self)@ == old(self)@.with_color(color),
    {
        self.selected_color = color;
        let ghost before = self@;
        proof {
            let place = before.index_of(before.active_canvas_id);
            assert(before.modules == old(self)@.modules && before.map == old(self)@.map);
            assert(carries(before.modules, place, before.active_canvas_id));
        }
        self.get_active_module_mut().set_current_color(color);
        proof {
            lemma_change_of_active_tile(
                before,
                CanvasView { current_color: color, ..before.active_module() },
            );
        }
    }

    /// Makes the tile with identifier `id` the active one; it paints with the
    /// selected colour from now on. `NotFound`, and nothing changed, when no
    /// tile carries that identifier.
    pub fn click_module(&mut self, id: usize) -> (result: Result<(), TileError>)
        requires
            old(self).wf(),
        ensures
            final(self).wf(),
            match result {
                Ok(_) => old(self)@.has_tile(id) && final(self)@ == old(self)@.activated(id),
                Err(error) => !old(self)@.has_tile(id) && error == TileError::NotFound
                    && final(self)@ == old(self)@,
            },
    {
        match self.get_index_from_id(id) {
            Ok(index) => {
                self.active_canvas_id = id;
                let color = self.selected_color;
                let ghost before = self@;
                proof {
                    assert(before.modules == old(self)@.modules && before.map == old(self)@.map);
                    assert(carries(before.modules, index as int, id));
                }
                self.get_active_module_mut().set_current_color(color);
                proof {
                    lemma_change_of_active_tile(
                        before,
                        CanvasView { current_color: color, ..before.active_module() },
                    );
                }
                Ok(())
            },
            Err(error) => Err(error),
        }
    }

    /// Appends a blank tile with the next identifier, makes it the active
    /// one, and lets it paint with the selected colour. The identifier
    /// after the new one must be one that the machine can hold.
    pub fn click_add_module(&mut self)
        requires
            old(self).wf(),
            old(self)@.next_id() < usize::MAX,
        ensures
            final(self).wf(),
            final(self)@ == old(self)@.with_new_module(),
    {
        let next_id = self.next_id();
        let mut canvas = Canvas::new(next_id);
        canvas.set_current_color(self.selected_color);
        proof {
            assert(canvas_views(self.modules@.push(canvas)) =~= canvas_views(self.modules@).push(
                canvas@,
            ));
        }
        self.modules.push(canvas);
        self.active_canvas_id = next_id;
        proof {
            let before = old(self)@;
            let after = self@;
            let last = before.modules.len() as int;
            assert(after.map == before.map);
            assert forall|i: int, j: int| 0 <= i < j < after.modules.len() implies (
            #[trigger] after.modules[i]).id < (#[trigger] after.modules[j]).id by {
                assert(after.modules[i] == before.modules[i]);
                if j < last {
                    assert(after.modules[j] == before.modules[j]);
                } else {
                    lemma_place_of_id(before, i, before.modules[i].id);
                }
            }
            assert forall|i: int| 0 <= i < after.modules.len() implies is_grid(
                (#[trigger] after.modules[i]).cells,
            ) by {
                if i < last {
                    assert(after.modules[i] == before.modules[i]);
                }
            }
            assert(after.modules.last() == after.modules[last]);
            assert(carries(after.modules, last, next_id));
        }
    }

    /// The active tile as a file to be written: see
    /// [`Canvas::save_as_image`].
    pub fn save_active_canvas_as_image(&self) -> (result: Result<TileFile, TileError>)
        requires
            self.wf(),
        ensures
            match result {
                Ok(file) => file.path@ == tile_path(self@.active_canvas_id) && saved_bytes(
                    self@.active_module().cells,
                ) == Some(file.bytes@),
                Err(error) => saved_bytes(self@.active_module().cells) is None && error
                    == TileError::Io,
            },
    {
        self.get_active_module().save_as_image()
    }

    /// Resets every cell of the active tile to black.
    pub fn clear_active_canvas(&mut self)
        requires
            old(self).wf(),
        ensures
            final(self).wf(),
            final(self)@ == old(self)@.with_active_module(
                old(self)@.active_module().with_cells(blank_cells()),
            ),
    {
        self.get_active_module_mut().clear();
        proof {
            lemma_change_of_active_tile(
                old(self)@,
                old(self)@.active_module().with_cells(blank_cells()),
            );
        }
    }

    /// Assembles the map anew from the given draws, one for each place, row
    /// by row. `OutOfRange` when the draws are not one for each place;
    /// `NotFound` when a draw names a tile that the registry does not have.
    /// Nothing changes in either case.
    pub fn fill_map_with(&mut self, draws: &Vec<MapDraw>) -> (result: Result<(), TileError>)
        requires
            old(self).wf(),
        ensures
            final(self).wf(),
            result == if draws@.len() != MAP_SIZE * MAP_SIZE {
                Err::<(), TileError>(TileError::OutOfRange)
            } else if !valid_draws(draws@, old(self)@.modules.len()) {
                Err(TileError::NotFound)
            } else {
                Ok(())
            },
            final(self)@ == if result is Ok {
                AppStateView { map: assembled_map(old(self)@.modules, draws@), ..old(self)@ }
            } else {
                old(self)@
            },
    {
        if draws.len() != MAP_SIZE * MAP_SIZE {
            return Err(TileError::OutOfRange);
        }
        let mut map: Vec<Vec<Canvas>> = Vec::new();
        for r in 0..MAP_SIZE
            invariant
                self.wf(),
                *self == *old(self),
                draws@.len() == MAP_SIZE * MAP_SIZE,
                map@.len() == r,
                forall|k: int|
                    0 <= k < r * MAP_SIZE ==> (#[trigger] draws@[k]).index < self@.modules.len(),
                forall|j: int|
                    0 <= j < r ==> canvas_views((#[trigger] map@[j])@) == assembled_map(
                        self@.modules,
                        draws@,
                    )[j],
        {
            let mut row: Vec<Canvas> = Vec::new();
            for c in 0..MAP_SIZE
                invariant
                    self.wf(),
                    *self == *old(self),
                    r < MAP_SIZE,
                    draws@.len() == MAP_SIZE * MAP_SIZE,
                    row@.len() == c,
                    forall|k: int|
                        0 <= k < r * MAP_SIZE + c ==> (#[trigger] draws@[k]).index
                            < self@.modules.len(),
                    forall|j: int|
                        0 <= j < c ==> (#[trigger] row@[j])@ == placed(
                            self@.modules,
                            draws@[r * MAP_SIZE + j],
                        ),
            {
                let draw = draws[r * MAP_SIZE + c];
                if draw.index >= self.modules.len() {
                    return Err(TileError::NotFound);
                }
                assert(is_grid(self@.modules[draw.index as int].cells));
                let copy = self.modules[draw.index].variant(
                    draw.rotated,
                    draw.flipped_horizontal,
                    draw.flipped_vertical,
                );
                row.push(copy);
            }
            assert(canvas_views(row@) =~= assembled_map(self@.modules, draws@)[r as int]);
            map.push(row);
        }
        let ghost before = self@;
        self.map = map;
        assert(self@.map =~= assembled_map(before.modules, draws@));
        assert forall|r: int, c: int|
            0 <= r < self@.map.len() && 0 <= c < self@.map[r].len() implies is_grid(
            (#[trigger] self@.map[r][c]).cells,
        ) by {
            let draw = draws@[r * MAP_SIZE + c];
            assert(is_grid(before.modules[draw.index as int].cells));
            lemma_transforms_keep_grid(before.modules[draw.index as int].cells);
            lemma_variant_keeps_grid(
                before.modules[draw.index as int].cells,
                draw.rotated,
                draw.flipped_horizontal,
                draw.flipped_vertical,
            );
        }
        Ok(())
    }

    /// Assembles the map anew: each place gets a copy of a tile drawn at
    /// random from the registry, turned a quarter on the first coin flip,
    /// mirrored left to right on the second, and top to bottom on the
    /// third.
    pub fn fill_map(&mut self)
        requires
            old(self).wf(),
        ensures
            final(self).wf(),
            exists|draws: Seq<MapDraw>| #[trigger]
                valid_draws(draws, old(self)@.modules.len()) && final(self)@ == (AppStateView {
                    map: assembled_map(old(self)@.modules, draws),
                    ..old(self)@
                }),
    {
        let mut rng = rand::thread_rng();
        let mut draws: Vec<MapDraw> = Vec::new();
        for k in 0..MAP_SIZE * MAP_SIZE
            invariant
                self.wf(),
                draws@.len() == k,
                forall|j: int| 0 <= j < k ==> (#[trigger] draws@[j]).index < self@.modules.len(),
        {
            let index = random_index(&mut rng, self.modules.len());
            let rotated = random_flag(&mut rng);
            let flipped_horizontal = random_flag(&mut rng);
            let flipped_vertical = random_flag(&mut rng);
            draws.push(MapDraw { index, rotated, flipped_horizontal, flipped_vertical });
        }
        assert(valid_draws(draws@, self@.modules.len()));
        let filled = self.fill_map_with(&draws);
        assert(filled is Ok);
    }
}

fn copy_tiles(tiles: &Vec<Canvas>) -> (copy: Vec<Canvas>)
    ensures
        canvas_views(copy@) == canvas_views(tiles@),
{
    let mut copy: Vec<Canvas> = Vec::new();
    for i in 0..tiles.len()
        invariant
            copy@.len() == i,
            forall|k: int| 0 <= k < i ==> (#[trigger] copy@[k])@ == tiles@[k]@,
    {
        copy.push(tiles[i].clone());
    }
    assert(canvas_views(copy@) =~= canvas_views(tiles@));
    copy
}

impl Clone for AppState {
    fn clone(&self) -> (copy: AppState)
        ensures
            copy@ == self@,
    {
        let mut map: Vec<Vec<Canvas>> = Vec::new();
        for r in 0..self.map.len()
            invariant
                map@.len() == r,
                forall|j: int|
                    0 <= j < r ==> canvas_views((#[trigger] map@[j])@) == canvas_views(
                        self.map@[j]@,
                    ),
        {
            map.push(copy_tiles(&self.map[r]));
        }
        let copy = AppState {
            active_canvas_id: self.active_canvas_id,
            modules: copy_tiles(&self.modules),
            selected_color: self.selected_color,
            palette: self.palette.clone(),
            map,
        };
        assert(copy@.map =~= self@.map);
        copy
    }
}

} // verus!
