//! The tile canvas: a square grid of colours that can be painted cell by cell,
//! cleared, turned and mirrored.

use vstd::prelude::*;
use crate::color::Color;
use crate::error::TileError;
use crate::grid::{
    blank_cells, cell_index, col_of, flipped_horizontal_cells, flipped_vertical_cells, is_grid,
    mirrored, rotated_cells, row_of, variant_cells, CanvasPos, CANVAS_CELLS, CANVAS_SIZE,
};
use crate::raster::{
    decode_png, decoded_png, encode_png, encoded_png, flip_horizontal, flip_vertical,
    is_tile_image, rgb_at, rotate90, Raster,
};
use crate::tile_png::{check_tile_png, is_tile_png};
use crate::tile_file::{tile_file_path, tile_path, TileFile};

verus! {

/// The cells that the pixel bytes of a tile image stand for: cell
/// `(row, col)` is the pixel in line `row`, column `col`, so the cells come
/// in the order of the pixels.
pub open spec fn tile_cells(data: Seq<u8>) -> Seq<Color> {
    Seq::new(CANVAS_CELLS as nat, |i: int| rgb_at(data, i))
}

/// The cells that a tile image stands for.
pub open spec fn image_cells(image: Raster) -> Seq<Color> {
    tile_cells(image.data@)
}

/// The pixel bytes of the image of a tile: the inverse of [`tile_cells`].
pub open spec fn tile_data(cells: Seq<Color>) -> Seq<u8> {
    Seq::new(
        (3 * CANVAS_CELLS) as nat,
        |j: int|
            {
                let cell = cells[j / 3];
                if j % 3 == 0 {
                    cell.r
                } else if j % 3 == 1 {
                    cell.g
                } else {
                    cell.b
                }
            },
    )
}

/// The cells of the tile that a file with the contents `bytes` holds, if
/// it holds one: the file is handed to the decoder, it decodes, and the
/// image is one tile in size.
pub open spec fn decoded_tile(bytes: Seq<u8>) -> Option<Seq<Color>> {
    if !is_tile_png(bytes, CANVAS_SIZE as int) {
        None
    } else {
        match decoded_png(bytes) {
            Some((width, height, data)) => if width == CANVAS_SIZE && height == CANVAS_SIZE
                && data.len() == 3 * CANVAS_CELLS {
                Some(tile_cells(data))
            } else {
                None
            },
            None => None,
        }
    }
}

/// The bytes of the image file that a tile with the given cells is saved as,
/// if the encoder accepts it.
pub open spec fn saved_bytes(cells: Seq<Color>) -> Option<Seq<u8>> {
    encoded_png(CANVAS_SIZE as u32, CANVAS_SIZE as u32, tile_data(cells))
}

/// What the pointer did over the painting surface. `cell` is the cell under
/// the pointer, `None` when the pointer is outside the canvas; `primary`
/// tells whether the button is the primary one.
#[derive(Clone, Copy, Debug, PartialEq, Eq, Structural)]
pub enum PointerEvent {
    Down { primary: bool, cell: Option<CanvasPos> },
    Move { cell: Option<CanvasPos> },
    Up { primary: bool },
}

/// The pointer is over a cell of the canvas.
pub open spec fn on_canvas(cell: Option<CanvasPos>) -> bool {
    cell matches Some(pos) && pos.in_bounds()
}

/// A cell that was just written reads back as the colour written, and every
/// other cell of the canvas reads as it did before the write.
pub proof fn lemma_write_then_read(
    canvas: CanvasView,
    pos: CanvasPos,
    color: Color,
    other: CanvasPos,
)
    requires
        is_grid(canvas.cells),
        pos.in_bounds(),
        other.in_bounds(),
    ensures
        canvas.painted(pos, color).cells[pos.index()] == color,
        other != pos ==> canvas.painted(pos, color).cells[other.index()]
            == canvas.cells[other.index()],
        is_grid(canvas.painted(pos, color).cells),
{
    if other != pos {
        assert(other.index() != pos.index());
    }
}

/// On a tile image, cell `(row, col)` is the pixel in line `row`, column
/// `col`.
pub proof fn lemma_image_cells(image: Raster, row: int, col: int)
    requires
        is_tile_image(image),
        0 <= row < CANVAS_SIZE,
        0 <= col < CANVAS_SIZE,
    ensures
        image_cells(image)[cell_index(row, col)] == image.pixel(col, row),
{
    assert(image.width == CANVAS_SIZE);
    assert(row * image.width + col == cell_index(row, col));
}

/// An image whose pixels are those of a tile image after a quarter turn
/// clockwise shows the cells of that tile after a quarter turn.
proof fn lemma_turned_image(image: Raster, turned: Raster)
    requires
        is_tile_image(image),
        is_tile_image(turned),
        forall|x: int, y: int|
            0 <= x < CANVAS_SIZE && 0 <= y < CANVAS_SIZE ==> #[trigger] image.pixel(x, y)
                == turned.pixel(mirrored(y), x),
    ensures
        image_cells(turned) == rotated_cells(image_cells(image)),
{
    assert forall|i: int| 0 <= i < CANVAS_CELLS implies image_cells(turned)[i] == rotated_cells(
        image_cells(image),
    )[i] by {
        let x = row_of(i);
        let y = mirrored(col_of(i));
        lemma_image_cells(image, y, x);
        lemma_image_cells(turned, row_of(i), col_of(i));
        assert(image.pixel(x, y) == turned.pixel(mirrored(y), x));
    }
    assert(image_cells(turned) =~= rotated_cells(image_cells(image)));
}

/// An image whose pixels are those of a tile image mirrored left to right
/// shows the cells of that tile mirrored left to right.
proof fn lemma_image_flipped_horizontal(image: Raster, flipped: Raster)
    requires
        is_tile_image(image),
        is_tile_image(flipped),
        forall|x: int, y: int|
            0 <= x < CANVAS_SIZE && 0 <= y < CANVAS_SIZE ==> #[trigger] image.pixel(x, y)
                == flipped.pixel(mirrored(x), y),
    ensures
        image_cells(flipped) == flipped_horizontal_cells(image_cells(image)),
{
    assert forall|i: int| 0 <= i < CANVAS_CELLS implies image_cells(flipped)[i]
        == flipped_horizontal_cells(image_cells(image))[i] by {
        let x = mirrored(col_of(i));
        let y = row_of(i);
        lemma_image_cells(image, y, x);
        lemma_image_cells(flipped, row_of(i), col_of(i));
        assert(image.pixel(x, y) == flipped.pixel(mirrored(x), y));
    }
    assert(image_cells(flipped) =~= flipped_horizontal_cells(image_cells(image)));
}

/// An image whose pixels are those of a tile image mirrored top to bottom
/// shows the cells of that tile mirrored top to bottom.
proof fn lemma_image_flipped_vertical(image: Raster, flipped: Raster)
    requires
        is_tile_image(image),
        is_tile_image(flipped),
        forall|x: int, y: int|
            0 <= x < CANVAS_SIZE && 0 <= y < CANVAS_SIZE ==> #[trigger] image.pixel(x, y)
                == flipped.pixel(x, mirrored(y)),
    ensures
        image_cells(flipped) == flipped_vertical_cells(image_cells(image)),
{
    assert forall|i: int| 0 <= i < CANVAS_CELLS implies image_cells(flipped)[i]
        == flipped_vertical_cells(image_cells(image))[i] by {
        let x = col_of(i);
        let y = mirrored(row_of(i));
        lemma_image_cells(image, y, x);
        lemma_image_cells(flipped, row_of(i), col_of(i));
        assert(image.pixel(x, y) == flipped.pixel(x, mirrored(y)));
    }
    assert(image_cells(flipped) =~= flipped_vertical_cells(image_cells(image)));
}

/// Pixel bytes whose pixels are the cells of a tile, in their order, are the
/// image of that tile.
proof fn lemma_tile_data(data: Seq<u8>, cells: Seq<Color>)
    requires
        data.len() == 3 * CANVAS_CELLS,
        is_grid(cells),
        forall|k: int| 0 <= k < CANVAS_CELLS ==> #[trigger] rgb_at(data, k) == cells[k],
    ensures
        tile_cells(data) == cells,
        data == tile_data(cells),
{
    assert(tile_cells(data) =~= cells);
    assert forall|j: int| 0 <= j < 3 * CANVAS_CELLS implies data[j] == tile_data(cells)[j] by {
        let k = j / 3;
        assert(rgb_at(data, k) == cells[k]);
        assert(j == 3 * k + j % 3);
    }
    assert(data =~= tile_data(cells));
}

/// What a canvas is, as mathematical values.
pub struct CanvasView {
    pub id: usize,
    pub drawing: bool,
    pub current_color: Color,
    pub cells: Seq<Color>,
}

impl CanvasView {
    /// A tile as it is created: not dragging, white as the colour to paint
    /// with.
    pub open spec fn fresh(id: usize, cells: Seq<Color>) -> CanvasView {
        CanvasView { id, drawing: false, current_color: Color::white(), cells }
    }

    /// The same canvas with other cells.
    pub open spec fn with_cells(self, cells: Seq<Color>) -> CanvasView {
        CanvasView { cells, ..self }
    }

    /// The same canvas with `color` in the cell at `pos`.
    pub open spec fn painted(self, pos: CanvasPos, color: Color) -> CanvasView {
        self.with_cells(self.cells.update(pos.index(), color))
    }

    /// The canvas after one pointer event.
    ///
    /// A press of the primary button over a cell starts a drag and paints
    /// that cell with the current colour. While a drag is under way, a move
    /// over a cell paints it; a move outside the canvas does nothing. A
    /// release of the primary button ends the drag wherever the pointer is.
    /// Nothing else changes the canvas.
    pub open spec fn after_pointer(self, event: PointerEvent) -> CanvasView {
        match event {
            PointerEvent::Down { primary, cell } => if primary && on_canvas(cell) {
                CanvasView { drawing: true, ..self.painted(cell->Some_0, self.current_color) }
            } else {
                self
            },
            PointerEvent::Move { cell } => if self.drawing && on_canvas(cell) {
                self.painted(cell->Some_0, self.current_color)
            } else {
                self
            },
            PointerEvent::Up { primary } => if primary {
                CanvasView { drawing: false, ..self }
            } else {
                self
            },
        }
    }

    /// The copy of this canvas that is placed on the map for the given draw.
    pub open spec fn variant(
        self,
        rotated: bool,
        flipped_horizontal: bool,
        flipped_vertical: bool,
    ) -> CanvasView {
        self.with_cells(variant_cells(self.cells, rotated, flipped_horizontal, flipped_vertical))
    }
}

/// The paint machine: a primary press over a cell leaves the canvas dragging
/// with that cell in the current colour; a move outside the canvas during a
/// drag changes nothing; a primary release leaves the canvas idle, wherever
/// the pointer is and with every cell as it was.
pub proof fn lemma_pointer_machine(canvas: CanvasView, pos: CanvasPos, cell: Option<CanvasPos>)
    requires
        is_grid(canvas.cells),
        pos.in_bounds(),
        !on_canvas(cell),
    ensures
        canvas.after_pointer(PointerEvent::Down { primary: true, cell: Some(pos) }).drawing,
        canvas.after_pointer(PointerEvent::Down { primary: true, cell: Some(pos) }).cells
            == canvas.cells.update(pos.index(), canvas.current_color),
        canvas.after_pointer(
            PointerEvent::Down { primary: true, cell: Some(pos) },
        ).cells[pos.index()] == canvas.current_color,
        canvas.after_pointer(PointerEvent::Move { cell }) == canvas,
        !canvas.after_pointer(PointerEvent::Up { primary: true }).drawing,
        canvas.after_pointer(PointerEvent::Up { primary: true }).cells == canvas.cells,
{
}

/// One tile: an identifier, the paint state and the grid of cells, kept flat
/// with cell `(row, col)` at `row * CANVAS_SIZE + col`.
#[derive(Debug, PartialEq, Eq)]
pub struct Canvas {
    id: usize,
    drawing: bool,
    current_color: Color,
    storage: Vec<Color>,
}

impl View for Canvas {
    type V = CanvasView;

    closed spec fn view(&self) -> CanvasView {
        CanvasView {
            id: self.id,
            drawing: self.drawing,
            current_color: self.current_color,
            cells: self.storage@,
        }
    }
}

impl Canvas {
    /// The canvas holds one colour for each of its cells.
    pub open spec fn wf(&self) -> bool {
        is_grid(self@.cells)
    }

    /// A blank tile: every cell black, white as the colour to paint with, no
    /// drag under way.
    pub fn new(id: usize) -> (canvas: Canvas)
        ensures
            canvas.wf(),
            canvas@ == CanvasView::fresh(id, blank_cells()),
    {
        let mut storage: Vec<Color> = Vec::new();
        for i in 0..CANVAS_CELLS
            invariant
                storage@.len() == i,
                forall|k: int| 0 <= k < i ==> storage@[k] == Color::black(),
        {
            storage.push(Color::black());
        }
        assert(storage@ =~= blank_cells());
        Canvas { id, drawing: false, current_color: Color::white(), storage }
    }

    /// The cells that a tile image stands for, or `Decode` when the image is
    /// not exactly one tile in size.
    pub fn image_to_storage(image: &Raster) -> (result: Result<Vec<Color>, TileError>)
        ensures
            match result {
                Ok(storage) => is_tile_image(*image) && storage@ == image_cells(*image),
                Err(error) => !is_tile_image(*image) && error == TileError::Decode,
            },
    {
        if image.width as usize != CANVAS_SIZE || image.height as usize != CANVAS_SIZE
            || image.data.len() != 3 * CANVAS_CELLS {
            return Err(TileError::Decode);
        }
        let mut storage: Vec<Color> = Vec::new();
        for k in 0..CANVAS_CELLS
            invariant
                is_tile_image(*image),
                storage@.len() == k,
                forall|i: int| 0 <= i < k ==> storage@[i] == rgb_at(image.data@, i),
        {
            let at: usize = 3 * k;
            storage.push(Color::rgb8(image.data[at], image.data[at + 1], image.data[at + 2]));
        }
        assert(storage@ =~= image_cells(*image));
        Ok(storage)
    }

    /// The tile as an image: the pixel in line `row`, column `col` has the
    /// colour of cell `(row, col)`.
    pub fn as_image(&self) -> (image: Raster)
        requires
            self.wf(),
        ensures
            is_tile_image(image),
            image_cells(image) == self@.cells,
            image.data@ == tile_data(self@.cells),
    {
        let mut data: Vec<u8> = Vec::new();
        for k in 0..CANVAS_CELLS
            invariant
                self.wf(),
                data@.len() == 3 * k,
                forall|i: int| 0 <= i < k ==> #[trigger] rgb_at(data@, i) == self.storage@[i],
        {
            let ghost before = data@;
            let (r, g, b) = self.storage[k].as_rgb8();
            data.push(r);
            data.push(g);
            data.push(b);
            assert forall|i: int| 0 <= i < k + 1 implies #[trigger] rgb_at(data@, i)
                == self.storage@[i] by {
                if i < k {
                    assert(rgb_at(data@, i) == rgb_at(before, i));
                }
            }
        }
        proof {
            lemma_tile_data(data@, self@.cells);
        }
        Raster { width: CANVAS_SIZE as u32, height: CANVAS_SIZE as u32, data }
    }

    /// The tile that a tile image shows, or `Decode` when the image is not
    /// exactly one tile in size.
    pub fn from_image(image: &Raster, id: usize) -> (result: Result<Canvas, TileError>)
        ensures
            match result {
                Ok(canvas) => is_tile_image(*image) && canvas.wf() && canvas@ == CanvasView::fresh(
                    id,
                    image_cells(*image),
                ),
                Err(error) => !is_tile_image(*image) && error == TileError::Decode,
            },
    {
        match Canvas::image_to_storage(image) {
            Ok(storage) => Ok(
                Canvas { id, drawing: false, current_color: Color::white(), storage },
            ),
            Err(error) => Err(error),
        }
    }

    /// The tile that an image file holds, or `Decode` when the file is not
    /// one that is handed to the decoder, does not decode, or the image is
    /// not exactly one tile in size. The path of the file plays no part.
    pub fn new_from_image(file: &TileFile, id: usize) -> (result: Result<Canvas, TileError>)
        ensures
            match result {
                Ok(canvas) => canvas.wf() && decoded_tile(file@.bytes) == Some(canvas@.cells)
                    && canvas@ == CanvasView::fresh(id, canvas@.cells),
                Err(error) => decoded_tile(file@.bytes) is None && error == TileError::Decode,
            },
    {
        if !check_tile_png(&file.bytes, CANVAS_SIZE as u32) {
            return Err(TileError::Decode);
        }
        match decode_png(&file.bytes) {
            Ok(image) => Canvas::from_image(&image, id),
            Err(_) => Err(TileError::Decode),
        }
    }

    /// The tile as a file to be written: the path that belongs to its
    /// identifier, and the tile's image encoded as PNG. `Io` when the encoder
    /// reports an error.
    pub fn save_as_image(&self) -> (result: Result<TileFile, TileError>)
        requires
            self.wf(),
        ensures
            match result {
                Ok(file) => file.path@ == tile_path(self@.id) && saved_bytes(self@.cells) == Some(
                    file.bytes@,
                ),
                Err(error) => saved_bytes(self@.cells) is None && error == TileError::Io,
            },
    {
        let image = self.as_image();
        match encode_png(&image) {
            Ok(bytes) => Ok(TileFile { path: tile_file_path(self.id), bytes }),
            Err(_) => Err(TileError::Io),
        }
    }

    /// The tile's identifier.
    pub fn id(&self) -> (id: usize)
        ensures
            id == self@.id,
    {
        self.id
    }

    /// Whether a paint drag is under way.
    pub fn drawing(&self) -> (drawing: bool)
        ensures
            drawing == self@.drawing,
    {
        self.drawing
    }

    /// The colour that pointer events paint with.
    pub fn current_color(&self) -> (color: Color)
        ensures
            color == self@.current_color,
    {
        self.current_color
    }

    /// Sets the colour that pointer events paint with.
    pub fn set_current_color(&mut self, color: Color)
        ensures
            final(self)@ == (CanvasView { current_color: color, ..old(self)@ }),
    {
        self.current_color = color;
    }

    /// The cells, flat: cell `(row, col)` at `row * CANVAS_SIZE + col`.
    pub fn storage(&self) -> (cells: &Vec<Color>)
        ensures
            cells@ == self@.cells,
    {
        &self.storage
    }

    /// Applies one pointer event: see [`CanvasView::after_pointer`].
    pub fn pointer_event(&mut self, event: PointerEvent)
        requires
            old(self).wf(),
        ensures
            final(self).wf(),
            final(self)@ == old(self)@.after_pointer(event),
    {
        match event {
            PointerEvent::Down { primary, cell } => {
                if primary {
                    if let Some(pos) = cell {
                        if pos.row < CANVAS_SIZE && pos.col < CANVAS_SIZE {
                            self.drawing = true;
                            self.storage.set(pos.row * CANVAS_SIZE + pos.col, self.current_color);
                        }
                    }
                }
            },
            PointerEvent::Move { cell } => {
                if self.drawing {
                    if let Some(pos) = cell {
                        if pos.row < CANVAS_SIZE && pos.col < CANVAS_SIZE {
                            self.storage.set(pos.row * CANVAS_SIZE + pos.col, self.current_color);
                        }
                    }
                }
            },
            PointerEvent::Up { primary } => {
                if primary {
                    self.drawing = false;
                }
            },
        }
    }

    /// A copy of this tile as it is placed on the map: turned a quarter if
    /// `rotated`, then mirrored left to right if `flipped_horizontal`, then
    /// top to bottom if `flipped_vertical`.
    pub fn variant(&self, rotated: bool, flipped_horizontal: bool, flipped_vertical: bool) -> (copy:
        Canvas)
        requires
            self.wf(),
        ensures
            copy.wf(),
            copy@ == self@.variant(rotated, flipped_horizontal, flipped_vertical),
    {
        let mut copy = self.clone();
        if rotated {
            copy.rotate_90();
        }
        if flipped_horizontal {
            copy.flip_horizontal();
        }
        if flipped_vertical {
            copy.flip_vertical();
        }
        copy
    }

    /// The colour of the cell at `pos`, or `OutOfRange` when `pos` lies
    /// outside the canvas.
    pub fn get(&self, pos: CanvasPos) -> (result: Result<Color, TileError>)
        requires
            self.wf(),
        ensures
            result == if pos.in_bounds() {
                Ok::<Color, TileError>(self@.cells[pos.index()])
            } else {
                Err(TileError::OutOfRange)
            },
    {
        if pos.row >= CANVAS_SIZE || pos.col >= CANVAS_SIZE {
            return Err(TileError::OutOfRange);
        }
        Ok(self.storage[pos.row * CANVAS_SIZE + pos.col])
    }

    /// Writes `color` into the cell at `pos` and leaves every other cell as
    /// it was; `OutOfRange`, and nothing written, when `pos` lies outside the
    /// canvas.
    pub fn set(&mut self, pos: CanvasPos, color: Color) -> (result: Result<(), TileError>)
        requires
            old(self).wf(),
        ensures
            final(self).wf(),
            result == if pos.in_bounds() {
                Ok::<(), TileError>(())
            } else {
                Err(TileError::OutOfRange)
            },
            final(self)@ == if pos.in_bounds() {
                old(self)@.painted(pos, color)
            } else {
                old(self)@
            },
    {
        if pos.row >= CANVAS_SIZE || pos.col >= CANVAS_SIZE {
            return Err(TileError::OutOfRange);
        }
        self.storage.set(pos.row * CANVAS_SIZE + pos.col, color);
        Ok(())
    }

    /// Resets every cell to black. Identifier and paint state stay.
    pub fn clear(&mut self)
        requires
            old(self).wf(),
        ensures
            final(self).wf(),
            final(self)@ == old(self)@.with_cells(blank_cells()),
    {
        for i in 0..CANVAS_CELLS
            invariant
                self.wf(),
                self.id == old(self).id,
                self.drawing == old(self).drawing,
                self.current_color == old(self).current_color,
                forall|k: int| 0 <= k < i ==> self.storage@[k] == Color::black(),
        {
            self.storage.set(i, Color::black());
        }
        assert(self.storage@ =~= blank_cells());
    }

    /// Replaces the cells by those that a tile image shows.
    fn take_cells(&mut self, image: &Raster)
        requires
            is_tile_image(*image),
        ensures
            final(self)@ == old(self)@.with_cells(image_cells(*image)),
    {
        match Canvas::image_to_storage(image) {
            Ok(storage) => {
                self.storage = storage;
            },
            Err(_) => unreached(),
        }
    }

    /// Turns the tile a quarter clockwise.
    pub fn rotate_90(&mut self)
        requires
            old(self).wf(),
        ensures
            final(self).wf(),
            final(self)@ == old(self)@.with_cells(rotated_cells(old(self)@.cells)),
    {
        let image = self.as_image();
        let turned = rotate90(&image);
        proof {
            lemma_turned_image(image, turned);
        }
        self.take_cells(&turned);
    }

    /// Mirrors the tile left to right.
    pub fn flip_horizontal(&mut self)
        requires
            old(self).wf(),
        ensures
            final(self).wf(),
            final(self)@ == old(self)@.with_cells(flipped_horizontal_cells(old(self)@.cells)),
    {
        let image = self.as_image();
        let flipped = flip_horizontal(&image);
        proof {
            lemma_image_flipped_horizontal(image, flipped);
        }
        self.take_cells(&flipped);
    }

    /// Mirrors the tile top to bottom.
    pub fn flip_vertical(&mut self)
        requires
            old(self).wf(),
        ensures
            final(self).wf(),
            final(self)@ == old(self)@.with_cells(flipped_vertical_cells(old(self)@.cells)),
    {
        let image = self.as_image();
        let flipped = flip_vertical(&image);
        proof {
            lemma_image_flipped_vertical(image, flipped);
        }
        self.take_cells(&flipped);
    }
}

impl Clone for Canvas {
    fn clone(&self) -> (copy: Canvas)
        ensures
            copy@ == self@,
    {
        Canvas {
            id: self.id,
            drawing: self.drawing,
            current_color: self.current_color,
            storage: self.storage.clone(),
        }
    }
}

} // verus!
