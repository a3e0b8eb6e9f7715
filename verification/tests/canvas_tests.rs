use tile_wave::canvas::PointerEvent;
use tile_wave::tile_png::check_tile_png;
use tile_wave::{
    tile_file_path, Canvas, CanvasPos, Color, Raster, TileError, TileFile, CANVAS_SIZE,
};

const RED: Color = Color { r: 255, g: 0, b: 0 };
const GREEN: Color = Color { r: 0, g: 200, b: 0 };
const BLACK: Color = Color { r: 0, g: 0, b: 0 };
const WHITE: Color = Color { r: 255, g: 255, b: 255 };

fn pos(row: usize, col: usize) -> CanvasPos {
    CanvasPos { row, col }
}

/// A tile on which no two cells agree.
fn patterned(id: usize) -> Canvas {
    let mut canvas = Canvas::new(id);
    for row in 0..CANVAS_SIZE {
        for col in 0..CANVAS_SIZE {
            let color = Color::rgb8(row as u8 * 30, col as u8 * 30, (row * 8 + col) as u8);
            canvas.set(pos(row, col), color).unwrap();
        }
    }
    canvas
}

fn pattern_at(row: usize, col: usize) -> Color {
    Color::rgb8(row as u8 * 30, col as u8 * 30, (row * 8 + col) as u8)
}

fn png_of(width: u32, height: u32, data: &[u8]) -> Vec<u8> {
    let mut bytes: Vec<u8> = Vec::new();
    image::png::PngEncoder::new(&mut bytes)
        .encode(data, width, height, image::ColorType::Rgb8)
        .unwrap();
    bytes
}

fn file(path: &str, bytes: Vec<u8>) -> TileFile {
    TileFile { path: path.to_string(), bytes }
}

#[test]
fn color_constructors() {
    assert_eq!(Color::rgb8(10, 127, 127), Color { r: 10, g: 127, b: 127 });
    assert_eq!(Color::black(), BLACK);
    assert_eq!(Color::white(), WHITE);
    assert_eq!(Color::rgb8(1, 2, 3).as_rgb8(), (1, 2, 3));
}

#[test]
fn canvas_pos_new_checks_bounds() {
    assert_eq!(CanvasPos::new(0, 0), Some(pos(0, 0)));
    assert_eq!(CanvasPos::new(7, 7), Some(pos(7, 7)));
    assert_eq!(CanvasPos::new(8, 0), None);
    assert_eq!(CanvasPos::new(0, 8), None);
    assert_eq!(CanvasPos::new(usize::MAX, usize::MAX), None);
}

#[test]
fn new_canvas_is_blank() {
    let canvas = Canvas::new(5);
    assert_eq!(canvas.id(), 5);
    assert!(!canvas.drawing());
    assert_eq!(canvas.current_color(), WHITE);
    assert_eq!(canvas.storage().len(), CANVAS_SIZE * CANVAS_SIZE);
    for row in 0..CANVAS_SIZE {
        for col in 0..CANVAS_SIZE {
            assert_eq!(canvas.get(pos(row, col)), Ok(BLACK));
        }
    }
}

#[test]
fn write_then_read_returns_the_color() {
    for row in 0..CANVAS_SIZE {
        for col in 0..CANVAS_SIZE {
            let mut canvas = Canvas::new(0);
            assert_eq!(canvas.set(pos(row, col), RED), Ok(()));
            for r in 0..CANVAS_SIZE {
                for c in 0..CANVAS_SIZE {
                    let expected = if (r, c) == (row, col) { RED } else { BLACK };
                    assert_eq!(canvas.get(pos(r, c)), Ok(expected));
                }
            }
        }
    }
}

#[test]
fn write_keeps_prior_values_of_other_cells() {
    let mut canvas = patterned(0);
    canvas.set(pos(3, 4), GREEN).unwrap();
    for row in 0..CANVAS_SIZE {
        for col in 0..CANVAS_SIZE {
            let expected = if (row, col) == (3, 4) { GREEN } else { pattern_at(row, col) };
            assert_eq!(canvas.get(pos(row, col)), Ok(expected));
        }
    }
}

#[test]
fn cells_are_stored_row_by_row() {
    let mut canvas = Canvas::new(0);
    canvas.set(pos(2, 5), RED).unwrap();
    assert_eq!(canvas.storage()[2 * CANVAS_SIZE + 5], RED);
    assert_eq!(canvas.storage().iter().filter(|c| **c == RED).count(), 1);
}

#[test]
fn access_outside_the_canvas_is_out_of_range() {
    let mut canvas = patterned(0);
    let before = canvas.clone();
    assert_eq!(canvas.get(pos(8, 0)), Err(TileError::OutOfRange));
    assert_eq!(canvas.get(pos(0, 8)), Err(TileError::OutOfRange));
    assert_eq!(canvas.get(pos(usize::MAX, 3)), Err(TileError::OutOfRange));
    assert_eq!(canvas.set(pos(8, 0), RED), Err(TileError::OutOfRange));
    assert_eq!(canvas.set(pos(1, 64), RED), Err(TileError::OutOfRange));
    assert_eq!(canvas, before);
}

#[test]
fn clear_sets_every_cell_to_black() {
    let mut canvas = patterned(9);
    canvas.set_current_color(GREEN);
    canvas.clear();
    assert_eq!(canvas.storage().len(), 64);
    assert!(canvas.storage().iter().all(|c| *c == BLACK));
    assert_eq!(canvas.id(), 9);
    assert_eq!(canvas.current_color(), GREEN);
}

#[test]
fn rotate_90_moves_each_cell_a_quarter_turn() {
    let mut canvas = patterned(0);
    canvas.rotate_90();
    for row in 0..CANVAS_SIZE {
        for col in 0..CANVAS_SIZE {
            assert_eq!(canvas.get(pos(row, col)), Ok(pattern_at(7 - col, row)));
            assert_eq!(canvas.get(pos(col, 7 - row)), Ok(pattern_at(row, col)));
        }
    }
    let mut single = Canvas::new(0);
    single.set(pos(0, 0), RED).unwrap();
    single.rotate_90();
    assert_eq!(single.get(pos(0, 7)), Ok(RED));
    assert_eq!(single.get(pos(0, 0)), Ok(BLACK));
    assert_eq!(single.get(pos(7, 0)), Ok(BLACK));
}

#[test]
fn flip_horizontal_reverses_each_line() {
    let mut canvas = patterned(0);
    canvas.flip_horizontal();
    for row in 0..CANVAS_SIZE {
        for col in 0..CANVAS_SIZE {
            assert_eq!(canvas.get(pos(row, col)), Ok(pattern_at(row, 7 - col)));
        }
    }
    let mut single = Canvas::new(0);
    single.set(pos(0, 0), RED).unwrap();
    single.flip_horizontal();
    assert_eq!(single.get(pos(0, 7)), Ok(RED));
    assert_eq!(single.get(pos(7, 0)), Ok(BLACK));
}

#[test]
fn flip_vertical_reverses_the_lines() {
    let mut canvas = patterned(0);
    canvas.flip_vertical();
    for row in 0..CANVAS_SIZE {
        for col in 0..CANVAS_SIZE {
            assert_eq!(canvas.get(pos(row, col)), Ok(pattern_at(7 - row, col)));
        }
    }
    let mut single = Canvas::new(0);
    single.set(pos(0, 0), RED).unwrap();
    single.flip_vertical();
    assert_eq!(single.get(pos(7, 0)), Ok(RED));
    assert_eq!(single.get(pos(0, 7)), Ok(BLACK));
}

#[test]
fn rotate_four_times_is_identity() {
    let source = patterned(3);
    let mut canvas = source.clone();
    canvas.rotate_90();
    assert_ne!(canvas, source);
    canvas.rotate_90();
    canvas.rotate_90();
    assert_ne!(canvas, source);
    canvas.rotate_90();
    assert_eq!(canvas, source);
}

#[test]
fn flip_twice_is_identity() {
    let source = patterned(3);
    let mut canvas = source.clone();
    canvas.flip_horizontal();
    assert_ne!(canvas, source);
    canvas.flip_horizontal();
    assert_eq!(canvas, source);
    canvas.flip_vertical();
    assert_ne!(canvas, source);
    canvas.flip_vertical();
    assert_eq!(canvas, source);
}

#[test]
fn transforms_keep_identifier_and_paint_state() {
    let mut canvas = patterned(11);
    canvas.set_current_color(GREEN);
    canvas.pointer_event(PointerEvent::Down { primary: true, cell: Some(pos(0, 0)) });
    canvas.rotate_90();
    canvas.flip_horizontal();
    canvas.flip_vertical();
    assert_eq!(canvas.id(), 11);
    assert!(canvas.drawing());
    assert_eq!(canvas.current_color(), GREEN);
}

#[test]
fn variant_applies_the_chosen_transforms_in_order() {
    let source = patterned(4);
    assert_eq!(source.variant(false, false, false), source);
    for bits in 0..8u8 {
        let (rotated, horizontal, vertical) = (bits & 1 != 0, bits & 2 != 0, bits & 4 != 0);
        let mut expected = source.clone();
        if rotated {
            expected.rotate_90();
        }
        if horizontal {
            expected.flip_horizontal();
        }
        if vertical {
            expected.flip_vertical();
        }
        assert_eq!(source.variant(rotated, horizontal, vertical), expected);
    }
    assert_eq!(source, patterned(4));
}

#[test]
fn as_image_lays_cells_out_as_pixels() {
    let mut canvas = Canvas::new(0);
    canvas.set(pos(2, 5), Color::rgb8(1, 2, 3)).unwrap();
    let image = canvas.as_image();
    assert_eq!(image.width, 8);
    assert_eq!(image.height, 8);
    assert_eq!(image.data.len(), 192);
    let at = (2 * 8 + 5) * 3;
    assert_eq!(&image.data[at..at + 3], &[1, 2, 3]);
    let mut corner = Canvas::new(0);
    corner.set(pos(0, 7), WHITE).unwrap();
    assert_eq!(&corner.as_image().data[7 * 3..8 * 3], &[255, 255, 255]);
    assert_eq!(image.data.iter().filter(|b| **b != 0).count(), 3);
}

#[test]
fn as_image_agrees_with_the_image_crate() {
    let canvas = patterned(0);
    let image = canvas.as_image();
    let buffer = image::RgbImage::from_raw(image.width, image.height, image.data).unwrap();
    for row in 0..CANVAS_SIZE {
        for col in 0..CANVAS_SIZE {
            let pixel = buffer.get_pixel(col as u32, row as u32);
            let expected = pattern_at(row, col);
            assert_eq!(pixel.0, [expected.r, expected.g, expected.b]);
        }
    }
}

#[test]
fn image_to_storage_reads_pixels_as_cells() {
    let mut data = vec![0u8; 192];
    let at = (1 * 8 + 3) * 3;
    data[at] = 9;
    data[at + 1] = 8;
    data[at + 2] = 7;
    let image = Raster { width: 8, height: 8, data };
    let storage = Canvas::image_to_storage(&image).unwrap();
    assert_eq!(storage.len(), 64);
    assert_eq!(storage[1 * CANVAS_SIZE + 3], Color::rgb8(9, 8, 7));
    assert_eq!(storage.iter().filter(|c| **c != BLACK).count(), 1);
}

#[test]
fn image_to_storage_inverts_as_image() {
    let canvas = patterned(0);
    let storage = Canvas::image_to_storage(&canvas.as_image()).unwrap();
    assert_eq!(&storage, canvas.storage());
}

#[test]
fn image_of_wrong_size_is_a_decode_error() {
    let small = Raster { width: 4, height: 4, data: vec![0u8; 48] };
    assert_eq!(Canvas::image_to_storage(&small), Err(TileError::Decode));
    let wide = Raster { width: 16, height: 4, data: vec![0u8; 192] };
    assert_eq!(Canvas::image_to_storage(&wide), Err(TileError::Decode));
    let short = Raster { width: 8, height: 8, data: vec![0u8; 191] };
    assert_eq!(Canvas::image_to_storage(&short), Err(TileError::Decode));
    assert_eq!(Canvas::from_image(&small, 0), Err(TileError::Decode));
}

#[test]
fn from_image_makes_a_fresh_tile() {
    let source = patterned(0);
    let canvas = Canvas::from_image(&source.as_image(), 7).unwrap();
    assert_eq!(canvas.id(), 7);
    assert!(!canvas.drawing());
    assert_eq!(canvas.current_color(), WHITE);
    assert_eq!(canvas.storage(), source.storage());
}

#[test]
fn new_from_image_decodes_a_png() {
    let mut buffer = image::RgbImage::new(8, 8);
    buffer.put_pixel(3, 1, image::Rgb([255, 0, 0]));
    let bytes = png_of(8, 8, buffer.as_raw());
    let canvas = Canvas::new_from_image(&file("tile_images/a.png", bytes), 2).unwrap();
    assert_eq!(canvas.id(), 2);
    assert_eq!(canvas.current_color(), WHITE);
    assert!(!canvas.drawing());
    assert_eq!(canvas.get(pos(1, 3)), Ok(RED));
    assert_eq!(canvas.storage().iter().filter(|c| **c == RED).count(), 1);
    assert_eq!(canvas.storage().iter().filter(|c| **c == BLACK).count(), 63);
}

#[test]
fn new_from_image_rejects_what_is_no_tile() {
    let empty = file("a.png", Vec::new());
    assert_eq!(Canvas::new_from_image(&empty, 0), Err(TileError::Decode));
    let text = file("a.png", b"not an image".to_vec());
    assert_eq!(Canvas::new_from_image(&text, 0), Err(TileError::Decode));
    let small = file("a.png", png_of(4, 4, &[0u8; 48]));
    assert_eq!(Canvas::new_from_image(&small, 0), Err(TileError::Decode));
    let tall = file("a.png", png_of(8, 9, &[0u8; 216]));
    assert_eq!(Canvas::new_from_image(&tall, 0), Err(TileError::Decode));
}

#[test]
fn new_from_image_does_not_go_by_the_path() {
    let bytes = png_of(8, 8, &[7u8; 192]);
    for path in ["dir/tile.png", "dir/tile.PNG", "dir/tile.jpg", "dir/tile", "", "a\\b.dds"] {
        let canvas = Canvas::new_from_image(&file(path, bytes.clone()), 0).unwrap();
        assert!(canvas.storage().iter().all(|c| *c == Color::rgb8(7, 7, 7)));
    }
}

fn encoded(data: &[u8], color: image::ColorType) -> Vec<u8> {
    let mut bytes: Vec<u8> = Vec::new();
    image::png::PngEncoder::new(&mut bytes).encode(data, 8, 8, color).unwrap();
    bytes
}

#[test]
fn new_from_image_takes_other_pixel_formats() {
    let mut rgba = vec![0u8; 256];
    rgba[(2 * 8 + 5) * 4..(2 * 8 + 5) * 4 + 4].copy_from_slice(&[10, 20, 30, 40]);
    let tile = Canvas::new_from_image(&file("a.png", encoded(&rgba, image::ColorType::Rgba8)), 0);
    let tile = tile.unwrap();
    assert_eq!(tile.get(pos(2, 5)), Ok(Color::rgb8(10, 20, 30)));
    assert_eq!(tile.storage().iter().filter(|c| **c != BLACK).count(), 1);

    let mut grey = vec![0u8; 64];
    grey[3 * 8 + 1] = 99;
    let tile = Canvas::new_from_image(&file("b.png", encoded(&grey, image::ColorType::L8)), 1);
    let tile = tile.unwrap();
    assert_eq!(tile.get(pos(3, 1)), Ok(Color::rgb8(99, 99, 99)));
    assert_eq!(tile.storage().iter().filter(|c| **c != BLACK).count(), 1);

    let mut grey_alpha = vec![0u8; 128];
    grey_alpha[(7 * 8 + 7) * 2] = 200;
    let bytes = encoded(&grey_alpha, image::ColorType::La8);
    let tile = Canvas::new_from_image(&file("c.png", bytes), 2).unwrap();
    assert_eq!(tile.get(pos(7, 7)), Ok(Color::rgb8(200, 200, 200)));

    let mut deep = vec![0u8; 384];
    deep[(4 * 8 + 6) * 6..(4 * 8 + 6) * 6 + 6].copy_from_slice(&[0xff, 0xff, 0x80, 0x80, 0, 0]);
    let bytes = encoded(&deep, image::ColorType::Rgb16);
    let tile = Canvas::new_from_image(&file("d.png", bytes), 3).unwrap();
    let cell = tile.get(pos(4, 6)).unwrap();
    assert_eq!((cell.r, cell.b), (255, 0));
    assert!(cell.g == 127 || cell.g == 128);
    assert_eq!(tile.storage().iter().filter(|c| **c != BLACK).count(), 1);
}

#[test]
fn new_from_image_takes_png_only() {
    let mut jpeg: Vec<u8> = Vec::new();
    image::jpeg::JpegEncoder::new(&mut jpeg)
        .encode(&[9u8; 192], 8, 8, image::ColorType::Rgb8)
        .unwrap();
    assert_eq!(Canvas::new_from_image(&file("tile.jpg", jpeg), 0), Err(TileError::Decode));
    let mut bmp: Vec<u8> = Vec::new();
    image::bmp::BmpEncoder::new(&mut bmp)
        .encode(&[9u8; 192], 8, 8, image::ColorType::Rgb8)
        .unwrap();
    assert_eq!(Canvas::new_from_image(&file("tile.bmp", bmp), 0), Err(TileError::Decode));
}

#[test]
fn a_header_of_another_format_is_a_decode_error() {
    let mut dds = vec![0u8; 128];
    dds[..4].copy_from_slice(b"DDS ");
    dds[4] = 124;
    dds[8..12].copy_from_slice(&0x1007u32.to_le_bytes());
    dds[76] = 32;
    dds[80] = 4;
    dds[84..88].copy_from_slice(b"DXT1");
    assert_eq!(Canvas::new_from_image(&file("tile.dds", dds), 0), Err(TileError::Decode));
}

fn crc32(bytes: &[u8]) -> u32 {
    let mut crc = 0xffff_ffffu32;
    for byte in bytes {
        crc ^= *byte as u32;
        for _ in 0..8 {
            crc = if crc & 1 != 0 { (crc >> 1) ^ 0xedb8_8320 } else { crc >> 1 };
        }
    }
    !crc
}

fn chunk(kind: &[u8; 4], content: &[u8]) -> Vec<u8> {
    let mut out = (content.len() as u32).to_be_bytes().to_vec();
    out.extend_from_slice(kind);
    out.extend_from_slice(content);
    let mut summed = kind.to_vec();
    summed.extend_from_slice(content);
    out.extend_from_slice(&crc32(&summed).to_be_bytes());
    out
}

/// The header of a saved tile, the content of its image data and its end.
fn parts_of_saved_tile(canvas: &Canvas) -> (Vec<u8>, Vec<u8>, Vec<u8>) {
    let bytes = canvas.save_as_image().unwrap().bytes;
    let length = u32::from_be_bytes([bytes[33], bytes[34], bytes[35], bytes[36]]) as usize;
    assert_eq!(&bytes[37..41], b"IDAT");
    assert_eq!(bytes.len(), 33 + 12 + length + 12);
    assert_eq!(chunk(b"IDAT", &bytes[41..41 + length]), &bytes[33..45 + length]);
    (bytes[..33].to_vec(), bytes[41..41 + length].to_vec(), bytes[45 + length..].to_vec())
}

#[test]
fn check_tile_png_follows_the_chunks() {
    let canvas = patterned(0);
    let saved = canvas.save_as_image().unwrap().bytes;
    let (header, data, end) = parts_of_saved_tile(&canvas);
    let image = chunk(b"IDAT", &data);
    assert!(check_tile_png(&saved, 8));
    assert!(!check_tile_png(&saved, 4));
    assert!(!check_tile_png(&Vec::new(), 8));
    assert!(!check_tile_png(&saved[..32].to_vec(), 8));
    assert!(check_tile_png(&header, 8));
    assert!(check_tile_png(&saved[..saved.len() - 1].to_vec(), 8));
    assert!(check_tile_png(&[saved.clone(), vec![0]].concat(), 8));
    assert!(check_tile_png(&[header.clone(), end.clone()].concat(), 8));
    let text = chunk(b"tEXt", b"key\0value");
    let with_text = [header.clone(), text.clone(), image.clone(), text.clone(), end.clone()];
    assert!(check_tile_png(&with_text.concat(), 8));
    let again = header[8..].to_vec();
    let second_header = [header.clone(), again.clone(), image.clone(), end.clone()];
    assert!(!check_tile_png(&second_header.concat(), 8));
    let late_header = [header.clone(), image.clone(), again.clone(), end.clone()];
    assert!(!check_tile_png(&late_header.concat(), 8));
    let after_end = [header.clone(), image.clone(), end.clone(), again.clone()];
    assert!(check_tile_png(&after_end.concat(), 8));
    for kind in [b"acTL", b"fcTL", b"fdAT"] {
        let moving = [header.clone(), chunk(kind, &[0u8; 26]), image.clone(), end.clone()];
        assert!(!check_tile_png(&moving.concat(), 8));
        let late = [header.clone(), image.clone(), text.clone(), chunk(kind, &[0u8; 26])];
        assert!(!check_tile_png(&late.concat(), 8));
    }
    let mut oversized = saved.clone();
    oversized[33..37].copy_from_slice(&u32::MAX.to_be_bytes());
    assert!(check_tile_png(&oversized, 8));
}

#[test]
fn check_tile_png_knows_the_colour_types() {
    let saved = patterned(0).save_as_image().unwrap().bytes;
    for colour in 0..=255u8 {
        for depth in 0..=255u8 {
            let known = match colour {
                0 => [1, 2, 4, 8, 16].contains(&depth),
                2 | 4 | 6 => [8, 16].contains(&depth),
                3 => [1, 2, 4, 8].contains(&depth),
                _ => false,
            };
            let mut bytes = saved.clone();
            bytes[24] = depth;
            bytes[25] = colour;
            assert_eq!(check_tile_png(&bytes, 8), known);
        }
    }
    for (at, admitted) in [(26, vec![0]), (27, vec![0]), (28, vec![0, 1])] {
        for value in 0..=255u8 {
            let mut bytes = saved.clone();
            bytes[at] = value;
            assert_eq!(check_tile_png(&bytes, 8), admitted.contains(&value));
        }
    }
}

#[test]
fn tile_with_other_chunks_loads() {
    let canvas = patterned(0);
    let (header, data, end) = parts_of_saved_tile(&canvas);
    let parts = [
        header,
        chunk(b"gAMA", &[0, 0, 0xb1, 0x8f]),
        chunk(b"pHYs", &[0, 0, 0x0b, 0x13, 0, 0, 0x0b, 0x13, 1]),
        chunk(b"tIME", &[7, 0xe8, 1, 2, 3, 4, 5]),
        chunk(b"tEXt", b"Software\0an editor"),
        chunk(b"IDAT", &data),
        chunk(b"tEXt", b"Comment\0late"),
        end,
    ];
    let loaded = Canvas::new_from_image(&file("edited.png", parts.concat()), 0).unwrap();
    assert_eq!(loaded, canvas);
}

#[test]
fn tile_with_split_image_data_loads() {
    let canvas = patterned(0);
    let (header, data, end) = parts_of_saved_tile(&canvas);
    let middle = data.len() / 2;
    let split =
        [header, chunk(b"IDAT", &data[..middle]), chunk(b"IDAT", &data[middle..]), end].concat();
    assert!(check_tile_png(&split, 8));
    let loaded = Canvas::new_from_image(&file("split.png", split), 0).unwrap();
    assert_eq!(loaded, canvas);
}

#[test]
fn damaged_tiles_are_decode_errors() {
    let canvas = patterned(0);
    let (header, data, end) = parts_of_saved_tile(&canvas);
    let without_data = [header.clone(), end.clone()].concat();
    assert_eq!(Canvas::new_from_image(&file("a.png", without_data), 0), Err(TileError::Decode));
    let no_end = [header.clone(), chunk(b"IDAT", &data)].concat();
    assert_eq!(Canvas::new_from_image(&file("a.png", no_end), 0), Err(TileError::Decode));
    let second = [header.clone(), header[8..].to_vec(), chunk(b"IDAT", &data), end.clone()];
    assert_eq!(Canvas::new_from_image(&file("a.png", second.concat()), 0), Err(TileError::Decode));
    let mut bad_sum = [header.clone(), chunk(b"IDAT", &data), end.clone()].concat();
    let at = 33 + 8 + data.len();
    bad_sum[at] ^= 0xff;
    assert!(check_tile_png(&bad_sum, 8));
    assert_eq!(Canvas::new_from_image(&file("a.png", bad_sum), 0), Err(TileError::Decode));
    let garbage = [header.clone(), chunk(b"IDAT", &[0xffu8; 40]), end.clone()].concat();
    assert!(check_tile_png(&garbage, 8));
    assert_eq!(Canvas::new_from_image(&file("a.png", garbage), 0), Err(TileError::Decode));
    let short = [header.clone(), chunk(b"IDAT", &data[..data.len() / 2]), end.clone()].concat();
    assert_eq!(Canvas::new_from_image(&file("a.png", short), 0), Err(TileError::Decode));
    let mut bad_header = [header, chunk(b"IDAT", &data), end].concat();
    bad_header[29] ^= 0xff;
    assert_eq!(Canvas::new_from_image(&file("a.png", bad_header), 0), Err(TileError::Decode));
}

#[test]
fn save_as_image_names_the_file_by_id_and_encodes_png() {
    let canvas = patterned(12);
    let file = canvas.save_as_image().unwrap();
    assert_eq!(file.path, "tile_images/test_12.png");
    assert_eq!(&file.bytes[..8], &[0x89, b'P', b'N', b'G', 0x0d, 0x0a, 0x1a, 0x0a]);
    let decoded = image::load_from_memory(&file.bytes).unwrap().into_rgb8();
    assert_eq!(decoded.dimensions(), (8, 8));
    assert_eq!(decoded.into_raw(), canvas.as_image().data);
}

#[test]
fn saved_tile_loads_back() {
    let canvas = patterned(1);
    let file = canvas.save_as_image().unwrap();
    let loaded = Canvas::new_from_image(&file, 1).unwrap();
    assert_eq!(loaded, canvas);
}

#[test]
fn tile_file_path_writes_the_id_in_decimal() {
    assert_eq!(tile_file_path(0), "tile_images/test_0.png");
    assert_eq!(tile_file_path(7), "tile_images/test_7.png");
    assert_eq!(tile_file_path(10), "tile_images/test_10.png");
    assert_eq!(tile_file_path(1234567890), "tile_images/test_1234567890.png");
    assert_eq!(tile_file_path(usize::MAX), format!("tile_images/test_{}.png", usize::MAX));
}

#[test]
fn pointer_down_inside_starts_drag_and_paints() {
    let mut canvas = Canvas::new(0);
    canvas.set_current_color(RED);
    canvas.pointer_event(PointerEvent::Down { primary: true, cell: Some(pos(2, 3)) });
    assert!(canvas.drawing());
    assert_eq!(canvas.get(pos(2, 3)), Ok(RED));
    assert_eq!(canvas.storage().iter().filter(|c| **c == RED).count(), 1);
}

#[test]
fn pointer_down_outside_or_with_other_button_changes_nothing() {
    let mut canvas = patterned(0);
    let before = canvas.clone();
    canvas.pointer_event(PointerEvent::Down { primary: true, cell: None });
    assert_eq!(canvas, before);
    canvas.pointer_event(PointerEvent::Down { primary: true, cell: Some(pos(8, 0)) });
    assert_eq!(canvas, before);
    canvas.pointer_event(PointerEvent::Down { primary: false, cell: Some(pos(1, 1)) });
    assert_eq!(canvas, before);
}

#[test]
fn pointer_move_paints_only_while_dragging() {
    let mut canvas = Canvas::new(0);
    canvas.set_current_color(GREEN);
    canvas.pointer_event(PointerEvent::Move { cell: Some(pos(1, 1)) });
    assert_eq!(canvas, {
        let mut idle = Canvas::new(0);
        idle.set_current_color(GREEN);
        idle
    });
    canvas.pointer_event(PointerEvent::Down { primary: true, cell: Some(pos(0, 0)) });
    canvas.pointer_event(PointerEvent::Move { cell: Some(pos(1, 1)) });
    canvas.pointer_event(PointerEvent::Move { cell: Some(pos(1, 2)) });
    assert!(canvas.drawing());
    assert_eq!(canvas.get(pos(0, 0)), Ok(GREEN));
    assert_eq!(canvas.get(pos(1, 1)), Ok(GREEN));
    assert_eq!(canvas.get(pos(1, 2)), Ok(GREEN));
    assert_eq!(canvas.storage().iter().filter(|c| **c == GREEN).count(), 3);
}

#[test]
fn pointer_move_outside_while_dragging_changes_nothing() {
    let mut canvas = Canvas::new(0);
    canvas.pointer_event(PointerEvent::Down { primary: true, cell: Some(pos(4, 4)) });
    let before = canvas.clone();
    canvas.pointer_event(PointerEvent::Move { cell: None });
    assert_eq!(canvas, before);
    canvas.pointer_event(PointerEvent::Move { cell: Some(pos(0, 8)) });
    assert_eq!(canvas, before);
    assert!(canvas.drawing());
}

#[test]
fn pointer_up_ends_the_drag() {
    let mut canvas = Canvas::new(0);
    canvas.pointer_event(PointerEvent::Down { primary: true, cell: Some(pos(4, 4)) });
    canvas.pointer_event(PointerEvent::Move { cell: None });
    let cells = canvas.storage().clone();
    canvas.pointer_event(PointerEvent::Up { primary: false });
    assert!(canvas.drawing());
    canvas.pointer_event(PointerEvent::Up { primary: true });
    assert!(!canvas.drawing());
    assert_eq!(canvas.storage(), &cells);
    canvas.pointer_event(PointerEvent::Move { cell: Some(pos(5, 5)) });
    assert_eq!(canvas.storage(), &cells);
}

#[test]
fn error_messages_differ() {
    let all = [TileError::Io, TileError::Decode, TileError::NotFound, TileError::OutOfRange];
    for (i, a) in all.iter().enumerate() {
        assert!(!a.message().is_empty());
        for b in all.iter().skip(i + 1) {
            assert_ne!(a.message(), b.message());
        }
    }
    assert_eq!(TileError::NotFound.message(), "no module found with that id");
}
