use image::{ImageFormat, Rgba, RgbaImage};
use voxel_engine::textures::atlas::Face;
use voxel_engine::textures::builder::{
    assemble_atlas, block_names, divides_evenly, face_file, grown_canvas, has_cells, template_tiles,
    write_template,
};
use voxel_engine::textures::picture::{load_from_memory, Picture};

fn pixel(p: &Picture, x: u32, y: u32) -> [u8; 4] {
    let i = 4 * (y * p.width + x) as usize;
    [p.pixels[i], p.pixels[i + 1], p.pixels[i + 2], p.pixels[i + 3]]
}

fn plain(width: u32, height: u32, color: [u8; 4]) -> Picture {
    let mut pixels = Vec::new();
    for _ in 0..width * height {
        pixels.extend_from_slice(&color);
    }
    Picture { width, height, pixels }
}

/// A template whose cells have a color each, by column and row.
fn template(cell: u32) -> Picture {
    let mut pixels = Vec::new();
    for y in 0..4 * cell {
        for x in 0..3 * cell {
            pixels.extend_from_slice(&[10 * (x / cell) as u8, 20 * (y / cell) as u8, 7, 255]);
        }
    }
    Picture { width: 3 * cell, height: 4 * cell, pixels }
}

#[test]
fn pictures_are_decoded() {
    let mut source = RgbaImage::new(3, 2);
    source.put_pixel(0, 0, Rgba([1, 2, 3, 4]));
    source.put_pixel(2, 1, Rgba([250, 100, 50, 255]));
    let mut bytes: Vec<u8> = Vec::new();
    source.write_to(&mut std::io::Cursor::new(&mut bytes), ImageFormat::Png).unwrap();
    let p = load_from_memory(&bytes).unwrap();
    assert_eq!((p.width, p.height), (3, 2));
    assert_eq!(p.pixels.len(), 24);
    assert_eq!(pixel(&p, 0, 0), [1, 2, 3, 4]);
    assert_eq!(pixel(&p, 2, 1), [250, 100, 50, 255]);
}

#[test]
fn what_is_no_picture_is_refused() {
    assert!(load_from_memory(b"no soy un png").is_none());
    assert!(load_from_memory(&[]).is_none());
}

#[test]
fn blank_pictures_are_transparent() {
    let p = Picture::blank(2, 3);
    assert_eq!(p.pixels, vec![0; 24]);
    assert_eq!(Picture::blank(0, 5).pixels.len(), 0);
}

#[test]
fn parts_are_cut_out() {
    let t = template(2);
    let part = t.crop(2, 4, 2, 2);
    assert_eq!((part.width, part.height), (2, 2));
    for y in 0..2 {
        for x in 0..2 {
            assert_eq!(pixel(&part, x, y), [10, 40, 7, 255]);
        }
    }
    let edge = t.crop(1, 1, 2, 2);
    assert_eq!(pixel(&edge, 0, 0), [0, 0, 7, 255]);
    assert_eq!(pixel(&edge, 1, 1), [10, 20, 7, 255]);
    assert_eq!(t.crop(0, 0, 0, 0).pixels.len(), 0);
}

#[test]
fn resizing_takes_the_nearest_pixels() {
    let mut p = plain(2, 1, [9, 9, 9, 255]);
    p.pixels[4] = 200;
    let wide = p.resized_to(4, 2);
    assert_eq!((wide.width, wide.height), (4, 2));
    assert_eq!(pixel(&wide, 0, 1), [9, 9, 9, 255]);
    assert_eq!(pixel(&wide, 1, 0), [9, 9, 9, 255]);
    assert_eq!(pixel(&wide, 2, 0), [200, 9, 9, 255]);
    assert_eq!(pixel(&wide, 3, 1), [200, 9, 9, 255]);
    let same = p.resized_to(2, 1);
    assert_eq!(same.pixels, p.pixels);
}

#[test]
fn overlaying_respects_opacity() {
    let bottom = plain(3, 3, [1, 1, 1, 255]);
    let mut top = plain(2, 2, [50, 60, 70, 255]);
    top.pixels[3] = 0;
    let r = bottom.overlaid_with(&top, 1, 1);
    assert_eq!(pixel(&r, 0, 0), [1, 1, 1, 255]);
    assert_eq!(pixel(&r, 1, 1), [1, 1, 1, 255]);
    assert_eq!(pixel(&r, 2, 1), [50, 60, 70, 255]);
    assert_eq!(pixel(&r, 2, 2), [50, 60, 70, 255]);
    // Beyond the edge nothing happens.
    let off = plain(2, 2, [3, 3, 3, 255]).overlaid_with(&top, 5, -9);
    assert_eq!(off.pixels, plain(2, 2, [3, 3, 3, 255]).pixels);
}

#[test]
fn templates_have_a_grid() {
    assert!(divides_evenly(48, 64));
    assert!(!divides_evenly(49, 64));
    assert!(has_cells(3, 4));
    assert!(!has_cells(2, 4));
    assert!(!has_cells(3, 3));
}

#[test]
fn the_six_faces_come_out_in_order() {
    let tiles = template_tiles(&template(8));
    let wanted = [[10, 0], [10, 40], [10, 60], [10, 20], [20, 20], [0, 20]];
    assert_eq!(tiles.len(), 6);
    for (tile, [red, green]) in tiles.iter().zip(wanted) {
        assert_eq!((tile.width, tile.height), (16, 16));
        for y in [0, 7, 15] {
            assert_eq!(pixel(tile, 15 - y, y), [red, green, 7, 255]);
        }
    }
}

#[test]
fn a_template_starts_a_new_atlas() {
    let atlas = write_template(&template(4), 1, None);
    assert_eq!((atlas.width, atlas.height), (96, 32));
    assert_eq!(pixel(&atlas, 0, 0), [0, 0, 0, 0]);
    assert_eq!(pixel(&atlas, 0, 16), [10, 0, 7, 255]);
    assert_eq!(pixel(&atlas, 95, 31), [0, 20, 7, 255]);
}

#[test]
fn other_rows_of_the_atlas_stay() {
    let first = write_template(&template(4), 0, None);
    let second = write_template(&plain(48, 64, [77, 88, 99, 255]), 2, Some(first));
    assert_eq!((second.width, second.height), (96, 48));
    assert_eq!(pixel(&second, 0, 0), [10, 0, 7, 255]);
    assert_eq!(pixel(&second, 0, 20), [0, 0, 0, 0]);
    assert_eq!(pixel(&second, 50, 40), [77, 88, 99, 255]);
    let third = write_template(&plain(48, 64, [5, 5, 5, 255]), 0, Some(second));
    assert_eq!(pixel(&third, 0, 0), [5, 5, 5, 255]);
    assert_eq!(pixel(&third, 50, 40), [77, 88, 99, 255]);
}

#[test]
fn the_atlas_grows_by_whole_rows() {
    let wide = grown_canvas(Some(plain(120, 16, [1, 2, 3, 255])), 0);
    assert_eq!((wide.width, wide.height), (120, 16));
    assert_eq!(pixel(&wide, 119, 15), [1, 2, 3, 255]);
    let uneven = grown_canvas(Some(plain(96, 20, [1, 2, 3, 255])), 0);
    assert_eq!((uneven.width, uneven.height), (96, 16));
    let tall = grown_canvas(Some(plain(10, 40, [1, 2, 3, 255])), 3);
    assert_eq!((tall.width, tall.height), (96, 64));
    assert_eq!(pixel(&tall, 9, 39), [1, 2, 3, 255]);
    assert_eq!(pixel(&tall, 10, 0), [0, 0, 0, 0]);
}

#[test]
fn block_lists_are_read() {
    let list = "# bloques\nstone\n\n  dirt \r\n#agua\ngrass";
    assert_eq!(block_names(list), vec!["stone", "dirt", "grass"]);
    assert!(block_names("\n# nada\n  \n").is_empty());
    assert!(block_names("").is_empty());
}

#[test]
fn faces_have_files() {
    assert_eq!(face_file("stone", Face::Top), "stone_top.png");
    assert_eq!(face_file("grass", Face::West), "grass_west.png");
}

#[test]
fn the_atlas_is_put_together_row_by_row() {
    let mut pictures = Vec::new();
    for n in 0..12u8 {
        let side = if n == 3 { 32 } else { 16 };
        pictures.push(plain(side, side, [n, 100 + n, 0, 255]));
    }
    let atlas = assemble_atlas(&pictures);
    assert_eq!((atlas.width, atlas.height), (96, 32));
    for n in 0..12u32 {
        let (x, y) = (16 * (n % 6), 16 * (n / 6));
        assert_eq!(pixel(&atlas, x, y), [n as u8, 100 + n as u8, 0, 255]);
        assert_eq!(pixel(&atlas, x + 15, y + 15), [n as u8, 100 + n as u8, 0, 255]);
    }
}
