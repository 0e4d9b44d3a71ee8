use garage_ray::film::Film;
use garage_ray::film::FilmTile;
use garage_ray::math::Bounds2Di;
use garage_ray::math::Point2i;

fn b(x0: i32, y0: i32, x1: i32, y1: i32) -> Bounds2Di {
    Bounds2Di {
        min: Point2i { x: x0, y: y0 },
        max: Point2i { x: x1, y: y1 },
    }
}

#[test]
fn new_film_is_black() {
    let film = Film::new(Point2i { x: 3, y: 2 });
    for y in 0..2 {
        for x in 0..3 {
            assert_eq!(film.pixel(Point2i { x, y }), (0, 0, 0));
        }
    }
}

#[test]
fn sample_bounds_cover_the_raster() {
    let film = Film::new(Point2i { x: 7, y: 5 });
    let sb = film.get_sample_bounds();
    assert_eq!((sb.min.x, sb.min.y, sb.max.x, sb.max.y), (0, 0, 7, 5));
}

#[test]
fn film_tile_is_clipped_to_the_raster() {
    let film = Film::new(Point2i { x: 4, y: 4 });
    let tile = film.get_film_tile(b(-2, 1, 9, 3));
    assert_eq!(
        (
            tile.bounds.min.x,
            tile.bounds.min.y,
            tile.bounds.max.x,
            tile.bounds.max.y
        ),
        (0, 1, 4, 3)
    );
}

#[test]
fn film_tile_of_disjoint_bounds_is_empty() {
    let film = Film::new(Point2i { x: 4, y: 4 });
    let tile = film.get_film_tile(b(10, 10, 12, 12));
    assert_eq!(tile.bounds.min.x, tile.bounds.max.x);
    let mut it = tile.iter();
    assert_eq!(it.next(), None);
}

#[test]
fn merge_writes_tile_pixels_and_keeps_the_rest() {
    let mut film = Film::new(Point2i { x: 4, y: 3 });
    let full = film.get_sample_bounds();
    let mut warm = film.get_film_tile(full);
    for y in 0..3 {
        for x in 0..4 {
            warm.set_pixel(Point2i { x, y }, (9, 9, 9));
        }
    }
    film.merge_film_tile(warm);

    let mut tile = film.get_film_tile(b(1, 1, 3, 2));
    tile.set_pixel(Point2i { x: 1, y: 1 }, (10, 20, 30));
    tile.set_pixel(Point2i { x: 2, y: 1 }, (40, 50, 60));
    film.merge_film_tile(tile);

    assert_eq!(film.pixel(Point2i { x: 1, y: 1 }), (10, 20, 30));
    assert_eq!(film.pixel(Point2i { x: 2, y: 1 }), (40, 50, 60));
    // untouched by the second tile
    assert_eq!(film.pixel(Point2i { x: 0, y: 0 }), (9, 9, 9));
    assert_eq!(film.pixel(Point2i { x: 3, y: 2 }), (9, 9, 9));
}

#[test]
fn tile_iterator_walks_row_major() {
    let tile = FilmTile::new_black(b(1, 1, 3, 3));
    let mut it = tile.iter();
    let mut seen = Vec::new();
    while let Some(p) = it.next() {
        seen.push((p.x, p.y));
    }
    assert_eq!(seen, vec![(1, 1), (2, 1), (1, 2), (2, 2)]);
}

#[test]
fn tile_set_pixel_round_trips() {
    let mut tile = FilmTile::new_black(b(2, 2, 5, 4));
    tile.set_pixel(Point2i { x: 4, y: 3 }, (1, 2, 3));
    assert_eq!(tile.pixel(Point2i { x: 4, y: 3 }), (1, 2, 3));
    assert_eq!(tile.pixel(Point2i { x: 2, y: 2 }), (0, 0, 0));
}

#[test]
fn write_image_is_row_major_rgb() {
    let mut film = Film::new(Point2i { x: 2, y: 2 });
    let full = film.get_sample_bounds();
    let mut tile = film.get_film_tile(full);
    tile.set_pixel(Point2i { x: 0, y: 0 }, (1, 2, 3));
    tile.set_pixel(Point2i { x: 1, y: 0 }, (4, 5, 6));
    tile.set_pixel(Point2i { x: 0, y: 1 }, (7, 8, 9));
    tile.set_pixel(Point2i { x: 1, y: 1 }, (10, 11, 12));
    film.merge_film_tile(tile);
    let bytes = film.write_image();
    assert_eq!(bytes, vec![1, 2, 3, 4, 5, 6, 7, 8, 9, 10, 11, 12]);
}

#[test]
fn empty_film_works() {
    let film = Film::new(Point2i { x: 0, y: 0 });
    assert_eq!(film.write_image(), Vec::<u8>::new());
    let tile = film.get_film_tile(b(0, 0, 5, 5));
    assert_eq!(tile.bounds.min, tile.bounds.max);
}

#[test]
fn single_row_tile_iterates_once_per_column() {
    let tile = FilmTile::new_black(b(0, 0, 3, 1));
    let mut it = tile.iter();
    assert_eq!(it.next().map(|p| (p.x, p.y)), Some((0, 0)));
    assert_eq!(it.next().map(|p| (p.x, p.y)), Some((1, 0)));
    assert_eq!(it.next().map(|p| (p.x, p.y)), Some((2, 0)));
    assert_eq!(it.next(), None);
}

#[test]
fn later_merge_wins_on_overlap() {
    let mut film = Film::new(Point2i { x: 3, y: 3 });
    let mut first = film.get_film_tile(b(0, 0, 2, 2));
    for y in 0..2 {
        for x in 0..2 {
            first.set_pixel(Point2i { x, y }, (1, 1, 1));
        }
    }
    film.merge_film_tile(first);
    let mut second = film.get_film_tile(b(1, 1, 3, 3));
    for y in 1..3 {
        for x in 1..3 {
            second.set_pixel(Point2i { x, y }, (2, 2, 2));
        }
    }
    film.merge_film_tile(second);
    assert_eq!(film.pixel(Point2i { x: 0, y: 0 }), (1, 1, 1));
    assert_eq!(film.pixel(Point2i { x: 1, y: 1 }), (2, 2, 2));
    assert_eq!(film.pixel(Point2i { x: 2, y: 2 }), (2, 2, 2));
    assert_eq!(film.pixel(Point2i { x: 2, y: 0 }), (0, 0, 0));
}

#[test]
fn tile_decomposition_of_a_small_raster() {
    let film = Film::new(Point2i { x: 5, y: 3 });
    let tiles: Vec<(i32, i32, i32, i32)> = film
        .tile_bounds(2)
        .iter()
        .map(|t| (t.min.x, t.min.y, t.max.x, t.max.y))
        .collect();
    assert_eq!(
        tiles,
        vec![
            (0, 0, 2, 2),
            (2, 0, 4, 2),
            (4, 0, 5, 2),
            (0, 2, 2, 3),
            (2, 2, 4, 3),
            (4, 2, 5, 3),
        ]
    );
}

#[test]
fn tile_decomposition_covers_each_pixel_once() {
    let film = Film::new(Point2i { x: 7, y: 5 });
    let tiles = film.tile_bounds(3);
    for y in 0..5 {
        for x in 0..7 {
            let holders = tiles
                .iter()
                .filter(|t| x >= t.min.x && x < t.max.x && y >= t.min.y && y < t.max.y)
                .count();
            assert_eq!(holders, 1);
        }
    }
}

#[test]
fn tile_decomposition_of_an_empty_raster_is_empty() {
    let film = Film::new(Point2i { x: 0, y: 4 });
    assert!(film.tile_bounds(16).is_empty());
}
