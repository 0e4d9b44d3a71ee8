//! The film: a row-major raster of gamma-corrected (r, g, b) byte triples,
//! filled through rectangular tiles so that worker threads can render
//! disjoint regions and merge them back without sharing pixels.
use crate::math::Bounds2Di;
use crate::math::Point2i;
use crate::math::bounds_contains_2d;
use crate::math::bounds_disjoint_2d;
use crate::math::spec_inside_exclusive_2d;
use vstd::prelude::*;

verus! {

/// The row-major position of `p` in a raster of width `w` whose origin is
/// `(0, 0)`.
pub open spec fn row_major_index(p: Point2i, w: int) -> int {
    p.y * w + p.x
}

/// A row-major pixel position stays inside the raster.
pub proof fn lemma_row_major_in_range(x: int, y: int, w: int, h: int)
    by (nonlinear_arith)
    requires
        0 <= x < w,
        0 <= y < h,
    ensures
        0 <= y * w + x < h * w,
{
}

/// Two distinct pixel positions of one raster never share a row-major index.
pub proof fn lemma_row_major_injective(x1: int, y1: int, x2: int, y2: int, w: int)
    by (nonlinear_arith)
    requires
        0 <= x1 < w,
        0 <= x2 < w,
        y1 * w + x1 == y2 * w + x2,
    ensures
        x1 == x2,
        y1 == y2,
{
}

/// A smaller raster never stores more pixels than a larger one.
proof fn lemma_area_monotone(dx: int, dy: int, w: int, h: int)
    by (nonlinear_arith)
    requires
        0 <= dx <= w,
        0 <= dy <= h,
    ensures
        dx * dy <= w * h,
{
}

/// A film holding one byte triple per pixel of its full resolution.
pub struct Film {
    pub full_resolution: Point2i,
    pub pixels: Vec<(u8, u8, u8)>,
}

/// A rectangular region of the film, rendered on its own and merged back.
pub struct FilmTile {
    pub bounds: Bounds2Di,
    pub pixels: Vec<(u8, u8, u8)>,
}

/// Walks the pixel positions of a tile in row-major order.
pub struct FilmTileIterator {
    pub bounds: Bounds2Di,
    pub cur: Point2i,
}

impl FilmTile {
    /// A tile is well formed when its corners are ordered, it lies in the
    /// non-negative quadrant, and it stores one triple per covered position.
    pub open spec fn wf(self) -> bool {
        &&& 0 <= self.bounds.min.x <= self.bounds.max.x
        &&& 0 <= self.bounds.min.y <= self.bounds.max.y
        &&& self.pixels@.len() == (self.bounds.max.x - self.bounds.min.x) * (self.bounds.max.y
            - self.bounds.min.y)
    }

    /// The stored triple at film position `p` (the tile stores its pixels
    /// relative to its own minimum corner).
    pub open spec fn spec_pixel(self, p: Point2i) -> (u8, u8, u8) {
        self.pixels@[row_major_index(
            Point2i { x: (p.x - self.bounds.min.x) as i32, y: (p.y - self.bounds.min.y) as i32 },
            self.bounds.max.x - self.bounds.min.x,
        )]
    }

    /// A black tile over `bounds`.
    pub fn new_black(bounds: Bounds2Di) -> (r: FilmTile)
        requires
            0 <= bounds.min.x <= bounds.max.x,
            0 <= bounds.min.y <= bounds.max.y,
            (bounds.max.x - bounds.min.x) * (bounds.max.y - bounds.min.y) <= usize::MAX,
        ensures
            r.wf(),
            r.bounds == bounds,
            forall|p: Point2i|
                spec_inside_exclusive_2d(p, bounds) ==> r.spec_pixel(p) == (0u8, 0u8, 0u8),
    {
        let w = (bounds.max.x - bounds.min.x) as usize;
        let h = (bounds.max.y - bounds.min.y) as usize;
        assert(w * h == (bounds.max.x - bounds.min.x) * (bounds.max.y - bounds.min.y))
            by (nonlinear_arith)
            requires
                w == bounds.max.x - bounds.min.x,
                h == bounds.max.y - bounds.min.y,
        ;
        let n = w * h;
        let mut pixels: Vec<(u8, u8, u8)> = Vec::new();
        let mut i: usize = 0;
        while i < n
            invariant
                i <= n,
                pixels@.len() == i,
                forall|j: int| 0 <= j < i ==> pixels@[j] == (0u8, 0u8, 0u8),
            decreases n - i,
        {
            pixels.push((0u8, 0u8, 0u8));
            i = i + 1;
        }
        let tile = FilmTile { bounds, pixels };
        proof {
            assert forall|p: Point2i| spec_inside_exclusive_2d(p, bounds) implies tile.spec_pixel(p)
                == (0u8, 0u8, 0u8) by {
                lemma_row_major_in_range(
                    p.x - bounds.min.x,
                    p.y - bounds.min.y,
                    bounds.max.x - bounds.min.x,
                    bounds.max.y - bounds.min.y,
                );
                assert((bounds.max.y - bounds.min.y) * (bounds.max.x - bounds.min.x) == (
                bounds.max.x - bounds.min.x) * (bounds.max.y - bounds.min.y)) by (nonlinear_arith);
            }
        }
        tile
    }

    /// Store the resolved colour of the pixel at film position `p`.
    pub fn set_pixel(&mut self, p: Point2i, value: (u8, u8, u8))
        requires
            old(self).wf(),
            spec_inside_exclusive_2d(p, old(self).bounds),
        ensures
            final(self).wf(),
            final(self).bounds == old(self).bounds,
            final(self).spec_pixel(p) == value,
            forall|q: Point2i|
                spec_inside_exclusive_2d(q, old(self).bounds) && q != p ==> final(self).spec_pixel(
                    q,
                ) == old(self).spec_pixel(q),
    {
        let w = (self.bounds.max.x - self.bounds.min.x) as usize;
        let x = (p.x - self.bounds.min.x) as usize;
        let y = (p.y - self.bounds.min.y) as usize;
        proof {
            vstd::std_specs::vec::axiom_spec_len(&self.pixels);
            lemma_row_major_in_range(
                x as int,
                y as int,
                self.bounds.max.x - self.bounds.min.x,
                self.bounds.max.y - self.bounds.min.y,
            );
            assert((self.bounds.max.y - self.bounds.min.y) * (self.bounds.max.x - self.bounds.min.x)
                == (self.bounds.max.x - self.bounds.min.x) * (self.bounds.max.y
                - self.bounds.min.y)) by (nonlinear_arith);
        }
        let idx = y * w + x;
        self.pixels.set(idx, value);
        proof {
            assert forall|q: Point2i|
                spec_inside_exclusive_2d(q, old(self).bounds) && q != p implies self.spec_pixel(q)
                == old(self).spec_pixel(q) by {
                lemma_row_major_in_range(
                    q.x - self.bounds.min.x,
                    q.y - self.bounds.min.y,
                    self.bounds.max.x - self.bounds.min.x,
                    self.bounds.max.y - self.bounds.min.y,
                );
                if row_major_index(
                    Point2i {
                        x: (q.x - self.bounds.min.x) as i32,
                        y: (q.y - self.bounds.min.y) as i32,
                    },
                    self.bounds.max.x - self.bounds.min.x,
                ) == idx {
                    lemma_row_major_injective(
                        q.x - self.bounds.min.x,
                        q.y - self.bounds.min.y,
                        p.x - self.bounds.min.x,
                        p.y - self.bounds.min.y,
                        self.bounds.max.x - self.bounds.min.x,
                    );
                }
            }
        }
    }

    /// Read back the stored colour at film position `p`.
    pub fn pixel(&self, p: Point2i) -> (r: (u8, u8, u8))
        requires
            self.wf(),
            spec_inside_exclusive_2d(p, self.bounds),
        ensures
            r == self.spec_pixel(p),
    {
        let w = (self.bounds.max.x - self.bounds.min.x) as usize;
        let x = (p.x - self.bounds.min.x) as usize;
        let y = (p.y - self.bounds.min.y) as usize;
        proof {
            vstd::std_specs::vec::axiom_spec_len(&self.pixels);
            lemma_row_major_in_range(
                x as int,
                y as int,
                self.bounds.max.x - self.bounds.min.x,
                self.bounds.max.y - self.bounds.min.y,
            );
            assert((self.bounds.max.y - self.bounds.min.y) * (self.bounds.max.x - self.bounds.min.x)
                == (self.bounds.max.x - self.bounds.min.x) * (self.bounds.max.y
                - self.bounds.min.y)) by (nonlinear_arith);
        }
        self.pixels[y * w + x]
    }

    /// Iterate the film positions this tile covers, row by row.
    pub fn iter(&self) -> (r: FilmTileIterator)
        requires
            self.wf(),
        ensures
            r.wf(),
            r.bounds == self.bounds,
            r.cur == self.bounds.min,
    {
        FilmTileIterator { bounds: self.bounds, cur: self.bounds.min }
    }
}

/// The row-major successor of `p` inside `b`.
pub open spec fn spec_advance_2d(p: Point2i, b: Bounds2Di) -> Point2i {
    if p.x + 1 < b.max.x {
        Point2i { x: (p.x + 1) as i32, y: p.y }
    } else {
        Point2i { x: b.min.x, y: (p.y + 1) as i32 }
    }
}

impl FilmTileIterator {
    /// The cursor stays on the current row until it passes the last one.
    pub open spec fn wf(self) -> bool {
        &&& self.bounds.min.x <= self.bounds.max.x
        &&& self.bounds.min.y <= self.bounds.max.y
        &&& self.bounds.min.y <= self.cur.y <= self.bounds.max.y
        &&& if self.bounds.min.x < self.bounds.max.x {
            self.bounds.min.x <= self.cur.x < self.bounds.max.x
        } else {
            self.cur.x == self.bounds.min.x
        }
    }

    /// Yield the next pixel position in row-major order, or nothing once
    /// every covered position has been yielded.
    pub fn next(&mut self) -> (r: Option<Point2i>)
        requires
            old(self).wf(),
        ensures
            final(self).wf(),
            final(self).bounds == old(self).bounds,
            match r {
                Some(p) => {
                    &&& p == old(self).cur
                    &&& spec_inside_exclusive_2d(p, old(self).bounds)
                    &&& final(self).cur == spec_advance_2d(p, old(self).bounds)
                },
                None => {
                    &&& final(self).cur == old(self).cur
                    &&& (old(self).bounds.min.x >= old(self).bounds.max.x || old(self).cur.y
                        >= old(self).bounds.max.y)
                },
            },
    {
        if self.bounds.min.x >= self.bounds.max.x || self.cur.y >= self.bounds.max.y {
            return None;
        }
        let p = self.cur;
        if self.cur.x + 1 < self.bounds.max.x {
            self.cur = Point2i { x: self.cur.x + 1, y: self.cur.y };
        } else {
            self.cur = Point2i { x: self.bounds.min.x, y: self.cur.y + 1 };
        }
        Some(p)
    }
}

impl Film {
    /// The raster covered by this film: `(0, 0)` up to the full resolution.
    pub open spec fn spec_raster(self) -> Bounds2Di {
        Bounds2Di { min: Point2i { x: 0, y: 0 }, max: self.full_resolution }
    }

    /// A film is well formed when it stores exactly one triple per raster
    /// position.
    pub open spec fn wf(self) -> bool {
        &&& 0 <= self.full_resolution.x
        &&& 0 <= self.full_resolution.y
        &&& self.pixels@.len() == self.full_resolution.x * self.full_resolution.y
    }

    /// The stored triple at raster position `p`.
    pub open spec fn spec_pixel(self, p: Point2i) -> (u8, u8, u8) {
        self.pixels@[row_major_index(p, self.full_resolution.x as int)]
    }

    /// A black film of the given resolution.
    pub fn new(full_resolution: Point2i) -> (r: Film)
        requires
            0 <= full_resolution.x,
            0 <= full_resolution.y,
            full_resolution.x * full_resolution.y <= usize::MAX,
        ensures
            r.wf(),
            r.full_resolution == full_resolution,
            forall|p: Point2i|
                spec_inside_exclusive_2d(p, r.spec_raster()) ==> r.spec_pixel(p) == (0u8, 0u8, 0u8),
    {
        let w = full_resolution.x as usize;
        let h = full_resolution.y as usize;
        assert(w * h == full_resolution.x * full_resolution.y) by (nonlinear_arith)
            requires
                w == full_resolution.x,
                h == full_resolution.y,
        ;
        let n = w * h;
        let mut pixels: Vec<(u8, u8, u8)> = Vec::new();
        let mut i: usize = 0;
        while i < n
            invariant
                i <= n,
                pixels@.len() == i,
                forall|j: int| 0 <= j < i ==> pixels@[j] == (0u8, 0u8, 0u8),
            decreases n - i,
        {
            pixels.push((0u8, 0u8, 0u8));
            i = i + 1;
        }
        let film = Film { full_resolution, pixels };
        proof {
            assert forall|p: Point2i| spec_inside_exclusive_2d(p, film.spec_raster())
                implies film.spec_pixel(p) == (0u8, 0u8, 0u8) by {
                lemma_row_major_in_range(
                    p.x as int,
                    p.y as int,
                    full_resolution.x as int,
                    full_resolution.y as int,
                );
                assert(full_resolution.y * full_resolution.x == full_resolution.x
                    * full_resolution.y) by (nonlinear_arith);
            }
        }
        film
    }

    /// The region a sampler must cover: the whole raster.
    pub fn get_sample_bounds(&self) -> (r: Bounds2Di)
        ensures
            r == self.spec_raster(),
    {
        Bounds2Di { min: Point2i { x: 0, y: 0 }, max: self.full_resolution }
    }

    /// A black tile covering the part of `bounds` that lies on the film:
    /// each corner is clamped to the raster and the corners are reordered so
    /// that an empty overlap becomes an empty, well-formed tile.
    pub fn get_film_tile(&self, bounds: Bounds2Di) -> (r: FilmTile)
        requires
            self.wf(),
        ensures
            r.wf(),
            r.bounds.min.x == crate::math::clamp_i32(
                bounds.min.x as int,
                0,
                self.full_resolution.x as int,
            ),
            r.bounds.min.y == crate::math::clamp_i32(
                bounds.min.y as int,
                0,
                self.full_resolution.y as int,
            ),
            r.bounds.max.x == crate::math::clamp_i32(
                bounds.max.x as int,
                r.bounds.min.x as int,
                self.full_resolution.x as int,
            ),
            r.bounds.max.y == crate::math::clamp_i32(
                bounds.max.y as int,
                r.bounds.min.y as int,
                self.full_resolution.y as int,
            ),
            bounds_contains_2d(self.spec_raster(), r.bounds),
            forall|p: Point2i|
                spec_inside_exclusive_2d(p, r.bounds) ==> r.spec_pixel(p) == (0u8, 0u8, 0u8),
    {
        proof {
            vstd::std_specs::vec::axiom_spec_len(&self.pixels);
        }
        let min_x = crate::math::clamp(bounds.min.x, 0, self.full_resolution.x);
        let min_y = crate::math::clamp(bounds.min.y, 0, self.full_resolution.y);
        let max_x = crate::math::clamp(bounds.max.x, min_x, self.full_resolution.x);
        let max_y = crate::math::clamp(bounds.max.y, min_y, self.full_resolution.y);
        let tile_bounds = Bounds2Di {
            min: Point2i { x: min_x, y: min_y },
            max: Point2i { x: max_x, y: max_y },
        };
        proof {
            lemma_area_monotone(
                tile_bounds.max.x - tile_bounds.min.x,
                tile_bounds.max.y - tile_bounds.min.y,
                self.full_resolution.x as int,
                self.full_resolution.y as int,
            );
        }
        FilmTile::new_black(tile_bounds)
    }

    /// Split the raster into rectangles of at most `tile_size` pixels per
    /// side, row band by row band: together they cover every pixel, and no
    /// two of them share one, so each can be rendered on its own and merged
    /// back.
    pub fn tile_bounds(&self, tile_size: i32) -> (r: Vec<Bounds2Di>)
        requires
            self.wf(),
            tile_size > 0,
        ensures
            forall|k: int|
                0 <= k < r@.len() ==> {
                    &&& (#[trigger] r@[k]).min.x < r@[k].max.x
                    &&& r@[k].min.y < r@[k].max.y
                    &&& bounds_contains_2d(self.spec_raster(), r@[k])
                    &&& r@[k].max.x - r@[k].min.x <= tile_size
                    &&& r@[k].max.y - r@[k].min.y <= tile_size
                },
            forall|p: Point2i|
                #[trigger] spec_inside_exclusive_2d(p, self.spec_raster()) ==> exists|k: int|
                    0 <= k < r@.len() && spec_inside_exclusive_2d(p, #[trigger] r@[k]),
            forall|k1: int, k2: int|
                0 <= k1 < r@.len() && 0 <= k2 < r@.len() && k1 != k2 ==> bounds_disjoint_2d(
                    #[trigger] r@[k1],
                    #[trigger] r@[k2],
                ),
    {
        let w = self.full_resolution.x;
        let h = self.full_resolution.y;
        let mut r: Vec<Bounds2Di> = Vec::new();
        let mut y: i32 = 0;
        while y < h
            invariant
                0 <= y <= h,
                0 <= w,
                tile_size > 0,
                forall|k: int|
                    0 <= k < r@.len() ==> {
                        &&& (#[trigger] r@[k]).min.x < r@[k].max.x
                        &&& r@[k].min.y < r@[k].max.y
                        &&& 0 <= r@[k].min.x && r@[k].max.x <= w
                        &&& 0 <= r@[k].min.y && r@[k].max.y <= y
                        &&& r@[k].max.x - r@[k].min.x <= tile_size
                        &&& r@[k].max.y - r@[k].min.y <= tile_size
                    },
                forall|p: Point2i|
                    #[trigger] spec_inside_exclusive_2d(
                        p,
                        Bounds2Di { min: Point2i { x: 0, y: 0 }, max: Point2i { x: w, y: y } },
                    ) ==> exists|k: int|
                        0 <= k < r@.len() && spec_inside_exclusive_2d(p, #[trigger] r@[k]),
                forall|k1: int, k2: int|
                    0 <= k1 < r@.len() && 0 <= k2 < r@.len() && k1 != k2 ==> bounds_disjoint_2d(
                        #[trigger] r@[k1],
                        #[trigger] r@[k2],
                    ),
            decreases h - y,
        {
            let sy = if h - y < tile_size {
                h - y
            } else {
                tile_size
            };
            let mut x: i32 = 0;
            while x < w
                invariant
                    0 <= y < h,
                    0 <= x <= w,
                    tile_size > 0,
                    1 <= sy <= tile_size,
                    y + sy <= h,
                    forall|k: int|
                        0 <= k < r@.len() ==> {
                            &&& (#[trigger] r@[k]).min.x < r@[k].max.x
                            &&& r@[k].min.y < r@[k].max.y
                            &&& 0 <= r@[k].min.x && r@[k].max.x <= w
                            &&& 0 <= r@[k].min.y && r@[k].max.y <= y + sy
                            &&& (r@[k].max.y <= y || r@[k].max.x <= x)
                            &&& r@[k].max.x - r@[k].min.x <= tile_size
                            &&& r@[k].max.y - r@[k].min.y <= tile_size
                        },
                    forall|p: Point2i|
                        #[trigger] spec_inside_exclusive_2d(
                            p,
                            Bounds2Di { min: Point2i { x: 0, y: 0 }, max: Point2i { x: w, y: y } },
                        ) ==> exists|k: int|
                            0 <= k < r@.len() && spec_inside_exclusive_2d(p, #[trigger] r@[k]),
                    forall|p: Point2i|
                        #[trigger] spec_inside_exclusive_2d(
                            p,
                            Bounds2Di {
                                min: Point2i { x: 0, y: y },
                                max: Point2i { x: x, y: (y + sy) as i32 },
                            },
                        ) ==> exists|k: int|
                            0 <= k < r@.len() && spec_inside_exclusive_2d(p, #[trigger] r@[k]),
                    forall|k1: int, k2: int|
                        0 <= k1 < r@.len() && 0 <= k2 < r@.len() && k1 != k2 ==> bounds_disjoint_2d(
                            #[trigger] r@[k1],
                            #[trigger] r@[k2],
                        ),
                decreases w - x,
            {
                let sx = if w - x < tile_size {
                    w - x
                } else {
                    tile_size
                };
                let tile = Bounds2Di {
                    min: Point2i { x, y },
                    max: Point2i { x: x + sx, y: y + sy },
                };
                let ghost r0 = r@;
                r.push(tile);
                proof {
                    let n = r0.len() as int;
                    assert(r@ =~= r0.push(tile));
                    assert forall|p: Point2i|
                        #[trigger] spec_inside_exclusive_2d(
                            p,
                            Bounds2Di {
                                min: Point2i { x: 0, y: y },
                                max: Point2i { x: (x + sx) as i32, y: (y + sy) as i32 },
                            },
                        ) implies exists|k: int|
                        0 <= k < r@.len() && spec_inside_exclusive_2d(p, #[trigger] r@[k]) by {
                        if p.x < x {
                            assert(spec_inside_exclusive_2d(
                                p,
                                Bounds2Di {
                                    min: Point2i { x: 0, y: y },
                                    max: Point2i { x: x, y: (y + sy) as i32 },
                                },
                            ));
                            let k0 = choose|k0: int|
                                0 <= k0 < n && spec_inside_exclusive_2d(p, r0[k0]);
                            assert(spec_inside_exclusive_2d(p, r@[k0]));
                        } else {
                            assert(spec_inside_exclusive_2d(p, r@[n]));
                        }
                    }
                    assert forall|p: Point2i|
                        #[trigger] spec_inside_exclusive_2d(
                            p,
                            Bounds2Di { min: Point2i { x: 0, y: 0 }, max: Point2i { x: w, y: y } },
                        ) implies exists|k: int|
                        0 <= k < r@.len() && spec_inside_exclusive_2d(p, #[trigger] r@[k]) by {
                        let k0 = choose|k0: int| 0 <= k0 < n && spec_inside_exclusive_2d(p, r0[k0]);
                        assert(spec_inside_exclusive_2d(p, r@[k0]));
                    }
                }
                x = x + sx;
            }
            proof {
                assert forall|p: Point2i|
                    #[trigger] spec_inside_exclusive_2d(
                        p,
                        Bounds2Di {
                            min: Point2i { x: 0, y: 0 },
                            max: Point2i { x: w, y: (y + sy) as i32 },
                        },
                    ) implies exists|k: int|
                    0 <= k < r@.len() && spec_inside_exclusive_2d(p, #[trigger] r@[k]) by {
                    if p.y < y {
                        assert(spec_inside_exclusive_2d(
                            p,
                            Bounds2Di { min: Point2i { x: 0, y: 0 }, max: Point2i { x: w, y: y } },
                        ));
                    } else {
                        assert(spec_inside_exclusive_2d(
                            p,
                            Bounds2Di {
                                min: Point2i { x: 0, y: y },
                                max: Point2i { x: x, y: (y + sy) as i32 },
                            },
                        ));
                    }
                }
            }
            y = y + sy;
        }
        proof {
            assert forall|p: Point2i|
                #[trigger] spec_inside_exclusive_2d(p, self.spec_raster()) implies exists|k: int|
                0 <= k < r@.len() && spec_inside_exclusive_2d(p, #[trigger] r@[k]) by {
                assert(spec_inside_exclusive_2d(
                    p,
                    Bounds2Di { min: Point2i { x: 0, y: 0 }, max: Point2i { x: w, y: y } },
                ));
            }
        }
        r
    }

    /// Copy a finished tile back onto the film; pixels outside the tile's
    /// bounds keep their colour.
    pub fn merge_film_tile(&mut self, tile: FilmTile)
        requires
            old(self).wf(),
            tile.wf(),
            bounds_contains_2d(old(self).spec_raster(), tile.bounds),
        ensures
            final(self).wf(),
            final(self).full_resolution == old(self).full_resolution,
            forall|p: Point2i|
                spec_inside_exclusive_2d(p, final(self).spec_raster()) ==> final(self).spec_pixel(p)
                    == if spec_inside_exclusive_2d(p, tile.bounds) {
                    tile.spec_pixel(p)
                } else {
                    old(self).spec_pixel(p)
                },
    {
        let ghost film0 = *self;
        let mut y = tile.bounds.min.y;
        while y < tile.bounds.max.y
            invariant
                self.wf(),
                tile.wf(),
                self.full_resolution == film0.full_resolution,
                film0.wf(),
                bounds_contains_2d(film0.spec_raster(), tile.bounds),
                tile.bounds.min.y <= y <= tile.bounds.max.y,
                forall|p: Point2i|
                    spec_inside_exclusive_2d(p, self.spec_raster()) ==> self.spec_pixel(p)
                        == if spec_inside_exclusive_2d(p, tile.bounds) && p.y < y {
                        tile.spec_pixel(p)
                    } else {
                        film0.spec_pixel(p)
                    },
            decreases tile.bounds.max.y - y,
        {
            let mut x = tile.bounds.min.x;
            while x < tile.bounds.max.x
                invariant
                    self.wf(),
                    tile.wf(),
                    self.full_resolution == film0.full_resolution,
                    film0.wf(),
                    bounds_contains_2d(film0.spec_raster(), tile.bounds),
                    tile.bounds.min.y <= y < tile.bounds.max.y,
                    tile.bounds.min.x <= x <= tile.bounds.max.x,
                    forall|p: Point2i|
                        spec_inside_exclusive_2d(p, self.spec_raster()) ==> self.spec_pixel(p)
                            == if spec_inside_exclusive_2d(p, tile.bounds) && (p.y < y || (p.y == y
                            && p.x < x)) {
                            tile.spec_pixel(p)
                        } else {
                            film0.spec_pixel(p)
                        },
                decreases tile.bounds.max.x - x,
            {
                let p = Point2i { x, y };
                let value = tile.pixel(p);
                self.set_raster_pixel(p, value);
                x = x + 1;
            }
            y = y + 1;
        }
    }

    /// Store `value` at raster position `p`.
    fn set_raster_pixel(&mut self, p: Point2i, value: (u8, u8, u8))
        requires
            old(self).wf(),
            spec_inside_exclusive_2d(p, old(self).spec_raster()),
        ensures
            final(self).wf(),
            final(self).full_resolution == old(self).full_resolution,
            final(self).spec_pixel(p) == value,
            forall|q: Point2i|
                spec_inside_exclusive_2d(q, old(self).spec_raster()) && q != p
                    ==> final(self).spec_pixel(q) == old(self).spec_pixel(q),
    {
        let w = self.full_resolution.x as usize;
        let x = p.x as usize;
        let y = p.y as usize;
        proof {
            vstd::std_specs::vec::axiom_spec_len(&self.pixels);
            lemma_row_major_in_range(
                x as int,
                y as int,
                self.full_resolution.x as int,
                self.full_resolution.y as int,
            );
            assert(self.full_resolution.y * self.full_resolution.x == self.full_resolution.x
                * self.full_resolution.y) by (nonlinear_arith);
        }
        let idx = y * w + x;
        self.pixels.set(idx, value);
        proof {
            assert forall|q: Point2i|
                spec_inside_exclusive_2d(q, old(self).spec_raster()) && q != p implies self
                .spec_pixel(q) == old(self).spec_pixel(q) by {
                lemma_row_major_in_range(
                    q.x as int,
                    q.y as int,
                    self.full_resolution.x as int,
                    self.full_resolution.y as int,
                );
                if row_major_index(q, self.full_resolution.x as int) == idx {
                    lemma_row_major_injective(
                        q.x as int,
                        q.y as int,
                        p.x as int,
                        p.y as int,
                        self.full_resolution.x as int,
                    );
                }
            }
        }
    }

    /// Read back the stored colour at raster position `p`.
    pub fn pixel(&self, p: Point2i) -> (r: (u8, u8, u8))
        requires
            self.wf(),
            spec_inside_exclusive_2d(p, self.spec_raster()),
        ensures
            r == self.spec_pixel(p),
    {
        let w = self.full_resolution.x as usize;
        let x = p.x as usize;
        let y = p.y as usize;
        proof {
            vstd::std_specs::vec::axiom_spec_len(&self.pixels);
            lemma_row_major_in_range(
                x as int,
                y as int,
                self.full_resolution.x as int,
                self.full_resolution.y as int,
            );
            assert(self.full_resolution.y * self.full_resolution.x == self.full_resolution.x
                * self.full_resolution.y) by (nonlinear_arith);
        }
        self.pixels[y * w + x]
    }

    /// The film's contents as one row-major byte stream, three bytes per
    /// pixel in (r, g, b) order — the form an image encoder takes.
    pub fn write_image(&self) -> (r: Vec<u8>)
        requires
            self.wf(),
        ensures
            r@.len() == 3 * self.pixels@.len(),
            forall|j: int|
                0 <= j < self.pixels@.len() ==> {
                    &&& r@[3 * j] == self.pixels@[j].0
                    &&& r@[3 * j + 1] == self.pixels@[j].1
                    &&& r@[3 * j + 2] == self.pixels@[j].2
                },
    {
        let mut out: Vec<u8> = Vec::new();
        let mut i: usize = 0;
        let n = self.pixels.len();
        while i < n
            invariant
                i <= n,
                n == self.pixels@.len(),
                out@.len() == 3 * i,
                forall|j: int|
                    0 <= j < i ==> {
                        &&& out@[3 * j] == self.pixels@[j].0
                        &&& out@[3 * j + 1] == self.pixels@[j].1
                        &&& out@[3 * j + 2] == self.pixels@[j].2
                    },
            decreases n - i,
        {
            let (pr, pg, pb) = self.pixels[i];
            out.push(pr);
            out.push(pg);
            out.push(pb);
            i = i + 1;
        }
        out
    }
}

} // verus!
