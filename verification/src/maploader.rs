use vstd::prelude::*;

use crate::gridmap::{Tilemap, MAX_DIM};
use crate::tiles::{TileKind, TilePos};

verus! {

/// What decoding a byte string as a PNG yields: the image's width, height and
/// row-major RGB bytes, or nothing for a malformed file. A pure function of
/// the bytes alone.
pub uninterp spec fn png_rgb(bytes: Seq<u8>) -> Option<(nat, nat, Seq<u8>)>;

/// Relies on image::load_from_memory_with_format with the PNG format and
/// image::DynamicImage::to_rgb8: the decoded image, three bytes per pixel in
/// row-major order, top row first; decoding is deterministic in the bytes.
#[verifier::external_body]
fn decode_png_rgb(bytes: &Vec<u8>) -> (r: Option<(usize, usize, Vec<u8>)>)
    ensures
        r matches Some(t) ==> png_rgb(bytes@) == Some((t.0 as nat, t.1 as nat, t.2@)) && t.2@.len()
            == 3 * t.0 * t.1,
        r is None ==> png_rgb(bytes@) is None,
{
    let img = match image::load_from_memory_with_format(bytes, image::ImageFormat::Png) {
        Ok(i) => i,
        Err(_) => {
            return None;
        },
    };
    let rgb = img.to_rgb8();
    let w = rgb.width() as usize;
    let h = rgb.height() as usize;
    Some((w, h, rgb.into_raw()))
}

/// The tile the decoded pixels give to the map cell at column `x`, row `y`.
/// Terrain maps are stored bottom-up: map row `y` reads image row
/// `h - 1 - y`. A pixel outside the colour key leaves the cell empty.
pub open spec fn spec_map_kind(rgb: Seq<u8>, w: int, h: int, x: int, y: int) -> TileKind {
    let iy = h - 1 - y;
    let o = 3 * (iy * w + x);
    match TileKind::spec_from_color(rgb[o], rgb[o + 1], rgb[o + 2]) {
        Some(k) => k,
        None => TileKind::Empty,
    }
}

/// A pixel's byte offset stays inside the pixel buffer.
proof fn lemma_pixel_offset(w: int, h: int, x: int, y: int)
    by (nonlinear_arith)
    requires
        0 <= x < w,
        0 <= y < h,
        w <= MAX_DIM,
        h <= MAX_DIM,
    ensures
        0 <= 3 * (y * w + x),
        3 * (y * w + x) + 2 < 3 * w * h,
        3 * (y * w + x) + 2 < 0x4000000,
{
}

/// Build a terrain map from decoded pixels: `rgb` holds three bytes per
/// pixel, row-major, top row first, and the map is read bottom-up. Refused
/// when the size is degenerate, oversized, or does not match the byte count.
pub fn from_pixels(width: usize, height: usize, rgb: &Vec<u8>) -> (r: Option<Tilemap>)
    ensures
        r is Some <==> (1 <= width <= MAX_DIM && 1 <= height <= MAX_DIM && rgb@.len() == 3 * width
            * height),
        r matches Some(m) ==> {
            &&& m.wf()
            &&& m.spec_rows() == height
            &&& m.spec_cols() == width
            &&& forall|x: int, y: int|
                m.spec_in_bounds(x, y) ==> #[trigger] m.tile_at(x, y) == spec_map_kind(
                    rgb@,
                    width as int,
                    height as int,
                    x,
                    y,
                )
        },
{
    if width < 1 || width > MAX_DIM || height < 1 || height > MAX_DIM {
        return None;
    }
    proof {
        lemma_pixel_offset(width as int, height as int, 0, 0);
        assert(3 * ((height - 1) * width + (width - 1)) + 2 == 3 * width * height - 1)
            by (nonlinear_arith)
            requires
                1 <= width,
                1 <= height,
        ;
        assert(3 * width * height < 0x8000000) by (nonlinear_arith)
            requires
                1 <= width <= MAX_DIM,
                1 <= height <= MAX_DIM,
        ;
    }
    proof {
        assert(width * height < 0x1000001) by (nonlinear_arith)
            requires
                1 <= width <= MAX_DIM,
                1 <= height <= MAX_DIM,
        ;
    }
    let expected = 3 * (width * height);
    if rgb.len() != expected {
        proof {
            assert(3 * (width * height) == 3 * width * height) by (nonlinear_arith);
        }
        return None;
    }
    proof {
        assert(3 * (width * height) == 3 * width * height) by (nonlinear_arith);
    }
    let mut m = Tilemap::new(height, width);
    let mut my: usize = 0;
    while my < height
        invariant
            m.wf(),
            m.spec_rows() == height,
            m.spec_cols() == width,
            1 <= width <= MAX_DIM,
            1 <= height <= MAX_DIM,
            rgb@.len() == 3 * width * height,
            my <= height,
            forall|x: int, y: int|
                0 <= x < width && 0 <= y < my ==> #[trigger] m.tile_at(x, y) == spec_map_kind(
                    rgb@,
                    width as int,
                    height as int,
                    x,
                    y,
                ),
        decreases height - my,
    {
        let iy = height - 1 - my;
        let mut x: usize = 0;
        while x < width
            invariant
                m.wf(),
                m.spec_rows() == height,
                m.spec_cols() == width,
                1 <= width <= MAX_DIM,
                1 <= height <= MAX_DIM,
                rgb@.len() == 3 * width * height,
                my < height,
                iy == height - 1 - my,
                x <= width,
                forall|xx: int, y: int|
                    0 <= xx < width && 0 <= y < my ==> #[trigger] m.tile_at(xx, y) == spec_map_kind(
                        rgb@,
                        width as int,
                        height as int,
                        xx,
                        y,
                    ),
                forall|xx: int|
                    0 <= xx < x ==> #[trigger] m.tile_at(xx, my as int) == spec_map_kind(
                        rgb@,
                        width as int,
                        height as int,
                        xx,
                        my as int,
                    ),
            decreases width - x,
        {
            proof {
                lemma_pixel_offset(width as int, height as int, x as int, iy as int);
            }
            let o = 3 * (iy * width + x);
            let kind = match TileKind::try_from_rgb(rgb[o], rgb[o + 1], rgb[o + 2]) {
                Some(k) => k,
                None => TileKind::Empty,
            };
            let ghost m_prev = m;
            m.set(TilePos { x, y: my }, kind);
            proof {
                assert(m.tile_at(x as int, my as int) == kind);
                assert(kind == spec_map_kind(rgb@, width as int, height as int, x as int, my as int));
                assert forall|xx: int, y: int| 0 <= xx < width && 0 <= y < my implies #[trigger] m.tile_at(
                    xx,
                    y,
                ) == spec_map_kind(rgb@, width as int, height as int, xx, y) by {
                    assert(m_prev.tile_at(xx, y) == spec_map_kind(
                        rgb@,
                        width as int,
                        height as int,
                        xx,
                        y,
                    ));
                    assert(m.tile_at(xx, y) == m_prev.tile_at(xx, y));
                }
                assert forall|xx: int| 0 <= xx < x + 1 implies #[trigger] m.tile_at(xx, my as int)
                    == spec_map_kind(rgb@, width as int, height as int, xx, my as int) by {
                    if xx < x {
                        assert(m_prev.tile_at(xx, my as int) == spec_map_kind(
                            rgb@,
                            width as int,
                            height as int,
                            xx,
                            my as int,
                        ));
                        assert(m.tile_at(xx, my as int) == m_prev.tile_at(xx, my as int));
                    }
                }
            }
            x = x + 1;
        }
        my = my + 1;
    }
    Some(m)
}

/// Decode a PNG terrain map and build the grid from its pixels. Some map
/// comes back exactly when the bytes decode and the image's size is usable.
pub fn parse_map(bytes: &Vec<u8>) -> (r: Option<Tilemap>)
    ensures
        r is Some <==> (png_rgb(bytes@) matches Some(t) && 1 <= t.0 <= MAX_DIM && 1 <= t.1
            <= MAX_DIM),
        r matches Some(m) ==> (png_rgb(bytes@) matches Some(t) && {
            &&& m.wf()
            &&& m.spec_rows() == t.1
            &&& m.spec_cols() == t.0
            &&& forall|x: int, y: int|
                m.spec_in_bounds(x, y) ==> #[trigger] m.tile_at(x, y) == spec_map_kind(
                    t.2,
                    t.0 as int,
                    t.1 as int,
                    x,
                    y,
                )
        }),
{
    match decode_png_rgb(bytes) {
        Some(decoded) => {
            let (w, h, pix) = decoded;
            from_pixels(w, h, &pix)
        },
        None => None,
    }
}

/// The spawner record one cell contributes.
pub open spec fn spawn_entry(m: Tilemap, x: int, y: int) -> Seq<TilePos> {
    if m.tile_at(x, y) is Spawn {
        seq![TilePos { x: x as usize, y: y as usize }]
    } else {
        Seq::empty()
    }
}

/// The spawn tiles among the first `k` cells in column-major order (columns
/// left to right, each bottom to top), the order spawner indices are assigned
/// in.
pub open spec fn spec_spawners_prefix(m: Tilemap, k: int) -> Seq<TilePos>
    decreases k,
{
    if k <= 0 {
        Seq::empty()
    } else {
        spec_spawners_prefix(m, k - 1) + spawn_entry(
            m,
            (k - 1) / m.spec_rows() as int,
            (k - 1) % m.spec_rows() as int,
        )
    }
}

/// Every spawn tile of the map, in the fixed column-major order that wave
/// configurations index spawners by.
pub fn spawner_positions(m: &Tilemap) -> (r: Vec<TilePos>)
    requires
        m.wf(),
    ensures
        r@ == spec_spawners_prefix(*m, (m.spec_rows() * m.spec_cols()) as int),
        forall|i: int|
            0 <= i < r@.len() ==> m.spec_in_bounds(
                (#[trigger] r@[i]).x as int,
                r@[i].y as int,
            ) && m.tile_at(r@[i].x as int, r@[i].y as int) is Spawn,
{
    let rows = m.rows();
    let cols = m.cols();
    let mut r: Vec<TilePos> = Vec::new();
    let ghost mut k: int = 0;
    let mut x: usize = 0;
    while x < cols
        invariant
            m.wf(),
            rows == m.spec_rows(),
            cols == m.spec_cols(),
            x <= cols,
            k == x * rows,
            r@ == spec_spawners_prefix(*m, k),
            forall|i: int|
                0 <= i < r@.len() ==> m.spec_in_bounds(
                    (#[trigger] r@[i]).x as int,
                    r@[i].y as int,
                ) && m.tile_at(r@[i].x as int, r@[i].y as int) is Spawn,
        decreases cols - x,
    {
        let mut y: usize = 0;
        while y < rows
            invariant
                m.wf(),
                rows == m.spec_rows(),
                cols == m.spec_cols(),
                x < cols,
                y <= rows,
                k == x * rows + y,
                r@ == spec_spawners_prefix(*m, k),
                forall|i: int|
                    0 <= i < r@.len() ==> m.spec_in_bounds(
                        (#[trigger] r@[i]).x as int,
                        r@[i].y as int,
                    ) && m.tile_at(r@[i].x as int, r@[i].y as int) is Spawn,
            decreases rows - y,
        {
            proof {
                assert((x * rows + y) / rows as int == x && (x * rows + y) % rows as int == y)
                    by (nonlinear_arith)
                    requires
                        0 <= y < rows,
                        0 <= x,
                ;
            }
            let is_spawn = match m.get(TilePos { x, y }) {
                Some(TileKind::Spawn) => true,
                _ => false,
            };
            if is_spawn {
                r.push(TilePos { x, y });
                proof {
                    assert(r@ =~= spec_spawners_prefix(*m, k) + spawn_entry(
                        *m,
                        x as int,
                        y as int,
                    ));
                }
            } else {
                proof {
                    assert(r@ =~= spec_spawners_prefix(*m, k) + spawn_entry(
                        *m,
                        x as int,
                        y as int,
                    ));
                }
            }
            proof {
                k = k + 1;
            }
            y = y + 1;
        }
        proof {
            assert(x * rows + rows == (x + 1) * rows) by (nonlinear_arith);
        }
        x = x + 1;
    }
    proof {
        assert(k == cols * rows) by (nonlinear_arith)
            requires
                k == cols * rows,
        ;
        assert(m.spec_rows() * m.spec_cols() == cols * rows) by (nonlinear_arith)
            requires
                rows == m.spec_rows(),
                cols == m.spec_cols(),
        ;
    }
    r
}

} // verus!
