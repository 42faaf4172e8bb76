use crate::launchpad::RgbColor;
use vstd::prelude::*;

verus! {

/// Number of entries in the palette table.
pub const PALETTE_LEN: usize = 18;

/// The palette table: each entry is a device palette index and the color it shows.
///
/// The order of the table decides between equally near entries: the earlier one wins.
pub open spec fn palette_entry(k: int) -> (u8, RgbColor) {
    let (id, r, g, b) = if k == 0 {
        (0u8, 0u8, 0u8, 0u8)
    } else if k == 1 {
        (1, 30, 30, 30)
    } else if k == 2 {
        (2, 127, 127, 127)
    } else if k == 3 {
        (3, 255, 255, 255)
    } else if k == 4 {
        (4, 255, 76, 76)
    } else if k == 5 {
        (5, 255, 0, 0)
    } else if k == 6 {
        (9, 255, 84, 0)
    } else if k == 7 {
        (13, 255, 255, 0)
    } else if k == 8 {
        (17, 136, 255, 0)
    } else if k == 9 {
        (21, 0, 255, 0)
    } else if k == 10 {
        (29, 0, 255, 85)
    } else if k == 11 {
        (37, 0, 169, 255)
    } else if k == 12 {
        (45, 0, 0, 255)
    } else if k == 13 {
        (49, 135, 0, 255)
    } else if k == 14 {
        (53, 255, 0, 255)
    } else if k == 15 {
        (57, 255, 0, 84)
    } else if k == 16 {
        (61, 127, 76, 0)
    } else {
        (90, 0, 255, 255)
    };
    (id, RgbColor { r, g, b })
}

fn palette_table_entry(k: usize) -> (e: (u8, RgbColor))
    requires
        k < PALETTE_LEN,
    ensures
        e == palette_entry(k as int),
{
    let (id, r, g, b) = match k {
        0 => (0u8, 0u8, 0u8, 0u8),
        1 => (1, 30, 30, 30),
        2 => (2, 127, 127, 127),
        3 => (3, 255, 255, 255),
        4 => (4, 255, 76, 76),
        5 => (5, 255, 0, 0),
        6 => (9, 255, 84, 0),
        7 => (13, 255, 255, 0),
        8 => (17, 136, 255, 0),
        9 => (21, 0, 255, 0),
        10 => (29, 0, 255, 85),
        11 => (37, 0, 169, 255),
        12 => (45, 0, 0, 255),
        13 => (49, 135, 0, 255),
        14 => (53, 255, 0, 255),
        15 => (57, 255, 0, 84),
        16 => (61, 127, 76, 0),
        _ => (90, 0, 255, 255),
    };
    (id, RgbColor { r, g, b })
}

/// Squared Euclidean distance between two colors in RGB space.
pub open spec fn color_distance(a: RgbColor, b: RgbColor) -> int {
    (a.r - b.r) * (a.r - b.r) + (a.g - b.g) * (a.g - b.g) + (a.b - b.b) * (a.b - b.b)
}

/// Entry `k` is the nearest entry to `c`, and strictly nearer than every earlier entry.
pub open spec fn first_nearest(c: RgbColor, k: int) -> bool {
    &&& 0 <= k < PALETTE_LEN
    &&& forall|j: int|
        0 <= j < PALETTE_LEN ==> color_distance(c, palette_entry(k).1) <= color_distance(
            c,
            #[trigger] palette_entry(j).1,
        )
    &&& forall|j: int|
        0 <= j < k ==> color_distance(c, palette_entry(k).1) < color_distance(
            c,
            #[trigger] palette_entry(j).1,
        )
}

/// The palette index that a color is shown as.
pub open spec fn quantized(c: RgbColor) -> u8 {
    palette_entry(choose|k: int| first_nearest(c, k)).0
}

proof fn lemma_first_nearest_unique(c: RgbColor, k1: int, k2: int)
    requires
        first_nearest(c, k1),
        first_nearest(c, k2),
    ensures
        k1 == k2,
{
    if k1 < k2 {
        assert(color_distance(c, palette_entry(k2).1) < color_distance(c, palette_entry(k1).1));
    } else if k2 < k1 {
        assert(color_distance(c, palette_entry(k1).1) < color_distance(c, palette_entry(k2).1));
    }
}

/// The first entry of the table is the one `quantized` picks whenever it is the first nearest.
proof fn lemma_quantized_of_first_nearest(c: RgbColor, k: int)
    requires
        first_nearest(c, k),
    ensures
        quantized(c) == palette_entry(k).0,
{
    let k2 = choose|k: int| first_nearest(c, k);
    lemma_first_nearest_unique(c, k, k2);
}

fn distance(a: &RgbColor, b: &RgbColor) -> (d: u32)
    ensures
        d == color_distance(*a, *b),
{
    let dr: i32 = a.r as i32 - b.r as i32;
    let dg: i32 = a.g as i32 - b.g as i32;
    let db: i32 = a.b as i32 - b.b as i32;
    assert(0 <= dr * dr <= 65025 && 0 <= dg * dg <= 65025 && 0 <= db * db <= 65025)
        by (nonlinear_arith)
        requires
            -255 <= dr <= 255,
            -255 <= dg <= 255,
            -255 <= db <= 255,
    ;
    (dr * dr + dg * dg + db * db) as u32
}

/// Maps a color to the nearest entry of the device palette, by squared Euclidean distance;
/// among equally near entries the earliest in the table wins.
pub fn rgb_to_palette(color: RgbColor) -> (index: u8)
    ensures
        index == quantized(color),
{
    let mut best: usize = 0;
    let mut best_dist: u32 = distance(&color, &palette_table_entry(0).1);
    let mut k: usize = 1;
    while k < PALETTE_LEN
        invariant
            1 <= k <= PALETTE_LEN,
            best < k,
            best_dist == color_distance(color, palette_entry(best as int).1),
            forall|j: int| 0 <= j < k ==> best_dist <= color_distance(color, #[trigger] palette_entry(j).1),
            forall|j: int| 0 <= j < best ==> best_dist < color_distance(color, #[trigger] palette_entry(j).1),
        decreases PALETTE_LEN - k,
    {
        let d = distance(&color, &palette_table_entry(k).1);
        if d < best_dist {
            best = k;
            best_dist = d;
        }
        k += 1;
    }
    proof {
        lemma_quantized_of_first_nearest(color, best as int);
    }
    palette_table_entry(best).0
}

/// The palette entries show pairwise different colors.
proof fn lemma_palette_colors_distinct()
    ensures
        forall|j: int, k: int|
            0 <= j < k < PALETTE_LEN ==> #[trigger] palette_entry(j).1 != #[trigger] palette_entry(
                k,
            ).1,
{
}

/// Quantizing the color that a palette entry shows gives back that entry's index.
pub proof fn lemma_quantize_idempotent(k: int)
    requires
        0 <= k < PALETTE_LEN,
    ensures
        quantized(palette_entry(k).1) == palette_entry(k).0,
{
    let c = palette_entry(k).1;
    lemma_palette_colors_distinct();
    assert forall|j: int| 0 <= j < k implies color_distance(c, c) < color_distance(
        c,
        #[trigger] palette_entry(j).1,
    ) by {
        let e = palette_entry(j).1;
        assert(e != c);
        assert(color_distance(c, e) > 0) by (nonlinear_arith)
            requires
                e != c,
                e.r != c.r || e.g != c.g || e.b != c.b,
        ;
    }
    assert forall|j: int| 0 <= j < PALETTE_LEN implies color_distance(c, c) <= color_distance(
        c,
        #[trigger] palette_entry(j).1,
    ) by {
        let e = palette_entry(j).1;
        assert(color_distance(c, e) >= 0) by (nonlinear_arith);
    }
    lemma_quantized_of_first_nearest(c, k);
}

} // verus!
