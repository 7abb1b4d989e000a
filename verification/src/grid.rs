use crate::cells::{
    in_grid, lemma_within_grid_finite, neighbors, rect, scan_order, shape_in, shape_of,
    texture_of, window,
};
use vstd::prelude::*;

verus! {

/// A 128 x 128 grid of booleans, one `u128` mask per column: bit `y` of
/// column `x` is the cell `(x, y)`.
///
/// Its view is the set of the coordinates whose cell is set.
pub struct BitGrid {
    cols: Vec<u128>,
}

impl View for BitGrid {
    type V = Set<(int, int)>;

    closed spec fn view(&self) -> Set<(int, int)> {
        Set::new(
            |p: (int, int)|
                in_grid(p.0, p.1) && p.0 < self.cols@.len() && bit(self.cols@[p.0], p.1),
        )
    }
}

impl BitGrid {
    #[verifier::type_invariant]
    spec fn well_formed(&self) -> bool {
        self.cols@.len() == 128
    }

    /// The grid with no cell set.
    pub fn empty() -> (g: BitGrid)
        ensures
            g@ == Set::<(int, int)>::empty(),
    {
        let cols: Vec<u128> = vec![0u128; 128];
        let g = BitGrid { cols };
        proof {
            assert forall|p: (int, int)| !g@.contains(p) by {
                if in_grid(p.0, p.1) {
                    lemma_bit_of_zero(p.1 as u128);
                }
            }
            assert(g@ =~= Set::<(int, int)>::empty());
        }
        g
    }

    /// The cell `(x, y)`.
    pub fn get(&self, x: u32, y: u32) -> (b: bool)
        requires
            x < 128,
            y < 128,
        ensures
            b == self@.contains((x as int, y as int)),
    {
        proof {
            use_type_invariant(self);
            lemma_bit_test(self.cols@[x as int], y as u128);
        }
        self.cols[x as usize] & (1u128 << y) > 0
    }

    /// The cell `(x, y)`, where every coordinate outside the grid names an
    /// unset cell.
    pub fn get_checked(&self, x: i32, y: i32) -> (b: bool)
        ensures
            b == self@.contains((x as int, y as int)),
            !in_grid(x as int, y as int) ==> !b,
    {
        if x < 0 || y < 0 || x >= 128 || y >= 128 {
            false
        } else {
            self.get(x as u32, y as u32)
        }
    }

    /// Counts the set cells of a rectangle that lies within the grid.
    fn count_rect(&self, lo_x: u32, hi_x: u32, lo_y: u32, hi_y: u32) -> (n: u32)
        requires
            lo_x <= hi_x < 128,
            lo_y <= hi_y < 128,
        ensures
            n == self@.intersect(rect(lo_x as int, hi_x as int, lo_y as int, hi_y as int)).len(),
            n <= (hi_x - lo_x + 1) * 128,
    {
        let ghost t = self@.intersect(rect(lo_x as int, hi_x as int, lo_y as int, hi_y as int));
        assert(scanned(t, lo_x * 128 + lo_y) =~= Set::<(int, int)>::empty());
        let mut n: u32 = 0;
        let mut i: u32 = lo_x;
        while i <= hi_x
            invariant
                lo_x <= i <= hi_x + 1,
                lo_x <= hi_x < 128,
                lo_y <= hi_y < 128,
                t == self@.intersect(rect(lo_x as int, hi_x as int, lo_y as int, hi_y as int)),
                scanned(t, i * 128 + lo_y).finite(),
                n == scanned(t, i * 128 + lo_y).len(),
                n <= (i - lo_x) * 128,
            decreases hi_x + 1 - i,
        {
            let mut j: u32 = lo_y;
            while j <= hi_y
                invariant
                    lo_x <= i <= hi_x < 128,
                    lo_y <= j <= hi_y + 1,
                    lo_y <= hi_y < 128,
                    t == self@.intersect(
                        rect(lo_x as int, hi_x as int, lo_y as int, hi_y as int),
                    ),
                    scanned(t, i * 128 + j).finite(),
                    n == scanned(t, i * 128 + j).len(),
                    n <= (i - lo_x) * 128 + (j - lo_y),
                decreases hi_y + 1 - j,
            {
                proof {
                    lemma_scan_step(t, i as int, j as int);
                }
                if self.get(i, j) {
                    n = n + 1;
                }
                j = j + 1;
            }
            assert(scanned(t, i * 128 + hi_y + 1) =~= scanned(t, (i + 1) * 128 + lo_y));
            i = i + 1;
        }
        assert(scanned(t, (hi_x + 1) * 128 + lo_y) =~= t);
        n
    }

    /// The number of set cells.
    pub fn total(&self) -> (n: u32)
        ensures
            n == self@.len(),
            n <= 16384,
    {
        let n: u32 = self.count_rect(0, 127, 0, 127);
        assert(self@.intersect(rect(0, 127, 0, 127)) =~= self@);
        n
    }

    /// The number of set cells in the square window of radius `size` around
    /// `(x, y)`, the centre included. Whatever of the window lies outside the
    /// grid counts as unset, and a negative radius gives an empty window.
    pub fn get_surrounding(&self, x: u32, y: u32, size: i32) -> (n: u32)
        ensures
            n == neighbors(self@, x as int, y as int, size as int),
    {
        let r: i64 = size as i64;
        let lo_x: i64 = if x as i64 - r < 0 { 0 } else { x as i64 - r };
        let hi_x: i64 = if x as i64 + r > 127 { 127 } else { x as i64 + r };
        let lo_y: i64 = if y as i64 - r < 0 { 0 } else { y as i64 - r };
        let hi_y: i64 = if y as i64 + r > 127 { 127 } else { y as i64 + r };
        if lo_x > hi_x || lo_y > hi_y {
            assert(self@.intersect(window(x as int, y as int, size as int)) =~= Set::<
                (int, int),
            >::empty());
            return 0;
        }
        let n: u32 = self.count_rect(lo_x as u32, hi_x as u32, lo_y as u32, hi_y as u32);
        assert(self@.intersect(window(x as int, y as int, size as int)) =~= self@.intersect(
            rect(lo_x as int, hi_x as int, lo_y as int, hi_y as int),
        ));
        n
    }

    /// The shape coordinates of the set cells in scan order, or `None` where
    /// no cell is set.
    pub fn shape_coordinates(&self) -> (shape: Option<Vec<(i32, i32)>>)
        ensures
            shape is None <==> self@ == Set::<(int, int)>::empty(),
            shape matches Some(v) ==> v@ == shape_of(self@) && v@.len() == self@.len(),
    {
        let mut coordinates: Vec<(i32, i32)> = Vec::new();
        assert(scanned(self@, 0) =~= Set::<(int, int)>::empty());
        let mut x: u32 = 0;
        while x < 128
            invariant
                x <= 128,
                coordinates@ == scan_order().take(x * 128).filter_map(shape_in(self@)),
                scanned(self@, x * 128).finite(),
                coordinates@.len() == scanned(self@, x * 128).len(),
            decreases 128 - x,
        {
            let mut y: u32 = 0;
            while y < 128
                invariant
                    x < 128,
                    y <= 128,
                    coordinates@ == scan_order().take(x * 128 + y).filter_map(
                        shape_in(self@),
                    ),
                    scanned(self@, x * 128 + y).finite(),
                    coordinates@.len() == scanned(self@, x * 128 + y).len(),
                decreases 128 - y,
            {
                proof {
                    lemma_scan_step(self@, x as int, y as int);
                    scan_order().lemma_filter_map_take_succ(shape_in(self@), x * 128 + y);
                }
                if self.get(x, y) {
                    coordinates.push((x as i32 - 64, 63 - y as i32));
                }
                y = y + 1;
            }
            x = x + 1;
        }
        proof {
            assert(scan_order().take(16384) =~= scan_order());
            assert(scanned(self@, 16384) =~= self@);
            if coordinates@.len() == 0 {
                self@.lemma_len0_is_empty();
            }
        }
        if coordinates.len() == 0 {
            None
        } else {
            Some(coordinates)
        }
    }

    /// The bytes of the single-channel texture of the grid: four per cell,
    /// in scan order.
    pub fn texture_bytes(&self) -> (bytes: Vec<u8>)
        ensures
            bytes@ == texture_of(self@),
    {
        let mut bytes: Vec<u8> = Vec::new();
        let mut x: u32 = 0;
        while x < 128
            invariant
                x <= 128,
                bytes@.len() == 4 * (x * 128),
                forall|i: int| 0 <= i < bytes@.len() ==> bytes@[i] == texture_of(self@)[i],
            decreases 128 - x,
        {
            let mut y: u32 = 0;
            while y < 128
                invariant
                    x < 128,
                    y <= 128,
                    bytes@.len() == 4 * (x * 128 + y),
                    forall|i: int| 0 <= i < bytes@.len() ==> bytes@[i] == texture_of(self@)[i],
                decreases 128 - y,
            {
                let set: bool = self.get(x, y);
                bytes.push(0);
                bytes.push(0);
                bytes.push(if set { 0x80 } else { 0 });
                bytes.push(if set { 0x3f } else { 0 });
                y = y + 1;
            }
            x = x + 1;
        }
        assert(bytes@ =~= texture_of(self@));
        bytes
    }

    /// The view holds cells of the grid only, so it is finite.
    pub proof fn lemma_view_within_grid(&self)
        ensures
            forall|p: (int, int)| self@.contains(p) ==> in_grid(p.0, p.1),
            self@.finite(),
            self@.len() <= 16384,
    {
        lemma_within_grid_finite(self@);
    }

    /// Overwrites the cell `(x, y)` with `v`.
    pub fn set(&mut self, x: u32, y: u32, v: bool)
        requires
            x < 128,
            y < 128,
        ensures
            final(self)@ == if v {
                old(self)@.insert((x as int, y as int))
            } else {
                old(self)@.remove((x as int, y as int))
            },
    {
        proof {
            use_type_invariant(&*self);
        }
        let col: u128 = self.cols[x as usize];
        let mask: u128 = 1u128 << y;
        let new: u128 = if v {
            col | mask
        } else {
            col & !mask
        };
        self.cols[x as usize] = new;
        proof {
            let after = if v {
                old(self)@.insert((x as int, y as int))
            } else {
                old(self)@.remove((x as int, y as int))
            };
            assert forall|p: (int, int)| self@.contains(p) == after.contains(p) by {
                if in_grid(p.0, p.1) && p.0 == x {
                    lemma_bit_raise(col, y as u128, p.1 as u128);
                    lemma_bit_clear(col, y as u128, p.1 as u128);
                }
            }
            assert(self@ =~= after);
        }
    }
}

impl Clone for BitGrid {
    fn clone(&self) -> (g: Self)
        ensures
            g@ == self@,
    {
        proof {
            use_type_invariant(self);
        }
        let cols: Vec<u128> = self.cols.clone();
        assert(cols@ =~= self.cols@);
        BitGrid { cols }
    }
}

/// Whether bit `y` of the column mask `col` is set.
spec fn bit(col: u128, y: int) -> bool {
    0 <= y < 128 && (col >> (y as u128)) & 1 == 1
}

proof fn lemma_bit_of_zero(z: u128)
    by (bit_vector)
    requires
        z < 128,
    ensures
        (0u128 >> z) & 1 == 0,
{
}

proof fn lemma_bit_test(col: u128, y: u128)
    by (bit_vector)
    requires
        y < 128,
    ensures
        (col & (1u128 << y) > 0) == ((col >> y) & 1 == 1),
{
}

proof fn lemma_bit_raise(col: u128, y: u128, z: u128)
    by (bit_vector)
    requires
        y < 128,
        z < 128,
    ensures
        (((col | (1u128 << y)) >> z) & 1 == 1) == (z == y || (col >> z) & 1 == 1),
{
}

proof fn lemma_bit_clear(col: u128, y: u128, z: u128)
    by (bit_vector)
    requires
        y < 128,
        z < 128,
    ensures
        (((col & !(1u128 << y)) >> z) & 1 == 1) == (z != y && (col >> z) & 1 == 1),
{
}

/// The cells of `s` that a scan by columns, each from top to bottom, reaches
/// before position `n`.
spec fn scanned(s: Set<(int, int)>, n: int) -> Set<(int, int)> {
    Set::new(|p: (int, int)| s.contains(p) && p.0 * 128 + p.1 < n)
}

proof fn lemma_scan_step(s: Set<(int, int)>, x: int, y: int)
    requires
        in_grid(x, y),
        forall|p: (int, int)| s.contains(p) ==> in_grid(p.0, p.1),
        scanned(s, x * 128 + y).finite(),
    ensures
        scanned(s, x * 128 + y + 1).finite(),
        scanned(s, x * 128 + y + 1).len() == scanned(s, x * 128 + y).len() + if s.contains(
            (x, y),
        ) {
            1int
        } else {
            0int
        },
{
    let before = scanned(s, x * 128 + y);
    let after = scanned(s, x * 128 + y + 1);
    if s.contains((x, y)) {
        assert(after =~= before.insert((x, y)));
    } else {
        assert(after =~= before);
    }
}

} // verus!
