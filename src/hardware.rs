//! The machine's peripherals: the pixel framebuffer and the key pad.
use vstd::prelude::*;

verus! {

/// Number of cells the framebuffer holds, enough for the largest resolution.
pub const SCREEN_CELLS: usize = 8192;

/// Logical size `(rows, columns)` of the framebuffer in each display mode.
pub open spec fn dims(high_res: bool) -> (u8, u8) {
    if high_res {
        (64u8, 128u8)
    } else {
        (32u8, 64u8)
    }
}

/// A grid of `rows` rows of `columns` cleared pixels.
pub open spec fn blank(rows: nat, columns: nat) -> Seq<Seq<bool>> {
    Seq::new(rows, |y: int| Seq::new(columns, |x: int| false))
}

/// The grid moved `dx` columns right and `dy` rows down; pixels moved in
/// from outside are off.
pub open spec fn shifted(g: Seq<Seq<bool>>, dx: int, dy: int) -> Seq<Seq<bool>> {
    Seq::new(
        g.len(),
        |y: int|
            Seq::new(
                g[y].len(),
                |x: int|
                    if 0 <= y - dy < g.len() && 0 <= x - dx < g[y].len() {
                        g[y - dy][x - dx]
                    } else {
                        false
                    },
            ),
    )
}

/// Row-major cells of distinct pixels are distinct.
proof fn lemma_cell_unique(c: int, x1: int, y1: int, x2: int, y2: int)
    requires
        0 <= x1 < c,
        0 <= x2 < c,
        0 <= y1,
        0 <= y2,
        y1 * c + x1 == y2 * c + x2,
    ensures
        y1 == y2,
        x1 == x2,
{
    if y1 < y2 {
        assert((y1 + 1) * c <= y2 * c) by (nonlinear_arith)
            requires
                y1 + 1 <= y2,
                0 < c,
        ;
        assert((y1 + 1) * c == y1 * c + c) by (nonlinear_arith);
    } else if y2 < y1 {
        assert((y2 + 1) * c <= y1 * c) by (nonlinear_arith)
            requires
                y2 + 1 <= y1,
                0 < c,
        ;
        assert((y2 + 1) * c == y2 * c + c) by (nonlinear_arith);
    }
}

/// Row-major cells of pixels inside the grid lie inside the buffer.
proof fn lemma_cell_bound(rows: int, c: int, x: int, y: int)
    requires
        0 <= x < c,
        0 <= y < rows,
        rows * c <= SCREEN_CELLS,
    ensures
        0 <= y * c + x < SCREEN_CELLS,
{
    assert(y * c + x < rows * c) by (nonlinear_arith)
        requires
            0 <= x < c,
            0 <= y < rows,
    ;
    assert(0 <= y * c) by (nonlinear_arith)
        requires
            0 <= y,
            0 <= c,
    ;
}

/// A monochrome framebuffer. Its cells are stored row-major with a stride
/// of `columns`; only the `rows` x `columns` grid is visible.
#[derive(Debug)]
pub struct Screen {
    pub rows: u8,
    pub columns: u8,
    pub bit_map: Vec<bool>,
}

impl View for Screen {
    type V = Seq<Seq<bool>>;

    /// The visible grid, indexed by row, then column.
    open spec fn view(&self) -> Seq<Seq<bool>> {
        Seq::new(
            self.rows as nat,
            |y: int| Seq::new(self.columns as nat, |x: int| self.bit_map@[y * self.columns + x]),
        )
    }
}

impl Screen {
    /// The size is one of the two display modes' and the buffer has its full capacity.
    pub open spec fn wf(&self) -> bool {
        &&& ((self.rows, self.columns) == dims(false) || (self.rows, self.columns) == dims(true))
        &&& self.bit_map@.len() == SCREEN_CELLS
    }

    /// A cleared framebuffer at normal resolution.
    pub fn new() -> (r: Self)
        ensures
            r.wf(),
            (r.rows, r.columns) == dims(false),
            r@ == blank(32, 64),
    {
        let mut bit_map: Vec<bool> = Vec::new();
        while bit_map.len() < SCREEN_CELLS
            invariant
                bit_map@.len() <= SCREEN_CELLS,
                forall|k: int| 0 <= k < bit_map@.len() ==> !bit_map@[k],
            decreases SCREEN_CELLS - bit_map@.len(),
        {
            bit_map.push(false);
        }
        let r = Screen { rows: 32, columns: 64, bit_map };
        assert(r@ =~~= blank(32, 64)) by {
            assert forall|y: int, x: int| 0 <= y < 32 && 0 <= x < 64 implies !#[trigger] r@[y][x] by {
                lemma_cell_bound(32, 64, x, y);
            }
        }
        r
    }

    /// Turns every pixel off, keeping the size.
    pub fn clear(&mut self)
        requires
            old(self).wf(),
        ensures
            final(self).wf(),
            final(self).rows == old(self).rows,
            final(self).columns == old(self).columns,
            final(self)@ == blank(old(self).rows as nat, old(self).columns as nat),
    {
        let mut k: usize = 0;
        while k < self.bit_map.len()
            invariant
                self.wf(),
                self.rows == old(self).rows,
                self.columns == old(self).columns,
                forall|j: int| 0 <= j < k ==> !self.bit_map@[j],
            decreases SCREEN_CELLS - k,
        {
            self.bit_map[k] = false;
            k = k + 1;
        }
        let ghost rows = self.rows as int;
        let ghost c = self.columns as int;
        assert(self@ =~~= blank(rows as nat, c as nat)) by {
            assert forall|y: int, x: int| 0 <= y < rows && 0 <= x < c implies !#[trigger] self@[y][x] by {
                lemma_cell_bound(rows, c, x, y);
            }
        }
    }

    /// Takes the size of the given display mode and turns every pixel off.
    pub fn resize(&mut self, high_res: bool)
        requires
            old(self).wf(),
        ensures
            final(self).wf(),
            (final(self).rows, final(self).columns) == dims(high_res),
            final(self)@ == blank(dims(high_res).0 as nat, dims(high_res).1 as nat),
    {
        if high_res {
            self.rows = 64;
            self.columns = 128;
        } else {
            self.rows = 32;
            self.columns = 64;
        }
        self.clear();
    }

    /// A framebuffer with the same size and pixels.
    fn copy(&self) -> (r: Screen)
        requires
            self.wf(),
        ensures
            r.wf(),
            r.rows == self.rows,
            r.columns == self.columns,
            r@ == self@,
    {
        let mut bit_map: Vec<bool> = Vec::new();
        let mut k: usize = 0;
        while k < self.bit_map.len()
            invariant
                self.wf(),
                k <= SCREEN_CELLS,
                bit_map@ == self.bit_map@.subrange(0, k as int),
            decreases SCREEN_CELLS - k,
        {
            bit_map.push(self.bit_map[k]);
            k = k + 1;
            assert(bit_map@ =~= self.bit_map@.subrange(0, k as int));
        }
        assert(bit_map@ =~= self.bit_map@);
        let r = Screen { rows: self.rows, columns: self.columns, bit_map };
        assert(r@ =~~= self@);
        r
    }

    /// Moves every pixel `dx` columns right and `dy` rows down (left and up
    /// for negative amounts); pixels moved in from outside are off.
    pub fn shift(&mut self, dx: i8, dy: i8)
        requires
            old(self).wf(),
        ensures
            final(self).wf(),
            final(self).rows == old(self).rows,
            final(self).columns == old(self).columns,
            final(self)@ == shifted(old(self)@, dx as int, dy as int),
    {
        let src = self.copy();
        let ghost g = old(self)@;
        let rows = self.rows;
        let columns = self.columns;
        let mut y: u8 = 0;
        while y < rows
            invariant
                self.wf(),
                src.wf(),
                src@ == g,
                rows == self.rows == src.rows == old(self).rows,
                columns == self.columns == src.columns == old(self).columns,
                y <= rows,
                forall|yy: int, xx: int|
                    0 <= yy < rows && 0 <= xx < columns ==> #[trigger] self@[yy][xx] == if yy < y {
                        shifted(g, dx as int, dy as int)[yy][xx]
                    } else {
                        g[yy][xx]
                    },
            decreases rows - y,
        {
            let mut x: u8 = 0;
            while x < columns
                invariant
                    self.wf(),
                    src.wf(),
                    src@ == g,
                    rows == self.rows == src.rows == old(self).rows,
                    columns == self.columns == src.columns == old(self).columns,
                    y < rows,
                    x <= columns,
                    forall|yy: int, xx: int|
                        0 <= yy < rows && 0 <= xx < columns ==> #[trigger] self@[yy][xx] == if yy < y
                            || (yy == y && xx < x) {
                            shifted(g, dx as int, dy as int)[yy][xx]
                        } else {
                            g[yy][xx]
                        },
                decreases columns - x,
            {
                let sx: i16 = x as i16 - dx as i16;
                let sy: i16 = y as i16 - dy as i16;
                let value = if 0 <= sx && sx < columns as i16 && 0 <= sy && sy < rows as i16 {
                    src.get_pixel(sx as u8, sy as u8)
                } else {
                    false
                };
                self.set_pixel(x, y, value);
                x = x + 1;
            }
            y = y + 1;
        }
        assert(self@ =~~= shifted(g, dx as int, dy as int));
    }

    /// Cell of the pixel at column `x`, row `y`.
    fn get_i(&self, x: u8, y: u8) -> (r: usize)
        requires
            self.wf(),
            x < self.columns,
            y < self.rows,
        ensures
            r == y * self.columns + x,
            r < SCREEN_CELLS,
    {
        proof {
            lemma_cell_bound(self.rows as int, self.columns as int, x as int, y as int);
        }
        (y as usize) * self.columns as usize + x as usize
    }

    /// Sets the pixel at column `x`, row `y`.
    pub fn set_pixel(&mut self, x: u8, y: u8, value: bool)
        requires
            old(self).wf(),
            x < old(self).columns,
            y < old(self).rows,
        ensures
            final(self).wf(),
            final(self).rows == old(self).rows,
            final(self).columns == old(self).columns,
            final(self)@ == old(self)@.update(y as int, old(self)@[y as int].update(x as int, value)),
    {
        let i = self.get_i(x, y);
        self.bit_map[i] = value;
        let ghost pre = old(self)@;
        let ghost c = self.columns as int;
        assert(self@ =~~= pre.update(y as int, pre[y as int].update(x as int, value))) by {
            assert forall|yy: int, xx: int|
                0 <= yy < self.rows && 0 <= xx < c && (yy != y || xx != x) implies #[trigger] self@[yy][xx]
                == pre[yy][xx] by {
                if yy * c + xx == y * c + x {
                    lemma_cell_unique(c, xx, yy, x as int, y as int);
                }
            }
        }
    }

    /// The pixel at column `x`, row `y`.
    pub fn get_pixel(&self, x: u8, y: u8) -> (r: bool)
        requires
            self.wf(),
            x < self.columns,
            y < self.rows,
        ensures
            r == self@[y as int][x as int],
    {
        self.bit_map[self.get_i(x, y)]
    }
}

/// Device key code of a host key symbol, on the fixed layout
/// `1 2 3 4 / q w e r / a s d f / z x c v`.
pub open spec fn key_code(key: char) -> Option<int> {
    if key == '1' {
        Some(0x1)
    } else if key == '2' {
        Some(0x2)
    } else if key == '3' {
        Some(0x3)
    } else if key == '4' {
        Some(0xC)
    } else if key == 'q' {
        Some(0x4)
    } else if key == 'w' {
        Some(0x5)
    } else if key == 'e' {
        Some(0x6)
    } else if key == 'r' {
        Some(0xD)
    } else if key == 'a' {
        Some(0x7)
    } else if key == 's' {
        Some(0x8)
    } else if key == 'd' {
        Some(0x9)
    } else if key == 'f' {
        Some(0xE)
    } else if key == 'z' {
        Some(0xA)
    } else if key == 'x' {
        Some(0x0)
    } else if key == 'c' {
        Some(0xB)
    } else if key == 'v' {
        Some(0xF)
    } else {
        None
    }
}

/// Sixteen released keys.
pub open spec fn released() -> Seq<bool> {
    Seq::new(16, |k: int| false)
}

/// The key pad: one pressed/released state per device key code.
#[derive(Debug)]
pub struct Keyboard {
    pub keys: Vec<bool>,
}

impl View for Keyboard {
    type V = Seq<bool>;

    open spec fn view(&self) -> Seq<bool> {
        self.keys@
    }
}

impl Keyboard {
    /// There is one state per device key.
    pub open spec fn wf(&self) -> bool {
        self.keys@.len() == 16
    }

    /// What a key symbol event does to the key states.
    pub open spec fn with_key(keys: Seq<bool>, key: char, down: bool) -> Seq<bool> {
        match key_code(key) {
            Some(k) => keys.update(k, down),
            None => keys,
        }
    }

    /// A key pad with no key pressed.
    pub fn new() -> (r: Self)
        ensures
            r.wf(),
            r@ == released(),
    {
        let mut keys: Vec<bool> = Vec::new();
        while keys.len() < 16
            invariant
                keys@.len() <= 16,
                forall|k: int| 0 <= k < keys@.len() ==> !keys@[k],
            decreases 16 - keys@.len(),
        {
            keys.push(false);
        }
        assert(keys@ =~= released());
        Keyboard { keys }
    }

    /// Device key code of a host key symbol, if the layout has it.
    pub fn map_to(&self, key: char) -> (r: Option<usize>)
        ensures
            r.is_some() == key_code(key).is_some(),
            r.is_some() ==> r.unwrap() as int == key_code(key).unwrap(),
    {
        match key {
            '1' => Some(0x1),
            '2' => Some(0x2),
            '3' => Some(0x3),
            '4' => Some(0xC),
            'q' => Some(0x4),
            'w' => Some(0x5),
            'e' => Some(0x6),
            'r' => Some(0xD),
            'a' => Some(0x7),
            's' => Some(0x8),
            'd' => Some(0x9),
            'f' => Some(0xE),
            'z' => Some(0xA),
            'x' => Some(0x0),
            'c' => Some(0xB),
            'v' => Some(0xF),
            _ => None,
        }
    }

    /// Releases every key.
    pub fn reset(&mut self)
        requires
            old(self).wf(),
        ensures
            final(self).wf(),
            final(self)@ == released(),
    {
        let mut k: usize = 0;
        while k < self.keys.len()
            invariant
                self.wf(),
                forall|j: int| 0 <= j < k ==> !self.keys@[j],
            decreases 16 - k,
        {
            self.keys[k] = false;
            k = k + 1;
        }
        assert(self.keys@ =~= released());
    }

    /// Presses the key that `key` stands for; false, with nothing changed,
    /// when the layout has no such symbol.
    pub fn key_down(&mut self, key: char) -> (r: bool)
        requires
            old(self).wf(),
        ensures
            final(self).wf(),
            r == key_code(key).is_some(),
            final(self)@ == Self::with_key(old(self)@, key, true),
    {
        if let Some(key_code) = self.map_to(key) {
            self.keys[key_code] = true;
            return true;
        }
        false
    }

    /// Releases the key that `key` stands for; false, with nothing changed,
    /// when the layout has no such symbol.
    pub fn key_up(&mut self, key: char) -> (r: bool)
        requires
            old(self).wf(),
        ensures
            final(self).wf(),
            r == key_code(key).is_some(),
            final(self)@ == Self::with_key(old(self)@, key, false),
    {
        if let Some(key_code) = self.map_to(key) {
            self.keys[key_code] = false;
            return true;
        }
        false
    }
}

} // verus!
