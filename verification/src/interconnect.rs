//! The memory and I/O bus: 4096 bytes of RAM, the 64 x 32 monochrome
//! framebuffer, the 16-entry key-state table, and the halt flag.
//!
//! Addresses are masked into `[0, 4096)` at every access; the framebuffer is
//! stored row-major (`row * 64 + column`); both screen axes wrap.

use vstd::prelude::*;

use crate::font::font_table;
use crate::font::get_fonts;

verus! {

/// Number of addressable RAM bytes.
pub const RAM_SIZE: usize = 4096;

/// Framebuffer width in pixels.
pub const SCREEN_WIDTH: usize = 64;

/// Framebuffer height in pixels.
pub const SCREEN_HEIGHT: usize = 32;

/// Number of framebuffer pixels.
pub const SCREEN_PIXELS: usize = 2048;

/// Number of key-state entries.
pub const NUM_KEYS: usize = 16;

/// Address at which a program image is loaded.
pub const PROGRAM_BASE: usize = 512;

/// The mathematical contents of the bus.
#[verifier::ext_equal]
pub struct BusState {
    pub ram: Seq<u8>,
    pub fb: Seq<bool>,
    pub keys: Seq<bool>,
    pub halt: bool,
}

/// Well-formedness of the bus contents: every table has its fixed size.
pub open spec fn bus_wf(b: BusState) -> bool {
    &&& b.ram.len() == RAM_SIZE
    &&& b.fb.len() == SCREEN_PIXELS
    &&& b.keys.len() == NUM_KEYS
}

/// An all-dark framebuffer.
pub open spec fn blank_fb() -> Seq<bool> {
    Seq::new(SCREEN_PIXELS as nat, |p: int| false)
}

/// RAM as it stands after startup: the glyph table at `[0, 80)`, the program
/// image at `[512, 512 + len)`, zero elsewhere.
pub open spec fn init_ram(program: Seq<u8>) -> Seq<u8> {
    Seq::new(
        RAM_SIZE as nat,
        |a: int|
            if 0 <= a < 80 {
                font_table()[a]
            } else if PROGRAM_BASE <= a < PROGRAM_BASE + program.len() {
                program[a - PROGRAM_BASE]
            } else {
                0u8
            },
    )
}

/// The whole bus as it stands after startup.
pub open spec fn init_bus(program: Seq<u8>) -> BusState {
    BusState {
        ram: init_ram(program),
        fb: blank_fb(),
        keys: Seq::new(NUM_KEYS as nat, |i: int| false),
        halt: false,
    }
}

/// The big-endian 16-bit word whose high byte sits at `addr` and whose low
/// byte sits at the following address, both masked into range.
pub open spec fn word_at(ram: Seq<u8>, addr: u16) -> u16 {
    (ram[addr as int % 4096] * 256 + ram[(addr as int + 1) % 4096]) as u16
}

/// Index of the pixel at `col`, `row` in the row-major framebuffer.
pub open spec fn pixel_index(col: int, row: int) -> int {
    row * 64 + col
}

/// The place value of bit `i` of a byte, most significant bit first.
pub open spec fn bit_weight(i: int) -> int {
    if i == 0 {
        128
    } else if i == 1 {
        64
    } else if i == 2 {
        32
    } else if i == 3 {
        16
    } else if i == 4 {
        8
    } else if i == 5 {
        4
    } else if i == 6 {
        2
    } else {
        1
    }
}

/// Bit `i` of sprite byte `b`, most significant bit first.
pub open spec fn sprite_bit(b: u8, i: int) -> bool {
    (b as int / bit_weight(i)) % 2 == 1
}

/// The column `i` pixels to the right of column `x0`, wrapping at the edge.
pub open spec fn col_of(x0: int, i: int) -> int {
    if x0 + i < 64 {
        x0 + i
    } else {
        x0 + i - 64
    }
}

/// How many pixels to the right of column `x0` column `c` lies, wrapping.
pub open spec fn col_offset(x0: int, c: int) -> int {
    if c >= x0 {
        c - x0
    } else {
        c + 64 - x0
    }
}

/// The row `r` rows below row `y0`, wrapping at the edge.
pub open spec fn row_of(y0: int, r: int) -> int {
    (y0 + r) % 32
}

/// The framebuffer after the first `k` bits of sprite byte `b` have been
/// XOR-composited onto row `row` starting at column `x0`.
pub open spec fn draw_byte_upto(fb: Seq<bool>, b: u8, x0: int, row: int, k: int) -> Seq<bool> {
    Seq::new(
        fb.len(),
        |p: int|
            if p / 64 == row && col_offset(x0, p % 64) < k && sprite_bit(b, col_offset(x0, p % 64)) {
                !fb[p]
            } else {
                fb[p]
            },
    )
}

/// The framebuffer after sprite byte `b` has been XOR-composited onto row
/// `row` starting at column `x0`.
pub open spec fn draw_byte_spec(fb: Seq<bool>, b: u8, x0: int, row: int) -> Seq<bool> {
    draw_byte_upto(fb, b, x0, row, 8)
}

/// Whether one of the first `k` bits of sprite byte `b` lands on a lit pixel
/// of `fb` (and so erases it).
pub open spec fn byte_collision_upto(fb: Seq<bool>, b: u8, x0: int, row: int, k: int) -> bool {
    exists|i: int| 0 <= i < k && sprite_bit(b, i) && fb[pixel_index(col_of(x0, i), row)]
}

/// Whether sprite byte `b`, composited onto row `row` at column `x0`, erases
/// a lit pixel of `fb`.
pub open spec fn byte_collision_spec(fb: Seq<bool>, b: u8, x0: int, row: int) -> bool {
    byte_collision_upto(fb, b, x0, row, 8)
}

/// The framebuffer and accumulated collision flag after the first `n` rows of
/// the sprite at RAM address `base0` have been composited in order, the row
/// for step `r` being read at `(base0 + r) % 4096` and drawn at screen row
/// `(y0 + r) % 32`, column `x0`.
pub open spec fn draw_rows(
    fb: Seq<bool>,
    ram: Seq<u8>,
    base0: int,
    n: int,
    x0: int,
    y0: int,
) -> (Seq<bool>, bool)
    decreases n,
{
    if n <= 0 {
        (fb, false)
    } else {
        let prior = draw_rows(fb, ram, base0, n - 1, x0, y0);
        let b = ram[(base0 + (n - 1)) % 4096];
        let row = row_of(y0, n - 1);
        (
            draw_byte_spec(prior.0, b, x0, row),
            prior.1 || byte_collision_spec(prior.0, b, x0, row),
        )
    }
}

/// Splits the collision test on the first `k + 1` bits into the test on the
/// first `k` and the test on bit `k` alone.
proof fn lemma_collision_step(fb: Seq<bool>, b: u8, x0: int, row: int, k: int)
    requires
        0 <= k,
    ensures
        byte_collision_upto(fb, b, x0, row, k + 1) == (byte_collision_upto(fb, b, x0, row, k)
            || (sprite_bit(b, k) && fb[pixel_index(col_of(x0, k), row)])),
{
    if byte_collision_upto(fb, b, x0, row, k + 1) {
        let j = choose|j: int|
            0 <= j < k + 1 && sprite_bit(b, j) && fb[pixel_index(col_of(x0, j), row)];
        if j < k {
            assert(byte_collision_upto(fb, b, x0, row, k));
        }
    }
    if byte_collision_upto(fb, b, x0, row, k) {
        let j = choose|j: int| 0 <= j < k && sprite_bit(b, j) && fb[pixel_index(col_of(x0, j), row)];
        assert(0 <= j < k + 1 && sprite_bit(b, j) && fb[pixel_index(col_of(x0, j), row)]);
    }
    if sprite_bit(b, k) && fb[pixel_index(col_of(x0, k), row)] {
        assert(byte_collision_upto(fb, b, x0, row, k + 1));
    }
}

/// The bus: RAM, framebuffer, key table, and the external halt request.
pub struct Interconnect {
    ram: Vec<u8>,
    display_state: Vec<bool>,
    key_state: Vec<bool>,
    /// Set by the input collaborator when the user asks to quit.
    pub halt: bool,
}

impl View for Interconnect {
    type V = BusState;

    closed spec fn view(&self) -> BusState {
        BusState {
            ram: self.ram@,
            fb: self.display_state@,
            keys: self.key_state@,
            halt: self.halt,
        }
    }
}

impl Interconnect {
    /// Every table has its fixed size.
    pub open spec fn wf(&self) -> bool {
        bus_wf(self@)
    }

    /// Builds the bus: glyph table at address 0, the program image at
    /// address 512, screen dark, no key pressed.
    pub fn new(program: Vec<u8>) -> (r: Interconnect)
        requires
            program@.len() <= RAM_SIZE - PROGRAM_BASE,
        ensures
            r.wf(),
            r@ == init_bus(program@),
    {
        let mut ram: Vec<u8> = Vec::new();
        let mut i: usize = 0;
        while i < RAM_SIZE
            invariant
                i <= RAM_SIZE,
                ram@.len() == i,
                forall|a: int| 0 <= a < i ==> ram@[a] == 0u8,
            decreases RAM_SIZE - i,
        {
            ram.push(0u8);
            i = i + 1;
        }

        let fonts = get_fonts();
        let mut j: usize = 0;
        while j < 80
            invariant
                j <= 80,
                fonts@ == font_table(),
                ram@.len() == RAM_SIZE,
                forall|a: int| 0 <= a < j ==> ram@[a] == font_table()[a],
                forall|a: int| j <= a < RAM_SIZE ==> ram@[a] == 0u8,
            decreases 80 - j,
        {
            ram[j] = fonts[j];
            j = j + 1;
        }

        let mut k: usize = 0;
        while k < program.len()
            invariant
                k <= program@.len(),
                program@.len() <= RAM_SIZE - PROGRAM_BASE,
                ram@.len() == RAM_SIZE,
                forall|a: int| 0 <= a < 80 ==> ram@[a] == font_table()[a],
                forall|a: int|
                    PROGRAM_BASE <= a < PROGRAM_BASE + k ==> ram@[a] == program@[a - PROGRAM_BASE],
                forall|a: int| 80 <= a < PROGRAM_BASE ==> ram@[a] == 0u8,
                forall|a: int| PROGRAM_BASE + k <= a < RAM_SIZE ==> ram@[a] == 0u8,
            decreases program@.len() - k,
        {
            ram[PROGRAM_BASE + k] = program[k];
            k = k + 1;
        }

        let mut display_state: Vec<bool> = Vec::new();
        let mut p: usize = 0;
        while p < SCREEN_PIXELS
            invariant
                p <= SCREEN_PIXELS,
                display_state@.len() == p,
                forall|a: int| 0 <= a < p ==> display_state@[a] == false,
            decreases SCREEN_PIXELS - p,
        {
            display_state.push(false);
            p = p + 1;
        }

        let mut key_state: Vec<bool> = Vec::new();
        let mut q: usize = 0;
        while q < NUM_KEYS
            invariant
                q <= NUM_KEYS,
                key_state@.len() == q,
                forall|a: int| 0 <= a < q ==> key_state@[a] == false,
            decreases NUM_KEYS - q,
        {
            key_state.push(false);
            q = q + 1;
        }

        let r = Interconnect { ram, display_state, key_state, halt: false };
        proof {
            assert(r@.ram =~= init_ram(program@));
            assert(r@.fb =~= blank_fb());
            assert(r@.keys =~= init_bus(program@).keys);
            assert(r@ =~= init_bus(program@));
        }
        r
    }

    /// Reads the big-endian word at `addr`; both byte addresses are masked
    /// into range, whatever the parity of `addr`.
    pub fn read_word(&self, addr: u16) -> (w: u16)
        requires
            self.wf(),
        ensures
            w == word_at(self@.ram, addr),
    {
        let hi = self.ram[addr as usize % RAM_SIZE];
        let lo = self.ram[(addr as usize + 1) % RAM_SIZE];
        hi as u16 * 256 + lo as u16
    }

    /// Writes one byte; the address is masked into range.
    pub fn write_to_addr(&mut self, addr: usize, val: u8)
        requires
            old(self).wf(),
        ensures
            final(self).wf(),
            final(self)@ == (BusState {
                ram: old(self)@.ram.update(addr as int % 4096, val),
                ..old(self)@
            }),
    {
        self.ram[addr % RAM_SIZE] = val;
    }

    /// Reads one byte; the address is masked into range.
    pub fn get_from_addr(&self, addr: usize) -> (r: u8)
        requires
            self.wf(),
        ensures
            r == self@.ram[addr as int % 4096],
    {
        self.ram[addr % RAM_SIZE]
    }

    /// Whether the key whose value is `key`, masked into the table, is down.
    pub fn is_key_pressed(&self, key: u8) -> (r: bool)
        requires
            self.wf(),
        ensures
            r == self@.keys[key as int % 16],
    {
        self.key_state[key as usize % NUM_KEYS]
    }

    /// Records a key transition reported by the input collaborator.
    pub fn set_key(&mut self, key: u8, down: bool)
        requires
            old(self).wf(),
        ensures
            final(self).wf(),
            final(self)@ == (BusState {
                keys: old(self)@.keys.update(key as int % 16, down),
                ..old(self)@
            }),
    {
        self.key_state[key as usize % NUM_KEYS] = down;
    }

    /// Darkens the whole framebuffer.
    pub fn clear_display(&mut self)
        requires
            old(self).wf(),
        ensures
            final(self).wf(),
            final(self)@ == (BusState { fb: blank_fb(), ..old(self)@ }),
    {
        let ghost pre = self@;
        let mut p: usize = 0;
        while p < SCREEN_PIXELS
            invariant
                p <= SCREEN_PIXELS,
                self@.fb.len() == SCREEN_PIXELS,
                self@.ram == pre.ram,
                self@.keys == pre.keys,
                self@.halt == pre.halt,
                forall|a: int| 0 <= a < p ==> self@.fb[a] == false,
                forall|a: int| p <= a < SCREEN_PIXELS ==> self@.fb[a] == pre.fb[a],
            decreases SCREEN_PIXELS - p,
        {
            self.display_state[p] = false;
            p = p + 1;
        }
        proof {
            assert(self@.fb =~= blank_fb());
            assert(self@ =~= (BusState { fb: blank_fb(), ..pre }));
        }
    }

    /// Whether an external quit request stands.
    pub fn is_halted(&self) -> (r: bool)
        ensures
            r == self@.halt,
    {
        self.halt
    }

    /// Records or withdraws an external quit request.
    pub fn set_halt(&mut self, halt: bool)
        requires
            old(self).wf(),
        ensures
            final(self).wf(),
            final(self)@ == (BusState { halt, ..old(self)@ }),
    {
        self.halt = halt;
    }

    /// Reads the framebuffer pixel at `col`, `row`.
    pub fn pixel(&self, col: usize, row: usize) -> (r: bool)
        requires
            self.wf(),
            col < 64,
            row < 32,
        ensures
            r == self@.fb[pixel_index(col as int, row as int)],
    {
        self.display_state[row * 64 + col]
    }

    /// Relies on rand's `random`: draws a uniformly random byte from the
    /// thread-local generator. Nothing is promised of the result.
    #[verifier::external_body]
    pub fn get_random_value(&self) -> u8 {
        rand::random::<u8>()
    }

    /// XOR-composites the sprite byte at RAM address `addr` onto framebuffer
    /// row `y_loc` starting at column `x_loc`, wrapping at the right edge,
    /// and reports whether a lit pixel was erased.
    fn write_byte_to_display(&mut self, addr: usize, x_loc: usize, y_loc: usize) -> (overrode:
        bool)
        requires
            old(self).wf(),
            addr < 4096,
            x_loc < 64,
            y_loc < 32,
        ensures
            final(self).wf(),
            final(self)@ == (BusState {
                fb: draw_byte_spec(
                    old(self)@.fb,
                    old(self)@.ram[addr as int],
                    x_loc as int,
                    y_loc as int,
                ),
                ..old(self)@
            }),
            overrode == byte_collision_spec(
                old(self)@.fb,
                old(self)@.ram[addr as int],
                x_loc as int,
                y_loc as int,
            ),
    {
        let ghost pre = self@;
        let byte = self.ram[addr];
        let mut overrode = false;
        let mut weight: u8 = 128;
        let mut i: usize = 0;
        while i < 8
            invariant
                i <= 8,
                byte == pre.ram[addr as int],
                i < 8 ==> weight as int == bit_weight(i as int),
                bus_wf(pre),
                x_loc < 64,
                y_loc < 32,
                self@.ram == pre.ram,
                self@.keys == pre.keys,
                self@.halt == pre.halt,
                self@.fb == draw_byte_upto(pre.fb, byte, x_loc as int, y_loc as int, i as int),
                overrode == byte_collision_upto(
                    pre.fb,
                    byte,
                    x_loc as int,
                    y_loc as int,
                    i as int,
                ),
            decreases 8 - i,
        {
            let bit_set = (byte / weight) % 2 == 1;
            let col = if x_loc + i < 64 {
                x_loc + i
            } else {
                x_loc + i - 64
            };
            let idx = y_loc * 64 + col;
            proof {
                assert(col as int == col_of(x_loc as int, i as int));
                assert(col_offset(x_loc as int, col as int) == i as int);
                assert(idx < 2048);
                assert(idx as int == pixel_index(col as int, y_loc as int));
                assert(idx as int / 64 == y_loc as int && idx as int % 64 == col as int);
            }
            let cur = self.display_state[idx];
            proof {
                assert(cur == pre.fb[idx as int]);
            }
            if bit_set && cur {
                overrode = true;
            }
            self.display_state[idx] = cur != bit_set;
            proof {
                lemma_collision_step(pre.fb, byte, x_loc as int, y_loc as int, i as int);
                let k = i as int;
                let fbk = draw_byte_upto(pre.fb, byte, x_loc as int, y_loc as int, k);
                let fbk1 = draw_byte_upto(pre.fb, byte, x_loc as int, y_loc as int, k + 1);
                assert forall|p: int| 0 <= p < pre.fb.len() implies fbk.update(
                    idx as int,
                    (pre.fb[idx as int] != bit_set),
                )[p] == fbk1[p] by {
                    if p != idx as int {
                        if p / 64 == y_loc as int && col_offset(x_loc as int, p % 64) == k {
                            assert(p % 64 == col_of(x_loc as int, k));
                            assert(p == pixel_index(col_of(x_loc as int, k), y_loc as int));
                        }
                    }
                }
                assert(self@.fb =~= fbk1);
            }
            weight = weight / 2;
            i = i + 1;
        }
        proof {
            assert(self@.fb =~= draw_byte_spec(pre.fb, byte, x_loc as int, y_loc as int));
            assert(self@ =~= (BusState {
                fb: draw_byte_spec(pre.fb, pre.ram[addr as int], x_loc as int, y_loc as int),
                ..pre
            }));
        }
        overrode
    }

    /// Composites the `num_bytes`-row sprite at RAM address `i_addr` with its
    /// top-left corner at `x_loc`, `y_loc`; every address is masked and both
    /// screen axes wrap. Returns whether any lit pixel was erased.
    pub fn display_bytes(&mut self, num_bytes: u8, i_addr: usize, x_loc: usize, y_loc: usize) -> (collision:
        bool)
        requires
            old(self).wf(),
        ensures
            final(self).wf(),
            final(self)@ == (BusState {
                fb: draw_rows(
                    old(self)@.fb,
                    old(self)@.ram,
                    i_addr as int % 4096,
                    num_bytes as int,
                    x_loc as int % 64,
                    y_loc as int % 32,
                ).0,
                ..old(self)@
            }),
            collision == draw_rows(
                old(self)@.fb,
                old(self)@.ram,
                i_addr as int % 4096,
                num_bytes as int,
                x_loc as int % 64,
                y_loc as int % 32,
            ).1,
    {
        let ghost pre = self@;
        let a0 = i_addr % RAM_SIZE;
        let x0 = x_loc % SCREEN_WIDTH;
        let y0 = y_loc % SCREEN_HEIGHT;
        let n = num_bytes as usize;
        let mut collision = false;
        let mut r: usize = 0;
        while r < n
            invariant
                r <= n,
                n < 256,
                a0 < 4096,
                x0 < 64,
                y0 < 32,
                a0 as int == i_addr as int % 4096,
                x0 as int == x_loc as int % 64,
                y0 as int == y_loc as int % 32,
                bus_wf(pre),
                self.wf(),
                self@.ram == pre.ram,
                self@.keys == pre.keys,
                self@.halt == pre.halt,
                self@.fb == draw_rows(pre.fb, pre.ram, a0 as int, r as int, x0 as int, y0 as int).0,
                collision == draw_rows(
                    pre.fb,
                    pre.ram,
                    a0 as int,
                    r as int,
                    x0 as int,
                    y0 as int,
                ).1,
            decreases n - r,
        {
            let addr = (a0 + r) % RAM_SIZE;
            let row = (y0 + r) % SCREEN_HEIGHT;
            proof {
                assert(addr as int == (a0 as int + r as int) % 4096);
                assert(row as int == row_of(y0 as int, r as int));
            }
            let c = self.write_byte_to_display(addr, x0, row);
            collision = collision || c;
            r = r + 1;
        }
        collision
    }
}

/// Whether one of the first `n` sprite rows lands on screen row `row`.
pub open spec fn row_in(row: int, y0: int, n: int) -> bool {
    exists|r: int| 0 <= r < n && row_of(y0, r) == row
}

/// Two distinct rows of a sprite at most 32 rows tall land on distinct
/// screen rows.
proof fn lemma_rows_distinct(y0: int, a: int, b: int)
    requires
        0 <= y0 < 32,
        0 <= a < b <= 31,
    ensures
        row_of(y0, a) != row_of(y0, b),
{
    assert(row_of(y0, a) == if y0 + a < 32 {
        y0 + a
    } else {
        y0 + a - 32
    });
    assert(row_of(y0, b) == if y0 + b < 32 {
        y0 + b
    } else {
        y0 + b - 32
    });
}

/// Compositing stays within one run of rows: the result keeps the length.
proof fn lemma_draw_rows_len(fb: Seq<bool>, ram: Seq<u8>, base0: int, n: int, x0: int, y0: int)
    ensures
        draw_rows(fb, ram, base0, n, x0, y0).0.len() == fb.len(),
    decreases n,
{
    if n > 0 {
        lemma_draw_rows_len(fb, ram, base0, n - 1, x0, y0);
    }
}

/// Pixels on screen rows that none of the first `n` sprite rows touches
/// keep their value.
proof fn lemma_draw_rows_unchanged(
    fb: Seq<bool>,
    ram: Seq<u8>,
    base0: int,
    n: int,
    x0: int,
    y0: int,
    p: int,
)
    requires
        0 <= n,
        0 <= p < fb.len(),
        !row_in(p / 64, y0, n),
    ensures
        draw_rows(fb, ram, base0, n, x0, y0).0[p] == fb[p],
    decreases n,
{
    if n > 0 {
        assert(!row_in(p / 64, y0, n - 1)) by {
            if row_in(p / 64, y0, n - 1) {
                let r = choose|r: int| 0 <= r < n - 1 && row_of(y0, r) == p / 64;
                assert(0 <= r < n && row_of(y0, r) == p / 64);
            }
        }
        lemma_draw_rows_unchanged(fb, ram, base0, n - 1, x0, y0, p);
        lemma_draw_rows_len(fb, ram, base0, n - 1, x0, y0);
        assert(row_of(y0, n - 1) != p / 64);
    }
}

/// Whether sprite byte `b`, composited onto row `row` at column `x0`,
/// flips pixel `p`.
pub open spec fn flips_pixel(b: u8, x0: int, row: int, p: int) -> bool {
    p / 64 == row && col_offset(x0, p % 64) < 8 && sprite_bit(b, col_offset(x0, p % 64))
}

/// The parity of how often the first `n` sprite rows flip pixel `p`.
pub open spec fn flip_parity(ram: Seq<u8>, base0: int, n: int, x0: int, y0: int, p: int) -> bool
    decreases n,
{
    if n <= 0 {
        false
    } else {
        flip_parity(ram, base0, n - 1, x0, y0, p) != flips_pixel(
            ram[(base0 + (n - 1)) % 4096],
            x0,
            row_of(y0, n - 1),
            p,
        )
    }
}

/// After a draw, each pixel holds its old value XORed with the parity of
/// the flips the sprite rows aimed at it.
proof fn lemma_draw_rows_parity(
    fb: Seq<bool>,
    ram: Seq<u8>,
    base0: int,
    n: int,
    x0: int,
    y0: int,
    p: int,
)
    requires
        0 <= p < fb.len(),
    ensures
        draw_rows(fb, ram, base0, n, x0, y0).0[p] == (fb[p] != flip_parity(
            ram,
            base0,
            n,
            x0,
            y0,
            p,
        )),
    decreases n,
{
    if n > 0 {
        lemma_draw_rows_parity(fb, ram, base0, n - 1, x0, y0, p);
        lemma_draw_rows_len(fb, ram, base0, n - 1, x0, y0);
    }
}

/// No sprite row flips a pixel that none of its bits lands on.
proof fn lemma_flip_parity_zero(ram: Seq<u8>, base0: int, n: int, x0: int, y0: int, p: int)
    requires
        0 <= x0 < 64,
        0 <= p,
        forall|r: int, j: int|
            0 <= r < n && 0 <= j < 8 ==> p != pixel_index(col_of(x0, j), row_of(y0, r)),
    ensures
        !flip_parity(ram, base0, n, x0, y0, p),
    decreases n,
{
    if n > 0 {
        lemma_flip_parity_zero(ram, base0, n - 1, x0, y0, p);
        let b = ram[(base0 + (n - 1)) % 4096];
        let rw = row_of(y0, n - 1);
        if flips_pixel(b, x0, rw, p) {
            let j = col_offset(x0, p % 64);
            assert(col_of(x0, j) == p % 64);
            assert(p == pixel_index(col_of(x0, j), rw));
            assert(p != pixel_index(col_of(x0, j), row_of(y0, n - 1)));
        }
    }
}

/// Law: drawing a sprite and then drawing the very same sprite at the same
/// location restores the pre-draw framebuffer exactly, whatever the height:
/// XOR compositing flips each pixel an even number of times over the two
/// draws.
pub proof fn lemma_draw_twice_restores(
    fb: Seq<bool>,
    ram: Seq<u8>,
    base0: int,
    n: int,
    x0: int,
    y0: int,
)
    ensures
        draw_rows(draw_rows(fb, ram, base0, n, x0, y0).0, ram, base0, n, x0, y0).0 =~= fb,
{
    let fb1 = draw_rows(fb, ram, base0, n, x0, y0).0;
    lemma_draw_rows_len(fb, ram, base0, n, x0, y0);
    lemma_draw_rows_len(fb1, ram, base0, n, x0, y0);
    assert forall|p: int| 0 <= p < fb.len() implies draw_rows(
        fb1,
        ram,
        base0,
        n,
        x0,
        y0,
    ).0[p] == fb[p] by {
        lemma_draw_rows_parity(fb, ram, base0, n, x0, y0, p);
        lemma_draw_rows_parity(fb1, ram, base0, n, x0, y0, p);
    }
}

/// Law (toroidal wraparound, where each bit lands): with every sprite row
/// on its own screen row — any height up to 32; a draw instruction's height
/// is a nibble — bit `j` of sprite row `r` lands exactly at column
/// `(x0 + j) % 64` of screen row `(y0 + r) % 32`, where it XORs the pixel.
/// A sprite drawn at column 60 thus covers columns 60 to 63 and then 0 to
/// 3; one drawn at row 30 with height 4 covers rows 30, 31, 0 and 1.
pub proof fn lemma_draw_wraps(
    fb: Seq<bool>,
    ram: Seq<u8>,
    base0: int,
    n: int,
    x0: int,
    y0: int,
    r: int,
    j: int,
)
    requires
        fb.len() == 2048,
        0 <= x0 < 64,
        0 <= y0 < 32,
        0 <= n <= 32,
        0 <= r < n,
        0 <= j < 8,
    ensures
        ({
            let p = pixel_index(col_of(x0, j), row_of(y0, r));
            draw_rows(fb, ram, base0, n, x0, y0).0[p] == (fb[p] != sprite_bit(
                ram[(base0 + r) % 4096],
                j,
            ))
        }),
{
    let rw = row_of(y0, r);
    let p = pixel_index(col_of(x0, j), rw);
    assert(0 <= rw < 32);
    assert(0 <= col_of(x0, j) < 64);
    assert(0 <= p < 2048 && p / 64 == rw && p % 64 == col_of(x0, j));
    assert(col_offset(x0, col_of(x0, j)) == j);
    assert(!row_in(rw, y0, r)) by {
        if row_in(rw, y0, r) {
            let q = choose|q: int| 0 <= q < r && row_of(y0, q) == rw;
            lemma_rows_distinct(y0, q, r);
        }
    }
    lemma_draw_rows_len(fb, ram, base0, r, x0, y0);
    lemma_draw_rows_pixel(fb, ram, base0, n, x0, y0, r, p);
    lemma_draw_rows_unchanged(fb, ram, base0, r, x0, y0, p);
}

/// Law (toroidal wraparound, the rest of the screen): a pixel on which no
/// bit of any sprite row lands keeps its value — nothing is clipped away or
/// smeared beyond the eight wrapped columns of the touched rows.
pub proof fn lemma_draw_leaves_rest(
    fb: Seq<bool>,
    ram: Seq<u8>,
    base0: int,
    n: int,
    x0: int,
    y0: int,
    p: int,
)
    requires
        0 <= x0 < 64,
        0 <= p < fb.len(),
        forall|r: int, j: int|
            0 <= r < n && 0 <= j < 8 ==> p != pixel_index(col_of(x0, j), row_of(y0, r)),
    ensures
        draw_rows(fb, ram, base0, n, x0, y0).0[p] == fb[p],
{
    lemma_draw_rows_parity(fb, ram, base0, n, x0, y0, p);
    lemma_flip_parity_zero(ram, base0, n, x0, y0, p);
}

/// A collision at sprite row `r` makes the whole draw report a collision.
proof fn lemma_row_collision_propagates(
    fb: Seq<bool>,
    ram: Seq<u8>,
    base0: int,
    n: int,
    x0: int,
    y0: int,
    r: int,
)
    requires
        0 <= r < n,
        byte_collision_spec(
            draw_rows(fb, ram, base0, r, x0, y0).0,
            ram[(base0 + r) % 4096],
            x0,
            row_of(y0, r),
        ),
    ensures
        draw_rows(fb, ram, base0, n, x0, y0).1,
    decreases n,
{
    if r < n - 1 {
        lemma_row_collision_propagates(fb, ram, base0, n - 1, x0, y0, r);
    }
}

/// On the screen row where sprite row `r` lands, the whole draw acts exactly
/// as the single compositing of row `r`: no other sprite row lands there.
proof fn lemma_draw_rows_pixel(
    fb: Seq<bool>,
    ram: Seq<u8>,
    base0: int,
    n: int,
    x0: int,
    y0: int,
    r: int,
    p: int,
)
    requires
        0 <= y0 < 32,
        0 <= n <= 32,
        0 <= r < n,
        0 <= p < fb.len(),
        p / 64 == row_of(y0, r),
    ensures
        draw_rows(fb, ram, base0, n, x0, y0).0[p] == draw_byte_spec(
            draw_rows(fb, ram, base0, r, x0, y0).0,
            ram[(base0 + r) % 4096],
            x0,
            row_of(y0, r),
        )[p],
    decreases n,
{
    if r < n - 1 {
        lemma_rows_distinct(y0, r, n - 1);
        lemma_draw_rows_pixel(fb, ram, base0, n - 1, x0, y0, r, p);
        lemma_draw_rows_len(fb, ram, base0, n - 1, x0, y0);
        assert(row_of(y0, n - 1) != p / 64);
    }
}

/// Law: when some lit sprite bit lands on a dark pixel of the pre-draw
/// framebuffer, drawing the sprite and then drawing it again at the same
/// location reports a collision on the second draw. (When every lit bit
/// lands on a lit pixel — in particular for an all-dark sprite — the first
/// draw darkens those pixels and the second draw relights them without
/// erasing anything, so no collision is owed.)
pub proof fn lemma_draw_twice_collides(
    fb: Seq<bool>,
    ram: Seq<u8>,
    base0: int,
    n: int,
    x0: int,
    y0: int,
    r: int,
    i: int,
)
    requires
        fb.len() == 2048,
        ram.len() == 4096,
        0 <= x0 < 64,
        0 <= y0 < 32,
        0 < n <= 32,
        0 <= r < n,
        0 <= i < 8,
        sprite_bit(ram[(base0 + r) % 4096], i),
        !fb[pixel_index(col_of(x0, i), row_of(y0, r))],
    ensures
        draw_rows(draw_rows(fb, ram, base0, n, x0, y0).0, ram, base0, n, x0, y0).1,
{
    let fb1 = draw_rows(fb, ram, base0, n, x0, y0).0;
    let br = ram[(base0 + r) % 4096];
    let rw = row_of(y0, r);
    let pix = pixel_index(col_of(x0, i), rw);
    assert(0 <= rw < 32);
    assert(0 <= col_of(x0, i) < 64);
    assert(0 <= pix < 2048 && pix / 64 == rw && pix % 64 == col_of(x0, i));
    assert(col_offset(x0, col_of(x0, i)) == i);
    assert(!row_in(rw, y0, r)) by {
        if row_in(rw, y0, r) {
            let q = choose|q: int| 0 <= q < r && row_of(y0, q) == rw;
            lemma_rows_distinct(y0, q, r);
        }
    }
    lemma_draw_rows_len(fb, ram, base0, n, x0, y0);
    lemma_draw_rows_len(fb, ram, base0, r, x0, y0);
    lemma_draw_rows_len(fb1, ram, base0, r, x0, y0);
    // After the first draw the witnessed pixel is lit: sprite row `r` is the
    // only one landing on its screen row, and its bit there is set.
    let ar = draw_rows(fb, ram, base0, r, x0, y0).0;
    lemma_draw_rows_pixel(fb, ram, base0, n, x0, y0, r, pix);
    lemma_draw_rows_unchanged(fb, ram, base0, r, x0, y0, pix);
    assert(fb1[pix] == true);
    // In the second draw, the rows before `r` leave that pixel alone, so row
    // `r` erases it and reports the collision.
    let a2 = draw_rows(fb1, ram, base0, r, x0, y0).0;
    lemma_draw_rows_unchanged(fb1, ram, base0, r, x0, y0, pix);
    assert(a2[pix] == true);
    assert(0 <= i < 8 && sprite_bit(br, i) && a2[pixel_index(col_of(x0, i), rw)]);
    assert(byte_collision_spec(a2, br, x0, rw));
    lemma_row_collision_propagates(fb1, ram, base0, n, x0, y0, r);
}

} // verus!
