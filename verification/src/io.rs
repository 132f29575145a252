//! The two external capabilities the engine consults besides randomness: a
//! monochrome display receiving XOR-composited sprite blits with wraparound
//! and collision reporting, and a sixteen-key keypad with a pollable pending
//! key press.
//!
//! Both are modeled as plain state that the host owns: it reads the pixel
//! buffer out for rendering and writes the key state in from its input
//! backend, while the engine mutates them only through the verified
//! operations here.

use vstd::prelude::*;
use vstd::arithmetic::div_mod::lemma_fundamental_div_mod;

verus! {

/// Width of the display in pixels.
pub const DISPLAY_W: usize = 64;

/// Height of the display in pixels.
pub const DISPLAY_H: usize = 32;

/// Number of pixels in the display buffer.
pub const DISPLAY_PIXELS: usize = DISPLAY_W * DISPLAY_H;

/// Number of keys on the keypad.
pub const NUM_KEYS: usize = 16;

/// Position of pixel `(px, py)` in the row-major pixel buffer.
pub open spec fn pixel_index(px: int, py: int) -> int {
    py * 64 + px
}

/// The column that bit `b` of a sprite row lands on when the sprite is drawn
/// at column `x`: coordinates wrap around the display width.
pub open spec fn wrap_col(x: u8, b: int) -> int {
    (x + b) % 64
}

/// The row that sprite row `j` lands on when the sprite is drawn at row `y`:
/// coordinates wrap around the display height.
pub open spec fn wrap_row(y: u8, j: int) -> int {
    (y + j) % 32
}

/// Bit `b` of a sprite row byte, counting the leftmost pixel as bit `0`.
pub open spec fn sprite_bit(byte: u8, b: int) -> bool {
    (byte >> ((7 - b) as u8)) & 1u8 == 1u8
}

/// Does one of the first `k` sprite bits (in row-major order: bit `b` of row
/// `j` is number `8 * j + b`) land on pixel `(px, py)` with the bit set?
pub open spec fn covered_upto(sprite: Seq<u8>, x: u8, y: u8, k: int, px: int, py: int) -> bool {
    exists|j: int, b: int|
        0 <= j < sprite.len() && 0 <= b < 8 && 8 * j + b < k && sprite_bit(sprite[j], b)
            && px == wrap_col(x, b) && py == wrap_row(y, j)
}

/// The pixel buffer after the first `k` sprite bits have been composited
/// onto `grid`: a covered pixel is toggled, every other pixel keeps its value.
pub open spec fn grid_upto(grid: Seq<bool>, sprite: Seq<u8>, x: u8, y: u8, k: int) -> Seq<bool> {
    Seq::new(
        grid.len(),
        |p: int|
            if covered_upto(sprite, x, y, k, p % 64, p / 64) {
                !grid[p]
            } else {
                grid[p]
            },
    )
}

/// Did one of the first `k` sprite bits erase a pixel, that is, land set on a
/// pixel of `grid` that was already lit?
pub open spec fn collided_upto(grid: Seq<bool>, sprite: Seq<u8>, x: u8, y: u8, k: int) -> bool {
    exists|j: int, b: int|
        0 <= j < sprite.len() && 0 <= b < 8 && 8 * j + b < k && sprite_bit(sprite[j], b)
            && grid[pixel_index(wrap_col(x, b), wrap_row(y, j))]
}

/// The pixel buffer after the whole sprite has been XOR-composited onto
/// `grid` at `(x, y)`.
pub open spec fn draw_grid(grid: Seq<bool>, sprite: Seq<u8>, x: u8, y: u8) -> Seq<bool> {
    grid_upto(grid, sprite, x, y, 8 * sprite.len() as int)
}

/// Whether compositing the sprite onto `grid` at `(x, y)` erases any pixel.
pub open spec fn draw_collides(grid: Seq<bool>, sprite: Seq<u8>, x: u8, y: u8) -> bool {
    collided_upto(grid, sprite, x, y, 8 * sprite.len() as int)
}

/// Two sprite bits of a sprite of at most 32 rows never land on the same
/// pixel: within a row the eight columns wrap to eight distinct positions,
/// and at most 32 rows wrap to distinct rows.
proof fn lemma_wrap_injective(x: u8, y: u8, j1: int, b1: int, j2: int, b2: int)
    requires
        0 <= j1 < 32,
        0 <= j2 < 32,
        0 <= b1 < 8,
        0 <= b2 < 8,
        wrap_col(x, b1) == wrap_col(x, b2),
        wrap_row(y, j1) == wrap_row(y, j2),
    ensures
        j1 == j2,
        b1 == b2,
{
    lemma_fundamental_div_mod(x + b1, 64);
    lemma_fundamental_div_mod(x + b2, 64);
    lemma_fundamental_div_mod(y + j1, 32);
    lemma_fundamental_div_mod(y + j2, 32);
}

/// Counting one more sprite bit extends the coverage of `(px, py)` by exactly
/// the pixel that bit `k` itself lands on.
proof fn lemma_covered_unroll(sprite: Seq<u8>, x: u8, y: u8, k: int, px: int, py: int)
    requires
        0 <= k,
    ensures
        covered_upto(sprite, x, y, k + 1, px, py) <==> (covered_upto(sprite, x, y, k, px, py) || (
        k / 8 < sprite.len() && sprite_bit(sprite[k / 8], k % 8) && px == wrap_col(x, k % 8)
            && py == wrap_row(y, k / 8))),
{
    lemma_fundamental_div_mod(k, 8);
    if covered_upto(sprite, x, y, k + 1, px, py) {
        let (j2, b2) = choose|j2: int, b2: int|
            0 <= j2 < sprite.len() && 0 <= b2 < 8 && 8 * j2 + b2 < k + 1 && sprite_bit(
                sprite[j2],
                b2,
            ) && px == wrap_col(x, b2) && py == wrap_row(y, j2);
        if 8 * j2 + b2 == k {
            assert(j2 == k / 8 && b2 == k % 8);
        } else {
            assert(covered_upto(sprite, x, y, k, px, py));
        }
    }
    if k / 8 < sprite.len() && sprite_bit(sprite[k / 8], k % 8) && px == wrap_col(x, k % 8) && py
        == wrap_row(y, k / 8) {
        assert(0 <= k / 8 < sprite.len() && 0 <= k % 8 < 8 && 8 * (k / 8) + (k % 8) < k + 1);
        assert(covered_upto(sprite, x, y, k + 1, px, py));
    }
}

/// Counting one more sprite bit extends the collisions by exactly whatever
/// bit `k` erases.
proof fn lemma_collided_unroll(grid: Seq<bool>, sprite: Seq<u8>, x: u8, y: u8, k: int)
    requires
        0 <= k,
    ensures
        collided_upto(grid, sprite, x, y, k + 1) <==> (collided_upto(grid, sprite, x, y, k) || (k
            / 8 < sprite.len() && sprite_bit(sprite[k / 8], k % 8) && grid[pixel_index(
            wrap_col(x, k % 8),
            wrap_row(y, k / 8),
        )])),
{
    lemma_fundamental_div_mod(k, 8);
    if collided_upto(grid, sprite, x, y, k + 1) {
        let (j2, b2) = choose|j2: int, b2: int|
            0 <= j2 < sprite.len() && 0 <= b2 < 8 && 8 * j2 + b2 < k + 1 && sprite_bit(
                sprite[j2],
                b2,
            ) && grid[pixel_index(wrap_col(x, b2), wrap_row(y, j2))];
        if 8 * j2 + b2 == k {
            assert(j2 == k / 8 && b2 == k % 8);
        } else {
            assert(collided_upto(grid, sprite, x, y, k));
        }
    }
    if k / 8 < sprite.len() && sprite_bit(sprite[k / 8], k % 8) && grid[pixel_index(
        wrap_col(x, k % 8),
        wrap_row(y, k / 8),
    )] {
        assert(0 <= k / 8 < sprite.len() && 0 <= k % 8 < 8 && 8 * (k / 8) + (k % 8) < k + 1);
        assert(collided_upto(grid, sprite, x, y, k + 1));
    }
}

/// The pixel that sprite bit `k` lands on is untouched by the bits before it,
/// provided the sprite has at most 32 rows.
proof fn lemma_first_touch(sprite: Seq<u8>, x: u8, y: u8, k: int)
    requires
        0 <= k,
        sprite.len() <= 32,
        k / 8 < sprite.len(),
    ensures
        !covered_upto(sprite, x, y, k, wrap_col(x, k % 8), wrap_row(y, k / 8)),
{
    lemma_fundamental_div_mod(k, 8);
    if covered_upto(sprite, x, y, k, wrap_col(x, k % 8), wrap_row(y, k / 8)) {
        let (j2, b2) = choose|j2: int, b2: int|
            0 <= j2 < sprite.len() && 0 <= b2 < 8 && 8 * j2 + b2 < k && sprite_bit(sprite[j2], b2)
                && wrap_col(x, k % 8) == wrap_col(x, b2) && wrap_row(y, k / 8) == wrap_row(y, j2);
        lemma_wrap_injective(x, y, j2, b2, k / 8, k % 8);
    }
}

/// A pixel buffer with every pixel off.
fn blank_grid() -> (v: Vec<bool>)
    ensures
        v@.len() == DISPLAY_PIXELS,
        forall|p: int| 0 <= p < DISPLAY_PIXELS ==> !v@[p],
{
    let mut v: Vec<bool> = Vec::new();
    for j in 0..DISPLAY_PIXELS
        invariant
            v@.len() == j,
            forall|p: int| 0 <= p < j ==> !v@[p],
    {
        v.push(false);
    }
    v
}

/// The monochrome pixel buffer, row-major, `DISPLAY_W * DISPLAY_H` cells.
pub struct Display {
    /// Pixel `(px, py)` is `grid[py * DISPLAY_W + px]`; `true` means lit.
    pub grid: Vec<bool>,
}

impl Display {
    /// The buffer always holds exactly one cell per pixel.
    pub open spec fn wf(self) -> bool {
        self.grid@.len() == DISPLAY_PIXELS
    }

    /// A display with every pixel off.
    pub fn new() -> (r: Self)
        ensures
            r.wf(),
            forall|p: int| 0 <= p < DISPLAY_PIXELS ==> !r.grid@[p],
    {
        Display { grid: blank_grid() }
    }

    /// Turns every pixel off.
    pub fn clear(&mut self)
        ensures
            final(self).wf(),
            forall|p: int| 0 <= p < DISPLAY_PIXELS ==> !final(self).grid@[p],
    {
        self.grid = blank_grid();
    }

    /// XOR-composites `sprite` at `(x, y)`, one byte per display row with the
    /// leftmost pixel in the top bit, wrapping both coordinates around the
    /// display edges; reports whether any pixel was erased (lit before and
    /// toggled off). A sprite has at most one byte per display row, so no
    /// pixel is toggled twice.
    pub fn draw(&mut self, x: u8, y: u8, sprite: &[u8]) -> (collided: bool)
        requires
            old(self).wf(),
            sprite@.len() <= DISPLAY_H,
        ensures
            final(self).wf(),
            final(self).grid@ == draw_grid(old(self).grid@, sprite@, x, y),
            collided == draw_collides(old(self).grid@, sprite@, x, y),
    {
        let ghost g0 = self.grid@;
        let ghost s = sprite@;
        let mut collided = false;
        let n = sprite.len();
        for j in 0..n
            invariant
                self.grid@.len() == DISPLAY_PIXELS,
                s.len() <= 32,
                n == s.len(),
                s == sprite@,
                g0.len() == DISPLAY_PIXELS,
                self.grid@ == grid_upto(g0, s, x, y, 8 * j),
                collided == collided_upto(g0, s, x, y, 8 * j),
        {
            let byte = sprite[j];
            let py = ((y as usize) + j) % 32;
            for b in 0..8usize
                invariant
                    self.grid@.len() == DISPLAY_PIXELS,
                    s.len() <= 32,
                    n == s.len(),
                    s == sprite@,
                    j < n,
                    g0.len() == DISPLAY_PIXELS,
                    byte == s[j as int],
                    py == wrap_row(y, j as int),
                    self.grid@ == grid_upto(g0, s, x, y, 8 * j + b),
                    collided == collided_upto(g0, s, x, y, 8 * j + b),
            {
                let ghost k = 8 * (j as int) + (b as int);
                proof {
                    lemma_fundamental_div_mod(k, 8);
                    assert(k / 8 == j as int && k % 8 == b as int);
                }
                let shift: u8 = (7 - b) as u8;
                let bit = (byte >> shift) & 1;
                proof {
                    assert((bit == 1) == sprite_bit(s[j as int], b as int));
                }
                if bit == 1 {
                    let px = ((x as usize) + b) % 64;
                    let idx = py * 64 + px;
                    let ghost idx_i = pixel_index(wrap_col(x, b as int), wrap_row(y, j as int));
                    proof {
                        assert(px == wrap_col(x, b as int));
                        assert(idx == idx_i);
                        assert(0 <= idx_i < DISPLAY_PIXELS);
                        lemma_first_touch(s, x, y, k);
                        assert(self.grid@[idx_i] == g0[idx_i]);
                    }
                    let old_pix = self.grid[idx];
                    self.grid[idx] = !old_pix;
                    if old_pix {
                        collided = true;
                    }
                    proof {
                        assert(old_pix == g0[idx_i]);
                        lemma_collided_unroll(g0, s, x, y, k);
                        assert(collided == collided_upto(g0, s, x, y, k + 1));
                        assert forall|p: int| 0 <= p < DISPLAY_PIXELS implies self.grid@[p]
                            == grid_upto(g0, s, x, y, k + 1)[p] by {
                            lemma_fundamental_div_mod(p, 64);
                            lemma_covered_unroll(s, x, y, k, p % 64, p / 64);
                            if p != idx_i {
                                assert(!(p % 64 == wrap_col(x, k % 8) && p / 64 == wrap_row(
                                    y,
                                    k / 8,
                                )));
                            }
                        }
                        assert(self.grid@ =~= grid_upto(g0, s, x, y, k + 1));
                    }
                } else {
                    proof {
                        lemma_collided_unroll(g0, s, x, y, k);
                        assert(collided == collided_upto(g0, s, x, y, k + 1));
                        assert forall|p: int| 0 <= p < DISPLAY_PIXELS implies self.grid@[p]
                            == grid_upto(g0, s, x, y, k + 1)[p] by {
                            lemma_covered_unroll(s, x, y, k, p % 64, p / 64);
                        }
                        assert(self.grid@ =~= grid_upto(g0, s, x, y, k + 1));
                    }
                }
            }
        }
        collided
    }
}

/// Whether key `key` is currently held down on a keypad whose key states are
/// `keys`; a key outside the keypad is never down.
pub open spec fn spec_key_down(keys: Seq<bool>, key: u8) -> bool {
    key < keys.len() && keys[key as int]
}

/// The sixteen-key boolean input state, plus at most one pending key press
/// that a waiting instruction can consume.
pub struct Keypad {
    /// `keys[k]` is `true` while key `k` is held down.
    pub keys: Vec<bool>,
    /// A key press the host has queued for the next wait-for-key instruction.
    pub pressed: Option<u8>,
}

impl Keypad {
    /// The keypad always has exactly one entry per key.
    pub open spec fn wf(self) -> bool {
        self.keys@.len() == NUM_KEYS
    }

    /// A keypad with no key down and no pending press.
    pub fn new() -> (r: Self)
        ensures
            r.wf(),
            forall|k: int| 0 <= k < NUM_KEYS ==> !r.keys@[k],
            r.pressed is None,
    {
        let mut keys: Vec<bool> = Vec::new();
        for j in 0..NUM_KEYS
            invariant
                keys@.len() == j,
                forall|k: int| 0 <= k < j ==> !keys@[k],
        {
            keys.push(false);
        }
        Keypad { keys, pressed: None }
    }

    /// Whether key `key` is currently held down.
    pub fn is_down(&self, key: u8) -> (r: bool)
        ensures
            r == spec_key_down(self.keys@, key),
    {
        (key as usize) < self.keys.len() && self.keys[key as usize]
    }

    /// Takes the pending key press, if any; non-blocking.
    pub fn poll_pressed(&mut self) -> (r: Option<u8>)
        ensures
            r == old(self).pressed,
            final(self).pressed is None,
            final(self).keys@ == old(self).keys@,
    {
        let r = self.pressed;
        self.pressed = None;
        r
    }
}

/// The capability bundle handed to the execution engine: the display and the
/// keypad. The random-byte source is reached separately, through
/// [`crate::engine`].
pub struct Io {
    /// The display capability.
    pub display: Display,
    /// The keypad capability.
    pub keypad: Keypad,
}

impl Io {
    /// Both capabilities structurally well-formed.
    pub open spec fn wf(self) -> bool {
        self.display.wf() && self.keypad.wf()
    }

    /// A blank display and an idle keypad.
    pub fn new() -> (r: Self)
        ensures
            r.wf(),
            forall|p: int| 0 <= p < DISPLAY_PIXELS ==> !r.display.grid@[p],
            forall|k: int| 0 <= k < NUM_KEYS ==> !r.keypad.keys@[k],
            r.keypad.pressed is None,
    {
        Io { display: Display::new(), keypad: Keypad::new() }
    }
}

} // verus!
