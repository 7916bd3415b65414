//! Facts about where sprite pixels land on the wrapping screen.
use vstd::prelude::*;
use crate::machine::{
    Machine, SCREEN_HEIGHT, SCREEN_SIZE, SCREEN_WIDTH, draw_target, sprite_bit, sprite_col,
    sprite_covers, sprite_row,
};

verus! {

/// The position of pixel `idx` within the sprite, row by row: `8 * row + col`.
pub open spec fn sprite_order(vx: u8, vy: u8, idx: int) -> int {
    8 * sprite_row(vy, idx) + sprite_col(vx, idx)
}

/// Pixel `idx` is flipped by one of the first `k` sprite pixels.
pub open spec fn covered_before(s: Machine, vx: u8, vy: u8, n: int, idx: int, k: int) -> bool {
    sprite_covers(s, vx, vy, n, idx) && sprite_order(vx, vy, idx) < k
}

/// Sprite row `r` and column `c` land on a pixel of the screen, and that pixel
/// is the only one whose sprite coordinates are `(r, c)`.
pub proof fn lemma_target(vx: u8, vy: u8, r: int, c: int)
    requires
        0 <= r < SCREEN_HEIGHT,
        0 <= c < 8,
    ensures
        0 <= draw_target(vx, vy, r, c) < SCREEN_SIZE,
        sprite_col(vx, draw_target(vx, vy, r, c)) == c,
        sprite_row(vy, draw_target(vx, vy, r, c)) == r,
        forall|idx: int|
            0 <= idx < SCREEN_SIZE && #[trigger] sprite_col(vx, idx) == c && sprite_row(vy, idx) == r
                ==> idx == draw_target(vx, vy, r, c),
{
    let a = (vx + c) % 64;
    let b = (vy + r) % 32;
    let t = draw_target(vx, vy, r, c);
    assert(t == a + 64 * b);
    assert(0 <= a < 64 && 0 <= b < 32);
    assert(t % 64 == a && t / 64 == b) by (nonlinear_arith)
        requires t == a + 64 * b, 0 <= a < 64, 0 <= b < 32;
    assert((a - vx) % 64 == c) by (nonlinear_arith)
        requires a == (vx + c) % 64, 0 <= c < 8;
    assert((b - vy) % 32 == r) by (nonlinear_arith)
        requires b == (vy + r) % 32, 0 <= r < 32;
    assert forall|idx: int|
        0 <= idx < SCREEN_SIZE && #[trigger] sprite_col(vx, idx) == c && sprite_row(vy, idx) == r
        implies idx == t by {
        let a2 = idx % 64;
        let b2 = idx / 64;
        assert(idx == a2 + 64 * b2 && 0 <= a2 < 64 && 0 <= b2 < 32) by (nonlinear_arith)
            requires a2 == idx % 64, b2 == idx / 64, 0 <= idx < 2048;
        assert(a2 == a) by (nonlinear_arith)
            requires (a2 - vx) % 64 == c, 0 <= a2 < 64, a == (vx + c) % 64;
        assert(b2 == b) by (nonlinear_arith)
            requires (b2 - vy) % 32 == r, 0 <= b2 < 32, b == (vy + r) % 32;
    }
}

/// Two sprite pixels with the same position in the sprite are the same pixel.
pub proof fn lemma_order_unique(vx: u8, vy: u8, idx: int, r: int, c: int)
    requires
        0 <= idx < SCREEN_SIZE,
        0 <= r < SCREEN_HEIGHT,
        0 <= c < 8,
        sprite_col(vx, idx) < 8,
        sprite_order(vx, vy, idx) == 8 * r + c,
    ensures
        idx == draw_target(vx, vy, r, c),
{
    let c2 = sprite_col(vx, idx);
    let r2 = sprite_row(vy, idx);
    assert(0 <= c2 && 0 <= r2);
    assert(c2 == c && r2 == r);
    lemma_target(vx, vy, r, c);
}

} // verus!
