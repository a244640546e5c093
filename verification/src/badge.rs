//! The taskbar unread indicator: where it exists, and its 16x16 red dot, as an icon's AND
//! mask and BGRA pixels.
use vstd::prelude::*;

verus! {

/// Taskbar badges exist on Windows alone; `target_os` names the platform as Rust does.
pub fn supported(target_os: &str) -> (r: bool)
    ensures
        r == (target_os@ == "windows"@),
{
    crate::text::str_eq(target_os, "windows")
}

/// What `set` answers where badges do not exist.
pub open spec fn unsupported_message() -> &'static str {
    "App icon badges are currently available on Windows."
}

/// Whether a badge can be set on `target_os`, or the message that says it cannot.
pub fn availability(target_os: &str) -> (r: Result<(), &'static str>)
    ensures
        r is Ok <==> target_os@ == "windows"@,
        r is Err ==> r == Err::<(), &'static str>(unsupported_message()),
{
    if supported(target_os) {
        Ok(())
    } else {
        Err("App icon badges are currently available on Windows.")
    }
}

/// The dot's colour, as blue, green, red, alpha.
pub open spec fn dot_color(c: int) -> u8 {
    if c == 0 {
        74
    } else if c == 1 {
        70
    } else if c == 2 {
        237
    } else {
        255
    }
}

/// Whether pixel (x, y) lies in the dot: within radius 7 of the icon's centre (7.5, 7.5).
pub open spec fn inside(x: int, y: int) -> bool {
    (x * 2 - 15) * (x * 2 - 15) + (y * 2 - 15) * (y * 2 - 15) <= 196
}

/// Whether bit `b` of `v` is clear.
pub open spec fn bit_clear(v: u8, b: int) -> bool {
    (v >> (b as u8)) & 1 == 0
}

/// Channel `c` of pixel `p` in a BGRA buffer.
pub open spec fn channel(pixels: Seq<u8>, p: int, c: int) -> u8 {
    pixels[p * 4 + c]
}

pub open spec fn in_dot_spec(x: usize, y: usize) -> bool {
    inside(x as int, y as int)
}

fn in_dot(x: usize, y: usize) -> (r: bool)
    requires
        x < 16,
        y < 16,
    ensures
        r == inside(x as int, y as int),
{
    let dx: i32 = x as i32 * 2 - 15;
    let dy: i32 = y as i32 * 2 - 15;
    assert(0 <= dx * dx <= 225 && 0 <= dy * dy <= 225) by (nonlinear_arith)
        requires
            -15 <= dx <= 15,
            -15 <= dy <= 15,
    ;
    dx * dx + dy * dy <= 196
}

proof fn lemma_clear_bit(v: u8, k: u8, j: u8)
    requires
        k < 8,
        j < 8,
    ensures
        ((v & !(1u8 << k)) >> j) & 1 == if j == k {
            0
        } else {
            (v >> j) & 1
        },
{
    assert(((v & !(1u8 << k)) >> j) & 1 == if j == k {
        0
    } else {
        (v >> j) & 1
    }) by (bit_vector)
        requires
            k < 8,
            j < 8,
    ;
}

proof fn lemma_full_byte(b: int)
    requires
        0 <= b < 8,
    ensures
        !bit_clear(255u8, b),
{
    let bb = b as u8;
    assert((255u8 >> bb) & 1 == 1) by (bit_vector)
        requires
            bb < 8,
    ;
}

/// The icon of the unread indicator: a mask byte holds eight pixels of a row, highest bit
/// first, and a pixel's mask bit is clear where the dot covers it; a covered pixel has the
/// dot's colour and every other pixel is transparent black.
pub fn dot() -> (r: ([u8; 32], [u8; 1024]))
    ensures
        forall|i: int, b: int|
            0 <= i < 32 && 0 <= b < 8 ==> #[trigger] bit_clear(r.0@[i], b) == inside(
                (i % 2) * 8 + (7 - b),
                i / 2,
            ),
        forall|p: int, c: int|
            0 <= p < 256 && 0 <= c < 4 ==> #[trigger] channel(r.1@, p, c) == if inside(p % 16, p / 16) {
                dot_color(c)
            } else {
                0
            },
{
    let mut mask = [255u8; 32];
    let mut pixels = [0u8; 1024];
    let mut y: usize = 0;
    while y < 16
        invariant
            y <= 16,
            forall|i: int, b: int|
                0 <= i < 2 * y && 0 <= b < 8 ==> #[trigger] bit_clear(mask@[i], b)
                    == inside((i % 2) * 8 + (7 - b), i / 2),
            forall|i: int| 2 * y <= i < 32 ==> #[trigger] mask@[i] == 255,
            forall|p: int, c: int|
                0 <= p < 16 * y && 0 <= c < 4 ==> #[trigger] channel(pixels@, p, c) == if inside(
                    p % 16,
                    p / 16,
                ) {
                    dot_color(c)
                } else {
                    0
                },
            forall|q: int| 64 * y <= q < 1024 ==> #[trigger] pixels@[q] == 0,
        decreases 16 - y,
    {
        proof {
            assert forall|i: int, b: int| 2 * y <= i < 2 * y + 2 && 0 <= b < 8 implies #[trigger] bit_clear(mask@[i], b)
                == ((i % 2) * 8 + (7 - b) < 0 && inside((i % 2) * 8 + (7 - b), i / 2)) by {
                lemma_full_byte(b);
            }
        }
        let mut x: usize = 0;
        while x < 16
            invariant
                y < 16,
                x <= 16,
                forall|i: int, b: int|
                    0 <= i < 2 * y && 0 <= b < 8 ==> #[trigger] bit_clear(mask@[i], b)
                        == inside((i % 2) * 8 + (7 - b), i / 2),
                forall|i: int| 2 * y + 2 <= i < 32 ==> #[trigger] mask@[i] == 255,
                forall|i: int, b: int|
                    2 * y <= i < 2 * y + 2 && 0 <= b < 8 ==> #[trigger] bit_clear(mask@[i], b) == ((i % 2) * 8 + (7 - b) < x && inside((i % 2) * 8 + (7 - b), i / 2)),
                forall|p: int, c: int|
                    0 <= p < 16 * y + x && 0 <= c < 4 ==> #[trigger] channel(pixels@, p, c) == if inside(
                        p % 16,
                        p / 16,
                    ) {
                        dot_color(c)
                    } else {
                        0
                    },
                forall|q: int| 64 * y + 4 * x <= q < 1024 ==> #[trigger] pixels@[q] == 0,
            decreases 16 - x,
        {
            let ghost before_mask = mask@;
            let ghost before_pixels = pixels@;
            if in_dot(x, y) {
                let i = y * 2 + x / 8;
                let k = (7 - x % 8) as u8;
                let old_byte = mask[i];
                mask[i] = old_byte & !(1u8 << k);
                proof {
                    let ii = i as int;
                    assert(ii % 2 == x as int / 8);
                    assert(ii / 2 == y as int);
                    assert forall|b: int| 0 <= b < 8 implies bit_clear(mask@[ii], b) == ((ii % 2) * 8
                        + (7 - b) < x + 1 && inside((ii % 2) * 8 + (7 - b), ii / 2)) by {
                        lemma_clear_bit(old_byte, k, b as u8);
                        assert(bit_clear(before_mask[ii], b) == ((ii % 2) * 8 + (7 - b) < x && inside(
                            (ii % 2) * 8 + (7 - b),
                            ii / 2,
                        )));
                        if b == k as int {
                            assert((ii % 2) * 8 + (7 - b) == x as int);
                        } else {
                            assert((ii % 2) * 8 + (7 - b) != x as int);
                        }
                    }
                }
                let base = (y * 16 + x) * 4;
                pixels[base] = 74;
                pixels[base + 1] = 70;
                pixels[base + 2] = 237;
                pixels[base + 3] = 255;
            }
            proof {
                let pp = (y * 16 + x) as int;
                assert(pp % 16 == x as int);
                assert(pp / 16 == y as int);
                assert forall|p: int, c: int| 0 <= p < 16 * y + x + 1 && 0 <= c < 4 implies #[trigger] channel(
                    pixels@,
                    p,
                    c,
                ) == if inside(p % 16, p / 16) {
                    dot_color(c)
                } else {
                    0
                } by {
                    if p < pp {
                        assert(channel(before_pixels, p, c) == channel(pixels@, p, c));
                    }
                }
                assert forall|i: int, b: int| 2 * y <= i < 2 * y + 2 && 0 <= b < 8 && !(in_dot_spec(x, y) && i == y * 2 + x / 8) implies #[trigger] bit_clear(mask@[i], b)
                    == ((i % 2) * 8 + (7 - b) < x + 1 && inside((i % 2) * 8 + (7 - b), i / 2)) by {
                    assert(bit_clear(before_mask[i], b) == ((i % 2) * 8 + (7 - b) < x && inside(
                        (i % 2) * 8 + (7 - b),
                        i / 2,
                    )));
                    assert(mask@[i] == before_mask[i]);
                    if (i % 2) * 8 + (7 - b) == x as int {
                        assert(i == y * 2 + x / 8);
                    }
                }
            }
            x = x + 1;
        }
        y = y + 1;
    }
    (mask, pixels)
}

} // verus!
