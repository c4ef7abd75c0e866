use vstd::prelude::*;

verus! {

/// `v · p · q / (r · s)` rounded down and held to `u32`; a zero divisor gives
/// `u32::MAX`, or 0 when the dividend is 0 too.
pub open spec fn scale_by(v: u32, p: u32, q: u32, r: u32, s: u32) -> u32 {
    let n = v * p * q;
    let d = r * s;
    if d == 0 {
        if n == 0 {
            0
        } else {
            u32::MAX
        }
    } else if n / d > u32::MAX {
        u32::MAX
    } else {
        (n / d) as u32
    }
}

/// The height in characters that keeps the picture's proportions at width `x`:
/// `x · (input height / input width) / (char height / char width)`.
pub open spec fn height_for_width(char_dimensions: (u32, u32), input_scale: (u32, u32), x: u32) -> u32 {
    scale_by(x, input_scale.1, char_dimensions.0, input_scale.0, char_dimensions.1)
}

/// The width in characters that keeps the picture's proportions at height `y`.
pub open spec fn width_for_height(char_dimensions: (u32, u32), input_scale: (u32, u32), y: u32) -> u32 {
    scale_by(y, input_scale.0, char_dimensions.1, input_scale.1, char_dimensions.0)
}

/// The output size in characters: what was specified, the other side derived
/// from the picture's proportions, and with nothing specified the largest size
/// with those proportions that fits in `output_scale_limit`.
pub open spec fn output_scale_spec(
    char_dimensions: (u32, u32),
    specified_output: (Option<u32>, Option<u32>),
    input_scale: (u32, u32),
    output_scale_limit: (u32, u32),
) -> (u32, u32) {
    match specified_output {
        (Some(x), Some(y)) => (x, y),
        (Some(x), None) => (x, height_for_width(char_dimensions, input_scale, x)),
        (None, Some(y)) => (width_for_height(char_dimensions, input_scale, y), y),
        (None, None) => {
            let h = height_for_width(char_dimensions, input_scale, output_scale_limit.0);
            if h > output_scale_limit.1 {
                (
                    width_for_height(char_dimensions, input_scale, output_scale_limit.1),
                    output_scale_limit.1,
                )
            } else {
                (output_scale_limit.0, h)
            }
        },
    }
}

fn scale(v: u32, p: u32, q: u32, r: u32, s: u32) -> (res: u32)
    ensures
        res == scale_by(v, p, q, r, s),
{
    proof {
        assert(v * p <= u32::MAX * u32::MAX) by (nonlinear_arith)
            requires
                v <= u32::MAX,
                p <= u32::MAX,
        ;
        assert(v * p * q <= (u32::MAX * u32::MAX) * u32::MAX) by (nonlinear_arith)
            requires
                v * p <= u32::MAX * u32::MAX,
                0 <= v * p,
                q <= u32::MAX,
        ;
        assert(r * s <= u32::MAX * u32::MAX) by (nonlinear_arith)
            requires
                r <= u32::MAX,
                s <= u32::MAX,
        ;
    }
    let n: u128 = v as u128 * p as u128 * q as u128;
    let d: u128 = r as u128 * s as u128;
    if d == 0 {
        if n == 0 {
            0
        } else {
            u32::MAX
        }
    } else if n / d > u32::MAX as u128 {
        u32::MAX
    } else {
        (n / d) as u32
    }
}

/// The output size in characters (see [`output_scale_spec`]).
pub fn output_scale(
    char_dimensions: (u32, u32),
    specified_output: (Option<u32>, Option<u32>),
    input_scale: (u32, u32),
    output_scale_limit: (u32, u32),
) -> (res: (u32, u32))
    ensures
        res == output_scale_spec(char_dimensions, specified_output, input_scale, output_scale_limit),
{
    match specified_output {
        (Some(x), Some(y)) => (x, y),
        (Some(x), None) => (
            x,
            scale(x, input_scale.1, char_dimensions.0, input_scale.0, char_dimensions.1),
        ),
        (None, Some(y)) => (
            scale(y, input_scale.0, char_dimensions.1, input_scale.1, char_dimensions.0),
            y,
        ),
        (None, None) => {
            let h = scale(
                output_scale_limit.0,
                input_scale.1,
                char_dimensions.0,
                input_scale.0,
                char_dimensions.1,
            );
            if h > output_scale_limit.1 {
                (
                    scale(
                        output_scale_limit.1,
                        input_scale.0,
                        char_dimensions.1,
                        input_scale.1,
                        char_dimensions.0,
                    ),
                    output_scale_limit.1,
                )
            } else {
                (output_scale_limit.0, h)
            }
        },
    }
}

/// Chooses the internal (sampling) size and the output size in characters.
///
/// The output size follows [`output_scale_spec`]; the internal size is four
/// times it on each side. Proportions are computed exactly in integers and
/// rounded down.
pub fn get_scale(
    char_dimensions: (u32, u32),
    specified_output: (Option<u32>, Option<u32>),
    input_scale: (u32, u32),
    output_scale_limit: (u32, u32),
) -> (res: ((u32, u32), (u32, u32)))
    requires
        output_scale_spec(char_dimensions, specified_output, input_scale, output_scale_limit).0 * 4
            <= u32::MAX,
        output_scale_spec(char_dimensions, specified_output, input_scale, output_scale_limit).1 * 4
            <= u32::MAX,
    ensures
        res.1 == output_scale_spec(
            char_dimensions,
            specified_output,
            input_scale,
            output_scale_limit,
        ),
        res.0.0 == res.1.0 * 4,
        res.0.1 == res.1.1 * 4,
        specified_output.0 matches Some(x) ==> res.1.0 == x,
        specified_output.1 matches Some(y) ==> res.1.1 == y,
        specified_output.0 is None && specified_output.1 is None ==> res.1.0
            <= output_scale_limit.0 && res.1.1 <= output_scale_limit.1,
{
    let output_scale = output_scale(char_dimensions, specified_output, input_scale, output_scale_limit);
    proof {
        if specified_output.0 is None && specified_output.1 is None {
            lemma_fits_limit(char_dimensions, input_scale, output_scale_limit);
        }
    }
    let internal_scale = (output_scale.0 * 4, output_scale.1 * 4);
    (internal_scale, output_scale)
}

/// When the height derived from the full width is too tall, the width derived
/// from the full height is no wider than the limit.
pub proof fn lemma_fits_limit(
    char_dimensions: (u32, u32),
    input_scale: (u32, u32),
    limit: (u32, u32),
)
    ensures
        height_for_width(char_dimensions, input_scale, limit.0) > limit.1 ==> width_for_height(
            char_dimensions,
            input_scale,
            limit.1,
        ) <= limit.0,
{
    let (cw, ch) = char_dimensions;
    let (iw, ih) = input_scale;
    let (lx, ly) = limit;
    let ny = lx * ih * cw;
    let dy = iw * ch;
    let nx = ly * iw * ch;
    let dx = ih * cw;
    if height_for_width(char_dimensions, input_scale, lx) > ly {
        assert(ny > 0) by {
            if ny == 0 {
                if dy != 0 {
                    assert(ny / dy == 0) by (nonlinear_arith)
                        requires
                            ny == 0,
                            dy > 0,
                    ;
                }
            }
        }
        assert(lx > 0 && ih > 0 && cw > 0) by (nonlinear_arith)
            requires
                ny == lx * ih * cw,
                ny > 0,
                lx >= 0,
                ih >= 0,
                cw >= 0,
        ;
        assert(dx > 0) by (nonlinear_arith)
            requires
                dx == ih * cw,
                ih > 0,
                cw > 0,
        ;
        if dy == 0 {
            assert(iw == 0 || ch == 0) by (nonlinear_arith)
                requires
                    dy == iw * ch,
                    dy == 0,
            ;
            assert(nx == 0) by (nonlinear_arith)
                requires
                    nx == ly * iw * ch,
                    iw == 0 || ch == 0,
            ;
            assert(nx / dx == 0) by (nonlinear_arith)
                requires
                    nx == 0,
                    dx > 0,
            ;
        } else {
            // ny / dy > ly, so ny >= (ly + 1) · dy
            assert(ny >= (ly + 1) * dy) by (nonlinear_arith)
                requires
                    dy > 0,
                    ny / dy > ly,
                    ny >= 0,
            ;
            assert(nx / dx < lx) by (nonlinear_arith)
                requires
                    dx > 0,
                    dy > 0,
                    ny == lx * ih * cw,
                    dx == ih * cw,
                    nx == ly * iw * ch,
                    dy == iw * ch,
                    ny >= (ly + 1) * dy,
                    ly >= 0,
                    lx >= 0,
            ;
        }
    }
}

} // verus!
