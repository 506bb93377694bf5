//! The display adapter's value mapping: field values are clamped to the
//! unit interval and scaled to a byte intensity. Clamping is this
//! adapter's responsibility, not the simulation core's — the fields may
//! legitimately hold values outside the unit interval.

use vstd::prelude::*;
use crate::fixed::SCALE;
use crate::grid::Grid;

verus! {

/// The grey intensity a field value is displayed with: values below zero
/// clamp to black, values above one unit clamp to white, and the rest map
/// linearly onto `0..=255`.
pub open spec fn intensity_of(x: int) -> int {
    if x < 0 {
        0
    } else if x > SCALE {
        255
    } else {
        (x * 255) / (SCALE as int)
    }
}

/// Clamps one field value and scales it to a byte intensity.
pub fn to_intensity(value: i64) -> (b: u8)
    ensures
        b as int == intensity_of(value as int),
{
    if value < 0 {
        0
    } else if value > SCALE {
        255
    } else {
        proof {
            vstd::arithmetic::div_mod::lemma_div_is_ordered(
                value as int * 255,
                SCALE as int * 255,
                SCALE as int,
            );
            vstd::arithmetic::div_mod::lemma_div_by_multiple(255, SCALE as int);
        }
        (((value as u64) * 255) / (SCALE as u64)) as u8
    }
}

/// The whole field as greyscale texture data: four identical channel bytes
/// per cell, row-major, each the clamped intensity of that cell.
pub fn to_rgba(field: &Grid) -> (data: Vec<u8>)
    requires
        field.wf(),
    ensures
        data@.len() == 4 * field.sview().len(),
        forall|i: int|
            0 <= i < field.sview().len() ==> {
                let v = intensity_of(#[trigger] field.sview()[i]);
                data@[4 * i] == v && data@[4 * i + 1] == v && data@[4 * i + 2] == v && data@[4 * i
                    + 3] == v
            },
{
    let h = field.height();
    let w = field.width();
    let mut data: Vec<u8> = Vec::new();
    let mut r: usize = 0;
    while r < h
        invariant
            r <= h,
            field.wf(),
            w == field.width_spec(),
            h == field.height_spec(),
            data@.len() == 4 * (r * w),
            forall|i: int|
                0 <= i < r * w ==> {
                    let v = intensity_of(#[trigger] field.sview()[i]);
                    data@[4 * i] == v && data@[4 * i + 1] == v && data@[4 * i + 2] == v && data@[4
                        * i + 3] == v
                },
        decreases h - r,
    {
        let mut c: usize = 0;
        while c < w
            invariant
                r < h,
                c <= w,
                field.wf(),
                w == field.width_spec(),
                h == field.height_spec(),
                data@.len() == 4 * (r * w + c),
                forall|i: int|
                    0 <= i < r * w + c ==> {
                        let v = intensity_of(#[trigger] field.sview()[i]);
                        data@[4 * i] == v && data@[4 * i + 1] == v && data@[4 * i + 2] == v
                            && data@[4 * i + 3] == v
                    },
            decreases w - c,
        {
            proof {
                crate::grid::lemma_index_fits(w as int, h as int, r as int, c as int);
            }
            let value = field.get(r, c);
            let b = to_intensity(value);
            data.push(b);
            data.push(b);
            data.push(b);
            data.push(b);
            c = c + 1;
        }
        proof {
            assert(r * w + w == (r + 1) * w) by (nonlinear_arith);
        }
        r = r + 1;
    }
    proof {
        assert(h * w == w * h) by (nonlinear_arith);
    }
    data
}

} // verus!
