//! Tolerance-equality composition over the library's fold, with the
//! per-component outcomes computed by the `approx` comparisons on f32.

use aggregate_codec::tolerance::{all_components, any_component};
use approx::{AbsDiffEq, UlpsEq};

fn abs_eq_flags(a: &[f32], b: &[f32]) -> Vec<bool> {
    let mut flags = Vec::new();
    for i in 0..a.len() {
        flags.push(a[i].abs_diff_eq(&b[i], f32::default_epsilon()));
    }
    flags
}

fn abs_ne_flags(a: &[f32], b: &[f32]) -> Vec<bool> {
    let mut flags = Vec::new();
    for i in 0..a.len() {
        flags.push(a[i].abs_diff_ne(&b[i], f32::default_epsilon()));
    }
    flags
}

fn ulps_eq_flags(a: &[f32], b: &[f32]) -> Vec<bool> {
    let mut flags = Vec::new();
    for i in 0..a.len() {
        flags.push(a[i].ulps_eq(&b[i], f32::default_epsilon(), f32::default_max_ulps()));
    }
    flags
}

fn ulps_ne_flags(a: &[f32], b: &[f32]) -> Vec<bool> {
    let mut flags = Vec::new();
    for i in 0..a.len() {
        flags.push(a[i].ulps_ne(&b[i], f32::default_epsilon(), f32::default_max_ulps()));
    }
    flags
}

const UNIT_X2: [f32; 2] = [1.0, 0.0];
const UNIT_Y2: [f32; 2] = [0.0, 1.0];
const UNIT_X3: [f32; 3] = [1.0, 0.0, 0.0];
const UNIT_Y3: [f32; 3] = [0.0, 1.0, 0.0];
const UNIT_X4: [f32; 4] = [1.0, 0.0, 0.0, 0.0];
const UNIT_Y4: [f32; 4] = [0.0, 1.0, 0.0, 0.0];

#[test]
fn abs_diff_eq_vec() {
    assert!(all_components(&abs_eq_flags(&UNIT_X2, &UNIT_X2)));
    assert!(all_components(&abs_eq_flags(&UNIT_X3, &UNIT_X3)));
    assert!(all_components(&abs_eq_flags(&UNIT_X4, &UNIT_X4)));
}

#[test]
fn abs_diff_ne_vec() {
    assert!(any_component(&abs_ne_flags(&UNIT_X2, &UNIT_Y2)));
    assert!(any_component(&abs_ne_flags(&UNIT_X3, &UNIT_Y3)));
    assert!(any_component(&abs_ne_flags(&UNIT_X4, &UNIT_Y4)));
}

#[test]
fn ulps_eq_vec() {
    assert!(all_components(&ulps_eq_flags(&UNIT_X2, &UNIT_X2)));
    assert!(all_components(&ulps_eq_flags(&UNIT_X3, &UNIT_X3)));
    assert!(all_components(&ulps_eq_flags(&UNIT_X4, &UNIT_X4)));
}

#[test]
fn ulps_ne_vec() {
    assert!(any_component(&ulps_ne_flags(&UNIT_X2, &UNIT_Y2)));
    assert!(any_component(&ulps_ne_flags(&UNIT_X3, &UNIT_Y3)));
    assert!(any_component(&ulps_ne_flags(&UNIT_X4, &UNIT_Y4)));
}

#[test]
fn abs_diff_boundary_inclusive() {
    // A difference of exactly epsilon in one component still compares
    // equal: the scalar comparison is |a - b| <= epsilon.
    let eps: f32 = 0.5;
    let a: [f32; 2] = [1.0, 2.0];
    let b: [f32; 2] = [1.5, 2.0];
    let mut flags = Vec::new();
    for i in 0..2 {
        flags.push(a[i].abs_diff_eq(&b[i], eps));
    }
    assert!(all_components(&flags));

    // Just past the boundary it does not.
    let c: [f32; 2] = [1.75, 2.0];
    let mut flags2 = Vec::new();
    for i in 0..2 {
        flags2.push(a[i].abs_diff_eq(&c[i], eps));
    }
    assert!(!all_components(&flags2));
}

#[test]
fn empty_folds() {
    let none: Vec<bool> = Vec::new();
    assert!(all_components(&none));
    assert!(!any_component(&none));
}
