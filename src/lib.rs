//! A particle population whose churn drives allocation traffic, and the
//! records that an instrumented allocator emits for each allocation.
//!
//! All kinematic and colour quantities are fixed-point integers with six
//! decimal places: `UNIT` stands for one pixel, one pixel per tick, or a
//! colour channel at full intensity.

mod random;

pub mod event;
pub mod particle;
pub mod world;
