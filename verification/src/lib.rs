//! Hangul jamo arithmetic, Nalgaeset unit resolution and IBus key routing.
#![allow(unused_imports)]

use vstd::prelude::*;

pub mod jamo;
pub mod text;
pub mod unit;
pub mod addr;
pub mod engine;
pub mod ibus_text;
