//! Model of the SparkFun button pad controller driven over a bit-banged SPI bus.

pub mod wire;
pub mod controller;
pub mod keypad;
pub mod transaction;
