//! A terminal fetch-style display library: styled text fragments, declarative
//! value resolution, and bordered box/table rendering with ANSI color codes.

pub mod error;
pub mod strutil;
pub mod style;
pub mod text;
pub mod layout;
pub mod config;
pub mod resolve;
pub mod compose;

pub use style::Color;
pub use style::Style;
