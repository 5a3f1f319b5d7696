pub mod blink;
pub mod gecko;
pub mod harness;
pub mod manifest;
pub mod text;
pub mod urls;
pub mod webkit;
