//! A fixed-latency audio delay line: a fixed-capacity circular buffer with
//! one write cursor, and a per-sample feedback delay tick built on it.

pub mod delay;
