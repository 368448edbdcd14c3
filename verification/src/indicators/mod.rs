//! Technical indicators over a series of closing prices. Each returns one entry per
//! close, `None` during the warm-up window.
pub mod bollinger;
pub mod ema;
pub mod macd;
pub mod rsi;
pub mod sma;
pub mod series;
