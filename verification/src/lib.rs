//! Market data, portfolio valuation, technical indicators and alert rules for a
//! desktop stock and crypto tracker.
pub mod decimal;
pub mod money;
pub mod text;
pub mod asset;
pub mod symbol;
pub mod conversation;
pub mod watchlist;
pub mod percent;
pub mod price;
pub mod quantity;
pub mod time;
pub mod candle;
pub mod holding;
pub mod portfolio;
pub mod quote;
pub mod alert;
pub mod sanity;
pub mod fx;
pub mod assoc;
pub mod portfolio_calc;
pub mod averaging_down;
pub mod indicators;
pub mod prompt;
pub mod ports;
pub mod market_service;
pub mod breakeven;
pub mod indicator_service;
pub mod alert_service;
pub mod ai_service;
pub mod settings_service;
pub mod fx_refresh;
pub mod ipc;
pub mod portfolio_service;
