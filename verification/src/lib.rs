//! Eiger gives Puppeteer, Playwright and plain HTTP clients browsers of their own: it
//! launches Chrome, hands out sessions, watches and recycles them, passes the Chrome
//! DevTools Protocol on, and disguises pages. This library holds the decisions; what
//! talks to sockets, processes and files is around it.
pub mod api;
pub mod browser;
pub mod cdp;
pub mod config;
pub mod id;
pub mod json;
pub mod metrics;
pub mod pool;
pub mod proxy;
pub mod rate_limit;
pub mod rest;
pub mod span;
pub mod stealth;
pub mod text;
