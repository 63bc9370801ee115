//! Pricing and state engine of a binary prediction market whose prices come
//! from a logarithmic market scoring rule evaluated in fixed point.
//!
//! * [`math_safe`]: checked arithmetic, the fixed-point series, the cost
//!   function with its prices and quotes, the fee rule and the validators.
//! * [`monotone`]: how the series, the cost and the quotes grow.
//! * [`solver`]: the number of shares that an amount of collateral buys.
//! * [`market`]: the market record and its operations; [`laws`] states what
//!   holds of them over every state.
//! * [`storage`], [`title`], [`event`]: the record as words, titles as
//!   words, and the event log for the host.
//!
//! Every function carries a contract over a mathematical model of its
//! arguments, and every contract is proved. No function here panics.

pub mod config;
pub mod error;
pub mod event;
pub mod laws;
pub mod market;
pub mod math_safe;
pub mod monotone;
pub mod solver;
pub mod storage;
pub mod title;
