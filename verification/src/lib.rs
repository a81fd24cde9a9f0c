//! Risk accounting and position lifecycle for leveraged margin trading
//! over pooled liquidity.
//!
//! A trader deposits collateral, opens leveraged positions against a
//! liquidity pool and closes them again; what a position has gained or
//! lost by then moves between the trader's balance and the pool's
//! collateral. From the balances, the open positions, the oracle's prices
//! and the pools' spreads and swap rates the crate tells how solvent each
//! trader and each pool is, and lets a trader or a pool at risk be margin
//! called and stopped out.
//!
//! The modules, leaves first:
//!
//! - [`fixed`]: fixed-point numbers and parts-per-million ratios.
//! - [`primitives`], [`error`], [`position`]: identifiers, currencies,
//!   errors, positions and thresholds.
//! - [`tables`], [`index`]: the keyed collections that the ledger is
//!   built from.
//! - [`prices`], [`pools`]: what the protocol asks of a price oracle and
//!   of a registry of pools, and a simple implementation of each.
//! - [`resolver`]: ask and bid prices and values in USD.
//! - [`risk`]: profit, loss and swap of single positions, and checked
//!   sums over lists of positions.
//! - [`ledger`], [`transitions`]: the ledger as a mathematical value,
//!   its consistency, and what deposit, withdraw, open and close make
//!   of it.
//! - [`protocol`], [`lifecycle`], [`solvency`], [`safety`]: the ledger
//!   itself and the operations on it.
//! - [`laws`], [`round_trip`]: what holds of every ledger that the
//!   operations can reach.
//! - [`rpc`], [`variant`]: what the services around the ledger need.
//!
//! The oracle and the registry are the caller's: every operation takes
//! them as arguments and works with any implementation of
//! [`prices::PriceProvider`] and [`pools::LiquidityPools`].
//!
//! Every operation either does what its contract says or is refused
//! with an error and changes nothing. All arithmetic is checked; only
//! the application of a spread to a price saturates. A close moves what
//! the position realized as far as the trader's balance and the pool's
//! collateral go, so that neither ever falls below zero.

pub mod error;
pub mod fixed;
pub mod index;
pub mod laws;
pub mod ledger;
pub mod lifecycle;
pub mod pools;
pub mod position;
pub mod prices;
pub mod primitives;
pub mod protocol;
pub mod resolver;
pub mod risk;
pub mod round_trip;
pub mod rpc;
pub mod safety;
pub mod solvency;
pub mod tables;
pub mod transitions;
pub mod variant;
