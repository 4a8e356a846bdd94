//! Battery monitoring for Bluetooth Low Energy peripherals: the decisions of
//! the monitoring subsystem, stated as contracts and proved.

pub mod aggregator;
pub mod battery;
pub mod devices;
pub mod history;
pub mod licenses;
pub mod logfmt;
pub mod monitor;
pub mod reader;
pub mod registry;
pub mod resolver;
pub mod select;
pub mod storage;
pub mod text;
pub mod tray;
pub mod watcher;
pub mod worker;
