//! File sizes given as an amount and a decimal (SI) unit, parsed from
//! command-line style arguments and converted to a byte count.
pub mod decimal;
pub mod size;
