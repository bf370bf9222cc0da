//! Signbus: a layered point-to-point message protocol for modules that share
//! an I2C bus, with fragmentation of long messages, reassembly of inbound
//! chains and a GPIO handshake that obtains exclusive use of the bus.
pub mod app_layer;
pub mod io_layer;
pub mod port_layer;
pub mod protocol_layer;
pub mod signbus_init;
pub mod support;
