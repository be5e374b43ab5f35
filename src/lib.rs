//! Cart price-override transform: reads a checkout cart document, resolves the
//! add-on price of each line item and emits the price overrides as JSON text.

pub mod json;
pub mod decimal;
pub mod cart;
pub mod addon;
pub mod transform;
pub mod laws;

pub use transform::processCart;
