//! Shopping cart and checkout-session reconciliation for a storefront whose
//! catalog and payment sessions live at an outside payment provider.
pub mod catalog;
pub mod cart;
pub mod session;
pub mod checkout;
pub mod shipping;
