pub mod markup;
pub mod views;
