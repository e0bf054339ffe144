pub mod checked;
pub mod unchecked;
