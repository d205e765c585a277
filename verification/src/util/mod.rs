pub mod addr;
pub mod bytes;
pub mod text;
