pub mod uuid;
