pub mod page;
