pub mod multi;
