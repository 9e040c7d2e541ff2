pub mod dodo;
