pub mod file_manipulation;
pub mod file_navigation;
pub mod modes;
