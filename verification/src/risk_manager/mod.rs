pub mod checks;
pub mod inventory;
pub mod manager;
