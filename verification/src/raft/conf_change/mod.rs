pub mod conf_change;
pub mod restore;
