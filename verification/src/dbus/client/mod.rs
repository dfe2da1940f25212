pub mod mpris;
pub mod powerdevil;
