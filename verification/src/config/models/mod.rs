pub mod action;
pub mod cpu_load_polling;
pub mod policies;
