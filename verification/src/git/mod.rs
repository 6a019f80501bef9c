pub mod command;
pub mod commit;
pub mod numstat;
pub mod repo;
pub mod status;
