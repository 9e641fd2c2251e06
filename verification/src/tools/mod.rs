pub mod directory_list;
pub mod exec;
pub mod file_edit;
pub mod file_move;
pub mod file_read;
pub mod file_write;
pub mod fs;
pub mod glob;
pub mod ieee1905_bench;
pub mod lights;
pub mod lights_info;
pub mod other;
