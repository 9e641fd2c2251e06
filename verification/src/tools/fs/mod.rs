pub mod file_edit;
pub mod file_read;
pub mod grep;
pub mod glob;
pub mod file_read_image;
pub mod file_read_raw;
pub mod directory_make;
pub mod file_move;
pub mod file_write;
