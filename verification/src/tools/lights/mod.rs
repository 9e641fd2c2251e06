pub mod controller;
pub mod lights_info;
pub mod lights_set_color;
