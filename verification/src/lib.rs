pub mod atlas;
pub mod buffers;
pub mod clip;
pub mod graphics;
pub mod id_map;
pub mod input;
pub mod material;
pub mod mixer;
pub mod msaa;
pub mod names;
pub mod player;
pub mod render_target;
pub mod resolution;
pub mod texture;
pub mod uniform;
pub mod uniform_layout;
pub mod uniform_values;
pub mod wav;
pub mod render_plan;
pub mod game_settings;
