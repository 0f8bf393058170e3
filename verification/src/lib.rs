pub mod text;
pub mod model;
pub mod keys;
pub mod codepoints;
pub mod installed;
pub mod drop_paths;
pub mod preview;
pub mod natural;
pub mod layout;
pub mod controls;
pub mod shell;
pub mod animation;
pub mod font_blocks;
pub mod config_keys;
pub mod test_image;
pub mod installed_meta;
pub mod drop_zone;
pub mod home_panel;
pub mod project_files;
pub mod manifest_edit;
pub mod screens;
pub mod font_sample;
pub mod installed_scan;
pub mod import_settings_keys;
pub mod creation_flow;
pub mod import_files;
pub mod threshold_edit;
pub mod selection;
pub mod glyph_tools;
pub mod glyph_list_keys;
pub mod key_routing;
pub mod creation_preview;
pub mod welcome_text;
pub mod glyph_rows;
pub mod popups;
pub mod tweak_text;
pub mod creation_steps;
pub mod config_text;
pub mod tool_panel;
pub mod footer;
