[package]
name = "living_terrain"
version = "0.1.0"
edition = "2021"
publish = false

[dependencies]
bevy = { version = "=0.18.1", default-features = false, features = ["std", "bevy_asset", "bevy_state", "bevy_window", "bevy_color", "bevy_image", "bevy_mesh", "bevy_camera", "bevy_shader", "bevy_render", "bevy_core_pipeline", "bevy_sprite", "bevy_sprite_render", "bevy_text", "bevy_ui", "bevy_ui_render", "bevy_input_focus", "bevy_picking", "experimental_bevy_feathers", "default_font"] }
avian2d = { version = "=0.5.0", default-features = false, features = ["2d", "f32", "parry-f32", "debug-plugin", "xpbd_joints"] }
clap = { version = "=4.6.7", default-features = false, features = ["std", "derive"] }
log = "=0.4.34"
