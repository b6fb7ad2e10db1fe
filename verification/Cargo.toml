[package]
name = "rusty_engine"
version = "0.1.0"
edition = "2021"
publish = false

[dependencies]
ahash = "=0.7.8"
bevy = { version = "=0.6.1", default-features = false, features = ["render"] }
bevy_kira_audio = "=0.8.0"
bevy_prototype_lyon = "=0.4.0"
bevy_svg = "=0.6.0"
# No code uses darling. Bevy 0.6's derive crates (bevy_derive,
# bevy_reflect_derive) need syn's "full" feature without asking for it; among
# today's crates only darling's macros turn it on, and without it Bevy does
# not build.
darling = "=0.13.4"
log = "=0.4.35"
