[package]
name = "static_prop_init"
version = "0.1.0"
edition = "2021"
publish = false

[dependencies]
oxc_allocator = "=0.44.0"
oxc_ast = "=0.44.0"
oxc_index = "=2.0.0"
oxc_semantic = "=0.44.0"
oxc_span = "=0.44.0"
oxc_syntax = "=0.44.0"
oxc_traverse = "=0.44.0"
