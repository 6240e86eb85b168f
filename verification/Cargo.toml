[package]
name = "daedalus_caps"
version = "0.1.0"
edition = "2021"
publish = false

[dependencies]
hashbrown = "=0.15.5"
linked_list_allocator = "=0.10.6"
