[package]
name = "dbisam_fdw"
version = "0.1.0"
edition = "2021"
publish = false

[dependencies]
arrow = { version = "57", default-features = false }
pgrx = "=0.16.1"
supabase-wrappers = "=0.1.28"
