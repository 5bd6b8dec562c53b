[package]
name = "deno_args"
version = "0.1.0"
edition = "2021"
publish = false

[dependencies]
deno_ast = { version = "=0.41.3", features = ["transpiling"] }
deno_config = { version = "=0.31.1", features = ["workspace", "sync"] }
deno_core = "=0.310.0"
deno_graph = "=0.81.3"
deno_lint = "=0.63.1"
deno_lockfile = "=0.22.0"
deno_npm = "=0.24.0"
deno_package_json = "=0.1.2"
deno_semver = "=0.5.16"
deno_terminal = "=0.2.3"
dotenvy = "=0.15.7"
eszip = "=0.76.0"
import_map = { version = "=0.20.1", features = ["ext"] }
log = "0.4"
once_cell = "1"
serde = { version = "=1.0.210", features = ["derive"] }
serde_json = "=1.0.128"
thiserror = "1"
url = "=2.5.8"
