[package]
name = "epochs"
version = "0.1.0"
edition = "2021"
publish = false

[dependencies]
tiny-keccak = { version = "*", features = ["keccak"] }
libsecp256k1 = "*"
getrandom = "*"
ethabi = "*"
serde = { version = "*", features = ["derive"] }
serde_json = "*"
structopt = "*"

[dev-dependencies]
rlp = "*"
