[package]
name = "keepassrx"
version = "0.1.0"
edition = "2021"
publish = false

[dependencies]
uuid = { version = "1", features = ["v4", "v5"] }
unicase = "2"
deunicode = "1"
regex = "1"
fuzzy-matcher = "0.3"
infer = "*"
base64 = "0.22"
serde_json = "1"
totp-rs = { version = "5", features = ["steam"] }
uriparse = "0.6"
querystring = "1"
keepass = { version = "*", features = ["totp"] }
humanize-duration = "*"
anyhow = "1"
zeroize = { version = "1", features = ["derive"] }
indexmap = "2"
dirs = "*"
palette = "0.7"
libsodium-rs = "*"
aes-gcm = "0.10"
scrypt = "0.11"
keyring = "*"
secstr = "0.5"
log = "0.4"
simplelog = "0.12"
walkdir = "2"
syn = { version = "2", features = ["full"] }
quote = "1"
proc-macro2 = "1"
gettext-rs = { version = "*", default-features = false, features = ["gettext-system"] }
