[package]
name = "vault_gateway"
version = "0.1.0"
edition = "2021"
publish = false

[dependencies]
candid = "*"
ic-cdk = "*"
icrc-ledger-types = "*"
