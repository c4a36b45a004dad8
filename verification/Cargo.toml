[package]
name = "auth_bridge"
version = "0.1.0"
edition = "2021"
publish = false

[dependencies]
anyhow = "1"
bytes = "1"
clap = { version = "=4.4.18", features = ["derive"] }
crossbeam-skiplist = "=0.1.3"
futures = "0.3"
headers = "=0.4.2"
http-body-util = "=0.1.5"
hudsucker = { version = "=0.22.0", features = ["rcgen-ca", "rustls-client"] }
hyper = { version = "=1.6.0", features = ["full"] }
k8s-openapi = { version = "=0.22.0", features = ["latest"] }
kube = { version = "=0.93.1", features = ["runtime", "derive"] }
regorus = { version = "=0.2.8", default-features = false, features = ["arc", "base64", "base64url", "coverage", "crypto", "deprecated", "glob", "graph", "hex", "regex", "semver", "urlquery", "yaml"] }
schemars = "=0.8.22"
serde = { version = "1", features = ["derive"] }
serde_json = "1"
tokio = { version = "1", features = ["macros", "rt-multi-thread", "signal"] }
tracing-subscriber = "0.3"
url = "=2.5.4"
