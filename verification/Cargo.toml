[package]
name = "fleet_deploy"
version = "0.1.0"
edition = "2021"
publish = false

[dependencies]
http = "0.1"
chrono = "0.4"
clap = { version = "2", features = ["yaml"] }
futures = "0.1"
log = "0.4"
prettytable-rs = "0.8"
timeago = "*"
yaml-rust = "0.4"
rusoto_core = { version = "0.42", default-features = false, features = ["rustls"] }
rusoto_autoscaling = { version = "0.42", default-features = false, features = ["rustls"] }
rusoto_cloudwatch = { version = "0.42", default-features = false, features = ["rustls"] }
rusoto_ec2 = { version = "0.42", default-features = false, features = ["rustls"] }
rusoto_elb = { version = "0.42", default-features = false, features = ["rustls"] }
rusoto_s3 = { version = "0.42", default-features = false, features = ["rustls"] }
