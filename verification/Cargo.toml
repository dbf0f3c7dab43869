[package]
name = "git_blame_pr"
version = "0.1.0"
edition = "2021"
publish = false

[dependencies]
git-blame-parser = "*"
regex = "1"
