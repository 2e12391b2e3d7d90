[package]
name = "webtor"
version = "0.1.0"
edition = "2021"
publish = false

[dependencies]
uuid = { version = "1", features = ["v4"] }
serde = { version = "1", features = ["derive"] }
thiserror = "1"
tokio = { version = "1", features = ["sync"] }
futures = "0.3"
tracing = "0.1"
wasm-bindgen = "0.2"
wasm-bindgen-futures = "0.4"
js-sys = "0.3"
web-sys = { version = "0.3", features = ["Window", "WorkerGlobalScope", "Crypto", "SubtleCrypto", "CryptoKey", "CryptoKeyPair", "AesGcmParams", "AesCbcParams", "HmacImportParams", "EcKeyGenParams", "EcKeyImportParams", "EcdhKeyDeriveParams", "EcdsaParams", "RsaHashedImportParams", "RsaPssParams", "WebSocket", "BinaryType", "MessageEvent", "ErrorEvent", "CloseEvent", "Event", "console", "Performance"] }
