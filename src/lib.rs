//! A headless terminal host's event fabric and its encoders: the session
//! event bus, the asciicast v3 recorder and the ALiS v1 live-stream encoder.
pub mod alis;
pub mod asciicast;
pub mod cli;
pub mod json;
pub mod session;
pub mod startup;
pub mod stream;
