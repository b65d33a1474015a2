//! Wake-word session library: asset discovery for keyword and language
//! model files, validated selection of devices, languages and keywords,
//! and the state machine of a capture session with cooperative
//! cancellation. Audio capture and wake-word scoring themselves are done
//! by outside engines; this crate holds the logic that glues them
//! together and proves it correct.

pub mod assets;
pub mod keywords;
pub mod select;
pub mod session;
pub mod strutil;
