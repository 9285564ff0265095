//! The data-source side: typed response models, client configuration, the
//! endpoint URLs the client fetches, and the retry discipline applied to
//! every fetch.

pub mod config;
pub mod model;
pub mod urls;
pub mod utils;
