//! The verified core of a Bluesky hashtag widget: the session cache and the
//! decision procedure that keeps an access credential usable (reuse, refresh,
//! or log in, one run at a time), the retry policy around downstream calls,
//! the persisted session record, and the request parameters and HTML pages.

pub mod config;
pub mod error;
pub mod escape;
pub mod html;
pub mod numeric;
pub mod order;
pub mod params;
pub mod record;
pub mod render;
pub mod retry;
pub mod search;
pub mod session;
pub mod text;
pub mod token;
pub mod transport;
