//! Clipboard translation library.
//!
//! Verified core of a clipboard/selection watcher that sends sampled text to a
//! remote machine-translation provider and renders the result. The library
//! holds everything that decides or computes: text sanitization, language-code
//! mapping, request planning (which provider endpoint to call, with which URL,
//! body and headers), and normalization of the providers' response shapes into
//! a common sequence of translation records. Network transport, clipboard
//! access and terminal rendering live outside the library and exchange plain
//! values with it.

pub mod errors;
pub mod lang;
pub mod request;
pub mod response;
pub mod text;
