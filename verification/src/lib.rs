//! Verified core of the Pluely desktop assistant's OAuth sign-in and overlay
//! window handling: percent-encoding, callback parsing, PKCE values, the
//! in-memory table of sign-in flows and the window geometry rules.

pub mod text;
pub mod urlcode;
pub mod callback;
pub mod pkce;
pub mod token;
pub mod flow;
pub mod window;
pub mod startup;
pub mod signin;
