//! Command encoding, reply handling and tool sequencing for a small rover
//! that is driven over HTTP, kept free of any I/O: callers make the requests
//! this crate describes and hand back what came of them.
//!
//! - [`numeral`]: the grammar of a JSON number, and its recognizer.
//! - [`speed`]: a speed, kept as a signed numeral.
//! - [`command`]: the commands and their JSON text.
//! - [`transport`]: the URL of a command and the reply to report.
//! - [`quoting`]: how a reply is shown in a report.
//! - [`tools`]: the three tools, step by step.
//!
//! A tool call is carried through like this, with `get` standing for
//! whatever makes an HTTP GET and says what came of it:
//!
//! ```ignore
//! let mut step = tools::move_forward(Speed::parse("0.25").unwrap());
//! let result = loop {
//!     match step {
//!         Step::Request(pending) => {
//!             let outcome = get(pending.url());
//!             step = pending.resume(outcome);
//!         }
//!         Step::Done(text) => break text,
//!     }
//! };
//! ```

pub mod command;
pub mod numeral;
pub mod quoting;
pub mod speed;
pub mod tools;
pub mod transport;
