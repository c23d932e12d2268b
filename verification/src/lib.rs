//! An interactive two-operand calculator, as a verified library.
//!
//! A line of text is either a command (`exit`, `info`), empty, or an
//! expression made of an operand, an operator and a second operand. This
//! crate decides which, with a proof for every decision; reading lines,
//! printing and the arithmetic on machine numbers are left to the caller.
//!
//! - `text`: character classes.
//! - `words`: a line as a sequence of words.
//! - `number`: the syntax of an operand.
//! - `operation`: the operations and their symbols.
//! - `expression`: three slots of text as an expression.
//! - `session`: the reply to a line and the states of a session.
//! - `messages`: the texts shown to the user and the flags that pick them.

pub mod text;
pub mod words;
pub mod number;
pub mod operation;
pub mod expression;
pub mod session;
pub mod messages;

pub use expression::{create_expression, Expression};
pub use messages::{get_messages, notice_suppressed, select_mode, Messages, TextMode};
pub use number::valid_operand;
pub use operation::Operation;
pub use session::{into_slots, respond, Reply, State, EXIT, INFO, PROMPT};
pub use words::process_input;
