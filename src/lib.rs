//! Drive a resumable computation from a stream of inputs and read what it
//! yields as a pull-based sequence.

mod computations;
mod driver;
mod generator;
mod handler;
mod lines;
mod source;

pub use computations::{Counter, Doubler, Returns};
pub use driver::{bind, bind_ignore, bind_items, GenIter};
pub use generator::{GenState, Generator};
pub use handler::{Finish, Ignore, Recorder};
pub use lines::{Line, LineReader};
pub use source::{void, Inputs, Source, Void};
