//! Editors for eight standard containers, each driven by one-line text commands.
//!
//! A line is split into words; the first word is the verb, the words after it are its
//! arguments. Each editor owns one container, carries out the command that a line spells and
//! answers with a reply that says what happened. Nothing here reads or prints: a caller hands
//! the lines in and words the replies.
//!
//! - [`text`] and [`number`]: white space, words and decimal numerals.
//! - [`command`]: the verbs and what can be wrong with a line.
//! - [`sequence`]: a growable array. [`ends`]: a container open at both ends, for the
//!   double-ended queue and the linked list. [`maps`]: a map from text keys to integers,
//!   unordered or sorted by key, over the pairs of [`assoc`]. [`sets`]: a set of integers,
//!   hashed or sorted. [`heap`]: a binary max-heap.
//! - [`menu`]: the choice of an editor, and the session that moves between the menu and the
//!   editor chosen.
//! - [`demo`]: a fixed run of operations on the three containers that keep a row.

pub mod assoc;
pub mod command;
pub mod demo;
pub mod ends;
pub mod heap;
pub mod maps;
pub mod menu;
pub mod number;
pub mod sequence;
pub mod sets;
pub mod text;
