//! Formats the progress and errors of a train for humans.

pub use self::plain_text_formatter::PlainTextFormatter;

pub mod plain_text_formatter;
