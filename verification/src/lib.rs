//! Verified core of a terminal e-mail client: spell checking, grammar
//! checking, e-mail address and MIME handling, credential encoding and the
//! decision logic of mailbox synchronisation.
pub mod grammarcheck;
pub mod text;
pub mod dictionary;
pub mod spellcheck;
pub mod email;
pub mod mime;
pub mod mime_parser;
pub mod credentials;
pub mod config;
pub mod display;
pub mod async_grammar;
pub mod sync;
pub mod compose;
pub mod editing;
pub mod outgoing;
pub mod keys;
