//! Markdown post-processing for books: stable heading anchors and link checks.

/// Character sequences, decimal numerals and the std string calls they rest on.
pub mod text;
/// Heading anchors: CJK detection and the heading state machine.
pub mod tag_adder;
/// Heading slugs and the registry that keeps them unique.
pub mod slug;
/// The markdown token stream: the library's view of a token, and the parser
/// and serializer it rests on.
pub mod markdown;
/// Settings of the preprocessor and of the link checker.
pub mod config;
/// Link destinations: URLs, fragments and paths below the book's root.
pub mod path_checker;
/// The link tracker: one link from its start to its end, and its diagnostic.
pub mod link_state;
/// Link checking over a whole document.
pub mod link_checker;
/// Versions: parsing and display.
pub mod attributes;
/// The preprocessor and its work on one chapter.
pub mod processor;
