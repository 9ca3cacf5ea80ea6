//! Markdown slide decks: a deterministic renderer that turns a markdown
//! document into one self-contained HTML page, and the decision logic of a
//! live preview (change debouncing, page generations, reload waiters).

pub mod decimal;
pub mod error;
pub mod highlight;
pub mod inline;
pub mod markdown;
pub mod nesting;
pub mod page;
pub mod preview;
pub mod reference;
pub mod render;
pub mod slides;
pub mod text;
pub mod theme;
pub mod watch;
