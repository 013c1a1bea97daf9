//! A single-author publishing library: articles are flat files that bundle a
//! structured metadata block (title, author, publication date) with free-form
//! body text. The crate decodes such files into validated `Article` values,
//! derives canonical identifiers from them, encodes them back, and plans the
//! materialisation of a directory of articles into a static output tree.

pub mod errors;
pub mod text;
pub mod date;
pub mod slug;
pub mod meta;
pub mod article;
pub mod builder;
pub mod laws;
pub mod loader;
pub mod site;
pub mod context;
