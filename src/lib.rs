//! A knowledge base of directories and notes spread over several providers,
//! with one provider's subtree mountable inside another's directory.
pub mod archive;
pub mod callback_query;
pub mod command;
pub mod db;
pub mod errors;
pub mod feedback;
pub mod ids;
pub mod kb;
pub mod media;
pub mod state;
pub mod store;
pub mod text;
pub mod tree;
pub mod user;
