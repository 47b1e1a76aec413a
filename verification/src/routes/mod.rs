pub mod auth;
pub mod hash_format;
pub mod kb_list;
pub mod reply;
