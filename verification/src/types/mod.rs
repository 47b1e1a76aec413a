pub mod account;
pub mod info;
pub mod knowledge_base;
pub mod pagination;
pub mod reply;
