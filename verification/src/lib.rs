//! A caching layer between an in-memory store of entities and a transactional
//! database: rows are brought into memory at most once per identity, changes
//! are tracked, and a finished request is written back and retired.

pub mod composition;
pub mod database_entity;
pub mod database_query;
pub mod database_resource;
pub mod laws;
pub mod plugin;
pub mod retriever;
pub mod schedule;
pub mod statements;
pub mod text;
pub mod tuples;
pub mod world;
