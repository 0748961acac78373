//! Conversation state, personalities and admin commands of a chat bot that
//! relays channel messages to a language model.

pub mod admin_commands;
pub mod conversation;
pub mod discord;
pub mod kma;
pub mod kma_types;
pub mod logger;
pub mod maple_types;
pub mod message;
pub mod msg_context;
pub mod openai;
pub mod openai_schema;
pub mod persistence;
pub mod personality;
pub mod state;
pub mod state_file;
pub mod statics;
pub mod text;
