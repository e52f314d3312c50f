pub mod answer_laws;
pub mod body_laws;
pub mod content;
pub mod content_laws;
pub mod conversation_laws;
pub mod error;
pub mod events;
pub mod instructions;
pub mod json;
pub mod listing_laws;
pub mod messages;
pub mod protocol;
pub mod reasoning;
pub mod request;
pub mod request_laws;
pub mod session;
pub mod stream;
pub mod stream_laws;
pub mod text;
pub mod tool_laws;
pub mod tool_names;
pub mod tools;
pub mod value;
