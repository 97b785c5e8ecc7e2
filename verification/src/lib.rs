pub mod agent;
pub mod findings;
pub mod json;
pub mod llm;
pub mod playbook;
pub mod secrets;
pub mod security;
pub mod settings;
pub mod text;
pub mod tools;
