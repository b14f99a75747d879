pub mod agent;
pub mod boot;
pub mod bootstrap;
pub mod calc;
pub mod calc_laws;
pub mod chat;
pub mod fedimint;
pub mod http;
pub mod json;
pub mod json_laws;
pub mod kv;
pub mod menu;
pub mod ppq;
pub mod price;
pub mod render;
pub mod skills;
pub mod skills_laws;
pub mod text;
pub mod text_laws;
pub mod tool_laws;
pub mod tools;
pub mod wallet_laws;
pub mod wallet_runtime;
pub mod worker_laws;
