pub mod events;
pub mod domains;
pub mod text;
pub mod crt_sh;
pub mod logger;
pub mod user_agents;
pub mod options;
pub mod config;
pub mod modules;
pub mod session;
pub mod kernel;
