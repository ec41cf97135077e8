pub mod config;
pub mod distribute;
pub mod errors;
pub mod forge;
pub mod issuer;
pub mod normalize;
pub mod pipeline;
pub mod resolve;
pub mod server;
pub mod strutil;
pub mod token;

pub use resolve::resolve_creation_order;
pub use resolve::topological_sort;
pub use server::generate_server_config;
pub use token::extract_account_id;

pub use config::NatsConfig;
pub use errors::ForgeError;
