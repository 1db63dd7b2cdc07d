pub mod failure;
pub mod uri;
pub mod version;
pub mod manifest;
pub mod signature;
pub mod transport;
pub mod body;
pub mod integrity;
