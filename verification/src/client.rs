//! The admin API of a gateway.

pub mod config;
pub mod errors;
pub mod gateway;
pub mod hooks;
pub mod info;
pub mod keys;
pub mod mint;
pub mod plugins;
pub mod upload;

pub use config::ConfigApplyView;
pub use errors::ErrorDetail;
pub use errors::ErrorEnvelope;
pub use gateway::Client;
pub use gateway::ClientError;
pub use gateway::Header;
pub use gateway::Method;
pub use gateway::Reply;
pub use gateway::Request;
pub use gateway::Tls;
pub use hooks::HookPage;
pub use hooks::HookTransportView;
pub use hooks::HookView;
pub use info::BuildInfo;
pub use info::InfoView;
pub use info::TopologyInfo;
pub use keys::CreatedKeyView;
pub use keys::KeyPage;
pub use keys::KeyView;
pub use keys::RevokeView;
pub use keys::RotatedKeyView;
pub use mint::CreateKeyReq;
pub use plugins::InspectView;
pub use plugins::PluginInstallView;
pub use plugins::PluginPage;
pub use plugins::PluginReloadView;
pub use plugins::PluginView;
pub use upload::InspectPluginReq;
pub use upload::InstallPluginReq;
