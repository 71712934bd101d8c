//! The Slack backend, short of its sockets: Socket Mode frames ([`protocol`]),
//! Web API calls ([`client`]), a streaming reply ([`reply`]), Markdown rendered
//! into Block Kit ([`markdown`], [`render`], [`blocks`], [`message`]), and the
//! backend's own decisions ([`backend`], [`config`]). What is true of rendering
//! as a whole stands in [`render_laws`], [`document_laws`] and [`block_laws`].
pub mod backend;
pub mod block_laws;
pub mod blocks;
pub mod client;
pub mod config;
pub mod document_laws;
pub mod markdown;
pub mod message;
pub mod protocol;
pub mod render;
pub mod render_laws;
pub mod reply;
