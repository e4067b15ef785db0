//! Torrent-backed media streaming orchestration.
//!
//! The library turns a partially downloaded, peer-fetched file into an
//! HTTP-seekable media resource: it manages the lifecycle of download
//! sessions behind stable client handles with a bounded resume cache
//! ([`torrent`]), plans byte-range responses ([`range`]), classifies audio
//! codecs against a playback compatibility table ([`codec`]), decodes and
//! classifies the external prober's output ([`probe`]), tracks transcode
//! progress ([`transcode`]), aggregates everything into the polled stream
//! status ([`status`]), and decides sampling and external-process command
//! lines ([`pipeline`]).  Search-result ranking and the small persistent
//! stores around the player live in their own modules.
//!
//! The download engine, the prober and the transcoder are external
//! collaborators: the library computes every decision from plain values and
//! leaves the network, subprocess and file I/O to its caller.

pub mod cache_metadata;
pub mod codec;
pub mod errors;
pub mod font_manager;
pub mod info;
pub mod media_cache;
pub mod pipeline;
pub mod probe;
pub mod range;
pub mod search;
pub mod settings;
pub mod status;
pub mod text;
pub mod torrent;
pub mod track_preferences;
pub mod tracking;
pub mod transcode;
