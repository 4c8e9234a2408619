//! Verified core of a service that has videos analysed for the persons who
//! move through them.
//!
//! A video is handed to an outside analysis service as a job. The service
//! reports, page by page, where and when it saw which person; this library
//! drains those pages ([`fetch`]), reduces the detections to a summary
//! ([`summary`]) and to a timeline by video frame ([`timeline`]), keeps the
//! record of each job through its lifecycle ([`job`], [`status`]) and lists
//! a user's jobs in pages that neither overlap nor leave a gap ([`pager`]).
//!
//! The library performs no input or output. What the outside services
//! answer is handed in as plain values ([`fetch`], [`replies`]), and what is
//! to be asked of them is handed out ([`pager`], [`upload`], [`config`]).

pub mod aggregate;
pub mod config;
pub mod detection;
pub mod error;
pub mod fetch;
pub mod job;
pub mod metadata;
pub mod notification;
pub mod pager;
pub mod params;
pub mod replies;
pub mod status;
pub mod summary;
pub mod text;
pub mod timeline;
pub mod upload;
