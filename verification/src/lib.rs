//! Mirrors the media of one channel into another: a classifier that decides
//! which attachments qualify, a watermark kept as marker text in the
//! destination itself, and the decisions of the backfill scan, the live tail
//! and the per-item transfer pipeline, each as a step function.

pub mod backfill;
pub mod config;
pub mod live;
pub mod marker;
pub mod media;
pub mod naming;
pub mod replay;
pub mod text;
pub mod transfer;
