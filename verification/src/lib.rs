//! The core of a self-updating delivery agent for one wrapped application:
//! the planner that diffs a new release against an install, the update cycle
//! with its crash marker, the replacement of the updater itself, content
//! hashing, archive ingestion and the coordination of running instances.
//!
//! The library decides and plans; it touches neither files nor the network.
//! What it needs to know of the file system it is given as a snapshot, and
//! what is to be done it hands back as lists of steps.
pub mod arrangement;
pub mod common;
pub mod cycle;
pub mod decimal;
pub mod defines;
pub mod error;
pub mod fslog;
pub mod hasher;
pub mod hexcodec;
pub mod hooks;
pub mod installer;
pub mod installer_tools;
pub mod ipc;
pub mod logger;
pub mod paths;
pub mod remoteinstallerdata;
pub mod shell;
pub mod shipper;
pub mod shipperfile;
pub mod sorting;
pub mod sudo;
pub mod text;
pub mod uninstaller;
pub mod unzip;
