//! Automation core for provisioning GPU-partitioned Hyper-V virtual machines
//! and driving the Remote Desktop client window.
//!
//! Everything here is pure decision logic over plain values; the process,
//! filesystem and window-system calls live with the host application.

pub mod config;
pub mod pipeline;
pub mod rdp;
pub mod system;
pub mod template;
pub mod text;
pub mod vm;
