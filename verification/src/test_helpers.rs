//! Deterministic doubles for the collaborators the scheduler drives.

pub mod ssh_mocks;
