//! Checkpoint and restore of sandboxes that run in Cloud Hypervisor VMs.
//!
//! The modules decide; what they decide is carried out by a caller on a host.
//! Straight sequences of host operations are plans (`plan`). Where a decision
//! waits for the outcome of an operation, it is a step from one state to the
//! next (`disk_restore`, `lifecycle`, `checkpoint_run`, `pause`). Documents are read and written
//! as bytes (`json`, `snapshot_config`).
//!
//! Proof functions whose names start with `law_` state what holds across
//! functions, and what each of them is for. The modules `*_laws` hold nothing
//! else.

pub mod block_disks;
pub mod checkpoint;
pub mod checkpoint_laws;
pub mod checkpoint_run;
pub mod config_laws;
pub mod disk_laws;
pub mod disk_restore;
pub mod document_laws;
pub mod guest_laws;
pub mod hypervisor;
pub mod json;
pub mod launch;
pub mod lifecycle;
pub mod log_output;
pub mod metadata_file;
pub mod overlay;
pub mod overlay_laws;
pub mod path_laws;
pub mod pause;
pub mod plan;
pub mod process_laws;
pub mod protection;
pub mod queries;
pub mod record_laws;
pub mod restore_files;
pub mod sandbox_laws;
pub mod shim_ctl;
pub mod snapshot_config;
pub mod start_laws;
pub mod text;
pub mod text_laws;
pub mod unix_path;
