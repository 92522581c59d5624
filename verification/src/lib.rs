//! Verified core of a KVM/QEMU virtual machine manager: the validation, parsing and
//! document-building logic behind each host service.
pub mod error;
pub mod text;
pub mod xml;
pub mod distribution;
pub mod operation;
pub mod readiness_repair;
pub mod graphics;
pub mod cloud_init;
pub mod connection;
pub mod host_readiness;
pub mod net;
pub mod nwfilter;
pub mod network;
pub mod ids;
pub mod storage;
pub mod guest_agent;
pub mod confirmation;
pub mod vm;
pub mod domain;
pub mod vm_inspect;
pub mod alert;
pub mod scheduler;
pub mod schedule_laws;
pub mod backup;
pub mod template;
pub mod vm_interfaces;
pub mod vm_disks;
pub mod retention;
pub mod snapshot;
pub mod serial_console;
pub mod disk_settings;
pub mod tags;
pub mod tags_readback;
pub mod clone;
pub mod clone_xml;
pub mod clone_laws;
pub mod nic;
pub mod ova;
pub mod pci;
pub mod mdev;
pub mod sriov;
pub mod usb;
pub mod optimization;
pub mod metrics;
pub mod vm_record;
pub mod devices;
pub mod cpu;
pub mod tuning;
pub mod listing;
pub mod vm_stats;
pub mod creation_readiness;
pub mod vm_create;
pub mod ws_proxy;
