//! Footage archiving: the configuration and its checks, the devices that
//! footage is read from (mass storage, flysight, ptp cameras, manual files),
//! staging names and manifests, the run's decisions and the staging of each
//! device, the upload state machine and its report, the
//! hotplug bookkeeping, the content hash that the storage service compares
//! against, and the human readable formatting used in reports.

pub mod text;
pub mod formatting;
pub mod paths;
pub mod config;
pub mod mailer;
pub mod pushover_notifier;
pub mod staging;
pub mod reporting;
pub mod storage;
pub mod runner;
pub mod ptp_device;
pub mod device;
pub mod messages;
pub mod client;
pub mod dummy_libusb;
pub mod web_devices;
pub mod version;
pub mod dropbox;
pub mod vimeo;
pub mod pushover;
pub mod mountable;
pub mod flysight;
pub mod mass_storage;
pub mod trimmer;
pub mod local_backup;
pub mod stager;
pub mod manual_file;
pub mod dummy_ptp;
pub mod metadata_extractor;
pub mod hotplug;
pub mod content_hasher;
