use vstd::prelude::*;

pub mod btusb;
pub mod btusb_probe;
pub mod fat;
pub mod fat_args;
pub mod fat_label;
pub mod fat_mkfs;
pub mod fat_repair;
pub mod fat_report;
pub mod fat_scan;
pub mod fat_volume;
pub mod fatd;
pub mod fs_scheme;
pub mod bytes;
pub mod ehci_control;
pub mod ehci_ctl;
pub mod ehci_regs;
pub mod ehci_scheme;
pub mod ext4;
pub mod hci;
pub mod hci_scheme;
pub mod iwlwifi;
pub mod kpi;
pub mod kpi_mem;
pub mod kpi_net;
pub mod kpi_pci;
pub mod kpi_sync;
pub mod kpi_timer;
pub mod kpi_wireless;
pub mod scheme_handles;
pub mod text;
pub mod textparse;
pub mod usb_transport;

verus! {

} // verus!
