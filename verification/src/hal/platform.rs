//! What the firmware tells the kernel of the platform.

pub mod acpi;
