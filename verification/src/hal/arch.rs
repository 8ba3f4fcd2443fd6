//! What the kernel claims of the machine when it boots: the I/O ports of the
//! legacy devices, and the memory of the video display and of the BIOS.

use crate::sys::config::PAGE_SIZE;
use vstd::prelude::*;

verus! {

/// The control port of the first interrupt controller.
pub const PIC_CTRL_MASTER: u16 = 0x20;

/// The data port of the first interrupt controller.
pub const PIC_DATA_MASTER: u16 = 0x21;

/// The control port of the second interrupt controller.
pub const PIC_CTRL_SLAVE: u16 = 0xa0;

/// The data port of the second interrupt controller.
pub const PIC_DATA_SLAVE: u16 = 0xa1;

/// The control port of the interval timer.
pub const PIT_CTRL: u16 = 0x43;

/// The data port of the interval timer.
pub const PIT_DATA: u16 = 0x40;

/// How an I/O port may be used.
#[derive(Clone, Copy, Debug, PartialEq, Eq, Structural)]
pub enum PortAccess {
    /// The port is only read.
    ReadOnly,
    /// The port is read and written.
    ReadWrite,
}

/// An I/O port that the kernel registers.
#[derive(Clone, Copy, Debug, PartialEq, Eq, Structural)]
pub struct IoPort {
    /// The number of the port.
    pub port: u16,
    /// How the port may be used.
    pub access: PortAccess,
}

/// What a region of memory is.
#[derive(Clone, Copy, Debug, PartialEq, Eq, Structural)]
pub enum MemoryRegionType {
    /// Memory-mapped I/O.
    Mmio,
    /// Memory that is reserved.
    Reserved,
}

/// A region of memory that the kernel registers.
#[derive(Clone, Copy, Debug, PartialEq, Eq)]
pub struct MemoryRegion {
    /// The name of the region.
    pub name: &'static str,
    /// The address at which the region starts.
    pub base: u32,
    /// The size of the region, in bytes.
    pub size: u32,
    /// What the region is.
    pub kind: MemoryRegionType,
    /// Whether the region can be written.
    pub writable: bool,
}

/// What the kernel claims of the machine when it boots.
#[derive(Debug)]
pub struct ArchResources {
    /// The I/O ports to register, in the order of their registration.
    pub ports: Vec<IoPort>,
    /// The memory of the video display, registered as memory-mapped I/O.
    pub video: MemoryRegion,
    /// The memory of the BIOS, registered as reserved memory.
    pub bios: MemoryRegion,
}

/// The base port of each of the eight serial devices.
pub open spec fn serial_base(device: int) -> u16 {
    if device == 0 {
        0x3f8
    } else if device == 1 {
        0x2f8
    } else if device == 2 {
        0x3e8
    } else if device == 3 {
        0x2e8
    } else if device == 4 {
        0x3e0
    } else if device == 5 {
        0x2e0
    } else if device == 6 {
        0x3f0
    } else {
        0x2f0
    }
}

/// The registers of a serial device in the order of their registration: the
/// six that are read and written, then the two that are only read.
pub open spec fn serial_register(place: int) -> u16 {
    if place < 5 {
        place as u16
    } else if place == 5 {
        7
    } else if place == 6 {
        5
    } else {
        6
    }
}

/// The ports that the kernel registers when it boots, in their order: the
/// four ports of the interrupt controllers, the eight registers of each of
/// the eight serial devices, and the two ports of the interval timer.
pub open spec fn spec_ports() -> Seq<IoPort> {
    Seq::new(
        70,
        |index: int|
            if index == 0 {
                IoPort { port: PIC_CTRL_MASTER, access: PortAccess::ReadWrite }
            } else if index == 1 {
                IoPort { port: PIC_DATA_MASTER, access: PortAccess::ReadWrite }
            } else if index == 2 {
                IoPort { port: PIC_CTRL_SLAVE, access: PortAccess::ReadWrite }
            } else if index == 3 {
                IoPort { port: PIC_DATA_SLAVE, access: PortAccess::ReadWrite }
            } else if index < 68 {
                IoPort {
                    port: (serial_base((index - 4) / 8) + serial_register((index - 4) % 8)) as u16,
                    access: if (index - 4) % 8 < 6 {
                        PortAccess::ReadWrite
                    } else {
                        PortAccess::ReadOnly
                    },
                }
            } else if index == 68 {
                IoPort { port: PIT_CTRL, access: PortAccess::ReadWrite }
            } else {
                IoPort { port: PIT_DATA, access: PortAccess::ReadWrite }
            },
    )
}

/// The memory of the video display: 32 pages at `0xa0000`, memory-mapped I/O
/// that is read and written.
pub open spec fn spec_video() -> MemoryRegion {
    MemoryRegion {
        name: "video display memory",
        base: 0xa0000,
        size: (32 * PAGE_SIZE) as u32,
        kind: MemoryRegionType::Mmio,
        writable: true,
    }
}

/// The memory of the BIOS: 48 pages at `0xc0000`, reserved memory that is
/// only read.
pub open spec fn spec_bios() -> MemoryRegion {
    MemoryRegion {
        name: "bios memory",
        base: 0xc0000,
        size: (48 * PAGE_SIZE) as u32,
        kind: MemoryRegionType::Reserved,
        writable: false,
    }
}

/// Returns the base port of a serial device.
pub fn serial_base_of(device: usize) -> (base: u16)
    requires
        device < 8,
    ensures
        base == serial_base(device as int),
{
    if device == 0 {
        0x3f8
    } else if device == 1 {
        0x2f8
    } else if device == 2 {
        0x3e8
    } else if device == 3 {
        0x2e8
    } else if device == 4 {
        0x3e0
    } else if device == 5 {
        0x2e0
    } else if device == 6 {
        0x3f0
    } else {
        0x2f0
    }
}

/// Returns the register of a serial device that is registered at the given
/// place.
pub fn serial_register_of(place: usize) -> (register: u16)
    requires
        place < 8,
    ensures
        register == serial_register(place as int),
{
    if place < 5 {
        place as u16
    } else if place == 5 {
        7
    } else if place == 6 {
        5
    } else {
        6
    }
}

/// Works out what the kernel claims of the machine when it boots: the ports
/// of the legacy devices, 32 pages of video memory at `0xa0000`, and 48
/// pages of BIOS memory at `0xc0000`.
pub fn init() -> (resources: ArchResources)
    ensures
        resources.ports@ == spec_ports(),
        resources.video == spec_video(),
        resources.bios == spec_bios(),
{
    let mut ports: Vec<IoPort> = Vec::new();
    ports.push(IoPort { port: PIC_CTRL_MASTER, access: PortAccess::ReadWrite });
    ports.push(IoPort { port: PIC_DATA_MASTER, access: PortAccess::ReadWrite });
    ports.push(IoPort { port: PIC_CTRL_SLAVE, access: PortAccess::ReadWrite });
    ports.push(IoPort { port: PIC_DATA_SLAVE, access: PortAccess::ReadWrite });
    let mut device: usize = 0;
    while device < 8
        invariant
            device <= 8,
            ports.len() == 4 + 8 * device,
            forall|index: int| 0 <= index < ports.len() ==> ports[index] == spec_ports()[index],
        decreases 8 - device,
    {
        let base = serial_base_of(device);
        let mut place: usize = 0;
        while place < 8
            invariant
                device < 8,
                place <= 8,
                base == serial_base(device as int),
                ports.len() == 4 + 8 * device + place,
                forall|index: int| 0 <= index < ports.len() ==> ports[index] == spec_ports()[index],
            decreases 8 - place,
        {
            let access = if place < 6 {
                PortAccess::ReadWrite
            } else {
                PortAccess::ReadOnly
            };
            ports.push(IoPort { port: base + serial_register_of(place), access });
            place = place + 1;
        }
        device = device + 1;
    }
    ports.push(IoPort { port: PIT_CTRL, access: PortAccess::ReadWrite });
    ports.push(IoPort { port: PIT_DATA, access: PortAccess::ReadWrite });
    assert(ports@ =~= spec_ports());
    ArchResources {
        ports,
        video: MemoryRegion {
            name: "video display memory",
            base: 0xa0000,
            size: 32 * PAGE_SIZE,
            kind: MemoryRegionType::Mmio,
            writable: true,
        },
        bios: MemoryRegion {
            name: "bios memory",
            base: 0xc0000,
            size: 48 * PAGE_SIZE,
            kind: MemoryRegionType::Reserved,
            writable: false,
        },
    }
}

} // verus!
