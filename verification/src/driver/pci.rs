//! PCI bus enumeration.

use vstd::prelude::*;

verus! {

/// Port that selects a configuration register.
pub const CONFIG_ADDRESS: u16 = 0xCF8;

/// Port of the selected configuration register.
pub const CONFIG_DATA: u16 = 0xCFC;

/// A discovered PCI device.
#[derive(Debug, Clone, Copy, PartialEq, Eq)]
pub struct PciDevice {
    pub bus: u8,
    pub device: u8,
    pub function: u8,
    pub vendor_id: u16,
    pub device_id: u16,
    pub class_code: u8,
    pub subclass: u8,
    pub prog_if: u8,
    pub revision: u8,
    pub bars: [u32; 6],
}

/// The name of a device class.
pub open spec fn class_name_s(class: u8, subclass: u8, prog_if: u8) -> Seq<char> {
    if class == 0x01 && subclass == 0x06 && prog_if == 0x01 {
        "AHCI SATA controller"@
    } else if class == 0x01 && subclass == 0x08 && prog_if == 0x02 {
        "NVMe controller"@
    } else if class == 0x02 && subclass == 0x00 {
        "Ethernet controller"@
    } else if class == 0x03 && subclass == 0x00 {
        "VGA-compatible controller"@
    } else if class == 0x0C && subclass == 0x03 {
        "USB controller"@
    } else if class == 0x06 && subclass == 0x00 {
        "Host bridge"@
    } else if class == 0x06 && subclass == 0x01 {
        "ISA bridge"@
    } else if class == 0x06 && subclass == 0x04 {
        "PCI-to-PCI bridge"@
    } else {
        "Unknown"@
    }
}

impl PciDevice {
    /// Human-readable class of the device.
    pub fn class_name(&self) -> (r: &'static str)
        ensures
            r@ == class_name_s(self.class_code, self.subclass, self.prog_if),
    {
        let c: u8 = self.class_code;
        let s: u8 = self.subclass;
        if c == 0x01 && s == 0x06 && self.prog_if == 0x01 {
            "AHCI SATA controller"
        } else if c == 0x01 && s == 0x08 && self.prog_if == 0x02 {
            "NVMe controller"
        } else if c == 0x02 && s == 0x00 {
            "Ethernet controller"
        } else if c == 0x03 && s == 0x00 {
            "VGA-compatible controller"
        } else if c == 0x0C && s == 0x03 {
            "USB controller"
        } else if c == 0x06 && s == 0x00 {
            "Host bridge"
        } else if c == 0x06 && s == 0x01 {
            "ISA bridge"
        } else if c == 0x06 && s == 0x04 {
            "PCI-to-PCI bridge"
        } else {
            "Unknown"
        }
    }
}

/// The word that selects a register of a function.
pub fn config_address(bus: u8, device: u8, function: u8, offset: u8) -> (r: u32)
    ensures
        r == 0x8000_0000u32 | ((bus as u32) << 16) | ((device as u32) << 11) | ((function as u32)
            << 8) | (offset as u32 & 0xFC),
{
    0x8000_0000u32 | ((bus as u32) << 16) | ((device as u32) << 11) | ((function as u32) << 8) | (
    offset as u32 & 0xFC)
}

/// Registers of a function as they were read: vendor and device, class, header
/// type, and the base addresses.
#[derive(Debug, Clone, Copy)]
pub struct FunctionRegs {
    pub id: u32,
    pub class: u32,
    pub header: u32,
    pub bars: [u32; 6],
}

/// Whether a function exists. Where there is none, the vendor reads as all ones.
pub open spec fn exists_s(regs: FunctionRegs) -> bool {
    regs.id % 0x1_0000 != 0xFFFF
}

/// Whether a device has more than one function.
pub open spec fn is_multi(regs: FunctionRegs) -> bool {
    (regs.header / 0x1_0000) & 0x80 != 0
}

/// What the registers of a function say of it.
pub open spec fn device_s(bus: u8, device: u8, function: u8, regs: FunctionRegs) -> PciDevice {
    PciDevice {
        bus,
        device,
        function,
        vendor_id: (regs.id % 0x1_0000) as u16,
        device_id: (regs.id / 0x1_0000) as u16,
        class_code: (regs.class / 0x100_0000) as u8,
        subclass: (regs.class / 0x1_0000 % 0x100) as u8,
        prog_if: (regs.class / 0x100 % 0x100) as u8,
        revision: (regs.class % 0x100) as u8,
        bars: regs.bars,
    }
}

/// Reads what the registers of a function say of it; None if it does not exist.
pub fn probe_function(bus: u8, device: u8, function: u8, regs: &FunctionRegs) -> (r: Option<
    PciDevice,
>)
    ensures
        r == (if exists_s(*regs) {
            Some(device_s(bus, device, function, *regs))
        } else {
            None
        }),
{
    let vendor_id: u16 = (regs.id % 0x1_0000) as u16;
    if vendor_id == 0xFFFF {
        return None;
    }
    Some(
        PciDevice {
            bus,
            device,
            function,
            vendor_id,
            device_id: (regs.id / 0x1_0000) as u16,
            class_code: (regs.class / 0x100_0000) as u8,
            subclass: (regs.class / 0x1_0000 % 0x100) as u8,
            prog_if: (regs.class / 0x100 % 0x100) as u8,
            revision: (regs.class % 0x100) as u8,
            bars: regs.bars,
        },
    )
}

/// A scan of bus 0: the function that is looked at next, and what was found.
#[derive(Debug)]
pub struct PciScan {
    pub device: u8,
    pub function: u8,
    pub devices: Vec<PciDevice>,
}

#[verifier::ext_equal]
pub struct ScanView {
    pub device: u8,
    pub function: u8,
    pub devices: Seq<PciDevice>,
}

/// Where the scan goes on. The other functions of a device are looked at unless
/// its first one exists and says that it is the only one.
pub open spec fn scan_s(v: ScanView, regs: FunctionRegs) -> ScanView {
    let found = exists_s(regs);
    let skip = found && v.function == 0 && !is_multi(regs);
    ScanView {
        device: if skip || v.function >= 7 {
            (v.device + 1) as u8
        } else {
            v.device
        },
        function: if skip || v.function >= 7 {
            0
        } else {
            (v.function + 1) as u8
        },
        devices: if found {
            v.devices.push(device_s(0, v.device, v.function, regs))
        } else {
            v.devices
        },
    }
}

impl PciScan {
    pub open spec fn view(&self) -> ScanView {
        ScanView { device: self.device, function: self.function, devices: self.devices@ }
    }

    /// A scan of bus 0 from its first function on.
    pub fn init() -> (r: PciScan)
        ensures
            r@ == (ScanView { device: 0, function: 0, devices: Seq::empty() }),
    {
        PciScan { device: 0, function: 0, devices: Vec::new() }
    }

    /// The function whose registers are wanted next; None when all 32 devices
    /// were looked at.
    pub fn wanted(&self) -> (r: Option<(u8, u8)>)
        ensures
            r == (if self.device < 32 {
                Some((self.device, self.function))
            } else {
                None
            }),
    {
        if self.device < 32 {
            Some((self.device, self.function))
        } else {
            None
        }
    }

    /// Takes the registers of the function that was wanted.
    pub fn take(&mut self, regs: &FunctionRegs)
        requires
            old(self).device < 32,
            old(self).function < 8,
        ensures
            final(self)@ == scan_s(old(self)@, *regs),
            final(self).device <= 32,
            final(self).function < 8,
    {
        let mut only: bool = false;
        if let Some(dev) = probe_function(0, self.device, self.function, regs) {
            self.devices.push(dev);
            only = self.function == 0 && (regs.header / 0x1_0000) & 0x80 == 0;
        }
        if only || self.function >= 7 {
            self.device = self.device + 1;
            self.function = 0;
        } else {
            self.function = self.function + 1;
        }
    }
}

/// The first device that a predicate accepts.
pub open spec fn first_device(devices: Seq<PciDevice>, p: spec_fn(PciDevice) -> bool) -> Option<
    PciDevice,
>
    decreases devices.len(),
{
    if devices.len() == 0 {
        None
    } else if p(devices[0]) {
        Some(devices[0])
    } else {
        first_device(devices.skip(1), p)
    }
}

/// Whether a function decides a predicate.
pub open spec fn decides_device<F: Fn(&PciDevice) -> bool>(
    test: F,
    p: spec_fn(PciDevice) -> bool,
) -> bool {
    forall|d: PciDevice, b: bool| #[trigger] call_ensures(test, (&d,), b) ==> b == p(d)
}

/// The devices that a scan found.
pub fn list_devices(scan: &PciScan) -> (r: Vec<PciDevice>)
    ensures
        r@ == scan.devices@,
{
    let mut r: Vec<PciDevice> = Vec::new();
    let mut i: usize = 0;
    while i < scan.devices.len()
        invariant
            i <= scan.devices@.len(),
            r@ == scan.devices@.take(i as int),
        decreases scan.devices@.len() - i,
    {
        r.push(scan.devices[i]);
        i = i + 1;
        assert(r@ =~= scan.devices@.take(i as int));
    }
    assert(r@ =~= scan.devices@);
    r
}

/// Finds the first device that a predicate accepts.
pub fn find_device<F: Fn(&PciDevice) -> bool>(devices: &Vec<PciDevice>, pred: F) -> (r: Option<
    PciDevice,
>)
    requires
        forall|d: &PciDevice| #[trigger] call_requires(pred, (d,)),
    ensures
        forall|p: spec_fn(PciDevice) -> bool| #[trigger]
            decides_device(pred, p) ==> r == first_device(devices@, p),
{
    let mut i: usize = 0;
    assert(devices@.skip(0) =~= devices@);
    while i < devices.len()
        invariant
            i <= devices@.len(),
            forall|d: &PciDevice| #[trigger] call_requires(pred, (d,)),
            forall|p: spec_fn(PciDevice) -> bool| #[trigger]
                decides_device(pred, p) ==> first_device(devices@, p) == first_device(
                    devices@.skip(i as int),
                    p,
                ),
        decreases devices@.len() - i,
    {
        assert(devices@.skip(i as int)[0] == devices@[i as int]);
        assert(devices@.skip(i as int).skip(1) =~= devices@.skip(i + 1));
        if pred(&devices[i]) {
            return Some(devices[i]);
        }
        i = i + 1;
    }
    None
}

/// The interrupt line in a configuration register; all ones if there is none.
pub fn interrupt_line(reg: u32) -> (r: u8)
    ensures
        r == reg % 0x100,
{
    (reg % 0x100) as u8
}

/// The parts of a selector word do not overlap.
pub proof fn law_config_address_fields(bus: u8, device: u8, function: u8, offset: u8)
    requires
        device < 32,
        function < 8,
    ensures
        ({
            let r = 0x8000_0000u32 | ((bus as u32) << 16) | ((device as u32) << 11) | ((
            function as u32) << 8) | (offset as u32 & 0xFC);
            &&& (r >> 16) & 0xFF == bus
            &&& (r >> 11) & 0x1F == device
            &&& (r >> 8) & 7 == function
            &&& r & 0xFC == offset & 0xFC
            &&& r >> 31 == 1
        }),
{
    assert({
        let r = 0x8000_0000u32 | ((bus as u32) << 16) | ((device as u32) << 11) | ((
        function as u32) << 8) | (offset as u32 & 0xFC);
        &&& (r >> 16) & 0xFF == bus
        &&& (r >> 11) & 0x1F == device
        &&& (r >> 8) & 7 == function
        &&& r & 0xFC == offset & 0xFC
        &&& r >> 31 == 1
    }) by (bit_vector)
        requires
            device < 32,
            function < 8,
    ;
}

} // verus!
