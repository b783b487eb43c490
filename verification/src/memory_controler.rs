//! Static description of the kernel's memory layout: named address ranges,
//! their translation kind, their attribute bundle and their mapping granule.
//! The table built out of these descriptors is the single source of truth
//! for what the MMU maps at kernel-init time.

use vstd::prelude::*;

verus! {

/// How virtual addresses inside a range are turned into physical ones:
/// either unchanged, or lowered by a fixed offset.
#[derive(Copy, Clone, Debug, PartialEq, Eq, Structural)]
pub enum Translation {
    Identity,
    Offset(usize),
}

/// Cacheability class of a range: normal cacheable DRAM or a device region.
#[derive(Copy, Clone, Debug, PartialEq, Eq, Structural)]
pub enum MemAttributes {
    CacheableDRAM,
    Device,
}

/// Who may access a range, and how.
#[derive(Copy, Clone, Debug, PartialEq, Eq, Structural)]
pub enum AccessPermissions {
    KernelReadOnly,
    KernelReadWrite,
    UserReadOnly,
    UserReadWrite,
}

/// Mapping unit used for a range.
#[derive(Copy, Clone, Debug, PartialEq, Eq, Structural)]
pub enum Granule {
    Page4KiB,
    Block2MiB,
    Block1GiB,
}

pub const PAGE_4KIB: usize = 0x1000;
pub const BLOCK_2MIB: usize = 0x20_0000;
pub const BLOCK_1GIB: usize = 0x4000_0000;

impl Granule {
    /// The granule's size in bytes.
    pub open spec fn spec_size(self) -> usize {
        match self {
            Granule::Page4KiB => PAGE_4KIB,
            Granule::Block2MiB => BLOCK_2MIB,
            Granule::Block1GiB => BLOCK_1GIB,
        }
    }

    /// The granule's size in bytes.
    pub fn size(self) -> (r: usize)
        ensures
            r == self.spec_size(),
            r >= PAGE_4KIB,
    {
        match self {
            Granule::Page4KiB => PAGE_4KIB,
            Granule::Block2MiB => BLOCK_2MIB,
            Granule::Block1GiB => BLOCK_1GIB,
        }
    }
}

/// Collection of memory attributes attached to one mapped range.
#[derive(Copy, Clone, Debug, PartialEq, Eq, Structural)]
pub struct AttributeFields {
    pub mem_attributes: MemAttributes,
    pub acc_perms: AccessPermissions,
    pub executable: bool,
}

impl AttributeFields {
    pub fn new(
        mem_attributes: MemAttributes,
        acc_perms: AccessPermissions,
        executable: bool,
    ) -> (r: Self)
        ensures
            r.mem_attributes == mem_attributes,
            r.acc_perms == acc_perms,
            r.executable == executable,
    {
        AttributeFields { mem_attributes, acc_perms, executable }
    }
}

impl Default for AttributeFields {
    /// Cacheable kernel read-write data, not executable.
    fn default() -> (r: Self)
        ensures
            r.mem_attributes == MemAttributes::CacheableDRAM,
            r.acc_perms == AccessPermissions::KernelReadWrite,
            !r.executable,
    {
        AttributeFields {
            mem_attributes: MemAttributes::CacheableDRAM,
            acc_perms: AccessPermissions::KernelReadWrite,
            executable: false,
        }
    }
}

/// Descriptor for one named memory range: its virtual extent, how it is
/// translated, its attributes, and the granule it is mapped with.
#[derive(Copy, Clone, Debug)]
pub struct RangeDescriptor {
    pub name: &'static str,
    pub virt_start: usize,
    pub virt_end: usize,
    pub translation: Translation,
    pub attribute_fields: AttributeFields,
    pub granule: Granule,
}

impl RangeDescriptor {
    /// A descriptor is well formed when its virtual range is a real
    /// half-open interval and an offset translation never underflows
    /// below physical address zero.
    pub open spec fn wf(self) -> bool {
        &&& self.virt_start < self.virt_end
        &&& match self.translation {
            Translation::Identity => true,
            Translation::Offset(k) => k <= self.virt_start,
        }
    }

    /// The physical address a virtual address in the range translates to:
    /// the address itself under identity, the address lowered by the fixed
    /// offset otherwise.
    pub open spec fn spec_phys_of(self, va: usize) -> usize
        recommends
            self.wf(),
            self.virt_start <= va < self.virt_end,
    {
        match self.translation {
            Translation::Identity => va,
            Translation::Offset(k) => (va - k) as usize,
        }
    }

    /// Whether a virtual address falls inside the descriptor's range.
    pub open spec fn spec_contains(self, va: usize) -> bool {
        self.virt_start <= va < self.virt_end
    }

    /// Two descriptors overlap when some virtual address is inside both.
    pub open spec fn spec_overlaps(self, other: Self) -> bool {
        self.virt_start < other.virt_end && other.virt_start < self.virt_end
    }

    pub fn new(
        name: &'static str,
        virt_start: usize,
        virt_end: usize,
        translation: Translation,
        attribute_fields: AttributeFields,
        granule: Granule,
    ) -> (r: Self)
        ensures
            r == (RangeDescriptor {
                name,
                virt_start,
                virt_end,
                translation,
                attribute_fields,
                granule,
            }),
    {
        RangeDescriptor { name, virt_start, virt_end, translation, attribute_fields, granule }
    }

    /// Runtime check matching `spec_contains`.
    pub fn contains(&self, va: usize) -> (r: bool)
        ensures
            r == self.spec_contains(va),
    {
        self.virt_start <= va && va < self.virt_end
    }

    /// Runtime translation matching `spec_phys_of`.
    pub fn phys_of(&self, va: usize) -> (r: usize)
        requires
            self.wf(),
            self.spec_contains(va),
        ensures
            r == self.spec_phys_of(va),
    {
        match self.translation {
            Translation::Identity => va,
            Translation::Offset(k) => va - k,
        }
    }

    /// Runtime overlap check matching `spec_overlaps`.
    pub fn overlaps(&self, other: &Self) -> (r: bool)
        ensures
            r == self.spec_overlaps(*other),
    {
        self.virt_start < other.virt_end && other.virt_start < self.virt_end
    }
}

/// The static table describing what is mapped at kernel-init time: the
/// boot stack below the binary, the read-only code and data, the mutable
/// data, the initial heap, and the MMIO window, each identity-translated.
/// The boundary addresses come from the linker-described binary layout.
pub fn kernel_memory_layout(
    binary_start: usize,
    read_only_start: usize,
    read_only_end: usize,
    read_write_end: usize,
    heap_end: usize,
    mmio_start: usize,
    mmio_end: usize,
) -> (r: Vec<RangeDescriptor>)
    ensures
        r@.len() == 5,
        r@[0] == (RangeDescriptor {
            name: "Init Stack",
            virt_start: 0,
            virt_end: binary_start,
            translation: Translation::Identity,
            attribute_fields: (AttributeFields {
                mem_attributes: MemAttributes::CacheableDRAM,
                acc_perms: AccessPermissions::KernelReadWrite,
                executable: false,
            }),
            granule: Granule::Page4KiB,
        }),
        r@[1] == (RangeDescriptor {
            name: "Static Kernel Data and Code",
            virt_start: read_only_start,
            virt_end: read_only_end,
            translation: Translation::Identity,
            attribute_fields: (AttributeFields {
                mem_attributes: MemAttributes::CacheableDRAM,
                acc_perms: AccessPermissions::UserReadOnly,
                executable: true,
            }),
            granule: Granule::Page4KiB,
        }),
        r@[2] == (RangeDescriptor {
            name: "Mutable Kernel Data",
            virt_start: read_only_end,
            virt_end: read_write_end,
            translation: Translation::Identity,
            attribute_fields: (AttributeFields {
                mem_attributes: MemAttributes::CacheableDRAM,
                acc_perms: AccessPermissions::UserReadWrite,
                executable: false,
            }),
            granule: Granule::Page4KiB,
        }),
        r@[3] == (RangeDescriptor {
            name: "Initial Kernel Heap",
            virt_start: read_write_end,
            virt_end: heap_end,
            translation: Translation::Identity,
            attribute_fields: (AttributeFields {
                mem_attributes: MemAttributes::CacheableDRAM,
                acc_perms: AccessPermissions::UserReadWrite,
                executable: false,
            }),
            granule: Granule::Page4KiB,
        }),
        r@[4] == (RangeDescriptor {
            name: "MMIO devices",
            virt_start: mmio_start,
            virt_end: mmio_end,
            translation: Translation::Identity,
            attribute_fields: (AttributeFields {
                mem_attributes: MemAttributes::Device,
                acc_perms: AccessPermissions::UserReadWrite,
                executable: false,
            }),
            granule: Granule::Block2MiB,
        }),
{
    let mut layout: Vec<RangeDescriptor> = Vec::new();
    layout.push(
        RangeDescriptor {
            name: "Init Stack",
            virt_start: 0,
            virt_end: binary_start,
            translation: Translation::Identity,
            attribute_fields: AttributeFields {
                mem_attributes: MemAttributes::CacheableDRAM,
                acc_perms: AccessPermissions::KernelReadWrite,
                executable: false,
            },
            granule: Granule::Page4KiB,
        },
    );
    layout.push(
        RangeDescriptor {
            name: "Static Kernel Data and Code",
            virt_start: read_only_start,
            virt_end: read_only_end,
            translation: Translation::Identity,
            attribute_fields: AttributeFields {
                mem_attributes: MemAttributes::CacheableDRAM,
                acc_perms: AccessPermissions::UserReadOnly,
                executable: true,
            },
            granule: Granule::Page4KiB,
        },
    );
    layout.push(
        RangeDescriptor {
            name: "Mutable Kernel Data",
            virt_start: read_only_end,
            virt_end: read_write_end,
            translation: Translation::Identity,
            attribute_fields: AttributeFields {
                mem_attributes: MemAttributes::CacheableDRAM,
                acc_perms: AccessPermissions::UserReadWrite,
                executable: false,
            },
            granule: Granule::Page4KiB,
        },
    );
    layout.push(
        RangeDescriptor {
            name: "Initial Kernel Heap",
            virt_start: read_write_end,
            virt_end: heap_end,
            translation: Translation::Identity,
            attribute_fields: AttributeFields {
                mem_attributes: MemAttributes::CacheableDRAM,
                acc_perms: AccessPermissions::UserReadWrite,
                executable: false,
            },
            granule: Granule::Page4KiB,
        },
    );
    layout.push(
        RangeDescriptor {
            name: "MMIO devices",
            virt_start: mmio_start,
            virt_end: mmio_end,
            translation: Translation::Identity,
            attribute_fields: AttributeFields {
                mem_attributes: MemAttributes::Device,
                acc_perms: AccessPermissions::UserReadWrite,
                executable: false,
            },
            granule: Granule::Block2MiB,
        },
    );
    layout
}

} // verus!
