use vstd::prelude::*;

verus! {

/// One writable flash sub-region, `[start, end)`.
///
/// All addresses in this crate are 32-bit process addresses: the simulated
/// target is strictly 32-bit-addressed, and the simulator models flash as a
/// byte store at the configured region address rather than leaking host
/// pointers into the 32-bit register file.
#[derive(Clone, Copy, Debug, PartialEq, Eq, Structural)]
pub struct FlashRegion {
    pub start: u32,
    pub end: u32,
}

/// The immutable, per-test-configuration table of address ranges the memory
/// layout oracle answers from: process RAM bounds, process flash bounds, the
/// grant-region start, and the ordered table of writable flash sub-regions.
#[derive(Debug)]
pub struct MemoryLayout {
    pub memory_start: u32,
    pub memory_end: u32,
    pub flash_start: u32,
    pub flash_end: u32,
    pub grant_start: u32,
    pub regions: Vec<FlashRegion>,
}

/// The mathematical value of a [`MemoryLayout`].
#[verifier::ext_equal]
pub ghost struct LayoutView {
    pub memory_start: u32,
    pub memory_end: u32,
    pub flash_start: u32,
    pub flash_end: u32,
    pub grant_start: u32,
    pub regions: Seq<FlashRegion>,
}

impl View for MemoryLayout {
    type V = LayoutView;

    open spec fn view(&self) -> LayoutView {
        LayoutView {
            memory_start: self.memory_start,
            memory_end: self.memory_end,
            flash_start: self.flash_start,
            flash_end: self.flash_end,
            grant_start: self.grant_start,
            regions: self.regions@,
        }
    }
}

impl LayoutView {
    /// Every configured region is a well-formed range.
    pub open spec fn wf(self) -> bool {
        forall|i: int| 0 <= i < self.regions.len() ==> #[trigger] self.regions[i].start
            <= self.regions[i].end
    }
}

pub const DEFAULT_MEMORY_START: u32 = 0x20000;

pub const DEFAULT_MEMORY_END: u32 = 0x22000;

pub const DEFAULT_FLASH_START: u32 = 0x10000;

pub const DEFAULT_FLASH_END: u32 = 0x14000;

pub const DEFAULT_GRANT_START: u32 = 0x21c00;

pub const DEFAULT_FLASH_REGION_START: u32 = 0x11000;

pub const DEFAULT_FLASH_REGION_END: u32 = 0x13000;

/// The layout a freshly built simulator answers from: fixed dummy addresses
/// and a single writable flash region.
pub open spec fn default_layout() -> LayoutView {
    LayoutView {
        memory_start: DEFAULT_MEMORY_START,
        memory_end: DEFAULT_MEMORY_END,
        flash_start: DEFAULT_FLASH_START,
        flash_end: DEFAULT_FLASH_END,
        grant_start: DEFAULT_GRANT_START,
        regions: seq![
            FlashRegion { start: DEFAULT_FLASH_REGION_START, end: DEFAULT_FLASH_REGION_END },
        ],
    }
}

impl Default for MemoryLayout {
    /// Builds the default test layout.
    fn default() -> (r: MemoryLayout)
        ensures
            r@ == default_layout(),
            r@.wf(),
    {
        let mut regions: Vec<FlashRegion> = Vec::new();
        regions.push(
            FlashRegion { start: DEFAULT_FLASH_REGION_START, end: DEFAULT_FLASH_REGION_END },
        );
        let r = MemoryLayout {
            memory_start: DEFAULT_MEMORY_START,
            memory_end: DEFAULT_MEMORY_END,
            flash_start: DEFAULT_FLASH_START,
            flash_end: DEFAULT_FLASH_END,
            grant_start: DEFAULT_GRANT_START,
            regions,
        };
        proof {
            assert(r@.regions =~= default_layout().regions);
            assert(r@ =~= default_layout());
        }
        r
    }
}

} // verus!
