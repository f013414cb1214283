//! The typed shape of the allocator report: arenas, size classes and the
//! per-process aggregate records.
use vstd::prelude::*;

verus! {

/// Kinds of arena address space.
#[derive(Debug, Clone, Copy, PartialEq, Eq, Structural)]
pub enum AspaceType {
    Total,
    Mprotect,
    Subheaps,
    Other,
}

/// Arena address-space figure.
#[derive(Debug, Clone, Copy, PartialEq, Eq, Structural)]
pub struct Aspace {
    pub kind: AspaceType,
    pub size: usize,
}

/// Kinds of system memory figure.
#[derive(Debug, Clone, Copy, PartialEq, Eq, Structural)]
pub enum SystemType {
    Current,
    Max,
    Other,
}

/// System memory figure.
#[derive(Debug, Clone, Copy, PartialEq, Eq, Structural)]
pub struct System {
    pub kind: SystemType,
    pub size: usize,
}

/// Kinds of total memory figure.
#[derive(Debug, Clone, Copy, PartialEq, Eq, Structural)]
pub enum TotalType {
    Fast,
    Rest,
    Mmap,
    Other,
}

/// Total memory figure: how many chunks, and how many bytes.
#[derive(Debug, Clone, Copy, PartialEq, Eq, Structural)]
pub struct Total {
    pub kind: TotalType,
    pub count: usize,
    pub size: usize,
}

/// One size class: the byte range `[from, to)`, the bytes held and the
/// number of chunks. `Size` is a size-sorted bucket, `Unsorted` the
/// catch-all bucket.
#[derive(Debug, Clone, Copy, PartialEq, Eq, Structural)]
pub enum Size {
    Size { from: usize, to: usize, total: usize, count: usize },
    Unsorted { from: usize, to: usize, total: usize, count: usize },
}

/// The size-classes section of an arena.
#[derive(Debug, Clone, PartialEq, Eq)]
pub struct Sizes {
    pub sizes: Option<Vec<Size>>,
}

/// One arena.
#[derive(Debug, Clone, PartialEq, Eq)]
pub struct Heap {
    /// Arena number
    pub nr: usize,
    /// Arena size classes, when the report has the section
    pub sizes: Option<Sizes>,
}

/// The whole report.
#[derive(Debug, Clone, PartialEq, Eq)]
pub struct Malloc {
    pub version: String,
    pub heaps: Vec<Heap>,
    pub total: Vec<Total>,
    pub system: Vec<System>,
    pub aspace: Vec<Aspace>,
}

/// Mathematical value of an arena.
pub struct HeapView {
    pub nr: usize,
    pub sizes: Option<Option<Seq<Size>>>,
}

/// Mathematical value of a report.
pub struct MallocView {
    pub version: Seq<char>,
    pub heaps: Seq<HeapView>,
    pub total: Seq<Total>,
    pub system: Seq<System>,
    pub aspace: Seq<Aspace>,
}

impl View for Sizes {
    type V = Option<Seq<Size>>;

    open spec fn view(&self) -> Option<Seq<Size>> {
        match self.sizes {
            Some(v) => Some(v@),
            None => None,
        }
    }
}

impl View for Heap {
    type V = HeapView;

    open spec fn view(&self) -> HeapView {
        HeapView {
            nr: self.nr,
            sizes: match self.sizes {
                Some(s) => Some(s@),
                None => None,
            },
        }
    }
}

pub open spec fn heap_views(hs: Seq<Heap>) -> Seq<HeapView> {
    hs.map_values(|h: Heap| h@)
}

impl View for Malloc {
    type V = MallocView;

    open spec fn view(&self) -> MallocView {
        MallocView {
            version: self.version@,
            heaps: heap_views(self.heaps@),
            total: self.total@,
            system: self.system@,
            aspace: self.aspace@,
        }
    }
}

} // verus!
