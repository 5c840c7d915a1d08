use std::collections::VecDeque;
use vstd::prelude::*;

verus! {

/// Progress of the OAM scan of one scanline: the next entry to visit and the
/// OAM addresses of the objects selected so far, in OAM order.
pub struct OamScanData {
    pub current_object: u16,
    pub objects: VecDeque<u16>,
}

impl OamScanData {
    /// At most ten objects, each an OAM entry already visited, in strictly
    /// increasing OAM order.
    pub open spec fn wf(&self) -> bool {
        &&& self.current_object <= 40
        &&& self.objects@.len() <= 10
        &&& forall|i: int|
            0 <= i < self.objects@.len() ==> 0xFE00 <= #[trigger] self.objects@[i] < 0xFE00 + 4
                * self.current_object && (self.objects@[i] - 0xFE00) % 4 == 0
        &&& forall|i: int, j: int|
            0 <= i < j < self.objects@.len() ==> #[trigger] self.objects@[i] < #[trigger] self.objects@[j]
    }

    pub fn new() -> (r: OamScanData)
        ensures
            r.wf(),
            r.current_object == 0,
            r.objects@.len() == 0,
    {
        OamScanData { current_object: 0, objects: VecDeque::new() }
    }

    /// Starts the scan of a new scanline.
    pub fn reset(&mut self)
        ensures
            final(self).wf(),
            final(self).current_object == 0,
            final(self).objects@.len() == 0,
    {
        self.current_object = 0;
        self.objects.clear();
    }
}

/// The pixel FIFOs of mode 3 and its position on the scanline.
pub struct PixelRenderData {
    pub background_queue: VecDeque<u8>,
    pub obj_queue: VecDeque<u8>,
    pub x: u8,
    pub tile_x: u8,
}

impl PixelRenderData {
    pub fn new() -> (r: PixelRenderData)
        ensures
            r.background_queue@.len() == 0,
            r.obj_queue@.len() == 0,
            r.x == 0,
            r.tile_x == 0,
    {
        PixelRenderData { background_queue: VecDeque::new(), obj_queue: VecDeque::new(), x: 0, tile_x: 0 }
    }

    /// Empties both FIFOs and returns to the left edge.
    pub fn reset(&mut self)
        ensures
            final(self).background_queue@.len() == 0,
            final(self).obj_queue@.len() == 0,
            final(self).x == 0,
            final(self).tile_x == 0,
    {
        self.background_queue.clear();
        self.obj_queue.clear();
        self.x = 0;
        self.tile_x = 0;
    }
}

/// A scan in progress holds at most ten objects, and holds them in the order
/// of their OAM entries.
pub proof fn lemma_selection_bounded_and_ordered(scan: OamScanData)
    requires
        scan.wf(),
    ensures
        scan.objects@.len() <= 10,
        forall|i: int, j: int| 0 <= i < j < scan.objects@.len() ==> scan.objects@[i] < scan.objects@[j],
{
}

} // verus!
