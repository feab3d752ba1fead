//! One terminal session: an identifier and the host's handles to the
//! pseudo-terminal, with the work that writing and resizing ask of the host.

use vstd::prelude::*;
use crate::error::SessionErrorView;
use crate::geometry::Geometry;
use crate::job::{Job, JobView};
use crate::operation::{Operation, OperationView};

verus! {

/// A session. `H` is whatever the host keeps to reach the pseudo-terminal:
/// the input handle and the control handle, both bound to the same pair for
/// the whole life of the session. The library never looks inside.
#[derive(Debug)]
pub struct TerminalSession<H> {
    /// The identifier the session is registered under.
    pub id: String,
    /// The host's handles.
    pub handles: H,
}

/// The steps of a write: take the guard of the input handle, write all the
/// bytes, flush.
pub open spec fn write_steps(data: Seq<u8>) -> Seq<OperationView> {
    seq![OperationView::LockWriter, OperationView::Write(data), OperationView::Flush]
}

/// The steps of a resize: take the guard of the control handle, announce
/// the geometry of `cols` by `rows` cells.
pub open spec fn resize_steps(cols: u16, rows: u16) -> Seq<OperationView> {
    seq![OperationView::LockMaster, OperationView::Resize(Geometry::spec_cells(cols, rows))]
}

/// A copy of the bytes.
fn copy_bytes(data: &[u8]) -> (copy: Vec<u8>)
    ensures
        copy@ == data@,
{
    let mut copy: Vec<u8> = Vec::new();
    let mut i: usize = 0;
    while i < data.len()
        invariant
            i <= data@.len(),
            copy@ == data@.subrange(0, i as int),
        decreases data@.len() - i,
    {
        copy.push(data[i]);
        assert(data@.subrange(0, i as int).push(data@[i as int]) =~= data@.subrange(0, i + 1));
        i += 1;
    }
    assert(data@.subrange(0, data@.len() as int) =~= data@);
    copy
}

impl<H> TerminalSession<H> {
    /// The job of sending `data` to the process: exactly these bytes, in
    /// this order, written in full and flushed at once.
    pub fn write(&self, data: &[u8]) -> (job: Job)
        ensures
            job@ == JobView::fresh(write_steps(data@)),
    {
        let mut steps: Vec<Operation> = Vec::new();
        steps.push(Operation::LockWriter);
        steps.push(Operation::Write(copy_bytes(data)));
        steps.push(Operation::Flush);
        assert(crate::job::operation_views(steps@) =~= write_steps(data@));
        Job::new(steps)
    }

    /// The job of giving the pseudo-terminal `cols` columns and `rows` rows.
    /// Pixel dimensions are not tracked: they are zero.
    pub fn resize(&self, cols: u16, rows: u16) -> (job: Job)
        ensures
            job@ == JobView::fresh(resize_steps(cols, rows)),
    {
        let mut steps: Vec<Operation> = Vec::new();
        steps.push(Operation::LockMaster);
        steps.push(Operation::Resize(Geometry::cells(cols, rows)));
        assert(crate::job::operation_views(steps@) =~= resize_steps(cols, rows));
        Job::new(steps)
    }
}

/// A write hands the process exactly the bytes it was given: once the guard
/// is held the host is asked to write `data`, unchanged and in one piece,
/// then to flush; when all three steps succeed the write has succeeded.
pub proof fn lemma_write_hands_over_the_bytes(data: Seq<u8>)
    ensures
        JobView::fresh(write_steps(data)).pending() == Some(OperationView::LockWriter),
        JobView::fresh(write_steps(data)).settle(Ok(())).pending() == Some(
            OperationView::Write(data),
        ),
        JobView::fresh(write_steps(data)).settle(Ok(())).settle(Ok(())).pending() == Some(
            OperationView::Flush,
        ),
        JobView::fresh(write_steps(data)).settle(Ok(())).settle(Ok(())).settle(Ok(())).result()
            == Some(Ok::<(), SessionErrorView>(())),
{
}

/// A resize announces the cells it was given and no pixel size: once the
/// guard is held the host is asked for the geometry of `cols` by `rows`
/// cells with zero pixel dimensions.
pub proof fn lemma_resize_announces_the_cells(cols: u16, rows: u16)
    ensures
        JobView::fresh(resize_steps(cols, rows)).settle(Ok(())).pending() == Some(
            OperationView::Resize(
                Geometry { rows, cols, pixel_width: 0, pixel_height: 0 },
            ),
        ),
        JobView::fresh(resize_steps(cols, rows)).settle(Ok(())).settle(Ok(())).result() == Some(
            Ok::<(), SessionErrorView>(()),
        ),
{
}

} // verus!
