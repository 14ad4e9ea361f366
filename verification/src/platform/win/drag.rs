//! Files that are dragged across the edge of the screen.

use vstd::prelude::*;

use crate::platform::win::clipboard::CF_HDROP;
use crate::platform::RemoteFileDragEvent;
use crate::table::Table;
use crate::text::copy_texts;

verus! {

pub const DROPEFFECT_NONE: u32 = 0;

pub const DROPEFFECT_COPY: u32 = 1;

/// How long files that touched the edge can still be taken along, in nanoseconds.
pub const DRAG_VALID: u64 = 15_000_000_000;

/// The aspect of dragged data that is its content.
pub const DVASPECT_CONTENT: u32 = 1;

/// What the edge of the screen says to a drag.
pub open spec fn probe_effect(has_file_paths: bool) -> u32 {
    if has_file_paths { DROPEFFECT_COPY } else { DROPEFFECT_NONE }
}

/// What the edge of the screen says to a drag: files can be dropped there, anything
/// else cannot.
pub fn edge_probe_effect(has_file_paths: bool) -> (effect: u32)
    ensures
        effect == if has_file_paths { DROPEFFECT_COPY } else { DROPEFFECT_NONE },
        effect == probe_effect(has_file_paths),
{
    if has_file_paths {
        DROPEFFECT_COPY
    } else {
        DROPEFFECT_NONE
    }
}

/// The edge of the screen as a place where drags arrive.
#[derive(Debug)]
pub struct DragProbe {
    /// The files that are being dragged there, and when they were last seen.
    pub pending: Option<(u64, Vec<String>)>,
    /// The files were taken along: the drop that follows ends the local drag.
    pub handoff: bool,
}

impl DragProbe {
    /// Whether `paths` are the files that are taken along at the time `now`, and `after`
    /// what is known then.
    pub open spec fn hands_over(self, now: u64, paths: Vec<String>, after: DragProbe) -> bool {
        &&& after.pending is None
        &&& match self.taken(now) {
            Some(files) => paths == files && after.handoff,
            None => paths@.len() == 0 && after.handoff == self.handoff,
        }
    }

    /// Whether `effect` is what a drop at the edge is answered, and `after` what is known
    /// then.
    pub open spec fn drops(self, effect: u32, after: DragProbe) -> bool {
        &&& after.pending == self.pending
        &&& !after.handoff
        &&& effect == probe_effect(self.handoff)
    }

    /// After a drag with the files `paths` came.
    pub open spec fn after_enter(self, paths: Vec<String>, now: u64) -> Self {
        DragProbe {
            pending: if paths@.len() == 0 {
                None
            } else {
                Some((now, paths))
            },
            ..self
        }
    }

    /// After the drag was seen once more.
    pub open spec fn after_over(self, now: u64) -> Self {
        DragProbe {
            pending: match self.pending {
                Some((_, paths)) => Some((now, paths)),
                None => None,
            },
            ..self
        }
    }

    /// After the drag left.
    pub open spec fn after_leave(self) -> Self {
        DragProbe {
            pending: if self.handoff {
                self.pending
            } else {
                None
            },
            ..self
        }
    }

    /// The files that can be taken along at the time `now`.
    pub open spec fn taken(self, now: u64) -> Option<Vec<String>> {
        match self.pending {
            Some((at, paths)) if now - at <= DRAG_VALID => Some(paths),
            _ => None,
        }
    }

    /// Nothing is being dragged.
    pub fn new() -> (p: Self)
        ensures
            p.pending is None,
            !p.handoff,
    {
        DragProbe { pending: None, handoff: false }
    }

    /// A drag with these files came to the edge.
    pub fn drag_enter(&mut self, paths: Vec<String>, now: u64) -> (effect: u32)
        ensures
            *final(self) == old(self).after_enter(paths, now),
            effect == if paths@.len() == 0 { DROPEFFECT_NONE } else { DROPEFFECT_COPY },
    {
        let has_paths = paths.len() > 0;
        self.pending = if has_paths {
            Some((now, paths))
        } else {
            None
        };
        edge_probe_effect(has_paths)
    }

    /// The drag is still at the edge.
    pub fn drag_over(&mut self, now: u64) -> (effect: u32)
        ensures
            *final(self) == old(self).after_over(now),
            effect == if old(self).pending is Some { DROPEFFECT_COPY } else { DROPEFFECT_NONE },
    {
        match self.pending.take() {
            Some((_, paths)) => {
                self.pending = Some((now, paths));
                edge_probe_effect(true)
            },
            None => edge_probe_effect(false),
        }
    }

    /// The drag went away. Its files cannot be taken along by a later one.
    pub fn drag_leave(&mut self)
        ensures
            *final(self) == old(self).after_leave(),
    {
        if !self.handoff {
            self.pending = None;
        }
    }

    /// The drag was dropped at the edge: that is how a local drag ends whose files
    /// were taken along.
    pub fn on_drop(&mut self) -> (effect: u32)
        ensures
            final(self).pending == old(self).pending,
            !final(self).handoff,
            effect == if old(self).handoff { DROPEFFECT_COPY } else { DROPEFFECT_NONE },
            old(self).drops(effect, *final(self)),
    {
        let handed_off = self.handoff;
        self.handoff = false;
        edge_probe_effect(handed_off)
    }
}

/// Takes the files along that are being dragged at the edge, if they were seen there
/// a short time ago. They are gone afterwards in any case.
pub fn take_drag_paths(probe: &mut DragProbe, now: u64) -> (paths: Vec<String>)
    ensures
        final(probe).pending is None,
        match old(probe).taken(now) {
            Some(files) => paths == files && final(probe).handoff,
            None => paths@.len() == 0 && final(probe).handoff == old(probe).handoff,
        },
        old(probe).hands_over(now, paths, *final(probe)),
{
    match probe.pending.take() {
        Some((at, files)) => {
            if now < at || now - at <= DRAG_VALID {
                probe.handoff = true;
                files
            } else {
                Vec::new()
            }
        },
        None => Vec::new(),
    }
}

/// A drag takes along the files that it brought to the edge, for as long as it is
/// seen there, and a drag that left takes nothing along.
pub proof fn law_only_the_current_drag_is_taken(
    probe: DragProbe,
    paths: Vec<String>,
    entered: u64,
    seen: u64,
    now: u64,
)
    requires
        paths@.len() > 0,
        seen <= now <= seen + DRAG_VALID,
    ensures
        probe.after_enter(paths, entered).after_over(seen).taken(now) == Some(paths),
        !probe.handoff ==> probe.after_enter(paths, entered).after_leave().taken(now) is None,
{
}

/// Where the two windows at the edges of a screen start.
pub open spec fn probes(width: int) -> (int, int) {
    (0, if width - 2 < i32::MIN { i32::MIN as int } else { width - 2 })
}

/// Where the two windows at the edges of a screen of this width start; they are two
/// pixels wide.
pub fn probe_positions(width: i32) -> (xs: (i32, i32))
    ensures
        xs.0 == 0,
        xs.1 == if width - 2 < i32::MIN { i32::MIN as int } else { width - 2 },
        (xs.0 as int, xs.1 as int) == probes(width as int),
{
    if width < i32::MIN + 2 {
        (0, i32::MIN)
    } else {
        (0, width - 2)
    }
}

/// What a program that may take a drag asks for: a format, an aspect and the ways
/// in which it can be handed over.
#[derive(Debug, Clone, Copy, PartialEq, Eq, Structural)]
pub struct DragFormat {
    pub format: u16,
    pub aspect: u32,
    pub tymed: u32,
}

/// Whether a drag can be had in a format.
pub open spec fn can_be_had(f: DragFormat) -> bool {
    f.format == CF_HDROP && f.aspect == DVASPECT_CONTENT && f.tymed % 2 == 1
}

/// Whether a drag can be had in a format: only as a list of files, in memory.
pub fn supported(f: DragFormat) -> (r: bool)
    ensures
        r == (f.format == CF_HDROP && f.aspect == DVASPECT_CONTENT && f.tymed % 2 == 1),
        r == can_be_had(f),
{
    f.format as u32 == CF_HDROP && f.aspect == DVASPECT_CONTENT && f.tymed % 2 == 1
}

/// What becomes of a drag that is played here.
#[derive(Debug, Clone, Copy, PartialEq, Eq, Structural)]
pub enum DragProgress {
    Cancel,
    Drop,
    Go,
}

/// What becomes of a drag.
pub open spec fn progress(escape: bool, keys: u32) -> DragProgress {
    if escape {
        DragProgress::Cancel
    } else if keys % 2 == 0 {
        DragProgress::Drop
    } else {
        DragProgress::Go
    }
}

/// Escape cancels a drag, and letting go of the left button drops it.
pub fn query_continue_drag(escape: bool, keys: u32) -> (r: DragProgress)
    ensures
        r == if escape {
            DragProgress::Cancel
        } else if keys % 2 == 0 {
            DragProgress::Drop
        } else {
            DragProgress::Go
        },
        r == progress(escape, keys),
{
    if escape {
        DragProgress::Cancel
    } else if keys % 2 == 0 {
        DragProgress::Drop
    } else {
        DragProgress::Go
    }
}

/// A drag of the peer that is played here: whether its files were asked for, and
/// what came of it.
#[derive(Debug)]
pub struct RemoteDragReady {
    pub requested: bool,
    pub result: Option<Result<Vec<String>, String>>,
}

/// What a program that a drag was dropped on has to wait for.
#[derive(Debug)]
pub enum DragWait {
    /// Tell that the files are wanted, where an event is given, and ask again; without
    /// one, wait until something has come of the drag.
    Wait(Option<RemoteFileDragEvent>),
    /// The files are there.
    Ready(Vec<String>),
    /// There are no files.
    Failed(String),
}

impl RemoteDragReady {
    /// Whether `r` is what a program that waits for the drag `id` is told, and `after` what
    /// is known then.
    pub open spec fn tells(self, id: Seq<char>, r: DragWait, after: RemoteDragReady) -> bool {
        &&& after.requested
        &&& after.result == self.result
        &&& if !self.requested {
            r matches DragWait::Wait(Some(RemoteFileDragEvent::DataRequested(wanted))) && wanted@
                == id
        } else {
            match self.result {
                None => r matches DragWait::Wait(None),
                Some(Ok(paths)) => if paths@.len() > 0 {
                    r matches DragWait::Ready(files) && files@ == paths@
                } else {
                    r matches DragWait::Failed(e) && e@ == "remote drag has no files"@
                },
                Some(Err(error)) => r matches DragWait::Failed(e) && e@ == error@,
            }
        }
    }

    /// Whether `after` is the drag once its files came, or did not come.
    pub open spec fn completes(
        self,
        paths: Vec<String>,
        error: Option<String>,
        after: RemoteDragReady,
    ) -> bool {
        &&& after.requested == self.requested
        &&& match error {
            Some(e) => after.result == Some(Err::<Vec<String>, String>(e)),
            None => after.result matches Some(Ok(files)) && files@ == paths@,
        }
    }

    /// A drag whose files were not asked for yet.
    pub fn new() -> (d: Self)
        ensures
            !d.requested,
            d.result is None,
    {
        RemoteDragReady { requested: false, result: None }
    }

    /// The drag `id` was dropped, and the program waits for its files. They are asked
    /// for once, before anything else and even where the drag is over already; only then
    /// it counts what came of it.
    pub fn wait_for_paths(&mut self, id: &str) -> (r: DragWait)
        ensures
            final(self).requested,
            final(self).result == old(self).result,
            if !old(self).requested {
                r matches DragWait::Wait(Some(RemoteFileDragEvent::DataRequested(wanted)))
                    && wanted@ == id@
            } else {
                match old(self).result {
                    None => r matches DragWait::Wait(None),
                    Some(Ok(paths)) => if paths@.len() > 0 {
                        r matches DragWait::Ready(files) && files@ == paths@
                    } else {
                        r matches DragWait::Failed(e) && e@ == "remote drag has no files"@
                    },
                    Some(Err(error)) => r matches DragWait::Failed(e) && e@ == error@,
                }
            },
            old(self).tells(id@, r, *final(self)),
    {
        if !self.requested {
            self.requested = true;
            return DragWait::Wait(Some(RemoteFileDragEvent::DataRequested(id.to_owned())));
        }
        match &self.result {
            Some(Ok(paths)) => {
                if paths.len() > 0 {
                    DragWait::Ready(copy_texts(paths))
                } else {
                    DragWait::Failed("remote drag has no files".to_owned())
                }
            },
            Some(Err(error)) => DragWait::Failed(error.clone()),
            None => DragWait::Wait(None),
        }
    }
}

/// The drags of the peer that are played here, by their id.
pub type RemoteDrags = Table<RemoteDragReady>;

/// The files of a drag came, or did not come. Returns whether there is such a drag
/// and whoever waits for it has to be woken.
pub fn complete_remote_file_drag(
    drags: &mut RemoteDrags,
    id: &str,
    paths: &Vec<String>,
    error: Option<String>,
) -> (wake: bool)
    requires
        old(drags).wf(),
    ensures
        final(drags).wf(),
        wake == old(drags)@.contains_key(id@),
        !wake ==> final(drags)@ == old(drags)@,
        wake ==> {
            let before = old(drags)@[id@];
            &&& final(drags)@.contains_key(id@)
            &&& final(drags)@ == old(drags)@.insert(id@, final(drags)@[id@])
            &&& final(drags)@[id@].requested == before.requested
            &&& match error {
                Some(e) => final(drags)@[id@].result == Some(Err::<Vec<String>, String>(e)),
                None => final(drags)@[id@].result matches Some(Ok(files)) && files@ == paths@,
            }
            &&& before.completes(*paths, error, final(drags)@[id@])
        },
{
    match drags.remove(id) {
        Some(ready) => {
            let result: Result<Vec<String>, String> = match error {
                Some(e) => Err(e),
                None => Ok(copy_texts(paths)),
            };
            let next = RemoteDragReady { requested: ready.requested, result: Some(result) };
            drags.insert(id, next);
            proof {
                assert(final(drags)@ =~= old(drags)@.insert(id@, next));
            }
            true
        },
        None => {
            assert(final(drags)@ =~= old(drags)@);
            false
        },
    }
}

/// A drag was given up by the peer: whoever waits for its files is told so.
pub fn cancel_remote_file_drag(drags: &mut RemoteDrags, id: &str) -> (wake: bool)
    requires
        old(drags).wf(),
    ensures
        final(drags).wf(),
        wake == old(drags)@.contains_key(id@),
        !wake ==> final(drags)@ == old(drags)@,
        wake ==> {
            let before = old(drags)@[id@];
            &&& final(drags)@.contains_key(id@)
            &&& final(drags)@ == old(drags)@.insert(id@, final(drags)@[id@])
            &&& final(drags)@[id@].requested == before.requested
            &&& final(drags)@[id@].result matches Some(Err(e)) && e@ == "drag cancelled"@
        },
{
    complete_remote_file_drag(drags, id, &Vec::new(), Some("drag cancelled".to_owned()))
}

/// Files can be dropped at the edge, to be copied, and nothing else can.
pub proof fn law_only_files_can_be_dropped_at_the_edge()
    ensures
        probe_effect(true) == 1,
        probe_effect(false) == 0,
{
}

/// The files of a drag are known while it is at the edge; each time it is seen counts as
/// the last. A drag without files has none to take along.
pub proof fn law_what_is_known_of_a_drag(probe: DragProbe, paths: Vec<String>, now: u64)
    ensures
        paths@.len() > 0 ==> probe.after_enter(paths, now).pending == Some((now, paths)),
        paths@.len() == 0 ==> probe.after_enter(paths, now).pending is None,
        probe.pending is None ==> probe.after_over(now).pending is None,
        probe.pending matches Some((_, p)) ==> probe.after_over(now).pending == Some((now, p)),
        !probe.handoff ==> probe.after_leave().pending is None,
        probe.handoff ==> probe.after_leave().pending == probe.pending,
        probe.after_enter(paths, now).handoff == probe.handoff,
        probe.after_over(now).handoff == probe.handoff,
        probe.after_leave().handoff == probe.handoff,
{
}

/// Files are taken along up to fifteen seconds after they were last seen at the edge, and
/// only once; the drop that follows is answered as a copy, and the next is not.
pub proof fn law_files_are_taken_along_once(
    probe: DragProbe,
    now: u64,
    later: u64,
    taken: Vec<String>,
    after: DragProbe,
    again: Vec<String>,
    end: DragProbe,
)
    requires
        probe.hands_over(now, taken, after),
        after.hands_over(later, again, end),
    ensures
        probe.pending matches Some((at, files)) ==> {
            &&& now <= at + 15 * 1_000_000_000 ==> taken == files && after.handoff
            &&& now > at + 15 * 1_000_000_000 ==> taken@.len() == 0 && after.handoff
                == probe.handoff
        },
        probe.pending is None ==> taken@.len() == 0,
        again@.len() == 0,
{
}

/// A drop at the edge is answered as a copy exactly once after files were taken along.
pub proof fn law_one_drop_ends_a_drag(
    probe: DragProbe,
    effect: u32,
    after: DragProbe,
    next: u32,
    end: DragProbe,
)
    requires
        probe.drops(effect, after),
        after.drops(next, end),
    ensures
        effect == 1 <==> probe.handoff,
        effect == 0 <==> !probe.handoff,
        next == 0,
        after.pending == probe.pending,
{
}

/// The two windows cover the two outermost pixels at the left and at the right.
pub proof fn law_windows_are_at_the_edges(width: int)
    requires
        width >= 2,
    ensures
        probes(width).0 == 0,
        probes(width).1 + 2 == width,
{
}

/// A drag can be had as a list of files in memory, as content, and in no other way.
pub proof fn law_how_a_drag_can_be_had(f: DragFormat)
    ensures
        can_be_had(f) <==> (f.format == 15 && f.aspect == 1 && f.tymed % 2 == 1),
{
}

/// Escape gives a drag up, whatever else is pressed; otherwise it is dropped when the left
/// button, the lowest bit, is let go.
pub proof fn law_what_becomes_of_a_drag(keys: u32)
    ensures
        progress(true, keys) == DragProgress::Cancel,
        keys % 2 == 0 ==> progress(false, keys) == DragProgress::Drop,
        keys % 2 == 1 ==> progress(false, keys) == DragProgress::Go,
{
}

/// A program that waits for the files of a drag first has them asked for, once and by the
/// name of the drag. From then on it gets the files as soon as they are there, the reason
/// why there are none, or has to go on waiting.
pub proof fn law_what_a_waiting_program_is_told(
    drag: RemoteDragReady,
    id: Seq<char>,
    r: DragWait,
    after: RemoteDragReady,
    next: DragWait,
    end: RemoteDragReady,
)
    requires
        drag.tells(id, r, after),
        after.tells(id, next, end),
    ensures
        !drag.requested ==> (r matches DragWait::Wait(
            Some(RemoteFileDragEvent::DataRequested(wanted)),
        ) && wanted@ == id),
        next matches DragWait::Wait(w) ==> w is None && drag.result is None,
        drag.result is None ==> next is Wait,
        drag.result matches Some(Ok(paths)) ==> {
            &&& paths@.len() > 0 ==> (next matches DragWait::Ready(files) && files@ == paths@)
            &&& paths@.len() == 0 ==> next is Failed
        },
        drag.result matches Some(Err(error)) ==> (next matches DragWait::Failed(e) && e@ == error@),
        end.result == drag.result,
{
}

/// What came of a drag is what its waiting program is told: the files in their order, or
/// the error.
pub proof fn law_what_came_of_a_drag_is_told(
    drag: RemoteDragReady,
    paths: Vec<String>,
    error: Option<String>,
    done: RemoteDragReady,
    id: Seq<char>,
    r: DragWait,
    after: RemoteDragReady,
)
    requires
        drag.requested,
        drag.completes(paths, error, done),
        done.tells(id, r, after),
    ensures
        error matches Some(e) ==> (r matches DragWait::Failed(t) && t@ == e@),
        error is None && paths@.len() > 0 ==> (r matches DragWait::Ready(files) && files@ == paths@),
        error is None && paths@.len() == 0 ==> r is Failed,
{
}

} // verus!
