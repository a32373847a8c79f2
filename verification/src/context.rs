//! What the banner sees of the editor, and what it asks of it.

use crate::project::{Project, WorktreeId};
use crate::rel_path::RelPath;
use vstd::prelude::*;

verus! {

/// The identity of a buffer.
#[derive(Clone, Copy, Debug, PartialEq, Eq, Structural)]
pub struct BufferId(pub u64);

/// The code of a diagnostic, as language servers send it.
#[derive(Debug)]
pub enum NumberOrString {
    Number(i32),
    String(String),
}

/// A diagnostic on a buffer.
#[derive(Debug)]
pub struct Diagnostic {
    pub code: Option<NumberOrString>,
}

/// The file that a buffer shows.
#[derive(Debug)]
pub struct File {
    pub path: RelPath,
    pub worktree_id: WorktreeId,
}

/// A buffer: its file, unless it has none yet, and the diagnostics on it.
#[derive(Debug)]
pub struct Buffer {
    pub id: BufferId,
    pub file: Option<File>,
    pub diagnostics: Vec<Diagnostic>,
}

/// An item in a pane. An editor has a singleton buffer, unless it shows several at once.
#[derive(Clone, Copy, Debug, PartialEq, Eq, Structural)]
pub enum PaneItem {
    Editor { singleton: Option<BufferId> },
    Other,
}

/// An event of the project.
#[derive(Clone, Copy, Debug, PartialEq, Eq, Structural)]
pub enum ProjectEvent {
    DiagnosticsUpdated,
    Other,
}

/// Where a toolbar shows an item.
#[derive(Clone, Copy, Debug, PartialEq, Eq, Structural)]
pub enum ToolbarItemLocation {
    Hidden,
    Secondary,
}

/// Something for the editor to do.
#[derive(Clone, Copy, Debug, PartialEq, Eq, Structural)]
pub enum Effect {
    /// Tell the toolbar where to show the banner.
    ChangeLocation(ToolbarItemLocation),
    /// Store whether the banner is dismissed for good.
    SetDismissed(bool),
    /// Draw the banner anew.
    Notify,
}

/// The state of the editor: its buffers, the project unless that is closed, and what the
/// editor has been asked to do.
#[derive(Debug)]
pub struct Context {
    pub buffers: Vec<Buffer>,
    pub project: Option<Project>,
    pub effects: Vec<Effect>,
}

/// The first of `buffers` with the identity `id`, if there is one.
pub open spec fn buffer_with_id(buffers: Seq<Buffer>, id: BufferId) -> Option<Buffer>
    decreases buffers.len(),
{
    if buffers.len() == 0 {
        None
    } else if buffers[0].id == id {
        Some(buffers[0])
    } else {
        buffer_with_id(buffers.drop_first(), id)
    }
}

impl Context {
    /// Whether `next` is `self` with `effects` asked for as well, and nothing else changed.
    pub open spec fn asked(self, next: Context, effects: Seq<Effect>) -> bool {
        &&& next.buffers == self.buffers
        &&& next.project == self.project
        &&& next.effects@ =~= self.effects@ + effects
    }

    /// The buffer with the identity `id`, if it is open.
    pub fn buffer(&self, id: BufferId) -> (result: Option<&Buffer>)
        ensures
            result is None <==> buffer_with_id(self.buffers@, id) is None,
            result matches Some(buffer) ==> buffer_with_id(self.buffers@, id) == Some(*buffer),
    {
        let mut i: usize = 0;
        assert(self.buffers@.skip(0) == self.buffers@);
        while i < self.buffers.len()
            invariant
                i <= self.buffers@.len(),
                buffer_with_id(self.buffers@, id) == buffer_with_id(
                    self.buffers@.skip(i as int),
                    id,
                ),
            decreases self.buffers@.len() - i,
        {
            if self.buffers[i].id == id {
                return Some(&self.buffers[i]);
            }
            assert(self.buffers@.skip(i as int).drop_first() == self.buffers@.skip(i + 1));
            i += 1;
        }
        None
    }

    /// Tells the toolbar where to show the banner.
    pub fn emit(&mut self, location: ToolbarItemLocation)
        ensures
            old(self).asked(*final(self), seq![Effect::ChangeLocation(location)]),
    {
        self.effects.push(Effect::ChangeLocation(location));
    }

    /// Stores whether the banner is dismissed for good.
    pub fn set_dismissed(&mut self, dismissed: bool)
        ensures
            old(self).asked(*final(self), seq![Effect::SetDismissed(dismissed)]),
    {
        self.effects.push(Effect::SetDismissed(dismissed));
    }

    /// Asks for the banner to be drawn anew.
    pub fn notify(&mut self)
        ensures
            old(self).asked(*final(self), seq![Effect::Notify]),
    {
        self.effects.push(Effect::Notify);
    }
}

/// The buffer with a given identity is the first that has it, and there is none where no
/// buffer has it.
pub proof fn law_buffer_with_id(buffers: Seq<Buffer>, id: BufferId)
    ensures
        forall|k: int|
            0 <= k < buffers.len() && (#[trigger] buffers[k]).id == id && (forall|j: int|
                0 <= j < k ==> (#[trigger] buffers[j]).id != id) ==> buffer_with_id(buffers, id)
                == Some(buffers[k]),
        (forall|j: int| 0 <= j < buffers.len() ==> (#[trigger] buffers[j]).id != id)
            ==> buffer_with_id(buffers, id) is None,
    decreases buffers.len(),
{
    if buffers.len() > 0 {
        let rest = buffers.drop_first();
        law_buffer_with_id(rest, id);
        assert forall|k: int|
            0 <= k < buffers.len() && (#[trigger] buffers[k]).id == id && (forall|j: int|
                0 <= j < k ==> (#[trigger] buffers[j]).id != id) implies buffer_with_id(
            buffers,
            id,
        ) == Some(buffers[k]) by {
            if k > 0 {
                assert(buffers[0].id != id);
                assert(rest[k - 1] == buffers[k]);
                assert forall|j: int| 0 <= j < k - 1 implies (#[trigger] rest[j]).id != id by {
                    assert(rest[j] == buffers[j + 1]);
                }
            }
        }
        if forall|j: int| 0 <= j < buffers.len() ==> (#[trigger] buffers[j]).id != id {
            assert(buffers[0].id != id);
            assert forall|j: int| 0 <= j < rest.len() implies (#[trigger] rest[j]).id != id by {
                assert(rest[j] == buffers[j + 1]);
            }
        }
    }
}

/// A buffer that is found has the identity that was looked for, and is one of the buffers.
pub proof fn lemma_found_buffer(buffers: Seq<Buffer>, id: BufferId) -> (k: int)
    requires
        buffer_with_id(buffers, id) is Some,
    ensures
        0 <= k < buffers.len(),
        buffers[k] == buffer_with_id(buffers, id)->0,
        buffers[k].id == id,
        forall|j: int| 0 <= j < k ==> (#[trigger] buffers[j]).id != id,
    decreases buffers.len(),
{
    if buffers[0].id == id {
        0
    } else {
        let rest = buffers.drop_first();
        let k = lemma_found_buffer(rest, id);
        assert(buffers[k + 1] == rest[k]);
        assert forall|j: int| 0 <= j < k + 1 implies (#[trigger] buffers[j]).id != id by {
            if j > 0 {
                assert(rest[j - 1] == buffers[j]);
            }
        }
        k + 1
    }
}

/// What is asked for comes behind all that was asked for before, once each and in order, and
/// asking changes nothing else.
pub proof fn law_asked(before: Context, after: Context, effects: Seq<Effect>)
    requires
        before.asked(after, effects),
    ensures
        after.buffers == before.buffers,
        after.project == before.project,
        after.effects@.len() == before.effects@.len() + effects.len(),
        forall|i: int|
            0 <= i < before.effects@.len() ==> #[trigger] after.effects@[i] == before.effects@[i],
        forall|i: int|
            0 <= i < effects.len() ==> after.effects@[before.effects@.len() + i]
                == #[trigger] effects[i],
{
}

} // verus!
