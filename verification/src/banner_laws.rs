//! What holds of the banner, said of what it is given and of what becomes of it.
//!
//! Each law speaks of a call by what the call ensures, and says what that comes to in the fields
//! of the banner, in the diagnostics and paths of the editor, and in the effects asked for.

use crate::context::{
    BufferId, Context, Diagnostic, Effect, File, NumberOrString, PaneItem, ProjectEvent,
    ToolbarItemLocation,
};
use crate::context;
use crate::mod_declaration;
use crate::project::Project;
use crate::project;
use crate::rel_path;
use crate::rust::{
    AttachAction, AttachEvent, AttachStage, AttachTask, BannerElement, BannerState,
    RustUnlinkedFileBanner, UnlinkedFileInfo,
};
use crate::rust;
use vstd::prelude::*;

verus! {

/// Whether the file name `name` is something and `.rs`.
pub open spec fn rust_name(name: Seq<char>) -> bool {
    let n = name.len() as int;
    n > 3 && name[n - 3] == '.' && name[n - 2] == 'r' && name[n - 1] == 's'
}

/// Whether `id` is the identity of the buffer at `k`, and that buffer shows a Rust file. Of
/// several buffers with one identity the first counts.
pub open spec fn rust_buffer_at(id: Option<BufferId>, cx: Context, k: int) -> bool {
    &&& 0 <= k < cx.buffers@.len()
    &&& id == Some(cx.buffers@[k].id)
    &&& forall|j: int| 0 <= j < k ==> (#[trigger] cx.buffers@[j]).id != cx.buffers@[k].id
    &&& cx.buffers@[k].file matches Some(file) && file.path@.len() > 0 && rust_name(
        file.path@.last(),
    )
}

/// Whether the diagnostic at `i` has the string `unlinked-file` as its code.
pub open spec fn unlinked_at(diagnostics: Seq<Diagnostic>, i: int) -> bool {
    &&& 0 <= i < diagnostics.len()
    &&& diagnostics[i].code matches Some(NumberOrString::String(code)) && code@ == seq![
        'u',
        'n',
        'l',
        'i',
        'n',
        'k',
        'e',
        'd',
        '-',
        'f',
        'i',
        'l',
        'e',
    ]
}

/// Whether `info` tells how to attach `file`: it names the file without `.rs`, and an entry of
/// the file's worktree that is its parent module, by its path and by its name.
pub open spec fn tells_of(info: UnlinkedFileInfo, file: File, project: Project) -> bool {
    &&& file.path@.len() > 0
    &&& file.path@.last() == info.file_stem@ + seq!['.', 'r', 's']
    &&& info.worktree_id == file.worktree_id
    &&& info.parent_module_rel_path@.len() > 0
    &&& info.parent_module_rel_path@.last() == info.parent_module_file_name@
    &&& exists|w: int|
        0 <= w < project.worktrees@.len() && (#[trigger] project.worktrees@[w]).id
            == file.worktree_id && project::listed(
            project.worktrees@[w].entries@,
            info.parent_module_rel_path@,
        )
    &&& project::parent_module(file.path@, file.worktree_id, project) == Some(
        (info.parent_module_file_name@, info.parent_module_rel_path@),
    )
}

/// Whether two infos say the same.
pub open spec fn same_info(some: Option<UnlinkedFileInfo>, other: Option<UnlinkedFileInfo>) -> bool {
    match (some, other) {
        (Some(some), Some(other)) => {
            &&& some.file_stem@ == other.file_stem@
            &&& some.parent_module_rel_path@ == other.parent_module_rel_path@
            &&& some.parent_module_file_name@ == other.parent_module_file_name@
            &&& some.worktree_id == other.worktree_id
        },
        (None, None) => true,
        _ => false,
    }
}

proof fn lemma_same_info(some: RustUnlinkedFileBanner, other: RustUnlinkedFileBanner)
    requires
        some@.current_file_info == other@.current_file_info,
    ensures
        same_info(some.current_file_info, other.current_file_info),
{
    if let Some(info) = some.current_file_info {
        assert(some@.current_file_info == Some(info@));
    }
    if let Some(info) = other.current_file_info {
        assert(other@.current_file_info == Some(info@));
    }
}

/// Where a banner with these marks belongs.
pub open spec fn place(dismissed: bool, has_unlinked_diagnostic: bool) -> ToolbarItemLocation {
    if has_unlinked_diagnostic && !dismissed {
        ToolbarItemLocation::Secondary
    } else {
        ToolbarItemLocation::Hidden
    }
}

proof fn lemma_rust_name(name: Seq<char>)
    ensures
        rel_path::suffix(name) == Some("rs"@) <==> rust_name(name),
        rust_name(name) ==> name == rel_path::stem(name) + seq!['.', 'r', 's'],
{
    reveal_strlit("rs");
    assert("rs"@ == seq!['r', 's']);
    let n = name.len() as int;
    if rel_path::suffix(name) == Some("rs"@) {
        rel_path::law_stem_and_extension(name);
        let stem = rel_path::stem(name);
        assert(name == stem + seq!['.'] + "rs"@);
        assert(name[n - 3] == '.' && name[n - 2] == 'r' && name[n - 1] == 's');
    }
    if rust_name(name) {
        let before = name.take(n - 3);
        assert(name == before + seq!['.'] + "rs"@);
        assert(!"rs"@.contains('.'));
        rel_path::law_file_name_parts(before, "rs"@);
        assert(name == before + seq!['.', 'r', 's']);
    }
}

proof fn lemma_unlinked(diagnostics: Seq<Diagnostic>)
    ensures
        rust::reports_unlinked_file(diagnostics) <==> exists|i: int| #[trigger]
            unlinked_at(diagnostics, i),
{
    reveal_strlit("unlinked-file");
    assert("unlinked-file"@ == seq![
        'u',
        'n',
        'l',
        'i',
        'n',
        'k',
        'e',
        'd',
        '-',
        'f',
        'i',
        'l',
        'e',
    ]);
    if rust::reports_unlinked_file(diagnostics) {
        let i = choose|i: int|
            0 <= i < diagnostics.len() && rust::is_unlinked_file_code(
                (#[trigger] diagnostics[i]).code,
            );
        assert(unlinked_at(diagnostics, i));
    }
    if exists|i: int| #[trigger] unlinked_at(diagnostics, i) {
        let i = choose|i: int| #[trigger] unlinked_at(diagnostics, i);
        assert(rust::is_unlinked_file_code(diagnostics[i].code));
    }
}

proof fn lemma_rust_buffer(banner: BannerState, cx: Context, k: int)
    requires
        rust_buffer_at(banner.active_buffer, cx, k),
    ensures
        banner.watched_buffer(cx) == Some(cx.buffers@[k]),
{
    let buffer = cx.buffers@[k];
    context::law_buffer_with_id(cx.buffers@, buffer.id);
    lemma_rust_name(buffer.file->0.path@.last());
}

proof fn lemma_no_rust_buffer(banner: BannerState, cx: Context)
    requires
        forall|k: int| !#[trigger] rust_buffer_at(banner.active_buffer, cx, k),
    ensures
        banner.watched_buffer(cx) is None,
{
    if let Some(id) = banner.active_buffer {
        if context::buffer_with_id(cx.buffers@, id) is Some {
            let k = context::lemma_found_buffer(cx.buffers@, id);
            if let Some(file) = cx.buffers@[k].file {
                lemma_rust_name(file.path@.last());
            }
            assert(!rust_buffer_at(banner.active_buffer, cx, k));
        }
    }
}

proof fn lemma_refreshed_info(state: BannerState, cx: Context, after: RustUnlinkedFileBanner, k: int)
    requires
        rust_buffer_at(state.active_buffer, cx, k),
        after@ == state.refreshed(cx),
    ensures
        after.has_unlinked_diagnostic <==> exists|i: int| #[trigger]
            unlinked_at(cx.buffers@[k].diagnostics@, i),
        after.current_file_info is Some <==> {
            &&& after.has_unlinked_diagnostic
            &&& cx.project matches Some(project) && project::parent_module(
                cx.buffers@[k].file->0.path@,
                cx.buffers@[k].file->0.worktree_id,
                project,
            ) is Some
        },
        after.current_file_info matches Some(info) ==> tells_of(
            info,
            cx.buffers@[k].file->0,
            cx.project->0,
        ),
        after.dismissed == state.dismissed,
        after.active_buffer == state.active_buffer,
{
    let buffer = cx.buffers@[k];
    let file = buffer.file->0;
    lemma_rust_buffer(state, cx, k);
    lemma_unlinked(buffer.diagnostics@);
    assert(after@.current_file_info is Some <==> after.current_file_info is Some);
    if let Some(info) = after.current_file_info {
        assert(after@.current_file_info == Some(info@));
        project::law_parent_module_is_entry(file.path@, file.worktree_id, cx.project->0);
        lemma_rust_name(file.path@.last());
    }
}

/// Looking at the diagnostics of a watched Rust file finds it unlinked exactly if one of them,
/// whichever it is and whatever the others are, has the code `unlinked-file`. Then, and only
/// then, it finds the parent module of the file, if the project is open and has one.
pub proof fn law_refresh(
    before: RustUnlinkedFileBanner,
    cx: Context,
    after: RustUnlinkedFileBanner,
    k: int,
)
    requires
        after@ == before@.refreshed(cx),
        rust_buffer_at(before.active_buffer, cx, k),
    ensures
        after.has_unlinked_diagnostic <==> exists|i: int| #[trigger]
            unlinked_at(cx.buffers@[k].diagnostics@, i),
        after.current_file_info is Some <==> {
            &&& after.has_unlinked_diagnostic
            &&& cx.project matches Some(project) && project::parent_module(
                cx.buffers@[k].file->0.path@,
                cx.buffers@[k].file->0.worktree_id,
                project,
            ) is Some
        },
        after.current_file_info matches Some(info) ==> tells_of(
            info,
            cx.buffers@[k].file->0,
            cx.project->0,
        ),
        after.dismissed == before.dismissed,
        after.active_buffer == before.active_buffer,
{
    lemma_refreshed_info(before@, cx, after, k);
}

/// A banner that watches no Rust file finds nothing.
pub proof fn law_refresh_without_rust_file(
    before: RustUnlinkedFileBanner,
    cx: Context,
    after: RustUnlinkedFileBanner,
)
    requires
        after@ == before@.refreshed(cx),
        forall|k: int| !#[trigger] rust_buffer_at(before.active_buffer, cx, k),
    ensures
        !after.has_unlinked_diagnostic,
        after.current_file_info is None,
        after.dismissed == before.dismissed,
        after.active_buffer == before.active_buffer,
{
    lemma_no_rust_buffer(before@, cx);
    assert(after@.current_file_info is None);
}

/// One diagnostic with the code is enough, and the order of the diagnostics does not matter:
/// two buffers with the same diagnostics in another order are found alike.
pub proof fn law_order_of_diagnostics(some: Seq<Diagnostic>, other: Seq<Diagnostic>)
    requires
        forall|i: int|
            0 <= i < some.len() ==> exists|j: int|
                0 <= j < other.len() && #[trigger] other[j] == #[trigger] some[i],
    ensures
        rust::reports_unlinked_file(some) ==> rust::reports_unlinked_file(other),
{
    lemma_unlinked(some);
    lemma_unlinked(other);
    if rust::reports_unlinked_file(some) {
        let i = choose|i: int| #[trigger] unlinked_at(some, i);
        let d = some[i];
        let j = choose|j: int| 0 <= j < other.len() && #[trigger] other[j] == d;
        assert(unlinked_at(other, j));
    }
}

/// Looking at a watched Rust file tells the toolbar where the banner now belongs and has it
/// drawn anew, in this order; without a watched Rust file nothing is asked for.
pub proof fn law_refresh_asks(
    before: RustUnlinkedFileBanner,
    cx: Context,
    after: RustUnlinkedFileBanner,
    cx_after: Context,
)
    requires
        after@ == before@.refreshed(cx),
        cx.asked(cx_after, before@.refresh_effects(cx)),
    ensures
        cx_after.buffers == cx.buffers,
        cx_after.project == cx.project,
        forall|k: int| #[trigger]
            rust_buffer_at(before.active_buffer, cx, k) ==> cx_after.effects@ == cx.effects@.push(
                Effect::ChangeLocation(place(after.dismissed, after.has_unlinked_diagnostic)),
            ).push(Effect::Notify),
        (forall|k: int| !#[trigger] rust_buffer_at(before.active_buffer, cx, k))
            ==> cx_after.effects@ == cx.effects@,
{
    assert forall|k: int| #[trigger]
        rust_buffer_at(before.active_buffer, cx, k) implies cx_after.effects@ == cx.effects@.push(
        Effect::ChangeLocation(place(after.dismissed, after.has_unlinked_diagnostic)),
    ).push(Effect::Notify) by {
        lemma_rust_buffer(before@, cx, k);
    }
    if forall|k: int| !#[trigger] rust_buffer_at(before.active_buffer, cx, k) {
        lemma_no_rust_buffer(before@, cx);
        assert(cx_after.effects@ == cx.effects@);
    }
}

/// An event of the project is minded exactly if it brings new diagnostics.
pub proof fn law_project_event(
    before: RustUnlinkedFileBanner,
    event: ProjectEvent,
    cx: Context,
    after: RustUnlinkedFileBanner,
    cx_after: Context,
)
    requires
        after@ == before@.handled(event, cx),
        cx.asked(cx_after, before@.event_effects(event, cx)),
    ensures
        event is DiagnosticsUpdated ==> {
            &&& after@ == before@.refreshed(cx)
            &&& cx.asked(cx_after, before@.refresh_effects(cx))
        },
        event is Other ==> {
            &&& after.dismissed == before.dismissed
            &&& after.has_unlinked_diagnostic == before.has_unlinked_diagnostic
            &&& after.active_buffer == before.active_buffer
            &&& same_info(after.current_file_info, before.current_file_info)
            &&& cx_after.effects@ == cx.effects@
        },
{
    if event is Other {
        lemma_same_info(after, before);
        assert(cx_after.effects@ == cx.effects@);
    }
}

/// When an editor on one Rust file becomes active, a banner that is not dismissed watches that
/// file, whatever it watched before. It shows exactly if a diagnostic of that file has the code
/// `unlinked-file`, knows the parent module of that file, and tells the toolbar.
pub proof fn law_watches_active_rust_file(
    before: RustUnlinkedFileBanner,
    id: BufferId,
    cx: Context,
    after: RustUnlinkedFileBanner,
    cx_after: Context,
    location: ToolbarItemLocation,
    k: int,
)
    requires
        after@ == before@.watching(
            Some(PaneItem::Editor { singleton: Some(id) }),
            cx,
        ).refreshed(cx),
        location == after@.location(),
        cx.asked(
            cx_after,
            before@.watching(
                Some(PaneItem::Editor { singleton: Some(id) }),
                cx,
            ).refresh_effects(cx),
        ),
        !before.dismissed,
        rust_buffer_at(Some(id), cx, k),
    ensures
        !after.dismissed,
        after.active_buffer == Some(id),
        after.has_unlinked_diagnostic <==> exists|i: int| #[trigger]
            unlinked_at(cx.buffers@[k].diagnostics@, i),
        location == ToolbarItemLocation::Secondary <==> exists|i: int| #[trigger]
            unlinked_at(cx.buffers@[k].diagnostics@, i),
        after.current_file_info is Some <==> {
            &&& after.has_unlinked_diagnostic
            &&& cx.project matches Some(project) && project::parent_module(
                cx.buffers@[k].file->0.path@,
                cx.buffers@[k].file->0.worktree_id,
                project,
            ) is Some
        },
        after.current_file_info matches Some(info) ==> tells_of(
            info,
            cx.buffers@[k].file->0,
            cx.project->0,
        ),
        cx_after.buffers == cx.buffers,
        cx_after.project == cx.project,
        cx_after.effects@ == cx.effects@.push(Effect::ChangeLocation(location)).push(
            Effect::Notify,
        ),
{
    let item = Some(PaneItem::Editor { singleton: Some(id) });
    let cleared = BannerState { active_buffer: Some(id), ..before@.cleared() };
    lemma_rust_buffer(cleared, cx, k);
    let watching = before@.watching(item, cx);
    assert(watching.active_buffer == Some(id));
    lemma_refreshed_info(watching, cx, after, k);
    lemma_rust_buffer(watching, cx, k);
    assert(cx_after.effects@ == cx.effects@.push(Effect::ChangeLocation(location)).push(
        Effect::Notify,
    ));
}

/// A dismissed banner, and one whose pane item is no editor on one Rust file, watches nothing,
/// shows nothing and asks for nothing.
pub proof fn law_watches_nothing_else(
    before: RustUnlinkedFileBanner,
    item: Option<PaneItem>,
    cx: Context,
    after: RustUnlinkedFileBanner,
    cx_after: Context,
    location: ToolbarItemLocation,
)
    requires
        after@ == before@.watching(item, cx).refreshed(cx),
        location == after@.location(),
        cx.asked(cx_after, before@.watching(item, cx).refresh_effects(cx)),
        before.dismissed || (item matches Some(PaneItem::Editor { singleton: Some(id) })
            ==> forall|k: int| !#[trigger] rust_buffer_at(Some(id), cx, k)),
    ensures
        after.dismissed == before.dismissed,
        after.active_buffer is None,
        !after.has_unlinked_diagnostic,
        after.current_file_info is None,
        location == ToolbarItemLocation::Hidden,
        cx_after.buffers == cx.buffers,
        cx_after.project == cx.project,
        cx_after.effects@ == cx.effects@,
{
    if !before.dismissed {
        if let Some(PaneItem::Editor { singleton: Some(id) }) = item {
            lemma_no_rust_buffer(
                BannerState { active_buffer: Some(id), ..before@.cleared() },
                cx,
            );
        }
    }
    assert(after@.current_file_info is None);
    assert(cx_after.effects@ == cx.effects@);
}

/// The toolbar shows a banner exactly while a file is reported as unlinked and the banner is
/// not dismissed.
pub proof fn law_toolbar_location(banner: RustUnlinkedFileBanner, location: ToolbarItemLocation)
    requires
        location == banner@.location(),
    ensures
        location == place(banner.dismissed, banner.has_unlinked_diagnostic),
{
}

/// Starting to attach takes the file info and nothing else. There is work to do exactly if the
/// info was there and the project is open, and it is to open the module file of that info.
pub proof fn law_attach(
    before: RustUnlinkedFileBanner,
    cx: Context,
    after: RustUnlinkedFileBanner,
    task: Option<AttachTask>,
)
    requires
        after@ == before@.attaching(),
        task is Some <==> rust::attach_task(before, cx) is Some,
        task matches Some(task) ==> rust::attach_task(before, cx) == Some(task@),
    ensures
        after.dismissed == before.dismissed,
        after.has_unlinked_diagnostic == before.has_unlinked_diagnostic,
        after.active_buffer == before.active_buffer,
        after.current_file_info is None,
        task is Some <==> before.current_file_info is Some && cx.project is Some,
        task matches Some(task) ==> {
            let info = before.current_file_info->0;
            &&& task.file_stem@ == info.file_stem@
            &&& task.project_path.worktree_id == info.worktree_id
            &&& task.project_path.path@ == info.parent_module_rel_path@
            &&& task.stage is Opening
        },
{
    assert(after@.current_file_info is None);
}

/// After the banner has looked at a file, the work of attaching it opens a file that is an entry
/// of its worktree, the file's parent module, and declares the file by its name without `.rs`.
pub proof fn law_attach_opens_parent_module(
    before: RustUnlinkedFileBanner,
    cx: Context,
    refreshed: RustUnlinkedFileBanner,
    task: AttachTask,
    k: int,
)
    requires
        refreshed@ == before@.refreshed(cx),
        rust_buffer_at(before.active_buffer, cx, k),
        rust::attach_task(refreshed, cx) == Some(task@),
    ensures
        ({
            let file = cx.buffers@[k].file->0;
            let project = cx.project->0;
            let path = task.project_path.path@;
            &&& cx.project is Some
            &&& exists|i: int| #[trigger] unlinked_at(cx.buffers@[k].diagnostics@, i)
            &&& task.project_path.worktree_id == file.worktree_id
            &&& file.path@.last() == task.file_stem@ + seq!['.', 'r', 's']
            &&& path.len() > 0
            &&& project::parent_module(file.path@, file.worktree_id, project) == Some(
                (path.last(), path),
            )
            &&& exists|w: int|
                0 <= w < project.worktrees@.len() && (#[trigger] project.worktrees@[w]).id
                    == file.worktree_id && project::listed(project.worktrees@[w].entries@, path)
        }),
{
    lemma_refreshed_info(before@, cx, refreshed, k);
}

/// An attach task asks for an edit exactly when its module file has been opened: for none if
/// the declaration stands there already, and else for the declaration at the insertion offset.
pub proof fn law_attach_edits(
    stage: AttachStage,
    file_stem: Seq<char>,
    event: AttachEvent,
    action: AttachAction,
)
    requires
        action@ == rust::asked_after(stage, file_stem, event),
    ensures
        action is EditAndSave <==> stage is Opening && event is BufferOpened,
        action matches AttachAction::EditAndSave(edit) ==> {
            let contents = event->contents@;
            &&& edit is None <==> exists|a: Seq<char>, b: Seq<char>|
                contents == #[trigger] (a + mod_declaration::mod_statement(file_stem) + b)
            &&& edit matches Some(edit) ==> {
                &&& edit.offset == mod_declaration::insertion_offset(contents)
                &&& edit.new_text@ == seq!['m', 'o', 'd', ' '] + file_stem + seq![';', '\n']
            }
        },
{
    if let AttachAction::EditAndSave(edit) = action {
        match edit {
            Some(edit) => {
                assert(action@ == rust::Asked::EditAndSave(Some(edit@)));
            },
            None => {
                assert(action@ == rust::Asked::EditAndSave(None));
            },
        }
        mod_declaration::law_declare_module(event->contents@, file_stem, edit);
    }
}

/// An attach task finishes exactly when its module file has been opened and then saved; after
/// anything else it stops, and once it has finished or stopped it does nothing more.
pub proof fn law_attach_finishes_once_saved(
    file_stem: Seq<char>,
    first: AttachEvent,
    second: AttachEvent,
    third: AttachEvent,
)
    ensures
        ({
            let opened = rust::stage_after(AttachStage::Opening, first);
            let saved = rust::stage_after(opened, second);
            &&& !(rust::asked_after(AttachStage::Opening, file_stem, first) is Finish)
            &&& rust::asked_after(opened, file_stem, second) is Finish <==> first is BufferOpened
                && second is BufferSaved
            &&& !(rust::asked_after(opened, file_stem, second) is EditAndSave)
            &&& rust::asked_after(saved, file_stem, third) is Stop
            &&& first is BufferOpened <==> opened is Saving
            &&& !(first is BufferOpened) ==> opened is Closed && rust::asked_after(
                AttachStage::Opening,
                file_stem,
                first,
            ) is Stop
            &&& saved is Closed
            &&& rust::stage_after(saved, third) is Closed
        }),
{
}

/// Once a file is attached the banner has nothing to report and is hidden: the toolbar is told
/// so, and the banner is drawn anew.
pub proof fn law_finish_attach(
    before: RustUnlinkedFileBanner,
    cx: Context,
    after: RustUnlinkedFileBanner,
    cx_after: Context,
)
    requires
        after@ == before@.cleared(),
        cx.asked(cx_after, before@.finish_effects()),
    ensures
        after.dismissed == before.dismissed,
        after.active_buffer == before.active_buffer,
        !after.has_unlinked_diagnostic,
        after.current_file_info is None,
        cx_after.buffers == cx.buffers,
        cx_after.project == cx.project,
        cx_after.effects@ == cx.effects@.push(
            Effect::ChangeLocation(place(after.dismissed, after.has_unlinked_diagnostic)),
        ).push(Effect::Notify),
{
    assert(after@.current_file_info is None);
    assert(cx_after.effects@ == cx.effects@.push(
        Effect::ChangeLocation(ToolbarItemLocation::Hidden),
    ).push(Effect::Notify));
}

/// Dismissing sets the mark and changes nothing else of the banner. It is stored, the toolbar is
/// told that the banner is hidden, and the banner is drawn anew.
pub proof fn law_dismiss(
    before: RustUnlinkedFileBanner,
    cx: Context,
    after: RustUnlinkedFileBanner,
    cx_after: Context,
)
    requires
        after@ == before@.dismissing(),
        cx.asked(cx_after, before@.dismiss_effects()),
    ensures
        after.dismissed,
        after.active_buffer == before.active_buffer,
        after.has_unlinked_diagnostic == before.has_unlinked_diagnostic,
        same_info(after.current_file_info, before.current_file_info),
        cx_after.buffers == cx.buffers,
        cx_after.project == cx.project,
        cx_after.effects@ == cx.effects@.push(Effect::SetDismissed(true)).push(
            Effect::ChangeLocation(place(after.dismissed, after.has_unlinked_diagnostic)),
        ).push(Effect::Notify),
{
    lemma_same_info(after, before);
    assert(cx_after.effects@ == cx.effects@.push(Effect::SetDismissed(true)).push(
        Effect::ChangeLocation(ToolbarItemLocation::Hidden),
    ).push(Effect::Notify));
}

/// The banner shows, as a warning, exactly while a file is reported as unlinked and the banner
/// is not dismissed. Its last button dismisses it; in front of that, exactly while the module
/// file is known, one attaches the file and names the module file.
pub proof fn law_render(banner: RustUnlinkedFileBanner, element: Option<BannerElement>)
    requires
        element is Some <==> banner@.rendered() is Some,
        element matches Some(element) ==> banner@.rendered() == Some(element@),
    ensures
        element is Some <==> banner.has_unlinked_diagnostic && !banner.dismissed,
        element matches Some(element) ==> {
            let n = element.actions@.len() as int;
            &&& element.severity is Warning
            &&& element.message@
                == "Module declaration missing. This may impact smart editing features and auto-completion."@
            &&& n > 0
            &&& element.actions@[n - 1].id@ == "dismiss"@
            &&& element.actions@[n - 1].label is None
            &&& element.actions@[n - 1].click is Dismiss
            &&& banner.current_file_info is None ==> n == 1
            &&& banner.current_file_info matches Some(info) ==> {
                &&& n == 2
                &&& element.actions@[0].id@ == "attach-to-mod"@
                &&& element.actions@[0].label matches Some(label) && label@ == "Attach file to "@
                    + info.parent_module_file_name@
                &&& element.actions@[0].click is Attach
            }
        },
{
    if let Some(element) = element {
        let n = element.actions@.len() as int;
        assert(element@.actions == banner@.actions());
        assert(element@.actions.len() == n);
        assert(element@.actions[n - 1] == element.actions@[n - 1]@);
        assert(element@.actions[0] == element.actions@[0]@);
        assert(banner@.current_file_info is Some <==> banner.current_file_info is Some);
    }
}

/// A new banner has the mark that it was given, watches nothing and reports nothing.
pub proof fn law_new(dismissed: bool, banner: RustUnlinkedFileBanner)
    requires
        banner@ == (BannerState {
            dismissed,
            has_unlinked_diagnostic: false,
            current_file_info: None,
            active_buffer: None,
        }),
    ensures
        banner.dismissed == dismissed,
        !banner.has_unlinked_diagnostic,
        banner.current_file_info is None,
        banner.active_buffer is None,
{
    assert(banner@.current_file_info is None);
}

} // verus!
