//! The banner above a Rust file that no module declares.

use crate::context::{
    Buffer, BufferId, Context, Diagnostic, Effect, File, NumberOrString, PaneItem, ProjectEvent,
    ToolbarItemLocation,
};
use crate::context;
use crate::mod_declaration::{declare_module, TextEdit};
use crate::mod_declaration;
use crate::project::{find_parent_module, Project, ProjectPath, WorktreeId};
use crate::project;
use crate::rel_path::RelPath;
use crate::rel_path;
use vstd::prelude::*;

verus! {

/// The code of rust-analyzer's diagnostic on a file that is not part of any crate.
pub const UNLINKED_FILE_DIAGNOSTIC_CODE: &'static str = "unlinked-file";

/// The key under which it is stored that the banner is dismissed, and the identity of the
/// banner among the elements of the editor.
pub const KEY: &'static str = "rust-unlinked-file-banner";

/// What the banner says.
pub const MESSAGE: &'static str =
    "Module declaration missing. This may impact smart editing features and auto-completion.";

/// An unlinked file, and the module file to attach it to.
#[derive(Debug)]
pub struct UnlinkedFileInfo {
    pub file_stem: String,
    pub parent_module_rel_path: RelPath,
    pub parent_module_file_name: String,
    pub worktree_id: WorktreeId,
}

/// An `UnlinkedFileInfo` as sequences of characters.
pub struct UnlinkedFile {
    pub file_stem: Seq<char>,
    pub parent_module_rel_path: Seq<Seq<char>>,
    pub parent_module_file_name: Seq<char>,
    pub worktree_id: WorktreeId,
}

impl View for UnlinkedFileInfo {
    type V = UnlinkedFile;

    open spec fn view(&self) -> UnlinkedFile {
        UnlinkedFile {
            file_stem: self.file_stem@,
            parent_module_rel_path: self.parent_module_rel_path@,
            parent_module_file_name: self.parent_module_file_name@,
            worktree_id: self.worktree_id,
        }
    }
}

/// The banner that offers to declare the module of an unlinked Rust file.
#[derive(Debug)]
pub struct RustUnlinkedFileBanner {
    pub dismissed: bool,
    pub has_unlinked_diagnostic: bool,
    pub current_file_info: Option<UnlinkedFileInfo>,
    pub active_buffer: Option<BufferId>,
}

/// The state of a `RustUnlinkedFileBanner`.
pub struct BannerState {
    pub dismissed: bool,
    pub has_unlinked_diagnostic: bool,
    pub current_file_info: Option<UnlinkedFile>,
    pub active_buffer: Option<BufferId>,
}

impl View for RustUnlinkedFileBanner {
    type V = BannerState;

    open spec fn view(&self) -> BannerState {
        BannerState {
            dismissed: self.dismissed,
            has_unlinked_diagnostic: self.has_unlinked_diagnostic,
            current_file_info: match self.current_file_info {
                Some(info) => Some(info@),
                None => None,
            },
            active_buffer: self.active_buffer,
        }
    }
}

impl BannerState {
    /// What every banner keeps to: it knows where to attach a file only while that file is
    /// reported as unlinked, and it minds such reports only for the buffer that it watches.
    pub open spec fn well_formed(self) -> bool {
        &&& self.current_file_info is Some ==> self.has_unlinked_diagnostic
        &&& self.has_unlinked_diagnostic ==> self.active_buffer is Some
    }

    /// Where the toolbar shows the banner.
    pub open spec fn location(self) -> ToolbarItemLocation {
        if self.dismissed || !self.has_unlinked_diagnostic {
            ToolbarItemLocation::Hidden
        } else {
            ToolbarItemLocation::Secondary
        }
    }

    /// The banner with nothing to report.
    pub open spec fn cleared(self) -> BannerState {
        BannerState { has_unlinked_diagnostic: false, current_file_info: None, ..self }
    }

    /// The buffer that the banner watches, while it is open and shows a Rust file.
    pub open spec fn watched_buffer(self, cx: Context) -> Option<Buffer> {
        match self.active_buffer {
            Some(id) => match context::buffer_with_id(cx.buffers@, id) {
                Some(buffer) => if is_rust(buffer) {
                    Some(buffer)
                } else {
                    None
                },
                None => None,
            },
            None => None,
        }
    }

    /// The banner after it has looked at the diagnostics anew.
    pub open spec fn refreshed(self, cx: Context) -> BannerState {
        match self.watched_buffer(cx) {
            Some(buffer) => if reports_unlinked_file(buffer.diagnostics@) {
                BannerState {
                    has_unlinked_diagnostic: true,
                    current_file_info: unlinked_file(buffer.file->0, cx.project),
                    ..self
                }
            } else {
                self.cleared()
            },
            None => self.cleared(),
        }
    }

    /// What the banner asks for when it looks at the diagnostics anew.
    pub open spec fn refresh_effects(self, cx: Context) -> Seq<Effect> {
        if self.watched_buffer(cx) is Some {
            seq![Effect::ChangeLocation(self.refreshed(cx).location()), Effect::Notify]
        } else {
            seq![]
        }
    }

    /// The banner after an event of the project: it looks at the diagnostics anew when there
    /// are new ones.
    pub open spec fn handled(self, event: ProjectEvent, cx: Context) -> BannerState {
        match event {
            ProjectEvent::DiagnosticsUpdated => self.refreshed(cx),
            ProjectEvent::Other => self,
        }
    }

    /// What the banner asks for after an event of the project.
    pub open spec fn event_effects(self, event: ProjectEvent, cx: Context) -> Seq<Effect> {
        match event {
            ProjectEvent::DiagnosticsUpdated => self.refresh_effects(cx),
            ProjectEvent::Other => seq![],
        }
    }

    /// What the banner asks for once a file is attached.
    pub open spec fn finish_effects(self) -> Seq<Effect> {
        seq![Effect::ChangeLocation(ToolbarItemLocation::Hidden), Effect::Notify]
    }

    /// What the banner asks for when it is dismissed.
    pub open spec fn dismiss_effects(self) -> Seq<Effect> {
        seq![
            Effect::SetDismissed(true),
            Effect::ChangeLocation(ToolbarItemLocation::Hidden),
            Effect::Notify,
        ]
    }

    /// The banner that watches the buffer of `item`, if that is a Rust file; a dismissed
    /// banner watches none.
    pub open spec fn watching(self, item: Option<PaneItem>, cx: Context) -> BannerState {
        let id = match item {
            Some(PaneItem::Editor { singleton }) => singleton,
            _ => None,
        };
        let watched = BannerState { active_buffer: id, ..self.cleared() };
        if !self.dismissed && watched.watched_buffer(cx) is Some {
            watched
        } else {
            BannerState { active_buffer: None, ..watched }
        }
    }

    /// The banner once a file is being attached.
    pub open spec fn attaching(self) -> BannerState {
        BannerState { current_file_info: None, ..self }
    }

    /// The actions that the visible banner offers, in order: to attach the file, where there
    /// is a module file to attach it to, and to dismiss the banner.
    pub open spec fn actions(self) -> Seq<Action> {
        let dismiss = Action { id: "dismiss"@, label: None, click: Click::Dismiss };
        match self.current_file_info {
            Some(info) => {
                let label = "Attach file to "@ + info.parent_module_file_name;
                seq![
                    Action { id: "attach-to-mod"@, label: Some(label), click: Click::Attach },
                    dismiss,
                ]
            },
            None => seq![dismiss],
        }
    }

    /// What the banner shows, while it is visible.
    pub open spec fn rendered(self) -> Option<Element> {
        if !self.dismissed && self.has_unlinked_diagnostic {
            Some(
                Element {
                    severity: Severity::Warning,
                    message:
                        "Module declaration missing. This may impact smart editing features and auto-completion."@,
                    actions: self.actions(),
                },
            )
        } else {
            None
        }
    }

    /// The banner once it is dismissed.
    pub open spec fn dismissing(self) -> BannerState {
        BannerState { dismissed: true, ..self }
    }
}

/// Whether `buffer` shows a Rust file.
pub open spec fn is_rust(buffer: Buffer) -> bool {
    match buffer.file {
        Some(file) => file.path@.len() > 0 && rel_path::suffix(file.path@.last()) == Some("rs"@),
        None => false,
    }
}

/// Whether one of `diagnostics` reports that the file is unlinked.
pub open spec fn reports_unlinked_file(diagnostics: Seq<Diagnostic>) -> bool {
    exists|i: int|
        0 <= i < diagnostics.len() && is_unlinked_file_code((#[trigger] diagnostics[i]).code)
}

/// Whether `code` is that of rust-analyzer's diagnostic on unlinked files.
pub open spec fn is_unlinked_file_code(code: Option<NumberOrString>) -> bool {
    code matches Some(NumberOrString::String(code)) && code@ == "unlinked-file"@
}

/// What there is to know of the unlinked Rust file `file`, if `project` is open and has a
/// module file for it.
pub open spec fn unlinked_file(file: File, project: Option<Project>) -> Option<UnlinkedFile> {
    match project {
        Some(project) => match project::parent_module(file.path@, file.worktree_id, project) {
            Some((name, path)) => Some(
                UnlinkedFile {
                    file_stem: rel_path::stem(file.path@.last()),
                    parent_module_rel_path: path,
                    parent_module_file_name: name,
                    worktree_id: file.worktree_id,
                },
            ),
            None => None,
        },
        None => None,
    }
}

/// Whether `buffer` shows a Rust file.
fn shows_rust_file(buffer: &Buffer) -> (result: bool)
    ensures
        result == is_rust(*buffer),
{
    match &buffer.file {
        Some(file) => match file.path.extension() {
            Some(extension) => extension.to_owned() == "rs".to_owned(),
            None => false,
        },
        None => false,
    }
}

/// Whether one of `diagnostics` reports that the file is unlinked.
fn has_unlinked(diagnostics: &Vec<Diagnostic>) -> (result: bool)
    ensures
        result == reports_unlinked_file(diagnostics@),
{
    let unlinked: String = UNLINKED_FILE_DIAGNOSTIC_CODE.to_owned();
    let mut i: usize = 0;
    while i < diagnostics.len()
        invariant
            unlinked@ == "unlinked-file"@,
            i <= diagnostics@.len(),
            forall|j: int|
                0 <= j < i ==> !is_unlinked_file_code((#[trigger] diagnostics@[j]).code),
        decreases diagnostics@.len() - i,
    {
        if let Some(NumberOrString::String(code)) = &diagnostics[i].code {
            if *code == unlinked {
                assert(is_unlinked_file_code(diagnostics@[i as int].code));
                return true;
            }
        }
        i += 1;
    }
    false
}

impl RustUnlinkedFileBanner {
    /// A banner that watches no buffer; `dismissed` says whether it was dismissed for good.
    pub fn new(dismissed: bool) -> (banner: RustUnlinkedFileBanner)
        ensures
            banner@ == (BannerState {
                dismissed,
                has_unlinked_diagnostic: false,
                current_file_info: None,
                active_buffer: None,
            }),
            banner@.well_formed(),
            banner.dismissed == dismissed,
            !banner.has_unlinked_diagnostic,
            banner.current_file_info is None,
            banner.active_buffer is None,
    {
        RustUnlinkedFileBanner {
            dismissed,
            has_unlinked_diagnostic: false,
            current_file_info: None,
            active_buffer: None,
        }
    }

    /// Looks at the diagnostics anew when the project has new ones.
    pub fn handle_project_event(&mut self, event: ProjectEvent, cx: &mut Context)
        ensures
            event == ProjectEvent::DiagnosticsUpdated ==> {
                &&& final(self)@ == old(self)@.refreshed(*old(cx))
                &&& old(cx).asked(*final(cx), old(self)@.refresh_effects(*old(cx)))
            },
            event != ProjectEvent::DiagnosticsUpdated ==> {
                &&& final(self)@ == old(self)@
                &&& *final(cx) == *old(cx)
            },
            final(self)@ == old(self)@.handled(event, *old(cx)),
            old(cx).asked(*final(cx), old(self)@.event_effects(event, *old(cx))),
    {
        match event {
            ProjectEvent::DiagnosticsUpdated => {
                self.refresh_diagnostics(cx);
            },
            ProjectEvent::Other => {},
        }
    }

    /// Looks at the diagnostics of the watched buffer anew: whether they report the file as
    /// unlinked, and which module file could declare it.
    pub fn refresh_diagnostics(&mut self, cx: &mut Context)
        ensures
            final(self)@ == old(self)@.refreshed(*old(cx)),
            old(cx).asked(*final(cx), old(self)@.refresh_effects(*old(cx))),
    {
        self.has_unlinked_diagnostic = false;
        self.current_file_info = None;
        let id = match self.active_buffer {
            Some(id) => id,
            None => {
                return;
            },
        };
        let buffer = match cx.buffer(id) {
            Some(buffer) => buffer,
            None => {
                return;
            },
        };
        if !shows_rust_file(buffer) {
            return;
        }
        if let Some(file) = &buffer.file {
            if has_unlinked(&buffer.diagnostics) {
                self.has_unlinked_diagnostic = true;
                if let Some(file_stem) = file.path.file_stem() {
                    if let Some(project) = &cx.project {
                        if let Some((name, path)) = find_parent_module(
                            &file.path,
                            file.worktree_id,
                            project,
                        ) {
                            self.current_file_info = Some(
                                UnlinkedFileInfo {
                                    file_stem: file_stem.to_owned(),
                                    parent_module_rel_path: path,
                                    parent_module_file_name: name,
                                    worktree_id: file.worktree_id,
                                },
                            );
                        }
                    }
                }
            }
        }
        let location = self.toolbar_location();
        cx.emit(location);
        cx.notify();
    }

    /// Where the toolbar shows the banner.
    pub fn toolbar_location(&self) -> (location: ToolbarItemLocation)
        ensures
            location == self@.location(),
            location is Secondary <==> self.has_unlinked_diagnostic && !self.dismissed,
    {
        if self.dismissed || !self.has_unlinked_diagnostic {
            ToolbarItemLocation::Hidden
        } else {
            ToolbarItemLocation::Secondary
        }
    }

    /// Watches the buffer of the item that became active in the pane, if that is a Rust file.
    pub fn set_active_pane_item(
        &mut self,
        active_pane_item: Option<PaneItem>,
        cx: &mut Context,
    ) -> (location: ToolbarItemLocation)
        ensures
            final(self)@ == old(self)@.watching(active_pane_item, *old(cx)).refreshed(*old(cx)),
            location == final(self)@.location(),
            location is Secondary <==> !final(self).dismissed
                && final(self).has_unlinked_diagnostic,
            final(self).dismissed == old(self).dismissed,
            old(cx).asked(
                *final(cx),
                old(self)@.watching(active_pane_item, *old(cx)).refresh_effects(*old(cx)),
            ),
    {
        self.has_unlinked_diagnostic = false;
        self.current_file_info = None;
        self.active_buffer = None;
        if self.dismissed {
            return ToolbarItemLocation::Hidden;
        }
        if let Some(PaneItem::Editor { singleton: Some(id) }) = active_pane_item {
            let is_rust = match cx.buffer(id) {
                Some(buffer) => shows_rust_file(buffer),
                None => false,
            };
            if is_rust {
                self.active_buffer = Some(id);
                self.refresh_diagnostics(cx);
            }
        }
        self.toolbar_location()
    }

    /// Starts to attach the unlinked file to its module file, if that is known and the project
    /// is still open.
    pub fn attach_to_parent_module(&mut self, cx: &Context) -> (task: Option<AttachTask>)
        ensures
            final(self)@ == old(self)@.attaching(),
            final(self).current_file_info is None,
            final(self).dismissed == old(self).dismissed,
            final(self).has_unlinked_diagnostic == old(self).has_unlinked_diagnostic,
            final(self).active_buffer == old(self).active_buffer,
            task is Some <==> old(self)@.current_file_info is Some && cx.project is Some,
            task matches Some(task) ==> {
                let info = old(self)@.current_file_info->0;
                &&& task.stage == AttachStage::Opening
                &&& task.file_stem@ == info.file_stem
                &&& task.project_path.worktree_id == info.worktree_id
                &&& task.project_path.path@ == info.parent_module_rel_path
            },
            task is Some <==> attach_task(*old(self), *cx) is Some,
            task matches Some(task) ==> attach_task(*old(self), *cx) == Some(task@),
    {
        match self.current_file_info.take() {
            Some(info) => match &cx.project {
                Some(_) => Some(
                    AttachTask {
                        project_path: ProjectPath {
                            worktree_id: info.worktree_id,
                            path: info.parent_module_rel_path,
                        },
                        file_stem: info.file_stem,
                        stage: AttachStage::Opening,
                    },
                ),
                None => None,
            },
            None => None,
        }
    }

    /// Hides the banner once a file is attached.
    pub fn finish_attach(&mut self, cx: &mut Context)
        ensures
            final(self)@ == old(self)@.cleared(),
            final(self).current_file_info is None,
            !final(self).has_unlinked_diagnostic,
            final(self).dismissed == old(self).dismissed,
            final(self).active_buffer == old(self).active_buffer,
            old(cx).asked(
                *final(cx),
                seq![Effect::ChangeLocation(ToolbarItemLocation::Hidden), Effect::Notify],
            ),
            old(cx).asked(*final(cx), old(self)@.finish_effects()),
    {
        self.has_unlinked_diagnostic = false;
        self.current_file_info = None;
        cx.emit(ToolbarItemLocation::Hidden);
        cx.notify();
    }

    /// Hides the banner for good.
    pub fn dismiss(&mut self, cx: &mut Context)
        ensures
            final(self)@ == old(self)@.dismissing(),
            final(self).dismissed,
            final(self).current_file_info == old(self).current_file_info,
            final(self).has_unlinked_diagnostic == old(self).has_unlinked_diagnostic,
            final(self).active_buffer == old(self).active_buffer,
            old(cx).asked(
                *final(cx),
                seq![
                    Effect::SetDismissed(true),
                    Effect::ChangeLocation(ToolbarItemLocation::Hidden),
                    Effect::Notify,
                ],
            ),
            old(cx).asked(*final(cx), old(self)@.dismiss_effects()),
    {
        self.dismissed = true;
        cx.set_dismissed(true);
        cx.emit(ToolbarItemLocation::Hidden);
        cx.notify();
    }

    /// What the banner shows, while it is visible.
    pub fn render(&self) -> (element: Option<BannerElement>)
        ensures
            element is Some <==> self@.rendered() is Some,
            element matches Some(element) ==> self@.rendered() == Some(element@),
    {
        if self.dismissed || !self.has_unlinked_diagnostic {
            return None;
        }
        let mut actions: Vec<BannerAction> = Vec::new();
        if let Some(info) = &self.current_file_info {
            let mut label: String = "Attach file to ".to_owned();
            label.append(info.parent_module_file_name.as_str());
            actions.push(
                BannerAction {
                    id: "attach-to-mod".to_owned(),
                    label: Some(label),
                    click: Click::Attach,
                },
            );
        }
        actions.push(
            BannerAction { id: "dismiss".to_owned(), label: None, click: Click::Dismiss },
        );
        assert(actions@.map_values(|action: BannerAction| action@) == self@.actions());
        Some(BannerElement { severity: Severity::Warning, message: MESSAGE.to_owned(), actions })
    }
}

/// How grave a message is.
#[derive(Clone, Copy, Debug, PartialEq, Eq, Structural)]
pub enum Severity {
    Info,
    Success,
    Warning,
    Error,
}

/// What a click on a button of the banner does.
#[derive(Clone, Copy, Debug, PartialEq, Eq, Structural)]
pub enum Click {
    /// Attaches the file, as `attach_to_parent_module` does.
    Attach,
    /// Hides the banner for good, as `dismiss` does.
    Dismiss,
}

/// A button of the banner; one without a label shows an icon.
#[derive(Debug)]
pub struct BannerAction {
    pub id: String,
    pub label: Option<String>,
    pub click: Click,
}

/// A `BannerAction` as sequences of characters.
pub struct Action {
    pub id: Seq<char>,
    pub label: Option<Seq<char>>,
    pub click: Click,
}

impl View for BannerAction {
    type V = Action;

    open spec fn view(&self) -> Action {
        Action {
            id: self.id@,
            label: match self.label {
                Some(label) => Some(label@),
                None => None,
            },
            click: self.click,
        }
    }
}

/// What the banner shows: a message, and buttons in the order in which they stand.
#[derive(Debug)]
pub struct BannerElement {
    pub severity: Severity,
    pub message: String,
    pub actions: Vec<BannerAction>,
}

/// A `BannerElement` as sequences of characters.
pub struct Element {
    pub severity: Severity,
    pub message: Seq<char>,
    pub actions: Seq<Action>,
}

impl View for BannerElement {
    type V = Element;

    open spec fn view(&self) -> Element {
        Element {
            severity: self.severity,
            message: self.message@,
            actions: self.actions@.map_values(|action: BannerAction| action@),
        }
    }
}

/// How far attaching a file has come.
#[derive(Clone, Copy, Debug, PartialEq, Eq, Structural)]
pub enum AttachStage {
    /// The module file is being opened.
    Opening,
    /// The module file is being saved.
    Saving,
    /// There is nothing more to do.
    Closed,
}

/// What became of the work that an `AttachTask` asked for.
#[derive(Debug)]
pub enum AttachEvent {
    /// The module file is open, with these contents.
    BufferOpened { contents: String },
    /// The module file is saved.
    BufferSaved,
    /// The module file could not be opened or saved.
    Failed,
}

/// What an `AttachTask` asks for next.
#[derive(Debug)]
pub enum AttachAction {
    /// Make this edit of the module file, if there is one, and save the file.
    EditAndSave(Option<TextEdit>),
    /// Tell the banner that the file is attached.
    Finish,
    /// Leave the banner as it is.
    Stop,
}

/// The work of attaching a file: opening the module file at `project_path`, declaring the
/// module there, and saving it.
#[derive(Debug)]
pub struct AttachTask {
    pub project_path: ProjectPath,
    pub file_stem: String,
    pub stage: AttachStage,
}

/// An `AttachTask` as sequences of characters.
pub struct Attachment {
    pub worktree_id: WorktreeId,
    pub path: Seq<Seq<char>>,
    pub file_stem: Seq<char>,
    pub stage: AttachStage,
}

impl View for AttachTask {
    type V = Attachment;

    open spec fn view(&self) -> Attachment {
        Attachment {
            worktree_id: self.project_path.worktree_id,
            path: self.project_path.path@,
            file_stem: self.file_stem@,
            stage: self.stage,
        }
    }
}

/// The task that attaches the unlinked file of `banner`, if its module file is known and the
/// project is open.
pub open spec fn attach_task(banner: RustUnlinkedFileBanner, cx: Context) -> Option<Attachment> {
    match (banner.current_file_info, cx.project) {
        (Some(info), Some(_)) => Some(
            Attachment {
                worktree_id: info.worktree_id,
                path: info.parent_module_rel_path@,
                file_stem: info.file_stem@,
                stage: AttachStage::Opening,
            },
        ),
        _ => None,
    }
}

/// An `AttachAction` as sequences of characters.
pub enum Asked {
    EditAndSave(Option<(int, Seq<char>)>),
    Finish,
    Stop,
}

impl View for AttachAction {
    type V = Asked;

    open spec fn view(&self) -> Asked {
        match self {
            AttachAction::EditAndSave(Some(edit)) => Asked::EditAndSave(Some(edit@)),
            AttachAction::EditAndSave(None) => Asked::EditAndSave(None),
            AttachAction::Finish => Asked::Finish,
            AttachAction::Stop => Asked::Stop,
        }
    }
}

/// How far a task at `stage` has come after `event`.
pub open spec fn stage_after(stage: AttachStage, event: AttachEvent) -> AttachStage {
    match (stage, event) {
        (AttachStage::Opening, AttachEvent::BufferOpened { .. }) => AttachStage::Saving,
        _ => AttachStage::Closed,
    }
}

/// What a task at `stage` asks for after `event`.
pub open spec fn asked_after(
    stage: AttachStage,
    file_stem: Seq<char>,
    event: AttachEvent,
) -> Asked {
    match (stage, event) {
        (AttachStage::Opening, AttachEvent::BufferOpened { contents }) => Asked::EditAndSave(
            mod_declaration::planned_edit(contents@, file_stem),
        ),
        (AttachStage::Saving, AttachEvent::BufferSaved) => Asked::Finish,
        _ => Asked::Stop,
    }
}

impl AttachTask {
    /// What to do next, after `event`. Opening the module file leads to the edit that declares
    /// the module there, and to saving; having saved it ends the task. A failure, or an event
    /// that the task did not wait for, ends it as well.
    pub fn step(&mut self, event: AttachEvent) -> (action: AttachAction)
        ensures
            final(self).project_path == old(self).project_path,
            final(self).file_stem == old(self).file_stem,
            final(self).stage == stage_after(old(self).stage, event),
            action@ == asked_after(old(self).stage, old(self).file_stem@, event),
            match (old(self).stage, event) {
                (AttachStage::Opening, AttachEvent::BufferOpened { contents }) => {
                    &&& final(self).stage == AttachStage::Saving
                    &&& action matches AttachAction::EditAndSave(edit) && match edit {
                        Some(edit) => mod_declaration::planned_edit(
                            contents@,
                            old(self).file_stem@,
                        ) == Some(edit@),
                        None => mod_declaration::planned_edit(
                            contents@,
                            old(self).file_stem@,
                        ) is None,
                    }
                },
                (AttachStage::Saving, AttachEvent::BufferSaved) => {
                    &&& final(self).stage == AttachStage::Closed
                    &&& action == AttachAction::Finish
                },
                _ => {
                    &&& final(self).stage == AttachStage::Closed
                    &&& action == AttachAction::Stop
                },
            },
    {
        match (self.stage, event) {
            (AttachStage::Opening, AttachEvent::BufferOpened { contents }) => {
                self.stage = AttachStage::Saving;
                AttachAction::EditAndSave(
                    declare_module(contents.as_str(), self.file_stem.as_str()),
                )
            },
            (AttachStage::Saving, AttachEvent::BufferSaved) => {
                self.stage = AttachStage::Closed;
                AttachAction::Finish
            },
            _ => {
                self.stage = AttachStage::Closed;
                AttachAction::Stop
            },
        }
    }
}

/// Whatever happens to a well-formed banner keeps it so.
pub proof fn law_well_formed_kept(banner: BannerState, item: Option<PaneItem>, cx: Context)
    requires
        banner.well_formed(),
    ensures
        banner.refreshed(cx).well_formed(),
        banner.watching(item, cx).well_formed(),
        banner.attaching().well_formed(),
        banner.cleared().well_formed(),
        banner.dismissing().well_formed(),
{
}

/// Once dismissed, a banner stays dismissed and hidden, whatever happens.
pub proof fn law_dismissed_stays_hidden(
    banner: BannerState,
    item: Option<PaneItem>,
    cx: Context,
)
    ensures
        banner.dismissing().dismissed,
        banner.dismissed ==> {
            &&& banner.location() == ToolbarItemLocation::Hidden
            &&& banner.rendered() is None
            &&& banner.refreshed(cx).dismissed
            &&& banner.watching(item, cx).dismissed
            &&& banner.attaching().dismissed
            &&& banner.cleared().dismissed
            &&& banner.dismissing().dismissed
        },
{
}

/// What the toolbar is told is where the banner belongs.
pub proof fn law_announced_location(banner: BannerState, cx: Context, i: int)
    ensures
        0 <= i < banner.refresh_effects(cx).len() && banner.refresh_effects(
            cx,
        )[i] is ChangeLocation ==> banner.refresh_effects(cx)[i] == Effect::ChangeLocation(
            banner.refreshed(cx).location(),
        ),
        banner.cleared().location() == ToolbarItemLocation::Hidden,
        banner.dismissing().location() == ToolbarItemLocation::Hidden,
{
}

/// Looking twice at the same diagnostics finds nothing new.
pub proof fn law_refresh_is_idempotent(banner: BannerState, cx: Context)
    ensures
        banner.refreshed(cx).refreshed(cx) == banner.refreshed(cx),
        banner.refreshed(cx).refresh_effects(cx) == banner.refresh_effects(cx),
{
    assert(banner.refreshed(cx).watched_buffer(cx) == banner.watched_buffer(cx));
}

/// The banner is visible exactly where the toolbar shows it.
pub proof fn law_visible_where_shown(banner: BannerState)
    ensures
        banner.rendered() is Some <==> banner.location() == ToolbarItemLocation::Secondary,
{
}

/// The banner shows for a Rust file that is reported as unlinked, unless it is dismissed, and
/// for nothing else. It offers to attach the file where the project has a module file for it.
pub proof fn law_shown_for_unlinked_rust_file(banner: BannerState, cx: Context)
    ensures
        banner.refreshed(cx).location() == ToolbarItemLocation::Secondary <==> {
            &&& !banner.dismissed
            &&& banner.watched_buffer(cx) matches Some(buffer) && reports_unlinked_file(
                buffer.diagnostics@,
            )
        },
        banner.refreshed(cx).rendered() matches Some(element) ==> (offers_attach(element)
            <==> unlinked_file(banner.watched_buffer(cx)->0.file->0, cx.project) is Some),
{
    law_offered_actions(banner.refreshed(cx));
}

/// Whether one of the buttons of `element` attaches the file.
pub open spec fn offers_attach(element: Element) -> bool {
    exists|i: int|
        0 <= i < element.actions.len() && (#[trigger] element.actions[i]).click == Click::Attach
}

/// The visible banner can always be dismissed, by its last button. It has one more button, in
/// front of that, exactly while the module file is known: the one that attaches the file.
pub proof fn law_offered_actions(banner: BannerState)
    ensures
        banner.rendered() matches Some(element) ==> {
            &&& element.actions.len() == if banner.current_file_info is Some {
                2int
            } else {
                1int
            }
            &&& element.actions.last().click == Click::Dismiss
            &&& banner.current_file_info is Some ==> element.actions[0].click == Click::Attach
            &&& offers_attach(element) <==> banner.current_file_info is Some
        },
{
    if banner.current_file_info is Some {
        assert(banner.actions()[0].click == Click::Attach);
    }
}

/// A pane item without a Rust file of its own leaves the banner hidden and watching nothing.
pub proof fn law_hidden_without_rust_file(
    banner: BannerState,
    item: Option<PaneItem>,
    cx: Context,
)
    requires
        item matches Some(PaneItem::Editor { singleton: Some(id) }) ==> !(
        context::buffer_with_id(cx.buffers@, id) matches Some(buffer) && is_rust(buffer)),
    ensures
        banner.watching(item, cx) == (BannerState { active_buffer: None, ..banner.cleared() }),
        banner.watching(item, cx).refreshed(cx).location() == ToolbarItemLocation::Hidden,
        banner.watching(item, cx).refresh_effects(cx) == Seq::<Effect>::empty(),
{
}

/// The module that gets declared is named like the file: the file name is the stem and `.rs`.
pub proof fn law_module_named_like_file(banner: BannerState, cx: Context)
    requires
        banner.refreshed(cx).current_file_info is Some,
    ensures
        banner.watched_buffer(cx) is Some,
        banner.watched_buffer(cx)->0.file->0.path@.last() == banner.refreshed(
            cx,
        ).current_file_info->0.file_stem + ".rs"@,
{
    let name = banner.watched_buffer(cx)->0.file->0.path@.last();
    rel_path::law_stem_and_extension(name);
    reveal_strlit("rs");
    reveal_strlit(".rs");
    assert(seq!['.'] + "rs"@ == ".rs"@);
    assert(rel_path::stem(name) + seq!['.'] + "rs"@ == rel_path::stem(name) + (seq!['.'] + "rs"@));
}

/// While a file is being attached the banner stays where it was, but no longer offers to
/// attach it.
pub proof fn law_attach_is_offered_once(banner: BannerState)
    ensures
        banner.attaching().location() == banner.location(),
        banner.attaching().rendered() matches Some(element) ==> !offers_attach(element),
        banner.attaching().attaching() == banner.attaching(),
{
    law_offered_actions(banner.attaching());
}

} // verus!
