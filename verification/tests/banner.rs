use language_onboarding::context::{
    Buffer, BufferId, Context, Diagnostic, Effect, File, NumberOrString, PaneItem, ProjectEvent,
    ToolbarItemLocation,
};
use language_onboarding::project::{Project, Worktree, WorktreeId};
use language_onboarding::rel_path::RelPath;
use language_onboarding::rust::{
    AttachAction, AttachEvent, AttachStage, AttachTask, BannerElement, Click, Severity, MESSAGE,
};
use language_onboarding::RustUnlinkedFileBanner;

const BUFFER: BufferId = BufferId(1);
const WORKTREE: WorktreeId = WorktreeId(0);

fn rel_path(path: &str) -> RelPath {
    RelPath::unix(path).unwrap()
}

/// An editor on a project with the given entries, and a buffer on the file at `open`.
fn editor(entries: &[&str], open: &str) -> Context {
    Context {
        buffers: vec![Buffer {
            id: BUFFER,
            file: Some(File { path: rel_path(open), worktree_id: WORKTREE }),
            diagnostics: vec![],
        }],
        project: Some(Project {
            worktrees: vec![Worktree {
                id: WORKTREE,
                entries: entries.iter().map(|entry| rel_path(entry)).collect(),
            }],
        }),
        effects: vec![],
    }
}

fn item() -> Option<PaneItem> {
    Some(PaneItem::Editor { singleton: Some(BUFFER) })
}

fn unlinked() -> Diagnostic {
    Diagnostic { code: Some(NumberOrString::String("unlinked-file".to_string())) }
}

/// Reports the file of the open buffer as unlinked.
fn report_unlinked(banner: &mut RustUnlinkedFileBanner, cx: &mut Context) {
    cx.buffers[0].diagnostics = vec![unlinked()];
    banner.handle_project_event(ProjectEvent::DiagnosticsUpdated, cx);
}

/// Runs an attach task on a module file, and gives its contents afterwards.
fn attach(
    banner: &mut RustUnlinkedFileBanner,
    mut task: AttachTask,
    contents: &str,
    cx: &mut Context,
) -> String {
    let opened = AttachEvent::BufferOpened { contents: contents.to_string() };
    let result = match task.step(opened) {
        AttachAction::EditAndSave(Some(edit)) => {
            assert!(contents.is_char_boundary(edit.offset));
            edit.apply(contents)
        }
        AttachAction::EditAndSave(None) => contents.to_string(),
        other => panic!("unexpected action {:?}", other),
    };
    assert!(matches!(task.step(AttachEvent::BufferSaved), AttachAction::Finish));
    banner.finish_attach(cx);
    result
}

/// The buttons of the banner, each as its identity, its label and what it does.
fn buttons(element: &BannerElement) -> Vec<(&str, Option<&str>, Click)> {
    element
        .actions
        .iter()
        .map(|action| (action.id.as_str(), action.label.as_deref(), action.click))
        .collect()
}

#[test]
fn test_banner_shows_for_unlinked_rust_file() {
    let mut cx = editor(&["src", "src/lib.rs", "src/orphan.rs"], "src/orphan.rs");
    let mut banner = RustUnlinkedFileBanner::new(false);

    // Open the unlinked Rust file
    banner.set_active_pane_item(item(), &mut cx);
    assert!(
        !banner.has_unlinked_diagnostic,
        "Banner should be hidden when there are no diagnostics"
    );

    report_unlinked(&mut banner, &mut cx);

    assert!(
        banner.has_unlinked_diagnostic,
        "Banner should detect the unlinked-file diagnostic"
    );
    assert!(
        banner.current_file_info.is_some(),
        "Banner should find lib.rs as the parent module"
    );
    let parent_name =
        banner.current_file_info.as_ref().map(|info| info.parent_module_file_name.clone());
    assert_eq!(parent_name, Some("lib.rs".to_string()));
}

#[test]
fn test_attach_adds_mod_declaration() {
    let mut cx =
        editor(&["src", "src/lib.rs", "src/existing.rs", "src/orphan.rs"], "src/orphan.rs");
    let mut banner = RustUnlinkedFileBanner::new(false);
    banner.set_active_pane_item(item(), &mut cx);
    report_unlinked(&mut banner, &mut cx);

    // Click "Attach file to lib.rs"
    assert_eq!(
        buttons(&banner.render().unwrap())[0],
        ("attach-to-mod", Some("Attach file to lib.rs"), Click::Attach)
    );
    let task = banner.attach_to_parent_module(&cx).unwrap();
    assert_eq!(task.project_path.path, rel_path("src/lib.rs"));
    assert_eq!(task.project_path.worktree_id, WORKTREE);
    let lib_contents = attach(&mut banner, task, "mod existing;\n", &mut cx);

    assert!(
        lib_contents.contains("mod orphan;"),
        "lib.rs should contain 'mod orphan;', got: {lib_contents:?}"
    );
    assert!(
        lib_contents.contains("mod existing;"),
        "lib.rs should still contain 'mod existing;'"
    );
    assert_eq!(lib_contents, "mod existing;\nmod orphan;\n");
    assert!(!banner.has_unlinked_diagnostic);
    assert!(banner.current_file_info.is_none());
}

#[test]
fn test_banner_hidden_for_non_rust_files() {
    let mut cx = editor(&["readme.txt"], "readme.txt");
    let mut banner = RustUnlinkedFileBanner::new(false);

    // Open a non-Rust file
    banner.set_active_pane_item(item(), &mut cx);

    assert!(!banner.has_unlinked_diagnostic, "Banner should not show for non-Rust files");
}

#[test]
fn test_dismiss_banner() {
    let mut cx = editor(&["src", "src/lib.rs", "src/orphan.rs"], "src/orphan.rs");
    let mut banner = RustUnlinkedFileBanner::new(false);
    banner.set_active_pane_item(item(), &mut cx);
    report_unlinked(&mut banner, &mut cx);

    // Verify banner is shown
    assert!(banner.has_unlinked_diagnostic);

    // Dismiss the banner
    banner.dismissed = true;
    cx.notify();

    // Verify banner reports dismissed
    assert!(banner.dismissed, "Banner should be dismissed");
    assert_eq!(
        banner.toolbar_location(),
        ToolbarItemLocation::Hidden,
        "Dismissed banner should report Hidden location"
    );
}

#[test]
fn new_banner_watches_nothing() {
    let banner = RustUnlinkedFileBanner::new(true);
    assert!(banner.dismissed);
    assert!(!banner.has_unlinked_diagnostic);
    assert!(banner.current_file_info.is_none());
    assert_eq!(banner.active_buffer, None);
    assert!(!RustUnlinkedFileBanner::new(false).dismissed);
}

#[test]
fn diagnostics_move_the_banner() {
    let mut cx = editor(&["src/lib.rs", "src/orphan.rs"], "src/orphan.rs");
    let mut banner = RustUnlinkedFileBanner::new(false);
    let location = banner.set_active_pane_item(item(), &mut cx);
    assert_eq!(location, ToolbarItemLocation::Hidden);
    assert_eq!(
        cx.effects,
        vec![Effect::ChangeLocation(ToolbarItemLocation::Hidden), Effect::Notify]
    );

    cx.effects.clear();
    report_unlinked(&mut banner, &mut cx);
    assert_eq!(banner.toolbar_location(), ToolbarItemLocation::Secondary);
    assert_eq!(
        cx.effects,
        vec![Effect::ChangeLocation(ToolbarItemLocation::Secondary), Effect::Notify]
    );

    // Once the diagnostic is gone the banner goes too.
    cx.effects.clear();
    cx.buffers[0].diagnostics.clear();
    banner.handle_project_event(ProjectEvent::Other, &mut cx);
    assert!(banner.has_unlinked_diagnostic);
    assert!(cx.effects.is_empty());
    banner.handle_project_event(ProjectEvent::DiagnosticsUpdated, &mut cx);
    assert!(!banner.has_unlinked_diagnostic);
    assert!(banner.current_file_info.is_none());
}

#[test]
fn only_the_unlinked_file_code_counts() {
    let mut cx = editor(&["src/lib.rs", "src/orphan.rs"], "src/orphan.rs");
    let mut banner = RustUnlinkedFileBanner::new(false);
    banner.set_active_pane_item(item(), &mut cx);
    cx.buffers[0].diagnostics = vec![
        Diagnostic { code: None },
        Diagnostic { code: Some(NumberOrString::Number(7)) },
        Diagnostic { code: Some(NumberOrString::String("unlinked-files".to_string())) },
    ];
    banner.refresh_diagnostics(&mut cx);
    assert!(!banner.has_unlinked_diagnostic);

    cx.buffers[0].diagnostics.push(unlinked());
    banner.refresh_diagnostics(&mut cx);
    assert!(banner.has_unlinked_diagnostic);

    // Looking again changes nothing.
    banner.refresh_diagnostics(&mut cx);
    assert!(banner.has_unlinked_diagnostic);
    assert_eq!(banner.current_file_info.as_ref().unwrap().file_stem, "orphan");
}

#[test]
fn banner_without_a_module_file_offers_nothing() {
    let mut cx = editor(&["src/orphan.rs", "src/other.rs"], "src/orphan.rs");
    let mut banner = RustUnlinkedFileBanner::new(false);
    banner.set_active_pane_item(item(), &mut cx);
    report_unlinked(&mut banner, &mut cx);
    assert_eq!(banner.toolbar_location(), ToolbarItemLocation::Secondary);
    let element = banner.render().unwrap();
    assert_eq!(element.message, MESSAGE);
    assert_eq!(buttons(&element), vec![("dismiss", None, Click::Dismiss)]);
    assert!(banner.attach_to_parent_module(&cx).is_none());
}

#[test]
fn banner_without_a_project_offers_nothing() {
    let mut cx = editor(&["src/lib.rs", "src/orphan.rs"], "src/orphan.rs");
    cx.project = None;
    let mut banner = RustUnlinkedFileBanner::new(false);
    banner.set_active_pane_item(item(), &mut cx);
    report_unlinked(&mut banner, &mut cx);
    assert!(banner.has_unlinked_diagnostic);
    assert!(banner.current_file_info.is_none());
}

#[test]
fn visible_banner_names_the_module_file() {
    let mut cx = editor(&["src/main.rs", "src/orphan.rs"], "src/orphan.rs");
    let mut banner = RustUnlinkedFileBanner::new(false);
    assert!(banner.render().is_none());
    banner.set_active_pane_item(item(), &mut cx);
    report_unlinked(&mut banner, &mut cx);
    let element = banner.render().unwrap();
    assert_eq!(
        element.message,
        "Module declaration missing. This may impact smart editing features and auto-completion."
    );
    assert_eq!(element.severity, Severity::Warning);
    assert_eq!(
        buttons(&element),
        vec![
            ("attach-to-mod", Some("Attach file to main.rs"), Click::Attach),
            ("dismiss", None, Click::Dismiss),
        ]
    );
}

#[test]
fn dismissing_hides_for_good() {
    let mut cx = editor(&["src/lib.rs", "src/orphan.rs"], "src/orphan.rs");
    let mut banner = RustUnlinkedFileBanner::new(false);
    banner.set_active_pane_item(item(), &mut cx);
    report_unlinked(&mut banner, &mut cx);
    cx.effects.clear();
    banner.dismiss(&mut cx);
    assert_eq!(
        cx.effects,
        vec![
            Effect::SetDismissed(true),
            Effect::ChangeLocation(ToolbarItemLocation::Hidden),
            Effect::Notify
        ]
    );
    assert!(banner.render().is_none());

    cx.effects.clear();
    report_unlinked(&mut banner, &mut cx);
    assert_eq!(banner.toolbar_location(), ToolbarItemLocation::Hidden);
    let location = banner.set_active_pane_item(item(), &mut cx);
    assert_eq!(location, ToolbarItemLocation::Hidden);
    assert_eq!(banner.active_buffer, None);
    assert!(!banner.has_unlinked_diagnostic);
}

#[test]
fn other_pane_items_are_not_watched() {
    let mut cx = editor(&["src/lib.rs", "src/orphan.rs"], "src/orphan.rs");
    cx.buffers[0].diagnostics = vec![unlinked()];
    let mut banner = RustUnlinkedFileBanner::new(false);
    let several = Some(PaneItem::Editor { singleton: None });
    let closed = Some(PaneItem::Editor { singleton: Some(BufferId(9)) });
    for other in [None, Some(PaneItem::Other), several, closed] {
        assert_eq!(banner.set_active_pane_item(item(), &mut cx), ToolbarItemLocation::Secondary);
        assert_eq!(banner.active_buffer, Some(BUFFER));
        cx.effects.clear();
        assert_eq!(banner.set_active_pane_item(other, &mut cx), ToolbarItemLocation::Hidden);
        assert_eq!(banner.active_buffer, None);
        assert!(cx.effects.is_empty());
        banner.handle_project_event(ProjectEvent::DiagnosticsUpdated, &mut cx);
        assert!(!banner.has_unlinked_diagnostic);
        assert!(cx.effects.is_empty());
    }
    cx.buffers[0].file = None;
    assert_eq!(banner.set_active_pane_item(item(), &mut cx), ToolbarItemLocation::Hidden);
    assert_eq!(banner.active_buffer, None);
}

#[test]
fn attach_is_offered_once() {
    let mut cx = editor(&["src/lib.rs", "src/orphan.rs"], "src/orphan.rs");
    let mut banner = RustUnlinkedFileBanner::new(false);
    banner.set_active_pane_item(item(), &mut cx);
    report_unlinked(&mut banner, &mut cx);
    assert!(banner.attach_to_parent_module(&cx).is_some());
    assert_eq!(banner.toolbar_location(), ToolbarItemLocation::Secondary);
    assert_eq!(buttons(&banner.render().unwrap()), vec![("dismiss", None, Click::Dismiss)]);
    assert!(banner.attach_to_parent_module(&cx).is_none());

    // Without a project the offer is gone as well.
    report_unlinked(&mut banner, &mut cx);
    cx.project = None;
    assert!(banner.attach_to_parent_module(&cx).is_none());
    assert!(banner.current_file_info.is_none());
}

#[test]
fn attached_file_is_not_declared_again() {
    let mut cx = editor(&["src/lib.rs", "src/orphan.rs"], "src/orphan.rs");
    let mut banner = RustUnlinkedFileBanner::new(false);
    banner.set_active_pane_item(item(), &mut cx);
    report_unlinked(&mut banner, &mut cx);
    let task = banner.attach_to_parent_module(&cx).unwrap();
    cx.effects.clear();
    let contents = attach(&mut banner, task, "pub mod orphan;\n", &mut cx);
    assert_eq!(contents, "pub mod orphan;\n");
    assert_eq!(
        cx.effects,
        vec![Effect::ChangeLocation(ToolbarItemLocation::Hidden), Effect::Notify]
    );
}

#[test]
fn failed_attach_leaves_the_banner() {
    let mut cx = editor(&["src/lib.rs", "src/orphan.rs"], "src/orphan.rs");
    let mut banner = RustUnlinkedFileBanner::new(false);
    banner.set_active_pane_item(item(), &mut cx);
    report_unlinked(&mut banner, &mut cx);
    let mut task = banner.attach_to_parent_module(&cx).unwrap();
    assert_eq!(task.stage, AttachStage::Opening);
    assert!(matches!(task.step(AttachEvent::Failed), AttachAction::Stop));
    assert_eq!(task.stage, AttachStage::Closed);
    assert!(banner.has_unlinked_diagnostic);

    report_unlinked(&mut banner, &mut cx);
    let mut task = banner.attach_to_parent_module(&cx).unwrap();
    let opened = AttachEvent::BufferOpened { contents: String::new() };
    assert!(matches!(task.step(opened), AttachAction::EditAndSave(Some(_))));
    assert_eq!(task.stage, AttachStage::Saving);
    assert!(matches!(task.step(AttachEvent::Failed), AttachAction::Stop));
    assert!(matches!(task.step(AttachEvent::BufferSaved), AttachAction::Stop));
}
