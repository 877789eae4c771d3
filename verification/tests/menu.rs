use incular_widgets::menu::{
    build_snapshot, install_decision, DelegateHandle, DeferredPlatformMenuDelegate, MenuDispatchResult,
    MenuItemId, MenuOwnerId, NoopPlatformMenuDelegate, PlatformMenu, PlatformMenuBarController,
    PlatformMenuBuildError, PlatformMenuDelegate, PlatformMenuEntry, PlatformMenuEvent,
    PlatformMenuEventSink, PlatformMenuItem, PlatformMenuItemGroup, PlatformMenuShortcut,
    PlatformMenuSnapshot, PlatformMenuUpdate, ShortcutModifiers,
};
use std::cell::{Cell, RefCell};
use std::rc::Rc;

struct Recording {
    set_menus: Rc<Cell<usize>>,
    answer: PlatformMenuUpdate,
}

impl PlatformMenuDelegate for Recording {
    fn acquire(&self, _owner: MenuOwnerId) -> PlatformMenuUpdate {
        self.answer
    }
    fn set_menus(&self, _owner: MenuOwnerId, _snapshot: PlatformMenuSnapshot) -> PlatformMenuUpdate {
        self.set_menus.set(self.set_menus.get() + 1);
        self.answer
    }
    fn clear_menus(&self, _owner: MenuOwnerId) -> PlatformMenuUpdate {
        PlatformMenuUpdate::Applied
    }
    fn release(&self, _owner: MenuOwnerId) -> PlatformMenuUpdate {
        PlatformMenuUpdate::Applied
    }
    fn set_event_handler(&self, _owner: MenuOwnerId, _sink: Option<PlatformMenuEventSink>) -> PlatformMenuUpdate {
        PlatformMenuUpdate::Applied
    }
}

fn file_menu(hits: Rc<Cell<u32>>) -> PlatformMenu {
    PlatformMenu::with_items(
        "File",
        vec![
            PlatformMenuItem::new("Open").id(MenuItemId::new("open")).on_selected(move || hits.set(hits.get() + 1)),
            PlatformMenuItem::new("Close"),
        ],
    )
}

#[test]
fn snapshot_generates_path_identities() {
    let hits = Rc::new(Cell::new(0));
    let (snapshot, _callbacks) = match build_snapshot(&[file_menu(hits)]) {
        Ok(built) => built,
        Err(_) => panic!("no duplicate"),
    };
    assert_eq!(snapshot.menus.len(), 1);
    let file = &snapshot.menus[0];
    assert_eq!(file.id.as_str(), "incular.path.menu.0");
    assert_eq!(file.label, "File");
    assert!(!file.selectable);
    assert_eq!(file.children[0].id.as_str(), "open");
    assert_eq!(file.children[1].id.as_str(), "incular.path.menu.0.item.1");
    assert!(file.children[1].selectable);
}

#[test]
fn duplicate_ids_are_refused_with_a_message() {
    let menus = [PlatformMenu::with_items(
        "Edit",
        vec![
            PlatformMenuItem::new("A").id(MenuItemId::new("same")),
            PlatformMenuItem::new("B").id(MenuItemId::new("same")),
        ],
    )];
    match build_snapshot(&menus) {
        Err(e) => {
            assert_eq!(e.message(), "duplicate platform menu id same");
            assert!(matches!(e, PlatformMenuBuildError::DuplicateId(id) if id.as_str() == "same"));
        }
        Ok(_) => panic!("duplicate must be refused"),
    }
}

#[test]
fn install_applies_once_then_reports_unchanged() {
    let count = Rc::new(Cell::new(0));
    let delegate = DelegateHandle::new(Recording { set_menus: count.clone(), answer: PlatformMenuUpdate::Applied });
    let mut controller = PlatformMenuBarController::new(MenuOwnerId::new(1), delegate);
    let hits = Rc::new(Cell::new(0));
    let r = controller.install(&[file_menu(hits.clone())]);
    assert!(matches!(r, Ok(PlatformMenuUpdate::Applied)));
    let r = controller.install(&[file_menu(hits.clone())]);
    assert!(matches!(r, Ok(PlatformMenuUpdate::Unchanged)));
    assert_eq!(count.get(), 1);
    assert_eq!(controller.last_update(), Some(PlatformMenuUpdate::Unchanged));
    assert!(controller.snapshot().is_some());
}

#[test]
fn dispatch_runs_the_registered_callback_only() {
    let delegate = DelegateHandle::new(Recording { set_menus: Rc::new(Cell::new(0)), answer: PlatformMenuUpdate::Applied });
    let mut controller = PlatformMenuBarController::new(MenuOwnerId::new(2), delegate);
    let hits = Rc::new(Cell::new(0));
    let _ = controller.install(&[file_menu(hits.clone())]);
    assert_eq!(controller.dispatch(&MenuItemId::new("open")), MenuDispatchResult::Handled);
    assert_eq!(hits.get(), 1);
    assert_eq!(controller.dispatch(&MenuItemId::new("missing")), MenuDispatchResult::Unknown);
    assert_eq!(
        controller.handle_event(&PlatformMenuEvent::Selected(MenuItemId::new("open"))),
        MenuDispatchResult::Handled
    );
    assert_eq!(hits.get(), 2);
}

#[test]
fn noop_delegate_reports_unsupported() {
    let mut controller = PlatformMenuBarController::new(MenuOwnerId::new(3), DelegateHandle::new(NoopPlatformMenuDelegate));
    let r = controller.install(&[file_menu(Rc::new(Cell::new(0)))]);
    assert!(matches!(r, Ok(PlatformMenuUpdate::NoOpUnsupported)));
    assert!(controller.snapshot().is_none());
    let mut unbound = PlatformMenuBarController::unbound(MenuOwnerId::new(4));
    assert!(!unbound.is_bound());
    let r = unbound.install(&[file_menu(Rc::new(Cell::new(0)))]);
    assert!(matches!(r, Ok(PlatformMenuUpdate::NoOpUnsupported)));
}

#[test]
fn install_decision_follows_the_first_stopping_answer() {
    let (applied, unchanged) = (PlatformMenuUpdate::Applied, PlatformMenuUpdate::Unchanged);
    let other = PlatformMenuUpdate::RejectedOwnedByOther;
    let platform = PlatformMenuUpdate::RejectedByPlatform;
    assert_eq!(install_decision(other, applied, applied), other);
    assert_eq!(install_decision(applied, platform, applied), platform);
    assert_eq!(install_decision(applied, applied, unchanged), unchanged);
    assert_eq!(install_decision(applied, applied, applied), applied);
}

#[test]
fn deferred_delegate_forwards_only_while_bound() {
    let count = Rc::new(Cell::new(0));
    let mut deferred = DeferredPlatformMenuDelegate::new();
    assert!(!deferred.is_bound());
    assert_eq!(deferred.acquire(MenuOwnerId::new(1)), PlatformMenuUpdate::NoOpUnsupported);
    deferred.bind(DelegateHandle::new(Recording { set_menus: count.clone(), answer: PlatformMenuUpdate::Applied }));
    assert!(deferred.is_bound());
    assert_eq!(deferred.acquire(MenuOwnerId::new(1)), PlatformMenuUpdate::Applied);
    deferred.unbind();
    assert_eq!(deferred.release(MenuOwnerId::new(1)), PlatformMenuUpdate::NoOpUnsupported);
}

#[test]
fn deferred_delegate_knows_which_delegate_is_bound() {
    let first = DelegateHandle::new(NoopPlatformMenuDelegate);
    let second = DelegateHandle::new(NoopPlatformMenuDelegate);
    let mut deferred = DeferredPlatformMenuDelegate::new();
    assert!(!deferred.is_bound_to(&first));
    assert!(deferred.bind(first.clone()));
    assert!(deferred.is_bound_to(&first));
    assert!(!deferred.is_bound_to(&second));
    assert!(!deferred.bind(first.clone()));
    assert!(!deferred.handle_shortcut("S", ShortcutModifiers::control()));
}

#[test]
fn shortcut_modifiers_combine() {
    let m = ShortcutModifiers::control().union(ShortcutModifiers::shift());
    assert!(m.contains(ShortcutModifiers::control()));
    assert!(m.contains(ShortcutModifiers::shift()));
    assert!(!m.contains(ShortcutModifiers::alt()));
    assert!(ShortcutModifiers::empty().contains(ShortcutModifiers::empty()));
    let s = PlatformMenuShortcut::new("S").modifiers(m);
    assert_eq!(s.key, "S");
}

#[test]
fn group_and_divider_entries_are_flattened() {
    let menus = [PlatformMenu::new(
        "View",
        vec![
            PlatformMenuEntry::Group(PlatformMenuItemGroup::new(vec![PlatformMenuItem::new("Zoom")])),
            PlatformMenuEntry::Divider,
        ],
    )];
    let (snapshot, _) = match build_snapshot(&menus) {
        Ok(built) => built,
        Err(_) => panic!("valid menus"),
    };
    let view = &snapshot.menus[0];
    assert!(view.children.iter().any(|c| c.separator));
    assert!(view.children.iter().any(|c| c.label == "Zoom"));
}

#[test]
fn generated_identity_has_the_path_prefix() {
    assert_eq!(MenuItemId::generated("menu.3").as_str(), "incular.path.menu.3");
    let seen = RefCell::new(0);
    *seen.borrow_mut() += 1;
    assert_eq!(*seen.borrow(), 1);
}
