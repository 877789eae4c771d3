//! Platform menu descriptions, their flattening into callback-free
//! snapshots, and the retained owner that installs them through a delegate.
//!
//! A platform crate implements [`PlatformMenuDelegate`] by translating the
//! portable snapshot to its native commands; [`NoopPlatformMenuDelegate`]
//! reports an unsupported capability without pretending that menus were
//! installed.
use vstd::prelude::*;
use std::rc::Rc;
use crate::callback::{Callback, callback_from, run_callback};
use crate::text::{decimal, usize_to_decimal, concat, owned};
use crate::widget::Widget;

verus! {

/// Stable identity for a platform menu command.
#[derive(Debug, PartialEq, Eq, Hash, PartialOrd, Ord)]
pub struct MenuItemId(String);

impl View for MenuItemId {
    type V = Seq<char>;

    closed spec fn view(&self) -> Seq<char> {
        self.0@
    }
}

/// The prefix of identities generated from a menu path.
pub open spec fn generated_prefix() -> Seq<char> {
    seq!['i', 'n', 'c', 'u', 'l', 'a', 'r', '.', 'p', 'a', 't', 'h', '.']
}

impl Clone for MenuItemId {
    fn clone(&self) -> (r: Self)
        ensures
            r@ == self@,
    {
        MenuItemId(self.0.clone())
    }
}

impl MenuItemId {
    /// Creates an application-owned stable command ID.
    pub fn new(id: &str) -> (r: Self)
        ensures
            r@ == id@,
    {
        MenuItemId(owned(id))
    }

    /// Returns the stable command string.
    pub fn as_str(&self) -> (r: &str)
        ensures
            r@ == self@,
    {
        self.0.as_str()
    }

    /// The identity generated for an entry without an explicit one:
    /// `incular.path.` followed by the entry's path.
    pub fn generated(path: &str) -> (r: Self)
        ensures
            r@ == generated_prefix() + path@,
    {
        let prefix = "incular.path.";
        proof {
            reveal_strlit("incular.path.");
        }
        MenuItemId(concat(prefix, path))
    }

    /// Whether two identities name the same command.
    pub fn same_as(&self, other: &MenuItemId) -> (r: bool)
        ensures
            r == (self@ == other@),
    {
        self.0 == other.0
    }
}

/// Identity of the current menu-bar owner.
#[derive(Clone, Copy, Debug, PartialEq, Eq, Hash, PartialOrd, Ord)]
pub struct MenuOwnerId(u64);

impl View for MenuOwnerId {
    type V = u64;

    closed spec fn view(&self) -> u64 {
        self.0
    }
}

impl MenuOwnerId {
    /// Wraps a process-unique owner number (the application allocates them).
    pub fn new(raw: u64) -> (r: Self)
        ensures
            r@ == raw,
    {
        MenuOwnerId(raw)
    }

    /// Returns the owner number.
    pub fn get(self) -> (r: u64)
        ensures
            r == self@,
    {
        self.0
    }
}

/// Portable modifier flags for a platform menu shortcut.
#[derive(Clone, Copy, Debug, Default, PartialEq, Eq, Hash)]
pub struct ShortcutModifiers(u8);

impl View for ShortcutModifiers {
    type V = u8;

    closed spec fn view(&self) -> u8 {
        self.0
    }
}

impl ShortcutModifiers {
    /// The Alt / Option flag.
    pub fn alt() -> (r: Self)
        ensures
            r@ == 1,
    {
        ShortcutModifiers(1)
    }

    /// The Control flag.
    pub fn control() -> (r: Self)
        ensures
            r@ == 2,
    {
        ShortcutModifiers(2)
    }

    /// The Meta / Command flag.
    pub fn meta() -> (r: Self)
        ensures
            r@ == 4,
    {
        ShortcutModifiers(4)
    }

    /// The Shift flag.
    pub fn shift() -> (r: Self)
        ensures
            r@ == 8,
    {
        ShortcutModifiers(8)
    }

    /// No modifier.
    pub fn empty() -> (r: Self)
        ensures
            r@ == 0,
    {
        ShortcutModifiers(0)
    }

    /// The raw flag bits.
    pub fn bits(self) -> (r: u8)
        ensures
            r == self@,
    {
        self.0
    }

    /// Whether every flag of `other` is set in `self`.
    pub fn contains(self, other: Self) -> (r: bool)
        ensures
            r == (self@ & other@ == other@),
    {
        self.0 & other.0 == other.0
    }

    /// The flags set in either value.
    pub fn union(self, other: Self) -> (r: Self)
        ensures
            r@ == self@ | other@,
    {
        ShortcutModifiers(self.0 | other.0)
    }
}

} // verus!

verus! {

/// A portable keyboard shortcut attached to a menu item.
#[derive(Clone, Debug, PartialEq, Eq, Hash)]
pub struct PlatformMenuShortcut {
    pub key: String,
    pub modifiers: ShortcutModifiers,
}

impl View for PlatformMenuShortcut {
    type V = (Seq<char>, u8);

    open spec fn view(&self) -> (Seq<char>, u8) {
        (self.key@, self.modifiers@)
    }
}

impl PlatformMenuShortcut {
    /// A shortcut on `key` with no modifier.
    pub fn new(key: &str) -> (r: Self)
        ensures
            r@ == (key@, 0u8),
    {
        PlatformMenuShortcut { key: owned(key), modifiers: ShortcutModifiers::empty() }
    }

    /// Replaces the modifiers.
    pub fn modifiers(self, modifiers: ShortcutModifiers) -> (r: Self)
        ensures
            r@ == (self.key@, modifiers@),
    {
        PlatformMenuShortcut { key: self.key, modifiers }
    }

    /// A field-by-field copy.
    pub fn copy(&self) -> (r: Self)
        ensures
            r@ == self@,
    {
        PlatformMenuShortcut { key: self.key.clone(), modifiers: self.modifiers }
    }
}

/// The view of an optional string.
pub open spec fn opt_str(o: Option<String>) -> Option<Seq<char>> {
    match o {
        Some(s) => Some(s@),
        None => None,
    }
}

/// The view of an optional shortcut.
pub open spec fn opt_shortcut(o: Option<PlatformMenuShortcut>) -> Option<(Seq<char>, u8)> {
    match o {
        Some(s) => Some(s@),
        None => None,
    }
}

/// The view of an optional identity.
pub open spec fn opt_id(o: Option<MenuItemId>) -> Option<Seq<char>> {
    match o {
        Some(s) => Some(s@),
        None => None,
    }
}

fn copy_opt_str(o: &Option<String>) -> (r: Option<String>)
    ensures
        opt_str(r) == opt_str(*o),
{
    match o {
        Some(s) => Some(s.clone()),
        None => None,
    }
}

fn copy_opt_shortcut(o: &Option<PlatformMenuShortcut>) -> (r: Option<PlatformMenuShortcut>)
    ensures
        opt_shortcut(r) == opt_shortcut(*o),
{
    match o {
        Some(s) => Some(s.copy()),
        None => None,
    }
}

/// A selectable platform menu item.
#[derive(Clone)]
pub struct PlatformMenuItem {
    id: Option<MenuItemId>,
    label: String,
    tooltip: Option<String>,
    shortcut: Option<PlatformMenuShortcut>,
    enabled: bool,
    on_selected: Option<Callback>,
}

impl PlatformMenuItem {
    /// The explicit identity, if any.
    pub closed spec fn id_spec(&self) -> Option<Seq<char>> {
        opt_id(self.id)
    }

    /// The label.
    pub closed spec fn label_spec(&self) -> Seq<char> {
        self.label@
    }

    /// The tooltip.
    pub closed spec fn tooltip_spec(&self) -> Option<Seq<char>> {
        opt_str(self.tooltip)
    }

    /// The shortcut.
    pub closed spec fn shortcut_spec(&self) -> Option<(Seq<char>, u8)> {
        opt_shortcut(self.shortcut)
    }

    /// Whether the item is enabled.
    pub closed spec fn enabled_spec(&self) -> bool {
        self.enabled
    }

    /// The selection callback.
    pub closed spec fn callback_spec(&self) -> Option<Callback> {
        self.on_selected
    }

    /// Creates an enabled item with no identity, tooltip, shortcut or callback.
    pub fn new(label: &str) -> (r: Self)
        ensures
            r.id_spec() is None,
            r.label_spec() == label@,
            r.tooltip_spec() is None,
            r.shortcut_spec() is None,
            r.enabled_spec(),
            r.callback_spec() is None,
    {
        PlatformMenuItem {
            id: None,
            label: owned(label),
            tooltip: None,
            shortcut: None,
            enabled: true,
            on_selected: None,
        }
    }

    /// Sets the stable identity.
    pub fn id(self, id: MenuItemId) -> (r: Self)
        ensures
            r.id_spec() == Some(id@),
            r.label_spec() == self.label_spec(),
            r.tooltip_spec() == self.tooltip_spec(),
            r.shortcut_spec() == self.shortcut_spec(),
            r.enabled_spec() == self.enabled_spec(),
            r.callback_spec() == self.callback_spec(),
    {
        PlatformMenuItem { id: Some(id), ..self }
    }

    /// Sets the tooltip.
    pub fn tooltip(self, tooltip: &str) -> (r: Self)
        ensures
            r.id_spec() == self.id_spec(),
            r.label_spec() == self.label_spec(),
            r.tooltip_spec() == Some(tooltip@),
            r.shortcut_spec() == self.shortcut_spec(),
            r.enabled_spec() == self.enabled_spec(),
            r.callback_spec() == self.callback_spec(),
    {
        PlatformMenuItem { tooltip: Some(owned(tooltip)), ..self }
    }

    /// Sets the keyboard shortcut.
    pub fn shortcut(self, shortcut: PlatformMenuShortcut) -> (r: Self)
        ensures
            r.id_spec() == self.id_spec(),
            r.label_spec() == self.label_spec(),
            r.tooltip_spec() == self.tooltip_spec(),
            r.shortcut_spec() == Some(shortcut@),
            r.enabled_spec() == self.enabled_spec(),
            r.callback_spec() == self.callback_spec(),
    {
        PlatformMenuItem { shortcut: Some(shortcut), ..self }
    }

    /// Attaches the selection callback.
    pub fn on_selected(self, callback: impl Fn() + 'static) -> (r: Self)
        ensures
            r.id_spec() == self.id_spec(),
            r.label_spec() == self.label_spec(),
            r.tooltip_spec() == self.tooltip_spec(),
            r.shortcut_spec() == self.shortcut_spec(),
            r.enabled_spec() == self.enabled_spec(),
            r.callback_spec() is Some,
    {
        PlatformMenuItem { on_selected: Some(callback_from(callback)), ..self }
    }

    /// Enables or disables the item.
    pub fn enabled(self, enabled: bool) -> (r: Self)
        ensures
            r.id_spec() == self.id_spec(),
            r.label_spec() == self.label_spec(),
            r.tooltip_spec() == self.tooltip_spec(),
            r.shortcut_spec() == self.shortcut_spec(),
            r.enabled_spec() == enabled,
            r.callback_spec() == self.callback_spec(),
    {
        PlatformMenuItem { enabled, ..self }
    }

    /// Disables the item.
    pub fn disabled(self) -> (r: Self)
        ensures
            r.id_spec() == self.id_spec(),
            r.label_spec() == self.label_spec(),
            r.tooltip_spec() == self.tooltip_spec(),
            r.shortcut_spec() == self.shortcut_spec(),
            !r.enabled_spec(),
            r.callback_spec() == self.callback_spec(),
    {
        self.enabled(false)
    }

    /// The explicit identity, if any.
    pub fn item_id(&self) -> (r: Option<&MenuItemId>)
        ensures
            opt_id(match r { Some(i) => Some(*i), None => None }) == self.id_spec(),
    {
        match &self.id {
            Some(i) => Some(i),
            None => None,
        }
    }

    /// The label.
    pub fn label(&self) -> (r: &str)
        ensures
            r@ == self.label_spec(),
    {
        self.label.as_str()
    }
}

/// A group of leaf menu items.
#[derive(Clone)]
pub struct PlatformMenuItemGroup {
    items: Vec<PlatformMenuItem>,
}

impl PlatformMenuItemGroup {
    /// The grouped items.
    pub closed spec fn items_spec(&self) -> Seq<PlatformMenuItem> {
        self.items@
    }

    /// Groups `items`.
    pub fn new(items: Vec<PlatformMenuItem>) -> (r: Self)
        ensures
            r.items_spec() == items@,
    {
        PlatformMenuItemGroup { items }
    }

    /// The grouped items.
    pub fn items(&self) -> (r: &[PlatformMenuItem])
        ensures
            r@ == self.items_spec(),
    {
        self.items.as_slice()
    }
}

/// One entry below a platform menu.
pub enum PlatformMenuEntry {
    Menu(PlatformMenu),
    Item(PlatformMenuItem),
    Group(PlatformMenuItemGroup),
    Divider,
}

/// A top-level or nested platform menu.
pub struct PlatformMenu {
    id: Option<MenuItemId>,
    label: String,
    tooltip: Option<String>,
    entries: Vec<PlatformMenuEntry>,
    on_open: Option<Callback>,
    on_close: Option<Callback>,
}

impl PlatformMenu {
    /// The explicit identity, if any.
    pub closed spec fn id_spec(&self) -> Option<Seq<char>> {
        opt_id(self.id)
    }

    /// The label.
    pub closed spec fn label_spec(&self) -> Seq<char> {
        self.label@
    }

    /// The tooltip.
    pub closed spec fn tooltip_spec(&self) -> Option<Seq<char>> {
        opt_str(self.tooltip)
    }

    /// The nested entries.
    pub closed spec fn entries_spec(&self) -> Seq<PlatformMenuEntry> {
        self.entries@
    }

    /// The open callback.
    pub closed spec fn open_spec(&self) -> Option<Callback> {
        self.on_open
    }

    /// The close callback.
    pub closed spec fn close_spec(&self) -> Option<Callback> {
        self.on_close
    }

    /// Creates a menu with its nested entries.
    pub fn new(label: &str, entries: Vec<PlatformMenuEntry>) -> (r: Self)
        ensures
            r.id_spec() is None,
            r.label_spec() == label@,
            r.tooltip_spec() is None,
            r.entries_spec() == entries@,
            r.open_spec() is None,
            r.close_spec() is None,
    {
        PlatformMenu {
            id: None,
            label: owned(label),
            tooltip: None,
            entries,
            on_open: None,
            on_close: None,
        }
    }

    /// Creates a menu from leaf items, each becoming an item entry.
    pub fn with_items(label: &str, items: Vec<PlatformMenuItem>) -> (r: Self)
        ensures
            r.id_spec() is None,
            r.label_spec() == label@,
            r.tooltip_spec() is None,
            r.entries_spec().len() == items.len(),
            forall|i: int| 0 <= i < items.len()
                ==> #[trigger] r.entries_spec()[i] == PlatformMenuEntry::Item(items@[i]),
            r.open_spec() is None,
            r.close_spec() is None,
    {
        let mut entries: Vec<PlatformMenuEntry> = Vec::new();
        let mut rest = items;
        let ghost all = rest@;
        let mut taken: Vec<PlatformMenuItem> = Vec::new();
        // Items are moved out in reverse and re-pushed in order.
        while rest.len() > 0
            invariant
                taken@ + rest@.reverse() =~= all.reverse(),
            decreases rest.len(),
        {
            let item = rest.pop().unwrap();
            proof {
                assert(rest@.push(item).reverse() =~= seq![item] + rest@.reverse());
            }
            taken.push(item);
        }
        proof {
            assert(rest@.reverse() =~= Seq::<PlatformMenuItem>::empty());
            assert(taken@ =~= all.reverse());
        }
        while taken.len() > 0
            invariant
                entries.len() + taken.len() == all.len(),
                taken@ =~= all.subrange(entries.len() as int, all.len() as int).reverse(),
                forall|i: int| 0 <= i < entries.len()
                    ==> #[trigger] entries@[i] == PlatformMenuEntry::Item(all[i]),
            decreases taken.len(),
        {
            let item = taken.pop().unwrap();
            proof {
                let k = entries.len() as int;
                assert(all.subrange(k, all.len() as int).reverse().last() == all[k]);
            }
            entries.push(PlatformMenuEntry::Item(item));
            proof {
                let k = entries.len() as int;
                assert(all.subrange(k - 1, all.len() as int).reverse().drop_last()
                    =~= all.subrange(k, all.len() as int).reverse());
            }
        }
        PlatformMenu::new(label, entries)
    }

    /// Sets the stable identity.
    pub fn id(self, id: MenuItemId) -> (r: Self)
        ensures
            r.id_spec() == Some(id@),
            r.label_spec() == self.label_spec(),
            r.tooltip_spec() == self.tooltip_spec(),
            r.entries_spec() == self.entries_spec(),
            r.open_spec() == self.open_spec(),
            r.close_spec() == self.close_spec(),
    {
        PlatformMenu { id: Some(id), ..self }
    }

    /// Sets the tooltip.
    pub fn tooltip(self, tooltip: &str) -> (r: Self)
        ensures
            r.id_spec() == self.id_spec(),
            r.label_spec() == self.label_spec(),
            r.tooltip_spec() == Some(tooltip@),
            r.entries_spec() == self.entries_spec(),
            r.open_spec() == self.open_spec(),
            r.close_spec() == self.close_spec(),
    {
        PlatformMenu { tooltip: Some(owned(tooltip)), ..self }
    }

    /// Attaches the submenu-open callback.
    pub fn on_open(self, callback: impl Fn() + 'static) -> (r: Self)
        ensures
            r.id_spec() == self.id_spec(),
            r.label_spec() == self.label_spec(),
            r.tooltip_spec() == self.tooltip_spec(),
            r.entries_spec() == self.entries_spec(),
            r.open_spec() is Some,
            r.close_spec() == self.close_spec(),
    {
        PlatformMenu { on_open: Some(callback_from(callback)), ..self }
    }

    /// Attaches the submenu-close callback.
    pub fn on_close(self, callback: impl Fn() + 'static) -> (r: Self)
        ensures
            r.id_spec() == self.id_spec(),
            r.label_spec() == self.label_spec(),
            r.tooltip_spec() == self.tooltip_spec(),
            r.entries_spec() == self.entries_spec(),
            r.open_spec() == self.open_spec(),
            r.close_spec() is Some,
    {
        PlatformMenu { on_close: Some(callback_from(callback)), ..self }
    }

    /// The nested entries.
    pub fn entries(&self) -> (r: &[PlatformMenuEntry])
        ensures
            r@ == self.entries_spec(),
    {
        self.entries.as_slice()
    }

    /// The explicit identity, if any.
    pub fn menu_id(&self) -> (r: Option<&MenuItemId>)
        ensures
            opt_id(match r { Some(i) => Some(*i), None => None }) == self.id_spec(),
    {
        match &self.id {
            Some(i) => Some(i),
            None => None,
        }
    }
}

} // verus!

verus! {

/// A callback-free menu snapshot sent across the platform boundary.
#[derive(Debug, PartialEq, Eq)]
pub struct PlatformMenuSnapshot {
    pub menus: Vec<PlatformMenuSnapshotNode>,
}

/// A serialized menu node. `selectable` distinguishes command items from menu
/// containers even when a menu is empty; `separator` distinguishes dividers.
#[derive(Debug, PartialEq, Eq)]
pub struct PlatformMenuSnapshotNode {
    pub id: MenuItemId,
    pub label: String,
    pub tooltip: Option<String>,
    pub shortcut: Option<PlatformMenuShortcut>,
    pub enabled: bool,
    pub selectable: bool,
    pub separator: bool,
    pub children: Vec<PlatformMenuSnapshotNode>,
}

/// The mathematical value of a snapshot node.
pub struct SnapshotNodeView {
    pub id: Seq<char>,
    pub label: Seq<char>,
    pub tooltip: Option<Seq<char>>,
    pub shortcut: Option<(Seq<char>, u8)>,
    pub enabled: bool,
    pub selectable: bool,
    pub separator: bool,
    pub children: Seq<SnapshotNodeView>,
}

/// The value of one node.
pub open spec fn node_view(n: PlatformMenuSnapshotNode) -> SnapshotNodeView
    decreases n, 0int,
{
    SnapshotNodeView {
        id: n.id@,
        label: n.label@,
        tooltip: opt_str(n.tooltip),
        shortcut: opt_shortcut(n.shortcut),
        enabled: n.enabled,
        selectable: n.selectable,
        separator: n.separator,
        children: nodes_view(n.children@),
    }
}

/// The values of a sequence of nodes.
pub open spec fn nodes_view(ns: Seq<PlatformMenuSnapshotNode>) -> Seq<SnapshotNodeView>
    decreases ns, ns.len(),
{
    if ns.len() == 0 {
        Seq::empty()
    } else {
        nodes_view(ns.drop_last()).push(node_view(ns.last()))
    }
}

impl View for PlatformMenuSnapshotNode {
    type V = SnapshotNodeView;

    open spec fn view(&self) -> SnapshotNodeView {
        node_view(*self)
    }
}

impl View for PlatformMenuSnapshot {
    type V = Seq<SnapshotNodeView>;

    open spec fn view(&self) -> Seq<SnapshotNodeView> {
        nodes_view(self.menus@)
    }
}

/// `nodes_view` keeps length and maps element by element.
pub proof fn lemma_nodes_view(ns: Seq<PlatformMenuSnapshotNode>)
    ensures
        nodes_view(ns).len() == ns.len(),
        forall|i: int| 0 <= i < ns.len() ==> #[trigger] nodes_view(ns)[i] == node_view(ns[i]),
    decreases ns.len(),
{
    if ns.len() > 0 {
        lemma_nodes_view(ns.drop_last());
    }
}

/// The path segment of a nested menu.
pub open spec fn menu_seg() -> Seq<char> {
    seq!['m', 'e', 'n', 'u']
}

/// The path segment of an item.
pub open spec fn item_seg() -> Seq<char> {
    seq!['i', 't', 'e', 'm']
}

/// The path segment of a group.
pub open spec fn group_seg() -> Seq<char> {
    seq!['g', 'r', 'o', 'u', 'p']
}

/// The path segment of a divider.
pub open spec fn divider_seg() -> Seq<char> {
    seq!['d', 'i', 'v', 'i', 'd', 'e', 'r']
}

/// `{path}.{kind}.{index}`.
pub open spec fn child_path(path: Seq<char>, kind: Seq<char>, index: nat) -> Seq<char> {
    path + seq!['.'] + kind + seq!['.'] + decimal(index)
}

/// `menu.{index}`: the path of a top-level menu.
pub open spec fn top_path(index: nat) -> Seq<char> {
    menu_seg() + seq!['.'] + decimal(index)
}

/// The identity of a node: its explicit one, else the one generated from its path.
pub open spec fn node_id(id: Option<Seq<char>>, path: Seq<char>) -> Seq<char> {
    match id {
        Some(i) => i,
        None => generated_prefix() + path,
    }
}

/// The snapshot node of an item at `path`: enabled only when it is enabled
/// and has a callback.
pub open spec fn item_node_spec(it: PlatformMenuItem, path: Seq<char>) -> SnapshotNodeView {
    SnapshotNodeView {
        id: node_id(it.id_spec(), path),
        label: it.label_spec(),
        tooltip: it.tooltip_spec(),
        shortcut: it.shortcut_spec(),
        enabled: it.enabled_spec() && it.callback_spec() is Some,
        selectable: true,
        separator: false,
        children: Seq::empty(),
    }
}

/// The snapshot node of a divider at `path`.
pub open spec fn divider_node_spec(path: Seq<char>) -> SnapshotNodeView {
    SnapshotNodeView {
        id: generated_prefix() + path,
        label: Seq::empty(),
        tooltip: None,
        shortcut: None,
        enabled: false,
        selectable: false,
        separator: true,
        children: Seq::empty(),
    }
}

/// The nodes of the first `items.len()` items of a group at `path`.
pub open spec fn group_nodes_spec(items: Seq<PlatformMenuItem>, path: Seq<char>) -> Seq<SnapshotNodeView>
    decreases items.len(),
{
    if items.len() == 0 {
        Seq::empty()
    } else {
        group_nodes_spec(items.drop_last(), path).push(
            item_node_spec(items.last(), child_path(path, item_seg(), (items.len() - 1) as nat)),
        )
    }
}

/// The snapshot node of a menu at `path`.
pub open spec fn menu_node_spec(m: PlatformMenu, path: Seq<char>) -> SnapshotNodeView
    decreases m, 0int,
{
    SnapshotNodeView {
        id: node_id(m.id_spec(), path),
        label: m.label_spec(),
        tooltip: m.tooltip_spec(),
        shortcut: None,
        enabled: true,
        selectable: false,
        separator: false,
        children: entries_nodes_spec(m.entries_spec(), path),
    }
}

/// The child nodes produced by a sequence of entries of the menu at `path`.
pub open spec fn entries_nodes_spec(es: Seq<PlatformMenuEntry>, path: Seq<char>) -> Seq<SnapshotNodeView>
    decreases es, es.len(),
{
    if es.len() == 0 {
        Seq::empty()
    } else {
        entries_nodes_spec(es.drop_last(), path) + entry_nodes_spec(es.last(), path, (es.len() - 1) as nat)
    }
}

/// The child nodes produced by the entry at `index` of the menu at `path`.
pub open spec fn entry_nodes_spec(e: PlatformMenuEntry, path: Seq<char>, index: nat) -> Seq<SnapshotNodeView>
    decreases e, 0int,
{
    match e {
        PlatformMenuEntry::Menu(m) => seq![menu_node_spec(m, child_path(path, menu_seg(), index))],
        PlatformMenuEntry::Item(it) => seq![item_node_spec(it, child_path(path, item_seg(), index))],
        PlatformMenuEntry::Group(g) => group_nodes_spec(g.items_spec(), child_path(path, group_seg(), index)),
        PlatformMenuEntry::Divider => seq![divider_node_spec(child_path(path, divider_seg(), index))],
    }
}

/// The snapshot of a sequence of top-level menus.
pub open spec fn menus_nodes_spec(ms: Seq<PlatformMenu>) -> Seq<SnapshotNodeView>
    decreases ms.len(),
{
    if ms.len() == 0 {
        Seq::empty()
    } else {
        menus_nodes_spec(ms.drop_last()).push(menu_node_spec(ms.last(), top_path((ms.len() - 1) as nat)))
    }
}

/// One node visited while flattening, with the callbacks it registers.
pub struct TraceEntry {
    pub id: Seq<char>,
    pub selected: Option<Callback>,
    pub opened: Option<Callback>,
    pub closed: Option<Callback>,
}

/// The visit of an item at `path`: its selection callback is registered only
/// while the item is enabled.
pub open spec fn item_trace(it: PlatformMenuItem, path: Seq<char>) -> TraceEntry {
    TraceEntry {
        id: node_id(it.id_spec(), path),
        selected: if it.enabled_spec() { it.callback_spec() } else { None },
        opened: None,
        closed: None,
    }
}

/// The visits of the items of a group at `path`.
pub open spec fn group_trace(items: Seq<PlatformMenuItem>, path: Seq<char>) -> Seq<TraceEntry>
    decreases items.len(),
{
    if items.len() == 0 {
        Seq::empty()
    } else {
        group_trace(items.drop_last(), path).push(
            item_trace(items.last(), child_path(path, item_seg(), (items.len() - 1) as nat)),
        )
    }
}

/// The visit of a menu itself at `path`.
pub open spec fn menu_head_trace(m: PlatformMenu, path: Seq<char>) -> TraceEntry {
    TraceEntry {
        id: node_id(m.id_spec(), path),
        selected: None,
        opened: m.open_spec(),
        closed: m.close_spec(),
    }
}

/// The visits of a menu and its descendants, in depth-first order.
/// Dividers are not visited: their identities are never checked.
pub open spec fn menu_trace(m: PlatformMenu, path: Seq<char>) -> Seq<TraceEntry>
    decreases m, 0int,
{
    seq![menu_head_trace(m, path)] + entries_trace(m.entries_spec(), path)
}

/// The visits of a sequence of entries of the menu at `path`.
pub open spec fn entries_trace(es: Seq<PlatformMenuEntry>, path: Seq<char>) -> Seq<TraceEntry>
    decreases es, es.len(),
{
    if es.len() == 0 {
        Seq::empty()
    } else {
        entries_trace(es.drop_last(), path) + entry_trace(es.last(), path, (es.len() - 1) as nat)
    }
}

/// The visits of the entry at `index` of the menu at `path`.
pub open spec fn entry_trace(e: PlatformMenuEntry, path: Seq<char>, index: nat) -> Seq<TraceEntry>
    decreases e, 0int,
{
    match e {
        PlatformMenuEntry::Menu(m) => menu_trace(m, child_path(path, menu_seg(), index)),
        PlatformMenuEntry::Item(it) => seq![item_trace(it, child_path(path, item_seg(), index))],
        PlatformMenuEntry::Group(g) => group_trace(g.items_spec(), child_path(path, group_seg(), index)),
        PlatformMenuEntry::Divider => Seq::empty(),
    }
}

/// The visits of a sequence of top-level menus.
pub open spec fn menus_trace(ms: Seq<PlatformMenu>) -> Seq<TraceEntry>
    decreases ms.len(),
{
    if ms.len() == 0 {
        Seq::empty()
    } else {
        menus_trace(ms.drop_last()) + menu_trace(ms.last(), top_path((ms.len() - 1) as nat))
    }
}

/// The identities visited.
pub open spec fn trace_ids(t: Seq<TraceEntry>) -> Seq<Seq<char>> {
    t.map_values(|e: TraceEntry| e.id)
}

/// A registered callback: the identity it answers to and the closure.
pub type CallbackEntry = (Seq<char>, Callback);

/// The selection callbacks registered by a trace, in visiting order.
pub open spec fn selected_of(t: Seq<TraceEntry>) -> Seq<CallbackEntry>
    decreases t.len(),
{
    if t.len() == 0 {
        Seq::empty()
    } else {
        selected_of(t.drop_last()) + match t.last().selected {
            Some(c) => seq![(t.last().id, c)],
            None => Seq::empty(),
        }
    }
}

/// The open callbacks registered by a trace, in visiting order.
pub open spec fn opened_of(t: Seq<TraceEntry>) -> Seq<CallbackEntry>
    decreases t.len(),
{
    if t.len() == 0 {
        Seq::empty()
    } else {
        opened_of(t.drop_last()) + match t.last().opened {
            Some(c) => seq![(t.last().id, c)],
            None => Seq::empty(),
        }
    }
}

/// The close callbacks registered by a trace, in visiting order.
pub open spec fn closed_of(t: Seq<TraceEntry>) -> Seq<CallbackEntry>
    decreases t.len(),
{
    if t.len() == 0 {
        Seq::empty()
    } else {
        closed_of(t.drop_last()) + match t.last().closed {
            Some(c) => seq![(t.last().id, c)],
            None => Seq::empty(),
        }
    }
}

/// The first identity of `ids` that repeats an earlier one, if any.
pub open spec fn first_duplicate(ids: Seq<Seq<char>>) -> Option<Seq<char>>
    decreases ids.len(),
{
    if ids.len() == 0 {
        None
    } else {
        match first_duplicate(ids.drop_last()) {
            Some(d) => Some(d),
            None => if ids.drop_last().contains(ids.last()) { Some(ids.last()) } else { None },
        }
    }
}

pub proof fn lemma_selected_concat(a: Seq<TraceEntry>, b: Seq<TraceEntry>)
    ensures
        selected_of(a + b) == selected_of(a) + selected_of(b),
        opened_of(a + b) == opened_of(a) + opened_of(b),
        closed_of(a + b) == closed_of(a) + closed_of(b),
    decreases b.len(),
{
    if b.len() == 0 {
        assert(a + b =~= a);
    } else {
        lemma_selected_concat(a, b.drop_last());
        assert((a + b).drop_last() =~= a + b.drop_last());
        assert((a + b).last() == b.last());
    }
}

/// A duplicate found in a prefix is the first duplicate of the whole.
pub proof fn lemma_first_duplicate_prefix(ids: Seq<Seq<char>>, k: int)
    requires
        0 <= k <= ids.len(),
        first_duplicate(ids.take(k)) is Some,
    ensures
        first_duplicate(ids) == first_duplicate(ids.take(k)),
    decreases ids.len() - k,
{
    if k < ids.len() {
        assert(ids.take(k + 1).drop_last() =~= ids.take(k));
        lemma_first_duplicate_prefix(ids, k + 1);
    } else {
        assert(ids.take(k) =~= ids);
    }
}

} // verus!

verus! {

/// Failure while flattening a menu tree into stable command IDs.
#[derive(Clone, Debug, PartialEq, Eq)]
pub enum PlatformMenuBuildError {
    DuplicateId(MenuItemId),
}

impl PlatformMenuBuildError {
    /// The duplicated identity.
    pub open spec fn duplicate_spec(&self) -> Seq<char> {
        match self {
            PlatformMenuBuildError::DuplicateId(id) => id@,
        }
    }

    /// The human-readable message: `duplicate platform menu id {id}`.
    pub fn message(&self) -> (r: String)
        ensures
            r@ == seq!['d', 'u', 'p', 'l', 'i', 'c', 'a', 't', 'e', ' ', 'p', 'l', 'a', 't', 'f', 'o', 'r', 'm', ' ', 'm', 'e', 'n', 'u', ' ', 'i', 'd', ' '] + self.duplicate_spec(),
    {
        let prefix = "duplicate platform menu id ";
        proof {
            reveal_strlit("duplicate platform menu id ");
        }
        match self {
            PlatformMenuBuildError::DuplicateId(id) => concat(prefix, id.as_str()),
        }
    }
}

/// The identities held by a vector, as values.
pub open spec fn ids_view(v: Seq<MenuItemId>) -> Seq<Seq<char>> {
    v.map_values(|i: MenuItemId| i@)
}

/// The registered callbacks held by a vector, as values.
pub open spec fn callbacks_view(v: Seq<(MenuItemId, Callback)>) -> Seq<CallbackEntry> {
    v.map_values(|p: (MenuItemId, Callback)| (p.0@, p.1))
}

/// The callbacks retained for command dispatch, keyed by identity.
pub struct MenuCallbackSet {
    selected: Vec<(MenuItemId, Callback)>,
    opened: Vec<(MenuItemId, Callback)>,
    closed: Vec<(MenuItemId, Callback)>,
}

impl MenuCallbackSet {
    /// Selection callbacks in registration order.
    pub closed spec fn selected_spec(&self) -> Seq<CallbackEntry> {
        callbacks_view(self.selected@)
    }

    /// Submenu-open callbacks in registration order.
    pub closed spec fn opened_spec(&self) -> Seq<CallbackEntry> {
        callbacks_view(self.opened@)
    }

    /// Submenu-close callbacks in registration order.
    pub closed spec fn closed_spec(&self) -> Seq<CallbackEntry> {
        callbacks_view(self.closed@)
    }

    /// The three sequences registered by a trace.
    pub open spec fn holds_trace(&self, t: Seq<TraceEntry>) -> bool {
        &&& self.selected_spec() == selected_of(t)
        &&& self.opened_spec() == opened_of(t)
        &&& self.closed_spec() == closed_of(t)
    }

    /// The three sequences extended by those a trace registers.
    pub open spec fn extends_by(&self, old: MenuCallbackSet, t: Seq<TraceEntry>) -> bool {
        &&& self.selected_spec() == old.selected_spec() + selected_of(t)
        &&& self.opened_spec() == old.opened_spec() + opened_of(t)
        &&& self.closed_spec() == old.closed_spec() + closed_of(t)
    }

    /// No callback at all.
    pub fn new() -> (r: Self)
        ensures
            r.selected_spec() == Seq::<CallbackEntry>::empty(),
            r.opened_spec() == Seq::<CallbackEntry>::empty(),
            r.closed_spec() == Seq::<CallbackEntry>::empty(),
    {
        let r = MenuCallbackSet { selected: Vec::new(), opened: Vec::new(), closed: Vec::new() };
        proof {
            assert(r.selected_spec() =~= Seq::<CallbackEntry>::empty());
            assert(r.opened_spec() =~= Seq::<CallbackEntry>::empty());
            assert(r.closed_spec() =~= Seq::<CallbackEntry>::empty());
        }
        r
    }

    /// Registers the callbacks of one visited node.
    fn record(&mut self, id: &MenuItemId, e: Ghost<TraceEntry>,
        selected: &Option<Callback>, opened: &Option<Callback>, closed: &Option<Callback>)
        requires
            e@.id == id@,
            e@.selected == *selected,
            e@.opened == *opened,
            e@.closed == *closed,
        ensures
            final(self).extends_by(*old(self), seq![e@]),
    {
        let ghost t = seq![e@];
        proof {
            assert(t.drop_last() =~= Seq::<TraceEntry>::empty());
        }
        let ghost s0 = self.selected@;
        let ghost o0 = self.opened@;
        let ghost c0 = self.closed@;
        proof {
            assert(selected_of(t) == selected_of(t.drop_last()) + match e@.selected {
                Some(c) => seq![(e@.id, c)],
                None => Seq::<CallbackEntry>::empty(),
            });
            assert(selected_of(t.drop_last()) == Seq::<CallbackEntry>::empty());
            assert(opened_of(t.drop_last()) == Seq::<CallbackEntry>::empty());
            assert(closed_of(t.drop_last()) == Seq::<CallbackEntry>::empty());
        }
        if let Some(c) = selected {
            self.selected.push((id.clone(), c.clone()));
            assert(callbacks_view(self.selected@) =~= callbacks_view(s0) + seq![(id@, *c)]);
        } else {
            assert(callbacks_view(self.selected@) =~= callbacks_view(s0) + Seq::<CallbackEntry>::empty());
        }
        if let Some(c) = opened {
            self.opened.push((id.clone(), c.clone()));
            assert(callbacks_view(self.opened@) =~= callbacks_view(o0) + seq![(id@, *c)]);
        } else {
            assert(callbacks_view(self.opened@) =~= callbacks_view(o0) + Seq::<CallbackEntry>::empty());
        }
        if let Some(c) = closed {
            self.closed.push((id.clone(), c.clone()));
            assert(callbacks_view(self.closed@) =~= callbacks_view(c0) + seq![(id@, *c)]);
        } else {
            assert(callbacks_view(self.closed@) =~= callbacks_view(c0) + Seq::<CallbackEntry>::empty());
        }
    }

    /// The selection callback registered for `id`, if any.
    pub fn find_selected(&self, id: &MenuItemId) -> (r: Option<Callback>)
        ensures
            r is Some <==> exists|i: int| 0 <= i < self.selected_spec().len() && #[trigger] self.selected_spec()[i].0 == id@,
            r matches Some(c) ==> exists|i: int| 0 <= i < self.selected_spec().len()
                && #[trigger] self.selected_spec()[i] == (id@, c),
    {
        let r = find_callback(&self.selected, id);
        proof {
            assert(self.selected_spec() == callbacks_view(self.selected@));
        }
        r
    }

    /// The submenu-open callback registered for `id`, if any.
    pub fn find_opened(&self, id: &MenuItemId) -> (r: Option<Callback>)
        ensures
            r is Some <==> exists|i: int| 0 <= i < self.opened_spec().len() && #[trigger] self.opened_spec()[i].0 == id@,
            r matches Some(c) ==> exists|i: int| 0 <= i < self.opened_spec().len()
                && #[trigger] self.opened_spec()[i] == (id@, c),
    {
        let r = find_callback(&self.opened, id);
        proof {
            assert(self.opened_spec() == callbacks_view(self.opened@));
        }
        r
    }

    /// The submenu-close callback registered for `id`, if any.
    pub fn find_closed(&self, id: &MenuItemId) -> (r: Option<Callback>)
        ensures
            r is Some <==> exists|i: int| 0 <= i < self.closed_spec().len() && #[trigger] self.closed_spec()[i].0 == id@,
            r matches Some(c) ==> exists|i: int| 0 <= i < self.closed_spec().len()
                && #[trigger] self.closed_spec()[i] == (id@, c),
    {
        let r = find_callback(&self.closed, id);
        proof {
            assert(self.closed_spec() == callbacks_view(self.closed@));
        }
        r
    }
}

fn find_callback(v: &Vec<(MenuItemId, Callback)>, id: &MenuItemId) -> (r: Option<Callback>)
    ensures
        r is Some <==> exists|i: int| 0 <= i < callbacks_view(v@).len() && #[trigger] callbacks_view(v@)[i].0 == id@,
        r matches Some(c) ==> exists|i: int| 0 <= i < callbacks_view(v@).len() && #[trigger] callbacks_view(v@)[i] == (id@, c),
{
    let mut i: usize = 0;
    while i < v.len()
        invariant
            i <= v.len(),
            forall|j: int| 0 <= j < i ==> #[trigger] callbacks_view(v@)[j].0 != id@,
        decreases v.len() - i,
    {
        if v[i].0.same_as(id) {
            let c = v[i].1.clone();
            assert(callbacks_view(v@)[i as int] == (id@, c));
            assert(callbacks_view(v@)[i as int].0 == id@);
            assert(i < callbacks_view(v@).len());
            return Some(c);
        }
        assert(callbacks_view(v@)[i as int].0 == v@[i as int].0@);
        i += 1;
    }
    None
}

/// Adds `id` to the identities seen so far, failing on a repeat.
fn insert_id(ids: &mut Vec<MenuItemId>, id: MenuItemId) -> (r: Result<(), PlatformMenuBuildError>)
    ensures
        !ids_view(old(ids)@).contains(id@) ==> r is Ok && ids_view(final(ids)@) == ids_view(old(ids)@).push(id@),
        ids_view(old(ids)@).contains(id@) ==> (r matches Err(e) && e.duplicate_spec() == id@)
            && final(ids)@ == old(ids)@,
{
    let mut i: usize = 0;
    while i < ids.len()
        invariant
            i <= ids.len(),
            forall|j: int| 0 <= j < i ==> #[trigger] ids_view(ids@)[j] != id@,
        decreases ids.len() - i,
    {
        if ids[i].same_as(&id) {
            assert(ids_view(ids@)[i as int] == id@);
            return Err(PlatformMenuBuildError::DuplicateId(id));
        }
        i += 1;
    }
    let ghost before = ids@;
    ids.push(id);
    proof {
        assert(ids_view(ids@) =~= ids_view(before).push(ids@.last()@));
    }
    Ok(())
}

fn menu_child_path(path: &str, index: usize) -> (r: String)
    ensures
        r@ == child_path(path@, menu_seg(), index as nat),
{
    proof {
        reveal_strlit(".menu.");
    }
    concat(&concat(path, ".menu."), &usize_to_decimal(index))
}

fn item_child_path(path: &str, index: usize) -> (r: String)
    ensures
        r@ == child_path(path@, item_seg(), index as nat),
{
    proof {
        reveal_strlit(".item.");
    }
    concat(&concat(path, ".item."), &usize_to_decimal(index))
}

fn group_child_path(path: &str, index: usize) -> (r: String)
    ensures
        r@ == child_path(path@, group_seg(), index as nat),
{
    proof {
        reveal_strlit(".group.");
    }
    concat(&concat(path, ".group."), &usize_to_decimal(index))
}

fn divider_child_path(path: &str, index: usize) -> (r: String)
    ensures
        r@ == child_path(path@, divider_seg(), index as nat),
{
    proof {
        reveal_strlit(".divider.");
    }
    concat(&concat(path, ".divider."), &usize_to_decimal(index))
}

fn top_menu_path(index: usize) -> (r: String)
    ensures
        r@ == top_path(index as nat),
{
    proof {
        reveal_strlit("menu.");
    }
    concat("menu.", &usize_to_decimal(index))
}

fn node_identity(id: &Option<MenuItemId>, path: &str) -> (r: MenuItemId)
    ensures
        r@ == node_id(opt_id(*id), path@),
{
    match id {
        Some(i) => i.clone(),
        None => MenuItemId::generated(path),
    }
}

} // verus!

verus! {

/// `a` is a prefix of `b`.
pub open spec fn is_prefix<A>(a: Seq<A>, b: Seq<A>) -> bool {
    a.len() <= b.len() && b.take(a.len() as int) == a
}

proof fn lemma_prefix_trans<A>(a: Seq<A>, b: Seq<A>, c: Seq<A>)
    requires
        is_prefix(a, b),
        is_prefix(b, c),
    ensures
        is_prefix(a, c),
{
    assert(c.take(a.len() as int) =~= c.take(b.len() as int).take(a.len() as int));
}

proof fn lemma_prefix_concat<A>(x: Seq<A>, p: Seq<A>, q: Seq<A>, y: Seq<A>)
    requires
        is_prefix(p, q),
    ensures
        is_prefix(x + p, x + q + y),
{
    assert((x + q + y).take((x + p).len() as int) =~= x + p);
}

proof fn lemma_prefix_append<A>(p: Seq<A>, y: Seq<A>)
    ensures
        is_prefix(p, p + y),
{
    assert((p + y).take(p.len() as int) =~= p);
}

proof fn lemma_trace_ids_concat(a: Seq<TraceEntry>, b: Seq<TraceEntry>)
    ensures
        trace_ids(a + b) == trace_ids(a) + trace_ids(b),
{
    assert(trace_ids(a + b) =~= trace_ids(a) + trace_ids(b));
}

/// A duplicate found while visiting part of a trace is the first duplicate
/// of the whole trace.
proof fn lemma_dup_extends(old_ids: Seq<Seq<char>>, part: Seq<TraceEntry>, full: Seq<TraceEntry>)
    requires
        is_prefix(part, full),
        first_duplicate(old_ids + trace_ids(part)) is Some,
    ensures
        first_duplicate(old_ids + trace_ids(full)) == first_duplicate(old_ids + trace_ids(part)),
{
    let a = old_ids + trace_ids(part);
    let b = old_ids + trace_ids(full);
    assert(full.take(part.len() as int) == part);
    assert(b.take(a.len() as int) =~= a) by {
        assert forall|i: int| 0 <= i < a.len() implies b.take(a.len() as int)[i] == a[i] by {
            if i >= old_ids.len() {
                assert(full[i - old_ids.len()] == part[i - old_ids.len()]);
            }
        }
    }
    lemma_first_duplicate_prefix(b, a.len() as int);
}

proof fn lemma_entries_step(es: Seq<PlatformMenuEntry>, path: Seq<char>, k: int)
    requires
        0 <= k < es.len(),
    ensures
        entries_trace(es.take(k + 1), path) == entries_trace(es.take(k), path) + entry_trace(es[k], path, k as nat),
        entries_nodes_spec(es.take(k + 1), path) == entries_nodes_spec(es.take(k), path) + entry_nodes_spec(es[k], path, k as nat),
{
    assert(es.take(k + 1).drop_last() =~= es.take(k));
    assert(es.take(k + 1).last() == es[k]);
}

proof fn lemma_entries_prefix(es: Seq<PlatformMenuEntry>, path: Seq<char>, k: int)
    requires
        0 <= k <= es.len(),
    ensures
        is_prefix(entries_trace(es.take(k), path), entries_trace(es, path)),
    decreases es.len() - k,
{
    if k == es.len() {
        assert(es.take(k) =~= es);
        lemma_prefix_append(entries_trace(es, path), Seq::empty());
        assert(entries_trace(es, path) + Seq::<TraceEntry>::empty() =~= entries_trace(es, path));
    } else {
        lemma_entries_prefix(es, path, k + 1);
        lemma_entries_step(es, path, k);
        lemma_prefix_append(entries_trace(es.take(k), path), entry_trace(es[k], path, k as nat));
        lemma_prefix_trans(entries_trace(es.take(k), path), entries_trace(es.take(k + 1), path), entries_trace(es, path));
    }
}

proof fn lemma_group_step(items: Seq<PlatformMenuItem>, path: Seq<char>, k: int)
    requires
        0 <= k < items.len(),
    ensures
        group_trace(items.take(k + 1), path) == group_trace(items.take(k), path).push(
            item_trace(items[k], child_path(path, item_seg(), k as nat))),
        group_nodes_spec(items.take(k + 1), path) == group_nodes_spec(items.take(k), path).push(
            item_node_spec(items[k], child_path(path, item_seg(), k as nat))),
{
    assert(items.take(k + 1).drop_last() =~= items.take(k));
    assert(items.take(k + 1).last() == items[k]);
}

proof fn lemma_group_prefix(items: Seq<PlatformMenuItem>, path: Seq<char>, k: int)
    requires
        0 <= k <= items.len(),
    ensures
        is_prefix(group_trace(items.take(k), path), group_trace(items, path)),
    decreases items.len() - k,
{
    if k == items.len() {
        assert(items.take(k) =~= items);
        assert(group_trace(items, path).take(group_trace(items, path).len() as int) =~= group_trace(items, path));
    } else {
        lemma_group_prefix(items, path, k + 1);
        lemma_group_step(items, path, k);
        assert(group_trace(items.take(k + 1), path).take(group_trace(items.take(k), path).len() as int)
            =~= group_trace(items.take(k), path));
        lemma_prefix_trans(group_trace(items.take(k), path), group_trace(items.take(k + 1), path), group_trace(items, path));
    }
}

/// The outcome of flattening a trace on top of identities already seen.
pub open spec fn flatten_outcome(
    old_ids: Seq<Seq<char>>,
    t: Seq<TraceEntry>,
    ok: bool,
    dup: Seq<char>,
) -> bool {
    let all = old_ids + trace_ids(t);
    &&& ok <==> first_duplicate(all) is None
    &&& !ok ==> first_duplicate(all) == Some(dup)
}

fn build_item_node(
    item: &PlatformMenuItem,
    path: &str,
    ids: &mut Vec<MenuItemId>,
    callbacks: &mut MenuCallbackSet,
) -> (r: Result<PlatformMenuSnapshotNode, PlatformMenuBuildError>)
    requires
        first_duplicate(ids_view(old(ids)@)) is None,
    ensures
        ({
            let t = seq![item_trace(*item, path@)];
            &&& flatten_outcome(ids_view(old(ids)@), t, r is Ok,
                match r { Err(e) => e.duplicate_spec(), Ok(_) => Seq::empty() })
            &&& r matches Ok(n) ==> {
                &&& n@ == item_node_spec(*item, path@)
                &&& ids_view(final(ids)@) == ids_view(old(ids)@) + trace_ids(t)
                &&& final(callbacks).extends_by(*old(callbacks), t)
            }
        }),
        r matches Ok(n) ==> n@.shortcut == item.shortcut_spec() && n@.label == item.label_spec()
            && n@.tooltip == item.tooltip_spec(),
        r is Ok && !item.enabled_spec() ==> final(callbacks).selected_spec() == old(callbacks).selected_spec(),
        r is Ok && item.enabled_spec() ==> final(callbacks).selected_spec() == old(callbacks).selected_spec()
            + match item.callback_spec() {
                Some(c) => seq![(node_id(item.id_spec(), path@), c)],
                None => Seq::<CallbackEntry>::empty(),
            },
{
    let ghost e = item_trace(*item, path@);
    let ghost t = seq![e];
    let ghost old_ids = ids_view(ids@);
    proof {
        assert(trace_ids(t) =~= seq![e.id]);
        assert((old_ids + trace_ids(t)).drop_last() =~= old_ids);
        assert((old_ids + trace_ids(t)).last() == e.id);
    }
    let id = node_identity(&item.id, path);
    match insert_id(ids, id.clone()) {
        Err(err) => {
            return Err(err);
        },
        Ok(()) => {},
    }
    let selected = if item.enabled { item.on_selected.clone() } else { None };
    callbacks.record(&id, Ghost(e), &selected, &None, &None);
    let node = PlatformMenuSnapshotNode {
        id,
        label: item.label.clone(),
        tooltip: copy_opt_str(&item.tooltip),
        shortcut: copy_opt_shortcut(&item.shortcut),
        enabled: item.enabled && item.on_selected.is_some(),
        selectable: true,
        separator: false,
        children: Vec::new(),
    };
    proof {
        assert(node.children@ =~= Seq::<PlatformMenuSnapshotNode>::empty());
        assert(nodes_view(node.children@) =~= Seq::<SnapshotNodeView>::empty());
        assert(ids_view(ids@) =~= old_ids + trace_ids(t));
        assert(t.drop_last() =~= Seq::<TraceEntry>::empty());
        assert(selected_of(t) == selected_of(t.drop_last()) + match e.selected {
            Some(c) => seq![(e.id, c)],
            None => Seq::<CallbackEntry>::empty(),
        });
        assert(callbacks.selected_spec() =~= old(callbacks).selected_spec() + selected_of(t));
    }
    Ok(node)
}

fn divider_node(path: &str) -> (r: PlatformMenuSnapshotNode)
    ensures
        r@ == divider_node_spec(path@),
{
    let node = PlatformMenuSnapshotNode {
        id: MenuItemId::generated(path),
        label: String::new(),
        tooltip: None,
        shortcut: None,
        enabled: false,
        selectable: false,
        separator: true,
        children: Vec::new(),
    };
    proof {
        assert(nodes_view(node.children@) =~= Seq::<SnapshotNodeView>::empty());
    }
    node
}

} // verus!

verus! {

#[verifier::rlimit(40)]
fn build_menu_node(
    menu: &PlatformMenu,
    path: &str,
    ids: &mut Vec<MenuItemId>,
    callbacks: &mut MenuCallbackSet,
) -> (r: Result<PlatformMenuSnapshotNode, PlatformMenuBuildError>)
    requires
        first_duplicate(ids_view(old(ids)@)) is None,
    ensures
        ({
            let t = menu_trace(*menu, path@);
            &&& flatten_outcome(ids_view(old(ids)@), t, r is Ok,
                match r { Err(e) => e.duplicate_spec(), Ok(_) => Seq::empty() })
            &&& r matches Ok(n) ==> {
                &&& n@ == menu_node_spec(*menu, path@)
                &&& ids_view(final(ids)@) == ids_view(old(ids)@) + trace_ids(t)
                &&& final(callbacks).extends_by(*old(callbacks), t)
            }
        }),
        r matches Ok(n) ==> n@.id == node_id(menu.id_spec(), path@) && n@.label == menu.label_spec()
            && n@.tooltip == menu.tooltip_spec() && n@.shortcut is None && n@.enabled
            && !n@.selectable && !n@.separator,
    decreases menu,
{
    let ghost old_ids = ids_view(ids@);
    let ghost old_cbs = *callbacks;
    let ghost head = seq![menu_head_trace(*menu, path@)];
    let ghost es = menu.entries@;
    let ghost full = menu_trace(*menu, path@);
    proof {
        assert(full == head + entries_trace(es, path@));
        assert(trace_ids(head) =~= seq![head[0].id]);
        assert((old_ids + trace_ids(head)).drop_last() =~= old_ids);
        assert((old_ids + trace_ids(head)).last() == head[0].id);
    }
    let id = node_identity(&menu.id, path);
    match insert_id(ids, id.clone()) {
        Err(err) => {
            proof {
                lemma_prefix_append(head, entries_trace(es, path@));
                lemma_dup_extends(old_ids, head, full);
            }
            return Err(err);
        },
        Ok(()) => {},
    }
    callbacks.record(&id, Ghost(head[0]), &None, &menu.on_open.clone(), &menu.on_close.clone());
    proof {
        assert(ids_view(ids@) =~= old_ids + trace_ids(head));
        assert(es.take(0) =~= Seq::<PlatformMenuEntry>::empty());
        assert(head + entries_trace(es.take(0), path@) =~= head);
    }
    let mut children: Vec<PlatformMenuSnapshotNode> = Vec::new();
    let mut index: usize = 0;
    while index < menu.entries.len()
        invariant
            index <= menu.entries.len(),
            es == menu.entries@,
            old_ids == ids_view(old(ids)@),
            old_cbs == *old(callbacks),
            full == head + entries_trace(es, path@),
            full == menu_trace(*menu, path@),
            first_duplicate(ids_view(ids@)) is None,
            ids_view(ids@) == old_ids + trace_ids(head + entries_trace(es.take(index as int), path@)),
            callbacks.extends_by(old_cbs, head + entries_trace(es.take(index as int), path@)),
            nodes_view(children@) == entries_nodes_spec(es.take(index as int), path@),
        decreases menu.entries.len() - index,
    {
        let ghost before = head + entries_trace(es.take(index as int), path@);
        let ghost ids_before = ids_view(ids@);
        let ghost cbs_before = *callbacks;
        let ghost children_before = children@;
        proof {
            lemma_entries_step(es, path@, index as int);
            lemma_entries_prefix(es, path@, index as int + 1);
            lemma_prefix_concat(head, entries_trace(es.take(index as int + 1), path@), entries_trace(es, path@), Seq::empty());
            assert(head + entries_trace(es, path@) + Seq::<TraceEntry>::empty() =~= full);
        }
        let ghost after = head + entries_trace(es.take(index as int + 1), path@);
        let ghost step = entry_trace(es[index as int], path@, index as nat);
        proof {
            assert(after =~= before + step);
            lemma_trace_ids_concat(before, step);
            lemma_selected_concat(before, step);
        }
        match &menu.entries[index] {
            PlatformMenuEntry::Menu(sub) => {
                let p = menu_child_path(path, index);
                assert(decreases_to!(menu => sub));
                match build_menu_node(sub, &p, ids, callbacks) {
                    Err(err) => {
                        proof {
                            assert(ids_before == old_ids + trace_ids(before));
                            assert(trace_ids(after) == trace_ids(before) + trace_ids(step));
                            assert(old_ids + trace_ids(after) =~= ids_before + trace_ids(step));
                            assert(first_duplicate(ids_before + trace_ids(step)) == Some(err.duplicate_spec()));
                            assert(is_prefix(after, full));
                            lemma_dup_extends(old_ids, after, full);
                            assert(first_duplicate(old_ids + trace_ids(full)) == Some(err.duplicate_spec()));
                            assert(flatten_outcome(old_ids, full, false, err.duplicate_spec()));
                            assert(old_ids == ids_view(old(ids)@));
                            assert(full == menu_trace(*menu, path@));
                        }
                        return Err(err);
                    },
                    Ok(n) => {
                        proof {
                            lemma_extends_chain(old_cbs, cbs_before, *callbacks, before, step);
                        }
                        children.push(n);
                        proof {
                            assert(children@ =~= children_before.push(n));
                            assert(children@.drop_last() =~= children_before);
                            assert(nodes_view(children@) =~= nodes_view(children_before) + entry_nodes_spec(es[index as int], path@, index as nat));
                        }
                    },
                }
            },
            PlatformMenuEntry::Item(item) => {
                let p = item_child_path(path, index);
                match build_item_node(item, &p, ids, callbacks) {
                    Err(err) => {
                        proof {
                            assert(old_ids + trace_ids(after) =~= ids_before + trace_ids(step));
                            lemma_dup_extends(old_ids, after, full);
                        }
                        return Err(err);
                    },
                    Ok(n) => {
                        proof {
                            assert(step =~= seq![item_trace(*item, p@)]);
                            lemma_extends_chain(old_cbs, cbs_before, *callbacks, before, step);
                        }
                        children.push(n);
                        proof {
                            assert(children@.drop_last() =~= children_before);
                            assert(nodes_view(children@) =~= nodes_view(children_before) + entry_nodes_spec(es[index as int], path@, index as nat));
                        }
                    },
                }
            },
            PlatformMenuEntry::Group(group) => {
                let gpath = group_child_path(path, index);
                let ghost items = group.items@;
                proof {
                    assert(items.take(0) =~= Seq::<PlatformMenuItem>::empty());
                    assert(before + group_trace(items.take(0), gpath@) =~= before);
                    assert(children_before + Seq::<PlatformMenuSnapshotNode>::empty() =~= children_before);
                }
                let mut gi: usize = 0;
                while gi < group.items.len()
                    invariant
                        gi <= group.items.len(),
                        items == group.items@,
                        old_ids == ids_view(old(ids)@),
                        old_cbs == *old(callbacks),
                        full == menu_trace(*menu, path@),
                        step == group_trace(items, gpath@),
                        first_duplicate(ids_view(ids@)) is None,
                        ids_view(ids@) == old_ids + trace_ids(before + group_trace(items.take(gi as int), gpath@)),
                        callbacks.extends_by(old_cbs, before + group_trace(items.take(gi as int), gpath@)),
                        nodes_view(children@) == nodes_view(children_before) + group_nodes_spec(items.take(gi as int), gpath@),
                        is_prefix(before + step, full),
                    decreases group.items.len() - gi,
                {
                    let ghost part = before + group_trace(items.take(gi as int), gpath@);
                    let ghost part1 = before + group_trace(items.take(gi as int + 1), gpath@);
                    let ghost ids_mid = ids_view(ids@);
                    let ghost children_mid = children@;
                    let ghost cbs_mid = *callbacks;
                    let ghost e = item_trace(items[gi as int], child_path(gpath@, item_seg(), gi as nat));
                    proof {
                        lemma_group_step(items, gpath@, gi as int);
                        assert(part1 =~= part + seq![e]);
                        lemma_trace_ids_concat(part, seq![e]);
                        lemma_selected_concat(part, seq![e]);
                        lemma_group_prefix(items, gpath@, gi as int + 1);
                        lemma_prefix_concat(before, group_trace(items.take(gi as int + 1), gpath@), step, Seq::empty());
                        assert(before + step + Seq::<TraceEntry>::empty() =~= before + step);
                        lemma_prefix_trans(part1, before + step, full);
                    }
                    let p = item_child_path(&gpath, gi);
                    match build_item_node(&group.items[gi], &p, ids, callbacks) {
                        Err(err) => {
                            proof {
                                assert(old_ids + trace_ids(part1) =~= ids_mid + trace_ids(seq![e]));
                                lemma_dup_extends(old_ids, part1, full);
                            }
                            return Err(err);
                        },
                        Ok(n) => {
                            proof {
                                lemma_extends_chain(old_cbs, cbs_mid, *callbacks, part, seq![e]);
                            }
                            let ghost cv = children@;
                            children.push(n);
                            proof {
                                assert(children@.drop_last() =~= cv);
                                lemma_nodes_append(cv, n);
                                assert(nodes_view(children@) =~= nodes_view(children_before)
                                    + group_nodes_spec(items.take(gi as int + 1), gpath@));
                            }
                        },
                    }
                    gi += 1;
                }
                proof {
                    assert(items.take(gi as int) =~= items);
                    assert(nodes_view(children@) =~= nodes_view(children_before) + entry_nodes_spec(es[index as int], path@, index as nat));
                }
            },
            PlatformMenuEntry::Divider => {
                let p = divider_child_path(path, index);
                let n = divider_node(&p);
                children.push(n);
                proof {
                    assert(children@.drop_last() =~= children_before);
                    assert(step =~= Seq::<TraceEntry>::empty());
                    assert(after =~= before);
                    assert(callbacks.selected_spec() =~= old_cbs.selected_spec() + selected_of(after));
                    assert(callbacks.opened_spec() =~= old_cbs.opened_spec() + opened_of(after));
                    assert(callbacks.closed_spec() =~= old_cbs.closed_spec() + closed_of(after));
                    assert(nodes_view(children@) =~= nodes_view(children_before) + entry_nodes_spec(es[index as int], path@, index as nat));
                }
            },
        }
        index += 1;
    }
    proof {
        assert(es.take(index as int) =~= es);
    }
    let node = PlatformMenuSnapshotNode {
        id,
        label: menu.label.clone(),
        tooltip: copy_opt_str(&menu.tooltip),
        shortcut: None,
        enabled: true,
        selectable: false,
        separator: false,
        children,
    };
    Ok(node)
}

proof fn lemma_extends_chain(c0: MenuCallbackSet, c1: MenuCallbackSet, c2: MenuCallbackSet,
    a: Seq<TraceEntry>, b: Seq<TraceEntry>)
    requires
        c1.extends_by(c0, a),
        c2.extends_by(c1, b),
    ensures
        c2.extends_by(c0, a + b),
{
    lemma_selected_concat(a, b);
    assert(c2.selected_spec() =~= c0.selected_spec() + selected_of(a + b));
    assert(c2.opened_spec() =~= c0.opened_spec() + opened_of(a + b));
    assert(c2.closed_spec() =~= c0.closed_spec() + closed_of(a + b));
}

proof fn lemma_nodes_append(ns: Seq<PlatformMenuSnapshotNode>, n: PlatformMenuSnapshotNode)
    ensures
        nodes_view(ns.push(n)) == nodes_view(ns).push(node_view(n)),
{
    assert(ns.push(n).drop_last() =~= ns);
}

} // verus!

verus! {

proof fn lemma_menus_step(ms: Seq<PlatformMenu>, k: int)
    requires
        0 <= k < ms.len(),
    ensures
        menus_trace(ms.take(k + 1)) == menus_trace(ms.take(k)) + menu_trace(ms[k], top_path(k as nat)),
        menus_nodes_spec(ms.take(k + 1)) == menus_nodes_spec(ms.take(k)).push(menu_node_spec(ms[k], top_path(k as nat))),
{
    assert(ms.take(k + 1).drop_last() =~= ms.take(k));
    assert(ms.take(k + 1).last() == ms[k]);
}

proof fn lemma_menus_prefix(ms: Seq<PlatformMenu>, k: int)
    requires
        0 <= k <= ms.len(),
    ensures
        is_prefix(menus_trace(ms.take(k)), menus_trace(ms)),
    decreases ms.len() - k,
{
    if k == ms.len() {
        assert(ms.take(k) =~= ms);
        lemma_prefix_append(menus_trace(ms), Seq::empty());
        assert(menus_trace(ms) + Seq::<TraceEntry>::empty() =~= menus_trace(ms));
    } else {
        lemma_menus_prefix(ms, k + 1);
        lemma_menus_step(ms, k);
        lemma_prefix_append(menus_trace(ms.take(k)), menu_trace(ms[k], top_path(k as nat)));
        lemma_prefix_trans(menus_trace(ms.take(k)), menus_trace(ms.take(k + 1)), menus_trace(ms));
    }
}

proof fn lemma_entries_nodes_prefix(es: Seq<PlatformMenuEntry>, path: Seq<char>, k: int)
    requires
        0 <= k <= es.len(),
    ensures
        is_prefix(entries_nodes_spec(es.take(k), path), entries_nodes_spec(es, path)),
    decreases es.len() - k,
{
    if k == es.len() {
        assert(es.take(k) =~= es);
        lemma_prefix_append(entries_nodes_spec(es, path), Seq::empty());
        assert(entries_nodes_spec(es, path) + Seq::<SnapshotNodeView>::empty() =~= entries_nodes_spec(es, path));
    } else {
        lemma_entries_nodes_prefix(es, path, k + 1);
        lemma_entries_step(es, path, k);
        lemma_prefix_append(entries_nodes_spec(es.take(k), path), entry_nodes_spec(es[k], path, k as nat));
        lemma_prefix_trans(entries_nodes_spec(es.take(k), path), entries_nodes_spec(es.take(k + 1), path),
            entries_nodes_spec(es, path));
    }
}

/// The nodes of a group are the nodes of its items, one each, in order.
pub proof fn lemma_group_nodes_index(items: Seq<PlatformMenuItem>, path: Seq<char>)
    ensures
        group_nodes_spec(items, path).len() == items.len(),
        forall|k: int| 0 <= k < items.len() ==> #[trigger] group_nodes_spec(items, path)[k]
            == item_node_spec(items[k], child_path(path, item_seg(), k as nat)),
    decreases items.len(),
{
    if items.len() > 0 {
        lemma_group_nodes_index(items.drop_last(), path);
        assert forall|k: int| 0 <= k < items.len() implies #[trigger] group_nodes_spec(items, path)[k]
            == item_node_spec(items[k], child_path(path, item_seg(), k as nat)) by {
            if k < items.len() - 1 {
                assert(items.drop_last()[k] == items[k]);
            }
        }
    }
}

/// The top-level snapshot holds one node per menu, in order.
pub proof fn lemma_menus_nodes_index(ms: Seq<PlatformMenu>)
    ensures
        menus_nodes_spec(ms).len() == ms.len(),
        forall|i: int| 0 <= i < ms.len() ==> #[trigger] menus_nodes_spec(ms)[i]
            == menu_node_spec(ms[i], top_path(i as nat)),
    decreases ms.len(),
{
    if ms.len() > 0 {
        lemma_menus_nodes_index(ms.drop_last());
        assert forall|i: int| 0 <= i < ms.len() implies #[trigger] menus_nodes_spec(ms)[i]
            == menu_node_spec(ms[i], top_path(i as nat)) by {
            if i < ms.len() - 1 {
                assert(ms.drop_last()[i] == ms[i]);
            }
        }
    }
}

/// Among the nodes of a menu's entries, those of entry `j` follow the
/// nodes of the entries before it: an item's one node, or a group's item
/// nodes in order.
pub proof fn lemma_entry_item_nodes(es: Seq<PlatformMenuEntry>, path: Seq<char>, j: int)
    requires
        0 <= j < es.len(),
    ensures
        ({
            let p = entries_nodes_spec(es.take(j), path).len() as int;
            let nodes = entries_nodes_spec(es, path);
            &&& es[j] matches PlatformMenuEntry::Item(it) ==> p < nodes.len()
                && nodes[p] == item_node_spec(it, child_path(path, item_seg(), j as nat))
            &&& es[j] matches PlatformMenuEntry::Group(g) ==> p + g.items_spec().len() <= nodes.len()
                && forall|k: int| 0 <= k < g.items_spec().len() ==> #[trigger] nodes[p + k]
                    == item_node_spec(g.items_spec()[k],
                        child_path(child_path(path, group_seg(), j as nat), item_seg(), k as nat))
        }),
{
    let p = entries_nodes_spec(es.take(j), path).len() as int;
    let nodes = entries_nodes_spec(es, path);
    let upto = entries_nodes_spec(es.take(j + 1), path);
    lemma_entries_nodes_prefix(es, path, j + 1);
    lemma_entries_step(es, path, j);
    assert(nodes.take(upto.len() as int) == upto);
    match es[j] {
        PlatformMenuEntry::Item(it) => {
            assert(upto[p] == item_node_spec(it, child_path(path, item_seg(), j as nat)));
            assert(nodes.take(upto.len() as int)[p] == nodes[p]);
        },
        PlatformMenuEntry::Group(g) => {
            lemma_group_nodes_index(g.items_spec(), child_path(path, group_seg(), j as nat));
            assert forall|k: int| 0 <= k < g.items_spec().len() implies #[trigger] nodes[p + k]
                == item_node_spec(g.items_spec()[k],
                    child_path(child_path(path, group_seg(), j as nat), item_seg(), k as nat)) by {
                assert(nodes.take(upto.len() as int)[p + k] == nodes[p + k]);
                assert(upto[p + k] == group_nodes_spec(g.items_spec(), child_path(path, group_seg(), j as nat))[k]);
            }
        },
        _ => {},
    }
}

/// The visit of the item at entry `j` of top-level menu `i` is part of the
/// trace of the menus.
pub proof fn lemma_item_in_menus_trace(ms: Seq<PlatformMenu>, i: int, j: int, it: PlatformMenuItem) -> (p: int)
    requires
        0 <= i < ms.len(),
        0 <= j < ms[i].entries_spec().len(),
        ms[i].entries_spec()[j] == PlatformMenuEntry::Item(it),
    ensures
        0 <= p < menus_trace(ms).len(),
        menus_trace(ms)[p] == item_trace(it, child_path(top_path(i as nat), item_seg(), j as nat)),
{
    let es = ms[i].entries_spec();
    let path = top_path(i as nat);
    let e = item_trace(it, child_path(path, item_seg(), j as nat));
    lemma_entries_prefix(es, path, j + 1);
    lemma_entries_step(es, path, j);
    let q = entries_trace(es.take(j), path).len() as int;
    let et = entries_trace(es, path);
    assert(entries_trace(es.take(j + 1), path)[q] == e);
    assert(et.take(entries_trace(es.take(j + 1), path).len() as int)[q] == et[q]);
    assert(et[q] == e);
    let mt = menu_trace(ms[i], path);
    assert(mt[q + 1] == e);
    lemma_menus_prefix(ms, i + 1);
    lemma_menus_step(ms, i);
    let before = menus_trace(ms.take(i)).len() as int;
    let upto = menus_trace(ms.take(i + 1));
    assert(upto[before + q + 1] == e);
    assert(menus_trace(ms).take(upto.len() as int)[before + q + 1] == menus_trace(ms)[before + q + 1]);
    before + q + 1
}

/// Without a first duplicate, no identity occurs twice.
pub proof fn lemma_no_duplicate_distinct(ids: Seq<Seq<char>>, p: int, q: int)
    requires
        first_duplicate(ids) is None,
        0 <= p < q < ids.len(),
    ensures
        ids[p] != ids[q],
    decreases ids.len(),
{
    if q < ids.len() - 1 {
        lemma_no_duplicate_distinct(ids.drop_last(), p, q);
    } else {
        assert(ids.drop_last()[p] == ids[p]);
        assert(!ids.drop_last().contains(ids.last()));
    }
}

/// Every registered selection comes from a visited node with that identity
/// and that selection callback.
pub proof fn lemma_selected_origin(t: Seq<TraceEntry>, k: int) -> (p: int)
    requires
        0 <= k < selected_of(t).len(),
    ensures
        0 <= p < t.len(),
        t[p].id == selected_of(t)[k].0,
        t[p].selected == Some(selected_of(t)[k].1),
    decreases t.len(),
{
    let head = selected_of(t.drop_last());
    if k < head.len() {
        let p = lemma_selected_origin(t.drop_last(), k);
        assert(t.drop_last()[p] == t[p]);
        p
    } else {
        (t.len() - 1) as int
    }
}

/// The visit of top-level menu `i` itself is part of the trace of the menus.
pub proof fn lemma_menu_head_in_menus_trace(ms: Seq<PlatformMenu>, i: int) -> (p: int)
    requires
        0 <= i < ms.len(),
    ensures
        0 <= p < menus_trace(ms).len(),
        menus_trace(ms)[p] == menu_head_trace(ms[i], top_path(i as nat)),
{
    lemma_menus_prefix(ms, i + 1);
    lemma_menus_step(ms, i);
    let before = menus_trace(ms.take(i)).len() as int;
    let upto = menus_trace(ms.take(i + 1));
    assert(upto[before] == menu_head_trace(ms[i], top_path(i as nat)));
    assert(menus_trace(ms).take(upto.len() as int)[before] == menus_trace(ms)[before]);
    before
}

/// A visited node with a selection callback registers it under its identity.
pub proof fn lemma_selected_registered(t: Seq<TraceEntry>, p: int, c: Callback) -> (k: int)
    requires
        0 <= p < t.len(),
        t[p].selected == Some(c),
    ensures
        0 <= k < selected_of(t).len(),
        selected_of(t)[k] == (t[p].id, c),
    decreases t.len(),
{
    let head = selected_of(t.drop_last());
    if p < t.len() - 1 {
        assert(t.drop_last()[p] == t[p]);
        let k = lemma_selected_registered(t.drop_last(), p, c);
        k
    } else {
        head.len() as int
    }
}

/// A visited node with an open callback registers it under its identity.
pub proof fn lemma_opened_registered(t: Seq<TraceEntry>, p: int, c: Callback) -> (k: int)
    requires
        0 <= p < t.len(),
        t[p].opened == Some(c),
    ensures
        0 <= k < opened_of(t).len(),
        opened_of(t)[k] == (t[p].id, c),
    decreases t.len(),
{
    let head = opened_of(t.drop_last());
    if p < t.len() - 1 {
        assert(t.drop_last()[p] == t[p]);
        let k = lemma_opened_registered(t.drop_last(), p, c);
        k
    } else {
        head.len() as int
    }
}

/// Every registered open callback comes from a visited node with that
/// identity and that open callback.
pub proof fn lemma_opened_origin(t: Seq<TraceEntry>, k: int) -> (p: int)
    requires
        0 <= k < opened_of(t).len(),
    ensures
        0 <= p < t.len(),
        t[p].id == opened_of(t)[k].0,
        t[p].opened == Some(opened_of(t)[k].1),
    decreases t.len(),
{
    let head = opened_of(t.drop_last());
    if k < head.len() {
        let p = lemma_opened_origin(t.drop_last(), k);
        assert(t.drop_last()[p] == t[p]);
        p
    } else {
        (t.len() - 1) as int
    }
}

/// Flattens a menu tree into its callback-free snapshot and the callbacks
/// retained for dispatch. Identities are checked in depth-first order (a
/// menu before its entries); the first identity that repeats an earlier one
/// is reported. Divider identities are generated and never checked.
pub fn build_snapshot(menus: &[PlatformMenu]) -> (r: Result<(PlatformMenuSnapshot, MenuCallbackSet), PlatformMenuBuildError>)
    ensures
        ({
            let t = menus_trace(menus@);
            &&& (r is Ok <==> first_duplicate(trace_ids(t)) is None)
            &&& (r matches Err(e) ==> first_duplicate(trace_ids(t)) == Some(e.duplicate_spec()))
            &&& (r matches Ok((s, c)) ==> s@ == menus_nodes_spec(menus@) && c.holds_trace(t))
        }),
{
    let mut ids: Vec<MenuItemId> = Vec::new();
    let mut callbacks = MenuCallbackSet::new();
    let mut nodes: Vec<PlatformMenuSnapshotNode> = Vec::new();
    let ghost ms = menus@;
    let ghost full = menus_trace(ms);
    let ghost empty_cbs = callbacks;
    proof {
        assert(ms.take(0) =~= Seq::<PlatformMenu>::empty());
        assert(ids_view(ids@) =~= Seq::<Seq<char>>::empty());
        assert(trace_ids(Seq::<TraceEntry>::empty()) =~= Seq::<Seq<char>>::empty());
        assert(Seq::<Seq<char>>::empty() + Seq::<Seq<char>>::empty() =~= Seq::<Seq<char>>::empty());
        assert(callbacks.selected_spec() =~= empty_cbs.selected_spec() + selected_of(Seq::<TraceEntry>::empty()));
        assert(callbacks.opened_spec() =~= empty_cbs.opened_spec() + opened_of(Seq::<TraceEntry>::empty()));
        assert(callbacks.closed_spec() =~= empty_cbs.closed_spec() + closed_of(Seq::<TraceEntry>::empty()));
    }
    let mut i: usize = 0;
    while i < menus.len()
        invariant
            i <= menus.len(),
            ms == menus@,
            full == menus_trace(ms),
            empty_cbs.selected_spec() == Seq::<CallbackEntry>::empty(),
            empty_cbs.opened_spec() == Seq::<CallbackEntry>::empty(),
            empty_cbs.closed_spec() == Seq::<CallbackEntry>::empty(),
            first_duplicate(ids_view(ids@)) is None,
            ids_view(ids@) == Seq::<Seq<char>>::empty() + trace_ids(menus_trace(ms.take(i as int))),
            callbacks.extends_by(empty_cbs, menus_trace(ms.take(i as int))),
            nodes_view(nodes@) == menus_nodes_spec(ms.take(i as int)),
        decreases menus.len() - i,
    {
        let ghost before = menus_trace(ms.take(i as int));
        let ghost step = menu_trace(ms[i as int], top_path(i as nat));
        let ghost ids_before = ids_view(ids@);
        let ghost cbs_before = callbacks;
        let ghost nodes_before = nodes@;
        proof {
            lemma_menus_step(ms, i as int);
            lemma_menus_prefix(ms, i as int + 1);
            lemma_trace_ids_concat(before, step);
        }
        let p = top_menu_path(i);
        match build_menu_node(&menus[i], &p, &mut ids, &mut callbacks) {
            Err(err) => {
                proof {
                    let after = menus_trace(ms.take(i as int + 1));
                    assert(Seq::<Seq<char>>::empty() + trace_ids(after) =~= ids_before + trace_ids(step));
                    lemma_dup_extends(Seq::empty(), after, full);
                    assert(Seq::<Seq<char>>::empty() + trace_ids(full) =~= trace_ids(full));
                }
                return Err(err);
            },
            Ok(n) => {
                proof {
                    lemma_extends_chain(empty_cbs, cbs_before, callbacks, before, step);
                }
                nodes.push(n);
                proof {
                    lemma_nodes_append(nodes_before, n);
                    assert(ids_view(ids@) =~= Seq::<Seq<char>>::empty() + trace_ids(menus_trace(ms.take(i as int + 1))));
                }
            },
        }
        i += 1;
    }
    proof {
        assert(ms.take(i as int) =~= ms);
        assert(Seq::<Seq<char>>::empty() + trace_ids(full) =~= trace_ids(full));
        assert(callbacks.selected_spec() =~= selected_of(full));
        assert(callbacks.opened_spec() =~= opened_of(full));
        assert(callbacks.closed_spec() =~= closed_of(full));
    }
    Ok((PlatformMenuSnapshot { menus: nodes }, callbacks))
}

} // verus!

verus! {

fn node_eq(a: &PlatformMenuSnapshotNode, b: &PlatformMenuSnapshotNode) -> (r: bool)
    ensures
        r == (a@ == b@),
    decreases a,
{
    proof {
        lemma_nodes_view(a.children@);
        lemma_nodes_view(b.children@);
    }
    if !a.id.same_as(&b.id) || a.label != b.label || a.enabled != b.enabled
        || a.selectable != b.selectable || a.separator != b.separator {
        return false;
    }
    let tooltip_same = match (&a.tooltip, &b.tooltip) {
        (Some(x), Some(y)) => *x == *y,
        (None, None) => true,
        _ => false,
    };
    if !tooltip_same {
        return false;
    }
    let shortcut_same = match (&a.shortcut, &b.shortcut) {
        (Some(x), Some(y)) => x.key == y.key && x.modifiers.bits() == y.modifiers.bits(),
        (None, None) => true,
        _ => false,
    };
    if !shortcut_same {
        return false;
    }
    if a.children.len() != b.children.len() {
        return false;
    }
    let mut i: usize = 0;
    while i < a.children.len()
        invariant
            i <= a.children.len(),
            a.children.len() == b.children.len(),
            nodes_view(a.children@).len() == a.children.len(),
            nodes_view(b.children@).len() == b.children.len(),
            forall|j: int| 0 <= j < nodes_view(a.children@).len() ==> #[trigger] nodes_view(a.children@)[j] == node_view(a.children@[j]),
            forall|j: int| 0 <= j < nodes_view(b.children@).len() ==> #[trigger] nodes_view(b.children@)[j] == node_view(b.children@[j]),
            forall|j: int| 0 <= j < i ==> #[trigger] node_view(a.children@[j]) == node_view(b.children@[j]),
        decreases a.children.len() - i,
    {
        assert(decreases_to!(a => a.children@[i as int]));
        if !node_eq(&a.children[i], &b.children[i]) {
            assert(nodes_view(a.children@)[i as int] != nodes_view(b.children@)[i as int]);
            return false;
        }
        i += 1;
    }
    assert(nodes_view(a.children@) =~= nodes_view(b.children@));
    true
}

fn node_copy(a: &PlatformMenuSnapshotNode) -> (r: PlatformMenuSnapshotNode)
    ensures
        r@ == a@,
    decreases a,
{
    proof {
        lemma_nodes_view(a.children@);
    }
    let mut children: Vec<PlatformMenuSnapshotNode> = Vec::new();
    let mut i: usize = 0;
    while i < a.children.len()
        invariant
            i <= a.children.len(),
            nodes_view(a.children@).len() == a.children.len(),
            forall|j: int| 0 <= j < nodes_view(a.children@).len() ==> #[trigger] nodes_view(a.children@)[j] == node_view(a.children@[j]),
            nodes_view(children@) == nodes_view(a.children@).take(i as int),
        decreases a.children.len() - i,
    {
        assert(decreases_to!(a => a.children@[i as int]));
        let c = node_copy(&a.children[i]);
        let ghost before = children@;
        children.push(c);
        proof {
            lemma_nodes_append(before, c);
            assert(nodes_view(a.children@).take(i as int + 1) =~= nodes_view(a.children@).take(i as int).push(node_view(a.children@[i as int])));
        }
        i += 1;
    }
    proof {
        assert(nodes_view(a.children@).take(i as int) =~= nodes_view(a.children@));
    }
    PlatformMenuSnapshotNode {
        id: a.id.clone(),
        label: a.label.clone(),
        tooltip: copy_opt_str(&a.tooltip),
        shortcut: copy_opt_shortcut(&a.shortcut),
        enabled: a.enabled,
        selectable: a.selectable,
        separator: a.separator,
        children,
    }
}

impl Clone for PlatformMenuSnapshotNode {
    fn clone(&self) -> (r: Self)
        ensures
            r@ == self@,
    {
        node_copy(self)
    }
}

impl PlatformMenuSnapshot {
    /// Whether two snapshots hold the same nodes.
    pub fn same_as(&self, other: &PlatformMenuSnapshot) -> (r: bool)
        ensures
            r == (self@ == other@),
    {
        proof {
            lemma_nodes_view(self.menus@);
            lemma_nodes_view(other.menus@);
        }
        if self.menus.len() != other.menus.len() {
            return false;
        }
        let mut i: usize = 0;
        while i < self.menus.len()
            invariant
                i <= self.menus.len(),
                self.menus.len() == other.menus.len(),
                nodes_view(self.menus@).len() == self.menus.len(),
                nodes_view(other.menus@).len() == other.menus.len(),
                forall|j: int| 0 <= j < nodes_view(self.menus@).len() ==> #[trigger] nodes_view(self.menus@)[j] == node_view(self.menus@[j]),
                forall|j: int| 0 <= j < nodes_view(other.menus@).len() ==> #[trigger] nodes_view(other.menus@)[j] == node_view(other.menus@[j]),
                forall|j: int| 0 <= j < i ==> #[trigger] node_view(self.menus@[j]) == node_view(other.menus@[j]),
            decreases self.menus.len() - i,
        {
            if !node_eq(&self.menus[i], &other.menus[i]) {
                assert(nodes_view(self.menus@)[i as int] != nodes_view(other.menus@)[i as int]);
                return false;
            }
            i += 1;
        }
        assert(nodes_view(self.menus@) =~= nodes_view(other.menus@));
        true
    }

    /// A deep copy.
    pub fn copy(&self) -> (r: Self)
        ensures
            r@ == self@,
    {
        proof {
            lemma_nodes_view(self.menus@);
        }
        let mut menus: Vec<PlatformMenuSnapshotNode> = Vec::new();
        let mut i: usize = 0;
        while i < self.menus.len()
            invariant
                i <= self.menus.len(),
                nodes_view(self.menus@).len() == self.menus.len(),
                forall|j: int| 0 <= j < nodes_view(self.menus@).len() ==> #[trigger] nodes_view(self.menus@)[j] == node_view(self.menus@[j]),
                nodes_view(menus@) == nodes_view(self.menus@).take(i as int),
            decreases self.menus.len() - i,
        {
            let c = node_copy(&self.menus[i]);
            let ghost before = menus@;
            menus.push(c);
            proof {
                lemma_nodes_append(before, c);
                assert(nodes_view(self.menus@).take(i as int + 1) =~= nodes_view(self.menus@).take(i as int).push(node_view(self.menus@[i as int])));
            }
            i += 1;
        }
        proof {
            assert(nodes_view(self.menus@).take(i as int) =~= nodes_view(self.menus@));
        }
        PlatformMenuSnapshot { menus }
    }
}

impl Clone for PlatformMenuSnapshot {
    fn clone(&self) -> (r: Self)
        ensures
            r@ == self@,
    {
        self.copy()
    }
}

} // verus!

verus! {

/// Capability and ownership result from a menu delegate.
#[derive(Clone, Copy, Debug, PartialEq, Eq, Structural)]
pub enum PlatformMenuUpdate {
    Applied,
    Unchanged,
    NoOpUnsupported,
    RejectedOwnedByOther,
    /// The backend owns the requested platform but could not safely apply the
    /// native mutation. Existing installed state remains current.
    RejectedByPlatform,
}

/// One event produced by a native application-menu backend, naming the
/// retained identity rather than a label, position or backend integer.
#[derive(Clone, Debug, PartialEq, Eq)]
pub enum PlatformMenuEvent {
    Selected(MenuItemId),
    Opened(MenuItemId),
    Closed(MenuItemId),
}

/// Where a native backend sends [`PlatformMenuEvent`]s: the controller of
/// `owner`, through [`PlatformMenuBarController::handle_event`].
#[derive(Clone, Copy, Debug, PartialEq, Eq)]
pub struct PlatformMenuEventSink {
    pub owner: MenuOwnerId,
}

/// Native menu bridge implemented by a platform crate.
pub trait PlatformMenuDelegate {
    /// Acquires exclusive top-level menu ownership.
    fn acquire(&self, owner: MenuOwnerId) -> PlatformMenuUpdate;

    /// Sends the current callback-free menu tree.
    fn set_menus(&self, owner: MenuOwnerId, snapshot: PlatformMenuSnapshot) -> PlatformMenuUpdate;

    /// Clears menus if this owner is still active.
    fn clear_menus(&self, owner: MenuOwnerId) -> PlatformMenuUpdate;

    /// Releases ownership after clear.
    fn release(&self, owner: MenuOwnerId) -> PlatformMenuUpdate;

    /// Installs or removes the event sink for this owner. Backends driven
    /// only through explicit controller dispatch may keep the default.
    fn set_event_handler(&self, owner: MenuOwnerId, sink: Option<PlatformMenuEventSink>) -> PlatformMenuUpdate {
        PlatformMenuUpdate::Applied
    }

    /// Handles one desktop keyboard accelerator before ordinary key dispatch;
    /// `true` makes the application-menu shortcut the authority for that key.
    fn handle_shortcut(&self, key: &str, modifiers: ShortcutModifiers) -> bool {
        false
    }
}

/// Delegate that consistently no-ops when a backend has no menu capability.
#[derive(Clone, Copy, Debug, Default)]
pub struct NoopPlatformMenuDelegate;

impl PlatformMenuDelegate for NoopPlatformMenuDelegate {
    fn acquire(&self, owner: MenuOwnerId) -> (r: PlatformMenuUpdate)
        ensures
            r == PlatformMenuUpdate::NoOpUnsupported,
    {
        PlatformMenuUpdate::NoOpUnsupported
    }

    fn set_menus(&self, owner: MenuOwnerId, snapshot: PlatformMenuSnapshot) -> (r: PlatformMenuUpdate)
        ensures
            r == PlatformMenuUpdate::NoOpUnsupported,
    {
        PlatformMenuUpdate::NoOpUnsupported
    }

    fn clear_menus(&self, owner: MenuOwnerId) -> (r: PlatformMenuUpdate)
        ensures
            r == PlatformMenuUpdate::NoOpUnsupported,
    {
        PlatformMenuUpdate::NoOpUnsupported
    }

    fn release(&self, owner: MenuOwnerId) -> (r: PlatformMenuUpdate)
        ensures
            r == PlatformMenuUpdate::NoOpUnsupported,
    {
        PlatformMenuUpdate::NoOpUnsupported
    }

    fn set_event_handler(&self, owner: MenuOwnerId, sink: Option<PlatformMenuEventSink>) -> (r: PlatformMenuUpdate)
        ensures
            r == PlatformMenuUpdate::NoOpUnsupported,
    {
        PlatformMenuUpdate::NoOpUnsupported
    }
}

/// A shared handle to a platform delegate.
#[verifier::external_body]
pub struct DelegateHandle {
    inner: Rc<dyn PlatformMenuDelegate>,
}

/// Moves a delegate behind a shared handle (`Rc::new`).
#[verifier::external_body]
fn delegate_handle<D: PlatformMenuDelegate + 'static>(delegate: D) -> DelegateHandle {
    DelegateHandle { inner: Rc::new(delegate) }
}

impl DelegateHandle {
    /// A shared handle to `delegate`; clones of the handle share it.
    pub fn new(delegate: impl PlatformMenuDelegate + 'static) -> Self {
        delegate_handle(delegate)
    }
}

/// Whether two handles designate the same delegate object (`Rc::ptr_eq`).
/// A handle stands for the allocation it shares, so two handles are equal
/// exactly when they point at the same delegate object.
#[verifier::external_body]
fn same_delegate(a: &DelegateHandle, b: &DelegateHandle) -> (r: bool)
    ensures
        r == (*a == *b),
{
    Rc::ptr_eq(&a.inner, &b.inner)
}

/// Shares a delegate handle (`Rc::clone`): the result designates the same object.
#[verifier::external_body]
fn share_delegate(a: &DelegateHandle) -> (r: DelegateHandle)
    ensures
        r == *a,
{
    DelegateHandle { inner: Rc::clone(&a.inner) }
}

impl Clone for DelegateHandle {
    fn clone(&self) -> (r: Self)
        ensures
            r == *self,
    {
        share_delegate(self)
    }
}

/// Calls the delegate's `acquire`; its answer is the delegate's own.
#[verifier::external_body]
fn call_acquire(d: &DelegateHandle, owner: MenuOwnerId) -> PlatformMenuUpdate {
    d.inner.acquire(owner)
}

/// Calls the delegate's `set_menus`; its answer is the delegate's own.
#[verifier::external_body]
fn call_set_menus(d: &DelegateHandle, owner: MenuOwnerId, snapshot: PlatformMenuSnapshot) -> PlatformMenuUpdate {
    d.inner.set_menus(owner, snapshot)
}

/// Calls the delegate's `clear_menus`; its answer is the delegate's own.
#[verifier::external_body]
fn call_clear_menus(d: &DelegateHandle, owner: MenuOwnerId) -> PlatformMenuUpdate {
    d.inner.clear_menus(owner)
}

/// Calls the delegate's `release`; its answer is the delegate's own.
#[verifier::external_body]
fn call_release(d: &DelegateHandle, owner: MenuOwnerId) -> PlatformMenuUpdate {
    d.inner.release(owner)
}

/// Calls the delegate's `set_event_handler`; its answer is the delegate's own.
#[verifier::external_body]
fn call_set_event_handler(d: &DelegateHandle, owner: MenuOwnerId, sink: Option<PlatformMenuEventSink>) -> PlatformMenuUpdate {
    d.inner.set_event_handler(owner, sink)
}

/// Calls the delegate's `handle_shortcut`; its answer is the delegate's own.
#[verifier::external_body]
fn call_handle_shortcut(d: &DelegateHandle, key: &str, modifiers: ShortcutModifiers) -> bool {
    d.inner.handle_shortcut(key, modifiers)
}

/// A request sent to a platform delegate.
pub enum DelegateCall {
    Acquire(MenuOwnerId),
    SetMenus(MenuOwnerId, Seq<SnapshotNodeView>),
    ClearMenus(MenuOwnerId),
    Release(MenuOwnerId),
    SetEventHandler(MenuOwnerId, Option<PlatformMenuEventSink>),
}

/// A request that reached delegate `to`, with the delegate's answer.
pub struct DelegateRequest {
    pub to: DelegateHandle,
    pub call: DelegateCall,
    pub answer: PlatformMenuUpdate,
}

/// A keyboard accelerator offered to delegate `to`, with its answer.
pub struct ShortcutRequest {
    pub to: DelegateHandle,
    pub key: Seq<char>,
    pub modifiers: ShortcutModifiers,
    pub answer: bool,
}

/// Whether `e` is the request `call` sent to `d`.
pub open spec fn request_is(e: DelegateRequest, d: DelegateHandle, call: DelegateCall) -> bool {
    e.to == d && e.call == call
}

/// The requests appended to `before` to give `after`.
pub open spec fn added_requests(before: Seq<DelegateRequest>, after: Seq<DelegateRequest>) -> Seq<DelegateRequest> {
    after.skip(before.len() as int)
}

/// What forwarding one request does to a slot: unbound, nothing is sent and
/// the answer is `NoOpUnsupported`; bound, the request reaches the bound
/// delegate once and its answer is returned.
pub open spec fn forwarded(
    before: DeferredPlatformMenuDelegate,
    after: DeferredPlatformMenuDelegate,
    call: DelegateCall,
    r: PlatformMenuUpdate,
) -> bool {
    &&& after.target_spec() == before.target_spec()
    &&& match before.target_spec() {
        None => r == PlatformMenuUpdate::NoOpUnsupported && after.requests_spec() == before.requests_spec(),
        Some(d) => after.requests_spec() == before.requests_spec().push(DelegateRequest { to: d, call, answer: r }),
    }
}

/// A late-bound delegate slot: unbound, every request answers
/// [`PlatformMenuUpdate::NoOpUnsupported`].
pub struct DeferredPlatformMenuDelegate {
    target: Option<DelegateHandle>,
    requests: Ghost<Seq<DelegateRequest>>,
    shortcuts: Ghost<Seq<ShortcutRequest>>,
}

impl DeferredPlatformMenuDelegate {
    /// The bound delegate, if any.
    pub closed spec fn target_spec(&self) -> Option<DelegateHandle> {
        self.target
    }

    /// The requests forwarded so far, oldest first.
    pub closed spec fn requests_spec(&self) -> Seq<DelegateRequest> {
        self.requests@
    }

    /// The accelerators forwarded so far, oldest first.
    pub closed spec fn shortcuts_spec(&self) -> Seq<ShortcutRequest> {
        self.shortcuts@
    }

    /// An unbound slot.
    pub fn new() -> (r: Self)
        ensures
            r.target_spec() is None,
            r.requests_spec() == Seq::<DelegateRequest>::empty(),
    {
        DeferredPlatformMenuDelegate { target: None, requests: Ghost(Seq::empty()), shortcuts: Ghost(Seq::empty()) }
    }

    /// A slot bound to `delegate`.
    pub fn bound_to(delegate: DelegateHandle) -> (r: Self)
        ensures
            r.target_spec() == Some(delegate),
            r.requests_spec() == Seq::<DelegateRequest>::empty(),
    {
        DeferredPlatformMenuDelegate { target: Some(delegate), requests: Ghost(Seq::empty()), shortcuts: Ghost(Seq::empty()) }
    }

    /// Binds `delegate`; `false` when it was already the bound object.
    pub fn bind(&mut self, delegate: DelegateHandle) -> (r: bool)
        ensures
            r == (old(self).target_spec() != Some(delegate)),
            final(self).target_spec() == Some(delegate),
            final(self).requests_spec() == old(self).requests_spec(),
    {
        if let Some(current) = &self.target {
            if same_delegate(current, &delegate) {
                return false;
            }
        }
        self.target = Some(delegate);
        true
    }

    /// Unbinds; whether a delegate was bound.
    pub fn unbind(&mut self) -> (r: bool)
        ensures
            r == old(self).target_spec() is Some,
            final(self).target_spec() is None,
            final(self).requests_spec() == old(self).requests_spec(),
    {
        let was = self.target.is_some();
        self.target = None;
        was
    }

    /// Whether a delegate is bound.
    pub fn is_bound(&self) -> (r: bool)
        ensures
            r == self.target_spec() is Some,
    {
        self.target.is_some()
    }

    /// Whether `delegate` is the bound object.
    pub fn is_bound_to(&self, delegate: &DelegateHandle) -> (r: bool)
        ensures
            r == (self.target_spec() == Some(*delegate)),
    {
        match &self.target {
            Some(current) => same_delegate(current, delegate),
            None => false,
        }
    }

    /// A copy sharing the same bound delegate.
    pub fn copy(&self) -> (r: Self)
        ensures
            r.target_spec() == self.target_spec(),
            r.requests_spec() == self.requests_spec(),
    {
        match &self.target {
            Some(d) => DeferredPlatformMenuDelegate {
                target: Some(share_delegate(d)),
                requests: Ghost(self.requests@),
                shortcuts: Ghost(self.shortcuts@),
            },
            None => DeferredPlatformMenuDelegate {
                target: None,
                requests: Ghost(self.requests@),
                shortcuts: Ghost(self.shortcuts@),
            },
        }
    }

    /// Records, next to its call, a request that reached the bound delegate.
    fn note_request(&mut self, call: Ghost<DelegateCall>, answer: PlatformMenuUpdate)
        requires
            old(self).target_spec() is Some,
        ensures
            final(self).target_spec() == old(self).target_spec(),
            final(self).requests_spec() == old(self).requests_spec().push(
                DelegateRequest { to: old(self).target_spec()->0, call: call@, answer }),
    {
        proof {
            self.requests@ = self.requests@.push(DelegateRequest { to: self.target->0, call: call@, answer });
        }
    }

    /// The bound delegate, shared.
    pub fn target(&self) -> (r: Option<DelegateHandle>)
        ensures
            r == self.target_spec(),
    {
        match &self.target {
            Some(d) => Some(share_delegate(d)),
            None => None,
        }
    }

    /// Forwards `acquire`.
    pub fn acquire(&mut self, owner: MenuOwnerId) -> (r: PlatformMenuUpdate)
        ensures
            forwarded(*old(self), *final(self), DelegateCall::Acquire(owner), r),
    {
        let ghost call = DelegateCall::Acquire(owner);
        let r = match &self.target {
            Some(d) => call_acquire(d, owner),
            None => PlatformMenuUpdate::NoOpUnsupported,
        };
        if self.target.is_some() {
            self.note_request(Ghost(call), r);
        }
        r
    }

    /// Forwards `set_menus`.
    pub fn set_menus(&mut self, owner: MenuOwnerId, snapshot: PlatformMenuSnapshot) -> (r: PlatformMenuUpdate)
        ensures
            forwarded(*old(self), *final(self), DelegateCall::SetMenus(owner, snapshot@), r),
    {
        let ghost call = DelegateCall::SetMenus(owner, snapshot@);
        let r = match &self.target {
            Some(d) => call_set_menus(d, owner, snapshot),
            None => PlatformMenuUpdate::NoOpUnsupported,
        };
        if self.target.is_some() {
            self.note_request(Ghost(call), r);
        }
        r
    }

    /// Forwards `clear_menus`.
    pub fn clear_menus(&mut self, owner: MenuOwnerId) -> (r: PlatformMenuUpdate)
        ensures
            forwarded(*old(self), *final(self), DelegateCall::ClearMenus(owner), r),
    {
        let ghost call = DelegateCall::ClearMenus(owner);
        let r = match &self.target {
            Some(d) => call_clear_menus(d, owner),
            None => PlatformMenuUpdate::NoOpUnsupported,
        };
        if self.target.is_some() {
            self.note_request(Ghost(call), r);
        }
        r
    }

    /// Forwards `release`.
    pub fn release(&mut self, owner: MenuOwnerId) -> (r: PlatformMenuUpdate)
        ensures
            forwarded(*old(self), *final(self), DelegateCall::Release(owner), r),
    {
        let ghost call = DelegateCall::Release(owner);
        let r = match &self.target {
            Some(d) => call_release(d, owner),
            None => PlatformMenuUpdate::NoOpUnsupported,
        };
        if self.target.is_some() {
            self.note_request(Ghost(call), r);
        }
        r
    }

    /// Forwards `set_event_handler`.
    pub fn set_event_handler(&mut self, owner: MenuOwnerId, sink: Option<PlatformMenuEventSink>) -> (r: PlatformMenuUpdate)
        ensures
            forwarded(*old(self), *final(self), DelegateCall::SetEventHandler(owner, sink), r),
    {
        let ghost call = DelegateCall::SetEventHandler(owner, sink);
        let r = match &self.target {
            Some(d) => call_set_event_handler(d, owner, sink),
            None => PlatformMenuUpdate::NoOpUnsupported,
        };
        if self.target.is_some() {
            self.note_request(Ghost(call), r);
        }
        r
    }

    /// Forwards `handle_shortcut`; unbound, the key is not handled.
    pub fn handle_shortcut(&mut self, key: &str, modifiers: ShortcutModifiers) -> (r: bool)
        ensures
            final(self).target_spec() == old(self).target_spec(),
            final(self).requests_spec() == old(self).requests_spec(),
            old(self).target_spec() is None ==> !r && final(self).shortcuts_spec() == old(self).shortcuts_spec(),
            old(self).target_spec() matches Some(d) ==> final(self).shortcuts_spec()
                == old(self).shortcuts_spec().push(ShortcutRequest { to: d, key: key@, modifiers, answer: r }),
    {
        let r = match &self.target {
            Some(d) => call_handle_shortcut(d, key, modifiers),
            None => false,
        };
        if self.target.is_some() {
            proof {
                self.shortcuts@ = self.shortcuts@.push(
                    ShortcutRequest { to: self.target->0, key: key@, modifiers, answer: r });
            }
        }
        r
    }
}

} // verus!

verus! {

/// Result of dispatching a platform command.
#[derive(Clone, Copy, Debug, PartialEq, Eq, Structural)]
pub enum MenuDispatchResult {
    Handled,
    Unknown,
}

/// Whether an `acquire` answer stops an installation.
pub open spec fn acquire_stops(u: PlatformMenuUpdate) -> bool {
    u == PlatformMenuUpdate::NoOpUnsupported || u == PlatformMenuUpdate::RejectedOwnedByOther
}

/// Whether a `set_event_handler` answer stops an installation.
pub open spec fn handler_stops(u: PlatformMenuUpdate) -> bool {
    u == PlatformMenuUpdate::NoOpUnsupported || u == PlatformMenuUpdate::RejectedOwnedByOther
        || u == PlatformMenuUpdate::RejectedByPlatform
}

/// Whether a `set_menus` answer means the native tree now shows the snapshot.
pub open spec fn menus_accepted(u: PlatformMenuUpdate) -> bool {
    u == PlatformMenuUpdate::Applied || u == PlatformMenuUpdate::Unchanged
}

/// The answer an installation reports, given what the delegate answered at
/// each step (`None` for a step that was not reached).
pub open spec fn install_answer(
    acquire: PlatformMenuUpdate,
    handler: PlatformMenuUpdate,
    set_menus: PlatformMenuUpdate,
) -> PlatformMenuUpdate {
    if acquire_stops(acquire) {
        acquire
    } else if handler_stops(handler) {
        handler
    } else {
        set_menus
    }
}

/// Decides the installation answer from the delegate's answers.
pub fn install_decision(
    acquire: PlatformMenuUpdate,
    handler: PlatformMenuUpdate,
    set_menus: PlatformMenuUpdate,
) -> (r: PlatformMenuUpdate)
    ensures
        r == install_answer(acquire, handler, set_menus),
{
    if matches!(acquire, PlatformMenuUpdate::NoOpUnsupported | PlatformMenuUpdate::RejectedOwnedByOther) {
        acquire
    } else if matches!(handler, PlatformMenuUpdate::NoOpUnsupported | PlatformMenuUpdate::RejectedOwnedByOther | PlatformMenuUpdate::RejectedByPlatform) {
        handler
    } else {
        set_menus
    }
}

fn copy_callback_vec(v: &Vec<(MenuItemId, Callback)>) -> (r: Vec<(MenuItemId, Callback)>)
    ensures
        callbacks_view(r@) == callbacks_view(v@),
{
    let mut out: Vec<(MenuItemId, Callback)> = Vec::new();
    let mut i: usize = 0;
    while i < v.len()
        invariant
            i <= v.len(),
            out.len() == i,
            callbacks_view(out@) == callbacks_view(v@).take(i as int),
        decreases v.len() - i,
    {
        let ghost before = out@;
        let id = v[i].0.clone();
        let cb = v[i].1.clone();
        out.push((id, cb));
        proof {
            assert(callbacks_view(out@).len() == i + 1);
            assert forall|j: int| 0 <= j <= i implies #[trigger] callbacks_view(out@)[j] == callbacks_view(v@).take(i as int + 1)[j] by {
                if j < i {
                    assert(callbacks_view(before)[j] == callbacks_view(v@).take(i as int)[j]);
                    assert(out@[j] == before[j]);
                }
            }
            assert(callbacks_view(out@) =~= callbacks_view(v@).take(i as int + 1));
        }
        i += 1;
    }
    proof {
        assert(callbacks_view(v@).take(i as int) =~= callbacks_view(v@));
    }
    out
}

impl MenuCallbackSet {
    /// A copy holding the same callbacks.
    pub fn copy(&self) -> (r: Self)
        ensures
            r.selected_spec() == self.selected_spec(),
            r.opened_spec() == self.opened_spec(),
            r.closed_spec() == self.closed_spec(),
    {
        MenuCallbackSet {
            selected: copy_callback_vec(&self.selected),
            opened: copy_callback_vec(&self.opened),
            closed: copy_callback_vec(&self.closed),
        }
    }
}

/// The requests an installation sends to delegate `d` for `owner` (`new`,
/// in order) and its answer `u`: acquire ownership; unless that stops it,
/// hand over the event sink; unless that stops it, send the snapshot. A
/// first installation (`first`) that does not get the tree shown gives back
/// what it took: the event sink if it was handed over, then ownership.
pub open spec fn install_requests(
    d: DelegateHandle,
    owner: MenuOwnerId,
    first: bool,
    snap: Seq<SnapshotNodeView>,
    new: Seq<DelegateRequest>,
    u: PlatformMenuUpdate,
) -> bool {
    let sink = Some(PlatformMenuEventSink { owner });
    &&& new.len() >= 1 && request_is(new[0], d, DelegateCall::Acquire(owner))
    &&& u == install_answer(new[0].answer, new[1].answer, new[2].answer)
    &&& if acquire_stops(new[0].answer) {
        new.len() == 1 && u == new[0].answer
    } else {
        &&& new.len() >= 2 && request_is(new[1], d, DelegateCall::SetEventHandler(owner, sink))
        &&& if handler_stops(new[1].answer) {
            &&& u == new[1].answer
            &&& first ==> new.len() == 3 && request_is(new[2], d, DelegateCall::Release(owner))
            &&& !first ==> new.len() == 2
        } else {
            &&& new.len() >= 3 && request_is(new[2], d, DelegateCall::SetMenus(owner, snap))
            &&& u == new[2].answer
            &&& (first && !menus_accepted(u)) ==> new.len() == 5
                && request_is(new[3], d, DelegateCall::SetEventHandler(owner, None))
                && request_is(new[4], d, DelegateCall::Release(owner))
            &&& !(first && !menus_accepted(u)) ==> new.len() == 3
        }
    }
}

/// A log that extends `before` is `before` followed by what was added, and
/// the added requests are the log's later entries.
proof fn lemma_added_requests(before: Seq<DelegateRequest>, after: Seq<DelegateRequest>)
    requires
        before.len() <= after.len(),
        forall|k: int| 0 <= k < before.len() ==> #[trigger] after[k] == before[k],
    ensures
        after == before + added_requests(before, after),
        forall|k: int| 0 <= k < after.len() - before.len() ==>
            #[trigger] added_requests(before, after)[k] == after[before.len() + k],
{
    assert(after =~= before + added_requests(before, after));
}

/// Whether a rebuild changes the delegate binding: the delegate mode
/// changes, or an explicit binding names a different delegate.
pub open spec fn rebind_needed(
    old_auto: bool,
    old_explicit: Option<DelegateHandle>,
    new_auto: bool,
    new_explicit: Option<DelegateHandle>,
) -> bool {
    old_auto != new_auto || (!new_auto && old_explicit != new_explicit)
}

/// The delegate bound after a rebuild: unchanged unless the binding
/// changes; then none for a host-following binding, the explicit delegate
/// when one is named, and otherwise the one bound before.
pub open spec fn rebound_delegate(
    before: Option<DelegateHandle>,
    changed: bool,
    new_auto: bool,
    new_explicit: Option<DelegateHandle>,
) -> Option<DelegateHandle> {
    if !changed {
        before
    } else if new_auto {
        None
    } else if new_explicit is Some {
        new_explicit
    } else {
        before
    }
}

/// Whether connecting `delegate` replaces a different bound delegate.
pub open spec fn switches_delegate(before: PlatformMenuBarController, delegate: DelegateHandle) -> bool {
    before.delegate_spec() is Some && before.delegate_spec() != Some(delegate)
}

/// Whether a rebinding detaches first: the binding changes while a
/// delegate is bound.
pub open spec fn detaches_before_rebind(before: PlatformMenuBarController, changed: bool) -> bool {
    changed && before.delegate_spec() is Some
}

/// What installing `menus` does to a controller and answers: a tree with a
/// repeated identity is refused with that identity and nothing changes; the
/// installed tree is re-sent only when it differs, and is committed with its
/// callbacks exactly when the delegate accepts it.
pub open spec fn install_outcome(
    before: PlatformMenuBarController,
    after: PlatformMenuBarController,
    menus: Seq<PlatformMenu>,
    r: Result<PlatformMenuUpdate, PlatformMenuBuildError>,
) -> bool {
    let t = menus_trace(menus);
    let snap = menus_nodes_spec(menus);
    match first_duplicate(trace_ids(t)) {
        Some(d) => (r matches Err(e) && e.duplicate_spec() == d) && after == before,
        None => r matches Ok(u) && {
            &&& after.last_update_spec() == Some(u)
            &&& after.runs_spec() == before.runs_spec()
            &&& before.installed_spec() == Some(snap) ==> {
                &&& u == PlatformMenuUpdate::Unchanged
                &&& after.installed_spec() == before.installed_spec()
                &&& after.callbacks_spec().holds_trace(t)
                &&& after.requests_spec() == before.requests_spec()
            }
            &&& before.installed_spec() != Some(snap) ==> {
                &&& menus_accepted(u) ==> after.installed_spec() == Some(snap)
                    && after.callbacks_spec().holds_trace(t)
                &&& !menus_accepted(u) ==> after.installed_spec() == before.installed_spec()
                    && after.callbacks_spec() == before.callbacks_spec()
                &&& before.delegate_spec() is None ==> u == PlatformMenuUpdate::NoOpUnsupported
                    && after.requests_spec() == before.requests_spec()
                &&& before.delegate_spec() matches Some(d) ==> {
                    let new = added_requests(before.requests_spec(), after.requests_spec());
                    &&& after.requests_spec() == before.requests_spec() + new
                    &&& install_requests(d, before.owner_spec(), before.installed_spec() is None, snap, new, u)
                }
            }
        },
    }
}

/// Retained ownership of one platform menu bar.
pub struct PlatformMenuBarController {
    owner: MenuOwnerId,
    delegate: DeferredPlatformMenuDelegate,
    installed: Option<PlatformMenuSnapshot>,
    callbacks: MenuCallbackSet,
    last_update: Option<PlatformMenuUpdate>,
    runs: Ghost<Seq<Callback>>,
}

/// Whether two controllers agree on everything but the callbacks run.
pub open spec fn same_but_runs(a: PlatformMenuBarController, b: PlatformMenuBarController) -> bool {
    &&& a.owner_spec() == b.owner_spec()
    &&& a.delegate_spec() == b.delegate_spec()
    &&& a.installed_spec() == b.installed_spec()
    &&& a.callbacks_spec() == b.callbacks_spec()
    &&& a.last_update_spec() == b.last_update_spec()
    &&& a.requests_spec() == b.requests_spec()
}

/// The requests a detach sends: clear the menus, remove the event sink and
/// release ownership, all to the delegate bound before.
pub open spec fn detached_requests(before: PlatformMenuBarController, after: PlatformMenuBarController) -> bool {
    let new = added_requests(before.requests_spec(), after.requests_spec());
    let owner = before.owner_spec();
    &&& before.delegate_spec() is Some
    &&& after.requests_spec() == before.requests_spec() + new
    &&& new.len() == 3
    &&& request_is(new[0], before.delegate_spec()->0, DelegateCall::ClearMenus(owner))
    &&& request_is(new[1], before.delegate_spec()->0, DelegateCall::SetEventHandler(owner, None))
    &&& request_is(new[2], before.delegate_spec()->0, DelegateCall::Release(owner))
}

/// The controller a rebinding installs through (`mid`): the same owner and
/// callback runs; when `detach`, the earlier delegate was detached first
/// (nothing installed, its detach requests sent), otherwise nothing was
/// sent and the installed tree is kept.
pub open spec fn prepared_for(before: PlatformMenuBarController, mid: PlatformMenuBarController, detach: bool) -> bool {
    &&& mid.owner_spec() == before.owner_spec()
    &&& mid.runs_spec() == before.runs_spec()
    &&& detach ==> mid.installed_spec() is None && detached_requests(before, mid)
    &&& !detach ==> mid.installed_spec() == before.installed_spec() && mid.requests_spec() == before.requests_spec()
}

/// What resolving `id` against `entries` does: when some entry carries
/// `id`, it answers `Handled` and that entry's callback has run once more;
/// otherwise it answers `Unknown` and no callback ran.
pub open spec fn dispatched(
    entries: Seq<CallbackEntry>,
    id: Seq<char>,
    runs_before: Seq<Callback>,
    runs_after: Seq<Callback>,
    r: MenuDispatchResult,
) -> bool {
    &&& (r == MenuDispatchResult::Handled) <==> exists|i: int| 0 <= i < entries.len() && #[trigger] entries[i].0 == id
    &&& r == MenuDispatchResult::Handled ==> exists|i: int| 0 <= i < entries.len()
        && #[trigger] entries[i].0 == id && runs_after == runs_before.push(entries[i].1)
    &&& r == MenuDispatchResult::Unknown ==> runs_after == runs_before
}

/// The value of an optional snapshot.
pub open spec fn opt_snapshot(o: Option<PlatformMenuSnapshot>) -> Option<Seq<SnapshotNodeView>> {
    match o {
        Some(s) => Some(s@),
        None => None,
    }
}

impl PlatformMenuBarController {
    /// The owner identity.
    pub closed spec fn owner_spec(&self) -> MenuOwnerId {
        self.owner
    }

    /// The bound delegate, if any.
    pub closed spec fn delegate_spec(&self) -> Option<DelegateHandle> {
        self.delegate.target_spec()
    }

    /// The snapshot the native side last accepted, if any.
    pub closed spec fn installed_spec(&self) -> Option<Seq<SnapshotNodeView>> {
        opt_snapshot(self.installed)
    }

    /// The callbacks that dispatch resolves against.
    pub closed spec fn callbacks_spec(&self) -> MenuCallbackSet {
        self.callbacks
    }

    /// The answer of the last installation or detach.
    pub closed spec fn last_update_spec(&self) -> Option<PlatformMenuUpdate> {
        self.last_update
    }

    /// The requests sent to delegates so far, oldest first.
    pub closed spec fn requests_spec(&self) -> Seq<DelegateRequest> {
        self.delegate.requests_spec()
    }

    /// The retained callbacks run so far, oldest first.
    pub closed spec fn runs_spec(&self) -> Seq<Callback> {
        self.runs@
    }

    /// A controller that installs through `delegate`.
    pub fn new(owner: MenuOwnerId, delegate: DelegateHandle) -> (r: Self)
        ensures
            r.owner_spec() == owner,
            r.delegate_spec() == Some(delegate),
            r.installed_spec() is None,
            r.callbacks_spec().selected_spec() == Seq::<CallbackEntry>::empty(),
            r.callbacks_spec().opened_spec() == Seq::<CallbackEntry>::empty(),
            r.callbacks_spec().closed_spec() == Seq::<CallbackEntry>::empty(),
            r.last_update_spec() is None,
            r.requests_spec() == Seq::<DelegateRequest>::empty(),
            r.runs_spec() == Seq::<Callback>::empty(),
    {
        PlatformMenuBarController {
            owner,
            delegate: DeferredPlatformMenuDelegate::bound_to(delegate),
            installed: None,
            callbacks: MenuCallbackSet::new(),
            last_update: None,
            runs: Ghost(Seq::empty()),
        }
    }

    /// A controller whose delegate is bound later (see [`PlatformMenuBinding::connect`]).
    pub fn unbound(owner: MenuOwnerId) -> (r: Self)
        ensures
            r.owner_spec() == owner,
            r.delegate_spec() is None,
            r.installed_spec() is None,
            r.callbacks_spec().selected_spec() == Seq::<CallbackEntry>::empty(),
            r.callbacks_spec().opened_spec() == Seq::<CallbackEntry>::empty(),
            r.callbacks_spec().closed_spec() == Seq::<CallbackEntry>::empty(),
            r.last_update_spec() is None,
            r.requests_spec() == Seq::<DelegateRequest>::empty(),
            r.runs_spec() == Seq::<Callback>::empty(),
    {
        PlatformMenuBarController {
            owner,
            delegate: DeferredPlatformMenuDelegate::new(),
            installed: None,
            callbacks: MenuCallbackSet::new(),
            last_update: None,
            runs: Ghost(Seq::empty()),
        }
    }

    /// The owner identity.
    pub fn owner(&self) -> (r: MenuOwnerId)
        ensures
            r == self.owner_spec(),
    {
        self.owner
    }

    /// A copy of the installed snapshot, if any.
    pub fn snapshot(&self) -> (r: Option<PlatformMenuSnapshot>)
        ensures
            opt_snapshot(r) == self.installed_spec(),
    {
        match &self.installed {
            Some(s) => Some(s.copy()),
            None => None,
        }
    }

    /// The answer of the last installation or detach.
    pub fn last_update(&self) -> (r: Option<PlatformMenuUpdate>)
        ensures
            r == self.last_update_spec(),
    {
        self.last_update
    }

    /// Whether a delegate is bound.
    pub fn is_bound(&self) -> (r: bool)
        ensures
            r == self.delegate_spec() is Some,
    {
        self.delegate.is_bound()
    }

    /// A copy with the same owner, delegate, installed snapshot, callbacks
    /// and last answer.
    pub fn copy(&self) -> (r: Self)
        ensures
            r.owner_spec() == self.owner_spec(),
            r.delegate_spec() == self.delegate_spec(),
            r.installed_spec() == self.installed_spec(),
            r.callbacks_spec().selected_spec() == self.callbacks_spec().selected_spec(),
            r.callbacks_spec().opened_spec() == self.callbacks_spec().opened_spec(),
            r.callbacks_spec().closed_spec() == self.callbacks_spec().closed_spec(),
            r.last_update_spec() == self.last_update_spec(),
            r.requests_spec() == self.requests_spec(),
            r.runs_spec() == self.runs_spec(),
    {
        PlatformMenuBarController {
            owner: self.owner,
            delegate: self.delegate.copy(),
            installed: self.snapshot(),
            callbacks: self.callbacks.copy(),
            last_update: self.last_update,
            runs: Ghost(self.runs@),
        }
    }

    /// Installs or updates menus, retaining callbacks locally for command
    /// dispatch while the delegate only sees the callback-free tree.
    ///
    /// When the flattened tree equals the installed one, only the callbacks
    /// are replaced and the answer is `Unchanged`. Otherwise the delegate is
    /// asked to acquire ownership, to take the event sink and to show the
    /// tree; the snapshot and callbacks are committed exactly when it accepts
    /// the tree, and a first installation that does not succeed releases
    /// what it acquired.
    #[verifier::rlimit(30)]
    pub fn install(&mut self, menus: &[PlatformMenu]) -> (r: Result<PlatformMenuUpdate, PlatformMenuBuildError>)
        ensures
            final(self).owner_spec() == old(self).owner_spec(),
            final(self).delegate_spec() == old(self).delegate_spec(),
            install_outcome(*old(self), *final(self), menus@, r),
    {
        let (snapshot, callbacks) = match build_snapshot(menus) {
            Ok(built) => built,
            Err(e) => {
                return Err(e);
            },
        };
        let had_installed = self.installed.is_some();
        let same = match &self.installed {
            Some(current) => current.same_as(&snapshot),
            None => false,
        };
        if same {
            self.callbacks = callbacks;
            self.last_update = Some(PlatformMenuUpdate::Unchanged);
            return Ok(PlatformMenuUpdate::Unchanged);
        }
        let ghost log0 = self.delegate.requests_spec();
        let acquire = self.delegate.acquire(self.owner);
        if matches!(acquire, PlatformMenuUpdate::NoOpUnsupported | PlatformMenuUpdate::RejectedOwnedByOther) {
            self.last_update = Some(acquire);
            proof { lemma_added_requests(log0, self.delegate.requests_spec()); }
            return Ok(acquire);
        }
        let handler = self.delegate.set_event_handler(self.owner, Some(PlatformMenuEventSink { owner: self.owner }));
        if matches!(handler, PlatformMenuUpdate::NoOpUnsupported | PlatformMenuUpdate::RejectedOwnedByOther | PlatformMenuUpdate::RejectedByPlatform) {
            if !had_installed {
                let _ = self.delegate.release(self.owner);
            }
            self.last_update = Some(handler);
            proof { lemma_added_requests(log0, self.delegate.requests_spec()); }
            return Ok(handler);
        }
        let update = self.delegate.set_menus(self.owner, snapshot.copy());
        if matches!(update, PlatformMenuUpdate::Applied | PlatformMenuUpdate::Unchanged) {
            self.installed = Some(snapshot);
            self.callbacks = callbacks;
        } else if !had_installed {
            let _ = self.delegate.set_event_handler(self.owner, None);
            let _ = self.delegate.release(self.owner);
        }
        self.last_update = Some(update);
        proof { lemma_added_requests(log0, self.delegate.requests_spec()); }
        Ok(update)
    }

    /// Clears native menus while keeping this controller reusable.
    pub fn detach(&mut self) -> (r: PlatformMenuUpdate)
        ensures
            final(self).owner_spec() == old(self).owner_spec(),
            final(self).delegate_spec() == old(self).delegate_spec(),
            final(self).installed_spec() is None,
            final(self).callbacks_spec().selected_spec() == Seq::<CallbackEntry>::empty(),
            final(self).callbacks_spec().opened_spec() == Seq::<CallbackEntry>::empty(),
            final(self).callbacks_spec().closed_spec() == Seq::<CallbackEntry>::empty(),
            final(self).last_update_spec() == Some(r),
            final(self).runs_spec() == old(self).runs_spec(),
            old(self).delegate_spec() is None ==> r == PlatformMenuUpdate::NoOpUnsupported
                && final(self).requests_spec() == old(self).requests_spec(),
            old(self).delegate_spec() is Some ==> detached_requests(*old(self), *final(self))
                && added_requests(old(self).requests_spec(), final(self).requests_spec())[0].answer == r,
    {
        let ghost log0 = self.delegate.requests_spec();
        let update = self.delegate.clear_menus(self.owner);
        let _ = self.delegate.set_event_handler(self.owner, None);
        let _ = self.delegate.release(self.owner);
        proof {
            let log = self.delegate.requests_spec();
            if self.delegate.target_spec() is Some {
                assert(added_requests(log0, log) =~= log.subrange(log0.len() as int, log.len() as int));
                assert(log =~= log0 + added_requests(log0, log));
            }
        }
        self.installed = None;
        self.callbacks = MenuCallbackSet::new();
        self.last_update = Some(update);
        update
    }

    /// Runs the retained selection callback of `id`.
    pub fn dispatch(&mut self, id: &MenuItemId) -> (r: MenuDispatchResult)
        ensures
            same_but_runs(*old(self), *final(self)),
            dispatched(old(self).callbacks_spec().selected_spec(), id@, old(self).runs_spec(), final(self).runs_spec(), r),
    {
        let found = self.callbacks.find_selected(id);
        let ghost c = found;
        let ghost entries = self.callbacks_spec().selected_spec();
        let ghost runs0 = self.runs_spec();
        let r = dispatch_owned_callback(found);
        if r == MenuDispatchResult::Handled {
            self.note_run(Ghost(c->0));
            proof {
                let i = choose|i: int| 0 <= i < entries.len() && #[trigger] entries[i] == (id@, c->0);
                assert(entries[i].0 == id@ && self.runs_spec() == runs0.push(entries[i].1));
            }
        }
        r
    }

    /// Runs the retained submenu-open callback of `id`.
    pub fn open(&mut self, id: &MenuItemId) -> (r: MenuDispatchResult)
        ensures
            same_but_runs(*old(self), *final(self)),
            dispatched(old(self).callbacks_spec().opened_spec(), id@, old(self).runs_spec(), final(self).runs_spec(), r),
    {
        let found = self.callbacks.find_opened(id);
        let ghost c = found;
        let ghost entries = self.callbacks_spec().opened_spec();
        let ghost runs0 = self.runs_spec();
        let r = dispatch_owned_callback(found);
        if r == MenuDispatchResult::Handled {
            self.note_run(Ghost(c->0));
            proof {
                let i = choose|i: int| 0 <= i < entries.len() && #[trigger] entries[i] == (id@, c->0);
                assert(entries[i].0 == id@ && self.runs_spec() == runs0.push(entries[i].1));
            }
        }
        r
    }

    /// Runs the retained submenu-close callback of `id`.
    pub fn close(&mut self, id: &MenuItemId) -> (r: MenuDispatchResult)
        ensures
            same_but_runs(*old(self), *final(self)),
            dispatched(old(self).callbacks_spec().closed_spec(), id@, old(self).runs_spec(), final(self).runs_spec(), r),
    {
        let found = self.callbacks.find_closed(id);
        let ghost c = found;
        let ghost entries = self.callbacks_spec().closed_spec();
        let ghost runs0 = self.runs_spec();
        let r = dispatch_owned_callback(found);
        if r == MenuDispatchResult::Handled {
            self.note_run(Ghost(c->0));
            proof {
                let i = choose|i: int| 0 <= i < entries.len() && #[trigger] entries[i] == (id@, c->0);
                assert(entries[i].0 == id@ && self.runs_spec() == runs0.push(entries[i].1));
            }
        }
        r
    }

    /// Resolves a native backend event against the current callbacks: a
    /// selection as [`Self::dispatch`], an opening as [`Self::open`] and a
    /// closing as [`Self::close`].
    pub fn handle_event(&mut self, event: &PlatformMenuEvent) -> (r: MenuDispatchResult)
        ensures
            same_but_runs(*old(self), *final(self)),
            match event {
                PlatformMenuEvent::Selected(id) =>
                    dispatched(old(self).callbacks_spec().selected_spec(), id@, old(self).runs_spec(), final(self).runs_spec(), r),
                PlatformMenuEvent::Opened(id) =>
                    dispatched(old(self).callbacks_spec().opened_spec(), id@, old(self).runs_spec(), final(self).runs_spec(), r),
                PlatformMenuEvent::Closed(id) =>
                    dispatched(old(self).callbacks_spec().closed_spec(), id@, old(self).runs_spec(), final(self).runs_spec(), r),
            },
    {
        match event {
            PlatformMenuEvent::Selected(id) => self.dispatch(id),
            PlatformMenuEvent::Opened(id) => self.open(id),
            PlatformMenuEvent::Closed(id) => self.close(id),
        }
    }

    /// Records, next to its run, a retained callback that ran.
    fn note_run(&mut self, c: Ghost<Callback>)
        ensures
            same_but_runs(*old(self), *final(self)),
            final(self).runs_spec() == old(self).runs_spec().push(c@),
    {
        proof {
            self.runs@ = self.runs@.push(c@);
        }
    }

    /// The accelerators forwarded to delegates so far, oldest first.
    pub closed spec fn shortcuts_spec(&self) -> Seq<ShortcutRequest> {
        self.delegate.shortcuts_spec()
    }

    /// Forwards a keyboard accelerator to the bound delegate: unbound, it is
    /// not handled; bound, the delegate is offered `key` and `modifiers`
    /// once and its answer is returned.
    pub fn handle_shortcut(&mut self, key: &str, modifiers: ShortcutModifiers) -> (r: bool)
        ensures
            same_but_runs(*old(self), *final(self)),
            final(self).runs_spec() == old(self).runs_spec(),
            old(self).delegate_spec() is None ==> !r && final(self).shortcuts_spec() == old(self).shortcuts_spec(),
            old(self).delegate_spec() matches Some(d) ==> final(self).shortcuts_spec()
                == old(self).shortcuts_spec().push(ShortcutRequest { to: d, key: key@, modifiers, answer: r }),
    {
        self.delegate.handle_shortcut(key, modifiers)
    }
}

/// Runs the callback, if there is one; `Handled` exactly when it ran.
fn dispatch_owned_callback(callback: Option<Callback>) -> (r: MenuDispatchResult)
    ensures
        (r == MenuDispatchResult::Handled) == callback is Some,
{
    match callback {
        Some(c) => {
            run_callback(&c);
            MenuDispatchResult::Handled
        },
        None => MenuDispatchResult::Unknown,
    }
}

} // verus!

verus! {

fn copy_opt_callback(o: &Option<Callback>) -> (r: Option<Callback>)
    ensures
        r == *o,
{
    match o {
        Some(c) => Some(c.clone()),
        None => None,
    }
}

fn copy_opt_id(o: &Option<MenuItemId>) -> (r: Option<MenuItemId>)
    ensures
        opt_id(r) == opt_id(*o),
{
    match o {
        Some(i) => Some(i.clone()),
        None => None,
    }
}

impl PlatformMenuItem {
    /// A copy with the same identity, label, tooltip, shortcut, state and callback.
    pub fn copy(&self) -> (r: Self)
        ensures
            r.id_spec() == self.id_spec(),
            r.label_spec() == self.label_spec(),
            r.tooltip_spec() == self.tooltip_spec(),
            r.shortcut_spec() == self.shortcut_spec(),
            r.enabled_spec() == self.enabled_spec(),
            r.callback_spec() == self.callback_spec(),
    {
        PlatformMenuItem {
            id: copy_opt_id(&self.id),
            label: self.label.clone(),
            tooltip: copy_opt_str(&self.tooltip),
            shortcut: copy_opt_shortcut(&self.shortcut),
            enabled: self.enabled,
            on_selected: copy_opt_callback(&self.on_selected),
        }
    }
}

impl PlatformMenu {
    /// A structural copy sharing the same callbacks: it flattens to the
    /// same snapshot nodes and registers the same callbacks, at every path.
    pub fn duplicate(&self) -> (r: Self)
        ensures
            r.id_spec() == self.id_spec(),
            r.label_spec() == self.label_spec(),
            r.tooltip_spec() == self.tooltip_spec(),
            r.open_spec() == self.open_spec(),
            r.close_spec() == self.close_spec(),
            forall|p: Seq<char>| #[trigger] menu_node_spec(r, p) == menu_node_spec(*self, p),
            forall|p: Seq<char>| #[trigger] menu_trace(r, p) == menu_trace(*self, p),
        decreases self,
    {
        let ghost src = self.entries@;
        let mut entries: Vec<PlatformMenuEntry> = Vec::new();
        let mut i: usize = 0;
        while i < self.entries.len()
            invariant
                i <= self.entries.len(),
                src == self.entries@,
                entries@.len() == i,
                forall|p: Seq<char>| #[trigger] entries_nodes_spec(entries@, p) == entries_nodes_spec(src.take(i as int), p),
                forall|p: Seq<char>| #[trigger] entries_trace(entries@, p) == entries_trace(src.take(i as int), p),
            decreases self.entries.len() - i,
        {
            let ghost before = entries@;
            let e = match &self.entries[i] {
                PlatformMenuEntry::Menu(m) => {
                    assert(decreases_to!(self => m));
                    let d = m.duplicate();
                    let e = PlatformMenuEntry::Menu(d);
                    proof {
                        assert forall|p: Seq<char>| #[trigger] entry_nodes_spec(e, p, i as nat) == entry_nodes_spec(src[i as int], p, i as nat) by {
                            assert(menu_node_spec(d, child_path(p, menu_seg(), i as nat)) == menu_node_spec(*m, child_path(p, menu_seg(), i as nat)));
                        }
                        assert forall|p: Seq<char>| #[trigger] entry_trace(e, p, i as nat) == entry_trace(src[i as int], p, i as nat) by {
                            assert(menu_trace(d, child_path(p, menu_seg(), i as nat)) == menu_trace(*m, child_path(p, menu_seg(), i as nat)));
                        }
                    }
                    e
                },
                PlatformMenuEntry::Item(it) => {
                    let c = it.copy();
                    let e = PlatformMenuEntry::Item(c);
                    proof {
                        assert forall|p: Seq<char>| #[trigger] entry_nodes_spec(e, p, i as nat) == entry_nodes_spec(src[i as int], p, i as nat) by {
                            assert(item_node_spec(c, child_path(p, item_seg(), i as nat)) == item_node_spec(*it, child_path(p, item_seg(), i as nat)));
                        }
                        assert forall|p: Seq<char>| #[trigger] entry_trace(e, p, i as nat) == entry_trace(src[i as int], p, i as nat) by {
                            assert(item_trace(c, child_path(p, item_seg(), i as nat)) == item_trace(*it, child_path(p, item_seg(), i as nat)));
                        }
                    }
                    e
                },
                PlatformMenuEntry::Group(g) => {
                    let mut items: Vec<PlatformMenuItem> = Vec::new();
                    let mut j: usize = 0;
                    while j < g.items.len()
                        invariant
                            j <= g.items.len(),
                            items@.len() == j,
                            forall|p: Seq<char>| #[trigger] group_nodes_spec(items@, p) == group_nodes_spec(g.items@.take(j as int), p),
                            forall|p: Seq<char>| #[trigger] group_trace(items@, p) == group_trace(g.items@.take(j as int), p),
                        decreases g.items.len() - j,
                    {
                        let ghost prev = items@;
                        let c = g.items[j].copy();
                        items.push(c);
                        proof {
                            let t = g.items@.take(j as int + 1);
                            assert(t.drop_last() =~= g.items@.take(j as int));
                            assert(items@.drop_last() =~= prev);
                            assert(items@.last() == c);
                            assert(t.last() == g.items@[j as int]);
                            assert forall|p: Seq<char>| #[trigger] group_nodes_spec(items@, p) == group_nodes_spec(t, p) by {
                                let cp = child_path(p, item_seg(), j as nat);
                                assert(item_node_spec(c, cp) == item_node_spec(g.items@[j as int], cp));
                                assert(group_nodes_spec(prev, p) == group_nodes_spec(g.items@.take(j as int), p));
                                assert(group_nodes_spec(items@, p) == group_nodes_spec(prev, p).push(item_node_spec(c, cp)));
                                assert(group_nodes_spec(t, p) == group_nodes_spec(g.items@.take(j as int), p).push(item_node_spec(g.items@[j as int], cp)));
                            }
                            assert forall|p: Seq<char>| #[trigger] group_trace(items@, p) == group_trace(t, p) by {
                                let cp = child_path(p, item_seg(), j as nat);
                                assert(item_trace(c, cp) == item_trace(g.items@[j as int], cp));
                                assert(group_trace(prev, p) == group_trace(g.items@.take(j as int), p));
                                assert(group_trace(items@, p) == group_trace(prev, p).push(item_trace(c, cp)));
                                assert(group_trace(t, p) == group_trace(g.items@.take(j as int), p).push(item_trace(g.items@[j as int], cp)));
                            }
                        }
                        j += 1;
                    }
                    proof {
                        assert(g.items@.take(g.items@.len() as int) =~= g.items@);
                    }
                    let ghost copied = items@;
                    let e = PlatformMenuEntry::Group(PlatformMenuItemGroup { items });
                    proof {
                        assert forall|p: Seq<char>| #[trigger] entry_nodes_spec(e, p, i as nat) == entry_nodes_spec(src[i as int], p, i as nat) by {
                            let gp = child_path(p, group_seg(), i as nat);
                            assert(group_nodes_spec(copied, gp) == group_nodes_spec(g.items@, gp));
                        }
                        assert forall|p: Seq<char>| #[trigger] entry_trace(e, p, i as nat) == entry_trace(src[i as int], p, i as nat) by {
                            let gp = child_path(p, group_seg(), i as nat);
                            assert(group_trace(copied, gp) == group_trace(g.items@, gp));
                        }
                    }
                    e
                },
                PlatformMenuEntry::Divider => PlatformMenuEntry::Divider,
            };
            entries.push(e);
            proof {
                let t = src.take(i as int + 1);
                assert(t.drop_last() =~= src.take(i as int));
                assert(t.last() == src[i as int]);
                assert(entries@.drop_last() =~= before);
                assert(entries@.last() == e);
                assert forall|p: Seq<char>| #[trigger] entries_nodes_spec(entries@, p) == entries_nodes_spec(t, p) by {
                    assert(entries_nodes_spec(entries@, p) == entries_nodes_spec(before, p) + entry_nodes_spec(e, p, i as nat));
                    assert(entries_nodes_spec(t, p) == entries_nodes_spec(src.take(i as int), p) + entry_nodes_spec(src[i as int], p, i as nat));
                }
                assert forall|p: Seq<char>| #[trigger] entries_trace(entries@, p) == entries_trace(t, p) by {
                    assert(entries_trace(entries@, p) == entries_trace(before, p) + entry_trace(e, p, i as nat));
                    assert(entries_trace(t, p) == entries_trace(src.take(i as int), p) + entry_trace(src[i as int], p, i as nat));
                }
            }
            i += 1;
        }
        proof {
            assert(src.take(src.len() as int) =~= src);
        }
        let r = PlatformMenu {
            id: copy_opt_id(&self.id),
            label: self.label.clone(),
            tooltip: copy_opt_str(&self.tooltip),
            entries,
            on_open: copy_opt_callback(&self.on_open),
            on_close: copy_opt_callback(&self.on_close),
        };
        proof {
            assert(r.entries_spec() == r.entries@);
            assert(self.entries_spec() == src);
            assert forall|p: Seq<char>| #[trigger] menu_node_spec(r, p) == menu_node_spec(*self, p) by {
                assert(entries_nodes_spec(r.entries@, p) == entries_nodes_spec(src, p));
            }
            assert forall|p: Seq<char>| #[trigger] menu_trace(r, p) == menu_trace(*self, p) by {
                assert(entries_trace(r.entries@, p) == entries_trace(src, p));
            }
        }
        r
    }
}

/// A top-level retained menu-bar widget.
pub struct PlatformMenuBar {
    menus: Vec<PlatformMenu>,
    child: Option<Widget>,
    controller: PlatformMenuBarController,
    auto_connect_native_delegate: bool,
}

impl PlatformMenuBar {
    /// The declared menus.
    pub closed spec fn menus_spec(&self) -> Seq<PlatformMenu> {
        self.menus@
    }

    /// The retained owner.
    pub closed spec fn controller_spec(&self) -> PlatformMenuBarController {
        self.controller
    }

    /// Whether the bar connects to the native delegate of the host it is
    /// mounted in (rather than an explicit one).
    pub closed spec fn auto_connect_spec(&self) -> bool {
        self.auto_connect_native_delegate
    }

    /// Whether the bar has a visual child.
    pub closed spec fn has_child_spec(&self) -> bool {
        self.child is Some
    }

    /// A bar bound to the native delegate of the host it is mounted in.
    /// Unsupported hosts keep the model and answer `NoOpUnsupported`.
    pub fn new(owner: MenuOwnerId, menus: Vec<PlatformMenu>, child: Widget) -> (r: Self)
        ensures
            r.menus_spec() == menus@,
            r.has_child_spec(),
            r.auto_connect_spec(),
            r.controller_spec().owner_spec() == owner,
            r.controller_spec().delegate_spec() is None,
            r.controller_spec().installed_spec() is None,
    {
        PlatformMenuBar {
            menus,
            child: Some(child),
            controller: PlatformMenuBarController::unbound(owner),
            auto_connect_native_delegate: true,
        }
    }

    /// A bar connected to an explicit delegate.
    pub fn with_delegate(owner: MenuOwnerId, menus: Vec<PlatformMenu>, child: Widget, delegate: DelegateHandle) -> (r: Self)
        ensures
            r.menus_spec() == menus@,
            r.has_child_spec(),
            !r.auto_connect_spec(),
            r.controller_spec().owner_spec() == owner,
            r.controller_spec().delegate_spec() == Some(delegate),
            r.controller_spec().installed_spec() is None,
    {
        PlatformMenuBar {
            menus,
            child: Some(child),
            controller: PlatformMenuBarController::new(owner, delegate),
            auto_connect_native_delegate: false,
        }
    }

    /// A bar with no visual child.
    pub fn without_child(owner: MenuOwnerId, menus: Vec<PlatformMenu>) -> (r: Self)
        ensures
            r.menus_spec() == menus@,
            !r.has_child_spec(),
            r.auto_connect_spec(),
            r.controller_spec().owner_spec() == owner,
            r.controller_spec().delegate_spec() is None,
            r.controller_spec().installed_spec() is None,
    {
        PlatformMenuBar {
            menus,
            child: None,
            controller: PlatformMenuBarController::unbound(owner),
            auto_connect_native_delegate: true,
        }
    }

    /// A copy of the retained owner's state.
    pub fn controller(&self) -> (r: PlatformMenuBarController)
        ensures
            r.owner_spec() == self.controller_spec().owner_spec(),
            r.delegate_spec() == self.controller_spec().delegate_spec(),
            r.installed_spec() == self.controller_spec().installed_spec(),
            r.last_update_spec() == self.controller_spec().last_update_spec(),
    {
        self.controller.copy()
    }

    /// The declared menus.
    pub fn menus(&self) -> (r: &[PlatformMenu])
        ensures
            r@ == self.menus_spec(),
    {
        self.menus.as_slice()
    }

    /// Replaces the menu tree and installs it through the retained owner.
    pub fn update(&mut self, menus: Vec<PlatformMenu>) -> (r: Result<PlatformMenuUpdate, PlatformMenuBuildError>)
        ensures
            final(self).menus_spec() == menus@,
            final(self).auto_connect_spec() == old(self).auto_connect_spec(),
            final(self).has_child_spec() == old(self).has_child_spec(),
            final(self).controller_spec().owner_spec() == old(self).controller_spec().owner_spec(),
            final(self).controller_spec().delegate_spec() == old(self).controller_spec().delegate_spec(),
            install_outcome(old(self).controller_spec(), final(self).controller_spec(), menus@, r),
    {
        self.menus = menus;
        self.controller.install(self.menus.as_slice())
    }

    /// The visual child (or an empty box) under the bar's retained binding.
    pub fn into_widget(self) -> (r: Widget)
        ensures
            r matches Widget::MenuBarScope { binding, child } && {
                &&& binding.menus_spec() == self.menus_spec()
                &&& binding.auto_connect_spec() == self.auto_connect_spec()
                &&& binding.controller_spec() == self.controller_spec()
                &&& !self.has_child_spec() ==> *child is Empty
            },
    {
        let child = match self.child {
            Some(c) => c,
            None => Widget::Empty,
        };
        let binding = PlatformMenuBinding::new(self.controller, self.menus, self.auto_connect_native_delegate);
        Widget::MenuBarScope { binding: Box::new(binding), child: Box::new(child) }
    }

    /// Alias for [`Self::into_widget`].
    pub fn widget(self) -> (r: Widget)
        ensures
            r matches Widget::MenuBarScope { binding, child } && {
                &&& binding.menus_spec() == self.menus_spec()
                &&& binding.auto_connect_spec() == self.auto_connect_spec()
                &&& binding.controller_spec() == self.controller_spec()
                &&& !self.has_child_spec() ==> *child is Empty
            },
    {
        self.into_widget()
    }
}

/// Retained bridge discovered by desktop runners once a native window
/// exists: it owns the controller, the declared menus and the delegate mode.
pub struct PlatformMenuBinding {
    controller: PlatformMenuBarController,
    menus: Vec<PlatformMenu>,
    auto_connect_native_delegate: bool,
    explicit_delegate: Option<DelegateHandle>,
}

impl PlatformMenuBinding {
    /// The retained owner.
    pub closed spec fn controller_spec(&self) -> PlatformMenuBarController {
        self.controller
    }

    /// The declared menus.
    pub closed spec fn menus_spec(&self) -> Seq<PlatformMenu> {
        self.menus@
    }

    /// Whether the binding follows the host's native delegate.
    pub closed spec fn auto_connect_spec(&self) -> bool {
        self.auto_connect_native_delegate
    }

    /// The explicit delegate of a binding that does not follow the host.
    pub closed spec fn explicit_spec(&self) -> Option<DelegateHandle> {
        self.explicit_delegate
    }

    fn new(controller: PlatformMenuBarController, menus: Vec<PlatformMenu>, auto_connect_native_delegate: bool) -> (r: Self)
        ensures
            r.controller_spec() == controller,
            r.menus_spec() == menus@,
            r.auto_connect_spec() == auto_connect_native_delegate,
            r.explicit_spec() == if auto_connect_native_delegate { None } else { controller.delegate_spec() },
    {
        let explicit_delegate = if auto_connect_native_delegate { None } else { controller.delegate.target() };
        PlatformMenuBinding { controller, menus, auto_connect_native_delegate, explicit_delegate }
    }

    /// The retained owner.
    pub fn controller(&self) -> (r: &PlatformMenuBarController)
        ensures
            *r == self.controller_spec(),
    {
        &self.controller
    }

    /// Whether the binding follows the host's native delegate.
    pub fn auto_connect_native_delegate(&self) -> (r: bool)
        ensures
            r == self.auto_connect_spec(),
    {
        self.auto_connect_native_delegate
    }

    /// The owner identity.
    pub fn owner(&self) -> (r: MenuOwnerId)
        ensures
            r == self.controller_spec().owner_spec(),
    {
        self.controller.owner()
    }

    /// Installs the declared menus when a delegate is bound.
    pub fn install_if_bound(&mut self)
        ensures
            final(self).menus_spec() == old(self).menus_spec(),
            final(self).auto_connect_spec() == old(self).auto_connect_spec(),
            final(self).explicit_spec() == old(self).explicit_spec(),
            final(self).controller_spec().owner_spec() == old(self).controller_spec().owner_spec(),
            final(self).controller_spec().delegate_spec() == old(self).controller_spec().delegate_spec(),
            old(self).controller_spec().delegate_spec() is None ==> final(self).controller_spec() == old(self).controller_spec(),
            old(self).controller_spec().delegate_spec() is Some ==> exists|r: Result<PlatformMenuUpdate, PlatformMenuBuildError>|
                install_outcome(old(self).controller_spec(), final(self).controller_spec(), old(self).menus_spec(), r),
    {
        if self.controller.is_bound() {
            let r = self.controller.install(self.menus.as_slice());
        }
    }

    /// Connects the retained owner to the host's native delegate. A binding
    /// with an explicit delegate keeps it and reports its last answer (or
    /// `NoOpUnsupported`). Otherwise a different previously bound delegate is
    /// detached first, then the menus are installed through `delegate`.
    pub fn connect(&mut self, delegate: DelegateHandle) -> (r: Result<PlatformMenuUpdate, PlatformMenuBuildError>)
        ensures
            final(self).menus_spec() == old(self).menus_spec(),
            final(self).auto_connect_spec() == old(self).auto_connect_spec(),
            final(self).explicit_spec() == old(self).explicit_spec(),
            final(self).controller_spec().owner_spec() == old(self).controller_spec().owner_spec(),
            !old(self).auto_connect_spec() ==> {
                &&& final(self).controller_spec() == old(self).controller_spec()
                &&& r == Ok::<PlatformMenuUpdate, PlatformMenuBuildError>(match old(self).controller_spec().last_update_spec() {
                    Some(u) => u,
                    None => PlatformMenuUpdate::NoOpUnsupported,
                })
            },
            old(self).auto_connect_spec() ==> {
                let before = old(self).controller_spec();
                let switched = switches_delegate(before, delegate);
                &&& final(self).controller_spec().delegate_spec() == Some(delegate)
                &&& exists|mid: PlatformMenuBarController| #[trigger] prepared_for(before, mid, switched)
                    && mid.delegate_spec() == Some(delegate)
                    && install_outcome(mid, final(self).controller_spec(), old(self).menus_spec(), r)
            },
    {
        if !self.auto_connect_native_delegate {
            return Ok(match self.controller.last_update() {
                Some(u) => u,
                None => PlatformMenuUpdate::NoOpUnsupported,
            });
        }
        let ghost old_installed = self.controller.installed_spec();
        if self.controller.delegate.is_bound() && !self.controller.delegate.is_bound_to(&delegate) {
            let _ = self.controller.detach();
        }
        let ghost detached_installed = self.controller.installed_spec();
        assert(detached_installed is None || detached_installed == old_installed);
        let _ = self.controller.delegate.bind(delegate);
        let ghost mid = self.controller;
        assert(mid.delegate_spec() is Some);
        assert(mid.installed_spec() == detached_installed);
        assert(prepared_for(old(self).controller_spec(), mid, switches_delegate(old(self).controller_spec(), delegate)));
        assert(mid.delegate_spec() == Some(delegate));
        let r = self.controller.install(self.menus.as_slice());
        assert(self.menus_spec() == old(self).menus_spec());
        assert(install_outcome(mid, self.controller_spec(), old(self).menus_spec(), r));
        assert(self.controller_spec().delegate_spec() == Some(delegate));
        assert(prepared_for(old(self).controller_spec(), mid, switches_delegate(old(self).controller_spec(), delegate))
            && mid.delegate_spec() == Some(delegate)
            && install_outcome(mid, self.controller_spec(), old(self).menus_spec(), r));
        r
    }

    /// Keeps the retained owner while taking the declared model of a
    /// compatible rebuild. When the delegate mode or the explicit target
    /// changes, a bound delegate is detached and the new mode is bound
    /// (unbound for host-following bindings); the new menus are then
    /// installed if a delegate is bound.
    #[verifier::rlimit(30)]
    pub fn reconcile_from(&mut self, incoming: PlatformMenuBinding)
        ensures
            final(self).menus_spec() == incoming.menus_spec(),
            final(self).auto_connect_spec() == incoming.auto_connect_spec(),
            final(self).explicit_spec() == incoming.explicit_spec(),
            final(self).controller_spec().owner_spec() == old(self).controller_spec().owner_spec(),
            ({
                let before = old(self).controller_spec();
                let changed = rebind_needed(old(self).auto_connect_spec(), old(self).explicit_spec(),
                    incoming.auto_connect_spec(), incoming.explicit_spec());
                let bound = rebound_delegate(before.delegate_spec(), changed, incoming.auto_connect_spec(), incoming.explicit_spec());
                &&& final(self).controller_spec().delegate_spec() == bound
                &&& exists|mid: PlatformMenuBarController| #[trigger] prepared_for(before, mid, detaches_before_rebind(before, changed))
                    && mid.delegate_spec() == bound
                    && (bound is None ==> final(self).controller_spec() == mid)
                    && (bound is Some ==> exists|r: Result<PlatformMenuUpdate, PlatformMenuBuildError>|
                        #[trigger] install_outcome(mid, final(self).controller_spec(), incoming.menus_spec(), r))
            }),
            old(self).auto_connect_spec() == incoming.auto_connect_spec()
                && (incoming.auto_connect_spec() || old(self).explicit_spec() == incoming.explicit_spec())
                ==> final(self).controller_spec().delegate_spec() == old(self).controller_spec().delegate_spec(),
            incoming.auto_connect_spec() && !old(self).auto_connect_spec()
                ==> final(self).controller_spec().delegate_spec() is None,
            !incoming.auto_connect_spec() && incoming.explicit_spec() is Some
                && (old(self).auto_connect_spec() || old(self).explicit_spec() != incoming.explicit_spec())
                ==> final(self).controller_spec().delegate_spec() == incoming.explicit_spec(),
    {
        let mode_changed = self.auto_connect_native_delegate != incoming.auto_connect_native_delegate;
        let explicit_target_changed = !incoming.auto_connect_native_delegate && match (&self.explicit_delegate, &incoming.explicit_delegate) {
            (Some(current), Some(next)) => !same_delegate(current, next),
            (None, None) => false,
            _ => true,
        };
        if mode_changed || explicit_target_changed {
            if self.controller.delegate.is_bound() {
                let _ = self.controller.detach();
            }
            if incoming.auto_connect_native_delegate {
                let _ = self.controller.delegate.unbind();
            } else if let Some(d) = &incoming.explicit_delegate {
                let _ = self.controller.delegate.bind(d.clone());
            }
        }
        self.menus = incoming.menus;
        self.auto_connect_native_delegate = incoming.auto_connect_native_delegate;
        self.explicit_delegate = incoming.explicit_delegate;
        let ghost mid = self.controller;
        let ghost changed = rebind_needed(old(self).auto_connect_spec(), old(self).explicit_spec(),
            incoming.auto_connect_spec(), incoming.explicit_spec());
        let ghost bound = rebound_delegate(old(self).controller_spec().delegate_spec(), changed,
            incoming.auto_connect_spec(), incoming.explicit_spec());
        assert(changed == (mode_changed || explicit_target_changed));
        assert(mid.delegate_spec() == bound);
        assert(prepared_for(old(self).controller_spec(), mid, detaches_before_rebind(old(self).controller_spec(), changed)));
        if self.controller.is_bound() {
            let r = self.controller.install(self.menus.as_slice());
            assert(self.menus_spec() == incoming.menus_spec());
            assert(install_outcome(mid, self.controller_spec(), incoming.menus_spec(), r));
            assert(mid.delegate_spec() == self.controller_spec().delegate_spec());
        }
    }
}

} // verus!
