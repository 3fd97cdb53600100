//! The menu bar of the application: its layout on each platform, and what a
//! click on each of its items does.

use crate::text;
use crate::text::{chars_of, same_text};
use vstd::prelude::*;

verus! {

pub const MINUTES_WEBSITE_URL: &'static str = "https://useminutes.app";

pub const MINUTES_CHANGELOG_URL: &'static str = "https://github.com/silverstein/minutes/releases";

pub const MINUTES_DISCUSSIONS_URL: &'static str = "https://github.com/silverstein/minutes/discussions";

/// An item of the application's own.
#[derive(Copy, Clone, Debug, Eq, PartialEq, Structural)]
pub enum AppMenuItem {
    ShowAbout,
    ShowWhatsNew,
    OpenSettings,
    CheckForUpdates,
    Quit,
    OpenMain,
    AddNote,
    OpenMeetingsFolder,
    BringAllToFront,
    OpenWebsite,
    OpenChangelog,
    OpenDiscussions,
    /// Stands in the tray in place of meetings that may not be read.
    CalendarAccessWarning,
}

/// An item that the system provides.
#[derive(Copy, Clone, Debug, Eq, PartialEq, Structural)]
pub enum NativeItem {
    Services,
    Hide,
    HideOthers,
    ShowAll,
    CloseWindow,
    Undo,
    Redo,
    Cut,
    Copy,
    Paste,
    SelectAll,
    Fullscreen,
    Minimize,
    Maximize,
}

/// The title of a submenu.
#[derive(Copy, Clone, Debug, Eq, PartialEq, Structural)]
pub enum SubmenuTitle {
    /// The name of the application.
    AppName,
    File,
    Edit,
    View,
    Window,
    Help,
}

/// What the head of a submenu reads; that of the application's own submenu is
/// the application's name.
pub open spec fn submenu_label(title: SubmenuTitle) -> Option<Seq<char>> {
    match title {
        SubmenuTitle::AppName => None,
        SubmenuTitle::File => Some("File"@),
        SubmenuTitle::Edit => Some("Edit"@),
        SubmenuTitle::View => Some("View"@),
        SubmenuTitle::Window => Some("Window"@),
        SubmenuTitle::Help => Some("Help"@),
    }
}

impl SubmenuTitle {
    pub fn label(self) -> (label: Option<&'static str>)
        ensures
            match label {
                Some(l) => submenu_label(self) == Some(l@),
                None => submenu_label(self) is None,
            },
    {
        match self {
            SubmenuTitle::AppName => None,
            SubmenuTitle::File => Some("File"),
            SubmenuTitle::Edit => Some("Edit"),
            SubmenuTitle::View => Some("View"),
            SubmenuTitle::Window => Some("Window"),
            SubmenuTitle::Help => Some("Help"),
        }
    }
}

/// A line of the menu bar: the head of a submenu, or what stands in it.
#[derive(Copy, Clone, Debug, Eq, PartialEq, Structural)]
pub enum MenuEntry {
    Submenu(SubmenuTitle),
    Item(AppMenuItem),
    Native(NativeItem),
    Separator,
}

/// What a click does.
#[derive(Copy, Clone, Debug)]
pub enum MenuAction {
    /// Show the main window, then tell it this.
    ShowAndEmit { event: &'static str },
    ShowMain,
    /// Show the main window, then the window for a note.
    AddNote,
    OpenMeetingsFolder,
    OpenUrl { url: &'static str, title: &'static str },
    CheckForUpdates,
    BringAllToFront,
    OpenCalendarPrivacy,
    Quit,
    Nothing,
}

pub open spec fn item_id(item: AppMenuItem) -> Seq<char> {
    match item {
        AppMenuItem::ShowAbout => "app-show-about"@,
        AppMenuItem::ShowWhatsNew => "app-show-whats-new"@,
        AppMenuItem::OpenSettings => "app-open-settings"@,
        AppMenuItem::CheckForUpdates => "app-check-for-updates"@,
        AppMenuItem::Quit => "app-quit"@,
        AppMenuItem::OpenMain => "app-open-main"@,
        AppMenuItem::AddNote => "app-add-note"@,
        AppMenuItem::OpenMeetingsFolder => "app-open-meetings-folder"@,
        AppMenuItem::BringAllToFront => "window-bring-all-to-front"@,
        AppMenuItem::OpenWebsite => "help-open-website"@,
        AppMenuItem::OpenChangelog => "help-open-changelog"@,
        AppMenuItem::OpenDiscussions => "help-open-discussions"@,
        AppMenuItem::CalendarAccessWarning => "calendar-access-warning"@,
    }
}

pub open spec fn item_label(item: AppMenuItem) -> Seq<char> {
    match item {
        AppMenuItem::ShowAbout => "About Minutes"@,
        AppMenuItem::ShowWhatsNew => "What’s New…"@,
        AppMenuItem::OpenSettings => "Settings…"@,
        AppMenuItem::CheckForUpdates => "Check for Updates…"@,
        AppMenuItem::Quit => "Quit Minutes"@,
        AppMenuItem::OpenMain => "Open Minutes"@,
        AppMenuItem::AddNote => "Add Note…"@,
        AppMenuItem::OpenMeetingsFolder => "Open Meetings Folder"@,
        AppMenuItem::BringAllToFront => "Bring All to Front"@,
        AppMenuItem::OpenWebsite => "Minutes Website"@,
        AppMenuItem::OpenChangelog => "Release Notes"@,
        AppMenuItem::OpenDiscussions => "Get Help / Discussions"@,
        AppMenuItem::CalendarAccessWarning => "Calendar access limited — reminders off (click to fix)"@,
    }
}

/// The keys that stand for an item. Quit has none outside macOS, where it
/// stands in the File menu.
pub open spec fn accelerator_for(item: AppMenuItem, macos: bool) -> Option<Seq<char>> {
    match item {
        AppMenuItem::OpenSettings => Some("Cmd+,"@),
        AppMenuItem::Quit => if macos {
            Some("Cmd+Q"@)
        } else {
            None
        },
        AppMenuItem::OpenMain => Some("Cmd+O"@),
        AppMenuItem::AddNote => Some("Cmd+Shift+N"@),
        _ => None,
    }
}

pub open spec fn item_action(item: AppMenuItem) -> MenuAction {
    match item {
        AppMenuItem::ShowAbout => MenuAction::ShowAndEmit { event: "minutes://show-about" },
        AppMenuItem::ShowWhatsNew => MenuAction::ShowAndEmit { event: "minutes://show-whats-new" },
        AppMenuItem::OpenSettings => MenuAction::ShowAndEmit { event: "minutes://show-settings" },
        AppMenuItem::CheckForUpdates => MenuAction::CheckForUpdates,
        AppMenuItem::Quit => MenuAction::Quit,
        AppMenuItem::OpenMain => MenuAction::ShowMain,
        AppMenuItem::AddNote => MenuAction::AddNote,
        AppMenuItem::OpenMeetingsFolder => MenuAction::OpenMeetingsFolder,
        AppMenuItem::BringAllToFront => MenuAction::BringAllToFront,
        AppMenuItem::OpenWebsite => MenuAction::OpenUrl { url: MINUTES_WEBSITE_URL, title: "Minutes Website" },
        AppMenuItem::OpenChangelog => MenuAction::OpenUrl { url: MINUTES_CHANGELOG_URL, title: "Release Notes" },
        AppMenuItem::OpenDiscussions => MenuAction::OpenUrl { url: MINUTES_DISCUSSIONS_URL, title: "Discussions" },
        AppMenuItem::CalendarAccessWarning => MenuAction::OpenCalendarPrivacy,
    }
}

impl AppMenuItem {
    pub fn id(self) -> (id: &'static str)
        ensures
            id@ == item_id(self),
    {
        match self {
            AppMenuItem::ShowAbout => "app-show-about",
            AppMenuItem::ShowWhatsNew => "app-show-whats-new",
            AppMenuItem::OpenSettings => "app-open-settings",
            AppMenuItem::CheckForUpdates => "app-check-for-updates",
            AppMenuItem::Quit => "app-quit",
            AppMenuItem::OpenMain => "app-open-main",
            AppMenuItem::AddNote => "app-add-note",
            AppMenuItem::OpenMeetingsFolder => "app-open-meetings-folder",
            AppMenuItem::BringAllToFront => "window-bring-all-to-front",
            AppMenuItem::OpenWebsite => "help-open-website",
            AppMenuItem::OpenChangelog => "help-open-changelog",
            AppMenuItem::OpenDiscussions => "help-open-discussions",
            AppMenuItem::CalendarAccessWarning => "calendar-access-warning",
        }
    }

    pub fn label(self) -> (label: &'static str)
        ensures
            label@ == item_label(self),
    {
        match self {
            AppMenuItem::ShowAbout => "About Minutes",
            AppMenuItem::ShowWhatsNew => "What’s New…",
            AppMenuItem::OpenSettings => "Settings…",
            AppMenuItem::CheckForUpdates => "Check for Updates…",
            AppMenuItem::Quit => "Quit Minutes",
            AppMenuItem::OpenMain => "Open Minutes",
            AppMenuItem::AddNote => "Add Note…",
            AppMenuItem::OpenMeetingsFolder => "Open Meetings Folder",
            AppMenuItem::BringAllToFront => "Bring All to Front",
            AppMenuItem::OpenWebsite => "Minutes Website",
            AppMenuItem::OpenChangelog => "Release Notes",
            AppMenuItem::OpenDiscussions => "Get Help / Discussions",
            AppMenuItem::CalendarAccessWarning => "Calendar access limited — reminders off (click to fix)",
        }
    }

    pub fn accelerator(self, macos: bool) -> (keys: Option<&'static str>)
        ensures
            match keys {
                Some(k) => accelerator_for(self, macos) == Some(k@),
                None => accelerator_for(self, macos) is None,
            },
    {
        match self {
            AppMenuItem::OpenSettings => Some("Cmd+,"),
            AppMenuItem::Quit => if macos {
                Some("Cmd+Q")
            } else {
                None
            },
            AppMenuItem::OpenMain => Some("Cmd+O"),
            AppMenuItem::AddNote => Some("Cmd+Shift+N"),
            _ => None,
        }
    }

    pub fn action(self) -> (action: MenuAction)
        ensures
            action == item_action(self),
    {
        match self {
            AppMenuItem::ShowAbout => MenuAction::ShowAndEmit { event: "minutes://show-about" },
            AppMenuItem::ShowWhatsNew => MenuAction::ShowAndEmit { event: "minutes://show-whats-new" },
            AppMenuItem::OpenSettings => MenuAction::ShowAndEmit { event: "minutes://show-settings" },
            AppMenuItem::CheckForUpdates => MenuAction::CheckForUpdates,
            AppMenuItem::Quit => MenuAction::Quit,
            AppMenuItem::OpenMain => MenuAction::ShowMain,
            AppMenuItem::AddNote => MenuAction::AddNote,
            AppMenuItem::OpenMeetingsFolder => MenuAction::OpenMeetingsFolder,
            AppMenuItem::BringAllToFront => MenuAction::BringAllToFront,
            AppMenuItem::OpenWebsite => MenuAction::OpenUrl { url: MINUTES_WEBSITE_URL, title: "Minutes Website" },
            AppMenuItem::OpenChangelog => MenuAction::OpenUrl { url: MINUTES_CHANGELOG_URL, title: "Release Notes" },
            AppMenuItem::OpenDiscussions => MenuAction::OpenUrl { url: MINUTES_DISCUSSIONS_URL, title: "Discussions" },
            AppMenuItem::CalendarAccessWarning => MenuAction::OpenCalendarPrivacy,
        }
    }
}

/// The item with this id.
pub open spec fn item_with_id(id: Seq<char>) -> Option<AppMenuItem> {
    if id == "app-show-about"@ {
        Some(AppMenuItem::ShowAbout)
    } else if id == "app-show-whats-new"@ {
        Some(AppMenuItem::ShowWhatsNew)
    } else if id == "app-open-settings"@ {
        Some(AppMenuItem::OpenSettings)
    } else if id == "app-check-for-updates"@ {
        Some(AppMenuItem::CheckForUpdates)
    } else if id == "app-quit"@ {
        Some(AppMenuItem::Quit)
    } else if id == "app-open-main"@ {
        Some(AppMenuItem::OpenMain)
    } else if id == "app-add-note"@ {
        Some(AppMenuItem::AddNote)
    } else if id == "app-open-meetings-folder"@ {
        Some(AppMenuItem::OpenMeetingsFolder)
    } else if id == "window-bring-all-to-front"@ {
        Some(AppMenuItem::BringAllToFront)
    } else if id == "help-open-website"@ {
        Some(AppMenuItem::OpenWebsite)
    } else if id == "help-open-changelog"@ {
        Some(AppMenuItem::OpenChangelog)
    } else if id == "help-open-discussions"@ {
        Some(AppMenuItem::OpenDiscussions)
    } else if id == "calendar-access-warning"@ {
        Some(AppMenuItem::CalendarAccessWarning)
    } else {
        None
    }
}

pub fn menu_item_with_id(id: &str) -> (item: Option<AppMenuItem>)
    ensures
        item == item_with_id(id@),
{
    if same_text(id, "app-show-about") {
        Some(AppMenuItem::ShowAbout)
    } else if same_text(id, "app-show-whats-new") {
        Some(AppMenuItem::ShowWhatsNew)
    } else if same_text(id, "app-open-settings") {
        Some(AppMenuItem::OpenSettings)
    } else if same_text(id, "app-check-for-updates") {
        Some(AppMenuItem::CheckForUpdates)
    } else if same_text(id, "app-quit") {
        Some(AppMenuItem::Quit)
    } else if same_text(id, "app-open-main") {
        Some(AppMenuItem::OpenMain)
    } else if same_text(id, "app-add-note") {
        Some(AppMenuItem::AddNote)
    } else if same_text(id, "app-open-meetings-folder") {
        Some(AppMenuItem::OpenMeetingsFolder)
    } else if same_text(id, "window-bring-all-to-front") {
        Some(AppMenuItem::BringAllToFront)
    } else if same_text(id, "help-open-website") {
        Some(AppMenuItem::OpenWebsite)
    } else if same_text(id, "help-open-changelog") {
        Some(AppMenuItem::OpenChangelog)
    } else if same_text(id, "help-open-discussions") {
        Some(AppMenuItem::OpenDiscussions)
    } else if same_text(id, "calendar-access-warning") {
        Some(AppMenuItem::CalendarAccessWarning)
    } else {
        None
    }
}

/// What a click on the item with this id does.
pub fn menu_action(id: &str) -> (action: MenuAction)
    ensures
        action == (match item_with_id(id@) {
            Some(item) => item_action(item),
            None => MenuAction::Nothing,
        }),
{
    match menu_item_with_id(id) {
        Some(item) => item.action(),
        None => MenuAction::Nothing,
    }
}

/// Every item is found by its id, and so its click does something.
pub proof fn lemma_every_item_is_handled(item: AppMenuItem)
    ensures
        item_with_id(item_id(item)) == Some(item),
        item_action(item) != MenuAction::Nothing,
{
    reveal_strlit("app-show-about");
    reveal_strlit("app-show-whats-new");
    reveal_strlit("app-open-settings");
    reveal_strlit("app-check-for-updates");
    reveal_strlit("app-quit");
    reveal_strlit("app-open-main");
    reveal_strlit("app-add-note");
    reveal_strlit("app-open-meetings-folder");
    reveal_strlit("window-bring-all-to-front");
    reveal_strlit("help-open-website");
    reveal_strlit("help-open-changelog");
    reveal_strlit("help-open-discussions");
    reveal_strlit("calendar-access-warning");
    assert(
        "app-show-about"@.len() == 14
        && "app-show-whats-new"@.len() == 18
        && "app-open-settings"@.len() == 17
        && "app-check-for-updates"@.len() == 21
        && "app-quit"@.len() == 8
        && "app-open-main"@.len() == 13
        && "app-add-note"@.len() == 12
        && "app-open-meetings-folder"@.len() == 24
        && "window-bring-all-to-front"@.len() == 25
        && "help-open-website"@.len() == 17
        && "help-open-changelog"@.len() == 19
        && "help-open-discussions"@.len() == 21
        && "calendar-access-warning"@.len() == 23
    );
    assert(
        "app-open-settings"@[0] == 'a'
        && "help-open-website"@[0] == 'h'
        && "app-check-for-updates"@[0] == 'a'
        && "help-open-discussions"@[0] == 'h'
    );
}

pub open spec fn app_submenu() -> Seq<MenuEntry> {
    seq![
        MenuEntry::Submenu(SubmenuTitle::AppName),
        MenuEntry::Item(AppMenuItem::ShowAbout),
        MenuEntry::Item(AppMenuItem::ShowWhatsNew),
        MenuEntry::Item(AppMenuItem::OpenSettings),
        MenuEntry::Item(AppMenuItem::CheckForUpdates),
        MenuEntry::Separator,
        MenuEntry::Native(NativeItem::Services),
        MenuEntry::Separator,
        MenuEntry::Native(NativeItem::Hide),
        MenuEntry::Native(NativeItem::HideOthers),
        MenuEntry::Native(NativeItem::ShowAll),
        MenuEntry::Separator,
        MenuEntry::Item(AppMenuItem::Quit),
    ]
}

pub open spec fn file_submenu() -> Seq<MenuEntry> {
    seq![
        MenuEntry::Submenu(SubmenuTitle::File),
        MenuEntry::Item(AppMenuItem::OpenMain),
        MenuEntry::Separator,
        MenuEntry::Item(AppMenuItem::AddNote),
        MenuEntry::Item(AppMenuItem::OpenMeetingsFolder),
        MenuEntry::Separator,
        MenuEntry::Native(NativeItem::CloseWindow),
    ]
}

pub open spec fn edit_submenu() -> Seq<MenuEntry> {
    seq![
        MenuEntry::Submenu(SubmenuTitle::Edit),
        MenuEntry::Native(NativeItem::Undo),
        MenuEntry::Native(NativeItem::Redo),
        MenuEntry::Separator,
        MenuEntry::Native(NativeItem::Cut),
        MenuEntry::Native(NativeItem::Copy),
        MenuEntry::Native(NativeItem::Paste),
        MenuEntry::Native(NativeItem::SelectAll),
    ]
}

pub open spec fn view_submenu() -> Seq<MenuEntry> {
    seq![
        MenuEntry::Submenu(SubmenuTitle::View),
        MenuEntry::Native(NativeItem::Fullscreen),
    ]
}

pub open spec fn window_and_help_submenus() -> Seq<MenuEntry> {
    seq![
        MenuEntry::Submenu(SubmenuTitle::Window),
        MenuEntry::Native(NativeItem::Minimize),
        MenuEntry::Native(NativeItem::Maximize),
        MenuEntry::Separator,
        MenuEntry::Item(AppMenuItem::BringAllToFront),
        MenuEntry::Native(NativeItem::CloseWindow),
        MenuEntry::Submenu(SubmenuTitle::Help),
        MenuEntry::Item(AppMenuItem::OpenWebsite),
        MenuEntry::Item(AppMenuItem::OpenChangelog),
        MenuEntry::Item(AppMenuItem::OpenDiscussions),
    ]
}

/// The menu bar. The application's own submenu and View exist on macOS alone;
/// elsewhere Quit stands in the File menu.
pub open spec fn menu_bar(macos: bool) -> Seq<MenuEntry> {
    if macos {
        app_submenu() + file_submenu() + edit_submenu() + view_submenu()
            + window_and_help_submenus()
    } else {
        file_submenu().push(MenuEntry::Item(AppMenuItem::Quit)) + edit_submenu()
            + window_and_help_submenus()
    }
}

pub fn build_app_menu(macos: bool) -> (menu: Vec<MenuEntry>)
    ensures
        menu@ == menu_bar(macos),
{
    let mut menu: Vec<MenuEntry> = Vec::new();
    if macos {
        menu.push(MenuEntry::Submenu(SubmenuTitle::AppName));
        menu.push(MenuEntry::Item(AppMenuItem::ShowAbout));
        menu.push(MenuEntry::Item(AppMenuItem::ShowWhatsNew));
        menu.push(MenuEntry::Item(AppMenuItem::OpenSettings));
        menu.push(MenuEntry::Item(AppMenuItem::CheckForUpdates));
        menu.push(MenuEntry::Separator);
        menu.push(MenuEntry::Native(NativeItem::Services));
        menu.push(MenuEntry::Separator);
        menu.push(MenuEntry::Native(NativeItem::Hide));
        menu.push(MenuEntry::Native(NativeItem::HideOthers));
        menu.push(MenuEntry::Native(NativeItem::ShowAll));
        menu.push(MenuEntry::Separator);
        menu.push(MenuEntry::Item(AppMenuItem::Quit));
    }
    menu.push(MenuEntry::Submenu(SubmenuTitle::File));
    menu.push(MenuEntry::Item(AppMenuItem::OpenMain));
    menu.push(MenuEntry::Separator);
    menu.push(MenuEntry::Item(AppMenuItem::AddNote));
    menu.push(MenuEntry::Item(AppMenuItem::OpenMeetingsFolder));
    menu.push(MenuEntry::Separator);
    menu.push(MenuEntry::Native(NativeItem::CloseWindow));
    if !macos {
        menu.push(MenuEntry::Item(AppMenuItem::Quit));
    }
    menu.push(MenuEntry::Submenu(SubmenuTitle::Edit));
    menu.push(MenuEntry::Native(NativeItem::Undo));
    menu.push(MenuEntry::Native(NativeItem::Redo));
    menu.push(MenuEntry::Separator);
    menu.push(MenuEntry::Native(NativeItem::Cut));
    menu.push(MenuEntry::Native(NativeItem::Copy));
    menu.push(MenuEntry::Native(NativeItem::Paste));
    menu.push(MenuEntry::Native(NativeItem::SelectAll));
    if macos {
        menu.push(MenuEntry::Submenu(SubmenuTitle::View));
        menu.push(MenuEntry::Native(NativeItem::Fullscreen));
    }
    menu.push(MenuEntry::Submenu(SubmenuTitle::Window));
    menu.push(MenuEntry::Native(NativeItem::Minimize));
    menu.push(MenuEntry::Native(NativeItem::Maximize));
    menu.push(MenuEntry::Separator);
    menu.push(MenuEntry::Item(AppMenuItem::BringAllToFront));
    menu.push(MenuEntry::Native(NativeItem::CloseWindow));
    menu.push(MenuEntry::Submenu(SubmenuTitle::Help));
    menu.push(MenuEntry::Item(AppMenuItem::OpenWebsite));
    menu.push(MenuEntry::Item(AppMenuItem::OpenChangelog));
    menu.push(MenuEntry::Item(AppMenuItem::OpenDiscussions));
    proof {
        assert(menu@ =~= menu_bar(macos));
    }
    menu
}

/// Whichever the platform, the application can be quit from its menu bar.
pub proof fn lemma_menu_bar_can_quit(macos: bool)
    ensures
        menu_bar(macos).contains(MenuEntry::Item(AppMenuItem::Quit)),
{
    if macos {
        assert(menu_bar(macos)[12] == MenuEntry::Item(AppMenuItem::Quit));
    } else {
        assert(menu_bar(macos)[7] == MenuEntry::Item(AppMenuItem::Quit));
    }
}

/// Whether `a` comes before `b` in the order of their characters' codes.
pub open spec fn before_or_same(a: Seq<char>, b: Seq<char>) -> bool
    decreases a.len(),
{
    if a.len() == 0 {
        true
    } else if b.len() == 0 {
        false
    } else if a[0] != b[0] {
        a[0] < b[0]
    } else {
        before_or_same(a.drop_first(), b.drop_first())
    }
}

fn is_before_or_same(a: &[char], b: &[char]) -> (yes: bool)
    ensures
        yes == before_or_same(a@, b@),
{
    let mut i: usize = 0;
    proof {
        assert(a@.skip(0) =~= a@);
        assert(b@.skip(0) =~= b@);
    }
    while i < a.len() && i < b.len()
        invariant
            i <= a.len(),
            i <= b.len(),
            before_or_same(a@, b@) == before_or_same(a@.skip(i as int), b@.skip(i as int)),
        decreases a.len() - i,
    {
        proof {
            assert(a@.skip(i as int).drop_first() =~= a@.skip(i + 1));
            assert(b@.skip(i as int).drop_first() =~= b@.skip(i + 1));
        }
        if a[i] != b[i] {
            return a[i] < b[i];
        }
        i += 1;
    }
    i >= a.len()
}

pub open spec fn in_order(labels: Seq<Seq<char>>) -> bool {
    forall|i: int, j: int| 0 <= i < j < labels.len() ==> before_or_same(labels[i], labels[j])
}

proof fn lemma_order_is_transitive(a: Seq<char>, b: Seq<char>, c: Seq<char>)
    requires
        before_or_same(a, b),
        before_or_same(b, c),
    ensures
        before_or_same(a, c),
    decreases a.len(),
{
    if a.len() > 0 && b.len() > 0 && c.len() > 0 && a[0] == b[0] && b[0] == c[0] {
        lemma_order_is_transitive(a.drop_first(), b.drop_first(), c.drop_first());
    }
}

proof fn lemma_order_is_total(a: Seq<char>, b: Seq<char>)
    ensures
        before_or_same(a, b) || before_or_same(b, a),
    decreases a.len(),
{
    if a.len() > 0 && b.len() > 0 && a[0] == b[0] {
        lemma_order_is_total(a.drop_first(), b.drop_first());
    }
}

/// The labels other than that of the main window.
pub open spec fn others(labels: Seq<Seq<char>>) -> Seq<Seq<char>>
    decreases labels.len(),
{
    if labels.len() == 0 {
        Seq::empty()
    } else if labels.last() == "main"@ {
        others(labels.drop_last())
    } else {
        others(labels.drop_last()).push(labels.last())
    }
}

/// The windows to bring to the front before the main window, in the order of
/// their labels; the main window comes last and is shown in its own way.
pub fn windows_before_main(labels: &[String]) -> (ordered: Vec<String>)
    ensures
        in_order(text::texts(ordered@)),
        text::texts(ordered@).to_multiset() == others(text::texts(labels@)).to_multiset(),
{
    let mut ordered: Vec<String> = Vec::new();
    let ghost all = text::texts(labels@);
    let mut i: usize = 0;
    proof {
        assert(text::texts(ordered@) =~= others(all.take(0)));
    }
    while i < labels.len()
        invariant
            i <= labels.len(),
            all == text::texts(labels@),
            in_order(text::texts(ordered@)),
            text::texts(ordered@).to_multiset() == others(all.take(i as int)).to_multiset(),
        decreases labels.len() - i,
    {
        proof {
            assert(all.take(i + 1).drop_last() =~= all.take(i as int));
            assert(all.take(i + 1).last() == labels@[i as int]@);
        }
        if !same_text(labels[i].as_str(), "main") {
            let ghost seen = others(all.take(i as int));
            insert_in_order(&mut ordered, labels[i].clone());
            proof {
                broadcast use vstd::seq_lib::group_to_multiset_ensures;

                assert(seen.push(labels@[i as int]@).to_multiset() =~= seen.to_multiset().insert(
                    labels@[i as int]@,
                ));
            }
        }
        i += 1;
    }
    proof {
        assert(all.take(i as int) =~= all);
    }
    ordered
}

fn insert_in_order(ordered: &mut Vec<String>, label: String)
    requires
        in_order(text::texts(old(ordered)@)),
    ensures
        in_order(text::texts(final(ordered)@)),
        text::texts(final(ordered)@).to_multiset() == text::texts(
            old(ordered)@,
        ).to_multiset().insert(label@),
{
    let chars = chars_of(label.as_str());
    let ghost known = text::texts(ordered@);
    let mut at: usize = 0;
    while at < ordered.len() && is_before_or_same(
        chars_of(ordered[at].as_str()).as_slice(),
        chars.as_slice(),
    )
        invariant
            at <= ordered.len(),
            chars@ == label@,
            known == text::texts(ordered@),
            ordered@ == old(ordered)@,
            forall|j: int| 0 <= j < at ==> before_or_same(#[trigger] known[j], label@),
        decreases ordered.len() - at,
    {
        at += 1;
    }
    proof {
        if at < ordered.len() {
            lemma_order_is_total(known[at as int], label@);
            assert forall|j: int| at <= j < known.len() implies before_or_same(
                label@,
                #[trigger] known[j],
            ) by {
                if j > at {
                    assert(before_or_same(known[at as int], known[j]));
                    lemma_order_is_transitive(label@, known[at as int], known[j]);
                }
            }
        }
    }
    let ghost text = label@;
    ordered.insert(at, label);
    proof {
        broadcast use vstd::seq_lib::group_to_multiset_ensures;

        let now = text::texts(ordered@);
        assert(now =~= known.insert(at as int, text));
        assert(in_order(now)) by {
            assert forall|i: int, j: int| 0 <= i < j < now.len() implies before_or_same(
                now[i],
                now[j],
            ) by {
                let i0 = if i < at {
                    i
                } else {
                    i - 1
                };
                let j0 = if j < at {
                    j
                } else {
                    j - 1
                };
                if i != at && j != at {
                    assert(now[i] == known[i0] && now[j] == known[j0]);
                } else if i == at {
                    assert(now[j] == known[j0]);
                } else {
                    assert(now[i] == known[i0]);
                }
            }
        }
        assert(now.to_multiset() =~= known.to_multiset().insert(text)) by {
            let head = known.take(at as int);
            let tail = known.skip(at as int);
            assert(known =~= head + tail);
            assert(now =~= head.push(text) + tail);
            vstd::seq_lib::lemma_multiset_commutative(head, tail);
            vstd::seq_lib::lemma_multiset_commutative(head.push(text), tail);
        }
    }
}

/// Two items of the menu bar do two things.
pub proof fn lemma_items_do_different_things(a: AppMenuItem, b: AppMenuItem)
    requires
        a != b,
    ensures
        item_action(a) != item_action(b),
{
    reveal_strlit("minutes://show-about");
    reveal_strlit("minutes://show-whats-new");
    reveal_strlit("minutes://show-settings");
    reveal_strlit("Minutes Website");
    reveal_strlit("Release Notes");
    reveal_strlit("Discussions");
    assert("minutes://show-about"@.len() == 20 && "minutes://show-whats-new"@.len() == 24
        && "minutes://show-settings"@.len() == 23);
    assert("Minutes Website"@.len() == 15 && "Release Notes"@.len() == 13 && "Discussions"@.len()
        == 11);
}

/// What a click on each line does, by the id of the line.
pub proof fn lemma_ids_lead_to_their_actions()
    ensures
        item_with_id("app-show-about"@) matches Some(i) && item_action(i) == (
        MenuAction::ShowAndEmit { event: "minutes://show-about" }),
        item_with_id("app-show-whats-new"@) matches Some(i) && item_action(i) == (
        MenuAction::ShowAndEmit { event: "minutes://show-whats-new" }),
        item_with_id("app-open-settings"@) matches Some(i) && item_action(i) == (
        MenuAction::ShowAndEmit { event: "minutes://show-settings" }),
        item_with_id("app-check-for-updates"@) matches Some(i) && item_action(i)
            == MenuAction::CheckForUpdates,
        item_with_id("app-quit"@) matches Some(i) && item_action(i) == MenuAction::Quit,
        item_with_id("app-open-main"@) matches Some(i) && item_action(i) == MenuAction::ShowMain,
        item_with_id("app-add-note"@) matches Some(i) && item_action(i) == MenuAction::AddNote,
        item_with_id("app-open-meetings-folder"@) matches Some(i) && item_action(i)
            == MenuAction::OpenMeetingsFolder,
        item_with_id("window-bring-all-to-front"@) matches Some(i) && item_action(i)
            == MenuAction::BringAllToFront,
        item_with_id("help-open-website"@) matches Some(i) && item_action(i) == (
        MenuAction::OpenUrl { url: "https://useminutes.app", title: "Minutes Website" }),
        item_with_id("help-open-changelog"@) matches Some(i) && item_action(i) == (
        MenuAction::OpenUrl {
            url: "https://github.com/silverstein/minutes/releases",
            title: "Release Notes",
        }),
        item_with_id("help-open-discussions"@) matches Some(i) && item_action(i) == (
        MenuAction::OpenUrl {
            url: "https://github.com/silverstein/minutes/discussions",
            title: "Discussions",
        }),
        item_with_id("calendar-access-warning"@) matches Some(i) && item_action(i)
            == MenuAction::OpenCalendarPrivacy,
{
    lemma_every_item_is_handled(AppMenuItem::ShowAbout);
    lemma_every_item_is_handled(AppMenuItem::ShowWhatsNew);
    lemma_every_item_is_handled(AppMenuItem::OpenSettings);
    lemma_every_item_is_handled(AppMenuItem::CheckForUpdates);
    lemma_every_item_is_handled(AppMenuItem::Quit);
    lemma_every_item_is_handled(AppMenuItem::OpenMain);
    lemma_every_item_is_handled(AppMenuItem::AddNote);
    lemma_every_item_is_handled(AppMenuItem::OpenMeetingsFolder);
    lemma_every_item_is_handled(AppMenuItem::BringAllToFront);
    lemma_every_item_is_handled(AppMenuItem::OpenWebsite);
    lemma_every_item_is_handled(AppMenuItem::OpenChangelog);
    lemma_every_item_is_handled(AppMenuItem::OpenDiscussions);
    lemma_every_item_is_handled(AppMenuItem::CalendarAccessWarning);
}

/// No two items share a key, and the keys are those of the system; away from
/// a Mac, Quit has none.
pub proof fn lemma_keys_are_not_shared(a: AppMenuItem, b: AppMenuItem, macos: bool)
    ensures
        a != b && accelerator_for(a, macos) is Some ==> accelerator_for(a, macos)
            != accelerator_for(b, macos),
        accelerator_for(AppMenuItem::OpenSettings, macos) == Some("Cmd+,"@),
        accelerator_for(AppMenuItem::OpenMain, macos) == Some("Cmd+O"@),
        accelerator_for(AppMenuItem::AddNote, macos) == Some("Cmd+Shift+N"@),
        accelerator_for(AppMenuItem::Quit, true) == Some("Cmd+Q"@),
        accelerator_for(AppMenuItem::Quit, false) is None,
{
    reveal_strlit("Cmd+,");
    reveal_strlit("Cmd+O");
    reveal_strlit("Cmd+Q");
    reveal_strlit("Cmd+Shift+N");
    assert("Cmd+,"@[4] == ',' && "Cmd+O"@[4] == 'O' && "Cmd+Q"@[4] == 'Q');
    assert("Cmd+Shift+N"@.len() == 11 && "Cmd+,"@.len() == 5 && "Cmd+O"@.len() == 5
        && "Cmd+Q"@.len() == 5);
}

/// What the lines say.
pub proof fn lemma_labels()
    ensures
        item_label(AppMenuItem::ShowAbout) == "About Minutes"@,
        item_label(AppMenuItem::ShowWhatsNew) == "What’s New…"@,
        item_label(AppMenuItem::OpenSettings) == "Settings…"@,
        item_label(AppMenuItem::CheckForUpdates) == "Check for Updates…"@,
        item_label(AppMenuItem::Quit) == "Quit Minutes"@,
        item_label(AppMenuItem::OpenMain) == "Open Minutes"@,
        item_label(AppMenuItem::AddNote) == "Add Note…"@,
        item_label(AppMenuItem::OpenMeetingsFolder) == "Open Meetings Folder"@,
        item_label(AppMenuItem::BringAllToFront) == "Bring All to Front"@,
        item_label(AppMenuItem::OpenWebsite) == "Minutes Website"@,
        item_label(AppMenuItem::OpenChangelog) == "Release Notes"@,
        item_label(AppMenuItem::OpenDiscussions) == "Get Help / Discussions"@,
        submenu_label(SubmenuTitle::AppName) is None,
        submenu_label(SubmenuTitle::File) == Some("File"@),
        submenu_label(SubmenuTitle::Edit) == Some("Edit"@),
        submenu_label(SubmenuTitle::View) == Some("View"@),
        submenu_label(SubmenuTitle::Window) == Some("Window"@),
        submenu_label(SubmenuTitle::Help) == Some("Help"@),
{
}

/// What the menu bar holds: on a Mac every item, behind a menu of the
/// application's own; elsewhere all but the items of that menu, and Quit.
#[verifier::rlimit(50)]
pub proof fn lemma_what_the_menu_bar_holds(macos: bool, item: AppMenuItem)
    ensures
        item == AppMenuItem::OpenMain || item == AppMenuItem::AddNote || item
            == AppMenuItem::OpenMeetingsFolder || item == AppMenuItem::BringAllToFront || item
            == AppMenuItem::OpenWebsite || item == AppMenuItem::OpenChangelog || item
            == AppMenuItem::OpenDiscussions || item == AppMenuItem::Quit ==> menu_bar(
            macos,
        ).contains(MenuEntry::Item(item)),
        item == AppMenuItem::ShowAbout || item == AppMenuItem::ShowWhatsNew || item
            == AppMenuItem::OpenSettings || item == AppMenuItem::CheckForUpdates ==> menu_bar(
            true,
        ).contains(MenuEntry::Item(item)),
        menu_bar(true)[0] == MenuEntry::Submenu(SubmenuTitle::AppName),
        menu_bar(false)[0] == MenuEntry::Submenu(SubmenuTitle::File),
        menu_bar(true).len() == 40,
        menu_bar(false).len() == 26,
{
    let mac = menu_bar(true);
    let plain = menu_bar(false);
    assert(mac[0] == MenuEntry::Submenu(SubmenuTitle::AppName));
    assert(mac[1] == MenuEntry::Item(AppMenuItem::ShowAbout));
    assert(mac[2] == MenuEntry::Item(AppMenuItem::ShowWhatsNew));
    assert(mac[3] == MenuEntry::Item(AppMenuItem::OpenSettings));
    assert(mac[4] == MenuEntry::Item(AppMenuItem::CheckForUpdates));
    assert(mac[12] == MenuEntry::Item(AppMenuItem::Quit));
    assert(mac[14] == MenuEntry::Item(AppMenuItem::OpenMain));
    assert(mac[16] == MenuEntry::Item(AppMenuItem::AddNote));
    assert(mac[17] == MenuEntry::Item(AppMenuItem::OpenMeetingsFolder));
    assert(mac[34] == MenuEntry::Item(AppMenuItem::BringAllToFront));
    assert(mac[37] == MenuEntry::Item(AppMenuItem::OpenWebsite));
    assert(mac[38] == MenuEntry::Item(AppMenuItem::OpenChangelog));
    assert(mac[39] == MenuEntry::Item(AppMenuItem::OpenDiscussions));
    assert(plain[0] == MenuEntry::Submenu(SubmenuTitle::File));
    assert(plain[1] == MenuEntry::Item(AppMenuItem::OpenMain));
    assert(plain[3] == MenuEntry::Item(AppMenuItem::AddNote));
    assert(plain[4] == MenuEntry::Item(AppMenuItem::OpenMeetingsFolder));
    assert(plain[7] == MenuEntry::Item(AppMenuItem::Quit));
    assert(plain[20] == MenuEntry::Item(AppMenuItem::BringAllToFront));
    assert(plain[23] == MenuEntry::Item(AppMenuItem::OpenWebsite));
    assert(plain[24] == MenuEntry::Item(AppMenuItem::OpenChangelog));
    assert(plain[25] == MenuEntry::Item(AppMenuItem::OpenDiscussions));
}

/// Labels are compared by the first character that tells them apart, and a
/// label comes before every longer one that begins with it.
#[verifier::rlimit(40)]
pub proof fn lemma_how_labels_are_compared(
    start: Seq<char>,
    a: Seq<char>,
    b: Seq<char>,
    c: char,
    d: char,
)
    requires
        c < d,
    ensures
        before_or_same(start, start + a),
        a.len() > 0 ==> !before_or_same(start + a, start),
        before_or_same(start + (seq![c] + a), start + (seq![d] + b)),
        !before_or_same(start + (seq![d] + b), start + (seq![c] + a)),
    decreases start.len(),
{
    if start.len() == 0 {
        assert(start + a =~= a);
        assert(start + (seq![c] + a) =~= seq![c] + a);
        assert(start + (seq![d] + b) =~= seq![d] + b);
        assert((seq![c] + a)[0] == c && (seq![d] + b)[0] == d);
    } else {
        let rest = start.drop_first();
        lemma_how_labels_are_compared(rest, a, b, c, d);
        assert((start + a).drop_first() =~= rest + a);
        assert((start + (seq![c] + a)).drop_first() =~= rest + (seq![c] + a));
        assert((start + (seq![d] + b)).drop_first() =~= rest + (seq![d] + b));
    }
}

/// All windows but the main one, in their order.
pub proof fn lemma_others_are_all_but_main(
    labels: Seq<Seq<char>>,
    label: Seq<char>,
)
    ensures
        label != "main"@ ==> others(labels.push(label)) == others(labels).push(label),
        others(labels.push("main"@)) == others(labels),
        others(Seq::empty()) == Seq::<Seq<char>>::empty(),
        others(labels).contains(label) ==> label != "main"@ && labels.contains(label),
    decreases labels.len(),
{
    assert(labels.push(label).drop_last() =~= labels);
    assert(labels.push("main"@).drop_last() =~= labels);
    if labels.len() > 0 {
        lemma_others_are_all_but_main(labels.drop_last(), label);
        if others(labels).contains(label) {
            let kept = others(labels.drop_last());
            if labels.last() != "main"@ && !kept.contains(label) {
                let i = choose|i: int|
                    0 <= i < others(labels).len() && others(labels)[i] == label;
                if i < kept.len() {
                    assert(kept[i] == label);
                }
                assert(label == labels.last());
                assert(labels[labels.len() - 1] == label);
            } else {
                let i = choose|i: int|
                    0 <= i < labels.drop_last().len() && labels.drop_last()[i] == label;
                assert(labels[i] == label);
            }
        }
    }
}

/// An order holds for each two labels, neighbours or not.
pub proof fn lemma_what_order_is(labels: Seq<Seq<char>>, i: int, j: int, a: Seq<char>, b: Seq<char>)
    requires
        in_order(labels),
        0 <= i < j < labels.len(),
    ensures
        before_or_same(labels[i], labels[j]),
        !before_or_same(a, b) ==> !in_order(seq![a, b]),
{
    assert(before_or_same(labels[i], labels[j]));
    let two = seq![a, b];
    if in_order(two) {
        assert(before_or_same(two[0], two[1]));
    }
}

} // verus!
