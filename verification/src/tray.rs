//! The tray lifecycle: the menu model built from the account list, the menu
//! action identifiers and their parsing, and the icon/enabled core state that
//! the UI shell guards with its lock.

use vstd::prelude::*;
use vstd::string::StringExecFns;
use crate::text::{has_prefix, str_eq, str_has_prefix};

verus! {

/// What a clicked tray-menu identifier means.
#[derive(Clone, Debug, PartialEq, Eq)]
pub enum MenuAction {
    Show,
    Hide,
    Quit,
    RefreshAccounts,
    SwitchAccount(String),
}

/// The mathematical shape of a menu action.
pub enum MenuActionV {
    Show,
    Hide,
    Quit,
    RefreshAccounts,
    SwitchAccount(Seq<char>),
}

impl View for MenuAction {
    type V = MenuActionV;

    open spec fn view(&self) -> MenuActionV {
        match *self {
            MenuAction::Show => MenuActionV::Show,
            MenuAction::Hide => MenuActionV::Hide,
            MenuAction::Quit => MenuActionV::Quit,
            MenuAction::RefreshAccounts => MenuActionV::RefreshAccounts,
            MenuAction::SwitchAccount(a) => MenuActionV::SwitchAccount(a@),
        }
    }
}

/// The identifier prefix of account-switch menu items.
pub open spec fn spec_switch_prefix() -> Seq<char> {
    "switch_account:"@
}

/// What a raw menu-item identifier denotes, if anything.
pub open spec fn spec_parse_menu_event(id: Seq<char>) -> Option<MenuActionV> {
    if id == "show"@ {
        Some(MenuActionV::Show)
    } else if id == "hide"@ {
        Some(MenuActionV::Hide)
    } else if id == "quit"@ {
        Some(MenuActionV::Quit)
    } else if id == "refresh_accounts"@ {
        Some(MenuActionV::RefreshAccounts)
    } else if has_prefix(id, spec_switch_prefix()) {
        Some(MenuActionV::SwitchAccount(id.skip(spec_switch_prefix().len() as int)))
    } else {
        None
    }
}

/// The identifier of the menu item that switches to `account`.
pub fn menu_id_for_account(account: &str) -> (r: String)
    ensures
        r@ == spec_switch_prefix() + account@,
{
    String::from_str("switch_account:").concat(account)
}

/// Parse a raw menu-item identifier into its action.
pub fn parse_menu_event(id: &str) -> (r: Option<MenuAction>)
    ensures
        match r {
            Some(a) => spec_parse_menu_event(id@) == Some(a@),
            None => spec_parse_menu_event(id@) is None,
        },
{
    if str_eq(id, "show") {
        Some(MenuAction::Show)
    } else if str_eq(id, "hide") {
        Some(MenuAction::Hide)
    } else if str_eq(id, "quit") {
        Some(MenuAction::Quit)
    } else if str_eq(id, "refresh_accounts") {
        Some(MenuAction::RefreshAccounts)
    } else if str_has_prefix(id, "switch_account:") {
        let plen = "switch_account:".unicode_len();
        let idlen = id.unicode_len();
        let rest = id.substring_char(plen, idlen);
        proof {
            assert(rest@ =~= id@.skip(spec_switch_prefix().len() as int));
        }
        Some(MenuAction::SwitchAccount(String::from_str(rest)))
    } else {
        None
    }
}

/// Parsing the identifier built for an account yields exactly the switch
/// action for that account: menu dispatch cannot confuse accounts.
pub proof fn lemma_menu_id_round_trip(account: Seq<char>)
    ensures
        spec_parse_menu_event(spec_switch_prefix() + account) == Some(
            MenuActionV::SwitchAccount(account),
        ),
{
    reveal_strlit("switch_account:");
    reveal_strlit("show");
    reveal_strlit("hide");
    reveal_strlit("quit");
    reveal_strlit("refresh_accounts");
    let id = spec_switch_prefix() + account;
    assert(spec_switch_prefix().len() == 15);
    assert("show"@.len() == 4);
    assert("hide"@.len() == 4);
    assert("quit"@.len() == 4);
    assert("refresh_accounts"@.len() == 16);
    assert(id.len() >= 15);
    assert(id != "show"@ && id != "hide"@ && id != "quit"@);
    if id == "refresh_accounts"@ {
        assert(id[0] == spec_switch_prefix()[0]);
        assert(id[0] == 's' && "refresh_accounts"@[0] == 'r');
        assert(false);
    }
    assert(id.subrange(0, 15) =~= spec_switch_prefix());
    assert(has_prefix(id, spec_switch_prefix()));
    assert(id.skip(15) =~= account);
}

/// One entry of the tray menu model.
#[derive(Clone, Debug, PartialEq, Eq)]
pub enum MenuEntry {
    /// A disabled caption line.
    Caption(String),
    /// A clickable item: its identifier and its label.
    Item { id: String, label: String },
    /// A submenu of clickable items, each an identifier and a label.
    Submenu { label: String, items: Vec<(String, String)> },
    Separator,
}

/// The mathematical shape of a menu entry.
pub enum MenuEntryV {
    Caption(Seq<char>),
    Item { id: Seq<char>, label: Seq<char> },
    Submenu { label: Seq<char>, items: Seq<(Seq<char>, Seq<char>)> },
    Separator,
}

/// The view of a submenu's item list.
pub open spec fn id_label_view(v: Seq<(String, String)>) -> Seq<(Seq<char>, Seq<char>)> {
    Seq::new(v.len(), |i: int| (v[i].0@, v[i].1@))
}

impl View for MenuEntry {
    type V = MenuEntryV;

    open spec fn view(&self) -> MenuEntryV {
        match *self {
            MenuEntry::Caption(s) => MenuEntryV::Caption(s@),
            MenuEntry::Item { id, label } => MenuEntryV::Item { id: id@, label: label@ },
            MenuEntry::Submenu { label, items } => MenuEntryV::Submenu {
                label: label@,
                items: id_label_view(items@),
            },
            MenuEntry::Separator => MenuEntryV::Separator,
        }
    }
}

impl DeepView for MenuEntry {
    type V = MenuEntryV;

    open spec fn deep_view(&self) -> MenuEntryV {
        self.view()
    }
}

/// The quick-switch section: a caption and one item per recent account.
pub open spec fn spec_quick_switch_section(recent: Seq<Seq<char>>) -> Seq<MenuEntryV> {
    if recent.len() > 0 {
        seq![MenuEntryV::Caption("quick switch"@)] + recent.map_values(
            |a: Seq<char>| MenuEntryV::Item { id: spec_switch_prefix() + a, label: "  "@ + a },
        ) + seq![MenuEntryV::Separator]
    } else {
        Seq::<MenuEntryV>::empty()
    }
}

/// The all-accounts submenu, shown once the list outgrows the quick-switch
/// section.
pub open spec fn spec_all_accounts_section(all: Seq<Seq<char>>) -> Seq<MenuEntryV> {
    if all.len() > 2 {
        seq![
            MenuEntryV::Submenu {
                label: "all accounts"@,
                items: all.map_values(|a: Seq<char>| (spec_switch_prefix() + a, a)),
            },
            MenuEntryV::Separator,
        ]
    } else {
        Seq::<MenuEntryV>::empty()
    }
}

/// The whole tray menu for the given recent and full account lists.
pub open spec fn spec_menu_model(recent: Seq<Seq<char>>, all: Seq<Seq<char>>) -> Seq<MenuEntryV> {
    (if all.len() > 0 {
        spec_quick_switch_section(recent) + spec_all_accounts_section(all) + seq![
            MenuEntryV::Item { id: "refresh_accounts"@, label: "refresh accounts"@ },
            MenuEntryV::Separator,
        ]
    } else {
        Seq::<MenuEntryV>::empty()
    }) + seq![
        MenuEntryV::Item { id: "show"@, label: "show window"@ },
        MenuEntryV::Separator,
        MenuEntryV::Item { id: "hide"@, label: "hide window"@ },
        MenuEntryV::Separator,
        MenuEntryV::Item { id: "quit"@, label: "quit"@ },
    ]
}

/// Build the tray menu model from the recent and full account lists.  The
/// account enumeration happens before any lock is taken; this construction is
/// pure.
pub fn build_tray_menu(recent: &Vec<String>, all: &Vec<String>) -> (r: Vec<MenuEntry>)
    ensures
        r.deep_view() == spec_menu_model(recent.deep_view(), all.deep_view()),
{
    let mut v: Vec<MenuEntry> = Vec::new();
    if all.len() > 0 {
        if recent.len() > 0 {
            v.push(MenuEntry::Caption(String::from_str("quick switch")));
            let n = recent.len();
            let mut i: usize = 0;
            while i < n
                invariant
                    n == recent@.len(),
                    0 <= i <= n,
                    v.deep_view() =~= seq![MenuEntryV::Caption("quick switch"@)]
                        + recent.deep_view().take(i as int).map_values(
                        |a: Seq<char>| MenuEntryV::Item {
                            id: spec_switch_prefix() + a,
                            label: "  "@ + a,
                        },
                    ),
                decreases n - i,
            {
                let ghost pre = v.deep_view();
                let account = &recent[i];
                let id = menu_id_for_account(account.as_str());
                let label = String::from_str("  ").concat(account.as_str());
                v.push(MenuEntry::Item { id, label });
                proof {
                    assert(recent.deep_view().take(i + 1 as int) =~= recent.deep_view().take(
                        i as int,
                    ).push(recent.deep_view()[i as int]));
                    assert(v.deep_view() =~= pre.push(MenuEntryV::Item {
                        id: spec_switch_prefix() + recent.deep_view()[i as int],
                        label: "  "@ + recent.deep_view()[i as int],
                    }));
                }
                i += 1;
            }
            v.push(MenuEntry::Separator);
            proof {
                assert(recent.deep_view().take(n as int) =~= recent.deep_view());
            }
        }
        if all.len() > 2 {
            let mut items: Vec<(String, String)> = Vec::new();
            let m = all.len();
            let mut j: usize = 0;
            while j < m
                invariant
                    m == all@.len(),
                    0 <= j <= m,
                    id_label_view(items@) =~= all.deep_view().take(j as int).map_values(
                        |a: Seq<char>| (spec_switch_prefix() + a, a),
                    ),
                decreases m - j,
            {
                let ghost pre = id_label_view(items@);
                let account = &all[j];
                let id = menu_id_for_account(account.as_str());
                items.push((id, account.clone()));
                proof {
                    assert(all.deep_view().take(j + 1 as int) =~= all.deep_view().take(
                        j as int,
                    ).push(all.deep_view()[j as int]));
                    assert(id_label_view(items@) =~= pre.push(
                        (spec_switch_prefix() + all.deep_view()[j as int], all.deep_view()[
                            j as int]),
                    ));
                }
                j += 1;
            }
            proof {
                assert(all.deep_view().take(m as int) =~= all.deep_view());
            }
            v.push(MenuEntry::Submenu { label: String::from_str("all accounts"), items });
            v.push(MenuEntry::Separator);
        }
        v.push(
            MenuEntry::Item {
                id: String::from_str("refresh_accounts"),
                label: String::from_str("refresh accounts"),
            },
        );
        v.push(MenuEntry::Separator);
    }
    v.push(MenuEntry::Item { id: String::from_str("show"), label: String::from_str("show window") });
    v.push(MenuEntry::Separator);
    v.push(MenuEntry::Item { id: String::from_str("hide"), label: String::from_str("hide window") });
    v.push(MenuEntry::Separator);
    v.push(MenuEntry::Item { id: String::from_str("quit"), label: String::from_str("quit") });
    proof {
        assert(v.deep_view() =~= spec_menu_model(recent.deep_view(), all.deep_view()));
    }
    v
}

/// The tray icon may only exist while the tray is enabled.
pub open spec fn tray_consistent(t: TrayCore) -> bool {
    t.has_icon ==> t.enabled
}

/// The tray manager's core state: the persisted enabled flag and whether an
/// icon handle currently exists.  The UI shell owns the lock and the handle;
/// these transitions say what each operation may do to the state.
pub struct TrayCore {
    pub enabled: bool,
    pub has_icon: bool,
}

impl TrayCore {
    /// Fresh state from the persisted setting; no icon exists yet.
    pub fn new(enabled: bool) -> (r: TrayCore)
        ensures
            r.enabled == enabled,
            !r.has_icon,
            tray_consistent(r),
    {
        TrayCore { enabled, has_icon: false }
    }

    /// Enable the tray: the setting is persisted first; an icon must then be
    /// created exactly when none exists yet.
    pub fn enable(&mut self) -> (create: bool)
        ensures
            final(self).enabled,
            final(self).has_icon == old(self).has_icon,
            create == !old(self).has_icon,
    {
        self.enabled = true;
        !self.has_icon
    }

    /// Install the icon handle after building it, double-checked: under the
    /// lock, a handle created concurrently wins and the new one is dropped.
    pub fn commit_icon(&mut self) -> (installed: bool)
        requires
            old(self).enabled,
        ensures
            final(self).has_icon,
            final(self).enabled == old(self).enabled,
            installed == !old(self).has_icon,
            tray_consistent(*final(self)),
    {
        let installed = !self.has_icon;
        self.has_icon = true;
        installed
    }

    /// Disable the tray: the setting is persisted and the icon handle is
    /// taken and discarded.
    pub fn disable(&mut self)
        ensures
            !final(self).enabled,
            !final(self).has_icon,
            tray_consistent(*final(self)),
    {
        self.enabled = false;
        self.has_icon = false;
    }

    /// Toggle by the current setting.  Concurrent togglers race on the
    /// setting itself; each call is still a plain enable or disable.
    pub fn toggle(&mut self) -> (now_enabled: bool)
        ensures
            now_enabled == !old(self).enabled,
            final(self).enabled == now_enabled,
            now_enabled ==> final(self).has_icon == old(self).has_icon,
            !now_enabled ==> !final(self).has_icon,
    {
        if self.enabled {
            self.disable();
            false
        } else {
            self.enable();
            true
        }
    }

    /// Whether an icon handle currently exists.
    pub fn is_tray_created(&self) -> (r: bool)
        ensures
            r == self.has_icon,
    {
        self.has_icon
    }
}

} // verus!
