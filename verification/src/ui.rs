use crate::rpc_page::{handle_rpc, RpcAction, RpcEvent, RpcState};
use crate::text::{decimal_of, i64_to_string, str_eq};
use vstd::prelude::*;

verus! {

/// What a key press asks for.
#[derive(Clone, Copy, Debug, PartialEq, Eq, Structural)]
pub enum KeyboardShortcut {
    ToggleHelp,
    CloseHelp,
    SwitchToDashboard,
    SwitchToRpc,
    SwitchToConfig,
    FocusNextInput,
    FocusPrevInput,
    ExecuteRpc,
}

impl KeyboardShortcut {
    /// Whether the shortcut is typed as a plain character, so that it must
    /// give way while a text field has the focus.
    pub fn is_character_shortcut(self) -> (r: bool)
        ensures
            r == (self == KeyboardShortcut::ToggleHelp || self
                == KeyboardShortcut::SwitchToDashboard || self == KeyboardShortcut::SwitchToRpc
                || self == KeyboardShortcut::SwitchToConfig),
    {
        match self {
            KeyboardShortcut::ToggleHelp => true,
            KeyboardShortcut::SwitchToDashboard => true,
            KeyboardShortcut::SwitchToRpc => true,
            KeyboardShortcut::SwitchToConfig => true,
            _ => false,
        }
    }
}

/// The colour themes on offer.
#[derive(Clone, Copy, Debug, PartialEq, Eq, Structural)]
pub enum ThemeName {
    MissionControl,
    Everforest,
    GruvboxMaterial,
    MaterialDeepOcean,
    Nord,
    OneDark,
}

impl ThemeName {
    /// The two letters that stand for the theme.
    pub open spec fn label_of(self) -> Seq<char> {
        match self {
            ThemeName::MissionControl => "MC"@,
            ThemeName::Everforest => "EF"@,
            ThemeName::GruvboxMaterial => "GR"@,
            ThemeName::MaterialDeepOcean => "MA"@,
            ThemeName::Nord => "NO"@,
            ThemeName::OneDark => "OD"@,
        }
    }

    /// The two letters that stand for the theme.
    pub fn label(self) -> (r: &'static str)
        ensures
            r@ == self.label_of(),
    {
        match self {
            ThemeName::MissionControl => "MC",
            ThemeName::Everforest => "EF",
            ThemeName::GruvboxMaterial => "GR",
            ThemeName::MaterialDeepOcean => "MA",
            ThemeName::Nord => "NO",
            ThemeName::OneDark => "OD",
        }
    }

    /// Every theme, in the order they are offered.
    pub fn all() -> (r: Vec<ThemeName>)
        ensures
            r@ == seq![
                ThemeName::MissionControl,
                ThemeName::Everforest,
                ThemeName::GruvboxMaterial,
                ThemeName::MaterialDeepOcean,
                ThemeName::Nord,
                ThemeName::OneDark,
            ],
    {
        vec![
            ThemeName::MissionControl,
            ThemeName::Everforest,
            ThemeName::GruvboxMaterial,
            ThemeName::MaterialDeepOcean,
            ThemeName::Nord,
            ThemeName::OneDark,
        ]
    }
}

impl Default for ThemeName {
    fn default() -> (r: ThemeName)
        ensures
            r == ThemeName::MissionControl,
    {
        ThemeName::MissionControl
    }
}

/// The pages of the application.
#[derive(Clone, Copy, Debug, PartialEq, Eq, Structural)]
pub enum Tab {
    Dashboard,
    Rpc,
    Config,
}

impl Default for Tab {
    fn default() -> (r: Tab)
        ensures
            r == Tab::Dashboard,
    {
        Tab::Dashboard
    }
}

/// The panes of the dashboard.
#[derive(Clone, Copy, Debug, PartialEq, Eq, Structural)]
pub enum DashboardPane {
    Main,
    Zmq,
}

/// The text fields that can have the focus.
#[derive(Clone, Copy, Debug, PartialEq, Eq, Structural)]
pub enum FocusField {
    RpcSearch,
    RpcParams,
    RpcBatch,
    ConfigUrl,
    ConfigUser,
    ConfigPassword,
    ConfigWallet,
    ConfigPollInterval,
    ConfigZmqAddress,
    ConfigZmqBufferLimit,
}

/// A key as it was pressed.
#[derive(Debug)]
pub enum Key {
    Character(String),
    Tab,
    Enter,
    Escape,
    Other,
}

/// The modifier keys that were down with a key.
#[derive(Clone, Copy, Debug, PartialEq, Eq, Structural)]
pub struct Modifiers {
    pub shift: bool,
    pub control: bool,
    pub alt: bool,
    pub logo: bool,
}

/// What frames the pages: the theme, the side bar, the page shown, the
/// field that has the focus, and whether the help is shown.
#[derive(Debug)]
pub struct ShellState {
    pub theme_name: ThemeName,
    pub sidebar_visible: bool,
    pub active_tab: Tab,
    pub focused_input: Option<FocusField>,
    pub shortcuts_visible: bool,
}

/// What the caller is to do after a shortcut.
#[derive(Debug)]
pub enum ShortcutAction {
    /// Nothing.
    Idle,
    /// Give this field the focus, with the cursor at its end.
    Focus(FocusField),
    /// Do what the page that runs calls asked for.
    Rpc(RpcAction),
}

/// The shortcut that a key stands for: none while control, alt or logo is
/// down; else `?` for the help, `d`, `r` and `c` without shift for the
/// pages, tab for the next field and with shift for the one before, enter
/// without shift to run a call, and escape to close the help.
pub open spec fn shortcut_of(key: Key, modifiers: Modifiers) -> Option<KeyboardShortcut> {
    if modifiers.control || modifiers.alt || modifiers.logo {
        None
    } else {
        match key {
            Key::Character(c) => if c@ == "?"@ {
                Some(KeyboardShortcut::ToggleHelp)
            } else if (c@ == "d"@ || c@ == "D"@) && !modifiers.shift {
                Some(KeyboardShortcut::SwitchToDashboard)
            } else if (c@ == "r"@ || c@ == "R"@) && !modifiers.shift {
                Some(KeyboardShortcut::SwitchToRpc)
            } else if (c@ == "c"@ || c@ == "C"@) && !modifiers.shift {
                Some(KeyboardShortcut::SwitchToConfig)
            } else {
                None
            },
            Key::Tab => if modifiers.shift {
                Some(KeyboardShortcut::FocusPrevInput)
            } else {
                Some(KeyboardShortcut::FocusNextInput)
            },
            Key::Enter => if modifiers.shift {
                None
            } else {
                Some(KeyboardShortcut::ExecuteRpc)
            },
            Key::Escape => Some(KeyboardShortcut::CloseHelp),
            Key::Other => None,
        }
    }
}

/// The shortcut that a key stands for.
pub fn map_key_press(key: &Key, modifiers: Modifiers) -> (r: Option<KeyboardShortcut>)
    ensures
        r == shortcut_of(*key, modifiers),
{
    if modifiers.control || modifiers.alt || modifiers.logo {
        return None;
    }
    match key {
        Key::Character(c) => {
            let c = c.as_str();
            if str_eq(c, "?") {
                Some(KeyboardShortcut::ToggleHelp)
            } else if (str_eq(c, "d") || str_eq(c, "D")) && !modifiers.shift {
                Some(KeyboardShortcut::SwitchToDashboard)
            } else if (str_eq(c, "r") || str_eq(c, "R")) && !modifiers.shift {
                Some(KeyboardShortcut::SwitchToRpc)
            } else if (str_eq(c, "c") || str_eq(c, "C")) && !modifiers.shift {
                Some(KeyboardShortcut::SwitchToConfig)
            } else {
                None
            }
        },
        Key::Tab => if modifiers.shift {
            Some(KeyboardShortcut::FocusPrevInput)
        } else {
            Some(KeyboardShortcut::FocusNextInput)
        },
        Key::Enter => if modifiers.shift {
            None
        } else {
            Some(KeyboardShortcut::ExecuteRpc)
        },
        Key::Escape => Some(KeyboardShortcut::CloseHelp),
        Key::Other => None,
    }
}

/// The fields of a page in the order the focus goes through them.
pub open spec fn focus_order(tab: Tab, batch_mode: bool) -> Seq<FocusField> {
    match tab {
        Tab::Rpc => if batch_mode {
            seq![FocusField::RpcSearch, FocusField::RpcBatch]
        } else {
            seq![FocusField::RpcSearch, FocusField::RpcParams]
        },
        Tab::Config => seq![
            FocusField::ConfigUrl,
            FocusField::ConfigUser,
            FocusField::ConfigPassword,
            FocusField::ConfigWallet,
            FocusField::ConfigPollInterval,
            FocusField::ConfigZmqAddress,
            FocusField::ConfigZmqBufferLimit,
        ],
        Tab::Dashboard => Seq::empty(),
    }
}

/// The place of a field in an order, if it is there.
pub open spec fn place_of(order: Seq<FocusField>, field: FocusField) -> Option<int>
    decreases order.len(),
{
    if order.len() == 0 {
        None
    } else {
        match place_of(order.drop_last(), field) {
            Some(i) => Some(i),
            None => if order.last() == field {
                Some(order.len() - 1)
            } else {
                None
            },
        }
    }
}

/// The field that gets the focus after `current`: the next one in the
/// order, or the one before, going round at the ends; the first or the last
/// one where no field of the order has the focus. None in an empty order.
pub open spec fn next_focus(order: Seq<FocusField>, current: Option<FocusField>, reverse: bool)
    -> Option<FocusField> {
    if order.len() == 0 {
        None
    } else {
        let at = match current {
            Some(field) => place_of(order, field),
            None => None,
        };
        Some(
            match (at, reverse) {
                (Some(i), false) => order[(i + 1) % (order.len() as int)],
                (Some(i), true) => order[(i + order.len() - 1) % (order.len() as int)],
                (None, false) => order[0],
                (None, true) => order[order.len() - 1],
            },
        )
    }
}

/// A place found in the first fields of an order is the place in all of it.
pub proof fn lemma_place_stable(order: Seq<FocusField>, field: FocusField, n: int)
    requires
        0 <= n <= order.len(),
        place_of(order.take(n), field) is Some,
    ensures
        place_of(order, field) == place_of(order.take(n), field),
    decreases order.len() - n,
{
    if n < order.len() {
        assert(order.take(n + 1).drop_last() =~= order.take(n));
        lemma_place_stable(order, field, n + 1);
    } else {
        assert(order.take(n) =~= order);
    }
}

fn order_for(tab: Tab, batch_mode: bool) -> (r: Vec<FocusField>)
    ensures
        r@ == focus_order(tab, batch_mode),
{
    match tab {
        Tab::Rpc => if batch_mode {
            vec![FocusField::RpcSearch, FocusField::RpcBatch]
        } else {
            vec![FocusField::RpcSearch, FocusField::RpcParams]
        },
        Tab::Config => vec![
            FocusField::ConfigUrl,
            FocusField::ConfigUser,
            FocusField::ConfigPassword,
            FocusField::ConfigWallet,
            FocusField::ConfigPollInterval,
            FocusField::ConfigZmqAddress,
            FocusField::ConfigZmqBufferLimit,
        ],
        Tab::Dashboard => Vec::new(),
    }
}

fn position(order: &Vec<FocusField>, field: FocusField) -> (r: Option<usize>)
    ensures
        match r {
            Some(i) => place_of(order@, field) == Some(i as int) && i < order@.len(),
            None => place_of(order@, field) is None,
        },
{
    let mut i: usize = 0;
    assert(order@.take(0) =~= Seq::<FocusField>::empty());
    while i < order.len()
        invariant
            i <= order@.len(),
            place_of(order@.take(i as int), field) is None,
        decreases order@.len() - i,
    {
        proof {
            assert(order@.take(i + 1).drop_last() =~= order@.take(i as int));
        }
        if order[i] == field {
            proof {
                lemma_place_stable(order@, field, i + 1);
            }
            return Some(i);
        }
        i += 1;
    }
    proof {
        assert(order@.take(order@.len() as int) =~= order@);
    }
    None
}

impl ShellState {
    /// The frame at startup: the first theme, the side bar shown, the
    /// dashboard, no focus, no help.
    pub fn new() -> (r: ShellState)
        ensures
            r.theme_name == ThemeName::MissionControl,
            r.sidebar_visible,
            r.active_tab == Tab::Dashboard,
            r.focused_input is None,
            !r.shortcuts_visible,
    {
        ShellState {
            theme_name: ThemeName::MissionControl,
            sidebar_visible: true,
            active_tab: Tab::Dashboard,
            focused_input: None,
            shortcuts_visible: false,
        }
    }

    /// Takes a theme.
    pub fn change_theme(&mut self, name: ThemeName)
        ensures
            *final(self) == (ShellState { theme_name: name, ..*old(self) }),
    {
        self.theme_name = name;
    }

    /// Shows the side bar if it is hidden, and hides it if it is shown.
    pub fn toggle_sidebar(&mut self)
        ensures
            *final(self) == (ShellState { sidebar_visible: !old(self).sidebar_visible, ..*old(self) }),
    {
        self.sidebar_visible = !self.sidebar_visible;
    }

    /// Shows a page; no field has the focus then.
    pub fn select_tab(&mut self, tab: Tab)
        ensures
            *final(self) == (ShellState { active_tab: tab, focused_input: None, ..*old(self) }),
    {
        self.active_tab = tab;
        self.focused_input = None;
    }
}

/// Moves the focus to the next field of the page shown, or to the one
/// before.
pub fn focus_input(shell: &mut ShellState, batch_mode: bool, reverse: bool) -> (action:
    ShortcutAction)
    ensures
        match next_focus(
            focus_order(old(shell).active_tab, batch_mode),
            old(shell).focused_input,
            reverse,
        ) {
            Some(field) => {
                &&& action matches ShortcutAction::Focus(to)
                &&& to == field
                &&& *final(shell) == (ShellState { focused_input: Some(field), ..*old(shell) })
            },
            None => action is Idle && *final(shell) == *old(shell),
        },
{
    let order = order_for(shell.active_tab, batch_mode);
    let n: usize = order.len();
    if n == 0 {
        return ShortcutAction::Idle;
    }
    let current = match shell.focused_input {
        Some(field) => position(&order, field),
        None => None,
    };
    let index: usize = match (current, reverse) {
        (Some(i), false) => (i + 1) % n,
        (Some(i), true) => (i + n - 1) % n,
        (None, false) => 0,
        (None, true) => n - 1,
    };
    let next = order[index];
    shell.focused_input = Some(next);
    ShortcutAction::Focus(next)
}

/// Acts on a shortcut. A shortcut that is typed as a character does nothing
/// while a field has the focus. The help is toggled or closed, a page is
/// shown, the focus moves, and on the page that runs calls a call is run
/// unless one is in flight.
pub fn handle_keyboard_shortcut(
    shell: &mut ShellState,
    rpc: &mut RpcState,
    shortcut: KeyboardShortcut,
) -> (action: ShortcutAction)
    ensures
        ({
            let before = *old(shell);
            if before.focused_input is Some && (shortcut == KeyboardShortcut::ToggleHelp
                || shortcut == KeyboardShortcut::SwitchToDashboard || shortcut
                == KeyboardShortcut::SwitchToRpc || shortcut == KeyboardShortcut::SwitchToConfig) {
                action is Idle && *final(shell) == before && *final(rpc) == *old(rpc)
            } else {
                match shortcut {
                    KeyboardShortcut::ToggleHelp => {
                        &&& action is Idle
                        &&& *final(shell) == (ShellState {
                            shortcuts_visible: !before.shortcuts_visible,
                            ..before
                        })
                        &&& *final(rpc) == *old(rpc)
                    },
                    KeyboardShortcut::CloseHelp => {
                        &&& action is Idle
                        &&& *final(shell) == (ShellState { shortcuts_visible: false, ..before })
                        &&& *final(rpc) == *old(rpc)
                    },
                    KeyboardShortcut::SwitchToDashboard => {
                        &&& action is Idle
                        &&& *final(shell) == (ShellState {
                            active_tab: Tab::Dashboard,
                            focused_input: None,
                            ..before
                        })
                        &&& *final(rpc) == *old(rpc)
                    },
                    KeyboardShortcut::SwitchToRpc => {
                        &&& action is Idle
                        &&& *final(shell) == (ShellState {
                            active_tab: Tab::Rpc,
                            focused_input: None,
                            ..before
                        })
                        &&& *final(rpc) == *old(rpc)
                    },
                    KeyboardShortcut::SwitchToConfig => {
                        &&& action is Idle
                        &&& *final(shell) == (ShellState {
                            active_tab: Tab::Config,
                            focused_input: None,
                            ..before
                        })
                        &&& *final(rpc) == *old(rpc)
                    },
                    KeyboardShortcut::FocusNextInput => {
                        &&& *final(rpc) == *old(rpc)
                        &&& match next_focus(
                            focus_order(before.active_tab, old(rpc).batch_mode),
                            before.focused_input,
                            false,
                        ) {
                            Some(field) => action matches ShortcutAction::Focus(to) && to == field
                                && *final(shell) == (ShellState {
                                focused_input: Some(field),
                                ..before
                            }),
                            None => action is Idle && *final(shell) == before,
                        }
                    },
                    KeyboardShortcut::FocusPrevInput => {
                        &&& *final(rpc) == *old(rpc)
                        &&& match next_focus(
                            focus_order(before.active_tab, old(rpc).batch_mode),
                            before.focused_input,
                            true,
                        ) {
                            Some(field) => action matches ShortcutAction::Focus(to) && to == field
                                && *final(shell) == (ShellState {
                                focused_input: Some(field),
                                ..before
                            }),
                            None => action is Idle && *final(shell) == before,
                        }
                    },
                    KeyboardShortcut::ExecuteRpc => {
                        &&& *final(shell) == before
                        &&& if before.active_tab == Tab::Rpc && !old(rpc).execute_in_flight {
                            &&& final(rpc).same_catalogue(old(rpc))
                            &&& final(rpc).same_inputs(old(rpc))
                            &&& if old(rpc).batch_mode || old(rpc).selected_method is Some {
                                action is Rpc && !(action->Rpc_0 is Idle) && final(rpc).execute_in_flight
                            } else {
                                action is Rpc && action->Rpc_0 is Idle && !final(rpc).execute_in_flight
                            }
                        } else {
                            action is Idle && *final(rpc) == *old(rpc)
                        }
                    },
                }
            }
        }),
{
    if shell.focused_input.is_some() && shortcut.is_character_shortcut() {
        return ShortcutAction::Idle;
    }
    match shortcut {
        KeyboardShortcut::ToggleHelp => {
            shell.shortcuts_visible = !shell.shortcuts_visible;
            ShortcutAction::Idle
        },
        KeyboardShortcut::CloseHelp => {
            shell.shortcuts_visible = false;
            ShortcutAction::Idle
        },
        KeyboardShortcut::SwitchToDashboard => {
            shell.select_tab(Tab::Dashboard);
            ShortcutAction::Idle
        },
        KeyboardShortcut::SwitchToRpc => {
            shell.select_tab(Tab::Rpc);
            ShortcutAction::Idle
        },
        KeyboardShortcut::SwitchToConfig => {
            shell.select_tab(Tab::Config);
            ShortcutAction::Idle
        },
        KeyboardShortcut::FocusNextInput => focus_input(shell, rpc.batch_mode, false),
        KeyboardShortcut::FocusPrevInput => focus_input(shell, rpc.batch_mode, true),
        KeyboardShortcut::ExecuteRpc => {
            if shell.active_tab == Tab::Rpc && !rpc.execute_in_flight {
                ShortcutAction::Rpc(handle_rpc(rpc, RpcEvent::ExecutePressed))
            } else {
                ShortcutAction::Idle
            }
        },
    }
}

/// The short word for a kind of connection; any other kind stands for
/// itself.
pub open spec fn short_kind(kind: Seq<char>) -> Seq<char> {
    if kind == "outbound-full-relay"@ {
        "full"@
    } else if kind == "block-relay-only"@ {
        "block"@
    } else if kind == "addr-fetch"@ {
        "addr"@
    } else if kind == "inbound"@ {
        "in"@
    } else {
        kind
    }
}

/// The short word for a kind of connection.
pub fn connection_type_short(kind: &str) -> (r: &str)
    ensures
        r@ == short_kind(kind@),
{
    if str_eq(kind, "outbound-full-relay") {
        "full"
    } else if str_eq(kind, "block-relay-only") {
        "block"
    } else if str_eq(kind, "addr-fetch") {
        "addr"
    } else if str_eq(kind, "inbound") {
        "in"
    } else {
        kind
    }
}

/// How many seconds before `now` the moment `ts` lies, in decimal; empty
/// for a moment that was never set.
pub fn relative_secs(now: i64, ts: i64) -> (r: String)
    requires
        i64::MIN <= now - ts <= i64::MAX,
    ensures
        r@ == if ts == 0 {
            Seq::<char>::empty()
        } else {
            decimal_of(now - ts)
        },
{
    if ts == 0 {
        return String::new();
    }
    i64_to_string(now - ts)
}

/// The whole minutes of an age in seconds, rounded towards zero.
pub open spec fn whole_minutes(secs: int) -> int {
    if secs >= 0 {
        secs / 60
    } else {
        -((-secs) / 60)
    }
}

/// How many whole minutes before `now` the moment `ts` lies, in decimal;
/// empty for a moment that was never set.
pub fn relative_mins(now: i64, ts: i64) -> (r: String)
    requires
        i64::MIN <= now - ts <= i64::MAX,
    ensures
        r@ == if ts == 0 {
            Seq::<char>::empty()
        } else {
            decimal_of(whole_minutes(now - ts))
        },
{
    if ts == 0 {
        return String::new();
    }
    let secs: i64 = now - ts;
    let mins: i64 = if secs >= 0 {
        secs / 60
    } else if secs == i64::MIN {
        -153722867280912930
    } else {
        -((-secs) / 60)
    };
    i64_to_string(mins)
}

} // verus!
