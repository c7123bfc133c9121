use vstd::prelude::*;
use vstd::view::View as _;

verus! {

/// The keys that the bindings distinguish; every other key is `Other`.
#[derive(Debug, Clone, Copy, PartialEq, Eq, Structural)]
pub enum Key {
    Escape,
    Enter,
    Backspace,
    Slash,
    D,
    E,
    I,
    N,
    O,
    Q,
    S,
    T,
    Other,
}

/// One discrete input event: a key press with the state of the control
/// modifier, or a character that the keyboard produced.
#[derive(Debug, Clone, Copy, PartialEq, Eq, Structural)]
pub enum KeyEvent {
    KeyPressed { key_code: Key, ctrl: bool },
    CharacterReceived(char),
    Other,
}

#[derive(Debug, Clone, Copy, PartialEq, Eq, Structural)]
pub enum SearchMode {
    Regular,
    /// Search that also reaches into subdirectories, down to the given depth.
    Global(usize),
}

#[derive(Debug, Clone, Copy, PartialEq, Eq, Structural)]
pub enum Mode {
    Normal,
    Search(SearchMode),
}

#[derive(Debug, Clone, Copy, PartialEq, Eq, Structural)]
pub enum SettingsInputKind {
    PrimaryColor,
    SecondaryColor,
}

/// The text typed into the two color fields of the settings screen.
#[derive(Debug)]
pub struct SettingsView {
    pub primary_input: String,
    pub secondary_input: String,
}

impl Default for SettingsView {
    fn default() -> (r: Self)
        ensures
            r.primary_input@ == Seq::<char>::empty(),
            r.secondary_input@ == Seq::<char>::empty(),
    {
        SettingsView { primary_input: String::new(), secondary_input: String::new() }
    }
}

impl Clone for SettingsView {
    fn clone(&self) -> (r: Self)
        ensures
            r == *self,
    {
        SettingsView {
            primary_input: self.primary_input.clone(),
            secondary_input: self.secondary_input.clone(),
        }
    }
}

/// The screen being shown.
#[derive(Debug)]
pub enum View {
    MainView,
    Settings(SettingsView),
}

impl Clone for View {
    fn clone(&self) -> (r: Self)
        ensures
            r == *self,
    {
        match self {
            View::MainView => View::MainView,
            View::Settings(s) => View::Settings(s.clone()),
        }
    }
}

/// What one input event asks the controller to do.
#[derive(Debug, Clone)]
pub enum Action {
    Up,
    Down,
    UpDir,
    Open,
    Delete,
    ToggleCurrent,
    NewMode(Mode),
    NewView(View),
    AddToSearch(char),
    PopFromSearch,
    FreezeSearch,
    Quit,
    Noop,
}

/// Whether `c` has the Unicode `Alphabetic` property.
pub uninterp spec fn alphabetic(c: char) -> bool;

/// Relies on `char::is_alphabetic`, a function of the character alone.
#[verifier::external_body]
fn is_alphabetic(c: char) -> (r: bool)
    ensures
        r == alphabetic(c),
{
    c.is_alphabetic()
}

/// The normal-mode shortcut that opens the settings screen: control and `S`.
pub open spec fn is_settings_shortcut(key: KeyEvent) -> bool {
    key == (KeyEvent::KeyPressed { key_code: Key::S, ctrl: true })
}

/// A settings screen whose two fields are empty.
pub open spec fn is_fresh_settings(a: Action) -> bool {
    &&& a matches Action::NewView(View::Settings(s))
    &&& s.primary_input@ == Seq::<char>::empty()
    &&& s.secondary_input@ == Seq::<char>::empty()
}

/// The normal-mode bindings, for every event but the settings shortcut.
pub open spec fn normal_action(key: KeyEvent) -> Action {
    match key {
        KeyEvent::KeyPressed { key_code, ctrl: _ } => match key_code {
            Key::Escape => Action::NewMode(Mode::Normal),
            Key::N => Action::UpDir,
            Key::E => Action::Down,
            Key::I => Action::Up,
            Key::O => Action::Open,
            Key::D => Action::Delete,
            Key::T => Action::ToggleCurrent,
            Key::S => Action::NewMode(Mode::Search(SearchMode::Regular)),
            Key::Slash => Action::NewMode(Mode::Search(SearchMode::Regular)),
            Key::Q => Action::Quit,
            _ => Action::Noop,
        },
        _ => Action::Noop,
    }
}

/// What a received character does while searching.
pub open spec fn character_action_spec(c: char, is_letter: bool) -> Action {
    if is_letter {
        Action::AddToSearch(c)
    } else {
        Action::Noop
    }
}

/// The search-mode bindings.
pub open spec fn search_action(key: KeyEvent) -> Action {
    match key {
        KeyEvent::KeyPressed { key_code, ctrl: _ } => match key_code {
            Key::Enter => Action::FreezeSearch,
            Key::Backspace => Action::PopFromSearch,
            Key::Escape => Action::NewMode(Mode::Normal),
            _ => Action::Noop,
        },
        KeyEvent::CharacterReceived(c) => character_action_spec(c, alphabetic(c)),
        KeyEvent::Other => Action::Noop,
    }
}

/// The settings-screen bindings: control and `S` go back to the file list.
pub open spec fn settings_action(key: KeyEvent) -> Action {
    if is_settings_shortcut(key) {
        Action::NewView(View::MainView)
    } else {
        Action::Noop
    }
}

impl Mode {
    /// The action that `key` asks for in this mode.
    pub fn parse_event(self, key: KeyEvent) -> (r: Action)
        ensures
            self == Mode::Normal && is_settings_shortcut(key) ==> is_fresh_settings(r),
            self == Mode::Normal && !is_settings_shortcut(key) ==> r == normal_action(key),
            self is Search ==> r == search_action(key),
    {
        match self {
            Mode::Normal => Mode::parse_normal(key),
            Mode::Search(_) => Mode::parse_search(key),
        }
    }

    pub fn parse_normal(key: KeyEvent) -> (r: Action)
        ensures
            is_settings_shortcut(key) ==> is_fresh_settings(r),
            !is_settings_shortcut(key) ==> r == normal_action(key),
    {
        match key {
            KeyEvent::KeyPressed { key_code, ctrl } => match key_code {
                Key::Escape => Action::NewMode(Mode::Normal),
                Key::N => Action::UpDir,
                Key::E => Action::Down,
                Key::I => Action::Up,
                Key::O => Action::Open,
                Key::D => Action::Delete,
                Key::T => Action::ToggleCurrent,
                Key::S => {
                    if ctrl {
                        Action::NewView(View::Settings(SettingsView::default()))
                    } else {
                        Action::NewMode(Mode::Search(SearchMode::Regular))
                    }
                },
                Key::Slash => Action::NewMode(Mode::Search(SearchMode::Regular)),
                Key::Q => Action::Quit,
                _ => Action::Noop,
            },
            _ => Action::Noop,
        }
    }

    pub fn parse_search(key: KeyEvent) -> (r: Action)
        ensures
            r == search_action(key),
    {
        match key {
            KeyEvent::KeyPressed { key_code, ctrl: _ } => match key_code {
                Key::Enter => Action::FreezeSearch,
                Key::Backspace => Action::PopFromSearch,
                Key::Escape => Action::NewMode(Mode::Normal),
                _ => Action::Noop,
            },
            KeyEvent::CharacterReceived(c) => Mode::character_action(c, is_alphabetic(c)),
            KeyEvent::Other => Action::Noop,
        }
    }

    /// What the character `c` does while searching, given whether it is a
    /// letter: letters extend the search term, anything else is ignored.
    pub fn character_action(c: char, is_letter: bool) -> (r: Action)
        ensures
            r == character_action_spec(c, is_letter),
    {
        if is_letter {
            Action::AddToSearch(c)
        } else {
            Action::Noop
        }
    }
}

impl View {
    pub fn parse_settings(key: KeyEvent) -> (r: Action)
        ensures
            r == settings_action(key),
    {
        match key {
            KeyEvent::KeyPressed { key_code: Key::S, ctrl: true } => Action::NewView(View::MainView),
            _ => Action::Noop,
        }
    }
}

} // verus!
