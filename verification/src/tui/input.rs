//! Keyboard handling for the terminal UI: from the focus state of the
//! application and a key, the next focus state, the action for the event
//! loop, and the application command to perform.
use vstd::prelude::*;

verus! {

/// The keys that the terminal UI tells apart.
#[derive(Debug, Clone, Copy, PartialEq, Eq, Structural)]
pub enum KeyCode {
    Char(char),
    Esc,
    Up,
    Down,
    PageUp,
    PageDown,
    Tab,
    Enter,
    F(u8),
    Backspace,
    Left,
    Right,
    Home,
    End,
    /// Any other key.
    Other,
}

/// A terminal event: a key press, or anything else (mouse, resize, focus).
#[derive(Debug, Clone, Copy, PartialEq, Eq, Structural)]
pub enum InputEvent {
    Key(KeyCode),
    Other,
}

/// What the event loop is to do after an event.
#[derive(Debug, Clone, Copy, PartialEq, Eq, Structural)]
pub enum Action {
    SelectNext,
    SelectPrevious,
    PageDown,
    PageUp,
    Quit,
    Continue,
}

/// The application operation that an event asks for.
#[derive(Debug, Clone, Copy, PartialEq, Eq, Structural)]
pub enum AppCommand {
    Nothing,
    CloseDetailView,
    SelectPrevious,
    SelectNext,
    PageUp,
    PageDown,
    ToggleDetailView,
    ClearAllFilters,
    ToggleSortOrder,
    StartScan,
    BackspaceSearch,
    AddSearchChar(char),
}

/// The part of the application state that key handling reads and writes.
/// `search_query_len` is the length of the search query in bytes, which is
/// what the cursor position counts.
#[derive(Debug, Clone, Copy, PartialEq, Eq, Structural)]
pub struct InputState {
    pub search_focused: bool,
    pub detail_view_visible: bool,
    pub cursor_position: usize,
    pub search_query_len: usize,
}

pub struct InputHandler;

/// The state with a new search focus.
pub open spec fn with_focus(s: InputState, focused: bool) -> InputState {
    InputState { search_focused: focused, ..s }
}

/// The state with a new cursor position.
pub open spec fn with_cursor(s: InputState, cursor: usize) -> InputState {
    InputState { cursor_position: cursor, ..s }
}

/// A key typed while the search box has the focus.
pub open spec fn search_key_outcome(s: InputState, key: KeyCode) -> (InputState, Action, AppCommand) {
    match key {
        KeyCode::Esc => (with_focus(s, false), Action::Continue, AppCommand::Nothing),
        KeyCode::Enter => (with_focus(s, false), Action::Continue, AppCommand::Nothing),
        KeyCode::Backspace => (s, Action::Continue, AppCommand::BackspaceSearch),
        KeyCode::Left => (
            if s.cursor_position > 0 {
                with_cursor(s, (s.cursor_position - 1) as usize)
            } else {
                s
            },
            Action::Continue,
            AppCommand::Nothing,
        ),
        KeyCode::Right => (
            if s.cursor_position < s.search_query_len {
                with_cursor(s, (s.cursor_position + 1) as usize)
            } else {
                s
            },
            Action::Continue,
            AppCommand::Nothing,
        ),
        KeyCode::Home => (with_cursor(s, 0), Action::Continue, AppCommand::Nothing),
        KeyCode::End => (with_cursor(s, s.search_query_len), Action::Continue, AppCommand::Nothing),
        KeyCode::Char(c) => (s, Action::Continue, AppCommand::AddSearchChar(c)),
        _ => (s, Action::Continue, AppCommand::Nothing),
    }
}

/// A key pressed while the search box does not have the focus.
pub open spec fn browse_key_outcome(s: InputState, key: KeyCode) -> (InputState, Action, AppCommand) {
    if s.detail_view_visible {
        match key {
            KeyCode::Esc => (s, Action::Continue, AppCommand::CloseDetailView),
            _ => (s, Action::Continue, AppCommand::Nothing),
        }
    } else {
        match key {
            KeyCode::Char(c) => {
                if c == 'q' {
                    (s, Action::Quit, AppCommand::Nothing)
                } else if c == 'c' {
                    (s, Action::Continue, AppCommand::ClearAllFilters)
                } else if c == 's' {
                    (s, Action::Continue, AppCommand::ToggleSortOrder)
                } else {
                    (s, Action::Continue, AppCommand::Nothing)
                }
            },
            KeyCode::Esc => (s, Action::Quit, AppCommand::Nothing),
            KeyCode::Up => (s, Action::Continue, AppCommand::SelectPrevious),
            KeyCode::Down => (s, Action::Continue, AppCommand::SelectNext),
            KeyCode::PageUp => (s, Action::Continue, AppCommand::PageUp),
            KeyCode::PageDown => (s, Action::Continue, AppCommand::PageDown),
            KeyCode::Tab => (with_focus(s, true), Action::Continue, AppCommand::Nothing),
            KeyCode::Enter => (s, Action::Continue, AppCommand::ToggleDetailView),
            KeyCode::F(n) => (
                s,
                Action::Continue,
                if n == 5 {
                    AppCommand::StartScan
                } else {
                    AppCommand::Nothing
                },
            ),
            _ => (s, Action::Continue, AppCommand::Nothing),
        }
    }
}

/// The next state, the action and the command for a key press.
pub open spec fn key_outcome(s: InputState, key: KeyCode) -> (InputState, Action, AppCommand) {
    if s.search_focused {
        search_key_outcome(s, key)
    } else {
        browse_key_outcome(s, key)
    }
}

/// The next state, the action and the command for an event; events other
/// than key presses change nothing.
pub open spec fn event_outcome(s: InputState, event: InputEvent) -> (InputState, Action, AppCommand) {
    match event {
        InputEvent::Key(key) => key_outcome(s, key),
        InputEvent::Other => (s, Action::Continue, AppCommand::Nothing),
    }
}

impl InputHandler {
    /// Handles one terminal event: updates the focus and cursor in `state`
    /// and returns the action for the event loop and the application
    /// command to perform.
    pub fn handle_event(state: &mut InputState, event: InputEvent) -> (r: (Action, AppCommand))
        ensures
            (*final(state), r.0, r.1) == event_outcome(*old(state), event),
    {
        match event {
            InputEvent::Key(key) => Self::handle_key(state, key),
            InputEvent::Other => (Action::Continue, AppCommand::Nothing),
        }
    }

    /// Handles one key press: keys go to the search box while it has the
    /// focus; otherwise they browse, or only close the detail view while it
    /// is open.
    pub fn handle_key(state: &mut InputState, key: KeyCode) -> (r: (Action, AppCommand))
        ensures
            (*final(state), r.0, r.1) == key_outcome(*old(state), key),
    {
        // Keys go to the search box while it has the focus.
        if state.search_focused {
            return Self::handle_search_input(state, key);
        }
        // While the detail view is open, only Esc (closing it) does anything.
        if state.detail_view_visible {
            return match key {
                KeyCode::Esc => (Action::Continue, AppCommand::CloseDetailView),
                _ => (Action::Continue, AppCommand::Nothing),
            };
        }
        match key {
            KeyCode::Char(c) => {
                if c == 'q' {
                    (Action::Quit, AppCommand::Nothing)
                } else if c == 'c' {
                    (Action::Continue, AppCommand::ClearAllFilters)
                } else if c == 's' {
                    (Action::Continue, AppCommand::ToggleSortOrder)
                } else {
                    (Action::Continue, AppCommand::Nothing)
                }
            },
            KeyCode::Esc => (Action::Quit, AppCommand::Nothing),
            KeyCode::Up => (Action::Continue, AppCommand::SelectPrevious),
            KeyCode::Down => (Action::Continue, AppCommand::SelectNext),
            KeyCode::PageUp => (Action::Continue, AppCommand::PageUp),
            KeyCode::PageDown => (Action::Continue, AppCommand::PageDown),
            KeyCode::Tab => {
                state.search_focused = true;
                (Action::Continue, AppCommand::Nothing)
            },
            KeyCode::Enter => (Action::Continue, AppCommand::ToggleDetailView),
            KeyCode::F(n) => {
                if n == 5 {
                    (Action::Continue, AppCommand::StartScan)
                } else {
                    (Action::Continue, AppCommand::Nothing)
                }
            },
            _ => (Action::Continue, AppCommand::Nothing),
        }
    }

    /// Handles a key typed into the focused search box: leave the box, edit
    /// the query, or move the cursor within it.
    pub fn handle_search_input(state: &mut InputState, key: KeyCode) -> (r: (Action, AppCommand))
        requires
            old(state).search_focused,
        ensures
            (*final(state), r.0, r.1) == search_key_outcome(*old(state), key),
    {
        match key {
            KeyCode::Esc => {
                state.search_focused = false;
                (Action::Continue, AppCommand::Nothing)
            },
            KeyCode::Enter => {
                state.search_focused = false;
                (Action::Continue, AppCommand::Nothing)
            },
            KeyCode::Backspace => (Action::Continue, AppCommand::BackspaceSearch),
            KeyCode::Left => {
                if state.cursor_position > 0 {
                    state.cursor_position = state.cursor_position - 1;
                }
                (Action::Continue, AppCommand::Nothing)
            },
            KeyCode::Right => {
                if state.cursor_position < state.search_query_len {
                    state.cursor_position = state.cursor_position + 1;
                }
                (Action::Continue, AppCommand::Nothing)
            },
            KeyCode::Home => {
                state.cursor_position = 0;
                (Action::Continue, AppCommand::Nothing)
            },
            KeyCode::End => {
                state.cursor_position = state.search_query_len;
                (Action::Continue, AppCommand::Nothing)
            },
            KeyCode::Char(c) => (Action::Continue, AppCommand::AddSearchChar(c)),
            _ => (Action::Continue, AppCommand::Nothing),
        }
    }
}

/// The event loop stops exactly on `q` or Esc pressed while neither the
/// search box nor the detail view has the focus.
pub proof fn lemma_quit_exactly_on_q_or_esc_while_browsing(s: InputState, key: KeyCode)
    ensures
        key_outcome(s, key).1 == Action::Quit <==> (!s.search_focused && !s.detail_view_visible
            && (key == KeyCode::Char('q') || key == KeyCode::Esc)),
{
}

/// Key handling only ever asks the event loop to quit or to carry on.
pub proof fn lemma_action_is_quit_or_none(s: InputState, event: InputEvent)
    ensures
        event_outcome(s, event).1 == Action::Quit || event_outcome(s, event).1 == Action::Continue,
{
}

/// Key handling never opens or closes the detail view itself (that is the
/// application's command) and never changes the query length; moving the
/// cursor keeps it within the query.
pub proof fn lemma_cursor_stays_within_query(s: InputState, event: InputEvent)
    requires
        s.cursor_position <= s.search_query_len,
    ensures
        event_outcome(s, event).0.cursor_position <= event_outcome(s, event).0.search_query_len,
        event_outcome(s, event).0.search_query_len == s.search_query_len,
        event_outcome(s, event).0.detail_view_visible == s.detail_view_visible,
{
}

/// The search box gains the focus only by Tab while browsing, and while it
/// has the focus every key yields `Action::Continue` and leaves the browsing
/// commands alone.
pub proof fn lemma_search_focus(s: InputState, key: KeyCode)
    ensures
        !s.search_focused ==> (key_outcome(s, key).0.search_focused <==> (!s.detail_view_visible
            && key == KeyCode::Tab)),
        s.search_focused ==> key_outcome(s, key).1 == Action::Continue,
        s.search_focused ==> (!key_outcome(s, key).0.search_focused <==> (key == KeyCode::Esc
            || key == KeyCode::Enter)),
{
}

/// While the detail view is open (and the search box does not have the
/// focus) only Esc acts, and it closes the view instead of quitting; no key
/// changes the state.
pub proof fn lemma_detail_view_only_closes_on_esc(s: InputState, key: KeyCode)
    requires
        !s.search_focused,
        s.detail_view_visible,
    ensures
        key_outcome(s, key).0 == s,
        key_outcome(s, key).1 == Action::Continue,
        key_outcome(s, key).2 == (if key == KeyCode::Esc {
            AppCommand::CloseDetailView
        } else {
            AppCommand::Nothing
        }),
{
}

/// While the search box has the focus every key goes to the search input:
/// no quitting, navigation, detail toggle, filter clearing, sort toggle or
/// scan start; the only commands are editing the query.
pub proof fn lemma_search_focus_keeps_keys_in_the_search_box(s: InputState, key: KeyCode)
    requires
        s.search_focused,
    ensures
        key_outcome(s, key) == search_key_outcome(s, key),
        key_outcome(s, key).1 == Action::Continue,
        key_outcome(s, key).2 == AppCommand::Nothing || key_outcome(s, key).2
            == AppCommand::BackspaceSearch || key_outcome(s, key).2 matches AppCommand::AddSearchChar(
            _,
        ),
        key_outcome(s, key).0.detail_view_visible == s.detail_view_visible,
        key_outcome(s, key).0.search_query_len == s.search_query_len,
{
}

/// Moving the cursor in the search box: Left steps back but not below 0,
/// Right steps forward but not past the query, Home goes to 0, End to the
/// query's length; the query and the focus stay, and the cursor stays within
/// the query.
pub proof fn lemma_search_cursor_moves(s: InputState, key: KeyCode)
    requires
        s.search_focused,
        s.cursor_position <= s.search_query_len,
        key == KeyCode::Left || key == KeyCode::Right || key == KeyCode::Home || key == KeyCode::End,
    ensures
        key == KeyCode::Left ==> search_key_outcome(s, key).0.cursor_position == (if s.cursor_position
            > 0 {
            s.cursor_position - 1
        } else {
            0
        }),
        key == KeyCode::Right ==> search_key_outcome(s, key).0.cursor_position == (if s.cursor_position
            < s.search_query_len {
            s.cursor_position + 1
        } else {
            s.search_query_len as int
        }),
        key == KeyCode::Home ==> search_key_outcome(s, key).0.cursor_position == 0,
        key == KeyCode::End ==> search_key_outcome(s, key).0.cursor_position == s.search_query_len,
        search_key_outcome(s, key).0.search_query_len == s.search_query_len,
        search_key_outcome(s, key).0.search_focused,
        search_key_outcome(s, key).0.cursor_position <= s.search_query_len,
        search_key_outcome(s, key).1 == Action::Continue,
        search_key_outcome(s, key).2 == AppCommand::Nothing,
{
}

/// Every character typed into the focused search box is added to the query:
/// the command is `AddSearchChar` with that very character, the loop goes
/// on, and the focus state and cursor are left to the application.
pub proof fn lemma_typed_characters_go_into_the_query(s: InputState, c: char)
    requires
        s.search_focused,
    ensures
        key_outcome(s, KeyCode::Char(c)) == (s, Action::Continue, AppCommand::AddSearchChar(c)),
        event_outcome(s, InputEvent::Key(KeyCode::Char(c))) == (
            s,
            Action::Continue,
            AppCommand::AddSearchChar(c),
        ),
{
}

/// In the focused search box, Backspace asks the application to delete from
/// the query, and Esc and Enter leave the box without any command.
pub proof fn lemma_search_box_editing_keys(s: InputState)
    requires
        s.search_focused,
    ensures
        key_outcome(s, KeyCode::Backspace) == (s, Action::Continue, AppCommand::BackspaceSearch),
        key_outcome(s, KeyCode::Esc) == (
            InputState { search_focused: false, ..s },
            Action::Continue,
            AppCommand::Nothing,
        ),
        key_outcome(s, KeyCode::Enter) == (
            InputState { search_focused: false, ..s },
            Action::Continue,
            AppCommand::Nothing,
        ),
{
}

/// While browsing (no search focus, no detail view) the keys map to these
/// outcomes: arrows select, page keys page, Enter toggles the detail view,
/// `c` clears the filters, `s` toggles the sort order, F5 starts a scan,
/// Tab focuses the search box; none of them changes anything else.
pub proof fn lemma_browse_key_map(s: InputState)
    requires
        !s.search_focused,
        !s.detail_view_visible,
    ensures
        key_outcome(s, KeyCode::Up) == (s, Action::Continue, AppCommand::SelectPrevious),
        key_outcome(s, KeyCode::Down) == (s, Action::Continue, AppCommand::SelectNext),
        key_outcome(s, KeyCode::PageUp) == (s, Action::Continue, AppCommand::PageUp),
        key_outcome(s, KeyCode::PageDown) == (s, Action::Continue, AppCommand::PageDown),
        key_outcome(s, KeyCode::Enter) == (s, Action::Continue, AppCommand::ToggleDetailView),
        key_outcome(s, KeyCode::Char('c')) == (s, Action::Continue, AppCommand::ClearAllFilters),
        key_outcome(s, KeyCode::Char('s')) == (s, Action::Continue, AppCommand::ToggleSortOrder),
        key_outcome(s, KeyCode::F(5)) == (s, Action::Continue, AppCommand::StartScan),
        key_outcome(s, KeyCode::Tab) == (
            InputState { search_focused: true, ..s },
            Action::Continue,
            AppCommand::Nothing,
        ),
        key_outcome(s, KeyCode::Char('q')) == (s, Action::Quit, AppCommand::Nothing),
        key_outcome(s, KeyCode::Esc) == (s, Action::Quit, AppCommand::Nothing),
{
}

} // verus!
