//! What a key press or a mouse click does to the widgets. Waiting for the
//! events and killing processes happen around these decisions.

use vstd::prelude::*;
use crate::draw::misc::{
    decremented, incremented, TickButton, TickCounter, MAX_TICK_RATE_MS, MIN_TICK_RATE_MS,
    TICK_RATE_STEP_MS,
};
use crate::draw::process_tree::{filtered, ProcessWidget, SearchState};
use crate::draw::widgets::about_popup::AboutPopUp;
use crate::processes::processdata::CollectProcessData;
use crate::draw::widgets::process_taskbar::{clicked_command, ProcessCommands, ProcessTaskBar};
use crate::ui::{KeyInput, MouseInput, MouseKind};

verus! {

/// What the caller does after a key press.
#[derive(Clone, Copy, Debug, PartialEq, Eq, Structural)]
pub enum KeyOutcome {
    /// Leave the program.
    Quit,
    /// Kill the selected process, if one is selected.
    Kill,
    /// Go on.
    Continue,
}

/// The outcome of a key press in a search state.
pub open spec fn key_outcome(state: SearchState, key: KeyInput) -> KeyOutcome {
    if state == SearchState::FilterApplied || state == SearchState::Searching {
        KeyOutcome::Continue
    } else {
        match key {
            KeyInput::Char('q') | KeyInput::Esc => KeyOutcome::Quit,
            KeyInput::Char('k') => KeyOutcome::Kill,
            _ => KeyOutcome::Continue,
        }
    }
}

/// The list's search after a key press: `(state, query, filtered rows,
/// table)` from the values before it.
pub open spec fn search_after(
    state: SearchState,
    input: Seq<char>,
    filtered_rows: Seq<CollectProcessData>,
    table: Seq<CollectProcessData>,
    key: KeyInput,
) -> (SearchState, Seq<char>, Seq<CollectProcessData>, Seq<CollectProcessData>) {
    let cleared = (SearchState::NoSearch, Seq::<char>::empty(), Seq::<CollectProcessData>::empty(), table);
    if state == SearchState::FilterApplied {
        if key == KeyInput::Esc {
            cleared
        } else {
            (state, input, filtered_rows, table)
        }
    } else if state == SearchState::Searching {
        match key {
            KeyInput::Enter => (SearchState::FilterApplied, input, filtered_rows, table),
            KeyInput::Esc => cleared,
            KeyInput::Backspace => {
                let q = if input.len() == 0 {
                    input
                } else {
                    input.drop_last()
                };
                (state, q, filtered(table, q), Seq::<CollectProcessData>::empty())
            },
            KeyInput::Char(c) => (
                state,
                input.push(c),
                filtered(table, input.push(c)),
                Seq::<CollectProcessData>::empty(),
            ),
            _ => (state, input, filtered_rows, table),
        }
    } else if key == KeyInput::Char('/') {
        (SearchState::Searching, Seq::<char>::empty(), filtered_rows, table)
    } else {
        (state, input, filtered_rows, table)
    }
}

/// The refresh interval after a key press: `+`/`=` refresh faster (a
/// shorter interval), `-`/`_` slower (a longer one).
pub open spec fn interval_after(state: SearchState, d: u64, key: KeyInput) -> u64 {
    if state == SearchState::FilterApplied || state == SearchState::Searching {
        d
    } else {
        match key {
            KeyInput::Char('+') | KeyInput::Char('=') => decremented(d),
            KeyInput::Char('-') | KeyInput::Char('_') => incremented(d),
            _ => d,
        }
    }
}

/// Whether a key press toggles the about pop-up.
pub open spec fn toggles_popup(state: SearchState, key: KeyInput) -> bool {
    state != SearchState::FilterApplied && state != SearchState::Searching && key
        == KeyInput::Char('p')
}

/// Handles a key press: while a filter is kept, Esc clears it; while a
/// query is typed, Enter keeps it, Esc clears it, Backspace and
/// characters edit it; otherwise `q`/Esc quit, `k` kills, `p` toggles the
/// pop-up, `/` starts a search, `+`/`=` make the refresh faster (one step
/// shorter interval) and `-`/`_` make it slower (one step longer).
pub fn keystroke_type(
    key: KeyInput,
    tick_button: &mut TickButton,
    process_widget: &mut ProcessWidget,
    popup: &mut AboutPopUp,
) -> (r: KeyOutcome)
    ensures
        r == key_outcome(old(process_widget).search_state_spec(), key),
        (
        final(process_widget).search_state_spec(),
        final(process_widget).search_input_spec(),
        final(process_widget).filtered_spec(),
        final(process_widget).table_spec(),
        ) == search_after(
            old(process_widget).search_state_spec(),
            old(process_widget).search_input_spec(),
            old(process_widget).filtered_spec(),
            old(process_widget).table_spec(),
            key,
        ),
        final(process_widget).sort_column_spec() == old(process_widget).sort_column_spec(),
        final(process_widget).sort_order_spec() == old(process_widget).sort_order_spec(),
        final(tick_button).duration_spec() == interval_after(
            old(process_widget).search_state_spec(),
            old(tick_button).duration_spec(),
            key,
        ),
        final(tick_button).area_spec() == old(tick_button).area_spec(),
        final(popup).visable == (old(popup).visable != toggles_popup(
            old(process_widget).search_state_spec(),
            key,
        )),
{
    if process_widget.search_state() == SearchState::FilterApplied {
        if key == KeyInput::Esc {
            process_widget.clear_search();
        }
        return KeyOutcome::Continue;
    }
    if process_widget.is_filter_input_active() {
        match key {
            KeyInput::Enter => {
                process_widget.keep_filter();
            },
            KeyInput::Esc => {
                process_widget.clear_search();
            },
            KeyInput::Backspace => {
                process_widget.erase_char();
            },
            KeyInput::Char(c) => {
                process_widget.type_char(c);
            },
            _ => {},
        }
        return KeyOutcome::Continue;
    }
    match key {
        KeyInput::Char('q') | KeyInput::Esc => KeyOutcome::Quit,
        KeyInput::Char('k') => KeyOutcome::Kill,
        KeyInput::Char('p') => {
            popup.visable = !popup.visable;
            KeyOutcome::Continue
        },
        KeyInput::Char('/') => {
            process_widget.start_search();
            KeyOutcome::Continue
        },
        KeyInput::Char('+') | KeyInput::Char('=') => {
            tick_button.decrement();
            KeyOutcome::Continue
        },
        KeyInput::Char('-') | KeyInput::Char('_') => {
            tick_button.increment();
            KeyOutcome::Continue
        },
        _ => KeyOutcome::Continue,
    }
}

/// Applies a mouse event to the refresh-rate button.
pub fn mouse_ticker_click(event: MouseInput, tick_button: &mut TickButton)
    ensures
        final(tick_button).duration_spec() == (match crate::draw::misc::click_effect(
            old(tick_button).area_spec(),
            old(tick_button).duration_spec(),
            event,
        ) {
            TickCounter::Increment => incremented(old(tick_button).duration_spec()),
            TickCounter::Decrement => decremented(old(tick_button).duration_spec()),
            TickCounter::NoChange => old(tick_button).duration_spec(),
        }),
        final(tick_button).area_spec() == old(tick_button).area_spec(),
{
    match tick_button.duration_click(event) {
        TickCounter::Increment => tick_button.increment(),
        TickCounter::Decrement => tick_button.decrement(),
        TickCounter::NoChange => {},
    }
}

/// Handles a mouse event: the refresh-rate button takes it, and a left
/// click on the task bar chooses a command there. Returns whether `Kill`
/// was clicked.
pub fn handle_mouse(event: MouseInput, tick_button: &mut TickButton, taskbar: &mut ProcessTaskBar) -> (kill: bool)
    ensures
        final(tick_button).duration_spec() == (match crate::draw::misc::click_effect(
            old(tick_button).area_spec(),
            old(tick_button).duration_spec(),
            event,
        ) {
            TickCounter::Increment => incremented(old(tick_button).duration_spec()),
            TickCounter::Decrement => decremented(old(tick_button).duration_spec()),
            TickCounter::NoChange => old(tick_button).duration_spec(),
        }),
        final(tick_button).area_spec() == old(tick_button).area_spec(),
        final(taskbar).area_spec() == old(taskbar).area_spec(),
        final(taskbar).command_spec() == (match clicked_command(old(taskbar).area_spec(), event) {
            Some(c) => c,
            None => old(taskbar).command_spec(),
        }),
        kill == (clicked_command(old(taskbar).area_spec(), event) == Some(ProcessCommands::Kill)),
{
    mouse_ticker_click(event, tick_button);
    if event.kind == MouseKind::LeftDown {
        match taskbar.handle_click(event) {
            Some(ProcessCommands::Kill) => true,
            _ => false,
        }
    } else {
        false
    }
}

/// Esc while a query is typed, or while a filter is kept, ends the search:
/// no search, an empty query, no filtered rows, the table as it was; it
/// does not quit. Esc with no search quits.
pub proof fn lemma_escape_ends_search(
    input: Seq<char>,
    rows: Seq<CollectProcessData>,
    table: Seq<CollectProcessData>,
)
    ensures
        ({
            let r = search_after(SearchState::Searching, input, rows, table, KeyInput::Esc);
            &&& r.0 == SearchState::NoSearch
            &&& r.1.len() == 0
            &&& r.2.len() == 0
            &&& r.3 == table
        }),
        ({
            let r = search_after(SearchState::FilterApplied, input, rows, table, KeyInput::Esc);
            &&& r.0 == SearchState::NoSearch
            &&& r.1.len() == 0
            &&& r.2.len() == 0
            &&& r.3 == table
        }),
        key_outcome(SearchState::Searching, KeyInput::Esc) == KeyOutcome::Continue,
        key_outcome(SearchState::FilterApplied, KeyInput::Esc) == KeyOutcome::Continue,
        key_outcome(SearchState::NoSearch, KeyInput::Esc) == KeyOutcome::Quit,
{
}

/// While a query is typed: a character is added to its end and the rows
/// are those that match the longer query; Backspace takes the last
/// character off, if any, and the rows match the shorter query; Enter keeps
/// the query and its rows and applies the filter. `/` with no search starts
/// one with an empty query.
pub proof fn lemma_typing_edits_query(
    input: Seq<char>,
    rows: Seq<CollectProcessData>,
    table: Seq<CollectProcessData>,
    c: char,
)
    ensures
        ({
            let r = search_after(SearchState::Searching, input, rows, table, KeyInput::Char(c));
            &&& r.0 == SearchState::Searching
            &&& r.1.len() == input.len() + 1
            &&& r.1.last() == c
            &&& r.1.drop_last() == input
            &&& r.2 == filtered(table, r.1)
        }),
        ({
            let r = search_after(SearchState::Searching, input, rows, table, KeyInput::Backspace);
            &&& r.0 == SearchState::Searching
            &&& input.len() > 0 ==> r.1.push(input.last()) == input
            &&& input.len() == 0 ==> r.1.len() == 0
            &&& r.2 == filtered(table, r.1)
        }),
        search_after(SearchState::Searching, input, rows, table, KeyInput::Enter) == (
            SearchState::FilterApplied,
            input,
            rows,
            table,
        ),
        ({
            let r = search_after(SearchState::NoSearch, input, rows, table, KeyInput::Char('/'));
            &&& r.0 == SearchState::Searching
            &&& r.1.len() == 0
        }),
{
    assert(input.push(c).drop_last() =~= input);
    if input.len() > 0 {
        assert(input.drop_last().push(input.last()) =~= input);
    }
}

/// With no search under way, `+`/`=` never lengthen the refresh interval
/// and shorten it by one step while that stays at or above the minimum;
/// `-`/`_` never shorten it and lengthen it by one step while that stays
/// at or below the maximum. While a query is typed or a filter kept, they
/// leave it as it is.
pub proof fn lemma_refresh_keys(d: u64, c: char)
    requires
        MIN_TICK_RATE_MS <= d <= MAX_TICK_RATE_MS,
    ensures
        (c == '+' || c == '=') ==> {
            let e = interval_after(SearchState::NoSearch, d, KeyInput::Char(c));
            &&& MIN_TICK_RATE_MS <= e <= d
            &&& d >= MIN_TICK_RATE_MS + TICK_RATE_STEP_MS ==> e == d - TICK_RATE_STEP_MS
        },
        (c == '-' || c == '_') ==> {
            let e = interval_after(SearchState::NoSearch, d, KeyInput::Char(c));
            &&& d <= e <= MAX_TICK_RATE_MS
            &&& d + TICK_RATE_STEP_MS <= MAX_TICK_RATE_MS ==> e == d + TICK_RATE_STEP_MS
        },
        interval_after(SearchState::Searching, d, KeyInput::Char(c)) == d,
        interval_after(SearchState::FilterApplied, d, KeyInput::Char(c)) == d,
{
}

/// With no search under way, `q` and Esc quit and `k` kills; while a query
/// is typed or a filter kept, no key quits or kills.
pub proof fn lemma_quit_and_kill_keys(key: KeyInput)
    ensures
        key_outcome(SearchState::NoSearch, KeyInput::Char('q')) == KeyOutcome::Quit,
        key_outcome(SearchState::NoSearch, KeyInput::Char('k')) == KeyOutcome::Kill,
        key_outcome(SearchState::Searching, key) == KeyOutcome::Continue,
        key_outcome(SearchState::FilterApplied, key) == KeyOutcome::Continue,
        toggles_popup(SearchState::NoSearch, KeyInput::Char('p')),
        !toggles_popup(SearchState::Searching, key),
        !toggles_popup(SearchState::FilterApplied, key),
{
}

} // verus!
