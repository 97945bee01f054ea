//! What one frame shows: the side bar of categories, the status line with
//! the clock, and the panel in the middle.

use vstd::prelude::*;
use vstd::string::*;
use crate::configurator::{Configurator, Session};
use crate::ordered_map::{map_entries, map_get, map_get_index, map_len};
use crate::store::{home_key, welcome};
use crate::text::{decimal, decimal_text, ends_with, ends_with_char, strip_char, stripped};
use crate::value::{doc_view, lemma_object_view, Entry, Json, Members, Value};

verus! {

/// The character that marks a category in its key: it is left out of the
/// label, its category is shown accented, and at the end of a key it closes
/// a group of categories.
pub const MARKER: char = '$';

/// The text that the panel shows while the session has not loaded.
pub const COULD_NOT_LOAD: &'static str = "Could not load Pico Connect settings file.";

/// One button of the side bar.
#[derive(Debug, PartialEq)]
pub struct SidebarItem {
    /// The key of the category that the button selects.
    pub key: String,
    /// The text on the button: the key without the marker.
    pub label: String,
    /// Whether the button is accented: the key has the marker.
    pub accent: bool,
    /// Whether a separator follows the button: the key ends with the marker.
    pub separator: bool,
}

/// What the middle of the window shows.
#[derive(Debug, PartialEq)]
pub enum Panel {
    /// The session has not loaded: [`COULD_NOT_LOAD`] in place of an editor.
    Placeholder,
    /// The welcome entry is selected: its texts, for display only.
    Welcome(Vec<String>),
    /// A category is selected: the rows of one editing pass.
    Editor,
}

/// One frame.
#[derive(Debug, PartialEq)]
pub struct Screen {
    /// The buttons of the side bar, one for each entry of the document in
    /// its order.
    pub sidebar: Vec<SidebarItem>,
    /// The status message followed by the time of day.
    pub status_line: String,
    /// The middle of the window.
    pub panel: Panel,
}

/// The hour of the day, from 0 to 23, at a count of seconds.
pub open spec fn hour_of(seconds: nat) -> nat {
    (seconds / 60 / 60) % 24
}

/// The minute of the hour, from 0 to 59, at a count of seconds.
pub open spec fn minute_of(seconds: nat) -> nat {
    (seconds / 60) % 60
}

/// The status message followed by hour and minute in square brackets, as
/// plain numerals.
pub open spec fn status_line_of(status: Seq<char>, seconds: nat) -> Seq<char> {
    status + " ["@ + decimal(hour_of(seconds)) + ":"@ + decimal(minute_of(seconds)) + "]"@
}

/// Whether the button describes the category with this key.
pub open spec fn item_for(item: SidebarItem, key: Seq<char>) -> bool {
    &&& item.key@ == key
    &&& item.label@ == stripped(key, MARKER)
    &&& item.accent == key.contains(MARKER)
    &&& item.separator == ends_with(key, MARKER)
}

/// The texts among the values of the first `n` members, in their order.
pub open spec fn texts_of(members: Members, n: nat) -> Seq<Seq<char>>
    decreases n,
{
    if n == 0 || n > members.len() {
        Seq::empty()
    } else {
        match members[n - 1].1 {
            Json::String(s) => texts_of(members, (n - 1) as nat).push(s),
            _ => texts_of(members, (n - 1) as nat),
        }
    }
}

/// The texts of the welcome entry.
pub open spec fn welcome_texts() -> Seq<Seq<char>> {
    texts_of(welcome()->Object_0, welcome()->Object_0.len())
}

/// The middle of the window as contracts see it.
pub enum PanelView {
    Placeholder,
    Welcome(Seq<Seq<char>>),
    Editor,
}

impl View for Panel {
    type V = PanelView;

    open spec fn view(&self) -> PanelView {
        match self {
            Panel::Placeholder => PanelView::Placeholder,
            Panel::Welcome(texts) => PanelView::Welcome(
                Seq::new(texts@.len(), |i: int| texts@[i]@),
            ),
            Panel::Editor => PanelView::Editor,
        }
    }
}

/// The panel of a session: the placeholder while it has not loaded, the
/// welcome texts while the welcome entry is selected, the editor otherwise.
pub open spec fn panel_of(session: Session) -> PanelView {
    if !session.ok {
        PanelView::Placeholder
    } else if session.page == home_key() {
        PanelView::Welcome(welcome_texts())
    } else {
        PanelView::Editor
    }
}

/// The status message followed by the time of day at `seconds` since the
/// epoch.
pub fn status_line(status: &str, seconds: u64) -> (line: String)
    ensures
        line@ == status_line_of(status@, seconds as nat),
{
    let total_minutes = seconds / 60;
    let hours = (total_minutes / 60) % 24;
    let minutes = total_minutes % 60;
    let mut line = String::from_str(status);
    line.append(" [");
    line.append(decimal_text(hours).as_str());
    line.append(":");
    line.append(decimal_text(minutes).as_str());
    line.append("]");
    line
}

/// The texts among the values of an object's members.
fn text_values(entries: &Vec<Entry>) -> (texts: Vec<String>)
    ensures
        Seq::new(texts@.len(), |i: int| texts@[i]@) == texts_of(
            doc_view(entries@),
            entries@.len() as nat,
        ),
{
    let ghost members = doc_view(entries@);
    let mut texts: Vec<String> = Vec::new();
    let mut i: usize = 0;
    while i < entries.len()
        invariant
            i <= entries@.len(),
            members == doc_view(entries@),
            members.len() == entries@.len(),
            Seq::new(texts@.len(), |j: int| texts@[j]@) == texts_of(members, i as nat),
        decreases entries@.len() - i,
    {
        let ghost before = Seq::new(texts@.len(), |j: int| texts@[j]@);
        assert(members[i as int] == entries@[i as int]@);
        match &entries[i].value {
            Value::String(s) => {
                texts.push(s.clone());
                assert(Seq::new(texts@.len(), |j: int| texts@[j]@) =~= before.push(s@));
            },
            _ => {},
        }
        i += 1;
    }
    texts
}

/// What the window shows for the session at `seconds` since the epoch.
///
/// The side bar has one button for each entry of the document, in its
/// order. The status line is the status message followed by the time of day.
/// The panel is the placeholder while the session has not loaded, the texts
/// of the welcome entry while that is selected, and the editor otherwise;
/// for the editor the caller runs one pass of
/// [`Configurator::edit_page`] with a visitor that draws the rows.
pub fn render_gui(main: &Configurator, seconds: u64) -> (screen: Screen)
    ensures
        screen.sidebar@.len() == main@.document.len(),
        forall|i: int|
            0 <= i < screen.sidebar@.len() ==> item_for(
                #[trigger] screen.sidebar@[i],
                main@.document[i].0,
            ),
        screen.status_line@ == status_line_of(main@.status, seconds as nat),
        screen.panel@ == panel_of(main@),
{
    proof {
        use_type_invariant(main);
    }
    let settings = main.settings();
    let n = map_len(settings);
    let mut sidebar: Vec<SidebarItem> = Vec::new();
    let mut i: usize = 0;
    while i < n
        invariant
            i <= n,
            n == map_entries(*settings).len(),
            sidebar@.len() == i,
            forall|j: int|
                0 <= j < i ==> item_for(#[trigger] sidebar@[j], map_entries(*settings)[j].0),
        decreases n - i,
    {
        match map_get_index(settings, i) {
            Some((key, _)) => {
                let (label, accent) = strip_char(key.as_str(), MARKER);
                let separator = ends_with_char(key.as_str(), MARKER);
                sidebar.push(SidebarItem { key: key.clone(), label, accent, separator });
            },
            None => {},
        }
        i += 1;
    }
    let status_line = status_line(main.get_status().as_str(), seconds);
    let panel = if !main.ok() {
        Panel::Placeholder
    } else if main.editing() {
        Panel::Editor
    } else {
        match map_get(settings, "Home$") {
            Some(Value::Object(entries)) => {
                proof {
                    lemma_object_view(*entries);
                    let document = main@.document;
                    let at = choose|k: int|
                        0 <= k < document.len() && #[trigger] document[k] == (
                            home_key(),
                            Json::Object(doc_view(entries@)),
                        );
                    assert(at == 0);
                }
                Panel::Welcome(text_values(entries))
            },
            _ => Panel::Welcome(Vec::new()),
        }
    };
    Screen { sidebar, status_line, panel }
}

} // verus!
