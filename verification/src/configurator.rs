//! The session: the document in memory, the selected category, the status
//! message and the snapshot, and how load, edit, save, reset and revert move
//! from one state to the next.

use vstd::prelude::*;
use vstd::string::*;
use indexmap::IndexMap;
use crate::defaults::DEFAULT_JSON;
use crate::sound::{all_sound, lemma_sound_members, sound, MAX_DEPTH};
use crate::members::{distinct_keys, has_key, inserted, lemma_inserted, lemma_inserted_distinct};
use crate::ordered_map::{map_clone, map_entries, map_get, map_insert, map_new};
use crate::store::{
    collected,
    contents_view,
    document_of,
    empty_document,
    home_key,
    lemma_collected_sound,
    lemma_with_home,
    load_changes,
    load_outcome,
    save_text,
    saved_text,
    snapshot_view,
    top_members,
    welcome,
};
use crate::text::same_text;
use crate::tree::{
    lemma_pass_keeps_shape,
    lemma_same_shape_well_keyed,
    lemma_same_shape_within,
    reconcile,
    reconciled,
    same_shape,
};
use crate::value::{doc_view, lemma_object_view, path_view, Json, Members, Value};

verus! {

/// The state of a session as contracts see it.
pub struct Session {
    /// Whether the last load found a document.
    pub ok: bool,
    /// The status message.
    pub status: Seq<char>,
    /// Where the settings file lies.
    pub path: Seq<char>,
    /// The document in memory, the welcome entry first.
    pub document: Members,
    /// The key of the selected category.
    pub page: Seq<char>,
    /// The text of the file at the last load that found a document.
    pub snapshot: Option<Seq<char>>,
}

impl Session {
    /// What holds of every session: the welcome entry stands first in the
    /// document, no two entries have the same key, at the top or in any
    /// object below, no value is nested too deep, the selected category is in
    /// the document, a session that loaded has a snapshot, and a snapshot is
    /// a text that loads.
    pub open spec fn wf(self) -> bool {
        &&& self.document.len() >= 1
        &&& self.document[0] == (home_key(), welcome())
        &&& forall|i: int|
            1 <= i < self.document.len() ==> (#[trigger] self.document[i]).0 != home_key()
        &&& has_key(self.document, self.page)
        &&& distinct_keys(self.document)
        &&& all_sound(self.document)
        &&& self.ok ==> self.snapshot is Some
        &&& self.snapshot is Some ==> load_outcome(self.snapshot) is Some
    }

    /// The session with another status message.
    pub open spec fn with_status(self, status: Seq<char>) -> Session {
        Session { status, ..self }
    }

    /// The session after a load of the file's text: the document and the
    /// snapshot as the load leaves them; the selected category stays if the
    /// new document has it and is the welcome entry otherwise.
    pub open spec fn reloaded(self, contents: Option<Seq<char>>) -> Session {
        let outcome = load_outcome(contents);
        let document = match outcome {
            Some(tree) => document_of(tree),
            None => empty_document(),
        };
        Session {
            ok: outcome is Some,
            document,
            page: if has_key(document, self.page) {
                self.page
            } else {
                home_key()
            },
            snapshot: if outcome is Some {
                contents
            } else {
                self.snapshot
            },
            ..self
        }
    }

    /// The session after the load that follows a reset: as after any load,
    /// but a snapshot that was there stays, so that a revert can undo the
    /// reset.
    pub open spec fn reloaded_after_reset(self, contents: Option<Seq<char>>) -> Session {
        if self.snapshot is Some {
            Session { snapshot: self.snapshot, ..self.reloaded(contents) }
        } else {
            self.reloaded(contents)
        }
    }

    /// The session that starts with the file's text: loaded from it, with the
    /// welcome entry selected and an empty status.
    pub open spec fn started(path: Seq<char>, contents: Option<Seq<char>>) -> Session {
        Session {
            ok: false,
            status: Seq::empty(),
            path,
            document: empty_document(),
            page: home_key(),
            snapshot: None,
        }.reloaded(contents)
    }

    /// The session with this category selected, if the document has it.
    pub open spec fn selected(self, name: Seq<char>) -> Session {
        if has_key(self.document, name) {
            Session { page: name, ..self }
        } else {
            self
        }
    }

    /// Whether the editor is shown: the session has loaded and a category
    /// other than the welcome entry is selected.
    pub open spec fn editing(self) -> bool {
        self.ok && self.page != home_key()
    }

    /// The text that a save writes, where saving is offered.
    pub open spec fn save_text(self) -> Option<Seq<char>> {
        if self.ok {
            Some(saved_text(self.document))
        } else {
            None
        }
    }

    /// The text that a reset writes, where resetting is offered.
    pub open spec fn reset_text(self) -> Option<Seq<char>> {
        if self.ok {
            Some(DEFAULT_JSON@)
        } else {
            None
        }
    }

    /// The text that a revert writes, where there is a snapshot to go back
    /// to.
    pub open spec fn revert_text(self) -> Option<Seq<char>> {
        if self.ok {
            self.snapshot
        } else {
            None
        }
    }

    /// The session after a save was asked for.
    pub open spec fn save_asked(self) -> Session {
        if self.ok {
            self.with_status("Applied/Saved Changes"@)
        } else {
            self.with_status("Settings are not loaded"@)
        }
    }

    /// The session after a reset was asked for.
    pub open spec fn reset_asked(self) -> Session {
        if self.ok {
            self.with_status("Reset All Settings"@)
        } else {
            self.with_status("Settings are not loaded"@)
        }
    }

    /// The session after a revert was asked for.
    pub open spec fn revert_asked(self) -> Session {
        if self.ok {
            self.with_status("Reverted Changes"@)
        } else {
            self.with_status("Nothing to revert"@)
        }
    }

    /// The session after a revert that was written and loaded again; the
    /// session as it is where no revert is offered.
    pub open spec fn reverted(self) -> Session {
        match self.revert_text() {
            Some(text) => self.revert_asked().reloaded(Some(text)),
            None => self.revert_asked(),
        }
    }
}

/// Whether `after` is the document that one editing pass over the selected
/// category leaves: the category's value rebuilt by the pass, which starts
/// with the category's key as its path and a set stripe flag, and every other
/// entry as it was. A category whose value is no object stays as it is, and
/// so does the document when no editor is shown.
pub open spec fn page_edited<F>(visitor: F, before: Session, after: Members) -> bool where
    F: Fn(&Vec<String>, &str, &Value, bool) -> Value,
 {
    if !before.editing() {
        after == before.document
    } else {
        exists|i: int, rebuilt: Members|
            #![trigger before.document[i], rebuilt.len()]
            {
                &&& 0 <= i < before.document.len()
                &&& before.document[i].0 == before.page
                &&& match before.document[i].1 {
                    Json::Object(nested) => {
                        &&& rebuilt.len() == nested.len()
                        &&& reconciled(
                            visitor,
                            seq![before.page],
                            true,
                            nested,
                            rebuilt,
                            nested.len(),
                        )
                        &&& after == inserted(
                            before.document,
                            before.page,
                            Json::Object(rebuilt),
                        )
                    },
                    _ => after == before.document,
                }
            }
    }
}

/// The editor's session.
pub struct Configurator {
    ok: bool,
    status: String,
    settings_path: String,
    settings: IndexMap<String, Value>,
    current_page: String,
    backup: Option<String>,
}

impl View for Configurator {
    type V = Session;

    closed spec fn view(&self) -> Session {
        Session {
            ok: self.ok,
            status: self.status@,
            path: self.settings_path@,
            document: map_entries(self.settings),
            page: self.current_page@,
            snapshot: snapshot_view(self.backup),
        }
    }
}

/// The session after a load is well formed, whatever the load found.
pub proof fn lemma_reloaded_wf(before: Session, contents: Option<Seq<char>>)
    requires
        before.snapshot is Some ==> load_outcome(before.snapshot) is Some,
    ensures
        before.reloaded(contents).wf(),
{
    let after = before.reloaded(contents);
    match load_outcome(contents) {
        Some(tree) => {
            let members = top_members(tree);
            assert(all_sound(members)) by {
                match tree {
                    Json::Object(inner) => {
                        lemma_sound_members(inner);
                    },
                    _ => {},
                }
            }
            lemma_collected_sound(members, members.len());
            lemma_with_home(collected(members, members.len()));
        },
        None => {
            lemma_with_home(Seq::empty());
        },
    }
    assert(after.document[0].0 == home_key());
}

/// A second revert, with nothing done in between, writes the text that the
/// first one wrote and leaves the session as the first one left it.
pub proof fn lemma_revert_twice(session: Session)
    requires
        session.wf(),
    ensures
        session.reverted().wf(),
        session.revert_text() is Some ==> session.reverted().revert_text()
            == session.revert_text(),
        session.reverted().reverted() == session.reverted(),
{
    let once = session.reverted();
    match session.revert_text() {
        Some(text) => {
            lemma_reloaded_wf(session.revert_asked(), Some(text));
            assert(has_key(once.document, home_key())) by {
                assert(once.document[0].0 == home_key());
            }
            assert(has_key(once.document, once.page));
            assert(once.revert_asked() == once);
        },
        None => {
            assert(session.revert_asked().revert_asked() == session.revert_asked());
        },
    }
}

/// A revert after a reset writes the text that was the snapshot before the
/// reset: the reset can be undone.
pub proof fn lemma_reset_then_revert(session: Session, contents: Option<Seq<char>>)
    requires
        session.wf(),
        session.ok,
    ensures
        ({
            let after = session.reset_asked().reloaded_after_reset(contents);
            after.ok ==> after.revert_text() == session.snapshot
        }),
{
}

impl Configurator {
    /// Every session is well formed; see [`Session::wf`].
    #[verifier::type_invariant]
    pub open spec fn well_formed(&self) -> bool {
        self@.wf()
    }

    /// Starts a session from the settings file: `settings_path` is where the
    /// file lies and `contents` its text, or nothing where it could not be
    /// opened. The welcome entry is selected and the status is empty.
    pub fn new(settings_path: String, contents: Option<&str>) -> (main: Configurator)
        ensures
            main@ == Session::started(settings_path@, contents_view(contents)),
            main@.wf(),
    {
        let mut settings = map_new();
        let mut backup: Option<String> = None;
        let ok = load_changes(contents, &mut settings, &mut backup);
        let status = String::new();
        proof {
            let start = Session {
                ok: false,
                status: Seq::empty(),
                path: settings_path@,
                document: empty_document(),
                page: home_key(),
                snapshot: None,
            };
            lemma_reloaded_wf(start, contents_view(contents));
            assert(has_key(map_entries(settings), home_key())) by {
                assert(map_entries(settings)[0].0 == home_key());
            }
            assert(status@ =~= Seq::<char>::empty());
        }
        Configurator {
            ok,
            status,
            settings_path,
            settings,
            current_page: String::from_str("Home$"),
            backup,
        }
    }

    /// Replaces the status message and hands it back.
    pub fn set_status(&mut self, new_status: String) -> (status: &String)
        ensures
            final(self)@ == old(self)@.with_status(new_status@),
            status@ == new_status@,
    {
        proof {
            use_type_invariant(&*self);
        }
        self.status = new_status;
        &self.status
    }

    /// The status message.
    pub fn get_status(&self) -> (status: &String)
        ensures
            status@ == self@.status,
    {
        &self.status
    }

    /// Whether the last load found a document. While it did not, a
    /// placeholder is shown in place of the editor.
    pub fn ok(&self) -> (ok: bool)
        ensures
            ok == self@.ok,
    {
        self.ok
    }

    /// Where the settings file lies.
    pub fn settings_path(&self) -> (path: &String)
        ensures
            path@ == self@.path,
    {
        &self.settings_path
    }

    /// The document in memory.
    pub fn settings(&self) -> (settings: &IndexMap<String, Value>)
        ensures
            map_entries(*settings) == self@.document,
    {
        &self.settings
    }

    /// The key of the selected category.
    pub fn current_page(&self) -> (page: &String)
        ensures
            page@ == self@.page,
    {
        &self.current_page
    }

    /// The snapshot: the text of the file at the last load that found a
    /// document.
    pub fn backup(&self) -> (backup: &Option<String>)
        ensures
            snapshot_view(*backup) == self@.snapshot,
    {
        &self.backup
    }

    /// Whether the editor is shown: the session has loaded and a category
    /// other than the welcome entry is selected.
    pub fn editing(&self) -> (editing: bool)
        ensures
            editing == self@.editing(),
    {
        self.ok && !same_text(self.current_page.as_str(), "Home$")
    }

    /// Selects a category by its key. A key that the document does not have
    /// is refused and the selection stays.
    pub fn select_page(&mut self, name: &str) -> (found: bool)
        ensures
            found == has_key(old(self)@.document, name@),
            final(self)@ == old(self)@.selected(name@),
            final(self)@.wf(),
    {
        proof {
            use_type_invariant(&*self);
        }
        match map_get(&self.settings, name) {
            Some(_) => {
                self.current_page = String::from_str(name);
                true
            },
            None => false,
        }
    }

    /// One editing pass over the selected category: every leaf row of the
    /// category is shown to `leaf_visitor`, and the category is rebuilt from
    /// its answers and put back in its place; see
    /// [`reconcile`](crate::tree::reconcile). The pass starts with the
    /// category's key as its path and with the stripe flag set. While no
    /// editor is shown, and for a category whose value is no object, the
    /// visitor is not called and nothing changes.
    pub fn edit_page<F>(&mut self, leaf_visitor: &F) where
        F: Fn(&Vec<String>, &str, &Value, bool) -> Value,

        requires
            forall|p: Vec<String>, k: &str, v: Value, s: bool|
                call_requires(*leaf_visitor, (&p, k, &v, s)),
        ensures
            page_edited(*leaf_visitor, old(self)@, final(self)@.document),
            final(self)@ == (Session { document: final(self)@.document, ..old(self)@ }),
            final(self)@.wf(),
    {
        proof {
            use_type_invariant(&*self);
        }
        if !self.editing() {
            return ;
        }
        let ghost before = self@;
        let ghost mut at: int = 0;
        let ghost mut old_members: Members = Seq::empty();
        let rebuilt = match map_get(&self.settings, self.current_page.as_str()) {
            Some(Value::Object(nested)) => {
                let mut path: Vec<String> = Vec::new();
                path.push(self.current_page.clone());
                let mut stripe = true;
                let rebuilt = reconcile(nested, &path, &mut stripe, leaf_visitor);
                proof {
                    lemma_object_view(*nested);
                    old_members = doc_view(nested@);
                    at = choose|i: int|
                        0 <= i < before.document.len() && #[trigger] before.document[i] == (
                            before.page,
                            Json::Object(old_members),
                        );
                    assert(path_view(path@) =~= seq![before.page]);
                }
                Some(rebuilt)
            },
            Some(other) => {
                proof {
                    at = choose|i: int|
                        0 <= i < before.document.len() && #[trigger] before.document[i] == (
                            before.page,
                            other@,
                        );
                    assert(before.document[at].1 == other@);
                    assert(!(other@ is Object));
                    assert(page_edited(*leaf_visitor, before, before.document)) by {
                        let none: Members = Seq::empty();
                        assert(before.document[at].0 == before.page && none.len() == 0);
                    }
                }
                None
            },
            None => None,
        };
        if let Some(rebuilt) = rebuilt {
            let ghost new_members = doc_view(rebuilt@);
            let value = Value::Object(rebuilt);
            proof {
                lemma_object_view(rebuilt);
                let after = inserted(before.document, before.page, value@);
                lemma_inserted(before.document, before.page, value@);
                lemma_pass_keeps_shape(
                    *leaf_visitor,
                    seq![before.page],
                    true,
                    old_members,
                    new_members,
                    old_members.len(),
                );
                lemma_inserted_distinct(before.document, before.page, value@);
                assert(same_shape(Json::Object(old_members), value@));
                assert(sound(before.document[at].1));
                lemma_same_shape_within(Json::Object(old_members), value@, MAX_DEPTH as nat);
                lemma_same_shape_well_keyed(Json::Object(old_members), value@);
                assert(after[0] == before.document[0]);
                assert(before.document[at].0 == before.page && new_members.len()
                    == old_members.len());
            }
            let mut settings = map_clone(&self.settings);
            map_insert(&mut settings, self.current_page.clone(), value);
            self.settings = settings;
        }
    }

    /// Brings the session up to date with the settings file after it was
    /// written or changed: `contents` is the file's text, or nothing where it
    /// could not be opened.
    pub fn reload(&mut self, contents: Option<&str>)
        ensures
            final(self)@ == old(self)@.reloaded(contents_view(contents)),
            final(self)@.wf(),
    {
        proof {
            use_type_invariant(&*self);
            lemma_reloaded_wf(self@, contents_view(contents));
        }
        let mut settings = map_new();
        let mut backup = self.backup.clone();
        let ok = load_changes(contents, &mut settings, &mut backup);
        self.install(settings, backup, ok);
    }

    /// Brings the session up to date with the settings file after a reset
    /// was written to it: as [`Configurator::reload`], but a snapshot that
    /// was there stays what it was before the reset, so that a revert can
    /// undo the reset.
    pub fn reload_after_reset(&mut self, contents: Option<&str>)
        ensures
            final(self)@ == old(self)@.reloaded_after_reset(contents_view(contents)),
            final(self)@.wf(),
    {
        proof {
            use_type_invariant(&*self);
            lemma_reloaded_wf(self@, contents_view(contents));
        }
        let mut settings = map_new();
        let mut scratch: Option<String> = None;
        let ok = load_changes(contents, &mut settings, &mut scratch);
        let backup = if self.backup.is_none() {
            scratch
        } else {
            self.backup.clone()
        };
        self.install(settings, backup, ok);
    }

    /// Puts a loaded document in the place of the one in memory. The
    /// selection moves to the welcome entry if the new document does not
    /// have the selected category.
    fn install(&mut self, settings: IndexMap<String, Value>, backup: Option<String>, ok: bool)
        requires
            (Session {
                ok,
                document: map_entries(settings),
                page: home_key(),
                snapshot: snapshot_view(backup),
                ..old(self)@
            }).wf(),
        ensures
            final(self)@ == (Session {
                ok,
                document: map_entries(settings),
                page: if has_key(map_entries(settings), old(self)@.page) {
                    old(self)@.page
                } else {
                    home_key()
                },
                snapshot: snapshot_view(backup),
                ..old(self)@
            }),
            final(self)@.wf(),
    {
        proof {
            use_type_invariant(&*self);
            assert(has_key(self@.document, home_key())) by {
                assert(self@.document[0].0 == home_key());
            }
        }
        if map_get(&settings, self.current_page.as_str()).is_none() {
            self.current_page = String::from_str("Home$");
        }
        self.ok = false;
        self.settings = settings;
        self.backup = backup;
        self.ok = ok;
    }

    /// Asks for a reset: hands out the text of the default document as it
    /// is, which the caller writes to the settings file before it calls
    /// [`Configurator::reload_after_reset`]. Nothing is handed out while the
    /// session has not loaded.
    pub fn reset(&mut self) -> (text: Option<String>)
        ensures
            snapshot_view(text) == old(self)@.reset_text(),
            final(self)@ == old(self)@.reset_asked(),
    {
        proof {
            use_type_invariant(&*self);
        }
        if self.ok {
            self.status = String::from_str("Reset All Settings");
            Some(String::from_str(DEFAULT_JSON))
        } else {
            self.status = String::from_str("Settings are not loaded");
            None
        }
    }

    /// Asks for a revert: hands out the snapshot, which the caller writes to
    /// the settings file before it calls [`Configurator::reload`]. Nothing is
    /// handed out, and the status says so, where there is no snapshot to go
    /// back to.
    pub fn revert(&mut self) -> (text: Option<String>)
        ensures
            snapshot_view(text) == old(self)@.revert_text(),
            final(self)@ == old(self)@.revert_asked(),
    {
        proof {
            use_type_invariant(&*self);
        }
        if self.ok {
            self.status = String::from_str("Reverted Changes");
            self.backup.clone()
        } else {
            self.status = String::from_str("Nothing to revert");
            None
        }
    }

    /// Records that the settings file could not be written: the status says
    /// so, and nothing else changes.
    pub fn write_failed(&mut self)
        ensures
            final(self)@ == old(self)@.with_status("Could not write the settings file"@),
    {
        proof {
            use_type_invariant(&*self);
        }
        self.status = String::from_str("Could not write the settings file");
    }
}

/// Asks for a save: hands out the text of the document in memory without the
/// welcome entry, which the caller writes to the settings file before it
/// calls [`Configurator::reload`]. The document in memory stays as it is.
/// Nothing is handed out while the session has not loaded.
pub fn save_changes(main: &mut Configurator) -> (text: Option<String>)
    ensures
        snapshot_view(text) == old(main)@.save_text(),
        final(main)@ == old(main)@.save_asked(),
{
    proof {
        use_type_invariant(&*main);
    }
    if main.ok {
        let text = save_text(&main.settings);
        main.status = String::from_str("Applied/Saved Changes");
        Some(text)
    } else {
        main.status = String::from_str("Settings are not loaded");
        None
    }
}

} // verus!
