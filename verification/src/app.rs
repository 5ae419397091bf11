//! The state of the terminal interface and its transitions. Every key press
//! changes the state and names, as an [`Action`], the outside work that has
//! to follow (building a tree, running rsync, writing a configuration file);
//! the result of that work is handed back through one of the `finish_`
//! methods.
use vstd::prelude::*;
use vstd::string::*;
use crate::config::{
    Pair, PairSource, TaggedPair, scope_word, scope_label, first_accepted, find_accepted,
};
use crate::sync::{
    SyncError, SyncResult, SyncStep, build_command_display, command_display, error_message,
};
use crate::text::{views, push_char, pop_char};
use crate::tree::{
    FileNode, FileNodeView, display_items, item_views, height, with_selection, toggled_at,
    selected_files, flatten_tree_for_display, toggle_node_by_path, lemma_height_with_selection,
    lemma_height_toggled, selection_toggle_keeps_row_count,
};

verus! {

broadcast use vstd::string::group_string_axioms;

/// The screen the interface shows.
#[derive(Debug, Clone, Copy, PartialEq, Eq, Structural)]
pub enum Mode {
    PairList,
    FileTree,
    SyncPreview,
    SyncProgress,
    PasswordInput,
    Help,
    AddPair,
}

/// A key of the keyboard, as far as the interface tells keys apart.
#[derive(Debug, Clone, Copy, PartialEq, Eq, Structural)]
pub enum Key {
    Char(char),
    Enter,
    Esc,
    Tab,
    BackTab,
    Backspace,
    Delete,
    Up,
    Down,
    Other,
}

/// A key event: the key, and whether it is a press (rather than a repeat or
/// a release).
#[derive(Debug, Clone, Copy, PartialEq, Eq, Structural)]
pub struct KeyInput {
    pub key: Key,
    pub pressed: bool,
}

/// The files to hand to rsync, and where from and to.
#[derive(Debug)]
pub struct SyncRequest {
    pub local: String,
    pub remote: String,
    pub files: Vec<String>,
}

/// The outside work that a key press calls for.
#[derive(Debug)]
pub enum Action {
    /// Nothing.
    Nothing,
    /// Build the tree of the pair's local directory, then call
    /// [`App::open_pair`], or [`App::show_error`] if that fails.
    OpenPair(Pair),
    /// Run an rsync dry run, then call [`App::finish_dry_run`].
    DryRun(SyncRequest),
    /// Run rsync, then call [`App::finish_sync`].
    Sync(SyncRequest),
    /// Send the password to the waiting session, then call
    /// [`App::finish_password`].
    SubmitPassword(String),
    /// Close the waiting session.
    DropSession,
    /// Remove the pair from its configuration file, then call
    /// [`App::finish_remove_pair`].
    RemovePair(String, PairSource),
    /// Add the pair to the configuration file, then call
    /// [`App::finish_add_pair`].
    AddPair(Pair, PairSource),
    /// Load the pairs again and hand them to [`App::set_pairs`].
    ReloadPairs,
}

/// The state of the interface.
pub struct App {
    pub mode: Mode,
    pub previous_mode: Option<Mode>,
    pub pairs: Vec<TaggedPair>,
    pub pair_index: usize,
    pub current_pair: Option<Pair>,
    pub tree: Option<FileNode>,
    pub tree_items: Vec<(usize, FileNode)>,
    pub tree_cursor: usize,
    pub tree_scroll: usize,
    pub dry_run_output: String,
    pub sync_command: String,
    pub sync_output: String,
    pub sync_error: bool,
    pub status_msg: String,
    pub should_quit: bool,
    pub select_all: bool,
    pub awaiting_password: bool,
    pub password_buffer: String,
    pub add_pair_name: String,
    pub add_pair_local: String,
    pub add_pair_remote: String,
    pub add_pair_focus: usize,
    pub add_pair_scope: PairSource,
}

/// The text shown as dry-run output when the remote asks for a password.
pub open spec fn auth_preview_text() -> Seq<char> {
    "Authentication required: SSH key not configured for this remote.\n\nYou can still proceed \u{2014} a password prompt will appear when you confirm sync."@
}

/// The text shown when a sync needs a password and no session could ask
/// for it.
pub open spec fn auth_fallback_text() -> Seq<char> {
    "Authentication failed: SSH key not configured and interactive\nterminal (PTY) is not available in this environment.\n\nPlease configure SSH key-based authentication:\n\nssh-keygen -t ed25519\nssh-copy-id <remote>"@
}

/// The rows of the tree match the tree, and its height fits the row depth.
pub open spec fn rows_match(tree: Option<FileNode>, items: Seq<(usize, FileNode)>) -> bool {
    match tree {
        Some(t) => height(t@) <= usize::MAX && item_views(items) == display_items(t@, 0),
        None => items.len() == 0,
    }
}

/// The key is the given character.
pub open spec fn is_char(k: KeyInput, c: char) -> bool {
    k.key == Key::Char(c)
}

/// The state after a change of the tree to `new_tree`, with its rows
/// computed again and nothing else changed but what `base` changes.
pub open spec fn tree_now(post: App, base: App, new_tree: FileNodeView) -> bool {
    &&& post == App { tree: post.tree, tree_items: post.tree_items, ..base }
    &&& post.tree matches Some(t) && t@ == new_tree
    &&& item_views(post.tree_items@) == display_items(new_tree, 0)
}

/// The cursor moved one row down, unless it is on the last row.
pub open spec fn cursor_down_effect(pre: App, post: App) -> bool {
    post == App {
        tree_cursor: if pre.tree_items@.len() > 0 && pre.tree_cursor < pre.tree_items@.len() - 1 {
            (pre.tree_cursor + 1) as usize
        } else {
            pre.tree_cursor
        },
        ..pre
    }
}

/// The cursor moved one row up, unless it is on the first row.
pub open spec fn cursor_up_effect(pre: App, post: App) -> bool {
    post == App {
        tree_cursor: if pre.tree_cursor > 0 {
            (pre.tree_cursor - 1) as usize
        } else {
            pre.tree_cursor
        },
        ..pre
    }
}

/// The node under the cursor toggled: its selection, or, when `expand` is
/// set, the expansion of a directory.
pub open spec fn toggle_row_effect(pre: App, post: App, expand: bool) -> bool {
    if pre.tree_cursor >= pre.tree_items@.len() {
        post == pre
    } else {
        match pre.tree {
            Some(t) => tree_now(
                post,
                pre,
                toggled_at(t@, pre.tree_items@[pre.tree_cursor as int].1.relative_path@, expand),
            ),
            None => post == pre,
        }
    }
}

/// The select-all flag flipped, and the whole tree set to it.
pub open spec fn select_all_effect(pre: App, post: App) -> bool {
    let flipped = App { select_all: !pre.select_all, ..pre };
    match pre.tree {
        Some(t) => tree_now(post, flipped, with_selection(t@, !pre.select_all)),
        None => post == flipped,
    }
}

/// The files selected in the open pair, asked for before a dry run or a
/// sync: none selected sets a status message instead.
pub open spec fn request_effect(pre: App, post: App, req: Option<SyncRequest>) -> bool {
    match (pre.tree, pre.current_pair) {
        (Some(t), Some(p)) => if selected_files(t@).len() == 0 {
            &&& post == App { status_msg: post.status_msg, ..pre }
            &&& post.status_msg@ == "no files selected"@
            &&& req is None
        } else {
            &&& post == pre
            &&& req matches Some(q) && q.local == p.local && q.remote == p.remote && views(q.files@)
                == selected_files(t@)
        },
        _ => post == pre && req is None,
    }
}

/// The request that an action hands to rsync, if any.
pub open spec fn requested(act: Action) -> Option<SyncRequest> {
    match act {
        Action::DryRun(q) => Some(q),
        Action::Sync(q) => Some(q),
        _ => None,
    }
}

/// The help screen shown, remembering the screen to go back to.
pub open spec fn help_effect(pre: App, post: App) -> bool {
    post == App { previous_mode: Some(pre.mode), mode: Mode::Help, ..pre }
}

/// The add-pair form opened, empty, on its first field, for the local file.
pub open spec fn start_add_effect(pre: App, post: App) -> bool {
    &&& post == App {
        mode: Mode::AddPair,
        add_pair_focus: 0,
        add_pair_scope: PairSource::Local,
        add_pair_name: post.add_pair_name,
        add_pair_local: post.add_pair_local,
        add_pair_remote: post.add_pair_remote,
        status_msg: post.status_msg,
        ..pre
    }
    &&& post.add_pair_name@.len() == 0
    &&& post.add_pair_local@.len() == 0
    &&& post.add_pair_remote@.len() == 0
    &&& post.status_msg@.len() == 0
}

/// The effect of a key on the pair list.
pub open spec fn pair_list_effect(pre: App, post: App, key: KeyInput, act: Action) -> bool {
    let n = pre.pairs@.len();
    let i = pre.pair_index;
    if !key.pressed {
        post == pre && act is Nothing
    } else if is_char(key, 'q') || key.key == Key::Esc {
        post == App { should_quit: true, ..pre } && act is Nothing
    } else if is_char(key, '?') {
        help_effect(pre, post) && act is Nothing
    } else if is_char(key, 'j') || key.key == Key::Down {
        post == App {
            pair_index: if n > 0 && i < n - 1 {
                (i + 1) as usize
            } else {
                i
            },
            ..pre
        } && act is Nothing
    } else if is_char(key, 'k') || key.key == Key::Up {
        post == App {
            pair_index: if i > 0 {
                (i - 1) as usize
            } else {
                i
            },
            ..pre
        } && act is Nothing
    } else if key.key == Key::Enter {
        post == pre && if i < n {
            act matches Action::OpenPair(p) && p == pre.pairs@[i as int].pair
        } else {
            act is Nothing
        }
    } else if is_char(key, 'd') {
        post == pre && if i < n {
            act matches Action::RemovePair(name, source) && name == pre.pairs@[i as int].pair.name
                && source == pre.pairs@[i as int].source
        } else {
            act is Nothing
        }
    } else if is_char(key, 'a') {
        start_add_effect(pre, post) && act is Nothing
    } else {
        post == pre && act is Nothing
    }
}

/// The effect of a key on the file tree.
pub open spec fn file_tree_effect(pre: App, post: App, key: KeyInput, act: Action) -> bool {
    if !key.pressed {
        post == pre && act is Nothing
    } else if is_char(key, 'q') || key.key == Key::Esc {
        &&& post == App {
            current_pair: None,
            tree: None,
            tree_items: post.tree_items,
            tree_cursor: 0,
            mode: Mode::PairList,
            status_msg: post.status_msg,
            ..pre
        }
        &&& post.tree_items@.len() == 0
        &&& post.status_msg@.len() == 0
        &&& act is Nothing
    } else if is_char(key, '?') {
        help_effect(pre, post) && act is Nothing
    } else if is_char(key, 'j') || key.key == Key::Down {
        cursor_down_effect(pre, post) && act is Nothing
    } else if is_char(key, 'k') || key.key == Key::Up {
        cursor_up_effect(pre, post) && act is Nothing
    } else if is_char(key, ' ') {
        toggle_row_effect(pre, post, false) && act is Nothing
    } else if key.key == Key::Enter {
        toggle_row_effect(pre, post, true) && act is Nothing
    } else if is_char(key, 'a') {
        select_all_effect(pre, post) && act is Nothing
    } else if is_char(key, 's') {
        (act is Nothing || act is DryRun) && request_effect(pre, post, requested(act))
    } else {
        post == pre && act is Nothing
    }
}

/// The effect of a key on the sync preview.
pub open spec fn preview_effect(pre: App, post: App, key: KeyInput, act: Action) -> bool {
    if !key.pressed {
        post == pre && act is Nothing
    } else if is_char(key, 'y') {
        (act is Nothing || act is Sync) && request_effect(pre, post, requested(act))
    } else if is_char(key, 'n') || key.key == Key::Esc {
        &&& post == App {
            mode: Mode::FileTree,
            dry_run_output: post.dry_run_output,
            sync_command: post.sync_command,
            ..pre
        }
        &&& post.dry_run_output@.len() == 0
        &&& post.sync_command@.len() == 0
        &&& act is Nothing
    } else if is_char(key, '?') {
        help_effect(pre, post) && act is Nothing
    } else {
        post == pre && act is Nothing
    }
}

/// The effect of a key on the sync result screen.
pub open spec fn progress_effect(pre: App, post: App, key: KeyInput, act: Action) -> bool {
    if !key.pressed {
        post == pre && act is Nothing
    } else if key.key == Key::Enter || key.key == Key::Esc || is_char(key, 'q') {
        &&& post == App {
            current_pair: None,
            tree: None,
            tree_items: post.tree_items,
            tree_cursor: 0,
            dry_run_output: post.dry_run_output,
            sync_output: post.sync_output,
            sync_error: false,
            mode: Mode::PairList,
            status_msg: post.status_msg,
            ..pre
        }
        &&& post.tree_items@.len() == 0
        &&& post.dry_run_output@.len() == 0
        &&& post.sync_output@.len() == 0
        &&& post.status_msg@.len() == 0
        &&& act is ReloadPairs
    } else if is_char(key, '?') {
        help_effect(pre, post) && act is Nothing
    } else {
        post == pre && act is Nothing
    }
}

/// The password taken for sending, when a session waits for one; the
/// buffer is left empty.
pub open spec fn submit_effect(pre: App, post: App, act: Action) -> bool {
    if pre.awaiting_password {
        &&& post == App { awaiting_password: false, password_buffer: post.password_buffer, ..pre }
        &&& post.password_buffer@.len() == 0
        &&& act matches Action::SubmitPassword(pw) && pw == pre.password_buffer
    } else {
        post == pre && act is Nothing
    }
}

/// The password prompt given up: back to the preview.
pub open spec fn cancel_effect(pre: App, post: App) -> bool {
    &&& post == App {
        awaiting_password: false,
        password_buffer: post.password_buffer,
        mode: Mode::SyncPreview,
        status_msg: post.status_msg,
        ..pre
    }
    &&& post.password_buffer@.len() == 0
    &&& post.status_msg@ == "sync cancelled"@
}

/// The effect of a key on the password prompt.
pub open spec fn password_effect(pre: App, post: App, key: KeyInput, act: Action) -> bool {
    if !key.pressed {
        post == pre && act is Nothing
    } else if key.key == Key::Enter {
        submit_effect(pre, post, act)
    } else if key.key == Key::Esc {
        cancel_effect(pre, post) && act is DropSession
    } else if key.key is Char {
        &&& post == App { password_buffer: post.password_buffer, ..pre }
        &&& post.password_buffer@ == pre.password_buffer@.push(key.key->Char_0)
        &&& act is Nothing
    } else if key.key == Key::Backspace {
        &&& post == App { password_buffer: post.password_buffer, ..pre }
        &&& post.password_buffer@ == if pre.password_buffer@.len() == 0 {
            pre.password_buffer@
        } else {
            pre.password_buffer@.drop_last()
        }
        &&& act is Nothing
    } else {
        post == pre && act is Nothing
    }
}

/// The text of the form field with the given number, before and after.
pub open spec fn field_changed(pre: App, post: App, focus: usize, f: spec_fn(Seq<char>) -> Seq<char>) -> bool {
    if focus == 0 {
        post == App { add_pair_name: post.add_pair_name, ..pre } && post.add_pair_name@ == f(
            pre.add_pair_name@,
        )
    } else if focus == 1 {
        post == App { add_pair_local: post.add_pair_local, ..pre } && post.add_pair_local@ == f(
            pre.add_pair_local@,
        )
    } else if focus == 2 {
        post == App { add_pair_remote: post.add_pair_remote, ..pre } && post.add_pair_remote@
            == f(pre.add_pair_remote@)
    } else {
        post == pre
    }
}

/// The form handed over for adding when all three fields are filled in;
/// else a status message.
pub open spec fn add_form_effect(pre: App, post: App, act: Action) -> bool {
    if pre.add_pair_name@.len() == 0 || pre.add_pair_local@.len() == 0
        || pre.add_pair_remote@.len() == 0 {
        &&& post == App { status_msg: post.status_msg, ..pre }
        &&& post.status_msg@ == "name, local and remote are required"@
        &&& act is Nothing
    } else {
        &&& post == pre
        &&& act matches Action::AddPair(p, s) && p.name == pre.add_pair_name && p.local
            == pre.add_pair_local && p.remote == pre.add_pair_remote && s == pre.add_pair_scope
    }
}

/// The effect of a key on the add-pair form.
pub open spec fn add_pair_effect(pre: App, post: App, key: KeyInput, act: Action) -> bool {
    if !key.pressed {
        post == pre && act is Nothing
    } else if key.key == Key::Esc {
        post == App { mode: Mode::PairList, status_msg: post.status_msg, ..pre }
            && post.status_msg@.len() == 0 && act is Nothing
    } else if key.key == Key::Tab {
        post == App { add_pair_focus: ((pre.add_pair_focus % 4 + 1) % 4) as usize, ..pre }
            && act is Nothing
    } else if key.key == Key::BackTab {
        post == App { add_pair_focus: ((pre.add_pair_focus % 4 + 3) % 4) as usize, ..pre }
            && act is Nothing
    } else if key.key == Key::Enter {
        add_form_effect(pre, post, act)
    } else if is_char(key, ' ') && pre.add_pair_focus == 3 {
        post == App {
            add_pair_scope: match pre.add_pair_scope {
                PairSource::Local => PairSource::Global,
                PairSource::Global => PairSource::Local,
            },
            ..pre
        } && act is Nothing
    } else if key.key is Char {
        field_changed(pre, post, pre.add_pair_focus, |s: Seq<char>| s.push(key.key->Char_0))
            && act is Nothing
    } else if key.key == Key::Backspace {
        field_changed(
            pre,
            post,
            pre.add_pair_focus,
            |s: Seq<char>|
                if s.len() == 0 {
                    s
                } else {
                    s.drop_last()
                },
        ) && act is Nothing
    } else if key.key == Key::Delete {
        field_changed(pre, post, pre.add_pair_focus, |s: Seq<char>| Seq::<char>::empty())
            && act is Nothing
    } else {
        post == pre && act is Nothing
    }
}

/// The effect of a key on the help screen: `q` and Esc go back.
pub open spec fn help_key_effect(pre: App, post: App, key: KeyInput, act: Action) -> bool {
    if is_char(key, 'q') || key.key == Key::Esc {
        post == App {
            mode: match pre.previous_mode {
                Some(m) => m,
                None => Mode::PairList,
            },
            ..pre
        } && act is Nothing
    } else {
        post == pre && act is Nothing
    }
}

/// The effect of a key, on whatever screen is shown.
pub open spec fn key_effect(pre: App, post: App, key: KeyInput, act: Action) -> bool {
    match pre.mode {
        Mode::PairList => pair_list_effect(pre, post, key, act),
        Mode::FileTree => file_tree_effect(pre, post, key, act),
        Mode::SyncPreview => preview_effect(pre, post, key, act),
        Mode::SyncProgress => progress_effect(pre, post, key, act),
        Mode::PasswordInput => password_effect(pre, post, key, act),
        Mode::Help => help_key_effect(pre, post, key, act),
        Mode::AddPair => add_pair_effect(pre, post, key, act),
    }
}

/// The pair that the interface opens when it starts on `name`: the first
/// pair of that name, or the message that no pair has it.
pub fn initial_pair(pairs: &Vec<TaggedPair>, name: &String) -> (r: Result<Pair, String>)
    ensures
        ({
            let j = first_accepted(pairs@, name@, false);
            &&& j >= 0 ==> r == Ok::<Pair, String>(pairs@[j].pair)
            &&& j < 0 ==> (r matches Err(m) && m@ == "pair '"@ + name@ + "' not found"@)
        }),
{
    match find_accepted(pairs, name, false) {
        Some(j) => Ok(pairs[j].pair.copy()),
        None => Err(String::from_str("pair '").concat(name.as_str()).concat("' not found")),
    }
}

impl App {
    /// The rows of the tree are those of the tree as it is.
    pub open spec fn wf(&self) -> bool {
        rows_match(self.tree, self.tree_items@)
    }

    /// The interface on the pair list, with the given pairs.
    pub fn new(pairs: Vec<TaggedPair>) -> (r: App)
        ensures
            r.wf(),
            r.mode == Mode::PairList,
            r.previous_mode is None,
            r.pairs == pairs,
            r.pair_index == 0,
            r.current_pair is None,
            r.tree is None,
            r.tree_items@.len() == 0,
            r.tree_cursor == 0,
            r.tree_scroll == 0,
            r.dry_run_output@.len() == 0,
            r.sync_command@.len() == 0,
            r.sync_output@.len() == 0,
            !r.sync_error,
            r.status_msg@.len() == 0,
            !r.should_quit,
            !r.select_all,
            !r.awaiting_password,
            r.password_buffer@.len() == 0,
            r.add_pair_name@.len() == 0,
            r.add_pair_local@.len() == 0,
            r.add_pair_remote@.len() == 0,
            r.add_pair_focus == 0,
            r.add_pair_scope == PairSource::Local,
    {
        App {
            mode: Mode::PairList,
            previous_mode: None,
            pairs,
            pair_index: 0,
            current_pair: None,
            tree: None,
            tree_items: Vec::new(),
            tree_cursor: 0,
            tree_scroll: 0,
            dry_run_output: String::new(),
            sync_command: String::new(),
            sync_output: String::new(),
            sync_error: false,
            status_msg: String::new(),
            should_quit: false,
            select_all: false,
            awaiting_password: false,
            password_buffer: String::new(),
            add_pair_name: String::new(),
            add_pair_local: String::new(),
            add_pair_remote: String::new(),
            add_pair_focus: 0,
            add_pair_scope: PairSource::Local,
        }
    }

    fn refresh_rows(&mut self)
        requires
            old(self).tree matches Some(t) && height(t@) <= usize::MAX,
        ensures
            *final(self) == (App { tree_items: final(self).tree_items, ..*old(self) }),
            final(self).wf(),
    {
        let mut items: Vec<(usize, FileNode)> = Vec::new();
        match &self.tree {
            Some(t) => {
                flatten_tree_for_display(t, 0, &mut items);
                assert(item_views(items@) =~= display_items(t@, 0));
            },
            None => {},
        }
        self.tree_items = items;
    }

    /// Shows the file tree of `pair`, built from its local directory, with
    /// the cursor on the first row.
    pub fn open_pair(&mut self, pair: Pair, tree: FileNode)
        requires
            height(tree@) <= usize::MAX,
        ensures
            final(self).wf(),
            *final(self) == (App {
                mode: Mode::FileTree,
                current_pair: Some(pair),
                tree: Some(tree),
                tree_items: final(self).tree_items,
                tree_cursor: 0,
                tree_scroll: 0,
                status_msg: final(self).status_msg,
                ..*old(self)
            }),
            final(self).status_msg@.len() == 0,
    {
        self.current_pair = Some(pair);
        self.tree = Some(tree);
        self.refresh_rows();
        self.tree_cursor = 0;
        self.tree_scroll = 0;
        self.mode = Mode::FileTree;
        self.status_msg = String::new();
    }

    /// Reports a failure of outside work in the status line.
    pub fn show_error(&mut self, message: &str)
        ensures
            *final(self) == (App { status_msg: final(self).status_msg, ..*old(self) }),
            final(self).status_msg@ == "error: "@ + message@,
    {
        self.status_msg = String::from_str("error: ").concat(message);
    }

    /// Toggles the selection of the node under the cursor (for a directory,
    /// with everything below it).
    pub fn toggle_tree_item(&mut self)
        requires
            old(self).wf(),
        ensures
            final(self).wf(),
            toggle_row_effect(*old(self), *final(self), false),
    {
        self.toggle_row(false);
    }

    /// Expands or collapses the directory under the cursor; on a file, it
    /// toggles the selection.
    pub fn toggle_expand(&mut self)
        requires
            old(self).wf(),
        ensures
            final(self).wf(),
            toggle_row_effect(*old(self), *final(self), true),
    {
        self.toggle_row(true);
    }

    fn toggle_row(&mut self, expand: bool)
        requires
            old(self).wf(),
        ensures
            final(self).wf(),
            toggle_row_effect(*old(self), *final(self), expand),
    {
        if self.tree_items.len() == 0 || self.tree_cursor >= self.tree_items.len() {
            return;
        }
        let cursor = self.tree_cursor;
        let rel_path = self.tree_items[cursor].1.relative_path.clone();
        let is_dir = self.tree_items[cursor].1.is_dir;
        let mut tree = None;
        std::mem::swap(&mut tree, &mut self.tree);
        match tree {
            Some(mut t) => {
                let ghost before = t@;
                toggle_node_by_path(&mut t, &rel_path, is_dir, expand);
                proof {
                    lemma_height_toggled(before, rel_path@, expand);
                }
                self.tree = Some(t);
                self.refresh_rows();
            },
            None => {},
        }
    }

    /// Flips the select-all flag and sets the selection of the whole tree
    /// to it.
    pub fn toggle_select_all(&mut self)
        requires
            old(self).wf(),
        ensures
            final(self).wf(),
            select_all_effect(*old(self), *final(self)),
    {
        self.select_all = !self.select_all;
        let sel = self.select_all;
        let mut tree = None;
        std::mem::swap(&mut tree, &mut self.tree);
        match tree {
            Some(mut t) => {
                let ghost before = t@;
                t.select_all(sel);
                proof {
                    lemma_height_with_selection(before, sel);
                }
                self.tree = Some(t);
                self.refresh_rows();
            },
            None => {},
        }
    }

    /// Moves the cursor one row down, unless it is on the last row.
    pub fn tree_cursor_down(&mut self)
        ensures
            cursor_down_effect(*old(self), *final(self)),
    {
        if self.tree_items.len() > 0 && self.tree_cursor < self.tree_items.len() - 1 {
            self.tree_cursor = self.tree_cursor + 1;
        }
    }

    /// Moves the cursor one row up, unless it is on the first row.
    pub fn tree_cursor_up(&mut self)
        ensures
            cursor_up_effect(*old(self), *final(self)),
    {
        if self.tree_cursor > 0 {
            self.tree_cursor = self.tree_cursor - 1;
        }
    }

    fn selection_request(&mut self) -> (r: Option<SyncRequest>)
        ensures
            request_effect(*old(self), *final(self), r),
    {
        match (&self.tree, &self.current_pair) {
            (Some(t), Some(p)) => {
                let files = t.collect_selected();
                if files.len() == 0 {
                    self.status_msg = String::from_str("no files selected");
                    None
                } else {
                    Some(SyncRequest { local: p.local.clone(), remote: p.remote.clone(), files })
                }
            },
            _ => None,
        }
    }

    /// The dry run of the selected files of the open pair, or `None` when
    /// nothing is selected (which the status line then says).
    pub fn do_dry_run(&mut self) -> (r: Option<SyncRequest>)
        ensures
            request_effect(*old(self), *final(self), r),
    {
        self.selection_request()
    }

    /// The sync of the selected files of the open pair, or `None` when
    /// nothing is selected (which the status line then says).
    pub fn do_sync(&mut self) -> (r: Option<SyncRequest>)
        ensures
            request_effect(*old(self), *final(self), r),
    {
        self.selection_request()
    }

    /// Shows what a dry run of `request` reported: its output and the
    /// command, or, when the remote wants a password, a note that a prompt
    /// will follow; any other error goes to the status line.
    pub fn finish_dry_run(&mut self, request: &SyncRequest, result: Result<String, SyncError>)
        ensures
            match result {
                Ok(out) => *final(self) == (App {
                    dry_run_output: out,
                    sync_command: final(self).sync_command,
                    mode: Mode::SyncPreview,
                    status_msg: final(self).status_msg,
                    ..*old(self)
                }) && final(self).sync_command@ == command_display(
                    request.local@,
                    request.remote@,
                    views(request.files@),
                ) && final(self).status_msg@.len() == 0,
                Err(SyncError::AuthRequired) => *final(self) == (App {
                    dry_run_output: final(self).dry_run_output,
                    sync_command: final(self).sync_command,
                    mode: Mode::SyncPreview,
                    status_msg: final(self).status_msg,
                    ..*old(self)
                }) && final(self).dry_run_output@ == auth_preview_text()
                    && final(self).sync_command@ == command_display(
                    request.local@,
                    request.remote@,
                    views(request.files@),
                ) && final(self).status_msg@.len() == 0,
                Err(SyncError::Other(msg)) => *final(self) == (App {
                    status_msg: final(self).status_msg,
                    ..*old(self)
                }) && final(self).status_msg@ == "dry-run error: "@ + msg@,
            },
    {
        match result {
            Ok(out) => {
                self.dry_run_output = out;
                self.sync_command = build_command_display(
                    request.local.as_str(),
                    request.remote.as_str(),
                    &request.files,
                );
                self.mode = Mode::SyncPreview;
                self.status_msg = String::new();
            },
            Err(SyncError::AuthRequired) => {
                self.dry_run_output = String::from_str(
                    "Authentication required: SSH key not configured for this remote.\n\nYou can still proceed \u{2014} a password prompt will appear when you confirm sync.",
                );
                self.sync_command = build_command_display(
                    request.local.as_str(),
                    request.remote.as_str(),
                    &request.files,
                );
                self.mode = Mode::SyncPreview;
                self.status_msg = String::new();
            },
            Err(SyncError::Other(msg)) => {
                self.status_msg = String::from_str("dry-run error: ").concat(msg.as_str());
            },
        }
    }

    fn show_result(&mut self, result: SyncResult)
        ensures
            *final(self) == (App {
                sync_output: result.output,
                sync_error: !result.success,
                mode: Mode::SyncProgress,
                status_msg: final(self).status_msg,
                ..*old(self)
            }),
            final(self).status_msg@.len() == 0,
    {
        self.sync_output = result.output;
        self.sync_error = !result.success;
        self.mode = Mode::SyncProgress;
        self.status_msg = String::new();
    }

    fn show_failure(&mut self, msg: String)
        ensures
            *final(self) == (App {
                sync_output: msg,
                sync_error: true,
                mode: Mode::SyncProgress,
                ..*old(self)
            }),
    {
        self.sync_output = msg;
        self.sync_error = true;
        self.mode = Mode::SyncProgress;
    }

    fn show_auth_fallback(&mut self)
        ensures
            *final(self) == (App {
                sync_output: final(self).sync_output,
                sync_error: true,
                mode: Mode::SyncProgress,
                ..*old(self)
            }),
            final(self).sync_output@ == auth_fallback_text(),
    {
        self.sync_output = String::from_str(
            "Authentication failed: SSH key not configured and interactive\nterminal (PTY) is not available in this environment.\n\nPlease configure SSH key-based authentication:\n\nssh-keygen -t ed25519\nssh-copy-id <remote>",
        );
        self.sync_error = true;
        self.mode = Mode::SyncProgress;
    }

    /// Shows the result of a sync; returns `true`, with nothing changed,
    /// when the remote wants a password, so that the sync is to be run
    /// again in a session that can ask for one.
    pub fn finish_sync(&mut self, result: Result<SyncResult, SyncError>) -> (retry: bool)
        ensures
            match result {
                Ok(res) => !retry && *final(self) == (App {
                    sync_output: res.output,
                    sync_error: !res.success,
                    mode: Mode::SyncProgress,
                    status_msg: final(self).status_msg,
                    ..*old(self)
                }) && final(self).status_msg@.len() == 0,
                Err(SyncError::AuthRequired) => retry && *final(self) == *old(self),
                Err(SyncError::Other(msg)) => !retry && *final(self) == (App {
                    sync_output: msg,
                    sync_error: true,
                    mode: Mode::SyncProgress,
                    ..*old(self)
                }),
            },
    {
        match result {
            Ok(res) => {
                self.show_result(res);
                false
            },
            Err(SyncError::AuthRequired) => true,
            Err(SyncError::Other(msg)) => {
                self.show_failure(msg);
                false
            },
        }
    }

    /// Shows what a sync in an interactive session came to: a password
    /// prompt, the result, or the error (for an authentication failure, a
    /// note on setting up keys).
    pub fn finish_interactive_sync(&mut self, result: Result<SyncStep, SyncError>)
        ensures
            match result {
                Ok(SyncStep::NeedPassword) => *final(self) == (App {
                    awaiting_password: true,
                    password_buffer: final(self).password_buffer,
                    mode: Mode::PasswordInput,
                    ..*old(self)
                }) && final(self).password_buffer@.len() == 0,
                Ok(SyncStep::Done(res)) => *final(self) == (App {
                    sync_output: res.output,
                    sync_error: !res.success,
                    mode: Mode::SyncProgress,
                    status_msg: final(self).status_msg,
                    ..*old(self)
                }) && final(self).status_msg@.len() == 0,
                Err(SyncError::AuthRequired) => *final(self) == (App {
                    sync_output: final(self).sync_output,
                    sync_error: true,
                    mode: Mode::SyncProgress,
                    ..*old(self)
                }) && final(self).sync_output@ == auth_fallback_text(),
                Err(SyncError::Other(msg)) => *final(self) == (App {
                    sync_output: msg,
                    sync_error: true,
                    mode: Mode::SyncProgress,
                    ..*old(self)
                }),
            },
    {
        match result {
            Ok(SyncStep::NeedPassword) => {
                self.awaiting_password = true;
                self.password_buffer = String::new();
                self.mode = Mode::PasswordInput;
            },
            Ok(SyncStep::Done(res)) => self.show_result(res),
            Err(SyncError::AuthRequired) => self.show_auth_fallback(),
            Err(SyncError::Other(msg)) => self.show_failure(msg),
        }
    }

    /// The typed password, taken for sending when a session waits for one;
    /// the buffer is left empty.
    pub fn submit_password(&mut self) -> (r: Option<String>)
        ensures
            old(self).awaiting_password ==> r == Some(old(self).password_buffer) && *final(self)
                == (App {
                awaiting_password: false,
                password_buffer: final(self).password_buffer,
                ..*old(self)
            }) && final(self).password_buffer@.len() == 0,
            !old(self).awaiting_password ==> r is None && *final(self) == *old(self),
    {
        if !self.awaiting_password {
            return None;
        }
        self.awaiting_password = false;
        let mut password = String::new();
        std::mem::swap(&mut password, &mut self.password_buffer);
        Some(password)
    }

    /// Shows what the session came to after the password was sent: the
    /// result, a new prompt when the password was refused, or the error.
    pub fn finish_password(&mut self, result: Result<SyncStep, SyncError>)
        ensures
            final(self).password_buffer@.len() == 0,
            match result {
                Ok(SyncStep::NeedPassword) => *final(self) == (App {
                    awaiting_password: true,
                    password_buffer: final(self).password_buffer,
                    mode: Mode::PasswordInput,
                    ..*old(self)
                }),
                Ok(SyncStep::Done(res)) => *final(self) == (App {
                    sync_output: res.output,
                    sync_error: !res.success,
                    mode: Mode::SyncProgress,
                    password_buffer: final(self).password_buffer,
                    ..*old(self)
                }),
                Err(e) => *final(self) == (App {
                    sync_output: final(self).sync_output,
                    sync_error: true,
                    mode: Mode::SyncProgress,
                    password_buffer: final(self).password_buffer,
                    ..*old(self)
                }) && final(self).sync_output@ == error_message(e),
            },
    {
        self.password_buffer = String::new();
        match result {
            Ok(SyncStep::NeedPassword) => {
                self.awaiting_password = true;
                self.mode = Mode::PasswordInput;
            },
            Ok(SyncStep::Done(res)) => {
                self.sync_output = res.output;
                self.sync_error = !res.success;
                self.mode = Mode::SyncProgress;
            },
            Err(e) => {
                self.sync_output = e.message();
                self.sync_error = true;
                self.mode = Mode::SyncProgress;
            },
        }
    }

    /// Gives up the password prompt and goes back to the preview.
    pub fn cancel_password(&mut self)
        ensures
            cancel_effect(*old(self), *final(self)),
    {
        self.awaiting_password = false;
        self.password_buffer = String::new();
        self.mode = Mode::SyncPreview;
        self.status_msg = String::from_str("sync cancelled");
    }

    /// Opens the add-pair form, empty, on its first field.
    pub fn start_add_pair(&mut self)
        ensures
            start_add_effect(*old(self), *final(self)),
    {
        self.add_pair_name = String::new();
        self.add_pair_local = String::new();
        self.add_pair_remote = String::new();
        self.add_pair_focus = 0;
        self.add_pair_scope = PairSource::Local;
        self.status_msg = String::new();
        self.mode = Mode::AddPair;
    }

    /// The pair of the add-pair form, and the file to add it to, when all
    /// three fields are filled in; else the status line says so.
    pub fn add_pair_from_form(&mut self) -> (r: Option<(Pair, PairSource)>)
        ensures
            match r {
                Some((p, s)) => add_form_effect(*old(self), *final(self), Action::AddPair(p, s)),
                None => add_form_effect(*old(self), *final(self), Action::Nothing),
            },
    {
        if self.add_pair_name.as_str().is_empty() || self.add_pair_local.as_str().is_empty()
            || self.add_pair_remote.as_str().is_empty() {
            self.status_msg = String::from_str("name, local and remote are required");
            return None;
        }
        Some(
            (
                Pair {
                    name: self.add_pair_name.clone(),
                    local: self.add_pair_local.clone(),
                    remote: self.add_pair_remote.clone(),
                },
                self.add_pair_scope,
            ),
        )
    }

    /// Replaces the pairs; the cursor stays where it was.
    pub fn set_pairs(&mut self, pairs: Vec<TaggedPair>)
        ensures
            *final(self) == (App { pairs, ..*old(self) }),
    {
        self.pairs = pairs;
    }

    /// Shows the outcome of adding `name` to the `source` file: with the
    /// reloaded pairs, back on the pair list; else the error.
    pub fn finish_add_pair(
        &mut self,
        name: &String,
        source: PairSource,
        result: Result<Vec<TaggedPair>, String>,
    )
        ensures
            match result {
                Ok(pairs) => *final(self) == (App {
                    pairs,
                    mode: Mode::PairList,
                    status_msg: final(self).status_msg,
                    ..*old(self)
                }) && final(self).status_msg@ == "added pair '"@ + name@ + "' to "@ + scope_word(
                    source,
                ) + " config"@,
                Err(msg) => *final(self) == (App { status_msg: final(self).status_msg, ..*old(self) })
                    && final(self).status_msg@ == "error: "@ + msg@,
            },
    {
        match result {
            Ok(pairs) => {
                self.set_pairs(pairs);
                self.mode = Mode::PairList;
                self.status_msg = String::from_str("added pair '").concat(name.as_str()).concat(
                    "' to ",
                ).concat(scope_label(source).as_str()).concat(" config");
            },
            Err(msg) => self.show_error(msg.as_str()),
        }
    }

    /// Shows the outcome of removing `name` from the `source` file: the
    /// reloaded pairs and a note, or the error.
    pub fn finish_remove_pair(
        &mut self,
        name: &String,
        source: PairSource,
        result: Result<Vec<TaggedPair>, String>,
    )
        ensures
            match result {
                Ok(pairs) => *final(self) == (App {
                    pairs,
                    status_msg: final(self).status_msg,
                    ..*old(self)
                }) && final(self).status_msg@ == "deleted pair '"@ + name@ + "' from "@
                    + scope_word(source) + " config"@,
                Err(msg) => *final(self) == (App { status_msg: final(self).status_msg, ..*old(self) })
                    && final(self).status_msg@ == "error: "@ + msg@,
            },
    {
        match result {
            Ok(pairs) => {
                self.set_pairs(pairs);
                self.status_msg = String::from_str("deleted pair '").concat(name.as_str()).concat(
                    "' from ",
                ).concat(scope_label(source).as_str()).concat(" config");
            },
            Err(msg) => self.show_error(msg.as_str()),
        }
    }

    fn show_help(&mut self)
        ensures
            help_effect(*old(self), *final(self)),
    {
        self.previous_mode = Some(self.mode);
        self.mode = Mode::Help;
    }

    /// Handles a key on the pair list.
    pub fn handle_pair_list_key(&mut self, key: KeyInput) -> (act: Action)
        ensures
            pair_list_effect(*old(self), *final(self), key, act),
    {
        if !key.pressed {
            return Action::Nothing;
        }
        let n = self.pairs.len();
        match key.key {
            Key::Char('q') | Key::Esc => {
                self.should_quit = true;
                Action::Nothing
            },
            Key::Char('?') => {
                self.show_help();
                Action::Nothing
            },
            Key::Char('j') | Key::Down => {
                if n > 0 && self.pair_index < n - 1 {
                    self.pair_index = self.pair_index + 1;
                }
                Action::Nothing
            },
            Key::Char('k') | Key::Up => {
                if self.pair_index > 0 {
                    self.pair_index = self.pair_index - 1;
                }
                Action::Nothing
            },
            Key::Enter => {
                if self.pair_index < n {
                    Action::OpenPair(self.pairs[self.pair_index].pair.copy())
                } else {
                    Action::Nothing
                }
            },
            Key::Char('d') => {
                if self.pair_index < n {
                    let tp = &self.pairs[self.pair_index];
                    Action::RemovePair(tp.pair.name.clone(), tp.source)
                } else {
                    Action::Nothing
                }
            },
            Key::Char('a') => {
                self.start_add_pair();
                Action::Nothing
            },
            _ => Action::Nothing,
        }
    }

    /// Handles a key on the file tree.
    pub fn handle_file_tree_key(&mut self, key: KeyInput) -> (act: Action)
        requires
            old(self).wf(),
        ensures
            final(self).wf(),
            file_tree_effect(*old(self), *final(self), key, act),
    {
        if !key.pressed {
            return Action::Nothing;
        }
        match key.key {
            Key::Char('q') | Key::Esc => {
                self.current_pair = None;
                self.tree = None;
                self.tree_items = Vec::new();
                self.tree_cursor = 0;
                self.mode = Mode::PairList;
                self.status_msg = String::new();
                Action::Nothing
            },
            Key::Char('?') => {
                self.show_help();
                Action::Nothing
            },
            Key::Char('j') | Key::Down => {
                self.tree_cursor_down();
                Action::Nothing
            },
            Key::Char('k') | Key::Up => {
                self.tree_cursor_up();
                Action::Nothing
            },
            Key::Char(' ') => {
                self.toggle_tree_item();
                Action::Nothing
            },
            Key::Enter => {
                self.toggle_expand();
                Action::Nothing
            },
            Key::Char('a') => {
                self.toggle_select_all();
                Action::Nothing
            },
            Key::Char('s') => match self.do_dry_run() {
                Some(q) => Action::DryRun(q),
                None => Action::Nothing,
            },
            _ => Action::Nothing,
        }
    }

    /// Handles a key on the sync preview.
    pub fn handle_preview_key(&mut self, key: KeyInput) -> (act: Action)
        ensures
            preview_effect(*old(self), *final(self), key, act),
    {
        if !key.pressed {
            return Action::Nothing;
        }
        match key.key {
            Key::Char('y') => match self.do_sync() {
                Some(q) => Action::Sync(q),
                None => Action::Nothing,
            },
            Key::Char('n') | Key::Esc => {
                self.mode = Mode::FileTree;
                self.dry_run_output = String::new();
                self.sync_command = String::new();
                Action::Nothing
            },
            Key::Char('?') => {
                self.show_help();
                Action::Nothing
            },
            _ => Action::Nothing,
        }
    }

    /// Handles a key on the sync result screen.
    pub fn handle_progress_key(&mut self, key: KeyInput) -> (act: Action)
        ensures
            progress_effect(*old(self), *final(self), key, act),
    {
        if !key.pressed {
            return Action::Nothing;
        }
        match key.key {
            Key::Enter | Key::Esc | Key::Char('q') => {
                self.current_pair = None;
                self.tree = None;
                self.tree_items = Vec::new();
                self.tree_cursor = 0;
                self.dry_run_output = String::new();
                self.sync_output = String::new();
                self.sync_error = false;
                self.mode = Mode::PairList;
                self.status_msg = String::new();
                Action::ReloadPairs
            },
            Key::Char('?') => {
                self.show_help();
                Action::Nothing
            },
            _ => Action::Nothing,
        }
    }

    /// Handles a key on the password prompt.
    pub fn handle_password_key(&mut self, key: KeyInput) -> (act: Action)
        ensures
            password_effect(*old(self), *final(self), key, act),
    {
        if !key.pressed {
            return Action::Nothing;
        }
        match key.key {
            Key::Enter => match self.submit_password() {
                Some(pw) => Action::SubmitPassword(pw),
                None => Action::Nothing,
            },
            Key::Esc => {
                self.cancel_password();
                Action::DropSession
            },
            Key::Char(c) => {
                push_char(&mut self.password_buffer, c);
                Action::Nothing
            },
            Key::Backspace => {
                pop_char(&mut self.password_buffer);
                Action::Nothing
            },
            _ => Action::Nothing,
        }
    }

    /// Handles a key on the add-pair form.
    pub fn handle_add_pair_key(&mut self, key: KeyInput) -> (act: Action)
        ensures
            add_pair_effect(*old(self), *final(self), key, act),
    {
        if !key.pressed {
            return Action::Nothing;
        }
        match key.key {
            Key::Esc => {
                self.mode = Mode::PairList;
                self.status_msg = String::new();
                Action::Nothing
            },
            Key::Tab => {
                self.add_pair_focus = (self.add_pair_focus % 4 + 1) % 4;
                Action::Nothing
            },
            Key::BackTab => {
                self.add_pair_focus = (self.add_pair_focus % 4 + 3) % 4;
                Action::Nothing
            },
            Key::Enter => match self.add_pair_from_form() {
                Some((p, s)) => Action::AddPair(p, s),
                None => Action::Nothing,
            },
            Key::Char(c) => {
                if c == ' ' && self.add_pair_focus == 3 {
                    self.add_pair_scope = match self.add_pair_scope {
                        PairSource::Local => PairSource::Global,
                        PairSource::Global => PairSource::Local,
                    };
                } else if self.add_pair_focus == 0 {
                    push_char(&mut self.add_pair_name, c);
                } else if self.add_pair_focus == 1 {
                    push_char(&mut self.add_pair_local, c);
                } else if self.add_pair_focus == 2 {
                    push_char(&mut self.add_pair_remote, c);
                }
                Action::Nothing
            },
            Key::Backspace => {
                if self.add_pair_focus == 0 {
                    pop_char(&mut self.add_pair_name);
                } else if self.add_pair_focus == 1 {
                    pop_char(&mut self.add_pair_local);
                } else if self.add_pair_focus == 2 {
                    pop_char(&mut self.add_pair_remote);
                }
                Action::Nothing
            },
            Key::Delete => {
                if self.add_pair_focus == 0 {
                    self.add_pair_name = String::new();
                } else if self.add_pair_focus == 1 {
                    self.add_pair_local = String::new();
                } else if self.add_pair_focus == 2 {
                    self.add_pair_remote = String::new();
                }
                Action::Nothing
            },
            _ => Action::Nothing,
        }
    }

    /// Handles a key on the help screen.
    pub fn handle_help_key(&mut self, key: KeyInput) -> (act: Action)
        ensures
            help_key_effect(*old(self), *final(self), key, act),
    {
        match key.key {
            Key::Char('q') | Key::Esc => {
                self.mode = match self.previous_mode {
                    Some(m) => m,
                    None => Mode::PairList,
                };
                Action::Nothing
            },
            _ => Action::Nothing,
        }
    }

    /// Handles a key on whatever screen is shown, and names the outside work
    /// that is to follow.
    pub fn handle_key(&mut self, key: KeyInput) -> (act: Action)
        requires
            old(self).wf(),
        ensures
            final(self).wf(),
            key_effect(*old(self), *final(self), key, act),
    {
        match self.mode {
            Mode::PairList => self.handle_pair_list_key(key),
            Mode::FileTree => self.handle_file_tree_key(key),
            Mode::SyncPreview => self.handle_preview_key(key),
            Mode::SyncProgress => self.handle_progress_key(key),
            Mode::PasswordInput => self.handle_password_key(key),
            Mode::Help => self.handle_help_key(key),
            Mode::AddPair => self.handle_add_pair_key(key),
        }
    }

}

/// Moving the cursor down and then up again, when it is not on the last
/// row, brings back the same state.
pub proof fn cursor_down_up_round_trip(pre: App, mid: App, post: App)
    requires
        pre.tree_cursor + 1 < pre.tree_items.len(),
        cursor_down_effect(pre, mid),
        cursor_up_effect(mid, post),
    ensures
        post == pre,
{
    assert(mid.tree_cursor == pre.tree_cursor + 1);
    assert(post.tree_cursor == pre.tree_cursor);
    assert(pre == App { tree_cursor: pre.tree_cursor, ..pre });
}

/// Toggling the selection of the row under the cursor keeps the number of
/// rows and leaves the cursor on the same row.
pub proof fn selection_toggle_keeps_rows(pre: App, post: App)
    requires
        pre.wf(),
        toggle_row_effect(pre, post, false),
    ensures
        post.tree_items@.len() == pre.tree_items@.len(),
        post.tree_cursor == pre.tree_cursor,
{
    if pre.tree_cursor < pre.tree_items@.len() {
        if let Some(t) = pre.tree {
            let target = pre.tree_items@[pre.tree_cursor as int].1.relative_path@;
            selection_toggle_keeps_row_count(t@, target, 0);
            assert(item_views(post.tree_items@).len() == post.tree_items@.len());
            assert(item_views(pre.tree_items@).len() == pre.tree_items@.len());
        }
    }
}

/// Confirming the preview with `y` syncs from the open pair's local
/// directory to its remote, with exactly the selected files, and does so
/// whenever files are selected; with none selected nothing is handed to
/// rsync.
pub proof fn confirm_syncs_local_to_remote(pre: App, post: App, key: KeyInput, act: Action)
    requires
        pre.mode == Mode::SyncPreview,
        key.pressed,
        key.key == Key::Char('y'),
        key_effect(pre, post, key, act),
    ensures
        act matches Action::Sync(q) ==> (pre.current_pair matches Some(p) && q.local == p.local
            && q.remote == p.remote && (pre.tree matches Some(t) && views(q.files@) == selected_files(
            t@,
        ) && views(q.files@).len() > 0)),
        (pre.tree matches Some(t) && pre.current_pair is Some && selected_files(t@).len() > 0)
            ==> act is Sync,
        !(act is Sync) ==> act is Nothing,
{
}

/// The sync confirmed on the preview goes the same way as the dry run that
/// the file tree asked for on the same pair and selection: the same local
/// directory, the same remote and the same files.
pub proof fn confirm_matches_dry_run(
    tree_state: App,
    after_dry: App,
    s_key: KeyInput,
    dry: Action,
    preview_state: App,
    after_confirm: App,
    y_key: KeyInput,
    confirm: Action,
)
    requires
        tree_state.mode == Mode::FileTree,
        s_key.pressed,
        s_key.key == Key::Char('s'),
        key_effect(tree_state, after_dry, s_key, dry),
        dry is DryRun,
        preview_state.mode == Mode::SyncPreview,
        preview_state.tree == tree_state.tree,
        preview_state.current_pair == tree_state.current_pair,
        y_key.pressed,
        y_key.key == Key::Char('y'),
        key_effect(preview_state, after_confirm, y_key, confirm),
    ensures
        dry matches Action::DryRun(d) && confirm matches Action::Sync(c) && c.local == d.local
            && c.remote == d.remote && views(c.files@) == views(d.files@),
{
}

/// The cursor never moves past the last row: a cursor on a row stays on one.
pub proof fn cursor_stays_on_rows(pre: App, post: App)
    requires
        pre.tree_cursor < pre.tree_items@.len(),
        cursor_down_effect(pre, post) || cursor_up_effect(pre, post),
    ensures
        post.tree_cursor < post.tree_items@.len(),
{
}

/// Opening the help and closing it again returns to the screen it was
/// opened from.
pub proof fn help_round_trip(pre: App, mid: App, key: KeyInput, post: App, act: Action)
    requires
        help_effect(pre, mid),
        key.key == Key::Esc || is_char(key, 'q'),
        help_key_effect(mid, post, key, act),
    ensures
        post.mode == pre.mode,
        post == (App { previous_mode: Some(pre.mode), ..pre }),
{
}

/// Pressing select-all on a well-formed tree with nothing selected by it
/// before selects exactly the files of the tree; pressing it again leaves no
/// file selected.
pub proof fn select_all_key_selects_every_file(pre: App, mid: App, post: App)
    requires
        pre.tree matches Some(t) && crate::tree::well_formed(t@),
        !pre.select_all,
        select_all_effect(pre, mid),
        select_all_effect(mid, post),
    ensures
        ({
            let t = pre.tree->Some_0;
            &&& mid.tree matches Some(m) && selected_files(m@) == crate::tree::all_files(t@)
            &&& post.tree matches Some(e) && selected_files(e@).len() == 0
        }),
{
    let t = pre.tree->Some_0;
    crate::tree::select_all_selects_every_file(t@);
    crate::tree::selection_overrides(t@, true, false);
    crate::tree::deselect_all_clears(t@);
}

} // verus!
