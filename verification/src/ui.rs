//! What each screen shows, as text and styles: the rows of the pair list,
//! the lines of the file tree, the preview before a sync, the result
//! screen, the password prompt, the add-pair form and the help text. The
//! terminal front end only paints these.
use vstd::prelude::*;
use vstd::string::*;
use crate::config::{Pair, PairSource, TaggedPair, scope_word, scope_label};
use crate::text::{views, repeat_seq, repeat_str, decimal, to_decimal, str_contains, contains_seq,
    chars_of, push_char, pop_char};
use crate::tree::{FileNode, FileNodeView, display_name_spec, selected_files};

verus! {

broadcast use vstd::string::group_string_axioms;

/// How a row of the pair list is drawn.
#[derive(Debug, Clone, Copy, PartialEq, Eq, Structural)]
pub enum RowStyle {
    Cursor,
    Shadowed,
    Normal,
}

/// A row of the pair list: the heading of a configuration file's pairs, or
/// a pair.
#[derive(Debug)]
pub enum PairRow {
    Header(PairSource),
    Entry { name: String, local: String, remote: String, scope: String, style: RowStyle },
}

/// The mathematical value of a [`PairRow`].
pub enum PairRowView {
    Header(PairSource),
    Entry {
        name: Seq<char>,
        local: Seq<char>,
        remote: Seq<char>,
        scope: Seq<char>,
        style: RowStyle,
    },
}

impl View for PairRow {
    type V = PairRowView;

    open spec fn view(&self) -> PairRowView {
        match self {
            PairRow::Header(s) => PairRowView::Header(*s),
            PairRow::Entry { name, local, remote, scope, style } => PairRowView::Entry {
                name: name@,
                local: local@,
                remote: remote@,
                scope: scope@,
                style: *style,
            },
        }
    }
}

/// How a line of the file tree is drawn.
#[derive(Debug, Clone, Copy, PartialEq, Eq, Structural)]
pub enum TreeStyle {
    Cursor,
    Selected,
    Directory,
    Normal,
}

/// How a line of the sync preview is drawn.
#[derive(Debug, Clone, Copy, PartialEq, Eq, Structural)]
pub enum PreviewStyle {
    Heading,
    Command,
    Output,
    Plain,
}

/// No pair before the `i`-th comes from the same file.
pub open spec fn first_of_source(pairs: Seq<TaggedPair>, i: int) -> bool {
    forall|j: int| 0 <= j < i ==> pairs[j].source != pairs[i].source
}

/// The row of the `i`-th pair.
pub open spec fn entry_row_view(tp: TaggedPair, is_cursor: bool) -> PairRowView {
    PairRowView::Entry {
        name: if tp.shadowed {
            tp.pair.name@ + " (shadowed)"@
        } else {
            tp.pair.name@
        },
        local: tp.pair.local@,
        remote: tp.pair.remote@,
        scope: scope_word(tp.source),
        style: if is_cursor {
            RowStyle::Cursor
        } else if tp.shadowed {
            RowStyle::Shadowed
        } else {
            RowStyle::Normal
        },
    }
}

/// The rows of the first `k` pairs: each pair's row, preceded by a heading
/// when it is the first pair of its file.
pub open spec fn rows_upto(pairs: Seq<TaggedPair>, cursor: int, k: int) -> Seq<PairRowView>
    decreases k,
{
    if k <= 0 {
        Seq::empty()
    } else {
        rows_upto(pairs, cursor, k - 1) + (if first_of_source(pairs, k - 1) {
            seq![PairRowView::Header(pairs[k - 1].source)]
        } else {
            Seq::empty()
        }) + seq![entry_row_view(pairs[k - 1], k - 1 == cursor)]
    }
}

/// The position among the rows of the `i`-th pair's row.
pub open spec fn entry_row(pairs: Seq<TaggedPair>, cursor: int, i: int) -> int {
    rows_upto(pairs, cursor, i).len() + if first_of_source(pairs, i) {
        1int
    } else {
        0int
    }
}

/// The status line of the pair list.
pub open spec fn pair_list_status_spec(status: Seq<char>) -> Seq<char> {
    if status.len() == 0 {
        "Enter: select | a: add pair | d: delete | ?: help | q: quit"@
    } else {
        status
    }
}

/// The selection box of a line: checked or not.
pub open spec fn check_box(selected: bool) -> Seq<char> {
    if selected {
        "\u{2611} "@
    } else {
        "\u{2610} "@
    }
}

/// The text of a line of the file tree: the indentation, then for a
/// directory its arrow and box, for a file its box, then the shown name.
pub open spec fn tree_line_text(depth: nat, v: FileNodeView) -> Seq<char> {
    repeat_seq("  "@, depth) + if v.is_dir {
        (if v.expanded {
            "\u{25bc}"@
        } else {
            "\u{25b6}"@
        }) + " "@ + check_box(v.selected) + display_name_spec(v)
    } else {
        check_box(v.selected) + display_name_spec(v)
    }
}

/// The style of a line of the file tree.
pub open spec fn tree_line_style(v: FileNodeView, is_cursor: bool) -> TreeStyle {
    if is_cursor {
        TreeStyle::Cursor
    } else if v.selected {
        TreeStyle::Selected
    } else if v.is_dir {
        TreeStyle::Directory
    } else {
        TreeStyle::Normal
    }
}

/// The title of the file tree screen.
pub open spec fn file_tree_title_spec(pair: Option<Pair>) -> Seq<char> {
    match pair {
        Some(p) => " File Tree - "@ + p.name@ + " ("@ + p.local@ + " -> "@ + p.remote@ + ") "@,
        None => " File Tree "@,
    }
}

/// The status line of the file tree screen, with the number of selected
/// files.
pub open spec fn file_tree_status_spec(status: Seq<char>, selected: nat) -> Seq<char> {
    if status.len() == 0 {
        "Space: toggle | Enter: expand | s: sync("@ + decimal(selected)
            + " selected) | a: select all | ?: help | Esc: back"@
    } else {
        status
    }
}

/// A text without one carriage return at its end.
pub open spec fn strip_cr(s: Seq<char>) -> Seq<char> {
    if s.len() > 0 && s.last() == '\r' {
        s.drop_last()
    } else {
        s
    }
}

/// The lines of `s[start..]` when the current line starts at `start` and
/// the scan stands at `i`: lines end at `\n` (a `\r` before it is dropped),
/// and a last line without `\n` counts when it is not empty.
pub open spec fn lines_from(s: Seq<char>, start: int, i: int) -> Seq<Seq<char>>
    decreases s.len() - i,
{
    if i >= s.len() {
        if start < s.len() {
            seq![s.subrange(start, s.len() as int)]
        } else {
            Seq::empty()
        }
    } else if s[i] == '\n' {
        seq![strip_cr(s.subrange(start, i))] + lines_from(s, i + 1, i + 1)
    } else {
        lines_from(s, start, i + 1)
    }
}

/// The lines of a text, as `str::lines` splits it.
pub open spec fn lines_of(s: Seq<char>) -> Seq<Seq<char>> {
    lines_from(s, 0, 0)
}

/// Each line indented by two spaces, in the given style.
pub open spec fn indented(lines: Seq<Seq<char>>, style: PreviewStyle) -> Seq<(Seq<char>, PreviewStyle)> {
    lines.map_values(|l: Seq<char>| ("  "@ + l, style))
}

/// The lines of the sync preview: the command, when there is one, under a
/// heading, then the dry-run output under a heading, or a note that nothing
/// is to be synced.
pub open spec fn preview_lines_spec(command: Seq<char>, output: Seq<char>) -> Seq<(Seq<char>, PreviewStyle)> {
    (if command.len() > 0 {
        seq![("Command:"@, PreviewStyle::Heading)] + indented(lines_of(command), PreviewStyle::Command)
            + seq![(Seq::<char>::empty(), PreviewStyle::Plain), ("Dry-run output:"@, PreviewStyle::Heading)]
    } else {
        Seq::empty()
    }) + if output.len() == 0 {
        seq![("No changes to sync."@, PreviewStyle::Plain)]
    } else {
        indented(lines_of(output), PreviewStyle::Output)
    }
}

/// The title of the sync preview.
pub open spec fn preview_title_spec(pair: Option<Pair>) -> Seq<char> {
    match pair {
        Some(p) => " Sync Preview (dry-run) - "@ + p.name@ + " "@,
        None => " Sync Preview "@,
    }
}

/// The status line of the sync preview, which warns when a password will be
/// asked for.
pub open spec fn preview_status_spec(output: Seq<char>) -> Seq<char> {
    if contains_seq(output, "Authentication required"@) {
        "y: confirm sync (password required) | n/Esc: go back | ?: help"@
    } else {
        "y: confirm sync | n/Esc: go back | ?: help"@
    }
}

/// The title of the sync result screen.
pub open spec fn progress_title_spec(failed: bool, pair: Option<Pair>) -> Seq<char> {
    let head = if failed {
        " Sync - FAILED "@
    } else {
        " Sync - Complete "@
    };
    match pair {
        Some(p) => head + p.name@ + " "@,
        None => head,
    }
}

/// The text of the sync result screen.
pub open spec fn progress_text_spec(output: Seq<char>) -> Seq<char> {
    if output.len() == 0 {
        "Sync completed with no output."@
    } else {
        output
    }
}

/// The prompt of the password screen.
pub open spec fn password_prompt_spec(pair: Option<Pair>) -> Seq<char> {
    "Password for "@ + match pair {
        Some(p) => p.remote@,
        None => "remote"@,
    } + " (sync):"@
}

/// A field of the add-pair form as shown: the focused field ends in a
/// cursor mark, an empty unfocused field is a blank.
pub open spec fn form_value_spec(value: Seq<char>, focused: bool) -> Seq<char> {
    if value.len() == 0 && focused {
        "_"@
    } else if focused {
        value + "_"@
    } else if value.len() == 0 {
        " "@
    } else {
        value
    }
}

/// The label of a field of the add-pair form, indented and padded to a
/// column.
pub open spec fn form_label_spec(field: int) -> Seq<char> {
    if field == 0 {
        "  Name:   "@
    } else if field == 1 {
        "  Local:  "@
    } else {
        "  Remote: "@
    }
}

/// The rows of the pair list, and the position of the row under the cursor.
pub fn pair_list_rows(pairs: &Vec<TaggedPair>, pair_index: usize) -> (r: (Vec<PairRow>, Option<usize>))
    ensures
        r.0@.map_values(|row: PairRow| row@) == rows_upto(pairs@, pair_index as int, pairs@.len() as int),
        pair_index < pairs@.len() ==> r.1 == Some(entry_row(pairs@, pair_index as int, pair_index as int) as usize),
        pair_index >= pairs@.len() ==> r.1 is None,
{
    let n = pairs.len();
    let mut rows: Vec<PairRow> = Vec::new();
    let mut selected: Option<usize> = None;
    let mut in_local = false;
    let mut in_global = false;
    let mut i: usize = 0;
    while i < n
        invariant
            n == pairs@.len(),
            i <= n,
            rows@.map_values(|row: PairRow| row@) == rows_upto(pairs@, pair_index as int, i as int),
            rows@.len() <= 2 * i,
            in_local == exists|j: int| 0 <= j < i && pairs@[j].source == PairSource::Local,
            in_global == exists|j: int| 0 <= j < i && pairs@[j].source == PairSource::Global,
            pair_index < i ==> selected == Some(entry_row(pairs@, pair_index as int, pair_index as int) as usize),
            pair_index >= i ==> selected is None,
        decreases n - i,
    {
        let ghost before = rows@.map_values(|row: PairRow| row@);
        let tp = &pairs[i];
        let ghost first = first_of_source(pairs@, i as int);
        proof {
            if tp.source == PairSource::Local {
                if in_local {
                    let j = choose|j: int| 0 <= j < i && pairs@[j].source == PairSource::Local;
                    assert(!first_of_source(pairs@, i as int));
                }
            } else {
                if in_global {
                    let j = choose|j: int| 0 <= j < i && pairs@[j].source == PairSource::Global;
                    assert(!first_of_source(pairs@, i as int));
                }
            }
        }
        let mut header = false;
        if tp.source == PairSource::Local && !in_local {
            in_local = true;
            header = true;
            rows.push(PairRow::Header(PairSource::Local));
        }
        if tp.source == PairSource::Global && !in_global {
            in_global = true;
            header = true;
            rows.push(PairRow::Header(PairSource::Global));
        }
        assert(header == first);
        if i == pair_index {
            selected = Some(rows.len());
        }
        let name = if tp.shadowed {
            tp.pair.name.clone().concat(" (shadowed)")
        } else {
            tp.pair.name.clone()
        };
        let style = if i == pair_index {
            RowStyle::Cursor
        } else if tp.shadowed {
            RowStyle::Shadowed
        } else {
            RowStyle::Normal
        };
        rows.push(
            PairRow::Entry {
                name,
                local: tp.pair.local.clone(),
                remote: tp.pair.remote.clone(),
                scope: scope_label(tp.source),
                style,
            },
        );
        proof {
            assert(rows@.map_values(|row: PairRow| row@) =~= rows_upto(
                pairs@,
                pair_index as int,
                i + 1,
            ));
        }
        i = i + 1;
    }
    (rows, selected)
}

/// The status line of the pair list.
pub fn pair_list_status(status: &String) -> (r: String)
    ensures
        r@ == pair_list_status_spec(status@),
{
    if status.as_str().is_empty() {
        String::from_str("Enter: select | a: add pair | d: delete | ?: help | q: quit")
    } else {
        status.clone()
    }
}

/// The text and style of a line of the file tree.
pub fn tree_line(depth: usize, node: &FileNode, is_cursor: bool) -> (r: (String, TreeStyle))
    ensures
        r.0@ == tree_line_text(depth as nat, node@),
        r.1 == tree_line_style(node@, is_cursor),
{
    let mut text = repeat_str("  ", depth);
    if node.is_dir {
        if node.expanded {
            text.append("\u{25bc}");
        } else {
            text.append("\u{25b6}");
        }
        text.append(" ");
    }
    if node.selected {
        text.append("\u{2611} ");
    } else {
        text.append("\u{2610} ");
    }
    let name = node.display_name();
    text.append(name.as_str());
    let style = if is_cursor {
        TreeStyle::Cursor
    } else if node.selected {
        TreeStyle::Selected
    } else if node.is_dir {
        TreeStyle::Directory
    } else {
        TreeStyle::Normal
    };
    (text, style)
}

/// The lines of the file tree, with the line under the cursor marked.
pub fn tree_lines(items: &Vec<(usize, FileNode)>, cursor: usize) -> (r: Vec<(String, TreeStyle)>)
    ensures
        r@.len() == items@.len(),
        forall|i: int|
            0 <= i < items@.len() ==> (#[trigger] r@[i]).0@ == tree_line_text(
                items@[i].0 as nat,
                items@[i].1@,
            ) && r@[i].1 == tree_line_style(items@[i].1@, i == cursor),
{
    let mut lines: Vec<(String, TreeStyle)> = Vec::new();
    let n = items.len();
    let mut i: usize = 0;
    while i < n
        invariant
            n == items@.len(),
            i <= n,
            lines@.len() == i,
            forall|j: int|
                0 <= j < i ==> (#[trigger] lines@[j]).0@ == tree_line_text(
                    items@[j].0 as nat,
                    items@[j].1@,
                ) && lines@[j].1 == tree_line_style(items@[j].1@, j == cursor),
        decreases n - i,
    {
        let line = tree_line(items[i].0, &items[i].1, i == cursor);
        lines.push(line);
        i = i + 1;
    }
    lines
}

/// The title of the file tree screen.
pub fn file_tree_title(pair: &Option<Pair>) -> (r: String)
    ensures
        r@ == file_tree_title_spec(*pair),
{
    match pair {
        Some(p) => String::from_str(" File Tree - ").concat(p.name.as_str()).concat(" (").concat(
            p.local.as_str(),
        ).concat(" -> ").concat(p.remote.as_str()).concat(") "),
        None => String::from_str(" File Tree "),
    }
}

/// The status line of the file tree screen.
pub fn file_tree_status(status: &String, tree: &Option<FileNode>) -> (r: String)
    ensures
        r@ == file_tree_status_spec(
            status@,
            match tree {
                Some(t) => selected_files(t@).len(),
                None => 0,
            },
        ),
{
    if !status.as_str().is_empty() {
        return status.clone();
    }
    let count: usize = match tree {
        Some(t) => t.collect_selected().len(),
        None => 0,
    };
    String::from_str("Space: toggle | Enter: expand | s: sync(").concat(to_decimal(count).as_str()).concat(
        " selected) | a: select all | ?: help | Esc: back",
    )
}

/// The lines of a text, as `str::lines` splits it.
pub fn split_lines(s: &str) -> (r: Vec<String>)
    ensures
        views(r@) == lines_of(s@),
{
    let cs = chars_of(s);
    let n = cs.len();
    let mut result: Vec<String> = Vec::new();
    let mut cur = String::new();
    let mut start: usize = 0;
    let mut i: usize = 0;
    while i < n
        invariant
            cs@ == s@,
            n == cs@.len(),
            start <= i <= n,
            cur@ == s@.subrange(start as int, i as int),
            views(result@) + lines_from(s@, start as int, i as int) == lines_of(s@),
        decreases n - i,
    {
        let c = cs[i];
        if c == '\n' {
            let mut line = cur;
            let ends_cr = line.as_str().unicode_len() > 0 && {
                let k = line.as_str().unicode_len();
                line.as_str().get_char(k - 1) == '\r'
            };
            if ends_cr {
                pop_char(&mut line);
            }
            proof {
                assert(line@ == strip_cr(s@.subrange(start as int, i as int)));
                assert(views(result@.push(line)) =~= views(result@).push(line@));
                assert(seq![line@] + lines_from(s@, i + 1, i + 1) == lines_from(s@, start as int, i as int));
                assert(views(result@).push(line@) + lines_from(s@, i + 1, i + 1) =~= views(result@) + (seq![line@] + lines_from(s@, i + 1, i + 1)));
            }
            result.push(line);
            cur = String::new();
            start = i + 1;
        } else {
            push_char(&mut cur, c);
            proof {
                assert(cur@ =~= s@.subrange(start as int, i + 1));
            }
        }
        i = i + 1;
    }
    if start < n {
        proof {
            assert(views(result@.push(cur)) =~= views(result@).push(cur@));
            assert(views(result@).push(cur@) =~= views(result@) + seq![cur@]);
        }
        result.push(cur);
    } else {
        assert(views(result@) + Seq::<Seq<char>>::empty() =~= views(result@));
    }
    result
}

fn push_indented(out: &mut Vec<(String, PreviewStyle)>, lines: &Vec<String>, style: PreviewStyle)
    ensures
        preview_views(final(out)@) == preview_views(old(out)@) + indented(views(lines@), style),
{
    let n = lines.len();
    let mut i: usize = 0;
    while i < n
        invariant
            n == lines@.len(),
            i <= n,
            preview_views(out@) == preview_views(old(out)@) + indented(views(lines@).take(i as int), style),
        decreases n - i,
    {
        let ghost prev = preview_views(out@);
        out.push((String::from_str("  ").concat(lines[i].as_str()), style));
        proof {
            assert(preview_views(out@) =~= prev.push(("  "@ + lines@[i as int]@, style)));
            assert(indented(views(lines@).take(i + 1), style) =~= indented(views(lines@).take(i as int), style).push(("  "@ + lines@[i as int]@, style)));
            assert(preview_views(out@) =~= preview_views(old(out)@) + indented(views(lines@).take(i + 1), style));
        }
        i = i + 1;
    }
    assert(views(lines@).take(n as int) =~= views(lines@));
}

/// The views of preview lines.
pub open spec fn preview_views(s: Seq<(String, PreviewStyle)>) -> Seq<(Seq<char>, PreviewStyle)> {
    s.map_values(|l: (String, PreviewStyle)| (l.0@, l.1))
}

/// The lines of the sync preview, with their styles.
pub fn preview_lines(command: &String, output: &String) -> (r: Vec<(String, PreviewStyle)>)
    ensures
        preview_views(r@) == preview_lines_spec(command@, output@),
{
    let mut out: Vec<(String, PreviewStyle)> = Vec::new();
    let ghost head: Seq<(Seq<char>, PreviewStyle)> = if command@.len() > 0 {
        seq![("Command:"@, PreviewStyle::Heading)] + indented(lines_of(command@), PreviewStyle::Command)
            + seq![(Seq::<char>::empty(), PreviewStyle::Plain), ("Dry-run output:"@, PreviewStyle::Heading)]
    } else {
        Seq::empty()
    };
    if !command.as_str().is_empty() {
        out.push((String::from_str("Command:"), PreviewStyle::Heading));
        let cl = split_lines(command.as_str());
        assert(preview_views(out@) =~= seq![("Command:"@, PreviewStyle::Heading)]);
        push_indented(&mut out, &cl, PreviewStyle::Command);
        let ghost mid = preview_views(out@);
        out.push((String::new(), PreviewStyle::Plain));
        assert(preview_views(out@) =~= mid.push((Seq::<char>::empty(), PreviewStyle::Plain)));
        let ghost mid2 = preview_views(out@);
        out.push((String::from_str("Dry-run output:"), PreviewStyle::Heading));
        assert(preview_views(out@) =~= mid2.push(("Dry-run output:"@, PreviewStyle::Heading)));
        assert(preview_views(out@) =~= head);
    } else {
        assert(preview_views(out@) =~= head);
    }
    if output.as_str().is_empty() {
        out.push((String::from_str("No changes to sync."), PreviewStyle::Plain));
        assert(preview_views(out@) =~= head.push(("No changes to sync."@, PreviewStyle::Plain)));
    } else {
        let ol = split_lines(output.as_str());
        push_indented(&mut out, &ol, PreviewStyle::Output);
    }
    assert(preview_views(out@) =~= preview_lines_spec(command@, output@));
    out
}

/// The title of the sync preview.
pub fn preview_title(pair: &Option<Pair>) -> (r: String)
    ensures
        r@ == preview_title_spec(*pair),
{
    match pair {
        Some(p) => String::from_str(" Sync Preview (dry-run) - ").concat(p.name.as_str()).concat(" "),
        None => String::from_str(" Sync Preview "),
    }
}

/// The status line of the sync preview.
pub fn preview_status(output: &String) -> (r: String)
    ensures
        r@ == preview_status_spec(output@),
{
    if str_contains(output.as_str(), "Authentication required") {
        String::from_str("y: confirm sync (password required) | n/Esc: go back | ?: help")
    } else {
        String::from_str("y: confirm sync | n/Esc: go back | ?: help")
    }
}

/// The title of the sync result screen.
pub fn progress_title(failed: bool, pair: &Option<Pair>) -> (r: String)
    ensures
        r@ == progress_title_spec(failed, *pair),
{
    let head = if failed {
        String::from_str(" Sync - FAILED ")
    } else {
        String::from_str(" Sync - Complete ")
    };
    match pair {
        Some(p) => head.concat(p.name.as_str()).concat(" "),
        None => head,
    }
}

/// The text of the sync result screen.
pub fn progress_text(output: &String) -> (r: String)
    ensures
        r@ == progress_text_spec(output@),
{
    if output.as_str().is_empty() {
        String::from_str("Sync completed with no output.")
    } else {
        output.clone()
    }
}

/// The prompt of the password screen.
pub fn password_prompt(pair: &Option<Pair>) -> (r: String)
    ensures
        r@ == password_prompt_spec(*pair),
{
    let remote = match pair {
        Some(p) => p.remote.clone(),
        None => String::from_str("remote"),
    };
    String::from_str("Password for ").concat(remote.as_str()).concat(" (sync):")
}

/// The typed password hidden: one `*` per byte of it.
pub fn masked_password(buffer: &String) -> (r: String)
    ensures
        r@ == repeat_seq("*"@, (vstd::utf8::encode_utf8(buffer@).len() as usize) as nat),
{
    repeat_str("*", buffer.as_str().len())
}

/// A field of the add-pair form as shown.
pub fn form_value(value: &String, focused: bool) -> (r: String)
    ensures
        r@ == form_value_spec(value@, focused),
{
    let empty = value.as_str().is_empty();
    if empty && focused {
        String::from_str("_")
    } else if focused {
        value.clone().concat("_")
    } else if empty {
        String::from_str(" ")
    } else {
        value.clone()
    }
}

/// The label of a field of the add-pair form (0: name, 1: local, else
/// remote).
pub fn form_label(field: usize) -> (r: String)
    ensures
        r@ == form_label_spec(field as int),
{
    if field == 0 {
        String::from_str("  Name:   ")
    } else if field == 1 {
        String::from_str("  Local:  ")
    } else {
        String::from_str("  Remote: ")
    }
}

proof fn lemma_indent(depth: nat)
    ensures
        repeat_seq("  "@, depth).len() == 2 * depth,
        forall|i: int| 0 <= i < 2 * depth ==> #[trigger] repeat_seq("  "@, depth)[i] == ' ',
    decreases depth,
{
    reveal_strlit("  ");
    if depth > 0 {
        lemma_indent((depth - 1) as nat);
        let prev = repeat_seq("  "@, (depth - 1) as nat);
        assert forall|i: int| 0 <= i < 2 * depth implies #[trigger] repeat_seq("  "@, depth)[i]
            == ' ' by {
            if i >= prev.len() {
                assert(repeat_seq("  "@, depth)[i] == "  "@[i - prev.len()]);
            }
        }
    }
}

/// A line of the file tree is the indentation (two spaces per level), then
/// for a directory its arrow (pointing down exactly when it is expanded)
/// and a space, then the check box, which is checked exactly when the node
/// is selected whatever its kind or expansion, a space, and the shown name.
pub proof fn tree_line_box_shows_selection(depth: nat, v: FileNodeView)
    ensures
        ({
            let text = tree_line_text(depth, v);
            let at = 2 * depth + if v.is_dir {
                2int
            } else {
                0int
            };
            &&& text.len() == at + 2 + display_name_spec(v).len()
            &&& forall|i: int| 0 <= i < 2 * depth ==> text[i] == ' '
            &&& v.is_dir ==> text[2 * depth as int] == (if v.expanded {
                '\u{25bc}'
            } else {
                '\u{25b6}'
            }) && text[2 * depth as int + 1] == ' '
            &&& text[at] == (if v.selected {
                '\u{2611}'
            } else {
                '\u{2610}'
            })
            &&& text[at + 1] == ' '
            &&& text.skip(at + 2) == display_name_spec(v)
        }),
{
    reveal_strlit("\u{25bc}");
    reveal_strlit("\u{25b6}");
    reveal_strlit(" ");
    reveal_strlit("\u{2611} ");
    reveal_strlit("\u{2610} ");
    lemma_indent(depth);
    let text = tree_line_text(depth, v);
    let at = 2 * depth + if v.is_dir {
        2int
    } else {
        0int
    };
    assert forall|i: int| 0 <= i < 2 * depth implies text[i] == ' ' by {
        assert(text[i] == repeat_seq("  "@, depth)[i]);
    }
    assert(text.skip(at + 2) =~= display_name_spec(v));
}

/// The lines of the help screen.
pub open spec fn help_text_spec() -> Seq<Seq<char>> {
    seq![
        "rusync - Key Bindings"@,
        ""@,
        "Pair List:"@,
        "  j/\u{2193}     - move down"@,
        "  k/\u{2191}     - move up"@,
        "  Enter   - enter file tree"@,
        "  d       - delete pair"@,
        ""@,
        "File Tree:"@,
        "  j/\u{2193}     - move down"@,
        "  k/\u{2191}     - move up"@,
        "  Space   - toggle selection"@,
        "  Enter   - expand/collapse dir"@,
        "  a       - select/deselect all"@,
        "  s       - sync selected (dry-run)"@,
        ""@,
        "Sync Preview:"@,
        "  y       - confirm sync"@,
        "  n/Esc   - go back"@,
        ""@,
        "Sync Progress:"@,
        "  Enter/Esc - return to pair list"@,
        ""@,
        "Global:"@,
        "  ?       - show help"@,
        "  q/Esc   - go back / quit"@,
    ]
}

/// The lines of the help screen, one string per line.
pub fn help_lines() -> (r: Vec<String>)
    ensures
        views(r@) == help_text_spec(),
{
    let mut r: Vec<String> = Vec::new();
    r.push(String::from_str("rusync - Key Bindings"));
    r.push(String::from_str(""));
    r.push(String::from_str("Pair List:"));
    r.push(String::from_str("  j/\u{2193}     - move down"));
    r.push(String::from_str("  k/\u{2191}     - move up"));
    r.push(String::from_str("  Enter   - enter file tree"));
    r.push(String::from_str("  d       - delete pair"));
    r.push(String::from_str(""));
    r.push(String::from_str("File Tree:"));
    r.push(String::from_str("  j/\u{2193}     - move down"));
    r.push(String::from_str("  k/\u{2191}     - move up"));
    r.push(String::from_str("  Space   - toggle selection"));
    r.push(String::from_str("  Enter   - expand/collapse dir"));
    r.push(String::from_str("  a       - select/deselect all"));
    r.push(String::from_str("  s       - sync selected (dry-run)"));
    r.push(String::from_str(""));
    r.push(String::from_str("Sync Preview:"));
    r.push(String::from_str("  y       - confirm sync"));
    r.push(String::from_str("  n/Esc   - go back"));
    r.push(String::from_str(""));
    r.push(String::from_str("Sync Progress:"));
    r.push(String::from_str("  Enter/Esc - return to pair list"));
    r.push(String::from_str(""));
    r.push(String::from_str("Global:"));
    r.push(String::from_str("  ?       - show help"));
    r.push(String::from_str("  q/Esc   - go back / quit"));
    assert(views(r@) =~= help_text_spec());
    r
}

} // verus!
