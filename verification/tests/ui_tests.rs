use crabsync::config::{tag_pairs, Pair, PairSource};
use crabsync::tree::tree_from_entries;
use crabsync::ui::{
    file_tree_status, file_tree_title, form_label, help_lines, form_value, masked_password, pair_list_rows,
    pair_list_status, password_prompt, preview_lines, preview_status, preview_title,
    progress_text, progress_title, split_lines, tree_line, PairRow, PreviewStyle, RowStyle,
    TreeStyle,
};

fn pair(name: &str) -> Pair {
    Pair { name: name.to_string(), local: format!("/{}", name), remote: format!("h:/{}", name) }
}

#[test]
fn pair_rows_have_headings_and_cursor() {
    let all = tag_pairs(vec![pair("a")], vec![pair("a"), pair("b")]);
    let (rows, selected) = pair_list_rows(&all, 2);
    assert_eq!(rows.len(), 5);
    assert!(matches!(rows[0], PairRow::Header(PairSource::Local)));
    assert!(matches!(rows[2], PairRow::Header(PairSource::Global)));
    match &rows[3] {
        PairRow::Entry { name, scope, style, .. } => {
            assert_eq!(name, "a (shadowed)");
            assert_eq!(scope, "global");
            assert_eq!(*style, RowStyle::Shadowed);
        }
        _ => panic!("expected an entry"),
    }
    match &rows[4] {
        PairRow::Entry { name, style, .. } => {
            assert_eq!(name, "b");
            assert_eq!(*style, RowStyle::Cursor);
        }
        _ => panic!("expected an entry"),
    }
    assert_eq!(selected, Some(4));
    let (_, none) = pair_list_rows(&all, 7);
    assert_eq!(none, None);
}

#[test]
fn pair_list_status_default() {
    assert_eq!(
        pair_list_status(&String::new()),
        "Enter: select | a: add pair | d: delete | ?: help | q: quit"
    );
    assert_eq!(pair_list_status(&"x".to_string()), "x");
}

#[test]
fn tree_line_texts() {
    let entries = vec![
        (vec!["d".to_string()], true),
        (vec!["d".to_string(), "f".to_string()], false),
    ];
    let mut t = tree_from_entries(Some("r".to_string()), &entries);
    let (text, style) = tree_line(1, &t.children[0], false);
    assert_eq!(text, "  \u{25b6} \u{2610} d/");
    assert_eq!(style, TreeStyle::Directory);
    t.children[0].toggle_selected();
    let (text, style) = tree_line(2, &t.children[0].children[0], true);
    assert_eq!(text, "    \u{2611} f");
    assert_eq!(style, TreeStyle::Cursor);
    let (_, style) = tree_line(2, &t.children[0].children[0], false);
    assert_eq!(style, TreeStyle::Selected);
}

#[test]
fn file_tree_title_and_status() {
    assert_eq!(file_tree_title(&Some(pair("a"))), " File Tree - a (/a -> h:/a) ");
    assert_eq!(file_tree_title(&None), " File Tree ");
    let entries = vec![(vec!["x".to_string()], false), (vec!["y".to_string()], false)];
    let mut t = tree_from_entries(None, &entries);
    t.select_all(true);
    assert_eq!(
        file_tree_status(&String::new(), &Some(t)),
        "Space: toggle | Enter: expand | s: sync(2 selected) | a: select all | ?: help | Esc: back"
    );
    assert_eq!(file_tree_status(&"busy".to_string(), &None), "busy");
}

#[test]
fn split_lines_like_str_lines() {
    for text in ["a\nb\r\nc", "a\n", "", "\n\n", "x\r", "one"] {
        let expected: Vec<String> = text.lines().map(|l| l.to_string()).collect();
        assert_eq!(split_lines(text), expected, "for {:?}", text);
    }
}

#[test]
fn preview_lines_with_command() {
    let lines = preview_lines(&"rsync x\n\nFile list:".to_string(), &"f1\nf2".to_string());
    let texts: Vec<&str> = lines.iter().map(|(t, _)| t.as_str()).collect();
    assert_eq!(
        texts,
        vec!["Command:", "  rsync x", "  ", "  File list:", "", "Dry-run output:", "  f1", "  f2"]
    );
    assert_eq!(lines[0].1, PreviewStyle::Heading);
    assert_eq!(lines[1].1, PreviewStyle::Command);
    assert_eq!(lines[7].1, PreviewStyle::Output);
    let empty = preview_lines(&String::new(), &String::new());
    assert_eq!(empty.len(), 1);
    assert_eq!(empty[0].0, "No changes to sync.");
}

#[test]
fn preview_title_and_status() {
    assert_eq!(preview_title(&Some(pair("a"))), " Sync Preview (dry-run) - a ");
    assert_eq!(
        preview_status(&"Authentication required: x".to_string()),
        "y: confirm sync (password required) | n/Esc: go back | ?: help"
    );
    assert_eq!(preview_status(&"ok".to_string()), "y: confirm sync | n/Esc: go back | ?: help");
}

#[test]
fn progress_screen_texts() {
    assert_eq!(progress_title(true, &Some(pair("a"))), " Sync - FAILED a ");
    assert_eq!(progress_title(false, &None), " Sync - Complete ");
    assert_eq!(progress_text(&String::new()), "Sync completed with no output.");
    assert_eq!(progress_text(&"x".to_string()), "x");
}

#[test]
fn password_screen_texts() {
    assert_eq!(password_prompt(&Some(pair("a"))), "Password for h:/a (sync):");
    assert_eq!(password_prompt(&None), "Password for remote (sync):");
    assert_eq!(masked_password(&"abc".to_string()), "***");
    assert_eq!(masked_password(&"\u{e9}".to_string()), "**");
}

#[test]
fn form_field_texts() {
    assert_eq!(form_value(&String::new(), true), "_");
    assert_eq!(form_value(&"ab".to_string(), true), "ab_");
    assert_eq!(form_value(&String::new(), false), " ");
    assert_eq!(form_value(&"ab".to_string(), false), "ab");
    assert_eq!(form_label(0), format!("  {:<8}", "Name:"));
    assert_eq!(form_label(1), format!("  {:<8}", "Local:"));
    assert_eq!(form_label(2), format!("  {:<8}", "Remote:"));
}

#[test]
fn help_lists_key_bindings() {
    let lines = help_lines();
    assert_eq!(lines.len(), 26);
    assert_eq!(lines[0], "rusync - Key Bindings");
    assert_eq!(lines[3], "  j/\u{2193}     - move down");
    assert_eq!(lines[25], "  q/Esc   - go back / quit");
    assert!(lines.iter().any(|l| l == "  y       - confirm sync"));
}
