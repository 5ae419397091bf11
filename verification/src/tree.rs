//! The file tree of a pair's local directory: nodes that can be selected and
//! expanded, the list of selected files, the rows shown on screen, and the
//! insertion of the paths that a directory walk reports.
use vstd::prelude::*;
use vstd::string::*;
use crate::text::{views, join_seq, join_first};

verus! {

broadcast use {vstd::string::group_string_axioms, vstd::seq::Seq::group_seq_flatten};

/// A file or a directory of the tree. `relative_path` is the path from the
/// tree's root, with `/` between the components; it is empty for the root.
#[derive(Debug)]
pub struct FileNode {
    pub name: String,
    pub relative_path: String,
    pub is_dir: bool,
    pub selected: bool,
    pub expanded: bool,
    pub children: Vec<FileNode>,
}

/// The mathematical value of a [`FileNode`].
pub struct FileNodeView {
    pub name: Seq<char>,
    pub relative_path: Seq<char>,
    pub is_dir: bool,
    pub selected: bool,
    pub expanded: bool,
    pub children: Seq<FileNodeView>,
}

/// A node without children, unselected and collapsed.
pub open spec fn leaf_view(name: Seq<char>, relative_path: Seq<char>, is_dir: bool) -> FileNodeView {
    FileNodeView {
        name,
        relative_path,
        is_dir,
        selected: false,
        expanded: false,
        children: Seq::empty(),
    }
}

impl View for FileNode {
    type V = FileNodeView;

    open spec fn view(&self) -> FileNodeView
        decreases self,
    {
        FileNodeView {
            name: self.name@,
            relative_path: self.relative_path@,
            is_dir: self.is_dir,
            selected: self.selected,
            expanded: self.expanded,
            children: Seq::new(
                self.children@.len(),
                |i: int|
                    if 0 <= i < self.children@.len() {
                        self.children@[i].view()
                    } else {
                        leaf_view(Seq::empty(), Seq::empty(), false)
                    },
            ),
        }
    }
}

/// The views of a sequence of nodes.
pub open spec fn node_views(s: Seq<FileNode>) -> Seq<FileNodeView> {
    s.map_values(|n: FileNode| n@)
}

/// The name shown for a node: directories end in `/`.
pub open spec fn display_name_spec(v: FileNodeView) -> Seq<char> {
    if v.is_dir {
        v.name + "/"@
    } else {
        v.name
    }
}

/// The node with its selection set to `sel`, and, for a directory, every
/// node below it too.
pub open spec fn with_selection(v: FileNodeView, sel: bool) -> FileNodeView
    decreases v,
{
    FileNodeView {
        selected: sel,
        children: if v.is_dir {
            Seq::new(
                v.children.len(),
                |i: int|
                    if 0 <= i < v.children.len() {
                        with_selection(v.children[i], sel)
                    } else {
                        v.children[i]
                    },
            )
        } else {
            v.children
        },
        ..v
    }
}

/// The children of a node, each with its selection set as by `with_selection`.
pub open spec fn children_with_selection(v: FileNodeView, sel: bool) -> Seq<FileNodeView> {
    Seq::new(v.children.len(), |i: int| with_selection(v.children[i], sel))
}

/// A directory with its expansion flipped; any other node as it is.
pub open spec fn with_expansion_toggled(v: FileNodeView) -> FileNodeView {
    if v.is_dir {
        FileNodeView { expanded: !v.expanded, ..v }
    } else {
        v
    }
}

/// The paths of the selected files (not directories) of the subtree, in
/// pre-order.
pub open spec fn selected_files(v: FileNodeView) -> Seq<Seq<char>>
    decreases v, 1int,
{
    (if !v.is_dir && v.selected {
        seq![v.relative_path]
    } else {
        Seq::empty()
    }) + selected_lists(v).flatten()
}

/// The selected files of each child of a node.
pub open spec fn selected_lists(v: FileNodeView) -> Seq<Seq<Seq<char>>>
    decreases v, 0int,
{
    Seq::new(
        v.children.len(),
        |i: int|
            if 0 <= i < v.children.len() {
                selected_files(v.children[i])
            } else {
                Seq::empty()
            },
    )
}

/// The paths of all files (not directories) of the subtree, in pre-order.
pub open spec fn all_files(v: FileNodeView) -> Seq<Seq<char>>
    decreases v, 1int,
{
    (if !v.is_dir {
        seq![v.relative_path]
    } else {
        Seq::empty()
    }) + file_lists(v).flatten()
}

/// The files of each child of a node.
pub open spec fn file_lists(v: FileNodeView) -> Seq<Seq<Seq<char>>>
    decreases v, 0int,
{
    Seq::new(
        v.children.len(),
        |i: int|
            if 0 <= i < v.children.len() {
                all_files(v.children[i])
            } else {
                Seq::empty()
            },
    )
}

/// The rows shown for the subtree when it stands at `depth`: the node itself
/// (unless it is a nested node with an empty path), then, for an expanded
/// directory, the rows of its children one level deeper.
pub open spec fn display_items(v: FileNodeView, depth: int) -> Seq<(int, FileNodeView)>
    decreases v, 1int,
{
    (if v.relative_path.len() > 0 || depth == 0 {
        seq![(depth, v)]
    } else {
        Seq::empty()
    }) + (if v.is_dir && v.expanded {
        display_lists(v, depth + 1).flatten()
    } else {
        Seq::empty()
    })
}

/// The rows of each child of a node, at `depth`.
pub open spec fn display_lists(v: FileNodeView, depth: int) -> Seq<Seq<(int, FileNodeView)>>
    decreases v, 0int,
{
    Seq::new(
        v.children.len(),
        |i: int|
            if 0 <= i < v.children.len() {
                display_items(v.children[i], depth)
            } else {
                Seq::empty()
            },
    )
}

/// The views of a list of display rows.
pub open spec fn item_views(s: Seq<(usize, FileNode)>) -> Seq<(int, FileNodeView)> {
    s.map_values(|p: (usize, FileNode)| (p.0 as int, p.1@))
}

/// The largest element of `s`, or 0.
pub open spec fn max_of(s: Seq<nat>) -> nat
    decreases s.len(),
{
    if s.len() == 0 {
        0
    } else {
        let m = max_of(s.drop_last());
        if s.last() > m {
            s.last()
        } else {
            m
        }
    }
}

/// The number of levels below the node.
pub open spec fn height(v: FileNodeView) -> nat
    decreases v, 1int,
{
    if v.children.len() == 0 {
        0
    } else {
        1 + max_of(child_heights(v))
    }
}

/// The heights of the children of a node.
pub open spec fn child_heights(v: FileNodeView) -> Seq<nat>
    decreases v, 0int,
{
    Seq::new(
        v.children.len(),
        |i: int|
            if 0 <= i < v.children.len() {
                height(v.children[i])
            } else {
                0
            },
    )
}

/// The node at `target` toggled: its expansion when `expand` is set and it
/// is a directory, else its selection (with everything below it); every node
/// whose path is `target` is toggled, and nothing below a toggled node is
/// searched further.
pub open spec fn toggled_at(v: FileNodeView, target: Seq<char>, expand: bool) -> FileNodeView
    decreases v, 1int,
{
    if v.relative_path == target {
        if expand && v.is_dir {
            with_expansion_toggled(v)
        } else {
            with_selection(v, !v.selected)
        }
    } else if v.is_dir {
        FileNodeView { children: toggled_children(v, target, expand), ..v }
    } else {
        v
    }
}

/// The children of a node, each toggled at `target`.
pub open spec fn toggled_children(v: FileNodeView, target: Seq<char>, expand: bool) -> Seq<
    FileNodeView,
>
    decreases v, 0int,
{
    Seq::new(
        v.children.len(),
        |i: int|
            if 0 <= i < v.children.len() {
                toggled_at(v.children[i], target, expand)
            } else {
                v.children[i]
            },
    )
}

/// Files have no children, in the whole subtree.
pub open spec fn well_formed(v: FileNodeView) -> bool
    decreases v,
{
    &&& (!v.is_dir ==> v.children.len() == 0)
    &&& forall|i: int| 0 <= i < v.children.len() ==> well_formed(#[trigger] v.children[i])
}

/// A child has the given name and kind.
pub open spec fn child_matches(c: FileNodeView, name: Seq<char>, is_dir: bool) -> bool {
    c.name == name && c.is_dir == is_dir
}

/// The index of the first of `kids` with the given name and kind, or -1.
pub open spec fn first_match(kids: Seq<FileNodeView>, name: Seq<char>, is_dir: bool) -> int
    decreases kids.len(),
{
    if kids.len() == 0 {
        -1
    } else if child_matches(kids[0], name, is_dir) {
        0
    } else {
        let r = first_match(kids.drop_first(), name, is_dir);
        if r >= 0 {
            r + 1
        } else {
            -1
        }
    }
}

/// Whether the component at `start` of a path of `count` components names a
/// directory: every component but the last does; the last has `is_dir`.
pub open spec fn component_is_dir(start: int, count: int, is_dir: bool) -> bool {
    if start + 1 == count {
        is_dir
    } else {
        true
    }
}

/// The node with the path `parts[start..]` inserted below it: each component
/// goes into the first child with its name and kind, or into a new child
/// appended at the end, whose path is the components up to it joined by `/`.
pub open spec fn insert_from(
    v: FileNodeView,
    parts: Seq<Seq<char>>,
    start: int,
    is_dir: bool,
) -> FileNodeView
    decreases parts.len() - start,
{
    if start < 0 || start >= parts.len() {
        v
    } else {
        let name = parts[start];
        let d = component_is_dir(start, parts.len() as int, is_dir);
        let k = first_match(v.children, name, d);
        if k >= 0 {
            FileNodeView {
                children: v.children.update(k, insert_from(v.children[k], parts, start + 1, is_dir)),
                ..v
            }
        } else {
            FileNodeView {
                children: v.children.push(
                    insert_from(
                        leaf_view(name, join_seq(parts.take(start + 1), "/"@), d),
                        parts,
                        start + 1,
                        is_dir,
                    ),
                ),
                ..v
            }
        }
    }
}

/// The root node of a tree: an expanded directory with an empty path.
pub open spec fn root_view(name: Seq<char>) -> FileNodeView {
    FileNodeView {
        name,
        relative_path: Seq::empty(),
        is_dir: true,
        selected: false,
        expanded: true,
        children: Seq::empty(),
    }
}

/// The node with each entry (path components and kind) inserted in turn.
pub open spec fn insert_all(v: FileNodeView, entries: Seq<(Seq<Seq<char>>, bool)>) -> FileNodeView
    decreases entries.len(),
{
    if entries.len() == 0 {
        v
    } else {
        let prev = insert_all(v, entries.drop_last());
        insert_from(prev, entries.last().0, 0, entries.last().1)
    }
}

/// The order of two byte strings: by the first differing byte, a proper
/// prefix first.
pub open spec fn lex_order(a: Seq<u8>, b: Seq<u8>) -> EntryOrder
    decreases a.len(),
{
    if a.len() == 0 && b.len() == 0 {
        EntryOrder::Equal
    } else if a.len() == 0 {
        EntryOrder::Less
    } else if b.len() == 0 {
        EntryOrder::Greater
    } else if a[0] < b[0] {
        EntryOrder::Less
    } else if a[0] > b[0] {
        EntryOrder::Greater
    } else {
        lex_order(a.drop_first(), b.drop_first())
    }
}

/// The order in which a directory walk lists two entries: directories
/// before files, then by name.
pub open spec fn entry_order(a_is_dir: bool, a_name: Seq<u8>, b_is_dir: bool, b_name: Seq<u8>) -> EntryOrder {
    if a_is_dir && !b_is_dir {
        EntryOrder::Less
    } else if !a_is_dir && b_is_dir {
        EntryOrder::Greater
    } else {
        lex_order(a_name, b_name)
    }
}

/// `a` comes before `b` in byte order: it is a proper prefix of `b`, or at
/// the first position where the two differ its byte is the smaller.
pub open spec fn bytes_before(a: Seq<u8>, b: Seq<u8>) -> bool {
    ||| a.len() < b.len() && b.take(a.len() as int) == a
    ||| exists|i: int|
        0 <= i < a.len() && i < b.len() && a.take(i) == b.take(i) && #[trigger] a[i] < b[i]
}

proof fn lemma_bytes_before_step(a: Seq<u8>, b: Seq<u8>)
    requires
        a.len() > 0,
        b.len() > 0,
        a[0] == b[0],
    ensures
        bytes_before(a, b) <==> bytes_before(a.drop_first(), b.drop_first()),
{
    let a1 = a.drop_first();
    let b1 = b.drop_first();
    if bytes_before(a, b) {
        if a.len() < b.len() && b.take(a.len() as int) == a {
            assert(b1.take(a1.len() as int) =~= a1) by {
                assert forall|j: int| 0 <= j < a1.len() implies #[trigger] b1.take(a1.len() as int)[j]
                    == a1[j] by {
                    assert(b.take(a.len() as int)[j + 1] == a[j + 1]);
                }
            }
        } else {
            let i = choose|i: int|
                0 <= i < a.len() && i < b.len() && a.take(i) == b.take(i) && #[trigger] a[i] < b[i];
            assert(i != 0);
            assert(a1.take(i - 1) =~= b1.take(i - 1)) by {
                assert forall|j: int| 0 <= j < i - 1 implies #[trigger] a1.take(i - 1)[j] == b1.take(i - 1)[j] by {
                    assert(a.take(i)[j + 1] == b.take(i)[j + 1]);
                }
            }
            assert(a1[i - 1] < b1[i - 1]);
        }
    }
    if bytes_before(a1, b1) {
        if a1.len() < b1.len() && b1.take(a1.len() as int) == a1 {
            assert(b.take(a.len() as int) =~= a) by {
                assert forall|j: int| 0 <= j < a.len() implies #[trigger] b.take(a.len() as int)[j] == a[j] by {
                    if j > 0 {
                        assert(b1.take(a1.len() as int)[j - 1] == a1[j - 1]);
                    }
                }
            }
        } else {
            let i = choose|i: int|
                0 <= i < a1.len() && i < b1.len() && a1.take(i) == b1.take(i) && #[trigger] a1[i]
                    < b1[i];
            assert(a.take(i + 1) =~= b.take(i + 1)) by {
                assert forall|j: int| 0 <= j < i + 1 implies #[trigger] a.take(i + 1)[j] == b.take(i + 1)[j] by {
                    if j > 0 {
                        assert(a1.take(i)[j - 1] == b1.take(i)[j - 1]);
                    }
                }
            }
            assert(a[i + 1] < b[i + 1]);
        }
    }
}

proof fn lemma_bytes_before_first_differs(a: Seq<u8>, b: Seq<u8>)
    requires
        a.len() > 0,
        b.len() > 0,
        a[0] < b[0],
    ensures
        bytes_before(a, b),
        !bytes_before(b, a),
{
    assert(a.take(0) =~= b.take(0));
    assert(a[0] < b[0]);
    if b.len() < a.len() && a.take(b.len() as int) == b {
        assert(a.take(b.len() as int)[0] == b[0]);
    }
    if exists|i: int|
        0 <= i < b.len() && i < a.len() && b.take(i) == a.take(i) && #[trigger] b[i] < a[i] {
        let i = choose|i: int|
            0 <= i < b.len() && i < a.len() && b.take(i) == a.take(i) && #[trigger] b[i] < a[i];
        if i > 0 {
            assert(b.take(i)[0] == a.take(i)[0]);
        }
    }
}

/// Names of entries of the same kind are ordered by their bytes: equal only
/// when they are the same bytes, and the first before the second exactly
/// when it is a proper prefix of it or has the smaller byte where they first
/// differ.
pub proof fn name_order_is_byte_order(a: Seq<u8>, b: Seq<u8>)
    ensures
        lex_order(a, b) == EntryOrder::Equal <==> a == b,
        lex_order(a, b) == EntryOrder::Less <==> bytes_before(a, b),
        lex_order(a, b) == EntryOrder::Greater <==> bytes_before(b, a),
    decreases a.len(),
{
    if a.len() == 0 && b.len() == 0 {
        assert(a =~= b);
    } else if a.len() == 0 {
        assert(b.take(0) =~= a);
        assert(a != b);
    } else if b.len() == 0 {
        assert(a.take(0) =~= b);
        assert(a != b);
    } else if a[0] < b[0] {
        lemma_bytes_before_first_differs(a, b);
        assert(a != b);
    } else if a[0] > b[0] {
        lemma_bytes_before_first_differs(b, a);
        assert(a != b);
    } else {
        let a1 = a.drop_first();
        let b1 = b.drop_first();
        name_order_is_byte_order(a1, b1);
        lemma_bytes_before_step(a, b);
        lemma_bytes_before_step(b, a);
        if a1 == b1 {
            assert(a =~= b) by {
                assert forall|j: int| 0 <= j < a.len() implies a[j] == b[j] by {
                    if j > 0 {
                        assert(a1[j - 1] == b1[j - 1]);
                    }
                }
            }
        }
        if a == b {
            assert(a1 =~= b1);
        }
    }
}

/// A directory walk lists directories before files, and entries of the
/// same kind in the byte order of their names.
pub proof fn walk_order_dirs_then_names(
    a_is_dir: bool,
    a_name: Seq<u8>,
    b_is_dir: bool,
    b_name: Seq<u8>,
)
    ensures
        a_is_dir && !b_is_dir ==> entry_order(a_is_dir, a_name, b_is_dir, b_name) == EntryOrder::Less,
        !a_is_dir && b_is_dir ==> entry_order(a_is_dir, a_name, b_is_dir, b_name)
            == EntryOrder::Greater,
        a_is_dir == b_is_dir ==> {
            let o = entry_order(a_is_dir, a_name, b_is_dir, b_name);
            &&& o == EntryOrder::Equal <==> a_name == b_name
            &&& o == EntryOrder::Less <==> bytes_before(a_name, b_name)
            &&& o == EntryOrder::Greater <==> bytes_before(b_name, a_name)
        },
{
    name_order_is_byte_order(a_name, b_name);
}

/// The outcome of comparing two entries.
#[derive(Debug, Clone, Copy, PartialEq, Eq, Structural)]
pub enum EntryOrder {
    Less,
    Equal,
    Greater,
}

proof fn lemma_max_of(s: Seq<nat>, i: int)
    requires
        0 <= i < s.len(),
    ensures
        s[i] <= max_of(s),
    decreases s.len(),
{
    if i < s.len() - 1 {
        lemma_max_of(s.drop_last(), i);
    }
}

proof fn lemma_child_height(v: FileNodeView, i: int)
    requires
        0 <= i < v.children.len(),
    ensures
        height(v.children[i]) < height(v),
{
    lemma_max_of(child_heights(v), i);
}

pub(crate) proof fn lemma_height_with_selection(v: FileNodeView, sel: bool)
    ensures
        height(with_selection(v, sel)) == height(v),
    decreases v,
{
    let w = with_selection(v, sel);
    if v.is_dir {
        assert forall|i: int| 0 <= i < v.children.len() implies #[trigger] child_heights(w)[i]
            == child_heights(v)[i] by {
            lemma_height_with_selection(v.children[i], sel);
        }
        assert(child_heights(w) =~= child_heights(v));
    } else {
        assert(child_heights(w) =~= child_heights(v));
    }
}

pub(crate) proof fn lemma_height_toggled(v: FileNodeView, target: Seq<char>, expand: bool)
    ensures
        height(toggled_at(v, target, expand)) == height(v),
    decreases v,
{
    let w = toggled_at(v, target, expand);
    if v.relative_path == target {
        if expand && v.is_dir {
            assert(child_heights(w) =~= child_heights(v));
        } else {
            lemma_height_with_selection(v, !v.selected);
        }
    } else if v.is_dir {
        assert forall|i: int| 0 <= i < v.children.len() implies #[trigger] child_heights(w)[i]
            == child_heights(v)[i] by {
            lemma_height_toggled(v.children[i], target, expand);
        }
        assert(child_heights(w) =~= child_heights(v));
    }
}

impl FileNode {
    /// A node without children, unselected and collapsed.
    pub fn new_leaf(name: String, relative_path: String, is_dir: bool) -> (r: FileNode)
        ensures
            r@ == leaf_view(name@, relative_path@, is_dir),
    {
        let r = FileNode {
            name,
            relative_path,
            is_dir,
            selected: false,
            expanded: false,
            children: Vec::new(),
        };
        assert(r@.children =~= Seq::<FileNodeView>::empty());
        r
    }

    /// A copy of the node and everything below it.
    pub fn duplicate(&self) -> (r: FileNode)
        ensures
            r@ == self@,
        decreases self,
    {
        let mut kids: Vec<FileNode> = Vec::new();
        let n = self.children.len();
        let mut i: usize = 0;
        while i < n
            invariant
                n == self.children@.len(),
                i <= n,
                kids@.len() == i,
                forall|j: int| 0 <= j < i ==> (#[trigger] kids@[j])@ == self.children@[j]@,
            decreases n - i,
        {
            proof {
                assert(decreases_to!(*self => self.children));
                assert(decreases_to!(self.children => self.children@));
                assert(decreases_to!(self.children@ => self.children@[i as int]));
            }
            let c = self.children[i].duplicate();
            kids.push(c);
            i = i + 1;
        }
        let r = FileNode {
            name: self.name.clone(),
            relative_path: self.relative_path.clone(),
            is_dir: self.is_dir,
            selected: self.selected,
            expanded: self.expanded,
            children: kids,
        };
        assert(r@.children =~= self@.children);
        r
    }

    /// The name shown for the node: directories end in `/`.
    pub fn display_name(&self) -> (r: String)
        ensures
            r@ == display_name_spec(self@),
    {
        if self.is_dir {
            self.name.clone().concat("/")
        } else {
            self.name.clone()
        }
    }

    /// Flips the node's selection; a directory passes its new state on to
    /// everything below it.
    pub fn toggle_selected(&mut self)
        ensures
            final(self)@ == with_selection(old(self)@, !old(self)@.selected),
    {
        self.selected = !self.selected;
        if self.is_dir {
            let sel = self.selected;
            self.set_children_selected(sel);
        }
        proof {
            let v = old(self)@;
            if !v.is_dir {
                assert(final(self)@.children =~= v.children);
            } else {
                assert(final(self)@.children =~= with_selection(v, !v.selected).children);
            }
        }
    }

    fn set_children_selected(&mut self, selected: bool)
        ensures
            final(self)@ == (FileNodeView {
                children: children_with_selection(old(self)@, selected),
                ..old(self)@
            }),
        decreases *old(self),
    {
        let n = self.children.len();
        let ghost old_kids = old(self)@.children;
        let mut i: usize = 0;
        while i < n
            invariant
                0 <= i <= n,
                n == self.children@.len(),
                n == old(self).children@.len(),
                old_kids.len() == n,
                forall|j: int| 0 <= j < n ==> old_kids[j] == #[trigger] old(self).children@[j]@,
                self.name == old(self).name,
                self.relative_path == old(self).relative_path,
                self.is_dir == old(self).is_dir,
                self.selected == old(self).selected,
                self.expanded == old(self).expanded,
                forall|j: int|
                    0 <= j < i ==> #[trigger] self.children@[j]@ == with_selection(
                        old_kids[j],
                        selected,
                    ),
                forall|j: int| i <= j < n ==> #[trigger] self.children@[j] == old(self).children@[j],
            decreases n - i,
        {
            proof {
                assert(decreases_to!(*old(self) => old(self).children));
                assert(decreases_to!(old(self).children => old(self).children@));
                assert(decreases_to!(old(self).children@ => old(self).children@[i as int]));
            }
            let ghost before = self.children@[i as int];
            let child = &mut self.children[i];
            if child.is_dir {
                child.set_children_selected(selected);
            }
            child.selected = selected;
            proof {
                let v = before@;
                assert(self.children@[i as int]@.children =~= with_selection(v, selected).children);
            }
            i = i + 1;
        }
        assert(self@.children =~= children_with_selection(old(self)@, selected)) by {
            assert forall|j: int| 0 <= j < n implies self@.children[j] == with_selection(
                old_kids[j],
                selected,
            ) by {
                assert(self@.children[j] == self.children@[j]@);
            }
        }
    }

    /// Flips the expansion of a directory; other nodes stay as they are.
    pub fn toggle_expanded(&mut self)
        ensures
            final(self)@ == with_expansion_toggled(old(self)@),
    {
        if self.is_dir {
            self.expanded = !self.expanded;
        }
        assert(final(self)@.children =~= old(self)@.children);
    }

    /// Sets the node's selection, and for a directory that of everything
    /// below it, to `selected`.
    pub fn select_all(&mut self, selected: bool)
        ensures
            final(self)@ == with_selection(old(self)@, selected),
    {
        self.selected = selected;
        if self.is_dir {
            self.set_children_selected(selected);
        }
        proof {
            let v = old(self)@;
            if !v.is_dir {
                assert(final(self)@.children =~= v.children);
            } else {
                assert(final(self)@.children =~= with_selection(v, selected).children);
            }
        }
    }

    /// The paths of the selected files below and at this node, in pre-order.
    pub fn collect_selected(&self) -> (r: Vec<String>)
        ensures
            views(r@) == selected_files(self@),
    {
        let mut result: Vec<String> = Vec::new();
        self.collect_selected_into(&mut result);
        assert(views(result@) =~= views(Seq::<String>::empty()) + selected_files(self@));
        result
    }

    fn collect_selected_into(&self, result: &mut Vec<String>)
        ensures
            views(final(result)@) == views(old(result)@) + selected_files(self@),
        decreases self,
    {
        if !self.is_dir && self.selected {
            result.push(self.relative_path.clone());
        }
        let ghost v = self@;
        let ghost head = views(old(result)@) + (if !v.is_dir && v.selected {
            seq![v.relative_path]
        } else {
            Seq::empty()
        });
        assert(views(result@) =~= head);
        let n = self.children.len();
        let mut i: usize = 0;
        while i < n
            invariant
                n == self.children@.len(),
                v == self@,
                i <= n,
                views(result@) == head + selected_lists(v).take(i as int).flatten(),
            decreases n - i,
        {
            proof {
                assert(decreases_to!(*self => self.children));
                assert(decreases_to!(self.children => self.children@));
                assert(decreases_to!(self.children@ => self.children@[i as int]));
            }
            let ghost before = views(result@);
            self.children[i].collect_selected_into(result);
            proof {
                assert(v.children[i as int] == self.children@[i as int]@);
                let t = selected_lists(v).take(i + 1);
                assert(t =~= selected_lists(v).take(i as int).push(selected_files(v.children[i as int])));
                assert(views(result@) =~= head + t.flatten());
            }
            i = i + 1;
        }
        assert(selected_lists(v).take(n as int) =~= selected_lists(v));
    }

    /// Whether a file at or below this node is selected.
    pub fn has_selected_children(&self) -> (r: bool)
        ensures
            r == (selected_files(self@).len() > 0),
        decreases self,
    {
        if !self.is_dir && self.selected {
            return true;
        }
        let ghost v = self@;
        let n = self.children.len();
        let mut i: usize = 0;
        while i < n
            invariant
                n == self.children@.len(),
                v == self@,
                !(!v.is_dir && v.selected),
                i <= n,
                selected_lists(v).take(i as int).flatten().len() == 0,
            decreases n - i,
        {
            proof {
                assert(decreases_to!(*self => self.children));
                assert(decreases_to!(self.children => self.children@));
                assert(decreases_to!(self.children@ => self.children@[i as int]));
            }
            let found = self.children[i].has_selected_children();
            proof {
                assert(v.children[i as int] == self.children@[i as int]@);
                assert(selected_lists(v)[i as int] == selected_files(v.children[i as int]));
            }
            if found {
                proof {
                    selected_lists(v).lemma_flatten_length_ge_single_element_length(i as int);
                    selected_lists(v).lemma_flatten_and_flatten_alt_are_equivalent();
                }
                return true;
            }
            proof {
                let t = selected_lists(v).take(i + 1);
                assert(t =~= selected_lists(v).take(i as int).push(selected_files(v.children[i as int])));
            }
            i = i + 1;
        }
        assert(selected_lists(v).take(n as int) =~= selected_lists(v));
        false
    }

}

/// Appends the rows shown for `node` standing at `depth`: the node (unless
/// it is a nested node with an empty path), then, for an expanded directory,
/// the rows of its children one level deeper.
pub fn flatten_tree_for_display(node: &FileNode, depth: usize, items: &mut Vec<(usize, FileNode)>)
    requires
        depth + height(node@) <= usize::MAX,
    ensures
        item_views(final(items)@) == item_views(old(items)@) + display_items(node@, depth as int),
    decreases node,
{
    let ghost v = node@;
    if !node.relative_path.as_str().is_empty() || depth == 0 {
        items.push((depth, node.duplicate()));
    }
    let ghost head = item_views(old(items)@) + (if v.relative_path.len() > 0 || depth == 0 {
        seq![(depth as int, v)]
    } else {
        Seq::empty()
    });
    assert(item_views(items@) =~= head);
    if node.is_dir && node.expanded {
        let n = node.children.len();
        let mut i: usize = 0;
        while i < n
            invariant
                n == node.children@.len(),
                v == node@,
                v.is_dir && v.expanded,
                depth + height(v) <= usize::MAX,
                i <= n,
                item_views(items@) == head + display_lists(v, depth + 1).take(i as int).flatten(),
            decreases n - i,
        {
            proof {
                assert(decreases_to!(*node => node.children));
                assert(decreases_to!(node.children => node.children@));
                assert(decreases_to!(node.children@ => node.children@[i as int]));
                assert(v.children[i as int] == node.children@[i as int]@);
                lemma_child_height(v, i as int);
            }
            flatten_tree_for_display(&node.children[i], depth + 1, items);
            proof {
                let t = display_lists(v, depth + 1).take(i + 1);
                assert(t =~= display_lists(v, depth + 1).take(i as int).push(
                    display_items(v.children[i as int], depth + 1),
                ));
                assert(item_views(items@) =~= head + t.flatten());
            }
            i = i + 1;
        }
        assert(display_lists(v, depth + 1).take(n as int) =~= display_lists(v, depth + 1));
    }
}

/// Toggles every node whose path is `target`: the expansion of a directory
/// when `toggle_expand` is set, else the selection (passed on to everything
/// below); the search does not go below a toggled node.
pub fn toggle_node_by_path(
    node: &mut FileNode,
    target: &String,
    _is_dir_toggle: bool,
    toggle_expand: bool,
)
    ensures
        final(node)@ == toggled_at(old(node)@, target@, toggle_expand),
    decreases *old(node),
{
    if node.relative_path == *target {
        if toggle_expand && node.is_dir {
            node.toggle_expanded();
        } else {
            node.toggle_selected();
        }
        return;
    }
    if node.is_dir {
        let n = node.children.len();
        let ghost old_kids = old(node)@.children;
        let mut i: usize = 0;
        while i < n
            invariant
                0 <= i <= n,
                n == node.children@.len(),
                n == old(node).children@.len(),
                old_kids.len() == n,
                forall|j: int| 0 <= j < n ==> old_kids[j] == #[trigger] old(node).children@[j]@,
                node.name == old(node).name,
                node.relative_path == old(node).relative_path,
                node.is_dir == old(node).is_dir,
                node.selected == old(node).selected,
                node.expanded == old(node).expanded,
                forall|j: int|
                    0 <= j < i ==> #[trigger] node.children@[j]@ == toggled_at(
                        old_kids[j],
                        target@,
                        toggle_expand,
                    ),
                forall|j: int| i <= j < n ==> #[trigger] node.children@[j] == old(node).children@[j],
            decreases n - i,
        {
            proof {
                assert(decreases_to!(*old(node) => old(node).children));
                assert(decreases_to!(old(node).children => old(node).children@));
                assert(decreases_to!(old(node).children@ => old(node).children@[i as int]));
            }
            toggle_node_by_path(&mut node.children[i], target, _is_dir_toggle, toggle_expand);
            i = i + 1;
        }
        assert(node@.children =~= toggled_children(old(node)@, target@, toggle_expand)) by {
            assert forall|j: int| 0 <= j < n implies node@.children[j] == toggled_at(
                old_kids[j],
                target@,
                toggle_expand,
            ) by {
                assert(node@.children[j] == node.children@[j]@);
            }
        }
    } else {
        assert(node@.children =~= old(node)@.children);
    }
}

/// The position of the first child with the given name and kind.
fn find_child(kids: &Vec<FileNode>, name: &String, is_dir: bool) -> (r: Option<usize>)
    ensures
        match r {
            Some(k) => k as int == first_match(node_views(kids@), name@, is_dir) && k < kids@.len(),
            None => first_match(node_views(kids@), name@, is_dir) == -1,
        },
{
    let n = kids.len();
    let ghost ks = node_views(kids@);
    let mut i: usize = 0;
    while i < n
        invariant
            n == kids@.len(),
            ks == node_views(kids@),
            i <= n,
            forall|j: int| 0 <= j < i ==> !child_matches(#[trigger] ks[j], name@, is_dir),
        decreases n - i,
    {
        if kids[i].name == *name && kids[i].is_dir == is_dir {
            proof {
                lemma_first_match(ks, name@, is_dir, i as int);
            }
            return Some(i);
        }
        i = i + 1;
    }
    proof {
        lemma_first_match(ks, name@, is_dir, n as int);
    }
    None
}

proof fn lemma_first_match(kids: Seq<FileNodeView>, name: Seq<char>, is_dir: bool, i: int)
    requires
        0 <= i <= kids.len(),
        forall|j: int| 0 <= j < i ==> !child_matches(#[trigger] kids[j], name, is_dir),
    ensures
        i < kids.len() && child_matches(kids[i], name, is_dir) ==> first_match(kids, name, is_dir)
            == i,
        i == kids.len() ==> first_match(kids, name, is_dir) == -1,
    decreases i,
{
    if i > 0 {
        let rest = kids.drop_first();
        assert forall|j: int| 0 <= j < i - 1 implies !child_matches(#[trigger] rest[j], name, is_dir) by {
            assert(rest[j] == kids[j + 1]);
        }
        lemma_first_match(rest, name, is_dir, i - 1);
        assert(!child_matches(kids[0], name, is_dir));
        if i < kids.len() {
            assert(rest[i - 1] == kids[i]);
        }
    }
}

fn insert_below(node: &mut FileNode, parts: &Vec<String>, start: usize, is_dir: bool)
    requires
        start <= parts@.len(),
    ensures
        final(node)@ == insert_from(old(node)@, views(parts@), start as int, is_dir),
    decreases parts@.len() - start,
{
    if start >= parts.len() {
        return;
    }
    let name = parts[start].clone();
    let d = if start + 1 == parts.len() {
        is_dir
    } else {
        true
    };
    let ghost ps = views(parts@);
    assert(ps[start as int] == name@);
    let found = find_child(&node.children, &name, d);
    assert(node_views(node.children@) =~= old(node)@.children);
    match found {
        Some(k) => {
            let ghost kid = node.children@[k as int]@;
            insert_below(&mut node.children[k], parts, start + 1, is_dir);
            proof {
                assert(node@.children =~= old(node)@.children.update(
                    k as int,
                    insert_from(kid, ps, start + 1, is_dir),
                )) by {
                    assert forall|j: int| 0 <= j < node@.children.len() implies node@.children[j]
                        == old(node)@.children.update(
                        k as int,
                        insert_from(kid, ps, start + 1, is_dir),
                    )[j] by {
                        assert(node@.children[j] == node.children@[j]@);
                    }
                }
            }
        },
        None => {
            let rel = join_first(parts, start + 1, "/");
            let mut leaf = FileNode::new_leaf(name, rel, d);
            insert_below(&mut leaf, parts, start + 1, is_dir);
            let ghost leaf_v = leaf@;
            node.children.push(leaf);
            proof {
                assert(node@.children =~= old(node)@.children.push(leaf_v)) by {
                    assert forall|j: int| 0 <= j < node@.children.len() implies node@.children[j]
                        == old(node)@.children.push(leaf_v)[j] by {
                        assert(node@.children[j] == node.children@[j]@);
                    }
                }
            }
        },
    }
}

/// Inserts the path made of `parts` below `root`: every component but the
/// last is a directory, the last is a directory when `is_dir` is set. Each
/// component goes into the first child of the same name and kind, or into a
/// new node appended after the existing children.
pub fn insert_node(root: &mut FileNode, parts: &Vec<String>, is_dir: bool)
    ensures
        final(root)@ == insert_from(old(root)@, views(parts@), 0, is_dir),
{
    if parts.len() == 0 {
        return;
    }
    insert_below(root, parts, 0, is_dir);
}

/// The root of a tree: an expanded directory named after the walked
/// directory, or `.` when it has no name.
pub fn root_node(file_name: Option<String>) -> (r: FileNode)
    ensures
        r@ == root_view(
            match file_name {
                Some(n) => n@,
                None => "."@,
            },
        ),
{
    let name = match file_name {
        Some(n) => n,
        None => String::from_str("."),
    };
    let mut r = FileNode::new_leaf(name, String::new(), true);
    r.expanded = true;
    assert(r@.children =~= Seq::<FileNodeView>::empty());
    r
}

/// The tree of the entries of a directory walk (path components and kind,
/// in walk order) below a root named `root_name`.
pub fn tree_from_entries(root_name: Option<String>, entries: &Vec<(Vec<String>, bool)>) -> (r: FileNode)
    ensures
        r@ == insert_all(
            root_view(
                match root_name {
                    Some(n) => n@,
                    None => "."@,
                },
            ),
            entry_views(entries@),
        ),
{
    let mut root = root_node(root_name);
    let ghost start = root@;
    let n = entries.len();
    let mut i: usize = 0;
    while i < n
        invariant
            n == entries@.len(),
            i <= n,
            root@ == insert_all(start, entry_views(entries@).take(i as int)),
        decreases n - i,
    {
        insert_node(&mut root, &entries[i].0, entries[i].1);
        proof {
            let t = entry_views(entries@).take(i + 1);
            assert(t.drop_last() =~= entry_views(entries@).take(i as int));
        }
        i = i + 1;
    }
    assert(entry_views(entries@).take(n as int) =~= entry_views(entries@));
    root
}

/// The views of walk entries.
pub open spec fn entry_views(s: Seq<(Vec<String>, bool)>) -> Seq<(Seq<Seq<char>>, bool)> {
    s.map_values(|e: (Vec<String>, bool)| (views(e.0@), e.1))
}

/// The order in which a directory walk lists two entries, given whether
/// each is a directory and the bytes of its name: directories first, then by
/// name.
pub fn compare_entries(a_is_dir: bool, a_name: &[u8], b_is_dir: bool, b_name: &[u8]) -> (r: EntryOrder)
    ensures
        r == entry_order(a_is_dir, a_name@, b_is_dir, b_name@),
{
    if a_is_dir && !b_is_dir {
        return EntryOrder::Less;
    }
    if !a_is_dir && b_is_dir {
        return EntryOrder::Greater;
    }
    let an = a_name.len();
    let bn = b_name.len();
    let mut i: usize = 0;
    assert(a_name@.skip(0) =~= a_name@);
    assert(b_name@.skip(0) =~= b_name@);
    while i < an && i < bn
        invariant
            a_is_dir == b_is_dir,
            an == a_name@.len(),
            bn == b_name@.len(),
            i <= an,
            i <= bn,
            lex_order(a_name@, b_name@) == lex_order(a_name@.skip(i as int), b_name@.skip(i as int)),
        decreases an - i,
    {
        let x = a_name[i];
        let y = b_name[i];
        proof {
            assert(a_name@.skip(i as int)[0] == x);
            assert(b_name@.skip(i as int)[0] == y);
            assert(a_name@.skip(i as int).len() > 0);
            assert(b_name@.skip(i as int).len() > 0);
        }
        if x < y {
            return EntryOrder::Less;
        }
        if x > y {
            return EntryOrder::Greater;
        }
        proof {
            assert(a_name@.skip(i as int).drop_first() =~= a_name@.skip(i + 1));
            assert(b_name@.skip(i as int).drop_first() =~= b_name@.skip(i + 1));
        }
        i = i + 1;
    }
    assert(a_name@.skip(i as int).len() == an - i);
    assert(b_name@.skip(i as int).len() == bn - i);
    if i == an && i == bn {
        EntryOrder::Equal
    } else if i == an {
        EntryOrder::Less
    } else {
        EntryOrder::Greater
    }
}

/// The path `parts[start..]` can be followed down from the node: each
/// component leads, as `insert_node` looks it up, to a child of that name
/// and kind.
pub open spec fn has_path(v: FileNodeView, parts: Seq<Seq<char>>, start: int, is_dir: bool) -> bool
    decreases parts.len() - start,
{
    if start < 0 || start >= parts.len() {
        true
    } else {
        let k = first_match(v.children, parts[start], component_is_dir(start, parts.len() as int, is_dir));
        k >= 0 && has_path(v.children[k], parts, start + 1, is_dir)
    }
}

/// The relative path of a child called `name` of a node whose relative path
/// is `parent`: the name alone below the root (empty path), else the
/// parent's path, `/` and the name.
pub open spec fn child_path(parent: Seq<char>, name: Seq<char>) -> Seq<char> {
    if parent.len() == 0 {
        name
    } else {
        parent + "/"@ + name
    }
}

/// In the whole subtree, each child's relative path is its parent's path
/// joined with its name, and no two children of a node share both name and
/// kind.
pub open spec fn tidy(v: FileNodeView) -> bool
    decreases v,
{
    &&& forall|i: int|
        0 <= i < v.children.len() ==> (#[trigger] v.children[i]).relative_path == child_path(
            v.relative_path,
            v.children[i].name,
        )
    &&& forall|i: int, j: int|
        #![trigger v.children[i], v.children[j]]
        0 <= i < j < v.children.len() ==> !child_matches(
            v.children[j],
            v.children[i].name,
            v.children[i].is_dir,
        )
    &&& forall|i: int| 0 <= i < v.children.len() ==> tidy(#[trigger] v.children[i])
}

/// A node and its whole subtree are unselected and collapsed.
pub open spec fn all_fresh(v: FileNodeView) -> bool
    decreases v,
{
    &&& !v.selected
    &&& !v.expanded
    &&& forall|i: int| 0 <= i < v.children.len() ==> all_fresh(#[trigger] v.children[i])
}

/// `w` is `v` with nodes added: every node of `v` is still there with its
/// name, path, kind, selection and expansion, at the same place among its
/// siblings, and every added node comes after the old siblings and is,
/// with its subtree, unselected and collapsed.
pub open spec fn extends(v: FileNodeView, w: FileNodeView) -> bool
    decreases v,
{
    &&& w.name == v.name
    &&& w.relative_path == v.relative_path
    &&& w.is_dir == v.is_dir
    &&& w.selected == v.selected
    &&& w.expanded == v.expanded
    &&& v.children.len() <= w.children.len()
    &&& forall|i: int|
        0 <= i < v.children.len() ==> extends(#[trigger] v.children[i], w.children[i])
    &&& forall|i: int|
        v.children.len() <= i < w.children.len() ==> all_fresh(#[trigger] w.children[i])
}

/// Every component of a path is non-empty.
pub open spec fn components_nonempty(parts: Seq<Seq<char>>) -> bool {
    forall|i: int| 0 <= i < parts.len() ==> (#[trigger] parts[i]).len() > 0
}

proof fn lemma_first_match_props(kids: Seq<FileNodeView>, name: Seq<char>, is_dir: bool)
    ensures
        first_match(kids, name, is_dir) >= 0 ==> {
            let r = first_match(kids, name, is_dir);
            &&& r < kids.len()
            &&& child_matches(kids[r], name, is_dir)
            &&& forall|j: int| 0 <= j < r ==> !child_matches(#[trigger] kids[j], name, is_dir)
        },
        first_match(kids, name, is_dir) < 0 ==> first_match(kids, name, is_dir) == -1 && forall|j: int|
            0 <= j < kids.len() ==> !child_matches(#[trigger] kids[j], name, is_dir),
    decreases kids.len(),
{
    if kids.len() > 0 {
        let rest = kids.drop_first();
        lemma_first_match_props(rest, name, is_dir);
        assert forall|j: int| 1 <= j < kids.len() implies kids[j] == rest[j - 1] by {}
    }
}

proof fn lemma_first_match_update(kids: Seq<FileNodeView>, name: Seq<char>, is_dir: bool, c: FileNodeView)
    requires
        first_match(kids, name, is_dir) >= 0,
        child_matches(c, name, is_dir),
    ensures
        first_match(kids.update(first_match(kids, name, is_dir), c), name, is_dir) == first_match(
            kids,
            name,
            is_dir,
        ),
{
    let k = first_match(kids, name, is_dir);
    lemma_first_match_props(kids, name, is_dir);
    let u = kids.update(k, c);
    assert forall|j: int| 0 <= j < k implies !child_matches(#[trigger] u[j], name, is_dir) by {
        assert(u[j] == kids[j]);
    }
    lemma_first_match(u, name, is_dir, k);
}

proof fn lemma_first_match_push(kids: Seq<FileNodeView>, name: Seq<char>, is_dir: bool, c: FileNodeView)
    requires
        first_match(kids, name, is_dir) < 0,
        child_matches(c, name, is_dir),
    ensures
        first_match(kids.push(c), name, is_dir) == kids.len(),
{
    lemma_first_match_props(kids, name, is_dir);
    let u = kids.push(c);
    assert forall|j: int| 0 <= j < kids.len() implies !child_matches(#[trigger] u[j], name, is_dir) by {
        assert(u[j] == kids[j]);
    }
    lemma_first_match(u, name, is_dir, kids.len() as int);
}

proof fn lemma_insert_keeps_node(v: FileNodeView, parts: Seq<Seq<char>>, start: int, is_dir: bool)
    ensures
        insert_from(v, parts, start, is_dir).name == v.name,
        insert_from(v, parts, start, is_dir).relative_path == v.relative_path,
        insert_from(v, parts, start, is_dir).is_dir == v.is_dir,
        insert_from(v, parts, start, is_dir).selected == v.selected,
        insert_from(v, parts, start, is_dir).expanded == v.expanded,
{
}

proof fn lemma_first_match_same_shape(
    kids: Seq<FileNodeView>,
    i: int,
    c: FileNodeView,
    name: Seq<char>,
    is_dir: bool,
)
    requires
        0 <= i < kids.len(),
        c.name == kids[i].name,
        c.is_dir == kids[i].is_dir,
    ensures
        first_match(kids.update(i, c), name, is_dir) == first_match(kids, name, is_dir),
{
    let u = kids.update(i, c);
    lemma_first_match_props(kids, name, is_dir);
    let r = first_match(kids, name, is_dir);
    assert forall|j: int| 0 <= j < kids.len() implies (child_matches(#[trigger] u[j], name, is_dir)
        <==> child_matches(kids[j], name, is_dir)) by {}
    if r >= 0 {
        lemma_first_match(u, name, is_dir, r);
    } else {
        lemma_first_match(u, name, is_dir, kids.len() as int);
    }
}

proof fn lemma_first_match_push_found(kids: Seq<FileNodeView>, c: FileNodeView, name: Seq<char>, is_dir: bool)
    requires
        first_match(kids, name, is_dir) >= 0,
    ensures
        first_match(kids.push(c), name, is_dir) == first_match(kids, name, is_dir),
{
    lemma_first_match_props(kids, name, is_dir);
    let r = first_match(kids, name, is_dir);
    let u = kids.push(c);
    assert forall|j: int| 0 <= j <= r implies #[trigger] u[j] == kids[j] by {}
    lemma_first_match(u, name, is_dir, r);
}

/// Inserting a path keeps every path that could already be followed down
/// from the node.
pub proof fn insert_keeps_paths(
    v: FileNodeView,
    p: Seq<Seq<char>>,
    sp: int,
    dp: bool,
    q: Seq<Seq<char>>,
    sq: int,
    dq: bool,
)
    requires
        has_path(v, p, sp, dp),
    ensures
        has_path(insert_from(v, q, sq, dq), p, sp, dp),
    decreases p.len() - sp,
{
    if 0 <= sp < p.len() && 0 <= sq < q.len() {
        let pd = component_is_dir(sp, p.len() as int, dp);
        let k = first_match(v.children, p[sp], pd);
        lemma_first_match_props(v.children, p[sp], pd);
        let qname = q[sq];
        let qd = component_is_dir(sq, q.len() as int, dq);
        let k2 = first_match(v.children, qname, qd);
        lemma_first_match_props(v.children, qname, qd);
        let w = insert_from(v, q, sq, dq);
        if k2 >= 0 {
            let c = insert_from(v.children[k2], q, sq + 1, dq);
            lemma_insert_keeps_node(v.children[k2], q, sq + 1, dq);
            lemma_first_match_same_shape(v.children, k2, c, p[sp], pd);
            if k2 == k {
                insert_keeps_paths(v.children[k], p, sp + 1, dp, q, sq + 1, dq);
            } else {
                assert(w.children[k] == v.children[k]);
            }
        } else {
            let leaf = leaf_view(qname, join_seq(q.take(sq + 1), "/"@), qd);
            let c = insert_from(leaf, q, sq + 1, dq);
            lemma_first_match_push_found(v.children, c, p[sp], pd);
            assert(w.children[k] == v.children[k]);
        }
    }
}

/// Every entry of a directory walk can be followed down from the tree built
/// from the walk.
pub proof fn walked_entries_present(root: FileNodeView, entries: Seq<(Seq<Seq<char>>, bool)>, i: int)
    requires
        0 <= i < entries.len(),
    ensures
        has_path(insert_all(root, entries), entries[i].0, 0, entries[i].1),
    decreases entries.len(),
{
    let init = entries.drop_last();
    let last = entries.last();
    if i == entries.len() - 1 {
        inserted_path_present(insert_all(root, init), last.0, 0, last.1);
    } else {
        walked_entries_present(root, init, i);
        assert(init[i] == entries[i]);
        insert_keeps_paths(insert_all(root, init), entries[i].0, 0, entries[i].1, last.0, 0, last.1);
    }
}

/// The tree built from a directory walk is well formed, with a directory
/// at its root.
pub proof fn walked_tree_well_formed(name: Seq<char>, entries: Seq<(Seq<Seq<char>>, bool)>)
    ensures
        well_formed(insert_all(root_view(name), entries)),
        insert_all(root_view(name), entries).is_dir,
    decreases entries.len(),
{
    if entries.len() > 0 {
        let init = entries.drop_last();
        let last = entries.last();
        walked_tree_well_formed(name, init);
        insert_keeps_well_formed(insert_all(root_view(name), init), last.0, 0, last.1);
        lemma_insert_keeps_node(insert_all(root_view(name), init), last.0, 0, last.1);
    }
}

proof fn lemma_join_nonempty(s: Seq<Seq<char>>)
    requires
        s.len() >= 1,
        components_nonempty(s),
    ensures
        join_seq(s, "/"@).len() > 0,
{
    assert(s[s.len() - 1].len() > 0);
}

proof fn lemma_join_step(parts: Seq<Seq<char>>, start: int)
    requires
        0 <= start < parts.len(),
        components_nonempty(parts),
    ensures
        join_seq(parts.take(start + 1), "/"@) == child_path(
            join_seq(parts.take(start), "/"@),
            parts[start],
        ),
{
    let t = parts.take(start + 1);
    if start == 0 {
        assert(t.len() == 1 && t[0] == parts[0]);
        assert(parts.take(0).len() == 0);
    } else {
        assert(t.drop_last() =~= parts.take(start));
        assert(t.last() == parts[start]);
        let h = parts.take(start);
        assert forall|i: int| 0 <= i < h.len() implies (#[trigger] h[i]).len() > 0 by {
            assert(h[i] == parts[i]);
        }
        lemma_join_nonempty(h);
    }
}

/// Inserting a path of non-empty components below a tidy node whose path is
/// made of the components before `start` keeps it tidy: the new nodes get
/// their parent's path joined with their name, and a component that matches
/// an existing child goes into it instead of beside it.
pub proof fn insert_keeps_tidy(v: FileNodeView, parts: Seq<Seq<char>>, start: int, is_dir: bool)
    requires
        tidy(v),
        components_nonempty(parts),
        0 <= start,
        start < parts.len() ==> v.relative_path == join_seq(parts.take(start), "/"@),
    ensures
        tidy(insert_from(v, parts, start, is_dir)),
    decreases parts.len() - start,
{
    if start < parts.len() {
        let name = parts[start];
        let d = component_is_dir(start, parts.len() as int, is_dir);
        let k = first_match(v.children, name, d);
        lemma_first_match_props(v.children, name, d);
        lemma_join_step(parts, start);
        let path = join_seq(parts.take(start + 1), "/"@);
        let w = insert_from(v, parts, start, is_dir);
        if k >= 0 {
            let c = v.children[k];
            assert(tidy(c));
            assert(c.relative_path == path);
            insert_keeps_tidy(c, parts, start + 1, is_dir);
            lemma_insert_keeps_node(c, parts, start + 1, is_dir);
            assert forall|i: int| 0 <= i < w.children.len() implies #[trigger] w.children[i].name
                == v.children[i].name && w.children[i].is_dir == v.children[i].is_dir
                && w.children[i].relative_path == v.children[i].relative_path && tidy(
                w.children[i],
            ) by {
                if i != k {
                    assert(w.children[i] == v.children[i]);
                }
            }
            assert forall|i: int, j: int|
                #![trigger w.children[i], w.children[j]]
                0 <= i < j < w.children.len() implies !child_matches(
                w.children[j],
                w.children[i].name,
                w.children[i].is_dir,
            ) by {
                assert(!child_matches(v.children[j], v.children[i].name, v.children[i].is_dir));
            }
        } else {
            let leaf = leaf_view(name, path, d);
            assert(tidy(leaf));
            insert_keeps_tidy(leaf, parts, start + 1, is_dir);
            lemma_insert_keeps_node(leaf, parts, start + 1, is_dir);
            let n = v.children.len() as int;
            assert forall|i: int| 0 <= i < n implies #[trigger] w.children[i] == v.children[i] by {}
            assert forall|i: int| 0 <= i < w.children.len() implies (
            #[trigger] w.children[i]).relative_path == child_path(w.relative_path, w.children[i].name)
                && tidy(w.children[i]) by {
                if i < n {
                    assert(w.children[i] == v.children[i]);
                }
            }
            assert forall|i: int, j: int|
                #![trigger w.children[i], w.children[j]]
                0 <= i < j < w.children.len() implies !child_matches(
                w.children[j],
                w.children[i].name,
                w.children[i].is_dir,
            ) by {
                if j < n {
                    assert(!child_matches(v.children[j], v.children[i].name, v.children[i].is_dir));
                } else {
                    assert(!child_matches(v.children[i], name, d));
                }
            }
        }
    }
}

/// A path that can already be followed down from the node is not inserted
/// again: the node stays as it is.
pub proof fn insert_present_unchanged(v: FileNodeView, parts: Seq<Seq<char>>, start: int, is_dir: bool)
    requires
        has_path(v, parts, start, is_dir),
    ensures
        insert_from(v, parts, start, is_dir) == v,
    decreases parts.len() - start,
{
    if 0 <= start < parts.len() {
        let name = parts[start];
        let d = component_is_dir(start, parts.len() as int, is_dir);
        let k = first_match(v.children, name, d);
        lemma_first_match_props(v.children, name, d);
        insert_present_unchanged(v.children[k], parts, start + 1, is_dir);
        assert(v.children.update(k, insert_from(v.children[k], parts, start + 1, is_dir))
            =~= v.children);
    }
}

/// The tree built from a directory walk whose paths have non-empty
/// components is tidy, and its root keeps the empty path.
pub proof fn walked_tree_tidy(name: Seq<char>, entries: Seq<(Seq<Seq<char>>, bool)>)
    requires
        forall|i: int| 0 <= i < entries.len() ==> components_nonempty(#[trigger] entries[i].0),
    ensures
        tidy(insert_all(root_view(name), entries)),
        insert_all(root_view(name), entries).relative_path.len() == 0,
    decreases entries.len(),
{
    if entries.len() > 0 {
        let init = entries.drop_last();
        let last = entries.last();
        assert forall|i: int| 0 <= i < init.len() implies components_nonempty(
            #[trigger] init[i].0,
        ) by {
            assert(init[i] == entries[i]);
        }
        walked_tree_tidy(name, init);
        assert(components_nonempty(entries[entries.len() - 1].0));
        let prev = insert_all(root_view(name), init);
        assert(last.0.take(0) =~= Seq::<Seq<char>>::empty());
        assert(prev.relative_path =~= join_seq(last.0.take(0), "/"@));
        insert_keeps_tidy(prev, last.0, 0, last.1);
        lemma_insert_keeps_node(prev, last.0, 0, last.1);
    } else {
        assert(root_view(name).children.len() == 0);
    }
}

proof fn lemma_extends_refl(v: FileNodeView)
    ensures
        extends(v, v),
    decreases v,
{
    assert forall|i: int| 0 <= i < v.children.len() implies extends(
        #[trigger] v.children[i],
        v.children[i],
    ) by {
        lemma_extends_refl(v.children[i]);
    }
}

proof fn lemma_insert_fresh(v: FileNodeView, parts: Seq<Seq<char>>, start: int, is_dir: bool)
    requires
        all_fresh(v),
    ensures
        all_fresh(insert_from(v, parts, start, is_dir)),
    decreases parts.len() - start,
{
    if 0 <= start < parts.len() {
        let name = parts[start];
        let d = component_is_dir(start, parts.len() as int, is_dir);
        let k = first_match(v.children, name, d);
        lemma_first_match_props(v.children, name, d);
        let w = insert_from(v, parts, start, is_dir);
        if k >= 0 {
            lemma_insert_fresh(v.children[k], parts, start + 1, is_dir);
            assert forall|i: int| 0 <= i < w.children.len() implies all_fresh(
                #[trigger] w.children[i],
            ) by {
                if i != k {
                    assert(w.children[i] == v.children[i]);
                }
            }
        } else {
            let leaf = leaf_view(name, join_seq(parts.take(start + 1), "/"@), d);
            lemma_insert_fresh(leaf, parts, start + 1, is_dir);
            assert forall|i: int| 0 <= i < w.children.len() implies all_fresh(
                #[trigger] w.children[i],
            ) by {
                if i < v.children.len() {
                    assert(w.children[i] == v.children[i]);
                }
            }
        }
    }
}

/// Inserting a path changes no node that was there: each keeps its name,
/// path, kind, selection and expansion and its place among its siblings.
/// The nodes it adds come after the siblings that were there, unselected
/// and collapsed; a component adds at most one node to each level.
pub proof fn insert_extends(v: FileNodeView, parts: Seq<Seq<char>>, start: int, is_dir: bool)
    ensures
        extends(v, insert_from(v, parts, start, is_dir)),
        insert_from(v, parts, start, is_dir).children.len() <= v.children.len() + 1,
    decreases parts.len() - start,
{
    let w = insert_from(v, parts, start, is_dir);
    if 0 <= start < parts.len() {
        let name = parts[start];
        let d = component_is_dir(start, parts.len() as int, is_dir);
        let k = first_match(v.children, name, d);
        lemma_first_match_props(v.children, name, d);
        if k >= 0 {
            insert_extends(v.children[k], parts, start + 1, is_dir);
            assert forall|i: int| 0 <= i < v.children.len() implies extends(
                #[trigger] v.children[i],
                w.children[i],
            ) by {
                if i != k {
                    assert(w.children[i] == v.children[i]);
                    lemma_extends_refl(v.children[i]);
                }
            }
        } else {
            let leaf = leaf_view(name, join_seq(parts.take(start + 1), "/"@), d);
            lemma_insert_fresh(leaf, parts, start + 1, is_dir);
            assert forall|i: int| 0 <= i < v.children.len() implies extends(
                #[trigger] v.children[i],
                w.children[i],
            ) by {
                assert(w.children[i] == v.children[i]);
                lemma_extends_refl(v.children[i]);
            }
            assert(w.children[v.children.len() as int] == insert_from(leaf, parts, start + 1, is_dir));
        }
    } else {
        lemma_extends_refl(v);
    }
}

proof fn lemma_flatten_len_eq<A>(a: Seq<Seq<A>>, b: Seq<Seq<A>>)
    requires
        a.len() == b.len(),
        forall|i: int| 0 <= i < a.len() ==> (#[trigger] a[i]).len() == b[i].len(),
    ensures
        a.flatten().len() == b.flatten().len(),
    decreases a.len(),
{
    if a.len() > 0 {
        let ra = a.drop_first();
        let rb = b.drop_first();
        assert forall|i: int| 0 <= i < ra.len() implies (#[trigger] ra[i]).len() == rb[i].len() by {
            assert(ra[i] == a[i + 1]);
            assert(rb[i] == b[i + 1]);
        }
        lemma_flatten_len_eq(ra, rb);
    }
}

proof fn lemma_rows_len_with_selection(v: FileNodeView, sel: bool, depth: int)
    ensures
        display_items(with_selection(v, sel), depth).len() == display_items(v, depth).len(),
    decreases v,
{
    let w = with_selection(v, sel);
    if v.is_dir && v.expanded {
        let lw = display_lists(w, depth + 1);
        let lv = display_lists(v, depth + 1);
        assert forall|i: int| 0 <= i < lw.len() implies (#[trigger] lw[i]).len() == lv[i].len() by {
            lemma_rows_len_with_selection(v.children[i], sel, depth + 1);
        }
        lemma_flatten_len_eq(lw, lv);
    }
}

/// Toggling the selection of the nodes at a path (expansion not asked for)
/// keeps the number of rows shown for the tree.
pub proof fn selection_toggle_keeps_row_count(v: FileNodeView, target: Seq<char>, depth: int)
    ensures
        display_items(toggled_at(v, target, false), depth).len() == display_items(v, depth).len(),
    decreases v,
{
    if v.relative_path == target {
        lemma_rows_len_with_selection(v, !v.selected, depth);
    } else if v.is_dir && v.expanded {
        let w = toggled_at(v, target, false);
        let lw = display_lists(w, depth + 1);
        let lv = display_lists(v, depth + 1);
        assert forall|i: int| 0 <= i < lw.len() implies (#[trigger] lw[i]).len() == lv[i].len() by {
            selection_toggle_keeps_row_count(v.children[i], target, depth + 1);
        }
        lemma_flatten_len_eq(lw, lv);
    }
}

/// Setting the selection of a subtree overrides any earlier setting: in
/// particular, toggling a node twice leaves the node and everything below
/// it in the node's first state.
pub proof fn selection_overrides(v: FileNodeView, first: bool, second: bool)
    ensures
        with_selection(with_selection(v, first), second) == with_selection(v, second),
    decreases v,
{
    let w = with_selection(v, first);
    if v.is_dir {
        assert forall|i: int| 0 <= i < v.children.len() implies with_selection(w, second).children[i]
            == with_selection(v, second).children[i] by {
            selection_overrides(v.children[i], first, second);
        }
    }
    assert(with_selection(w, second).children =~= with_selection(v, second).children);
}

/// Toggling the selection of a file twice gives back the file.
pub proof fn file_toggle_round_trip(v: FileNodeView)
    requires
        !v.is_dir,
    ensures
        with_selection(with_selection(v, !v.selected), v.selected) == v,
{
    selection_overrides(v, !v.selected, v.selected);
    assert(with_selection(v, v.selected).children =~= v.children);
}

/// Toggling the expansion of a node twice gives back the node.
pub proof fn expansion_round_trip(v: FileNodeView)
    ensures
        with_expansion_toggled(with_expansion_toggled(v)) == v,
{
}

proof fn lemma_flatten_empties<A>(s: Seq<Seq<A>>)
    requires
        forall|i: int| 0 <= i < s.len() ==> (#[trigger] s[i]).len() == 0,
    ensures
        s.flatten().len() == 0,
    decreases s.len(),
{
    if s.len() > 0 {
        let rest = s.drop_first();
        assert forall|i: int| 0 <= i < rest.len() implies (#[trigger] rest[i]).len() == 0 by {
            assert(rest[i] == s[i + 1]);
        }
        lemma_flatten_empties(rest);
        assert(s[0].len() == 0);
    }
}

/// Selecting a well-formed subtree selects exactly its files: the selected
/// files are then all its files, in tree order.
pub proof fn select_all_selects_every_file(v: FileNodeView)
    requires
        well_formed(v),
    ensures
        selected_files(with_selection(v, true)) == all_files(v),
    decreases v,
{
    let w = with_selection(v, true);
    assert forall|i: int| 0 <= i < v.children.len() implies #[trigger] selected_lists(w)[i]
        == file_lists(v)[i] by {
        select_all_selects_every_file(v.children[i]);
    }
    assert(selected_lists(w) =~= file_lists(v));
}

/// Deselecting a well-formed subtree leaves no file selected.
pub proof fn deselect_all_clears(v: FileNodeView)
    requires
        well_formed(v),
    ensures
        selected_files(with_selection(v, false)).len() == 0,
    decreases v,
{
    let w = with_selection(v, false);
    assert forall|i: int| 0 <= i < w.children.len() implies (#[trigger] selected_lists(w)[i]).len()
        == 0 by {
        deselect_all_clears(v.children[i]);
    }
    lemma_flatten_empties(selected_lists(w));
}

/// Inserting a path below a directory keeps the tree well formed: files
/// never get children.
pub proof fn insert_keeps_well_formed(v: FileNodeView, parts: Seq<Seq<char>>, start: int, is_dir: bool)
    requires
        well_formed(v),
        0 <= start < parts.len() ==> v.is_dir,
    ensures
        well_formed(insert_from(v, parts, start, is_dir)),
    decreases parts.len() - start,
{
    if 0 <= start < parts.len() {
        let name = parts[start];
        let d = component_is_dir(start, parts.len() as int, is_dir);
        let k = first_match(v.children, name, d);
        lemma_first_match_props(v.children, name, d);
        let w = insert_from(v, parts, start, is_dir);
        if k >= 0 {
            insert_keeps_well_formed(v.children[k], parts, start + 1, is_dir);
            assert forall|i: int| 0 <= i < w.children.len() implies well_formed(
                #[trigger] w.children[i],
            ) by {
                if i != k {
                    assert(w.children[i] == v.children[i]);
                }
            }
        } else {
            let leaf = leaf_view(name, join_seq(parts.take(start + 1), "/"@), d);
            insert_keeps_well_formed(leaf, parts, start + 1, is_dir);
            assert forall|i: int| 0 <= i < w.children.len() implies well_formed(
                #[trigger] w.children[i],
            ) by {
                if i < v.children.len() {
                    assert(w.children[i] == v.children[i]);
                }
            }
        }
    }
}

/// After a path is inserted, it can be followed down from the node.
pub proof fn inserted_path_present(v: FileNodeView, parts: Seq<Seq<char>>, start: int, is_dir: bool)
    ensures
        has_path(insert_from(v, parts, start, is_dir), parts, start, is_dir),
    decreases parts.len() - start,
{
    if 0 <= start < parts.len() {
        let name = parts[start];
        let d = component_is_dir(start, parts.len() as int, is_dir);
        let k = first_match(v.children, name, d);
        lemma_first_match_props(v.children, name, d);
        let w = insert_from(v, parts, start, is_dir);
        if k >= 0 {
            let c = insert_from(v.children[k], parts, start + 1, is_dir);
            lemma_insert_keeps_node(v.children[k], parts, start + 1, is_dir);
            lemma_first_match_update(v.children, name, d, c);
            inserted_path_present(v.children[k], parts, start + 1, is_dir);
        } else {
            let leaf = leaf_view(name, join_seq(parts.take(start + 1), "/"@), d);
            let c = insert_from(leaf, parts, start + 1, is_dir);
            lemma_insert_keeps_node(leaf, parts, start + 1, is_dir);
            lemma_first_match_push(v.children, name, d, c);
            inserted_path_present(leaf, parts, start + 1, is_dir);
            assert(w.children[v.children.len() as int] == c);
        }
    }
}

/// Inserting the same path twice is the same as inserting it once.
pub proof fn insert_idempotent(v: FileNodeView, parts: Seq<Seq<char>>, start: int, is_dir: bool)
    ensures
        insert_from(insert_from(v, parts, start, is_dir), parts, start, is_dir) == insert_from(
            v,
            parts,
            start,
            is_dir,
        ),
    decreases parts.len() - start,
{
    if 0 <= start < parts.len() {
        let name = parts[start];
        let d = component_is_dir(start, parts.len() as int, is_dir);
        let k = first_match(v.children, name, d);
        lemma_first_match_props(v.children, name, d);
        let w = insert_from(v, parts, start, is_dir);
        if k >= 0 {
            let c = insert_from(v.children[k], parts, start + 1, is_dir);
            lemma_insert_keeps_node(v.children[k], parts, start + 1, is_dir);
            lemma_first_match_update(v.children, name, d, c);
            insert_idempotent(v.children[k], parts, start + 1, is_dir);
            assert(w.children.update(k, insert_from(c, parts, start + 1, is_dir)) =~= w.children);
        } else {
            let leaf = leaf_view(name, join_seq(parts.take(start + 1), "/"@), d);
            let c = insert_from(leaf, parts, start + 1, is_dir);
            lemma_insert_keeps_node(leaf, parts, start + 1, is_dir);
            lemma_first_match_push(v.children, name, d, c);
            insert_idempotent(leaf, parts, start + 1, is_dir);
            let n = v.children.len() as int;
            assert(w.children[n] == c);
            assert(w.children.update(n, insert_from(c, parts, start + 1, is_dir)) =~= w.children);
        }
    }
}

/// The first row shown for a tree at depth 0 is its root.
pub proof fn root_row_first(v: FileNodeView)
    ensures
        display_items(v, 0).len() >= 1,
        display_items(v, 0)[0] == (0int, v),
{
}

/// A node that is not an expanded directory shows at most its own row:
/// collapsing a directory hides everything below it.
pub proof fn collapsed_shows_no_children(v: FileNodeView, depth: int)
    requires
        !(v.is_dir && v.expanded),
    ensures
        display_items(v, depth).len() <= 1,
{
}

} // verus!
