use vstd::prelude::*;
use vstd::string::StringExecFns;
use crate::text::trim_end_view;
use crate::text::trim_end_str;

verus! {

/// One line of the visual tree, in traversal order: the root, a directory,
/// an admitted text file, or a file classified as binary. Files that a limit
/// or a read error skipped get no line at all; their record goes to the
/// error list instead.
#[derive(Debug)]
pub enum TreeItem {
    Root { name: String },
    Dir { depth: usize, name: String },
    TextFile { depth: usize, name: String },
    BinaryFile { depth: usize, name: String },
}

/// The mathematical image of a `TreeItem`.
pub enum TreeItemModel {
    Root { name: Seq<char> },
    Dir { depth: int, name: Seq<char> },
    TextFile { depth: int, name: Seq<char> },
    BinaryFile { depth: int, name: Seq<char> },
}

impl View for TreeItem {
    type V = TreeItemModel;

    open spec fn view(&self) -> TreeItemModel {
        match self {
            TreeItem::Root { name } => TreeItemModel::Root { name: name@ },
            TreeItem::Dir { depth, name } => TreeItemModel::Dir {
                depth: *depth as int,
                name: name@,
            },
            TreeItem::TextFile { depth, name } => TreeItemModel::TextFile {
                depth: *depth as int,
                name: name@,
            },
            TreeItem::BinaryFile { depth, name } => TreeItemModel::BinaryFile {
                depth: *depth as int,
                name: name@,
            },
        }
    }
}

impl DeepView for TreeItem {
    type V = TreeItemModel;

    open spec fn deep_view(&self) -> TreeItemModel {
        self.view()
    }
}

/// Every entry below the root stands at depth one or more: its depth is the
/// count of path segments under the traversal root.
pub open spec fn item_wf(it: TreeItemModel) -> bool {
    match it {
        TreeItemModel::Root { .. } => true,
        TreeItemModel::Dir { depth, .. } => depth >= 1,
        TreeItemModel::TextFile { depth, .. } => depth >= 1,
        TreeItemModel::BinaryFile { depth, .. } => depth >= 1,
    }
}

/// Four spaces of indentation per level.
pub open spec fn indent_chars(n: int) -> Seq<char>
    decreases n,
{
    if n <= 0 {
        Seq::empty()
    } else {
        indent_chars(n - 1) + "    "@
    }
}

/// The rendered line for one tree item: the root is bare; directories carry
/// a branch connector, files a leaf connector; a binary-classified file is
/// annotated, an admitted file is plain.
pub open spec fn item_line(it: TreeItemModel) -> Seq<char> {
    match it {
        TreeItemModel::Root { name } => "└── "@ + name,
        TreeItemModel::Dir { depth, name } => indent_chars(depth - 1) + "├── "@ + name,
        TreeItemModel::TextFile { depth, name } => indent_chars(depth - 1) + "└── "@ + name,
        TreeItemModel::BinaryFile { depth, name } => indent_chars(depth - 1) + "└── "@ + name
            + " [Non-text file]"@,
    }
}

/// All tree lines in order, each terminated by a newline.
pub open spec fn tree_chars(items: Seq<TreeItemModel>) -> Seq<char>
    decreases items.len(),
{
    if items.len() == 0 {
        Seq::empty()
    } else {
        tree_chars(items.drop_last()) + item_line(items.last()) + "\n"@
    }
}

/// The final tree block: all lines, with trailing white space trimmed.
pub open spec fn tree_display(items: Seq<TreeItemModel>) -> Seq<char> {
    trim_end_view(tree_chars(items))
}

/// Build the indentation for one level.
pub fn indent_string(n: usize) -> (r: String)
    ensures
        r@ == indent_chars(n as int),
{
    let mut s = String::new();
    let mut i: usize = 0;
    while i < n
        invariant
            i <= n,
            s@ == indent_chars(i as int),
        decreases n - i,
    {
        s.append("    ");
        i = i + 1;
    }
    s
}

/// Render one tree line (without its newline).
pub fn render_item(it: &TreeItem) -> (r: String)
    requires
        item_wf(it@),
    ensures
        r@ == item_line(it@),
{
    match it {
        TreeItem::Root { name } => {
            let mut s = String::from_str("└── ");
            s.append(name.as_str());
            s
        },
        TreeItem::Dir { depth, name } => {
            let mut s = indent_string(*depth - 1);
            s.append("├── ");
            s.append(name.as_str());
            proof {
                assert(s@ =~= item_line(it@));
            }
            s
        },
        TreeItem::TextFile { depth, name } => {
            let mut s = indent_string(*depth - 1);
            s.append("└── ");
            s.append(name.as_str());
            proof {
                assert(s@ =~= item_line(it@));
            }
            s
        },
        TreeItem::BinaryFile { depth, name } => {
            let mut s = indent_string(*depth - 1);
            s.append("└── ");
            s.append(name.as_str());
            s.append(" [Non-text file]");
            proof {
                assert(s@ =~= item_line(it@));
            }
            s
        },
    }
}

/// Render the whole tree block: every line in order, trailing white space
/// trimmed.
pub fn render_tree(items: &Vec<TreeItem>) -> (r: String)
    requires
        forall|i: int| 0 <= i < items.deep_view().len() ==> item_wf(items.deep_view()[i]),
    ensures
        r@ == tree_display(items.deep_view()),
{
    let mut s = String::new();
    let mut i: usize = 0;
    proof {
        assert(items.deep_view().subrange(0, 0) =~= Seq::<TreeItemModel>::empty());
    }
    while i < items.len()
        invariant
            i <= items@.len(),
            items.deep_view().len() == items@.len(),
            forall|j: int| 0 <= j < items.deep_view().len() ==> item_wf(items.deep_view()[j]),
            s@ == tree_chars(items.deep_view().subrange(0, i as int)),
        decreases items@.len() - i,
    {
        proof {
            assert(items.deep_view()[i as int] == items@[i as int]@);
        }
        let line = render_item(&items[i]);
        s.append(line.as_str());
        s.append("\n");
        proof {
            let dv = items.deep_view();
            assert(dv.subrange(0, i + 1).drop_last() =~= dv.subrange(0, i as int));
            assert(dv.subrange(0, i + 1).last() == dv[i as int]);
            assert(s@ =~= tree_chars(dv.subrange(0, i + 1)));
        }
        i = i + 1;
    }
    proof {
        assert(items.deep_view().subrange(0, items.deep_view().len() as int) =~= items.deep_view());
    }
    trim_end_str(s.as_str())
}

} // verus!
