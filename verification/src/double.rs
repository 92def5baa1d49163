//! Swapping an imported type for its mock.
//!
//! A `use` declaration that is doubled imports, under the name the real type
//! would have had, the type of the same path whose name is prefixed with
//! `Mock`.

use vstd::prelude::*;
use vstd::string::{StrSliceExecFns, StringExecFns};

verus! {

/// The part of a `use` declaration after the keyword.
#[derive(Debug, PartialEq, Eq)]
pub enum UseTree {
    /// A path prefix: `ident::tree`.
    Path { ident: String, tree: Box<UseTree> },
    /// An imported name: `ident`.
    Name { ident: String },
    /// A renamed import: `ident as rename`.
    Rename { ident: String, rename: String },
    /// A glob import: `*`.
    Glob,
    /// A braced group: `{items, ...}`.
    Group { items: Vec<UseTree> },
}

/// The model of a [`UseTree`]: the same tree over sequences of characters.
pub enum UseTreeView {
    Path { ident: Seq<char>, tree: Box<UseTreeView> },
    Name { ident: Seq<char> },
    Rename { ident: Seq<char>, rename: Seq<char> },
    Glob,
    Group { items: Seq<UseTreeView> },
}

impl View for UseTree {
    type V = UseTreeView;

    open spec fn view(&self) -> UseTreeView
        decreases self,
    {
        match self {
            UseTree::Path { ident, tree } => UseTreeView::Path {
                ident: ident@,
                tree: Box::new((**tree)@),
            },
            UseTree::Name { ident } => UseTreeView::Name { ident: ident@ },
            UseTree::Rename { ident, rename } => UseTreeView::Rename {
                ident: ident@,
                rename: rename@,
            },
            UseTree::Glob => UseTreeView::Glob,
            UseTree::Group { items } => UseTreeView::Group {
                items: Seq::new(
                    items@.len(),
                    |i: int|
                        if 0 <= i < items@.len() {
                            items@[i]@
                        } else {
                            UseTreeView::Glob
                        },
                ),
            },
        }
    }
}

/// The identifier without the `r#` that marks a raw identifier.
pub open spec fn unraw(ident: Seq<char>) -> Seq<char> {
    if ident.len() >= 2 && ident[0] == 'r' && ident[1] == '#' {
        ident.skip(2)
    } else {
        ident
    }
}

/// The name of the mock of the type named `ident`: `Mock`, followed by the
/// identifier without its raw marker.
pub open spec fn mock_name(ident: Seq<char>) -> Seq<char> {
    "Mock"@ + unraw(ident)
}

/// Whether the tree imports by glob anywhere.
pub open spec fn has_glob(tree: UseTreeView) -> bool
    decreases tree,
{
    match tree {
        UseTreeView::Path { tree, .. } => has_glob(*tree),
        UseTreeView::Name { .. } => false,
        UseTreeView::Rename { .. } => false,
        UseTreeView::Glob => true,
        UseTreeView::Group { items } => exists|i: int|
            0 <= i < items.len() && has_glob(#[trigger] items[i]),
    }
}

/// What doubling reports for a tree: a glob import if there is one anywhere.
pub open spec fn glob_free(tree: UseTreeView) -> Result<(), DoubleError> {
    if has_glob(tree) {
        Err(DoubleError::GlobImport)
    } else {
        Ok(())
    }
}

/// The tree with every imported type replaced by its mock, under the name
/// the real type was imported as. Globs stay as they are.
pub open spec fn mocked(tree: UseTreeView) -> UseTreeView
    decreases tree,
{
    match tree {
        UseTreeView::Path { ident, tree } => UseTreeView::Path {
            ident,
            tree: Box::new(mocked(*tree)),
        },
        UseTreeView::Name { ident } => UseTreeView::Rename {
            ident: mock_name(ident),
            rename: ident,
        },
        UseTreeView::Rename { ident, rename } => UseTreeView::Rename {
            ident: mock_name(ident),
            rename,
        },
        UseTreeView::Glob => UseTreeView::Glob,
        UseTreeView::Group { items } => UseTreeView::Group {
            items: Seq::new(
                items.len(),
                |i: int|
                    if 0 <= i < items.len() {
                        mocked(items[i])
                    } else {
                        UseTreeView::Glob
                    },
            ),
        },
    }
}

/// Why a `use` declaration cannot be doubled.
#[derive(Clone, Copy, Debug, PartialEq, Eq, Structural)]
pub enum DoubleError {
    /// The declaration imports a bare name, so the mock would have to live in
    /// the current module under another name.
    CurrentModule,
    /// The declaration imports by glob, so the names to replace are unknown.
    GlobImport,
}

impl DoubleError {
    /// The text that explains the failure.
    pub open spec fn message_text(self) -> Seq<char> {
        match self {
            DoubleError::CurrentModule => "Cannot double types in the current module.  Use a submodule (use foo::Foo) or a rename (use Foo as Bar)"@,
            DoubleError::GlobImport => "Cannot double glob imports.  Import by fully qualified name instead."@,
        }
    }

    /// The text that explains the failure.
    pub fn message(&self) -> (text: String)
        ensures
            text@ == self.message_text(),
    {
        match self {
            DoubleError::CurrentModule => "Cannot double types in the current module.  Use a submodule (use foo::Foo) or a rename (use Foo as Bar)".to_owned(),
            DoubleError::GlobImport => "Cannot double glob imports.  Import by fully qualified name instead.".to_owned(),
        }
    }
}

/// A `use` declaration, as far as doubling reads it.
#[derive(Debug, PartialEq, Eq)]
pub struct ItemUse {
    /// What is imported.
    pub tree: UseTree,
}

/// The name of the mock of the type named `ident`.
pub fn mock_ident(ident: &String) -> (name: String)
    ensures
        name@ == mock_name(ident@),
{
    let text = ident.as_str();
    let n = text.unicode_len();
    let raw = n >= 2 && text.get_char(0) == 'r' && text.get_char(1) == '#';
    let base = if raw {
        text.substring_char(2, n)
    } else {
        text
    };
    assert(base@ =~= unraw(ident@));
    "Mock".to_owned().concat(base)
}

/// Replaces every imported type in `orig` by its mock.
///
/// The whole tree is rewritten even if it holds a glob; the glob itself is
/// left in place and reported.
pub fn mock_usetree(orig: &mut UseTree) -> (r: Result<(), DoubleError>)
    ensures
        final(orig)@ == mocked(old(orig)@),
        r == glob_free(old(orig)@),
    decreases *old(orig),
{
    match orig {
        UseTree::Glob => Err(DoubleError::GlobImport),
        UseTree::Group { items } => {
            let ghost before = items@;
            let mut r: Result<(), DoubleError> = Ok(());
            let mut i: usize = 0;
            while i < items.len()
                invariant
                    0 <= i <= items@.len(),
                    items@.len() == before.len(),
                    old(orig)@ is Group,
                    old(orig)@->Group_items.len() == before.len(),
                    forall|j: int|
                        0 <= j < before.len() ==> #[trigger] old(orig)@->Group_items[j]
                            == before[j]@,
                    forall|j: int| 0 <= j < before.len() ==> decreases_to!(*old(orig) => before[j]),
                    forall|j: int| 0 <= j < i ==> (#[trigger] items@[j])@ == mocked(before[j]@),
                    forall|j: int| i <= j < before.len() ==> #[trigger] items@[j] == before[j],
                    r is Err <==> exists|j: int| 0 <= j < i && has_glob(#[trigger] before[j]@),
                    r == Ok::<(), DoubleError>(()) || r == Err::<(), DoubleError>(
                        DoubleError::GlobImport,
                    ),
                decreases items@.len() - i,
            {
                let ri = mock_usetree(&mut items[i]);
                if ri.is_err() {
                    r = ri;
                }
                i = i + 1;
            }
            proof {
                let given = old(orig)@->Group_items;
                assert(orig@->Group_items =~= mocked(old(orig)@)->Group_items);
                if r is Err {
                    let j = choose|j: int| 0 <= j < i && has_glob(#[trigger] before[j]@);
                    assert(has_glob(given[j]));
                }
                if has_glob(old(orig)@) {
                    let j = choose|j: int| 0 <= j < given.len() && has_glob(#[trigger] given[j]);
                    assert(has_glob(before[j]@));
                }
            }
            r
        },
        UseTree::Name { ident } => {
            let rename = ident.clone();
            let mock = mock_ident(&rename);
            *orig = UseTree::Rename { ident: mock, rename };
            Ok(())
        },
        UseTree::Path { tree, .. } => mock_usetree(&mut **tree),
        UseTree::Rename { ident, .. } => {
            let mock = mock_ident(ident);
            *ident = mock;
            Ok(())
        },
    }
}

/// Doubles the declaration `orig`: every imported type is replaced by its
/// mock.
///
/// A declaration that imports a bare name is refused and left as it is: the
/// mock would shadow the name it is imported under. A glob anywhere in the
/// tree is refused as [`mock_usetree`] does.
pub fn mock_itemuse(orig: &mut ItemUse) -> (r: Result<(), DoubleError>)
    ensures
        old(orig).tree@ is Name ==> {
            &&& r == Err::<(), DoubleError>(DoubleError::CurrentModule)
            &&& *final(orig) == *old(orig)
        },
        !(old(orig).tree@ is Name) ==> {
            &&& final(orig).tree@ == mocked(old(orig).tree@)
            &&& r == glob_free(old(orig).tree@)
        },
{
    let bare = match &orig.tree {
        UseTree::Name { .. } => true,
        _ => false,
    };
    if bare {
        Err(DoubleError::CurrentModule)
    } else {
        mock_usetree(&mut orig.tree)
    }
}

} // verus!
