//! Document directories: the directory tree with its documents, and the
//! rules on where a directory may be placed.

use vstd::prelude::*;
use crate::models::clone_opt_string;
use crate::models::directory::{Directory, DirectoryDocument, DirectoryTreeNode};
use crate::natural_order::{natural_order, natural_order_spec, lemma_natural_order};
use crate::sorting::{KeyOrder, sort_by_key, strictly_sorted, distinct_ids};
use crate::error::ApiError;
use crate::text::{decimal, i64_decimal, string_from_chars};

verus! {

broadcast use vstd::seq_lib::group_to_multiset_ensures;

/// A document and the directory it is filed in, if any.
pub struct DocumentPlacement {
    pub directory_id: Option<i64>,
    pub document: DirectoryDocument,
}

/// Order by `sort_order`, then natural order of the name, then id.
pub open spec fn listing_lt(sa: i32, na: Seq<char>, ia: i64, sb: i32, nb: Seq<char>, ib: i64) -> bool {
    ||| sa < sb
    ||| (sa == sb && natural_order_spec(na, nb) < 0)
    ||| (sa == sb && natural_order_spec(na, nb) == 0 && ia < ib)
}

proof fn lemma_listing_lt(
    sa: i32,
    na: Seq<char>,
    ia: i64,
    sb: i32,
    nb: Seq<char>,
    ib: i64,
    sc: i32,
    nc: Seq<char>,
    ic: i64,
)
    ensures
        !listing_lt(sa, na, ia, sa, na, ia),
        listing_lt(sa, na, ia, sb, nb, ib) && listing_lt(sb, nb, ib, sc, nc, ic) ==> listing_lt(
            sa,
            na,
            ia,
            sc,
            nc,
            ic,
        ),
        ia != ib ==> listing_lt(sa, na, ia, sb, nb, ib) || listing_lt(sb, nb, ib, sa, na, ia),
        listing_lt(sa, na, ia, sb, nb, ib) ==> !listing_lt(sb, nb, ib, sa, na, ia),
{
    lemma_natural_order(na, nb, nc);
    lemma_natural_order(na, na, na);
    lemma_natural_order(nb, na, nc);
}

/// Whether entry `(sa, na, ia)` lists before `(sb, nb, ib)`.
fn listing_precedes(sa: i32, na: &String, ia: i64, sb: i32, nb: &String, ib: i64) -> (b: bool)
    ensures
        b == listing_lt(sa, na@, ia, sb, nb@, ib),
{
    if sa != sb {
        return sa < sb;
    }
    let o = natural_order(na.as_str(), nb.as_str());
    if o != 0 {
        return o < 0;
    }
    ia < ib
}

impl KeyOrder for DirectoryDocument {
    open spec fn key_id(&self) -> i64 {
        self.id
    }

    open spec fn key_lt(&self, other: &Self) -> bool {
        listing_lt(self.sort_order, self.name@, self.id, other.sort_order, other.name@, other.id)
    }

    fn precedes(&self, other: &Self) -> (b: bool) {
        listing_precedes(self.sort_order, &self.name, self.id, other.sort_order, &other.name, other.id)
    }

    proof fn lemma_irreflexive(a: &Self) {
        lemma_listing_lt(a.sort_order, a.name@, a.id, a.sort_order, a.name@, a.id, a.sort_order, a.name@, a.id);
    }

    proof fn lemma_transitive(a: &Self, b: &Self, c: &Self) {
        lemma_listing_lt(a.sort_order, a.name@, a.id, b.sort_order, b.name@, b.id, c.sort_order, c.name@, c.id);
    }

    proof fn lemma_total(a: &Self, b: &Self) {
        lemma_listing_lt(a.sort_order, a.name@, a.id, b.sort_order, b.name@, b.id, a.sort_order, a.name@, a.id);
    }

    proof fn lemma_asymmetric(a: &Self, b: &Self) {
        lemma_listing_lt(a.sort_order, a.name@, a.id, b.sort_order, b.name@, b.id, a.sort_order, a.name@, a.id);
    }
}

impl KeyOrder for DirectoryTreeNode {
    open spec fn key_id(&self) -> i64 {
        self.id
    }

    open spec fn key_lt(&self, other: &Self) -> bool {
        listing_lt(self.sort_order, self.name@, self.id, other.sort_order, other.name@, other.id)
    }

    fn precedes(&self, other: &Self) -> (b: bool) {
        listing_precedes(self.sort_order, &self.name, self.id, other.sort_order, &other.name, other.id)
    }

    proof fn lemma_irreflexive(a: &Self) {
        lemma_listing_lt(a.sort_order, a.name@, a.id, a.sort_order, a.name@, a.id, a.sort_order, a.name@, a.id);
    }

    proof fn lemma_transitive(a: &Self, b: &Self, c: &Self) {
        lemma_listing_lt(a.sort_order, a.name@, a.id, b.sort_order, b.name@, b.id, c.sort_order, c.name@, c.id);
    }

    proof fn lemma_total(a: &Self, b: &Self) {
        lemma_listing_lt(a.sort_order, a.name@, a.id, b.sort_order, b.name@, b.id, a.sort_order, a.name@, a.id);
    }

    proof fn lemma_asymmetric(a: &Self, b: &Self) {
        lemma_listing_lt(a.sort_order, a.name@, a.id, b.sort_order, b.name@, b.id, a.sort_order, a.name@, a.id);
    }
}

/// The documents filed in directory `id`, in input order.
pub open spec fn placed_in(docs: Seq<DocumentPlacement>, id: i64) -> Seq<DirectoryDocument>
    decreases docs.len(),
{
    if docs.len() == 0 {
        seq![]
    } else if docs.last().directory_id == Some(id) {
        placed_in(docs.drop_last(), id).push(docs.last().document)
    } else {
        placed_in(docs.drop_last(), id)
    }
}

/// Number of directories whose parent is `parent` (`None`: top level).
pub open spec fn count_children(dirs: Seq<Directory>, parent: Option<i64>) -> nat
    decreases dirs.len(),
{
    if dirs.len() == 0 {
        0
    } else if dirs.last().parent_id == parent {
        count_children(dirs.drop_last(), parent) + 1
    } else {
        count_children(dirs.drop_last(), parent)
    }
}

/// Node `n` carries the fields of directory `d`.
pub open spec fn same_directory(n: DirectoryTreeNode, d: Directory) -> bool {
    &&& n.id == d.id
    &&& n.name == d.name
    &&& n.intro == d.intro
    &&& n.parent_id == d.parent_id
    &&& n.sort_order == d.sort_order
    &&& n.created_at == d.created_at
}

/// `n` is the tree node of directory `d`: its fields, its documents in
/// listing order, and (while `depth` lasts) its sub-directories.
pub open spec fn node_matches(
    n: DirectoryTreeNode,
    d: Directory,
    dirs: Seq<Directory>,
    docs: Seq<DocumentPlacement>,
    depth: nat,
) -> bool
    decreases depth, 0int,
{
    &&& same_directory(n, d)
    &&& n.documents@.to_multiset() == placed_in(docs, d.id).to_multiset()
    &&& strictly_sorted(n.documents@)
    &&& if depth == 0 {
        n.children@.len() == 0
    } else {
        children_match(n.children@, dirs, docs, Some(d.id), (depth - 1) as nat)
    }
}

/// `kid` is the node of some directory under `parent`.
pub open spec fn has_source(
    kid: DirectoryTreeNode,
    dirs: Seq<Directory>,
    docs: Seq<DocumentPlacement>,
    parent: Option<i64>,
    depth: nat,
) -> bool
    decreases depth, 1int,
{
    exists|j: int|
        #![trigger dirs[j]]
        0 <= j < dirs.len() && dirs[j].parent_id == parent && node_matches(kid, dirs[j], dirs, docs, depth)
}

/// `kids` are the nodes of the directories under `parent`, one per
/// directory, in listing order.
pub open spec fn children_match(
    kids: Seq<DirectoryTreeNode>,
    dirs: Seq<Directory>,
    docs: Seq<DocumentPlacement>,
    parent: Option<i64>,
    depth: nat,
) -> bool
    decreases depth, 2int,
{
    &&& kids.len() == count_children(dirs, parent)
    &&& strictly_sorted(kids)
    &&& forall|i: int| 0 <= i < kids.len() ==> has_source(#[trigger] kids[i], dirs, docs, parent, depth)
    &&& covers(kids, dirs, parent)
}

/// Every directory under `parent` has a node among `kids`.
pub open spec fn covers(kids: Seq<DirectoryTreeNode>, dirs: Seq<Directory>, parent: Option<i64>) -> bool {
    forall|j: int|
        0 <= j < dirs.len() && (#[trigger] dirs[j]).parent_id == parent ==> exists|i: int|
            0 <= i < kids.len() && (#[trigger] kids[i]).id == dirs[j].id
}

/// No two directories share an id.
pub open spec fn distinct_directory_ids(dirs: Seq<Directory>) -> bool {
    forall|i: int, j: int|
        0 <= i < dirs.len() && 0 <= j < dirs.len() && i != j ==> (#[trigger] dirs[i]).id != (
        #[trigger] dirs[j]).id
}

/// No two documents share an id.
pub open spec fn distinct_document_ids(docs: Seq<DocumentPlacement>) -> bool {
    forall|i: int, j: int|
        0 <= i < docs.len() && 0 <= j < docs.len() && i != j ==> (#[trigger] docs[i]).document.id
            != (#[trigger] docs[j]).document.id
}

fn clone_document(d: &DirectoryDocument) -> (r: DirectoryDocument)
    ensures
        r == *d,
{
    DirectoryDocument {
        id: d.id,
        name: d.name.clone(),
        filename: clone_opt_string(&d.filename),
        sort_order: d.sort_order,
    }
}

/// The documents filed in directory `id`, in listing order.
fn documents_of(docs: &Vec<DocumentPlacement>, id: i64) -> (r: Vec<DirectoryDocument>)
    requires
        distinct_document_ids(docs@),
    ensures
        r@.to_multiset() == placed_in(docs@, id).to_multiset(),
        strictly_sorted(r@),
{
    let mut kept: Vec<DirectoryDocument> = Vec::new();
    let ghost mut from: Seq<int> = seq![];
    let mut j: usize = 0;
    while j < docs.len()
        invariant
            j <= docs@.len(),
            distinct_document_ids(docs@),
            kept@ == placed_in(docs@.take(j as int), id),
            from.len() == kept@.len(),
            forall|k: int| 0 <= k < from.len() ==> 0 <= #[trigger] from[k] < j,
            forall|k: int|
                0 <= k < from.len() ==> kept@[k] == (#[trigger] docs@[from[k]]).document,
            forall|a: int, b: int| 0 <= a < b < from.len() ==> #[trigger] from[a] < #[trigger] from[b],
        decreases docs@.len() - j,
    {
        proof {
            assert(docs@.take(j + 1).drop_last() =~= docs@.take(j as int));
        }
        let p = &docs[j];
        let matches = match p.directory_id {
            Some(d) => d == id,
            None => false,
        };
        if matches {
            let c = clone_document(&p.document);
            kept.push(c);
            proof {
                from = from.push(j as int);
            }
        }
        j = j + 1;
    }
    proof {
        assert(docs@.take(docs@.len() as int) =~= docs@);
        assert forall|a: int, b: int|
            0 <= a < kept@.len() && 0 <= b < kept@.len() && a != b implies (
        #[trigger] kept@[a]).key_id() != (#[trigger] kept@[b]).key_id() by {
            assert(from[a] != from[b]) by {
                if a < b {
                    assert(from[a] < from[b]);
                } else {
                    assert(from[b] < from[a]);
                }
            }
            assert(kept@[a] == docs@[from[a]].document);
            assert(kept@[b] == docs@[from[b]].document);
        }
    }
    sort_by_key(kept)
}

fn clone_directory_fields(d: &Directory) -> (r: Directory)
    ensures
        r == *d,
{
    Directory {
        id: d.id,
        name: d.name.clone(),
        intro: clone_opt_string(&d.intro),
        parent_id: d.parent_id,
        sort_order: d.sort_order,
        created_at: d.created_at,
    }
}

/// The node of `dirs[idx]`, with sub-directories down to `depth` levels.
fn build_node(dirs: &Vec<Directory>, docs: &Vec<DocumentPlacement>, idx: usize, depth: usize) -> (n:
    DirectoryTreeNode)
    requires
        idx < dirs@.len(),
        distinct_directory_ids(dirs@),
        distinct_document_ids(docs@),
    ensures
        node_matches(n, dirs@[idx as int], dirs@, docs@, depth as nat),
    decreases depth, 0int,
{
    let d = clone_directory_fields(&dirs[idx]);
    let documents = documents_of(docs, d.id);
    let children = if depth == 0 {
        Vec::new()
    } else {
        build_children(dirs, docs, Some(d.id), depth - 1)
    };
    DirectoryTreeNode {
        id: d.id,
        name: d.name,
        intro: d.intro,
        parent_id: d.parent_id,
        sort_order: d.sort_order,
        created_at: d.created_at,
        children,
        documents,
    }
}

/// Node `kids[k]` was built from directory `dirs[from[k]]`, a child of
/// `parent`.
pub open spec fn built_from(
    kids: Seq<DirectoryTreeNode>,
    from: Seq<int>,
    dirs: Seq<Directory>,
    docs: Seq<DocumentPlacement>,
    parent: Option<i64>,
    depth: nat,
) -> bool {
    forall|k: int|
        #![trigger from[k]]
        0 <= k < from.len() ==> dirs[from[k]].parent_id == parent && node_matches(
            kids[k],
            dirs[from[k]],
            dirs,
            docs,
            depth,
        )
}

/// Whether two optional parent ids are the same.
fn same_parent(a: Option<i64>, b: Option<i64>) -> (r: bool)
    ensures
        r == (a == b),
{
    match (a, b) {
        (Some(x), Some(y)) => x == y,
        (None, None) => true,
        _ => false,
    }
}

/// The nodes of the directories under `parent`, in listing order.
fn build_children(
    dirs: &Vec<Directory>,
    docs: &Vec<DocumentPlacement>,
    parent: Option<i64>,
    depth: usize,
) -> (kids: Vec<DirectoryTreeNode>)
    requires
        distinct_directory_ids(dirs@),
        distinct_document_ids(docs@),
    ensures
        children_match(kids@, dirs@, docs@, parent, depth as nat),
    decreases depth, 1int,
{
    let mut kids: Vec<DirectoryTreeNode> = Vec::new();
    let ghost mut from: Seq<int> = seq![];
    let mut j: usize = 0;
    while j < dirs.len()
        invariant
            j <= dirs@.len(),
            distinct_directory_ids(dirs@),
            distinct_document_ids(docs@),
            kids@.len() == count_children(dirs@.take(j as int), parent),
            from.len() == kids@.len(),
            forall|k: int| 0 <= k < from.len() ==> 0 <= #[trigger] from[k] < j,
            built_from(kids@, from, dirs@, docs@, parent, depth as nat),
            forall|a: int, b: int| 0 <= a < b < from.len() ==> #[trigger] from[a] < #[trigger] from[b],
            forall|j2: int|
                0 <= j2 < j && (#[trigger] dirs@[j2]).parent_id == parent ==> exists|k: int|
                    0 <= k < from.len() && #[trigger] from[k] == j2,
        decreases dirs@.len() - j,
    {
        proof {
            assert(dirs@.take(j + 1).drop_last() =~= dirs@.take(j as int));
        }
        if same_parent(dirs[j].parent_id, parent) {
            let n = build_node(dirs, docs, j, depth);
            let ghost k0 = kids@;
            let ghost f0 = from;
            kids.push(n);
            proof {
                from = from.push(j as int);
                assert forall|k: int| #![trigger from[k]] 0 <= k < from.len() implies dirs@[from[k]].parent_id == parent
                    && node_matches(kids@[k], dirs@[from[k]], dirs@, docs@, depth as nat) by {
                    if k < from.len() - 1 {
                        assert(kids@[k] == k0[k]);
                        assert(from[k] == f0[k]);
                        assert(built_from(k0, f0, dirs@, docs@, parent, depth as nat));
                    } else {
                        assert(kids@[k] == n);
                        assert(from[k] == j as int);
                    }
                }
                assert forall|j2: int|
                    0 <= j2 < j + 1 && (#[trigger] dirs@[j2]).parent_id == parent implies exists|k: int|
                        0 <= k < from.len() && #[trigger] from[k] == j2 by {
                    if j2 < j {
                        let k = choose|k: int| 0 <= k < f0.len() && #[trigger] f0[k] == j2;
                        assert(from[k] == f0[k]);
                    } else {
                        assert(from[from.len() - 1] == j2);
                    }
                }
            }
        }
        j = j + 1;
    }
    proof {
        assert(dirs@.take(dirs@.len() as int) =~= dirs@);
        assert forall|a: int, b: int|
            0 <= a < kids@.len() && 0 <= b < kids@.len() && a != b implies (
        #[trigger] kids@[a]).key_id() != (#[trigger] kids@[b]).key_id() by {
            assert(from[a] != from[b]) by {
                if a < b {
                    assert(from[a] < from[b]);
                } else {
                    assert(from[b] < from[a]);
                }
            }
            assert(node_matches(kids@[a], dirs@[from[a]], dirs@, docs@, depth as nat));
            assert(node_matches(kids@[b], dirs@[from[b]], dirs@, docs@, depth as nat));
        }
    }
    let ghost unsorted = kids@;
    let sorted = sort_by_key(kids);
    proof {
        assert(sorted@.len() == sorted@.to_multiset().len());
        assert(unsorted.len() == unsorted.to_multiset().len());
        assert forall|i: int| 0 <= i < sorted@.len() implies has_source(
            #[trigger] sorted@[i],
            dirs@,
            docs@,
            parent,
            depth as nat,
        ) by {
            let x = sorted@[i];
            assert(sorted@.to_multiset().count(x) > 0);
            assert(unsorted.contains(x));
            let k = choose|k: int| 0 <= k < unsorted.len() && unsorted[k] == x;
            assert(node_matches(unsorted[k], dirs@[from[k]], dirs@, docs@, depth as nat));
            assert(dirs@[from[k]].parent_id == parent);
        }
        assert forall|j2: int|
            0 <= j2 < dirs@.len() && (#[trigger] dirs@[j2]).parent_id == parent implies exists|i: int|
                0 <= i < sorted@.len() && (#[trigger] sorted@[i]).id == dirs@[j2].id by {
            let k = choose|k: int| 0 <= k < from.len() && #[trigger] from[k] == j2;
            let x = unsorted[k];
            assert(node_matches(x, dirs@[from[k]], dirs@, docs@, depth as nat));
            assert(unsorted.to_multiset().count(x) > 0);
            assert(sorted@.contains(x));
            let i = choose|i: int| 0 <= i < sorted@.len() && sorted@[i] == x;
            assert(sorted@[i].id == dirs@[j2].id);
        }
    }
    sorted
}

/// `"Parent directory with id <id> not found"`.
pub open spec fn missing_parent_message(id: i64) -> Seq<char> {
    "Parent directory with id "@ + decimal(id as int) + " not found"@
}

/// The error for a parent directory that does not exist.
pub fn missing_parent(parent_id: i64) -> (e: ApiError)
    ensures
        e matches ApiError::BadRequest(m) && m@ == missing_parent_message(parent_id),
{
    let d = string_from_chars(i64_decimal(parent_id).as_slice());
    ApiError::BadRequest("Parent directory with id ".to_owned().concat(d.as_str()).concat(" not found"))
}

/// Directory rows grouped into the tree shown to readers.
pub struct DirectoryRepository;

impl DirectoryRepository {
    /// The directory tree: the top-level directories in listing order
    /// (`sort_order`, then natural name order, then id), each with its
    /// documents in listing order and its sub-directories built the same
    /// way. Directories whose parent is not in the list do not appear, and
    /// documents are attached to the directory they are filed in.
    pub fn build_tree(directories: Vec<Directory>, documents: Vec<DocumentPlacement>) -> (tree: Vec<
        DirectoryTreeNode,
    >)
        requires
            distinct_directory_ids(directories@),
            distinct_document_ids(documents@),
        ensures
            children_match(tree@, directories@, documents@, None, directories@.len()),
    {
        build_children(&directories, &documents, None, directories.len())
    }

    /// The check before a new directory is filed under `parent_id`: a
    /// given parent must exist.
    pub fn check_parent_for_create(parent_id: Option<i64>, parent_exists: bool) -> (r: Result<(), ApiError>)
        ensures
            match parent_id {
                None => r is Ok,
                Some(p) => match r {
                    Ok(()) => parent_exists,
                    Err(e) => !parent_exists && (e matches ApiError::BadRequest(m) && m@ == missing_parent_message(p)),
                },
            },
    {
        match parent_id {
            Some(p) => if parent_exists {
                Ok(())
            } else {
                Err(missing_parent(p))
            },
            None => Ok(()),
        }
    }

    /// The check before directory `id` is moved under `parent_id`: a
    /// directory cannot be its own parent, the parent must exist, and it
    /// must not lie below the directory (which would close a circle).
    /// When `parent_id == id` the other two facts are not consulted.
    pub fn check_parent_for_update(id: i64, parent_id: i64, parent_exists: bool, parent_is_below: bool) -> (r:
        Result<(), ApiError>)
        ensures
            match r {
                Ok(()) => parent_id != id && parent_exists && !parent_is_below,
                Err(e) => if parent_id == id {
                    e matches ApiError::BadRequest(m) && m@ == "Directory cannot be its own parent"@
                } else if !parent_exists {
                    e matches ApiError::BadRequest(m) && m@ == missing_parent_message(parent_id)
                } else {
                    parent_is_below && (e matches ApiError::BadRequest(m) && m@
                        == "Cannot set parent to a descendant directory (circular reference)"@)
                },
            },
    {
        if parent_id == id {
            return Err(ApiError::BadRequest("Directory cannot be its own parent".to_owned()));
        }
        if !parent_exists {
            return Err(missing_parent(parent_id));
        }
        if parent_is_below {
            return Err(
                ApiError::BadRequest("Cannot set parent to a descendant directory (circular reference)".to_owned()),
            );
        }
        Ok(())
    }
}

/// `chain` lists directories by index, from a top-level one down to the
/// directory whose id is `parent`, each the parent of the next, none twice.
pub open spec fn ancestry(chain: Seq<int>, dirs: Seq<Directory>, parent: Option<i64>) -> bool {
    &&& chain.no_duplicates()
    &&& forall|i: int| 0 <= i < chain.len() ==> 0 <= #[trigger] chain[i] < dirs.len()
    &&& if chain.len() == 0 {
        parent is None
    } else {
        &&& dirs[chain[0]].parent_id is None
        &&& parent == Some(dirs[chain.last()].id)
    }
    &&& forall|i: int|
        0 < i < chain.len() ==> (#[trigger] dirs[chain[i]]).parent_id == Some(dirs[chain[i - 1]].id)
}

/// A list of distinct indices into a sequence of length `n` has at most
/// `n` entries.
proof fn lemma_distinct_indices_bound(chain: Seq<int>, n: int)
    requires
        0 <= n,
        chain.no_duplicates(),
        forall|i: int| 0 <= i < chain.len() ==> 0 <= #[trigger] chain[i] < n,
    ensures
        chain.len() <= n,
{
    chain.unique_seq_to_set();
    vstd::set_lib::lemma_int_range(0, n);
    assert(chain.to_set().subset_of(vstd::set_lib::set_int_range(0, n)));
    vstd::set_lib::lemma_len_subset(chain.to_set(), vstd::set_lib::set_int_range(0, n));
}

/// A directory under the end of an ancestry extends it: the parent links
/// from the top level cannot run in a circle.
proof fn lemma_ancestry_push(chain: Seq<int>, dirs: Seq<Directory>, parent: Option<i64>, j: int)
    requires
        ancestry(chain, dirs, parent),
        distinct_directory_ids(dirs),
        0 <= j < dirs.len(),
        dirs[j].parent_id == parent,
    ensures
        ancestry(chain.push(j), dirs, Some(dirs[j].id)),
{
    let c = chain.push(j);
    let last = chain.len() - 1;
    if chain.contains(j) {
        let i = choose|i: int| 0 <= i < chain.len() && chain[i] == j;
        if i > 0 {
            assert(dirs[chain[i]].parent_id == Some(dirs[chain[i - 1]].id));
            assert(dirs[chain[i - 1]].id == dirs[chain[last]].id);
            assert(chain[i - 1] == chain[last]);
        }
        assert(false);
    }
    assert forall|a: int, b: int| 0 <= a < c.len() && 0 <= b < c.len() && a != b implies c[a] != c[b] by {
        if a < chain.len() && b < chain.len() {
            assert(c[a] == chain[a] && c[b] == chain[b]);
        } else if a < chain.len() {
            assert(chain.contains(c[a]));
        } else {
            assert(chain.contains(c[b]));
        }
    }
    assert forall|i: int| 0 < i < c.len() implies (#[trigger] dirs[c[i]]).parent_id == Some(
        dirs[c[i - 1]].id,
    ) by {
        if i < chain.len() {
            assert(c[i] == chain[i] && c[i - 1] == chain[i - 1]);
        }
    }
}

/// Nodes built `depth` levels deep below an ancestry of length
/// `dirs.len() - depth` match at every greater depth as well.
proof fn lemma_children_deepen(
    kids: Seq<DirectoryTreeNode>,
    dirs: Seq<Directory>,
    docs: Seq<DocumentPlacement>,
    parent: Option<i64>,
    depth: nat,
    chain: Seq<int>,
    m: nat,
)
    requires
        children_match(kids, dirs, docs, parent, depth),
        distinct_directory_ids(dirs),
        ancestry(chain, dirs, parent),
        chain.len() + depth == dirs.len(),
        depth <= m,
    ensures
        children_match(kids, dirs, docs, parent, m),
    decreases depth,
{
    assert forall|i: int| 0 <= i < kids.len() implies has_source(#[trigger] kids[i], dirs, docs, parent, m) by {
        assert(has_source(kids[i], dirs, docs, parent, depth));
        let j = choose|j: int|
            #![trigger dirs[j]]
            0 <= j < dirs.len() && dirs[j].parent_id == parent && node_matches(kids[i], dirs[j], dirs, docs, depth);
        lemma_ancestry_push(chain, dirs, parent, j);
        let c = chain.push(j);
        if depth == 0 {
            lemma_distinct_indices_bound(c, dirs.len() as int);
        } else {
            lemma_children_deepen(
                kids[i].children@,
                dirs,
                docs,
                Some(dirs[j].id),
                (depth - 1) as nat,
                c,
                (m - 1) as nat,
            );
        }
        assert(node_matches(kids[i], dirs[j], dirs, docs, m));
    }
}

/// The tree is never cut short: what `build_tree` returns matches the
/// directory tree built to any greater depth, so every directory that
/// hangs from a top-level one appears in it with all its sub-directories.
pub proof fn lemma_tree_depth_suffices(
    tree: Seq<DirectoryTreeNode>,
    dirs: Seq<Directory>,
    docs: Seq<DocumentPlacement>,
    m: nat,
)
    requires
        children_match(tree, dirs, docs, None, dirs.len()),
        distinct_directory_ids(dirs),
        dirs.len() <= m,
    ensures
        children_match(tree, dirs, docs, None, m),
{
    lemma_children_deepen(tree, dirs, docs, None, dirs.len(), seq![], m);
}

/// The directory reached from `x` by following parent links `k` times, in
/// the hierarchy `up` (a directory's id to its parent's id; a directory
/// without a parent is not in its domain). `None` once the top is passed.
pub open spec fn walk_up(up: Map<i64, i64>, x: i64, k: nat) -> Option<i64>
    decreases k,
{
    if k == 0 {
        Some(x)
    } else {
        match walk_up(up, x, (k - 1) as nat) {
            Some(y) => if up.dom().contains(y) {
                Some(up[y])
            } else {
                None
            },
            None => None,
        }
    }
}

/// Directory `x` lies below directory `a`: following parents from `x`
/// leads to `a`.
pub open spec fn below(up: Map<i64, i64>, x: i64, a: i64) -> bool {
    exists|k: nat| k >= 1 && #[trigger] walk_up(up, x, k) == Some(a)
}

/// No directory lies below itself.
pub open spec fn free_of_cycles(up: Map<i64, i64>) -> bool {
    forall|x: i64| !#[trigger] below(up, x, x)
}

/// Walking `a` steps and then `b` steps is walking `a + b` steps.
proof fn lemma_walk_split(up: Map<i64, i64>, x: i64, a: nat, b: nat)
    ensures
        walk_up(up, x, a + b) == match walk_up(up, x, a) {
            Some(y) => walk_up(up, y, b),
            None => None,
        },
    decreases b,
{
    if b > 0 {
        lemma_walk_split(up, x, a, (b - 1) as nat);
        assert((a + b - 1) as nat == a + (b - 1) as nat);
    }
}

/// Until it reaches `id`, a walk goes the same way whether or not the
/// parent of `id` was changed.
proof fn lemma_walk_unchanged(up: Map<i64, i64>, id: i64, p: i64, x: i64, k: nat)
    requires
        (forall|i: nat| i < k ==> #[trigger] walk_up(up.insert(id, p), x, i) != Some(id)) || (forall|
            i: nat,
        |
            i < k ==> #[trigger] walk_up(up, x, i) != Some(id)),
    ensures
        walk_up(up.insert(id, p), x, k) == walk_up(up, x, k),
    decreases k,
{
    if k > 0 {
        let k1 = (k - 1) as nat;
        lemma_walk_unchanged(up, id, p, x, k1);
        assert(walk_up(up.insert(id, p), x, k1) != Some(id) || walk_up(up, x, k1) != Some(id));
    }
}

/// The first step at which a walk from `x` that reaches `t` within `k`
/// steps gets there.
proof fn lemma_first_arrival(up: Map<i64, i64>, x: i64, t: i64, k: nat) -> (j: nat)
    requires
        walk_up(up, x, k) == Some(t),
    ensures
        j <= k,
        walk_up(up, x, j) == Some(t),
        forall|i: nat| i < j ==> #[trigger] walk_up(up, x, i) != Some(t),
    decreases k,
{
    if exists|i: nat| i < k && #[trigger] walk_up(up, x, i) == Some(t) {
        let i = choose|i: nat| i < k && #[trigger] walk_up(up, x, i) == Some(t);
        lemma_first_arrival(up, x, t, i)
    } else {
        k
    }
}

/// Moving directory `id` under `p` keeps a hierarchy free of cycles if
/// and only if `p` is neither `id` itself nor a directory below `id`:
/// exactly the moves that `check_parent_for_update` lets through (for a
/// parent that exists).
pub proof fn lemma_parent_change_keeps_hierarchy_acyclic(up: Map<i64, i64>, id: i64, p: i64)
    requires
        free_of_cycles(up),
    ensures
        free_of_cycles(up.insert(id, p)) <==> (p != id && !below(up, p, id)),
{
    let new = up.insert(id, p);
    assert(walk_up(new, id, 1) == Some(p)) by {
        reveal_with_fuel(walk_up, 2);
    }
    if p == id {
        assert(below(new, id, id));
    } else if below(up, p, id) {
        let k = choose|k: nat| k >= 1 && #[trigger] walk_up(up, p, k) == Some(id);
        let j = lemma_first_arrival(up, p, id, k);
        lemma_walk_unchanged(up, id, p, p, j);
        lemma_walk_split(new, id, 1, j);
        assert(walk_up(new, id, 1 + j) == Some(id));
        assert(below(new, id, id));
    } else {
        assert forall|x: i64| !#[trigger] below(new, x, x) by {
            if below(new, x, x) {
                let k = choose|k: nat| k >= 1 && #[trigger] walk_up(new, x, k) == Some(x);
                if exists|i: nat| i < k && #[trigger] walk_up(new, x, i) == Some(id) {
                    let i0 = choose|i: nat| i < k && #[trigger] walk_up(new, x, i) == Some(id);
                    let i = lemma_first_arrival(new, x, id, i0);
                    // from `id`, `k - i` steps lead to `x` and `i` more lead back to `id`
                    lemma_walk_split(new, x, i, (k - i) as nat);
                    assert(i + (k - i) as nat == k);
                    lemma_walk_split(new, id, (k - i) as nat, i);
                    assert((k - i) as nat + i == k);
                    assert(walk_up(new, id, k) == Some(id));
                    // so from `p`, `k - 1` steps lead to `id`, first at some step `j >= 1`
                    lemma_walk_split(new, id, 1, (k - 1) as nat);
                    assert(1 + (k - 1) as nat == k);
                    assert(walk_up(new, p, (k - 1) as nat) == Some(id));
                    let j = lemma_first_arrival(new, p, id, (k - 1) as nat);
                    lemma_walk_unchanged(up, id, p, p, j);
                    assert(j >= 1);
                    assert(walk_up(up, p, j) == Some(id));
                    assert(below(up, p, id));
                } else {
                    lemma_walk_unchanged(up, id, p, x, k);
                    assert(walk_up(up, x, k) == Some(x));
                    assert(below(up, x, x));
                }
            }
        }
    }
}

} // verus!
