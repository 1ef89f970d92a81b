//! Export and import of the site's data: the exported records, the order
//! in which imported directories are written, the values bound for
//! imported rows, and the per-table tally of an import.

use vstd::prelude::*;
use crate::text::{decimal, i64_decimal, string_from_chars, chars_of};
use crate::sorting::{KeyOrder, sort_by_key, strictly_sorted, distinct_ids};

verus! {

broadcast use {vstd::string::group_string_axioms, vstd::seq_lib::group_to_multiset_ensures};

/// An exported category.
pub struct CategoryExport {
    pub id: i64,
    pub name: String,
    pub intro: Option<String>,
    pub logo: Option<String>,
}

/// An exported tag.
pub struct TagExport {
    pub id: i64,
    pub name: String,
}

/// An exported blog.
pub struct BlogExport {
    pub id: i64,
    pub title: String,
    pub slug: Option<String>,
    pub author: Option<String>,
    pub content: String,
    pub html: Option<String>,
    pub thumbnail: Option<String>,
    pub category_id: Option<i64>,
    pub view_count: i64,
    pub is_published: bool,
}

/// An exported blog–tag link.
pub struct BlogTagExport {
    pub blog_id: i64,
    pub tag_id: i64,
}

/// An exported friend link.
pub struct FriendLinkExport {
    pub id: i64,
    pub name: String,
    pub url: String,
    pub logo: Option<String>,
    pub intro: Option<String>,
    pub email: Option<String>,
    pub status: i16,
}

/// An exported project.
pub struct ProjectExport {
    pub id: i64,
    pub name: String,
    pub description: Option<String>,
    pub logo: Option<String>,
    pub github_url: Option<String>,
    pub preview_url: Option<String>,
    pub download_url: Option<String>,
}

/// An exported directory.
pub struct DirectoryExport {
    pub id: i64,
    pub name: String,
    pub intro: Option<String>,
    pub parent_id: Option<i64>,
    pub created_at: Option<String>,
}

/// An exported document.
pub struct DocumentExport {
    pub id: i64,
    pub name: String,
    pub filename: Option<String>,
    pub content: String,
    pub directory_id: Option<i64>,
    pub created_at: Option<String>,
}

/// An exported text.
pub struct TextExport {
    pub id: i64,
    pub name: String,
    pub intro: Option<String>,
    pub content: String,
    pub is_encrypted: Option<bool>,
    pub view_password: Option<String>,
    pub created_at: Option<String>,
    pub updated_at: Option<String>,
}

/// Everything an export holds.
pub struct ExportData {
    pub categories: Vec<CategoryExport>,
    pub tags: Vec<TagExport>,
    pub blogs: Vec<BlogExport>,
    pub blog_tags: Vec<BlogTagExport>,
    pub friend_links: Vec<FriendLinkExport>,
    pub projects: Vec<ProjectExport>,
    pub directories: Vec<DirectoryExport>,
    pub documents: Vec<DocumentExport>,
    pub texts: Vec<TextExport>,
}

/// What an import may hold; absent sections are left alone.
pub struct ImportData {
    pub categories: Option<Vec<CategoryExport>>,
    pub tags: Option<Vec<TagExport>>,
    pub blogs: Option<Vec<BlogExport>>,
    pub blog_tags: Option<Vec<BlogTagExport>>,
    pub friend_links: Option<Vec<FriendLinkExport>>,
    pub projects: Option<Vec<ProjectExport>>,
    pub directories: Option<Vec<DirectoryExport>>,
    pub documents: Option<Vec<DocumentExport>>,
    pub texts: Option<Vec<TextExport>>,
}

impl DirectoryExport {
    /// The export record of a directory row; no creation time is exported.
    pub fn from_row(id: i64, name: String, intro: Option<String>, parent_id: Option<i64>) -> (r: Self)
        ensures
            r.id == id,
            r.name == name,
            r.intro == intro,
            r.parent_id == parent_id,
            r.created_at is None,
    {
        DirectoryExport { id, name, intro, parent_id, created_at: None }
    }
}

impl DocumentExport {
    /// The export record of a document row; no creation time is exported.
    pub fn from_row(
        id: i64,
        name: String,
        filename: Option<String>,
        content: String,
        directory_id: Option<i64>,
    ) -> (r: Self)
        ensures
            r.id == id,
            r.name == name,
            r.filename == filename,
            r.content == content,
            r.directory_id == directory_id,
            r.created_at is None,
    {
        DocumentExport { id, name, filename, content, directory_id, created_at: None }
    }
}

/// The encryption flag stored for a text record's flag: unencrypted when
/// the record has none.
pub open spec fn encrypted_flag_spec(is_encrypted: Option<bool>) -> bool {
    match is_encrypted {
        Some(e) => e,
        None => false,
    }
}

impl TextExport {
    /// The export record of a text row: the encryption flag is always
    /// written, no times are exported.
    pub fn from_row(
        id: i64,
        name: String,
        intro: Option<String>,
        content: String,
        is_encrypted: bool,
        view_password: Option<String>,
    ) -> (r: Self)
        ensures
            r.id == id,
            r.name == name,
            r.intro == intro,
            r.content == content,
            r.is_encrypted == Some(is_encrypted),
            r.view_password == view_password,
            r.created_at is None,
            r.updated_at is None,
    {
        TextExport {
            id,
            name,
            intro,
            content,
            is_encrypted: Some(is_encrypted),
            view_password,
            created_at: None,
            updated_at: None,
        }
    }

    /// The encryption flag an imported text is stored with: unencrypted
    /// unless the record says otherwise.
    pub fn encrypted_flag(&self) -> (b: bool)
        ensures
            b == encrypted_flag_spec(self.is_encrypted),
    {
        match self.is_encrypted {
            Some(e) => e,
            None => false,
        }
    }
}

// ---------------------------------------------------------------------
// Values of imported rows
// ---------------------------------------------------------------------

/// The slug an imported blog is stored with: its own when not empty, else
/// `blog-<id>`.
pub open spec fn import_slug_spec(slug: Option<Seq<char>>, id: i64) -> Seq<char> {
    match slug {
        Some(s) => if s.len() > 0 {
            s
        } else {
            "blog-"@ + decimal(id as int)
        },
        None => "blog-"@ + decimal(id as int),
    }
}

impl BlogExport {
    /// The slug this blog is imported with.
    pub fn import_slug(&self) -> (r: String)
        ensures
            r@ == import_slug_spec(
                match self.slug {
                    Some(s) => Some(s@),
                    None => None,
                },
                self.id,
            ),
    {
        match &self.slug {
            Some(s) => {
                if !s.as_str().is_empty() {
                    return s.clone();
                }
            },
            None => {},
        }
        let digits = i64_decimal(self.id);
        let d = string_from_chars(digits.as_slice());
        String::from_str("blog-").concat(d.as_str())
    }
}

/// Re-importing what was exported binds the exported values: a text
/// record exported from a row (which always carries its flag) is stored
/// with the row's encryption flag, and a blog whose exported slug is not
/// empty is stored under that same slug.
pub proof fn lemma_reimport_keeps_values(text: TextExport, blog: BlogExport)
    requires
        text.is_encrypted is Some,
        blog.slug matches Some(s) && s@.len() > 0,
    ensures
        encrypted_flag_spec(text.is_encrypted) == text.is_encrypted->0,
        import_slug_spec(
            match blog.slug {
                Some(s) => Some(s@),
                None => None,
            },
            blog.id,
        ) == blog.slug->0@,
{
}

// ---------------------------------------------------------------------
// The order of imported directories
// ---------------------------------------------------------------------

/// Where a directory record stands in the import order: records without a
/// parent first, then by id, then by position in the input.
pub struct DirectoryOrderKey {
    pub has_parent: bool,
    pub id: i64,
    pub index: usize,
}

/// `(has_parent, id, index)` of `a` is lexicographically below that of `b`.
pub open spec fn order_key_lt(a: DirectoryOrderKey, b: DirectoryOrderKey) -> bool {
    ||| (!a.has_parent && b.has_parent)
    ||| (a.has_parent == b.has_parent && a.id < b.id)
    ||| (a.has_parent == b.has_parent && a.id == b.id && a.index < b.index)
}

impl KeyOrder for DirectoryOrderKey {
    open spec fn key_id(&self) -> i64 {
        self.index as i64
    }

    open spec fn key_lt(&self, other: &Self) -> bool {
        order_key_lt(*self, *other)
    }

    fn precedes(&self, other: &Self) -> (b: bool) {
        if self.has_parent != other.has_parent {
            !self.has_parent
        } else if self.id != other.id {
            self.id < other.id
        } else {
            self.index < other.index
        }
    }

    proof fn lemma_irreflexive(a: &Self) {
    }

    proof fn lemma_transitive(a: &Self, b: &Self, c: &Self) {
    }

    proof fn lemma_total(a: &Self, b: &Self) {
    }

    proof fn lemma_asymmetric(a: &Self, b: &Self) {
    }
}

/// The order key of record `i` of `dirs`.
pub open spec fn key_of(dirs: Seq<DirectoryExport>, i: int) -> DirectoryOrderKey {
    DirectoryOrderKey { has_parent: dirs[i].parent_id is Some, id: dirs[i].id, index: i as usize }
}

/// `order` lists every position of `dirs` once, top-level directories
/// first and then by id, equal keys in input order (a stable sort).
pub open spec fn is_import_order(order: Seq<usize>, dirs: Seq<DirectoryExport>) -> bool {
    &&& order.len() == dirs.len()
    &&& forall|k: int| 0 <= k < order.len() ==> #[trigger] order[k] < dirs.len()
    &&& forall|a: int, b: int|
        0 <= a < b < order.len() ==> order_key_lt(
            key_of(dirs, #[trigger] order[a] as int),
            key_of(dirs, #[trigger] order[b] as int),
        )
}

/// The positions of `dirs` in the order they are imported: directories
/// without a parent first, then by id; records with the same key keep
/// their input order.
pub fn import_directory_order(dirs: &Vec<DirectoryExport>) -> (order: Vec<usize>)
    requires
        dirs@.len() <= i64::MAX,
    ensures
        is_import_order(order@, dirs@),
{
    let mut keys: Vec<DirectoryOrderKey> = Vec::new();
    let mut i: usize = 0;
    while i < dirs.len()
        invariant
            i <= dirs@.len() <= i64::MAX,
            keys@.len() == i,
            forall|k: int| 0 <= k < i ==> #[trigger] keys@[k] == key_of(dirs@, k),
        decreases dirs@.len() - i,
    {
        let has_parent = match dirs[i].parent_id {
            Some(_) => true,
            None => false,
        };
        keys.push(DirectoryOrderKey { has_parent, id: dirs[i].id, index: i });
        i = i + 1;
    }
    proof {
        assert forall|a: int, b: int|
            0 <= a < keys@.len() && 0 <= b < keys@.len() && a != b implies (
        #[trigger] keys@[a]).key_id() != (#[trigger] keys@[b]).key_id() by {
            assert(keys@[a] == key_of(dirs@, a));
            assert(keys@[b] == key_of(dirs@, b));
        }
    }
    let ghost orig = keys@;
    let sorted = sort_by_key(keys);
    proof {
        assert(sorted@.len() == sorted@.to_multiset().len());
        assert(orig.len() == orig.to_multiset().len());
        assert forall|k: int| 0 <= k < sorted@.len() implies #[trigger] sorted@[k] == key_of(
            dirs@,
            sorted@[k].index as int,
        ) && sorted@[k].index < dirs@.len() by {
            let x = sorted@[k];
            assert(sorted@.to_multiset().count(x) > 0);
            assert(orig.contains(x));
            let j = choose|j: int| 0 <= j < orig.len() && orig[j] == x;
            assert(orig[j] == key_of(dirs@, j));
        }
    }
    let mut order: Vec<usize> = Vec::new();
    let mut k: usize = 0;
    while k < sorted.len()
        invariant
            k <= sorted@.len(),
            sorted@.len() == dirs@.len(),
            order@.len() == k,
            forall|m: int| 0 <= m < k ==> #[trigger] order@[m] == sorted@[m].index,
        decreases sorted@.len() - k,
    {
        order.push(sorted[k].index);
        k = k + 1;
    }
    proof {
        assert forall|m: int| 0 <= m < order@.len() implies #[trigger] order@[m] < dirs@.len() by {
            assert(order@[m] == sorted@[m].index);
            assert(sorted@[m] == key_of(dirs@, sorted@[m].index as int));
        }
        assert forall|a: int, b: int| 0 <= a < b < order@.len() implies order_key_lt(
            key_of(dirs@, #[trigger] order@[a] as int),
            key_of(dirs@, #[trigger] order@[b] as int),
        ) by {
            assert(order@[a] == sorted@[a].index && order@[b] == sorted@[b].index);
            assert(sorted@[a] == key_of(dirs@, sorted@[a].index as int));
            assert(sorted@[b] == key_of(dirs@, sorted@[b].index as int));
            assert(sorted@[a].key_lt(&sorted@[b]));
        }
    }
    order
}

/// The import order lists each position once: no two places of the order
/// name the same record.
pub proof fn lemma_import_order_distinct(order: Seq<usize>, dirs: Seq<DirectoryExport>)
    requires
        is_import_order(order, dirs),
    ensures
        forall|a: int, b: int| 0 <= a < b < order.len() ==> #[trigger] order[a] != #[trigger] order[b],
{
    assert forall|a: int, b: int| 0 <= a < b < order.len() implies #[trigger] order[a] != #[trigger] order[b] by {
        assert(order_key_lt(key_of(dirs, order[a] as int), key_of(dirs, order[b] as int)));
    }
}

// ---------------------------------------------------------------------
// The tally of an import
// ---------------------------------------------------------------------

/// How the import of one table went.
pub struct ImportStats {
    pub total: i64,
    pub success: i64,
    pub failed: i64,
    pub errors: Vec<String>,
}

impl Default for ImportStats {
    /// A table that was not in the import: all counts zero.
    fn default() -> (r: Self)
        ensures
            r.total == 0,
            r.success == 0,
            r.failed == 0,
            r.errors@.len() == 0,
    {
        ImportStats { total: 0, success: 0, failed: 0, errors: Vec::new() }
    }
}

/// The counts agree: one error per failure, and no more outcomes than
/// records.
pub open spec fn stats_consistent(s: ImportStats) -> bool {
    &&& s.failed == s.errors@.len()
    &&& 0 <= s.success
    &&& 0 <= s.failed
    &&& s.success + s.failed <= s.total
}

/// `"<label>: <error>"`.
pub open spec fn failure_message(label: Seq<char>, error: Seq<char>) -> Seq<char> {
    label + ": "@ + error
}

impl ImportStats {
    /// The tally of a table of `n` records before any is written.
    pub fn for_items(n: usize) -> (r: Self)
        requires
            n <= i64::MAX,
        ensures
            r.total == n,
            r.success == 0,
            r.failed == 0,
            r.errors@.len() == 0,
            stats_consistent(r),
    {
        ImportStats { total: n as i64, success: 0, failed: 0, errors: Vec::new() }
    }

    /// Records the outcome of writing the record labelled `label`: a
    /// success is counted; a failure is counted and its message kept.
    pub fn record(&mut self, label: &str, outcome: Result<(), String>)
        requires
            old(self).success < i64::MAX,
            old(self).failed < i64::MAX,
        ensures
            final(self).total == old(self).total,
            match outcome {
                Ok(()) => {
                    &&& final(self).success == old(self).success + 1
                    &&& final(self).failed == old(self).failed
                    &&& final(self).errors@ == old(self).errors@
                },
                Err(e) => {
                    &&& final(self).success == old(self).success
                    &&& final(self).failed == old(self).failed + 1
                    &&& final(self).errors@.len() == old(self).errors@.len() + 1
                    &&& final(self).errors@.take(old(self).errors@.len() as int) == old(
                        self,
                    ).errors@
                    &&& final(self).errors@.last()@ == failure_message(label@, e@)
                },
            },
            stats_consistent(*old(self)) && old(self).success + old(self).failed < old(self).total
                ==> stats_consistent(*final(self)),
    {
        match outcome {
            Ok(()) => {
                self.success = self.success + 1;
            },
            Err(e) => {
                self.failed = self.failed + 1;
                let m = label.to_owned().concat(": ").concat(e.as_str());
                let ghost before = self.errors@;
                self.errors.push(m);
                proof {
                    assert(self.errors@.take(before.len() as int) =~= before);
                }
            },
        }
    }
}

/// `"<kind> <id>"`, the label of a record in an import error.
pub fn item_label(kind: &str, id: i64) -> (r: String)
    ensures
        r@ == kind@ + " "@ + decimal(id as int),
{
    let d = string_from_chars(i64_decimal(id).as_slice());
    kind.to_owned().concat(" ").concat(d.as_str())
}

/// `"BlogTag (<blog>, <tag>)"`, the label of a blog–tag link.
pub fn blog_tag_label(blog_id: i64, tag_id: i64) -> (r: String)
    ensures
        r@ == "BlogTag ("@ + decimal(blog_id as int) + ", "@ + decimal(tag_id as int) + ")"@,
{
    let b = string_from_chars(i64_decimal(blog_id).as_slice());
    let t = string_from_chars(i64_decimal(tag_id).as_slice());
    String::from_str("BlogTag (").concat(b.as_str()).concat(", ").concat(t.as_str()).concat(")")
}

/// How each table of an import went.
pub struct ImportResult {
    pub categories: ImportStats,
    pub tags: ImportStats,
    pub blogs: ImportStats,
    pub blog_tags: ImportStats,
    pub friend_links: ImportStats,
    pub projects: ImportStats,
    pub directories: ImportStats,
    pub documents: ImportStats,
    pub texts: ImportStats,
}

impl ImportResult {
    /// The result before any table is imported.
    pub fn empty() -> (r: Self)
        ensures
            r.categories.total == 0 && r.categories.errors@.len() == 0,
            r.tags.total == 0 && r.blogs.total == 0 && r.blog_tags.total == 0,
            r.friend_links.total == 0 && r.projects.total == 0,
            r.directories.total == 0 && r.documents.total == 0 && r.texts.total == 0,
            stats_consistent(r.categories) && stats_consistent(r.tags) && stats_consistent(
                r.blogs,
            ) && stats_consistent(r.blog_tags) && stats_consistent(r.friend_links)
                && stats_consistent(r.projects) && stats_consistent(r.directories)
                && stats_consistent(r.documents) && stats_consistent(r.texts),
    {
        ImportResult {
            categories: ImportStats::default(),
            tags: ImportStats::default(),
            blogs: ImportStats::default(),
            blog_tags: ImportStats::default(),
            friend_links: ImportStats::default(),
            projects: ImportStats::default(),
            directories: ImportStats::default(),
            documents: ImportStats::default(),
            texts: ImportStats::default(),
        }
    }
}

} // verus!
