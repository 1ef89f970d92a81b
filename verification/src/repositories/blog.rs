//! Blog listing: the text of the filtered list queries, paging offsets and
//! the list items built from the rows.

use vstd::prelude::*;
use crate::models::Timestamp;
use crate::models::blog::BlogListItem;
use crate::models::category::Category;
use crate::models::tag::Tag;
use crate::text::{decimal, i64_decimal, string_from_chars, join_spec};

verus! {

broadcast use vstd::string::group_string_axioms;

/// The row offset of page `page` (counted from 1) of `page_size` rows.
pub open spec fn page_offset_spec(page: i64, page_size: i64) -> int {
    (page - 1) * page_size
}

/// The offset of a page can be computed in `i64`.
pub open spec fn offset_fits(page: i64, page_size: i64) -> bool {
    page > i64::MIN && i64::MIN <= page_offset_spec(page, page_size) <= i64::MAX
}

/// `(page - 1) * page_size`, the number of rows before a page.
pub fn page_offset(page: i64, page_size: i64) -> (r: i64)
    requires
        offset_fits(page, page_size),
    ensures
        r == page_offset_spec(page, page_size),
{
    (page - 1) * page_size
}

/// Blog queries.
pub struct BlogRepository;

/// The filters of the blog list as SQL conditions, in the order category,
/// tag, publication.
pub open spec fn filter_clauses(
    category_id: Option<i64>,
    tag_id: Option<i64>,
    is_published: Option<bool>,
) -> Seq<Seq<char>> {
    let a: Seq<Seq<char>> = match category_id {
        Some(c) => seq!["b.category_id = "@ + decimal(c as int)],
        None => seq![],
    };
    let b: Seq<Seq<char>> = match tag_id {
        Some(t) => seq!["bt.tag_id = "@ + decimal(t as int)],
        None => seq![],
    };
    let c: Seq<Seq<char>> = match is_published {
        Some(p) => seq!["b.is_published = "@ + (if p {
            "true"@
        } else {
            "false"@
        })],
        None => seq![],
    };
    a + b + c
}

/// The join on tags, present when a tag filter is given.
pub open spec fn tag_join(tag_id: Option<i64>) -> Seq<char> {
    if tag_id is Some {
        " INNER JOIN blog_tags bt ON bt.blog_id = b.id"@
    } else {
        ""@
    }
}

/// The `WHERE` part joining the conditions with `AND`; empty without any.
pub open spec fn where_part(clauses: Seq<Seq<char>>) -> Seq<char> {
    if clauses.len() == 0 {
        Seq::empty()
    } else {
        " WHERE "@ + join_spec(clauses, " AND "@)
    }
}

/// The head of the list query: its columns and joins.
pub open spec fn list_query_head() -> Seq<char> {
    "\n            SELECT DISTINCT\n                b.id,\n                b.title,\n                b.slug,\n                b.author,\n                LEFT(b.content, 200) as excerpt,\n                b.thumbnail,\n                b.view_count,\n                b.is_published,\n                b.created_at,\n                c.id as category_id,\n                c.name as category_name,\n                c.intro as category_intro,\n                c.logo as category_logo,\n                c.created_at as category_created_at\n            FROM blogs b\n            LEFT JOIN categories c ON c.id = b.category_id\n            "@
}

/// The count query of a filtered blog list.
pub open spec fn count_query_spec(
    category_id: Option<i64>,
    tag_id: Option<i64>,
    is_published: Option<bool>,
) -> Seq<char> {
    "SELECT COUNT(DISTINCT b.id) FROM blogs b"@ + tag_join(tag_id) + where_part(
        filter_clauses(category_id, tag_id, is_published),
    )
}

/// The page query of a filtered blog list: newest first.
pub open spec fn data_query_spec(
    page_size: i64,
    offset: int,
    category_id: Option<i64>,
    tag_id: Option<i64>,
    is_published: Option<bool>,
) -> Seq<char> {
    list_query_head() + tag_join(tag_id) + where_part(
        filter_clauses(category_id, tag_id, is_published),
    ) + " ORDER BY b.created_at DESC LIMIT "@ + decimal(page_size as int) + " OFFSET "@ + decimal(
        offset,
    )
}

/// The two queries of one page of a filtered blog list.
pub struct BlogListQueries {
    pub count_sql: String,
    pub data_sql: String,
}

fn decimal_string(i: i64) -> (r: String)
    ensures
        r@ == decimal(i as int),
{
    string_from_chars(i64_decimal(i).as_slice())
}

impl BlogRepository {
    /// The count query and the page query of the blog list filtered by
    /// category, tag and publication.
    pub fn filter_queries(
        page: i64,
        page_size: i64,
        category_id: Option<i64>,
        tag_id: Option<i64>,
        is_published: Option<bool>,
    ) -> (r: BlogListQueries)
        requires
            offset_fits(page, page_size),
        ensures
            r.count_sql@ == count_query_spec(category_id, tag_id, is_published),
            r.data_sql@ == data_query_spec(
                page_size,
                page_offset_spec(page, page_size),
                category_id,
                tag_id,
                is_published,
            ),
    {
        let offset = page_offset(page, page_size);
        let mut clauses: Vec<String> = Vec::new();
        match category_id {
            Some(c) => {
                clauses.push(String::from_str("b.category_id = ").concat(decimal_string(c).as_str()));
            },
            None => {},
        }
        match tag_id {
            Some(t) => {
                clauses.push(String::from_str("bt.tag_id = ").concat(decimal_string(t).as_str()));
            },
            None => {},
        }
        match is_published {
            Some(p) => {
                let v = if p {
                    "true"
                } else {
                    "false"
                };
                clauses.push(String::from_str("b.is_published = ").concat(v));
            },
            None => {},
        }
        proof {
            assert(crate::text::string_views(clauses@) =~= filter_clauses(category_id, tag_id, is_published));
        }
        let join: &str = match tag_id {
            Some(_) => " INNER JOIN blog_tags bt ON bt.blog_id = b.id",
            None => "",
        };
        let where_text: String = if clauses.len() == 0 {
            String::new()
        } else {
            String::from_str(" WHERE ").concat(join_strings(&clauses, " AND ").as_str())
        };
        let count_sql = String::from_str("SELECT COUNT(DISTINCT b.id) FROM blogs b").concat(join).concat(
            where_text.as_str(),
        );
        let data_sql = String::from_str("\n            SELECT DISTINCT\n                b.id,\n                b.title,\n                b.slug,\n                b.author,\n                LEFT(b.content, 200) as excerpt,\n                b.thumbnail,\n                b.view_count,\n                b.is_published,\n                b.created_at,\n                c.id as category_id,\n                c.name as category_name,\n                c.intro as category_intro,\n                c.logo as category_logo,\n                c.created_at as category_created_at\n            FROM blogs b\n            LEFT JOIN categories c ON c.id = b.category_id\n            ").concat(join).concat(where_text.as_str()).concat(
            " ORDER BY b.created_at DESC LIMIT ",
        ).concat(decimal_string(page_size).as_str()).concat(" OFFSET ").concat(
            decimal_string(offset).as_str(),
        );
        BlogListQueries { count_sql, data_sql }
    }

    /// The list item of a row of the list query, with the blog's tags.
    pub fn list_item(
        id: i64,
        title: String,
        slug: Option<String>,
        author: Option<String>,
        excerpt: Option<String>,
        thumbnail: Option<String>,
        view_count: i64,
        is_published: bool,
        created_at: Option<Timestamp>,
        category: Option<Category>,
        tags: Vec<Tag>,
    ) -> (r: BlogListItem)
        ensures
            r.id == id && r.title == title && r.slug == slug && r.author == author,
            r.excerpt == excerpt && r.thumbnail == thumbnail && r.view_count == view_count,
            r.is_published == is_published && r.created_at == created_at,
            r.category == category && r.tags == tags,
    {
        BlogListItem {
            id,
            title,
            slug,
            author,
            excerpt,
            thumbnail,
            category,
            tags,
            view_count,
            is_published,
            created_at,
        }
    }
}

/// The strings of `parts` joined with `sep` between them.
pub fn join_strings(parts: &Vec<String>, sep: &str) -> (r: String)
    ensures
        r@ == join_spec(crate::text::string_views(parts@), sep@),
{
    let mut v: Vec<Vec<char>> = Vec::new();
    let mut i: usize = 0;
    while i < parts.len()
        invariant
            i <= parts@.len(),
            crate::text::views_of(v@) == crate::text::string_views(parts@).take(i as int),
        decreases parts@.len() - i,
    {
        let ghost v0 = v@;
        v.push(crate::text::chars_of(parts[i].as_str()));
        proof {
            assert(crate::text::views_of(v@) =~= crate::text::views_of(v0).push(parts@[i as int]@));
            assert(crate::text::string_views(parts@).take(i + 1) =~= crate::text::string_views(
                parts@,
            ).take(i as int).push(parts@[i as int]@));
        }
        i = i + 1;
    }
    proof {
        assert(crate::text::string_views(parts@).take(parts@.len() as int) =~= crate::text::string_views(parts@));
    }
    let sepv = crate::text::chars_of(sep);
    let joined = crate::text::join_chars(&v, sepv.as_slice());
    string_from_chars(joined.as_slice())
}

} // verus!
