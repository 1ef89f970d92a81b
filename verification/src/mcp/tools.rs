//! The rules the MCP tools apply to their arguments before touching the
//! database or storage: paging defaults, tag id lists, required texts,
//! upload names, contents and types.

use vstd::prelude::*;
use vstd::utf8::encode_utf8;
use base64::Engine;
use crate::text::{chars_of, has_char, string_from_chars, trim_spec, trim_str, starts_with, starts_with_spec};

verus! {

broadcast use vstd::string::group_string_axioms;

// ---------------------------------------------------------------------
// Paging arguments
// ---------------------------------------------------------------------

/// `v` held to `lo..=hi`.
pub open spec fn clamp_spec(v: i64, lo: i64, hi: i64) -> i64 {
    if v < lo {
        lo
    } else if v > hi {
        hi
    } else {
        v
    }
}

/// The page number asked for: 1 when absent, never below 1.
pub open spec fn page_spec(page: Option<i64>) -> i64 {
    match page {
        Some(p) => if p < 1 {
            1
        } else {
            p
        },
        None => 1,
    }
}

/// The page size asked for: `default` when absent, held to `1..=100`.
pub open spec fn page_size_spec(page_size: Option<i64>, default: i64) -> i64 {
    match page_size {
        Some(s) => clamp_spec(s, 1, 100),
        None => clamp_spec(default, 1, 100),
    }
}

/// A page is at least 1 and a page size within `1..=100`; a size already
/// in range is kept.
pub proof fn lemma_paging_bounds(page: Option<i64>, page_size: Option<i64>, default: i64)
    ensures
        page_spec(page) >= 1,
        1 <= page_size_spec(page_size, default) <= 100,
        forall|p: i64| page == Some(p) && p >= 1 ==> page_spec(page) == p,
        forall|s: i64| page_size == Some(s) && 1 <= s <= 100 ==> page_size_spec(page_size, default)
            == s,
{
}

/// `page.unwrap_or(1).max(1)`.
pub fn page_or_first(page: Option<i64>) -> (r: i64)
    ensures
        r == page_spec(page),
{
    match page {
        Some(p) => if p < 1 {
            1
        } else {
            p
        },
        None => 1,
    }
}

/// `page_size.unwrap_or(default).clamp(1, 100)`.
pub fn page_size_or(page_size: Option<i64>, default: i64) -> (r: i64)
    ensures
        r == page_size_spec(page_size, default),
{
    let v = match page_size {
        Some(s) => s,
        None => default,
    };
    if v < 1 {
        1
    } else if v > 100 {
        100
    } else {
        v
    }
}

/// Arguments of the `search_blogs` tool.
pub struct SearchBlogsArgs {
    pub keyword: String,
    pub page: Option<i64>,
    pub page_size: Option<i64>,
    pub published_only: Option<bool>,
}

impl SearchBlogsArgs {
    /// The page asked for, at least 1.
    pub fn page(&self) -> (r: i64)
        ensures
            r == page_spec(self.page),
    {
        page_or_first(self.page)
    }

    /// The page size asked for, 10 by default, within `1..=100`.
    pub fn page_size(&self) -> (r: i64)
        ensures
            r == page_size_spec(self.page_size, 10),
    {
        page_size_or(self.page_size, 10)
    }

    /// Whether to search published blogs only (the default).
    pub fn published_only(&self) -> (r: bool)
        ensures
            r == match self.published_only {
                Some(b) => b,
                None => true,
            },
    {
        match self.published_only {
            Some(b) => b,
            None => true,
        }
    }
}

/// Arguments of the `list_blogs` tool.
pub struct ListBlogsArgs {
    pub page: Option<i64>,
    pub page_size: Option<i64>,
    pub published_only: Option<bool>,
}

impl ListBlogsArgs {
    /// The page asked for, at least 1.
    pub fn page(&self) -> (r: i64)
        ensures
            r == page_spec(self.page),
    {
        page_or_first(self.page)
    }

    /// The page size asked for, 20 by default, within `1..=100`.
    pub fn page_size(&self) -> (r: i64)
        ensures
            r == page_size_spec(self.page_size, 20),
    {
        page_size_or(self.page_size, 20)
    }

    /// The publication filter: the one asked for, published only by
    /// default.
    pub fn published_only(&self) -> (r: Option<bool>)
        ensures
            r == match self.published_only {
                Some(b) => Some(b),
                None => Some(true),
            },
    {
        match self.published_only {
            Some(b) => Some(b),
            None => Some(true),
        }
    }
}

/// Arguments of the `list_documents` tool.
pub struct ListDocumentsArgs {
    pub keyword: Option<String>,
    pub directory_id: Option<i64>,
    pub limit: Option<i64>,
}

impl ListDocumentsArgs {
    /// The number of documents asked for, 20 by default, within `1..=100`.
    pub fn limit(&self) -> (r: i64)
        ensures
            r == page_size_spec(self.limit, 20),
    {
        page_size_or(self.limit, 20)
    }
}

// ---------------------------------------------------------------------
// Tag id lists
// ---------------------------------------------------------------------

/// The positive ids of `ids`, each once, in the order of first occurrence.
pub open spec fn normalize_tag_ids_spec(ids: Seq<i64>) -> Seq<i64>
    decreases ids.len(),
{
    if ids.len() == 0 {
        seq![]
    } else {
        let prev = normalize_tag_ids_spec(ids.drop_last());
        let x = ids.last();
        if x > 0 && !prev.contains(x) {
            prev.push(x)
        } else {
            prev
        }
    }
}

/// Keeps the positive ids, each once, in the order of first occurrence.
pub fn normalize_tag_ids(tag_ids: Vec<i64>) -> (r: Vec<i64>)
    ensures
        r@ == normalize_tag_ids_spec(tag_ids@),
{
    let mut out: Vec<i64> = Vec::new();
    let mut i: usize = 0;
    while i < tag_ids.len()
        invariant
            i <= tag_ids@.len(),
            out@ == normalize_tag_ids_spec(tag_ids@.take(i as int)),
        decreases tag_ids@.len() - i,
    {
        let x = tag_ids[i];
        proof {
            assert(tag_ids@.take(i + 1).drop_last() =~= tag_ids@.take(i as int));
        }
        let mut seen = false;
        let mut k: usize = 0;
        while k < out.len()
            invariant
                k <= out@.len(),
                seen <==> (exists|j: int| 0 <= j < k && out@[j] == x),
            decreases out@.len() - k,
        {
            if out[k] == x {
                seen = true;
            }
            k = k + 1;
        }
        if x > 0 && !seen {
            out.push(x);
        }
        i = i + 1;
    }
    proof {
        assert(tag_ids@.take(tag_ids@.len() as int) =~= tag_ids@);
    }
    out
}

/// The normalized ids are exactly the positive ids of the input, each
/// once: every kept id is positive and from the input, none repeats, and
/// every positive input id is kept.
pub proof fn lemma_normalize_tag_ids(ids: Seq<i64>)
    ensures
        forall|i: int|
            0 <= i < normalize_tag_ids_spec(ids).len() ==> #[trigger] normalize_tag_ids_spec(ids)[i]
                > 0 && ids.contains(normalize_tag_ids_spec(ids)[i]),
        forall|i: int, j: int|
            0 <= i < j < normalize_tag_ids_spec(ids).len() ==> #[trigger] normalize_tag_ids_spec(
                ids,
            )[i] != #[trigger] normalize_tag_ids_spec(ids)[j],
        forall|x: i64| #[trigger] ids.contains(x) && x > 0 ==> normalize_tag_ids_spec(ids).contains(x),
    decreases ids.len(),
{
    if ids.len() > 0 {
        let prev = normalize_tag_ids_spec(ids.drop_last());
        lemma_normalize_tag_ids(ids.drop_last());
        let r = normalize_tag_ids_spec(ids);
        assert forall|i: int| 0 <= i < r.len() implies #[trigger] r[i] > 0 && ids.contains(r[i]) by {
            if i < prev.len() {
                assert(r[i] == prev[i]);
                let k = choose|k: int| 0 <= k < ids.drop_last().len() && ids.drop_last()[k] == prev[i];
                assert(ids[k] == r[i]);
            } else {
                assert(ids[ids.len() - 1] == r[i]);
            }
        }
        assert forall|x: i64| #[trigger] ids.contains(x) && x > 0 implies r.contains(x) by {
            let k = choose|k: int| 0 <= k < ids.len() && ids[k] == x;
            if k < ids.len() - 1 {
                assert(ids.drop_last()[k] == x);
                assert(ids.drop_last().contains(x));
                let m = choose|m: int| 0 <= m < prev.len() && prev[m] == x;
                assert(r[m] == x);
            } else if prev.contains(x) {
                let m = choose|m: int| 0 <= m < prev.len() && prev[m] == x;
                assert(r[m] == x);
            } else {
                assert(r[r.len() - 1] == x);
            }
        }
    }
}

/// Normalizing twice gives what normalizing once gives.
pub proof fn lemma_normalize_tag_ids_idempotent(ids: Seq<i64>)
    ensures
        normalize_tag_ids_spec(normalize_tag_ids_spec(ids)) == normalize_tag_ids_spec(ids),
{
    lemma_normalize_tag_ids(ids);
    lemma_normalize_distinct_positive(normalize_tag_ids_spec(ids));
}

/// A list of distinct positive ids is left as it is.
pub proof fn lemma_normalize_distinct_positive(ids: Seq<i64>)
    requires
        forall|i: int| 0 <= i < ids.len() ==> #[trigger] ids[i] > 0,
        forall|i: int, j: int| 0 <= i < j < ids.len() ==> #[trigger] ids[i] != #[trigger] ids[j],
    ensures
        normalize_tag_ids_spec(ids) == ids,
    decreases ids.len(),
{
    if ids.len() > 0 {
        let d = ids.drop_last();
        assert forall|i: int, j: int| 0 <= i < j < d.len() implies #[trigger] d[i] != #[trigger] d[j] by {
            assert(d[i] == ids[i] && d[j] == ids[j]);
        }
        assert forall|i: int| 0 <= i < d.len() implies #[trigger] d[i] > 0 by {
            assert(d[i] == ids[i]);
        }
        lemma_normalize_distinct_positive(d);
        assert(ids.last() > 0);
        if d.contains(ids.last()) {
            let k = choose|k: int| 0 <= k < d.len() && d[k] == ids.last();
            assert(ids[k] == ids[ids.len() - 1]);
        }
        assert(d.push(ids.last()) =~= ids);
    }
}

// ---------------------------------------------------------------------
// Required texts and slugs
// ---------------------------------------------------------------------

/// `"<field> 不能为空"`.
pub open spec fn empty_field_message(field: Seq<char>) -> Seq<char> {
    field + " 不能为空"@
}

/// Rejects a value that is empty once trimmed, naming the field.
pub fn require_text(value: &str, field: &str) -> (r: Result<(), String>)
    ensures
        match r {
            Ok(()) => trim_spec(value@).len() > 0,
            Err(m) => trim_spec(value@).len() == 0 && m@ == empty_field_message(field@),
        },
{
    let t = trim_str(value);
    if t.as_str().is_empty() {
        Err(field.to_owned().concat(" 不能为空"))
    } else {
        Ok(())
    }
}

/// A name for a new or renamed category or tag: trimmed, and not empty.
pub fn required_name(name: &str) -> (r: Result<String, String>)
    ensures
        match r {
            Ok(n) => n@ == trim_spec(name@) && n@.len() > 0,
            Err(m) => trim_spec(name@).len() == 0 && m@ == empty_field_message("name"@),
        },
{
    let t = trim_str(name);
    if t.as_str().is_empty() {
        Err("name".to_owned().concat(" 不能为空"))
    } else {
        Ok(t)
    }
}

/// `"<kind> '<name>' 已存在"`.
pub open spec fn name_taken_message(kind: Seq<char>, name: Seq<char>) -> Seq<char> {
    kind + " '"@ + name + "' 已存在"@
}

/// The answer when another record of `kind` (`分类`, `标签`) already has
/// `name`.
pub fn name_taken(kind: &str, name: &str) -> (r: String)
    ensures
        r@ == name_taken_message(kind@, name@),
{
    kind.to_owned().concat(" '").concat(name).concat("' 已存在")
}

/// `"无法删除分类 '<name>'：仍有 <count> 篇博客使用该分类"`.
pub open spec fn category_in_use_text(name: Seq<char>, count: i64) -> Seq<char> {
    "无法删除分类 '"@ + name + "'：仍有 "@ + crate::text::decimal(count as int) + " 篇博客使用该分类"@
}

/// A category can be deleted only while no blog is filed under it.
pub fn category_unused(name: &str, blog_count: i64) -> (r: Result<(), String>)
    ensures
        match r {
            Ok(()) => blog_count <= 0,
            Err(m) => blog_count > 0 && m@ == category_in_use_text(name@, blog_count),
        },
{
    if blog_count > 0 {
        let d = string_from_chars(crate::text::i64_decimal(blog_count).as_slice());
        Err("无法删除分类 '".to_owned().concat(name).concat("'：仍有 ").concat(d.as_str()).concat(" 篇博客使用该分类"))
    } else {
        Ok(())
    }
}

/// A friend link status, when given, is 0, 1 or 2.
pub fn friend_link_status_known(status: Option<i16>) -> (r: Result<(), String>)
    ensures
        match r {
            Ok(()) => match status {
                Some(s) => 0 <= s <= 2,
                None => true,
            },
            Err(m) => (status matches Some(s) && !(0 <= s <= 2)) && m@ == "status 只能是 0、1、2"@,
        },
{
    match status {
        Some(s) => if 0 <= s && s <= 2 {
            Ok(())
        } else {
            Err("status 只能是 0、1、2".to_owned())
        },
        None => Ok(()),
    }
}

/// A slug, when given, must not be blank: `slug 不能为空` otherwise.
pub fn validate_slug(slug: Option<&str>) -> (r: Result<(), String>)
    ensures
        match slug {
            Some(s) => match r {
                Ok(()) => trim_spec(s@).len() > 0,
                Err(m) => trim_spec(s@).len() == 0 && m@ == empty_field_message("slug"@),
            },
            None => r is Ok,
        },
{
    match slug {
        Some(s) => require_text(s, "slug"),
        None => Ok(()),
    }
}

// ---------------------------------------------------------------------
// Uploads
// ---------------------------------------------------------------------

/// Why an upload name is refused, if it is: blank, holding a path
/// separator, or longer than 500 bytes in UTF-8 (all once trimmed).
pub open spec fn upload_filename_error(filename: Seq<char>) -> Option<Seq<char>> {
    let t = trim_spec(filename);
    if t.len() == 0 {
        Some("filename 不能为空"@)
    } else if t.contains('/') || t.contains('\\') {
        Some("filename 不能包含路径分隔符"@)
    } else if encode_utf8(t).len() > 500 {
        Some("filename 不能超过 500 字节"@)
    } else {
        None
    }
}

/// The trimmed upload name, or why it is refused.
pub fn normalize_upload_filename(filename: &str) -> (r: Result<String, String>)
    ensures
        match r {
            Ok(n) => upload_filename_error(filename@) is None && n@ == trim_spec(filename@),
            Err(m) => upload_filename_error(filename@) == Some(m@),
        },
{
    let t = trim_str(filename);
    let tv = chars_of(t.as_str());
    if t.as_str().is_empty() {
        return Err(String::from_str("filename 不能为空"));
    }
    if has_char(tv.as_slice(), '/') || has_char(tv.as_slice(), '\\') {
        return Err(String::from_str("filename 不能包含路径分隔符"));
    }
    if crate::text::utf8_len_exceeds(tv.as_slice(), 500) {
        return Err(String::from_str("filename 不能超过 500 字节"));
    }
    Ok(t)
}

/// The error type of base64 decoding.
#[verifier::external_type_specification]
#[verifier::external_body]
pub struct ExDecodeError(base64::DecodeError);

/// The bytes that the standard base64 engine (with padding) decodes from
/// `text`; `None` when it rejects the text.
pub uninterp spec fn base64_decoded(text: Seq<char>) -> Option<Seq<u8>>;

/// `base64::engine::general_purpose::STANDARD.decode(text)`: the result is
/// the name `base64_decoded` of the text; the base64 rules are not stated.
#[verifier::external_body]
fn base64_decode(text: &str) -> (r: Result<Vec<u8>, base64::DecodeError>)
    ensures
        match r {
            Ok(v) => base64_decoded(text@) == Some(v@),
            Err(_) => base64_decoded(text@) is None,
        },
{
    base64::engine::general_purpose::STANDARD.decode(text)
}

/// The `Display` text of a base64 error; nothing is claimed of it.
#[verifier::external_body]
fn decode_error_text(e: &base64::DecodeError) -> (r: String) {
    e.to_string()
}

/// The part of `s` after its first `,` (all of `s` when there is none).
pub open spec fn after_first_comma(s: Seq<char>) -> Seq<char> {
    match s.index_of_first(',') {
        Some(i) => s.skip(i + 1),
        None => s,
    }
}

/// `s` without its white-space characters.
pub open spec fn without_white_space(s: Seq<char>) -> Seq<char>
    decreases s.len(),
{
    if s.len() == 0 {
        seq![]
    } else if crate::text::is_white_space(s.last()) {
        without_white_space(s.drop_last())
    } else {
        without_white_space(s.drop_last()).push(s.last())
    }
}

/// The base64 text of an upload: what follows a data-URL header (the first
/// `,`), with white space removed.
pub open spec fn base64_payload(s: Seq<char>) -> Seq<char> {
    without_white_space(after_first_comma(s))
}

fn payload_of(s: &str) -> (r: String)
    ensures
        r@ == base64_payload(s@),
{
    let v = chars_of(s);
    let mut k: usize = 0;
    let mut found = false;
    let mut start: usize = 0;
    while !found && k < v.len()
        invariant
            k <= v@.len(),
            forall|j: int| 0 <= j < k ==> v@[j] != ',',
            found ==> k < v@.len() && v@[k as int] == ',' && start == k + 1,
            !found ==> start == 0,
        decreases v@.len() - k + (if found {
            0int
        } else {
            1int
        }),
    {
        if v[k] == ',' {
            found = true;
            start = k + 1;
        } else {
            k = k + 1;
        }
    }
    proof {
        v@.index_of_first_ensures(',');
        if found {
            assert(v@.contains(','));
            let f = v@.index_of_first(',')->0;
            assert(f == k);
        } else {
            assert(!v@.contains(','));
            assert(v@.skip(0) =~= v@);
        }
    }
    let mut out: Vec<char> = Vec::new();
    let mut i: usize = start;
    let ghost rest = after_first_comma(s@);
    proof {
        assert(rest =~= v@.skip(start as int));
        assert(rest.take(0) =~= Seq::<char>::empty());
    }
    while i < v.len()
        invariant
            start <= i <= v@.len(),
            rest == v@.skip(start as int),
            out@ == without_white_space(rest.take(i - start)),
        decreases v@.len() - i,
    {
        proof {
            assert(rest.take(i + 1 - start).drop_last() =~= rest.take(i - start));
            assert(rest.take(i + 1 - start).last() == v@[i as int]);
        }
        let c = v[i];
        if !crate::text::is_whitespace(c) {
            out.push(c);
        }
        i = i + 1;
    }
    proof {
        assert(rest.take(v@.len() - start) =~= rest);
    }
    string_from_chars(out.as_slice())
}

/// The prefix of the message for text that is not base64.
pub open spec fn invalid_base64_prefix() -> Seq<char> {
    "content_base64 不是有效 base64: "@
}

/// The bytes of an upload given as base64 (plain, or a data URL):
/// refused when the payload is empty, does not decode, or decodes to no
/// bytes.
pub fn decode_base64_content(content_base64: &str) -> (r: Result<Vec<u8>, String>)
    ensures
        match r {
            Ok(data) => {
                &&& base64_payload(content_base64@).len() > 0
                &&& base64_decoded(base64_payload(content_base64@)) == Some(data@)
                &&& data@.len() > 0
            },
            Err(m) => {
                ||| (base64_payload(content_base64@).len() == 0 && m@ == "content_base64 不能为空"@)
                ||| (base64_payload(content_base64@).len() > 0 && base64_decoded(
                    base64_payload(content_base64@),
                ) is None && starts_with_spec(m@, invalid_base64_prefix()))
                ||| (base64_payload(content_base64@).len() > 0 && base64_decoded(
                    base64_payload(content_base64@),
                ) == Some(Seq::<u8>::empty()) && m@ == "文件内容不能为空"@)
            },
        },
{
    let payload = payload_of(content_base64);
    if payload.as_str().is_empty() {
        return Err(String::from_str("content_base64 不能为空"));
    }
    match base64_decode(payload.as_str()) {
        Ok(data) => {
            if data.len() == 0 {
                proof {
                    assert(data@ =~= Seq::<u8>::empty());
                }
                Err(String::from_str("文件内容不能为空"))
            } else {
                Ok(data)
            }
        },
        Err(e) => {
            let detail = decode_error_text(&e);
            let m = String::from_str("content_base64 不是有效 base64: ").concat(detail.as_str());
            proof {
                assert(m@.take(invalid_base64_prefix().len() as int) =~= invalid_base64_prefix());
            }
            Err(m)
        },
    }
}

/// The content type of an upload: the given one trimmed, or `default`
/// when absent or blank.
pub open spec fn content_type_spec(given: Option<Seq<char>>, default: Seq<char>) -> Seq<char> {
    match given {
        Some(g) => if trim_spec(g).len() > 0 {
            trim_spec(g)
        } else {
            default
        },
        None => default,
    }
}

/// The content type to store an upload with.
pub fn upload_content_type(given: Option<&str>, default: &str) -> (r: String)
    ensures
        r@ == content_type_spec(
            match given {
                Some(g) => Some(g@),
                None => None,
            },
            default@,
        ),
{
    match given {
        Some(g) => {
            let t = trim_str(g);
            if t.as_str().is_empty() {
                default.to_owned()
            } else {
                t
            }
        },
        None => default.to_owned(),
    }
}

/// The content type of an image upload (`image/png` by default); refused
/// with `content_type 必须是 image/*` unless it starts with `image/`.
pub fn image_content_type(given: Option<&str>) -> (r: Result<String, String>)
    ensures
        ({
            let ct = content_type_spec(
                match given {
                    Some(g) => Some(g@),
                    None => None,
                },
                "image/png"@,
            );
            match r {
                Ok(t) => t@ == ct && starts_with_spec(ct, "image/"@),
                Err(m) => !starts_with_spec(ct, "image/"@) && m@ == "content_type 必须是 image/*"@,
            }
        }),
{
    let ct = upload_content_type(given, "image/png");
    let cv = chars_of(ct.as_str());
    let pv = chars_of("image/");
    if starts_with(cv.as_slice(), pv.as_slice()) {
        Ok(ct)
    } else {
        Err(String::from_str("content_type 必须是 image/*"))
    }
}

/// The text before the first `/` of `s` (all of `s` when there is none).
pub open spec fn before_first_slash(s: Seq<char>) -> Seq<char> {
    match s.index_of_first('/') {
        Some(i) => s.take(i),
        None => s,
    }
}

/// The text after the last `/` of `s` (all of `s` when there is none).
pub open spec fn after_last_slash(s: Seq<char>) -> Seq<char> {
    match s.index_of_last('/') {
        Some(i) => s.skip(i + 1),
        None => s,
    }
}

/// The kind of a stored file: its content type's part before the first
/// `/`.
pub fn file_type_of(content_type: &str) -> (r: String)
    ensures
        r@ == before_first_slash(content_type@),
{
    let v = chars_of(content_type);
    let mut k: usize = 0;
    while k < v.len()
        invariant
            k <= v@.len(),
            v@ == content_type@,
            forall|j: int| 0 <= j < k ==> v@[j] != '/',
        decreases v@.len() - k,
    {
        if v[k] == '/' {
            proof {
                assert(v@.contains('/'));
                v@.index_of_first_ensures('/');
                let f = v@.index_of_first('/')->0;
                assert(f == k);
                assert(v@.index_of_first('/') == Some(k as int));
                assert(v@.subrange(0, k as int) =~= v@.take(f));
                assert(before_first_slash(content_type@) == v@.take(k as int));
            }
            let head = &v.as_slice()[0..k];
            proof {
                assert(head@ =~= v@.subrange(0, k as int));
            }
            return string_from_chars(head);
        }
        k = k + 1;
    }
    proof {
        v@.index_of_first_ensures('/');
        assert(!v@.contains('/'));
        assert(v@.subrange(0, v@.len() as int) =~= v@);
    }
    string_from_chars(&v.as_slice()[0..v.len()])
}

/// The stored name of an object: its key's part after the last `/`.
pub fn stored_filename(object_key: &str) -> (r: String)
    ensures
        r@ == after_last_slash(object_key@),
{
    let v = chars_of(object_key);
    let n = v.len();
    let mut k: usize = n;
    while k > 0
        invariant
            k <= n == v@.len(),
            v@ == object_key@,
            forall|j: int| k <= j < n ==> v@[j] != '/',
        decreases k,
    {
        if v[k - 1] == '/' {
            proof {
                assert(v@.contains('/'));
                v@.index_of_last_ensures('/');
                let f = v@.index_of_last('/')->0;
                assert(f == k - 1);
                assert(v@.index_of_last('/') == Some(k - 1));
                assert(v@.subrange(k as int, n as int) =~= v@.skip(f + 1));
                assert(after_last_slash(object_key@) == v@.skip(k as int));
            }
            let tail = &v.as_slice()[k..n];
            proof {
                assert(tail@ =~= v@.subrange(k as int, n as int));
            }
            return string_from_chars(tail);
        }
        k = k - 1;
    }
    proof {
        v@.index_of_last_ensures('/');
        assert(!v@.contains('/'));
        assert(v@.subrange(0, n as int) =~= v@);
    }
    string_from_chars(&v.as_slice()[0..n])
}

/// The Markdown that shows an uploaded image: `![name](url)`.
pub fn image_markdown(filename: &str, url: &str) -> (r: String)
    ensures
        r@ == "!["@ + filename@ + "]("@ + url@ + ")"@,
{
    String::from_str("![").concat(filename).concat("](").concat(url).concat(")")
}

// ---------------------------------------------------------------------
// Listing and lookup rules of the tools
// ---------------------------------------------------------------------

/// `"<kind> <id> 不存在"`, the answer for a missing record.
pub open spec fn missing_message(kind: Seq<char>, id: i64) -> Seq<char> {
    kind + " "@ + crate::text::decimal(id as int) + " 不存在"@
}

/// The answer for a missing record of `kind` (such as `博客`, `分类`,
/// `标签`, `目录`).
pub fn missing_record(kind: &str, id: i64) -> (r: String)
    ensures
        r@ == missing_message(kind@, id),
{
    let d = string_from_chars(crate::text::i64_decimal(id).as_slice());
    kind.to_owned().concat(" ").concat(d.as_str()).concat(" 不存在")
}

/// The prompt given to an AI tool, when it is not blank.
pub fn mcp_custom_prompt(custom: Option<String>) -> (r: Option<String>)
    ensures
        match custom {
            Some(p) => if trim_spec(p@).len() > 0 {
                r == Some(p)
            } else {
                r is None
            },
            None => r is None,
        },
{
    match custom {
        Some(p) => {
            let t = trim_str(p.as_str());
            if t.as_str().is_empty() {
                None
            } else {
                Some(p)
            }
        },
        None => None,
    }
}

/// The site-wide blog summary as stored, and whether one is configured
/// (it is not blank).
pub fn global_summary(stored: Option<String>) -> (r: (String, bool))
    ensures
        r.0@ == match stored {
            Some(v) => v@,
            None => Seq::<char>::empty(),
        },
        r.1 == (trim_spec(r.0@).len() > 0),
{
    let v = match stored {
        Some(v) => v,
        None => String::new(),
    };
    let configured = !trim_str(v.as_str()).as_str().is_empty();
    (v, configured)
}

/// The summary to store from a request (trimmed), and whether one is then
/// configured.
pub fn new_global_summary(summary: &str) -> (r: (String, bool))
    ensures
        r.0@ == trim_spec(summary@),
        r.1 == (trim_spec(summary@).len() > 0),
{
    let t = trim_str(summary);
    let configured = !t.as_str().is_empty();
    (t, configured)
}

/// Which friend links a listing asks for.
pub enum FriendLinkQuery {
    /// The approved ones (status 1), read with their own query.
    Approved,
    /// All links whose status is the given one.
    WithStatus(i16),
    /// All links.
    All,
}

/// The friend link query for a status filter.
pub fn friend_link_query(status: Option<i16>) -> (r: FriendLinkQuery)
    ensures
        match status {
            Some(s) => if s == 1 {
                r is Approved
            } else {
                r matches FriendLinkQuery::WithStatus(t) && t == s
            },
            None => r is All,
        },
{
    match status {
        Some(s) => if s == 1 {
            FriendLinkQuery::Approved
        } else {
            FriendLinkQuery::WithStatus(s)
        },
        None => FriendLinkQuery::All,
    }
}

/// Which documents a listing asks for.
pub enum DocumentQuery {
    /// Documents matching a (trimmed) keyword, at most `limit` of them.
    Search(String, i64),
    /// The documents of a directory, which must exist.
    InDirectory(i64),
    /// All documents.
    All,
}

/// The document query of the `list_documents` tool: a keyword wins over a
/// directory and must not be blank.
pub fn document_query(args: &ListDocumentsArgs) -> (r: Result<DocumentQuery, String>)
    ensures
        match args.keyword {
            Some(k) => if trim_spec(k@).len() > 0 {
                r matches Ok(DocumentQuery::Search(t, l)) && t@ == trim_spec(k@) && l
                    == page_size_spec(args.limit, 20)
            } else {
                r matches Err(m) && m@ == empty_field_message("keyword"@)
            },
            None => match args.directory_id {
                Some(d) => r matches Ok(DocumentQuery::InDirectory(e)) && e == d,
                None => r matches Ok(DocumentQuery::All),
            },
        },
{
    match &args.keyword {
        Some(k) => {
            let t = trim_str(k.as_str());
            if t.as_str().is_empty() {
                Err(String::from_str("keyword").concat(" 不能为空"))
            } else {
                Ok(DocumentQuery::Search(t, args.limit()))
            }
        },
        None => match args.directory_id {
            Some(d) => Ok(DocumentQuery::InDirectory(d)),
            None => Ok(DocumentQuery::All),
        },
    }
}

/// The next step in showing a text: encrypted texts need a password, which
/// is then checked.
pub enum TextAccess {
    /// Show the text.
    Show,
    /// Ask for the password.
    PasswordRequired,
    /// Check this password before showing the text.
    CheckPassword(String),
}

/// What to do with a request for a text.
pub fn text_access(is_encrypted: Option<bool>, password: Option<String>) -> (r: TextAccess)
    ensures
        match is_encrypted {
            Some(true) => match password {
                Some(p) => r matches TextAccess::CheckPassword(q) && q == p,
                None => r is PasswordRequired,
            },
            _ => r is Show,
        },
{
    let encrypted = match is_encrypted {
        Some(b) => b,
        None => false,
    };
    if !encrypted {
        return TextAccess::Show;
    }
    match password {
        Some(p) => TextAccess::CheckPassword(p),
        None => TextAccess::PasswordRequired,
    }
}

/// Whether a text is listed for a keyword: the lower-cased keyword occurs
/// in the lower-cased name or intro; every text is listed without one.
pub open spec fn text_listed(name: Seq<char>, intro: Option<Seq<char>>, keyword: Option<Seq<char>>) -> bool {
    match keyword {
        Some(k) => {
            let kl = crate::text::unicode_lowercase(k);
            crate::text::contains_spec(crate::text::unicode_lowercase(name), kl)
                || crate::text::contains_spec(
                crate::text::unicode_lowercase(
                    match intro {
                        Some(i) => i,
                        None => Seq::<char>::empty(),
                    },
                ),
                kl,
            )
        },
        None => true,
    }
}

/// Whether a text is listed by `list_texts` for `keyword`.
pub fn text_matches(name: &str, intro: Option<&str>, keyword: Option<&str>) -> (b: bool)
    ensures
        b == text_listed(
            name@,
            match intro {
                Some(i) => Some(i@),
                None => None,
            },
            match keyword {
                Some(k) => Some(k@),
                None => None,
            },
        ),
{
    match keyword {
        Some(k) => {
            let kl = crate::text::lowercase_chars(chars_of(k).as_slice());
            let nl = crate::text::lowercase_chars(chars_of(name).as_slice());
            if crate::text::contains_chars(nl.as_slice(), kl.as_slice()) {
                return true;
            }
            let iv: Vec<char> = match intro {
                Some(i) => chars_of(i),
                None => Vec::new(),
            };
            let il = crate::text::lowercase_chars(iv.as_slice());
            proof {
                assert(iv@ == match intro {
                    Some(i) => i@,
                    None => Seq::<char>::empty(),
                });
            }
            crate::text::contains_chars(il.as_slice(), kl.as_slice())
        },
        None => true,
    }
}

} // verus!
