use vstd::prelude::*;

verus! {

/// One immediate child of a served directory.
#[derive(Debug, Clone)]
pub struct DirEntry {
    /// The child's file name.
    pub name: String,
    /// The child's path, the directory's path joined with its name.
    pub path: String,
}

/// What a request path turned out to be on disk.
#[derive(Debug, Clone)]
pub enum Resolved {
    /// Nothing exists at the path.
    Missing,
    /// A directory, with its immediate entries in the order the file system
    /// gave them.
    Directory(Vec<DirEntry>),
    /// A regular file, with its contents.
    File(String),
    /// A file system operation failed, with the error's description.
    Failed(String),
}

/// The status, content type and body that a request is answered with.
#[derive(Debug, Clone)]
pub struct Response {
    pub status: u16,
    /// Whether the body is sent as `text/html`; otherwise the default type.
    pub html: bool,
    pub body: String,
}

pub const STATUS_OK: u16 = 200;

pub const STATUS_NOT_FOUND: u16 = 404;

pub const STATUS_INTERNAL_ERROR: u16 = 500;

/// Whether a `..` segment starts at index `i` of a `/`-separated path.
pub open spec fn parent_segment_at(p: Seq<char>, i: int) -> bool {
    &&& 0 <= i
    &&& i + 2 <= p.len()
    &&& p[i] == '.'
    &&& p[i + 1] == '.'
    &&& (i == 0 || p[i - 1] == '/')
    &&& (i + 2 == p.len() || p[i + 2] == '/')
}

/// Whether a request path could leave the served root: it is absolute or
/// has a `..` segment.
pub open spec fn escapes_root(p: Seq<char>) -> bool {
    (p.len() > 0 && p[0] == '/') || exists|i: int| parent_segment_at(p, i)
}

/// `p` joined onto `root` with one `/` between them.
pub open spec fn join_spec(root: Seq<char>, p: Seq<char>) -> Seq<char> {
    if root.len() == 0 {
        p
    } else if root.last() == '/' {
        root + p
    } else {
        root + seq!['/'] + p
    }
}

fn parent_segment_at_exec(p: &str, n: usize, i: usize) -> (r: bool)
    requires
        n == p@.len(),
    ensures
        r == parent_segment_at(p@, i as int),
{
    if i >= n || n - i < 2 {
        return false;
    }
    if p.get_char(i) != '.' || p.get_char(i + 1) != '.' {
        return false;
    }
    let before = i == 0 || p.get_char(i - 1) == '/';
    let after = i + 2 == n || p.get_char(i + 2) == '/';
    before && after
}

/// The file system path that a request path names under `root`, or `None`
/// where the request path is absolute or has a `..` segment, so that no
/// request reaches outside the root.
pub fn resolve_path(root: &str, request: &str) -> (r: Option<String>)
    ensures
        r is None <==> escapes_root(request@),
        r matches Some(s) ==> s@ == join_spec(root@, request@),
{
    let n = request.unicode_len();
    if n > 0 && request.get_char(0) == '/' {
        return None;
    }
    let mut i: usize = 0;
    while i < n
        invariant
            n == request@.len(),
            i <= n,
            forall|k: int| 0 <= k < i ==> !parent_segment_at(request@, k),
        decreases n - i,
    {
        if parent_segment_at_exec(request, n, i) {
            return None;
        }
        i = i + 1;
    }
    assert(!escapes_root(request@)) by {
        assert forall|k: int| !parent_segment_at(request@, k) by {
            if 0 <= k < n {
            }
        }
    }
    let m = root.unicode_len();
    let mut s = String::from_str(root);
    if m > 0 && root.get_char(m - 1) != '/' {
        s.append("/");
    }
    s.append(request);
    proof {
        reveal_strlit("/");
        assert(s@ =~= join_spec(root@, request@));
    }
    Some(s)
}

/// `File <path> not found`.
pub open spec fn not_found_body(path: Seq<char>) -> Seq<char> {
    "File "@ + path + " not found"@
}

/// One list item of a directory listing: a link to the entry's path, named
/// by the entry's name.
pub open spec fn list_item(e: DirEntry) -> Seq<char> {
    "<li><a href=\"/"@ + e.path@ + "\">"@ + e.name@ + "</a></li>"@
}

/// The list items of all entries, in order.
pub open spec fn list_items(es: Seq<DirEntry>) -> Seq<char>
    decreases es.len(),
{
    if es.len() == 0 {
        Seq::empty()
    } else {
        list_items(es.drop_last()) + list_item(es.last())
    }
}

/// The HTML page that lists a directory's entries.
pub open spec fn listing_body(es: Seq<DirEntry>) -> Seq<char> {
    "<html><body><ul>"@ + list_items(es) + "</ul></body></html>"@
}

/// The list item of each entry, one per entry, in order.
pub open spec fn entry_items(es: Seq<DirEntry>) -> Seq<Seq<char>> {
    es.map_values(|e: DirEntry| list_item(e))
}

proof fn lemma_list_items_flatten(es: Seq<DirEntry>)
    ensures
        list_items(es) == entry_items(es).flatten_alt(),
    decreases es.len(),
{
    if es.len() > 0 {
        lemma_list_items_flatten(es.drop_last());
        assert(entry_items(es.drop_last()) =~= entry_items(es).drop_last());
    }
}

/// A directory listing holds exactly one list item per immediate entry, in
/// the order given, each linking to the entry's path and showing its name,
/// between the opening and closing tags, and nothing else.
pub proof fn lemma_listing_one_item_per_entry(es: Seq<DirEntry>)
    ensures
        entry_items(es).len() == es.len(),
        forall|k: int| 0 <= k < es.len() ==> #[trigger] entry_items(es)[k] == list_item(es[k]),
        listing_body(es) == "<html><body><ul>"@ + entry_items(es).flatten() + "</ul></body></html>"@,
{
    lemma_list_items_flatten(es);
    entry_items(es).lemma_flatten_and_flatten_alt_are_equivalent();
}

/// Renders the HTML listing of a directory's entries.
pub fn render_listing(entries: &Vec<DirEntry>) -> (r: String)
    ensures
        r@ == listing_body(entries@),
{
    let mut body = String::from_str("<html><body><ul>");
    let mut i: usize = 0;
    while i < entries.len()
        invariant
            i <= entries@.len(),
            body@ == "<html><body><ul>"@ + list_items(entries@.take(i as int)),
        decreases entries@.len() - i,
    {
        let e = &entries[i];
        body.append("<li><a href=\"/");
        body.append(e.path.as_str());
        body.append("\">");
        body.append(e.name.as_str());
        body.append("</a></li>");
        proof {
            let t = entries@.take(i + 1);
            assert(t.drop_last() =~= entries@.take(i as int));
            assert(t.last() == *e);
            assert(body@ =~= "<html><body><ul>"@ + list_items(t));
        }
        i = i + 1;
    }
    assert(entries@.take(i as int) =~= entries@);
    body.append("</ul></body></html>");
    proof {
        assert(body@ =~= listing_body(entries@));
    }
    body
}

/// The response to a request for `path`, given what the path is on disk:
/// 404 naming the path when it is missing, 200 with an HTML listing for a
/// directory, 200 with the contents for a file, and 500 with the error's
/// description when the file system failed.
pub fn respond(path: &str, resolved: Resolved) -> (r: Response)
    ensures
        resolved is Missing ==> r.status == STATUS_NOT_FOUND && !r.html && r.body@ == not_found_body(
            path@,
        ),
        resolved matches Resolved::Directory(es) ==> r.status == STATUS_OK && r.html && r.body@
            == listing_body(es@),
        resolved matches Resolved::File(c) ==> r.status == STATUS_OK && !r.html && r.body@ == c@,
        resolved matches Resolved::Failed(m) ==> r.status == STATUS_INTERNAL_ERROR && !r.html
            && r.body@ == m@,
{
    match resolved {
        Resolved::Missing => {
            let mut body = String::from_str("File ");
            body.append(path);
            body.append(" not found");
            Response { status: STATUS_NOT_FOUND, html: false, body }
        },
        Resolved::Directory(es) => {
            Response { status: STATUS_OK, html: true, body: render_listing(&es) }
        },
        Resolved::File(c) => Response { status: STATUS_OK, html: false, body: c },
        Resolved::Failed(m) => Response { status: STATUS_INTERNAL_ERROR, html: false, body: m },
    }
}

} // verus!
