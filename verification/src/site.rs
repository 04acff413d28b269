//! Static sites: deployed file sets served by route, with MIME types
//! resolved from file extensions and an `index.html` convention.
//! Persistence is the embedding program's concern.

use vstd::prelude::*;
use crate::clock::now_millis;
use crate::ident::fresh_id;
use crate::strutil::{is_prefix_of, seq_eq_ignore_ascii_case, str_eq, str_eq_ignore_ascii_case,
    str_starts_with};

verus! {

/// Error reported when a route is already bound to a site.
pub const SITE_ROUTE_IN_USE_ERROR: &'static str = "Route is already in use";

/// Error reported when no site has the given id.
pub const SITE_NOT_FOUND_ERROR: &'static str = "Site not found";

/// One file of a deployed site.
#[derive(Debug)]
pub struct SiteFile {
    pub path: String,
    pub content: String,
    pub mime_type: String,
}

/// Abstract value of a [`SiteFile`].
pub struct SiteFileView {
    pub path: Seq<char>,
    pub content: Seq<char>,
    pub mime_type: Seq<char>,
}

impl View for SiteFile {
    type V = SiteFileView;

    open spec fn view(&self) -> SiteFileView {
        SiteFileView { path: self.path@, content: self.content@, mime_type: self.mime_type@ }
    }
}

impl DeepView for SiteFile {
    type V = SiteFileView;

    open spec fn deep_view(&self) -> SiteFileView {
        self.view()
    }
}

impl Clone for SiteFile {
    /// A clone has the same abstract value.
    fn clone(&self) -> (res: Self)
        ensures
            res@ == self@,
    {
        SiteFile {
            path: self.path.clone(),
            content: self.content.clone(),
            mime_type: self.mime_type.clone(),
        }
    }
}

/// A deployed static site.
#[derive(Debug)]
pub struct Site {
    pub id: String,
    pub name: String,
    pub route: String,
    pub files: Vec<SiteFile>,
    pub project_type: String,
    /// Unix milliseconds.
    pub created_at: i64,
    /// Unix milliseconds.
    pub updated_at: i64,
    pub visits: u64,
}

/// Abstract value of a [`Site`].
pub struct SiteView {
    pub id: Seq<char>,
    pub name: Seq<char>,
    pub route: Seq<char>,
    pub files: Seq<SiteFileView>,
    pub project_type: Seq<char>,
    pub created_at: i64,
    pub updated_at: i64,
    pub visits: u64,
}

impl View for Site {
    type V = SiteView;

    open spec fn view(&self) -> SiteView {
        SiteView {
            id: self.id@,
            name: self.name@,
            route: self.route@,
            files: self.files.deep_view(),
            project_type: self.project_type@,
            created_at: self.created_at,
            updated_at: self.updated_at,
            visits: self.visits,
        }
    }
}

impl DeepView for Site {
    type V = SiteView;

    open spec fn deep_view(&self) -> SiteView {
        self.view()
    }
}

impl Clone for Site {
    /// A clone has the same abstract value.
    fn clone(&self) -> (res: Self)
        ensures
            res@ == self@,
    {
        let mut files: Vec<SiteFile> = Vec::new();
        let mut i: usize = 0;
        while i < self.files.len()
            invariant
                i <= self.files@.len(),
                files.deep_view() =~= self.files.deep_view().take(i as int),
            decreases self.files@.len() - i,
        {
            let ghost pre = files.deep_view();
            let f = self.files[i].clone();
            files.push(f);
            proof {
                assert(files.deep_view() =~= pre.push(self.files.deep_view()[i as int]));
                assert(files.deep_view() =~= self.files.deep_view().take(i as int + 1));
            }
            i += 1;
        }
        proof {
            assert(self.files.deep_view().take(self.files.deep_view().len() as int)
                =~= self.files.deep_view());
        }
        Site {
            id: self.id.clone(),
            name: self.name.clone(),
            route: self.route.clone(),
            files,
            project_type: self.project_type.clone(),
            created_at: self.created_at,
            updated_at: self.updated_at,
            visits: self.visits,
        }
    }
}

/// One file of a site deploy request.
#[derive(Debug)]
pub struct SiteFileRequest {
    pub path: String,
    pub content: String,
}

/// Abstract value of a [`SiteFileRequest`].
pub struct SiteFileRequestView {
    pub path: Seq<char>,
    pub content: Seq<char>,
}

impl View for SiteFileRequest {
    type V = SiteFileRequestView;

    open spec fn view(&self) -> SiteFileRequestView {
        SiteFileRequestView { path: self.path@, content: self.content@ }
    }
}

impl DeepView for SiteFileRequest {
    type V = SiteFileRequestView;

    open spec fn deep_view(&self) -> SiteFileRequestView {
        self.view()
    }
}

/// A request to deploy a site; name and route default when absent.
#[derive(Debug)]
pub struct CreateSiteRequest {
    pub name: Option<String>,
    pub route: Option<String>,
    pub files: Vec<SiteFileRequest>,
    pub project_type: String,
}

/// The project type a deploy request carries when it names none.
pub fn default_project_type() -> (r: String)
    ensures
        r@ == "html"@,
{
    "html".to_owned()
}

/// Index of the last `.` in `s`, or `-1`.
pub open spec fn last_dot(s: Seq<char>) -> int
    decreases s.len(),
{
    if s.len() == 0 {
        -1
    } else if s.last() == '.' {
        s.len() - 1
    } else {
        last_dot(s.drop_last())
    }
}

/// The extension of a path: what follows the last `.`, or the whole
/// path when it has none.
pub open spec fn ext_of(path: Seq<char>) -> Seq<char> {
    if last_dot(path) < 0 {
        path
    } else {
        path.skip(last_dot(path) + 1)
    }
}

/// The MIME type served for an extension, compared without regard to
/// ASCII case; unknown extensions are served as raw bytes.
pub open spec fn mime_of(ext: Seq<char>) -> Seq<char> {
    if seq_eq_ignore_ascii_case(ext, "html"@) || seq_eq_ignore_ascii_case(ext, "htm"@) {
        "text/html; charset=utf-8"@
    } else if seq_eq_ignore_ascii_case(ext, "css"@) {
        "text/css; charset=utf-8"@
    } else if seq_eq_ignore_ascii_case(ext, "js"@) || seq_eq_ignore_ascii_case(ext, "mjs"@) {
        "application/javascript; charset=utf-8"@
    } else if seq_eq_ignore_ascii_case(ext, "json"@) {
        "application/json; charset=utf-8"@
    } else if seq_eq_ignore_ascii_case(ext, "svg"@) {
        "image/svg+xml"@
    } else if seq_eq_ignore_ascii_case(ext, "png"@) {
        "image/png"@
    } else if seq_eq_ignore_ascii_case(ext, "jpg"@) || seq_eq_ignore_ascii_case(ext, "jpeg"@) {
        "image/jpeg"@
    } else if seq_eq_ignore_ascii_case(ext, "gif"@) {
        "image/gif"@
    } else if seq_eq_ignore_ascii_case(ext, "webp"@) {
        "image/webp"@
    } else if seq_eq_ignore_ascii_case(ext, "ico"@) {
        "image/x-icon"@
    } else if seq_eq_ignore_ascii_case(ext, "woff"@) {
        "font/woff"@
    } else if seq_eq_ignore_ascii_case(ext, "woff2"@) {
        "font/woff2"@
    } else if seq_eq_ignore_ascii_case(ext, "ttf"@) {
        "font/ttf"@
    } else if seq_eq_ignore_ascii_case(ext, "txt"@) {
        "text/plain; charset=utf-8"@
    } else if seq_eq_ignore_ascii_case(ext, "xml"@) {
        "application/xml"@
    } else {
        "application/octet-stream"@
    }
}

proof fn lemma_last_dot(s: Seq<char>)
    ensures
        ({
            let d = last_dot(s);
            &&& d >= 0 ==> d < s.len() && s[d] == '.' && (forall|j: int|
                d < j < s.len() ==> s[j] != '.')
            &&& d < 0 ==> (forall|j: int| 0 <= j < s.len() ==> s[j] != '.')
        }),
    decreases s.len(),
{
    if s.len() > 0 && s.last() != '.' {
        lemma_last_dot(s.drop_last());
        assert(forall|j: int| 0 <= j < s.len() - 1 ==> #[trigger] s[j] == s.drop_last()[j]);
    }
}

/// The extension of `path`: the characters after its last `.`, or the
/// whole path when it has none.
fn extension_of(path: &str) -> (r: String)
    ensures
        r@ == ext_of(path@),
{
    let n = path.unicode_len();
    let mut i: usize = n;
    while i > 0
        invariant
            i <= n,
            n == path@.len(),
            forall|j: int| i <= j < n ==> path@[j] != '.',
        decreases i,
    {
        if path.get_char(i - 1) == '.' {
            proof {
                lemma_last_dot(path@);
            }
            let ext = path.substring_char(i, n);
            proof {
                assert(ext@ =~= path@.skip(i as int));
            }
            return ext.to_owned();
        }
        i -= 1;
    }
    proof {
        lemma_last_dot(path@);
    }
    path.to_owned()
}

/// The MIME type a file at `path` is served with.
pub fn get_mime_type(path: &str) -> (r: String)
    ensures
        r@ == mime_of(ext_of(path@)),
{
    let e = extension_of(path);
    let ext = e.as_str();
    if str_eq_ignore_ascii_case(ext, "html") || str_eq_ignore_ascii_case(ext, "htm") {
        "text/html; charset=utf-8".to_owned()
    } else if str_eq_ignore_ascii_case(ext, "css") {
        "text/css; charset=utf-8".to_owned()
    } else if str_eq_ignore_ascii_case(ext, "js") || str_eq_ignore_ascii_case(ext, "mjs") {
        "application/javascript; charset=utf-8".to_owned()
    } else if str_eq_ignore_ascii_case(ext, "json") {
        "application/json; charset=utf-8".to_owned()
    } else if str_eq_ignore_ascii_case(ext, "svg") {
        "image/svg+xml".to_owned()
    } else if str_eq_ignore_ascii_case(ext, "png") {
        "image/png".to_owned()
    } else if str_eq_ignore_ascii_case(ext, "jpg") || str_eq_ignore_ascii_case(ext, "jpeg") {
        "image/jpeg".to_owned()
    } else if str_eq_ignore_ascii_case(ext, "gif") {
        "image/gif".to_owned()
    } else if str_eq_ignore_ascii_case(ext, "webp") {
        "image/webp".to_owned()
    } else if str_eq_ignore_ascii_case(ext, "ico") {
        "image/x-icon".to_owned()
    } else if str_eq_ignore_ascii_case(ext, "woff") {
        "font/woff".to_owned()
    } else if str_eq_ignore_ascii_case(ext, "woff2") {
        "font/woff2".to_owned()
    } else if str_eq_ignore_ascii_case(ext, "ttf") {
        "font/ttf".to_owned()
    } else if str_eq_ignore_ascii_case(ext, "txt") {
        "text/plain; charset=utf-8".to_owned()
    } else if str_eq_ignore_ascii_case(ext, "xml") {
        "application/xml".to_owned()
    } else {
        "application/octet-stream".to_owned()
    }
}

/// The site files of a deploy request, each with its resolved MIME
/// type.
pub open spec fn files_with_mime(reqs: Seq<SiteFileRequestView>) -> Seq<SiteFileView> {
    Seq::new(
        reqs.len(),
        |i: int| SiteFileView {
            path: reqs[i].path,
            content: reqs[i].content,
            mime_type: mime_of(ext_of(reqs[i].path)),
        },
    )
}

/// Index of the first site with id `id`, or `-1`.
pub open spec fn index_of_site_id(s: Seq<SiteView>, id: Seq<char>) -> int
    decreases s.len(),
{
    if s.len() == 0 {
        -1
    } else if s[0].id == id {
        0
    } else {
        let r = index_of_site_id(s.skip(1), id);
        if r < 0 {
            -1
        } else {
            r + 1
        }
    }
}

/// Index of the first site whose route equals `route`, or `-1`.
pub open spec fn index_of_site_route(s: Seq<SiteView>, route: Seq<char>) -> int
    decreases s.len(),
{
    if s.len() == 0 {
        -1
    } else if s[0].route == route {
        0
    } else {
        let r = index_of_site_route(s.skip(1), route);
        if r < 0 {
            -1
        } else {
            r + 1
        }
    }
}

/// Index of the first site whose route is a prefix of `route`, or
/// `-1`.
pub open spec fn index_of_site_prefix(s: Seq<SiteView>, route: Seq<char>) -> int
    decreases s.len(),
{
    if s.len() == 0 {
        -1
    } else if is_prefix_of(s[0].route, route) {
        0
    } else {
        let r = index_of_site_prefix(s.skip(1), route);
        if r < 0 {
            -1
        } else {
            r + 1
        }
    }
}

/// Some site already answers `route`.
pub open spec fn site_route_taken(s: Seq<SiteView>, route: Seq<char>) -> bool {
    index_of_site_route(s, route) >= 0
}

proof fn lemma_index_of_site_id(s: Seq<SiteView>, id: Seq<char>)
    ensures
        ({
            let r = index_of_site_id(s, id);
            &&& r >= 0 ==> r < s.len() && s[r].id == id && (forall|j: int|
                0 <= j < r ==> s[j].id != id)
            &&& r < 0 ==> (forall|j: int| 0 <= j < s.len() ==> s[j].id != id)
        }),
    decreases s.len(),
{
    if s.len() > 0 {
        lemma_index_of_site_id(s.skip(1), id);
        assert(forall|j: int| 1 <= j < s.len() ==> #[trigger] s[j] == s.skip(1)[j - 1]);
    }
}

proof fn lemma_index_of_site_route(s: Seq<SiteView>, route: Seq<char>)
    ensures
        ({
            let r = index_of_site_route(s, route);
            &&& r >= 0 ==> r < s.len() && s[r].route == route && (forall|j: int|
                0 <= j < r ==> s[j].route != route)
            &&& r < 0 ==> (forall|j: int| 0 <= j < s.len() ==> s[j].route != route)
        }),
    decreases s.len(),
{
    if s.len() > 0 {
        lemma_index_of_site_route(s.skip(1), route);
        assert(forall|j: int| 1 <= j < s.len() ==> #[trigger] s[j] == s.skip(1)[j - 1]);
    }
}

proof fn lemma_index_of_site_prefix(s: Seq<SiteView>, route: Seq<char>)
    ensures
        ({
            let r = index_of_site_prefix(s, route);
            &&& r >= 0 ==> r < s.len() && is_prefix_of(s[r].route, route) && (forall|j: int|
                0 <= j < r ==> !is_prefix_of(s[j].route, route))
            &&& r < 0 ==> (forall|j: int| 0 <= j < s.len() ==> !is_prefix_of(s[j].route, route))
        }),
    decreases s.len(),
{
    if s.len() > 0 {
        lemma_index_of_site_prefix(s.skip(1), route);
        assert(forall|j: int| 1 <= j < s.len() ==> #[trigger] s[j] == s.skip(1)[j - 1]);
    }
}


/// `s` with every leading `/` removed.
pub open spec fn strip_leading_slashes(s: Seq<char>) -> Seq<char>
    decreases s.len(),
{
    if s.len() > 0 && s[0] == '/' {
        strip_leading_slashes(s.skip(1))
    } else {
        s
    }
}

/// `s` with every trailing `/` removed.
pub open spec fn strip_trailing_slashes(s: Seq<char>) -> Seq<char>
    decreases s.len(),
{
    if s.len() > 0 && s.last() == '/' {
        strip_trailing_slashes(s.drop_last())
    } else {
        s
    }
}

/// Index of the first file at `path`, or `-1`.
pub open spec fn index_of_file(files: Seq<SiteFileView>, path: Seq<char>) -> int
    decreases files.len(),
{
    if files.len() == 0 {
        -1
    } else if files[0].path == path {
        0
    } else {
        let r = index_of_file(files.skip(1), path);
        if r < 0 {
            -1
        } else {
            r + 1
        }
    }
}

/// The `index.html` tried when `normalized` names a directory.
pub open spec fn index_fallback_path(normalized: Seq<char>) -> Seq<char> {
    if normalized.len() == 0 {
        "index.html"@
    } else {
        strip_trailing_slashes(normalized) + "/index.html"@
    }
}

/// The file served for `file_path`: the exact path (leading `/`
/// stripped) wins; then the directory's `index.html`; then the site
/// root's `index.html` (the single-page-application fallback).
pub open spec fn site_file_lookup(files: Seq<SiteFileView>, file_path: Seq<char>) -> Option<
    SiteFileView,
> {
    let n = strip_leading_slashes(file_path);
    if index_of_file(files, n) >= 0 {
        Some(files[index_of_file(files, n)])
    } else if index_of_file(files, index_fallback_path(n)) >= 0 {
        Some(files[index_of_file(files, index_fallback_path(n))])
    } else if index_of_file(files, "index.html"@) >= 0 {
        Some(files[index_of_file(files, "index.html"@)])
    } else {
        None
    }
}

proof fn lemma_index_of_file(files: Seq<SiteFileView>, path: Seq<char>)
    ensures
        ({
            let r = index_of_file(files, path);
            &&& r >= 0 ==> r < files.len() && files[r].path == path && (forall|j: int|
                0 <= j < r ==> files[j].path != path)
            &&& r < 0 ==> (forall|j: int| 0 <= j < files.len() ==> files[j].path != path)
        }),
    decreases files.len(),
{
    if files.len() > 0 {
        lemma_index_of_file(files.skip(1), path);
        assert(forall|j: int| 1 <= j < files.len() ==> #[trigger] files[j] == files.skip(1)[j
            - 1]);
    }
}

proof fn lemma_strip_leading(s: Seq<char>, k: int)
    requires
        0 <= k <= s.len(),
        forall|j: int| 0 <= j < k ==> s[j] == '/',
        k == s.len() || s[k] != '/',
    ensures
        strip_leading_slashes(s) == s.skip(k),
    decreases k,
{
    if k == 0 {
        assert(s.skip(0) =~= s);
    } else {
        lemma_strip_leading(s.skip(1), k - 1);
        assert(forall|j: int| 0 <= j < s.skip(1).len() ==> #[trigger] s.skip(1)[j] == s[j + 1]);
        assert(s.skip(1).skip(k - 1) =~= s.skip(k));
    }
}

proof fn lemma_strip_trailing(s: Seq<char>, m: int)
    requires
        0 <= m <= s.len(),
        forall|j: int| m <= j < s.len() ==> s[j] == '/',
        m == 0 || s[m - 1] != '/',
    ensures
        strip_trailing_slashes(s) == s.take(m),
    decreases s.len() - m,
{
    if m == s.len() {
        assert(s.take(m) =~= s);
    } else {
        assert(s.last() == '/');
        assert(forall|j: int| 0 <= j < s.len() - 1 ==> #[trigger] s.drop_last()[j] == s[j]);
        lemma_strip_trailing(s.drop_last(), m);
        assert(s.drop_last().take(m) =~= s.take(m));
    }
}

/// Index of the first file of `files` at `path`, if any.
fn find_file(files: &Vec<SiteFile>, path: &str) -> (r: Option<usize>)
    ensures
        match r {
            Some(i) => i == index_of_file(files.deep_view(), path@) && i < files@.len(),
            None => index_of_file(files.deep_view(), path@) < 0,
        },
{
    let mut i: usize = 0;
    while i < files.len()
        invariant
            i <= files@.len(),
            forall|j: int| 0 <= j < i ==> files.deep_view()[j].path != path@,
        decreases files@.len() - i,
    {
        if str_eq(files[i].path.as_str(), path) {
            proof {
                assert(files.deep_view()[i as int] == files@[i as int]@);
                assert(files.deep_view()[i as int].path == path@);
                lemma_index_of_file(files.deep_view(), path@);
            }
            return Some(i);
        }
        i += 1;
    }
    proof {
        lemma_index_of_file(files.deep_view(), path@);
    }
    None
}

/// Deployed sites, in deployment order; routes are unique.
#[derive(Debug)]
pub struct SiteStore {
    sites: Vec<Site>,
}

impl View for SiteStore {
    type V = Seq<SiteView>;

    closed spec fn view(&self) -> Seq<SiteView> {
        self.sites.deep_view()
    }
}

impl SiteStore {
    #[verifier::type_invariant]
    spec fn wf(self) -> bool {
        forall|i: int, j: int| 0 <= i < j < self.sites.deep_view().len()
            ==> self.sites.deep_view()[i].route != self.sites.deep_view()[j].route
    }

    /// An empty store.
    pub fn new() -> (r: Self)
        ensures
            r@ == Seq::<SiteView>::empty(),
    {
        let r = SiteStore { sites: Vec::new() };
        proof {
            assert(r.sites.deep_view() =~= Seq::<SiteView>::empty());
        }
        r
    }

    /// Index of the first site with id `id`, if any.
    fn find_by_id(&self, id: &str) -> (r: Option<usize>)
        ensures
            match r {
                Some(i) => i == index_of_site_id(self@, id@) && i < self@.len(),
                None => index_of_site_id(self@, id@) < 0,
            },
    {
        let mut i: usize = 0;
        while i < self.sites.len()
            invariant
                i <= self@.len(),
                self@.len() == self.sites@.len(),
                self@ == self.sites.deep_view(),
                forall|j: int| 0 <= j < i ==> self@[j].id != id@,
            decreases self@.len() - i,
        {
            if str_eq(self.sites[i].id.as_str(), id) {
                proof {
                    assert(self@[i as int] == self.sites@[i as int]@);
                    assert(self@[i as int].id == id@);
                    lemma_index_of_site_id(self@, id@);
                }
                return Some(i);
            }
            i += 1;
        }
        proof {
            lemma_index_of_site_id(self@, id@);
        }
        None
    }

    /// Whether some site already answers `route`.
    fn route_exists(&self, route: &str) -> (r: bool)
        ensures
            r == site_route_taken(self@, route@),
    {
        let mut i: usize = 0;
        while i < self.sites.len()
            invariant
                i <= self@.len(),
                self@.len() == self.sites@.len(),
                self@ == self.sites.deep_view(),
                forall|j: int| 0 <= j < i ==> self@[j].route != route@,
            decreases self@.len() - i,
        {
            if str_eq(self.sites[i].route.as_str(), route) {
                proof {
                    assert(self@[i as int] == self.sites@[i as int]@);
                    assert(self@[i as int].route == route@);
                    lemma_index_of_site_route(self@, route@);
                }
                return true;
            }
            i += 1;
        }
        proof {
            lemma_index_of_site_route(self@, route@);
        }
        false
    }

    /// Deploys a site: its route (given, or derived from the clock)
    /// must be free; every file gets the MIME type of its path. On
    /// success the site is appended with fresh timestamps and no
    /// visits.
    pub fn create(&mut self, req: CreateSiteRequest) -> (r: Result<Site, String>)
        ensures
            r matches Err(e) ==> final(self)@ == old(self)@ && e@ == SITE_ROUTE_IN_USE_ERROR@ && (
            req.route matches Some(rt) ==> site_route_taken(old(self)@, rt@)),
            (req.route matches Some(rt) && !site_route_taken(old(self)@, rt@)) ==> r is Ok,
            r matches Ok(site) ==> {
                &&& final(self)@ == old(self)@.push(site@)
                &&& !site_route_taken(old(self)@, site@.route)
                &&& site@.files == files_with_mime(req.files.deep_view())
                &&& (req.route matches Some(rt) ==> site@.route == rt@)
                &&& (req.route is None ==> site@.route.len() >= 1 && site@.route[0] == '/')
                &&& (req.name matches Some(n) ==> site@.name == n@)
                &&& site@.project_type == req.project_type@
                &&& site@.visits == 0
                &&& site@.created_at == site@.updated_at
                &&& site@.id.len() == 36
            },
    {
        proof {
            use_type_invariant(&*self);
        }
        let id = fresh_id();
        let now = now_millis();
        let route = match req.route {
            Some(rt) => rt,
            None => {
                let mut r = "/".to_owned();
                r.append(now.to_string().as_str());
                proof {
                    reveal_strlit("/");
                    assert(r@[0] == '/');
                    assert(r@.len() >= 1);
                }
                r
            },
        };
        let name = match req.name {
            Some(n) => n,
            None => {
                let mut n = "site-".to_owned();
                n.append(now.to_string().as_str());
                n
            },
        };
        if self.route_exists(route.as_str()) {
            return Err(SITE_ROUTE_IN_USE_ERROR.to_owned());
        }
        let mut files: Vec<SiteFile> = Vec::new();
        let mut i: usize = 0;
        while i < req.files.len()
            invariant
                i <= req.files@.len(),
                files.deep_view() =~= files_with_mime(req.files.deep_view()).take(i as int),
            decreases req.files@.len() - i,
        {
            let ghost pre = files.deep_view();
            let mime_type = get_mime_type(req.files[i].path.as_str());
            let f = SiteFile {
                path: req.files[i].path.clone(),
                content: req.files[i].content.clone(),
                mime_type,
            };
            files.push(f);
            proof {
                assert(files.deep_view() =~= pre.push(
                    files_with_mime(req.files.deep_view())[i as int],
                ));
                assert(files.deep_view() =~= files_with_mime(req.files.deep_view()).take(
                    i as int + 1,
                ));
            }
            i += 1;
        }
        proof {
            assert(files.deep_view() =~= files_with_mime(req.files.deep_view()));
        }
        let site = Site {
            id,
            name,
            route,
            files,
            project_type: req.project_type,
            created_at: now,
            updated_at: now,
            visits: 0,
        };
        let result = site.clone();
        self.push_site(site);
        Ok(result)
    }

    /// Appends a site whose route is not yet taken.
    fn push_site(&mut self, site: Site)
        requires
            !site_route_taken(old(self)@, site@.route),
        ensures
            final(self)@ == old(self)@.push(site@),
    {
        proof {
            use_type_invariant(&*self);
            lemma_index_of_site_route(self@, site@.route);
        }
        let ghost s0 = self.sites.deep_view();
        let mut sites = Vec::new();
        core::mem::swap(&mut sites, &mut self.sites);
        sites.push(site);
        proof {
            assert(sites.deep_view() =~= s0.push(site@));
            assert(forall|i: int, j: int| 0 <= i < j < sites.deep_view().len()
                ==> sites.deep_view()[i].route != sites.deep_view()[j].route) by {
                assert(forall|i: int| 0 <= i < s0.len() ==> sites.deep_view()[i] == s0[i]);
                assert(sites.deep_view()[sites.deep_view().len() - 1] == site@);
            }
        }
        core::mem::swap(&mut sites, &mut self.sites);
    }

    /// Installs an already-deployed site, as when loading persisted
    /// state: its route must be free.
    pub fn install(&mut self, site: Site) -> (r: Result<(), String>)
        ensures
            site_route_taken(old(self)@, site@.route) ==> final(self)@ == old(self)@ && (
            r matches Err(e) && e@ == SITE_ROUTE_IN_USE_ERROR@),
            !site_route_taken(old(self)@, site@.route) ==> final(self)@ == old(self)@.push(site@)
                && r is Ok,
    {
        if self.route_exists(site.route.as_str()) {
            return Err(SITE_ROUTE_IN_USE_ERROR.to_owned());
        }
        self.push_site(site);
        Ok(())
    }

    /// The site with id `id`, if deployed.
    pub fn get(&self, id: &str) -> (r: Option<Site>)
        ensures
            match r {
                Some(site) => index_of_site_id(self@, id@) >= 0 && site@ == self@[index_of_site_id(
                    self@,
                    id@,
                )],
                None => index_of_site_id(self@, id@) < 0,
            },
    {
        match self.find_by_id(id) {
            Some(i) => Some(self.sites[i].clone()),
            None => None,
        }
    }

    /// The site answering `route`: a site whose route is exactly
    /// `route` wins; otherwise the first site whose route is a prefix
    /// of it.
    pub fn get_by_route(&self, route: &str) -> (r: Option<Site>)
        ensures
            ({
                let e = index_of_site_route(self@, route@);
                let m = index_of_site_prefix(self@, route@);
                match r {
                    Some(site) => (e >= 0 && site@ == self@[e]) || (e < 0 && m >= 0 && site@
                        == self@[m]),
                    None => e < 0 && m < 0,
                }
            }),
    {
        let mut i: usize = 0;
        while i < self.sites.len()
            invariant
                i <= self@.len(),
                self@.len() == self.sites@.len(),
                self@ == self.sites.deep_view(),
                forall|j: int| 0 <= j < i ==> self@[j].route != route@,
            decreases self@.len() - i,
        {
            if str_eq(self.sites[i].route.as_str(), route) {
                proof {
                    assert(self@[i as int] == self.sites@[i as int]@);
                    assert(self@[i as int].route == route@);
                    lemma_index_of_site_route(self@, route@);
                }
                return Some(self.sites[i].clone());
            }
            i += 1;
        }
        proof {
            lemma_index_of_site_route(self@, route@);
        }
        let mut i: usize = 0;
        while i < self.sites.len()
            invariant
                i <= self@.len(),
                self@.len() == self.sites@.len(),
                self@ == self.sites.deep_view(),
                index_of_site_route(self@, route@) < 0,
                forall|j: int| 0 <= j < i ==> !is_prefix_of(self@[j].route, route@),
            decreases self@.len() - i,
        {
            if str_starts_with(route, self.sites[i].route.as_str()) {
                proof {
                    assert(self@[i as int] == self.sites@[i as int]@);
                    assert(is_prefix_of(self@[i as int].route, route@));
                    lemma_index_of_site_prefix(self@, route@);
                }
                return Some(self.sites[i].clone());
            }
            i += 1;
        }
        proof {
            lemma_index_of_site_prefix(self@, route@);
        }
        None
    }

    /// All deployed sites, in deployment order.
    pub fn list(&self) -> (r: Vec<Site>)
        ensures
            r.deep_view() == self@,
    {
        let mut out: Vec<Site> = Vec::new();
        let mut i: usize = 0;
        while i < self.sites.len()
            invariant
                i <= self@.len(),
                self@.len() == self.sites@.len(),
                self@ == self.sites.deep_view(),
                out.deep_view() =~= self@.take(i as int),
            decreases self@.len() - i,
        {
            let ghost pre = out.deep_view();
            let site = self.sites[i].clone();
            out.push(site);
            proof {
                assert(out.deep_view() =~= pre.push(self@[i as int]));
                assert(out.deep_view() =~= self@.take(i as int + 1));
            }
            i += 1;
        }
        proof {
            assert(self@.take(self@.len() as int) =~= self@);
        }
        out
    }

    /// Removes the site with id `id`.
    pub fn delete(&mut self, id: &str) -> (r: Result<(), String>)
        ensures
            ({
                let idx = index_of_site_id(old(self)@, id@);
                &&& idx < 0 ==> final(self)@ == old(self)@ && (r matches Err(e) && e@
                    == SITE_NOT_FOUND_ERROR@)
                &&& idx >= 0 ==> final(self)@ == old(self)@.remove(idx) && r is Ok
            }),
    {
        proof {
            use_type_invariant(&*self);
        }
        let idx = match self.find_by_id(id) {
            Some(i) => i,
            None => {
                return Err(SITE_NOT_FOUND_ERROR.to_owned());
            },
        };
        let ghost s0 = self.sites.deep_view();
        let mut sites = Vec::new();
        core::mem::swap(&mut sites, &mut self.sites);
        let _removed = sites.remove(idx);
        proof {
            assert(sites.deep_view() =~= s0.remove(idx as int));
            assert(forall|i: int, j: int| 0 <= i < j < sites.deep_view().len()
                ==> sites.deep_view()[i].route != sites.deep_view()[j].route) by {
                assert(forall|i: int| 0 <= i < sites.deep_view().len()
                    ==> sites.deep_view()[i] == if i < idx {
                    s0[i]
                } else {
                    s0[i + 1]
                });
            }
        }
        core::mem::swap(&mut sites, &mut self.sites);
        Ok(())
    }


    /// The file the site with id `site_id` serves for `file_path`:
    /// the exact path, the directory's `index.html`, or the site
    /// root's `index.html`, in that order.
    pub fn get_file(&self, site_id: &str, file_path: &str) -> (r: Option<SiteFile>)
        ensures
            ({
                let idx = index_of_site_id(self@, site_id@);
                &&& idx < 0 ==> r is None
                &&& idx >= 0 ==> match r {
                    Some(f) => site_file_lookup(self@[idx].files, file_path@) == Some(f@),
                    None => site_file_lookup(self@[idx].files, file_path@) is None,
                }
            }),
    {
        let idx = match self.find_by_id(site_id) {
            Some(i) => i,
            None => {
                return None;
            },
        };
        let site = &self.sites[idx];
        proof {
            assert(self@[idx as int] == self.sites@[idx as int]@);
        }
        let n = file_path.unicode_len();
        let mut k: usize = 0;
        while k < n && file_path.get_char(k) == '/'
            invariant
                k <= n,
                n == file_path@.len(),
                forall|j: int| 0 <= j < k ==> file_path@[j] == '/',
            decreases n - k,
        {
            k += 1;
        }
        let normalized_str = file_path.substring_char(k, n);
        let normalized = normalized_str.to_owned();
        proof {
            lemma_strip_leading(file_path@, k as int);
            assert(normalized@ =~= file_path@.skip(k as int));
        }
        if let Some(i) = find_file(&site.files, normalized.as_str()) {
            return Some(site.files[i].clone());
        }
        let index_path: String = if normalized.as_str().unicode_len() == 0 {
            "index.html".to_owned()
        } else {
            let nn = normalized.as_str().unicode_len();
            let mut m: usize = nn;
            while m > 0 && normalized.as_str().get_char(m - 1) == '/'
                invariant
                    m <= nn,
                    nn == normalized@.len(),
                    forall|j: int| m <= j < nn ==> normalized@[j] == '/',
                decreases m,
            {
                m -= 1;
            }
            let mut p = normalized.as_str().substring_char(0, m).to_owned();
            p.append("/index.html");
            proof {
                lemma_strip_trailing(normalized@, m as int);
                assert(normalized@.take(m as int) + "/index.html"@ =~= p@);
            }
            p
        };
        proof {
            assert(index_path@ == index_fallback_path(normalized@));
        }
        if let Some(i) = find_file(&site.files, index_path.as_str()) {
            return Some(site.files[i].clone());
        }
        if let Some(i) = find_file(&site.files, "index.html") {
            return Some(site.files[i].clone());
        }
        None
    }

    /// Books one visit against the site with id `id` (up to the u64
    /// ceiling). An unknown id changes nothing.
    pub fn record_visit(&mut self, id: &str)
        ensures
            ({
                let idx = index_of_site_id(old(self)@, id@);
                &&& idx < 0 ==> final(self)@ == old(self)@
                &&& idx >= 0 ==> {
                    &&& final(self)@.len() == old(self)@.len()
                    &&& forall|j: int| 0 <= j < old(self)@.len() && j != idx ==> final(self)@[j]
                        == old(self)@[j]
                    &&& final(self)@[idx].visits == (if old(self)@[idx].visits < u64::MAX {
                        old(self)@[idx].visits + 1
                    } else {
                        old(self)@[idx].visits as int
                    })
                    &&& final(self)@[idx].id == old(self)@[idx].id
                    &&& final(self)@[idx].name == old(self)@[idx].name
                    &&& final(self)@[idx].route == old(self)@[idx].route
                    &&& final(self)@[idx].files == old(self)@[idx].files
                    &&& final(self)@[idx].project_type == old(self)@[idx].project_type
                    &&& final(self)@[idx].created_at == old(self)@[idx].created_at
                    &&& final(self)@[idx].updated_at == old(self)@[idx].updated_at
                }
            }),
    {
        proof {
            use_type_invariant(&*self);
        }
        let idx = match self.find_by_id(id) {
            Some(i) => i,
            None => {
                return;
            },
        };
        let ghost s0 = self.sites.deep_view();
        let mut sites = Vec::new();
        core::mem::swap(&mut sites, &mut self.sites);
        let mut site = sites.remove(idx);
        proof {
            assert(site.deep_view() == s0[idx as int]);
        }
        if site.visits < u64::MAX {
            site.visits = site.visits + 1;
        }
        let ghost sv = site@;
        sites.insert(idx, site);
        proof {
            assert(sites.deep_view() =~= s0.update(idx as int, sv));
            assert(forall|i: int, j: int| 0 <= i < j < sites.deep_view().len()
                ==> sites.deep_view()[i].route != sites.deep_view()[j].route) by {
                assert(forall|i: int| 0 <= i < s0.len() && i != idx
                    ==> sites.deep_view()[i] == s0[i]);
                assert(sites.deep_view()[idx as int] == sv);
                assert(sv.route == s0[idx as int].route);
            }
        }
        core::mem::swap(&mut sites, &mut self.sites);
    }
}

impl Default for SiteStore {
    /// An empty store.
    fn default() -> (r: Self)
        ensures
            r@ == Seq::<SiteView>::empty(),
    {
        SiteStore::new()
    }
}

} // verus!
