//! Files of an account: their records, the requests that list and change
//! them, and the plans for downloading and uploading them.
use vstd::prelude::*;

use crate::put::request::{
    ApiRequest, FormField, request_view, RequestView, get_request, post_request, form_field,
};
use crate::text::{concat2, concat3, decimal, i64_to_decimal, owned, push_char, push_str, same_text, chars_of};

verus! {

/// A size in bytes.
pub struct FileSize(pub u64);

/// What `bytefmt::format` returns for a byte count: the count scaled to the
/// largest decimal unit (B, KB, MB, GB, TB, PB) below it, with two decimals
/// and trailing zeros trimmed, then a space and the unit.
pub uninterp spec fn byte_size_text(bytes: u64) -> Seq<char>;

/// Calls `bytefmt::format`. Its result is named; of counts below one
/// thousand the source shows the exact text (the count in decimal, then
/// " B"), and of larger ones the unit that ends it. The scaled number in
/// between is computed in floating point and left unstated.
#[verifier::external_body]
fn bytefmt_format(bytes: u64) -> (res: String)
    ensures
        res@ == byte_size_text(bytes),
        bytes < 1000 ==> res@ == decimal(bytes as int) + " B"@,
        1000 <= bytes < 1000000 ==> res@.len() >= 3 && res@.subrange(res@.len() - 3, res@.len() as int) == " KB"@,
        1000000 <= bytes < 1000000000 ==> res@.len() >= 3 && res@.subrange(res@.len() - 3, res@.len() as int) == " MB"@,
        1000000000 <= bytes < 1000000000000 ==> res@.len() >= 3 && res@.subrange(res@.len() - 3, res@.len() as int) == " GB"@,
        1000000000000 <= bytes < 1000000000000000 ==> res@.len() >= 3 && res@.subrange(res@.len() - 3, res@.len() as int) == " TB"@,
        1000000000000000 <= bytes ==> res@.len() >= 3 && res@.subrange(res@.len() - 3, res@.len() as int) == " PB"@,
{
    bytefmt::format(bytes)
}

impl FileSize {
    /// The size as the file listing shows it, such as "123 B" or "1.23 MB".
    pub fn to_string(&self) -> (res: String)
        ensures
            res@ == byte_size_text(self.0),
            self.0 < 1000 ==> res@ == decimal(self.0 as int) + " B"@,
    {
        bytefmt_format(self.0)
    }
}

/// A file or folder of the account.
pub struct File {
    pub id: i64,
    pub name: String,
    pub file_type: String,
    pub size: FileSize,
    pub created_at: String,
    pub updated_at: String,
    pub parent_id: i64,
}

/// The type that the service gives a folder.
pub open spec fn folder_type() -> Seq<char> {
    "FOLDER"@
}

impl File {
    /// Whether this entry is a folder.
    pub fn is_folder(&self) -> (res: bool)
        ensures
            res == (self.file_type@ == folder_type()),
    {
        same_text(self.file_type.as_str(), "FOLDER")
    }
}

/// The type that the service gives a video.
pub open spec fn video_type() -> Seq<char> {
    "VIDEO"@
}

impl File {
    /// Whether this entry is a video, the only kind that can be played.
    pub fn is_video(&self) -> (res: bool)
        ensures
            res == (self.file_type@ == video_type()),
    {
        same_text(self.file_type.as_str(), "VIDEO")
    }
}

/// How to get a download address for an entry.
pub enum UrlPlan {
    /// A folder: have it zipped and give the archive's address.
    Zip { folder_id: i64 },
    /// A file: ask for its own address.
    Direct { file_id: i64 },
}

/// How to get a download address for the entry `file_id`, whose listing
/// shows it as `entry`: a folder's address is that of a zip archive of it,
/// a file's is its own.
pub fn url_plan(file_id: i64, entry: &File) -> (res: UrlPlan)
    ensures
        entry.file_type@ == folder_type() ==> res == (UrlPlan::Zip { folder_id: file_id }),
        entry.file_type@ != folder_type() ==> res == (UrlPlan::Direct { file_id }),
{
    if entry.is_folder() {
        UrlPlan::Zip { folder_id: file_id }
    } else {
        UrlPlan::Direct { file_id }
    }
}

/// A folder listing: the folder's entries and the folder itself.
pub struct FilesResponse {
    pub files: Vec<File>,
    pub parent: File,
}

/// Search results.
pub struct SearchResponse {
    pub files: Vec<File>,
    pub total: i64,
}

/// A download address for a file.
pub struct UrlResponse {
    pub url: String,
}

/// An archive extraction in progress.
pub struct Extraction {
    pub id: String,
    pub name: String,
    pub status: String,
    pub message: String,
}

/// The extractions in progress.
pub struct ExtractionResponse {
    pub extractions: Vec<Extraction>,
}

/// The request that lists a folder.
pub fn list_request(parent_id: i64) -> (res: ApiRequest)
    ensures
        request_view(res) == (RequestView {
            post: false,
            url: "https://api.put.io/v2/files/list?parent_id="@ + decimal(parent_id as int),
            form: seq![],
        }),
{
    let id = i64_to_decimal(parent_id);
    get_request(concat2("https://api.put.io/v2/files/list?parent_id=", id.as_str()))
}

/// The request that searches files for a keyword; the query goes into the
/// address as given.
pub fn search_request(query: &str) -> (res: ApiRequest)
    ensures
        request_view(res) == (RequestView {
            post: false,
            url: "https://api.put.io/v2/files/search?query="@ + query@,
            form: seq![],
        }),
{
    get_request(concat2("https://api.put.io/v2/files/search?query=", query))
}

/// The request that deletes the files whose ids `file_id` lists.
pub fn delete_request(file_id: &str) -> (res: ApiRequest)
    ensures
        request_view(res) == (RequestView {
            post: true,
            url: "https://api.put.io/v2/files/delete"@,
            form: seq![("file_ids"@, file_id@)],
        }),
{
    let mut form: Vec<FormField> = Vec::new();
    form.push(form_field("file_ids", file_id));
    proof {
        assert(crate::put::request::form_view(form@) =~= seq![("file_ids"@, file_id@)]);
    }
    post_request(owned("https://api.put.io/v2/files/delete"), form)
}

/// The request for a file's download address.
pub fn url_request(file_id: i64) -> (res: ApiRequest)
    ensures
        request_view(res) == (RequestView {
            post: false,
            url: "https://api.put.io/v2/files/"@ + decimal(file_id as int) + "/url"@,
            form: seq![],
        }),
{
    let id = i64_to_decimal(file_id);
    get_request(concat3("https://api.put.io/v2/files/", id.as_str(), "/url"))
}

/// The request that moves a file into another folder.
pub fn move_request(file_id: i64, new_parent_id: i64) -> (res: ApiRequest)
    ensures
        request_view(res) == (RequestView {
            post: true,
            url: "https://api.put.io/v2/files/move"@,
            form: seq![("file_ids"@, decimal(file_id as int)), ("parent_id"@, decimal(new_parent_id as int))],
        }),
{
    let id = i64_to_decimal(file_id);
    let parent = i64_to_decimal(new_parent_id);
    let mut form: Vec<FormField> = Vec::new();
    form.push(form_field("file_ids", id.as_str()));
    form.push(form_field("parent_id", parent.as_str()));
    proof {
        assert(crate::put::request::form_view(form@) =~= seq![("file_ids"@, decimal(file_id as int)), ("parent_id"@, decimal(new_parent_id as int))]);
    }
    post_request(owned("https://api.put.io/v2/files/move"), form)
}

/// The request that renames a file.
pub fn rename_request(file_id: i64, new_name: &str) -> (res: ApiRequest)
    ensures
        request_view(res) == (RequestView {
            post: true,
            url: "https://api.put.io/v2/files/rename"@,
            form: seq![("file_id"@, decimal(file_id as int)), ("name"@, new_name@)],
        }),
{
    let id = i64_to_decimal(file_id);
    let mut form: Vec<FormField> = Vec::new();
    form.push(form_field("file_id", id.as_str()));
    form.push(form_field("name", new_name));
    proof {
        assert(crate::put::request::form_view(form@) =~= seq![("file_id"@, decimal(file_id as int)), ("name"@, new_name@)]);
    }
    post_request(owned("https://api.put.io/v2/files/rename"), form)
}

/// The request that starts extracting an archive.
pub fn extract_request(file_id: i64) -> (res: ApiRequest)
    ensures
        request_view(res) == (RequestView {
            post: true,
            url: "https://api.put.io/v2/files/extract"@,
            form: seq![("file_ids"@, decimal(file_id as int))],
        }),
{
    let id = i64_to_decimal(file_id);
    let mut form: Vec<FormField> = Vec::new();
    form.push(form_field("file_ids", id.as_str()));
    proof {
        assert(crate::put::request::form_view(form@) =~= seq![("file_ids"@, decimal(file_id as int))]);
    }
    post_request(owned("https://api.put.io/v2/files/extract"), form)
}

/// The request that lists the extractions in progress.
pub fn extractions_request() -> (res: ApiRequest)
    ensures
        request_view(res) == (RequestView {
            post: false,
            url: "https://api.put.io/v2/files/extract"@,
            form: seq![],
        }),
{
    get_request(owned("https://api.put.io/v2/files/extract"))
}

/// What a character of a file name becomes on disk: `<`, `>`, `|`, `?` and
/// `*` are dropped, `:` becomes " - " and `"` becomes `'`.
pub open spec fn sanitized_char(c: char) -> Seq<char> {
    if c == '<' || c == '>' || c == '|' || c == '?' || c == '*' {
        seq![]
    } else if c == ':' {
        seq![' ', '-', ' ']
    } else if c == '"' {
        seq!['\'']
    } else {
        seq![c]
    }
}

/// A name with each character replaced as `sanitized_char` says.
pub open spec fn sanitized(s: Seq<char>) -> Seq<char>
    decreases s.len(),
{
    if s.len() == 0 {
        seq![]
    } else {
        sanitized(s.drop_last()) + sanitized_char(s.last())
    }
}

/// The characters that a file name may not hold on disk.
pub open spec fn is_illegal_char(c: char) -> bool {
    c == '<' || c == '>' || c == ':' || c == '"' || c == '|' || c == '?' || c == '*'
}

/// Replaces illegal characters in a file name.
pub fn replace_illegal_chars(name: &str) -> (res: String)
    ensures
        res@ == sanitized(name@),
{
    let cs = chars_of(name);
    let mut res = String::new();
    let mut i: usize = 0;
    while i < cs.len()
        invariant
            cs@ == name@,
            i <= cs@.len(),
            res@ == sanitized(cs@.take(i as int)),
        decreases cs@.len() - i,
    {
        let c = cs[i];
        if c == '<' || c == '>' || c == '|' || c == '?' || c == '*' {
        } else if c == ':' {
            push_char(&mut res, ' ');
            push_char(&mut res, '-');
            push_char(&mut res, ' ');
        } else if c == '"' {
            push_char(&mut res, '\'');
        } else {
            push_char(&mut res, c);
        }
        proof {
            assert(cs@.take(i + 1).drop_last() =~= cs@.take(i as int));
            assert(res@ =~= sanitized(cs@.take(i as int)) + sanitized_char(c));
        }
        i = i + 1;
    }
    proof {
        assert(cs@.take(cs@.len() as int) =~= cs@);
    }
    res
}

/// A sanitized name holds none of the illegal characters.
pub proof fn lemma_sanitized_has_no_illegal_chars(s: Seq<char>)
    ensures
        forall|i: int| 0 <= i < sanitized(s).len() ==> !is_illegal_char(#[trigger] sanitized(s)[i]),
    decreases s.len(),
{
    if s.len() > 0 {
        lemma_sanitized_has_no_illegal_chars(s.drop_last());
        let a = sanitized(s.drop_last());
        let b = sanitized_char(s.last());
        assert forall|i: int| 0 <= i < sanitized(s).len() implies !is_illegal_char(#[trigger] sanitized(s)[i]) by {
            if i < a.len() {
                assert(sanitized(s)[i] == a[i]);
            } else {
                assert(sanitized(s)[i] == b[i - a.len()]);
            }
        }
    }
}

proof fn lemma_sanitized_concat(a: Seq<char>, b: Seq<char>)
    ensures
        sanitized(a + b) == sanitized(a) + sanitized(b),
    decreases b.len(),
{
    if b.len() == 0 {
        assert(a + b =~= a);
        assert(sanitized(a) + sanitized(b) =~= sanitized(a));
    } else {
        lemma_sanitized_concat(a, b.drop_last());
        assert((a + b).drop_last() =~= a + b.drop_last());
        assert(sanitized(a) + sanitized(b) =~= sanitized(a) + sanitized(b.drop_last()) + sanitized_char(b.last()));
    }
}

/// Sanitizing a name that holds no illegal character leaves it as it is.
pub proof fn lemma_sanitized_keeps_legal_names(s: Seq<char>)
    requires
        forall|i: int| 0 <= i < s.len() ==> !is_illegal_char(#[trigger] s[i]),
    ensures
        sanitized(s) == s,
    decreases s.len(),
{
    if s.len() > 0 {
        lemma_sanitized_keeps_legal_names(s.drop_last());
        assert(s.drop_last().push(s.last()) =~= s);
    }
}

/// Sanitizing twice gives what sanitizing once gives.
pub proof fn lemma_sanitized_idempotent(s: Seq<char>)
    ensures
        sanitized(sanitized(s)) == sanitized(s),
{
    lemma_sanitized_has_no_illegal_chars(s);
    lemma_sanitized_keeps_legal_names(sanitized(s));
}

/// Where a download is saved: `<path>/<name><suffix>` when a path is given,
/// else `./<name><suffix>`, with illegal characters replaced throughout
/// unless `no_replace` is set.
pub open spec fn download_target(path: Option<Seq<char>>, name: Seq<char>, suffix: Seq<char>, no_replace: bool) -> Seq<char> {
    let raw = match path {
        Some(p) => p + "/"@ + name + suffix,
        None => "./"@ + name + suffix,
    };
    if no_replace { raw } else { sanitized(raw) }
}

/// The unsanitized target: the path (or "."), a slash, the name, the suffix.
pub open spec fn raw_target(path: Option<Seq<char>>, name: Seq<char>, suffix: Seq<char>) -> Seq<char> {
    match path {
        Some(p) => p + seq!['/'] + name + suffix,
        None => seq!['.', '/'] + name + suffix,
    }
}

proof fn lemma_download_target_raw(path: Option<Seq<char>>, name: Seq<char>, suffix: Seq<char>, no_replace: bool)
    ensures
        download_target(path, name, suffix, no_replace)
            == if no_replace { raw_target(path, name, suffix) } else { sanitized(raw_target(path, name, suffix)) },
        raw_target(path, name, suffix) == raw_target(path, name, seq![]) + suffix,
{
    reveal_strlit("/");
    reveal_strlit("./");
    match path {
        Some(p) => {
            assert(p + "/"@ + name + suffix =~= p + seq!['/'] + name + suffix);
            assert(p + seq!['/'] + name + seq![] =~= p + seq!['/'] + name);
        },
        None => {
            assert("./"@ + name + suffix =~= seq!['.', '/'] + name + suffix);
            assert(seq!['.', '/'] + name + seq![] =~= seq!['.', '/'] + name);
        },
    }
}

/// A download is saved under the name asked for with the suffix asked for
/// at its end: for a suffix free of illegal characters, the target is the
/// target without the suffix, then the suffix. With no replacing, the
/// target is the path (or "."), a slash, the name and the suffix.
pub proof fn law_download_target_keeps_the_suffix(path: Option<Seq<char>>, name: Seq<char>, suffix: Seq<char>, no_replace: bool)
    requires
        forall|i: int| 0 <= i < suffix.len() ==> !is_illegal_char(#[trigger] suffix[i]),
    ensures
        download_target(path, name, suffix, no_replace) == download_target(path, name, seq![], no_replace) + suffix,
        download_target(path, name, suffix, no_replace).len() >= suffix.len(),
        download_target(path, name, suffix, no_replace).subrange(
            download_target(path, name, suffix, no_replace).len() - suffix.len(),
            download_target(path, name, suffix, no_replace).len() as int) == suffix,
        download_target(path, name, suffix, true) == match path {
            Some(p) => p + seq!['/'] + name + suffix,
            None => seq!['.', '/'] + name + suffix,
        },
{
    lemma_download_target_raw(path, name, suffix, no_replace);
    lemma_download_target_raw(path, name, seq![], no_replace);
    lemma_download_target_raw(path, name, suffix, true);
    let base = raw_target(path, name, seq![]);
    if !no_replace {
        lemma_sanitized_concat(base, suffix);
        lemma_sanitized_keeps_legal_names(suffix);
    }
    let t = download_target(path, name, suffix, no_replace);
    let u = download_target(path, name, seq![], no_replace);
    assert(t == u + suffix);
    assert(t.subrange(t.len() - suffix.len(), t.len() as int) =~= suffix);
}

/// A folder downloaded as an archive is saved under a name ending in ".zip".
pub proof fn law_zip_target_ends_in_zip(path: Option<Seq<char>>, name: Seq<char>, no_replace: bool)
    ensures
        ({
            let t = download_target(path, name, ".zip"@, no_replace);
            t.len() >= 4 && t.subrange(t.len() - 4, t.len() as int) == seq!['.', 'z', 'i', 'p']
        }),
{
    reveal_strlit(".zip");
    assert forall|i: int| 0 <= i < ".zip"@.len() implies !is_illegal_char(#[trigger] ".zip"@[i]) by {}
    law_download_target_keeps_the_suffix(path, name, ".zip"@, no_replace);
    assert(".zip"@ =~= seq!['.', 'z', 'i', 'p']);
}

/// What downloading a listed entry amounts to.
pub enum DownloadPlan {
    /// Create `directory` and download each entry of the folder into it.
    Recurse { directory: String, file_ids: Vec<i64> },
    /// Have the folder zipped, then fetch the archive to `output_path`.
    Zip { folder_id: i64, output_path: String },
    /// Fetch the file to `output_path`.
    Single { output_path: String },
}

fn download_path(path: Option<&String>, name: &str, suffix: &str, no_replace: bool) -> (res: String)
    ensures
        res@ == download_target(match path { Some(p) => Some(p@), None => None }, name@, suffix@, no_replace),
{
    let raw = match path {
        Some(p) => {
            let mut r = concat3(p.as_str(), "/", name);
            push_str(&mut r, suffix);
            r
        },
        None => {
            let mut r = concat2("./", name);
            push_str(&mut r, suffix);
            r
        },
    };
    if no_replace {
        raw
    } else {
        replace_illegal_chars(raw.as_str())
    }
}

/// The ids of the given entries, in order.
pub open spec fn ids_of(files: Seq<File>) -> Seq<i64> {
    files.map_values(|f: File| f.id)
}

/// Decides how to download the entry whose listing is given: a folder is
/// downloaded entry by entry into a directory of its name when `recursive`
/// is set and as a zip archive otherwise; a file is fetched directly.
pub fn plan_download(listing: &FilesResponse, recursive: bool, path: Option<&String>, no_replace: bool) -> (res: DownloadPlan)
    ensures
        ({
            let p = match path { Some(p) => Some(p@), None => None };
            let name = listing.parent.name@;
            if listing.parent.file_type@ == folder_type() {
                if recursive {
                    res matches DownloadPlan::Recurse { directory, file_ids }
                        && directory@ == download_target(p, name, seq![], no_replace)
                        && file_ids@ == ids_of(listing.files@)
                } else {
                    res matches DownloadPlan::Zip { folder_id, output_path }
                        && folder_id == listing.parent.id
                        && output_path@ == download_target(p, name, ".zip"@, no_replace)
                }
            } else {
                res matches DownloadPlan::Single { output_path }
                    && output_path@ == download_target(p, name, seq![], no_replace)
            }
        }),
{
    proof {
        reveal_strlit("");
        reveal_strlit(".zip");
    }
    if listing.parent.is_folder() {
        if recursive {
            let directory = download_path(path, listing.parent.name.as_str(), "", no_replace);
            let mut file_ids: Vec<i64> = Vec::new();
            let mut i: usize = 0;
            while i < listing.files.len()
                invariant
                    i <= listing.files@.len(),
                    file_ids@ == ids_of(listing.files@.take(i as int)),
                decreases listing.files@.len() - i,
            {
                file_ids.push(listing.files[i].id);
                proof {
                    assert(ids_of(listing.files@.take(i + 1)) =~= ids_of(listing.files@.take(i as int)).push(listing.files@[i as int].id));
                }
                i = i + 1;
            }
            proof {
                assert(listing.files@.take(listing.files@.len() as int) =~= listing.files@);
                assert(directory@ == download_target(match path { Some(p) => Some(p@), None => None }, listing.parent.name@, seq![], no_replace)) by {
                    assert(""@ =~= Seq::<char>::empty());
                }
            }
            DownloadPlan::Recurse { directory, file_ids }
        } else {
            let output_path = download_path(path, listing.parent.name.as_str(), ".zip", no_replace);
            DownloadPlan::Zip { folder_id: listing.parent.id, output_path }
        }
    } else {
        let output_path = download_path(path, listing.parent.name.as_str(), "", no_replace);
        proof {
            assert(""@ =~= Seq::<char>::empty());
        }
        DownloadPlan::Single { output_path }
    }
}

/// The views of a list of strings.
pub open spec fn string_views(v: Seq<String>) -> Seq<Seq<char>> {
    v.map_values(|s: String| s@)
}

/// The arguments given to curl to upload a file: the caller's own arguments,
/// the bearer token header, the file and the target folder ("0", the root,
/// when none is given), then the upload address.
pub open spec fn upload_args_spec(api_token: Seq<char>, path: Seq<char>, parent_id: Option<Seq<char>>, curl_args: Seq<Seq<char>>) -> Seq<Seq<char>> {
    curl_args + seq![
        "-H"@,
        "Authorization: Bearer "@ + api_token,
        "-F"@,
        "file=@"@ + path,
        "-F"@,
        "parent_id="@ + match parent_id { Some(p) => p, None => "0"@ },
        "https://upload.put.io/v2/files/upload"@,
    ]
}

/// The arguments for the curl command that uploads the file at `path`.
pub fn upload_curl_args(api_token: &str, path: &str, parent_id: Option<&String>, curl_args: &Vec<String>) -> (res: Vec<String>)
    ensures
        string_views(res@) == upload_args_spec(api_token@, path@, match parent_id { Some(p) => Some(p@), None => None }, string_views(curl_args@)),
{
    let mut res: Vec<String> = Vec::new();
    let mut i: usize = 0;
    while i < curl_args.len()
        invariant
            i <= curl_args@.len(),
            string_views(res@) == string_views(curl_args@.take(i as int)),
        decreases curl_args@.len() - i,
    {
        res.push(curl_args[i].clone());
        proof {
            assert(string_views(curl_args@.take(i + 1)) =~= string_views(curl_args@.take(i as int)).push(curl_args@[i as int]@));
            assert(string_views(res@) =~= string_views(curl_args@.take(i as int)).push(curl_args@[i as int]@));
        }
        i = i + 1;
    }
    proof {
        assert(curl_args@.take(curl_args@.len() as int) =~= curl_args@);
    }
    let ghost base = res@;
    res.push(owned("-H"));
    res.push(concat2("Authorization: Bearer ", api_token));
    res.push(owned("-F"));
    res.push(concat2("file=@", path));
    res.push(owned("-F"));
    let parent = match parent_id {
        Some(p) => concat2("parent_id=", p.as_str()),
        None => owned("parent_id=0"),
    };
    res.push(parent);
    res.push(owned("https://upload.put.io/v2/files/upload"));
    proof {
        reveal_strlit("parent_id=0");
        reveal_strlit("parent_id=");
        reveal_strlit("0");
        assert("parent_id=0"@ =~= "parent_id="@ + "0"@);
        assert(string_views(res@) =~= upload_args_spec(api_token@, path@, match parent_id { Some(p) => Some(p@), None => None }, string_views(curl_args@)));
    }
    res
}

} // verus!
