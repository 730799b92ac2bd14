use kaput::put::files::{
    delete_request, extract_request, extractions_request, list_request, move_request, plan_download,
    rename_request, replace_illegal_chars, search_request, upload_curl_args, url_plan, url_request, DownloadPlan, File,
    UrlPlan,
    FileSize, FilesResponse,
};
use kaput::put::oob::{check_request, code_of, code_request, reply_field, token_of};
use kaput::put::request::{bearer, ApiRequest};
use kaput::put::zips::{create_request, get_request_for, zip_poll, CheckZipResponse, ZipPoll};
use kaput::text::{
    chars_of, compare_bytes, concat2, find_bytes, i64_to_decimal, same_text, to_hex_lower, u64_to_decimal,
};

fn form(r: &ApiRequest) -> Vec<(String, String)> {
    r.form.iter().map(|f| (f.name.clone(), f.value.clone())).collect()
}

fn pair(a: &str, b: &str) -> (String, String) {
    (a.to_string(), b.to_string())
}

fn file(id: i64, name: &str, file_type: &str, parent_id: i64) -> File {
    File {
        id,
        name: name.to_string(),
        file_type: file_type.to_string(),
        size: FileSize(0),
        created_at: String::new(),
        updated_at: String::new(),
        parent_id,
    }
}

#[test]
fn decimal_rendering() {
    assert_eq!(u64_to_decimal(0), "0");
    assert_eq!(u64_to_decimal(7), "7");
    assert_eq!(u64_to_decimal(1234567890), "1234567890");
    assert_eq!(u64_to_decimal(u64::MAX), "18446744073709551615");
    assert_eq!(i64_to_decimal(-1), "-1");
    assert_eq!(i64_to_decimal(-120), "-120");
    assert_eq!(i64_to_decimal(i64::MIN), "-9223372036854775808");
    assert_eq!(i64_to_decimal(i64::MAX), "9223372036854775807");
}

#[test]
fn hex_rendering() {
    assert_eq!(to_hex_lower(&[0x0a, 0x14, 0x1e]), "0a141e");
    assert_eq!(to_hex_lower(&[]), "");
    assert_eq!(to_hex_lower(&[0xff, 0x00]), "ff00");
}

#[test]
fn byte_comparison() {
    assert_eq!(compare_bytes(b"abc", b"abd"), -1);
    assert_eq!(compare_bytes(b"abc", b"abc"), 0);
    assert_eq!(compare_bytes(b"abcd", b"abc"), 1);
    assert_eq!(compare_bytes(b"", b"a"), -1);
    assert_eq!(compare_bytes(b"b", b"abc"), 1);
}

#[test]
fn byte_search() {
    assert_eq!(find_bytes(b"hello world", b"o"), Some(4));
    assert_eq!(find_bytes(b"hello world", b"world"), Some(6));
    assert_eq!(find_bytes(b"hello", b"xyz"), None);
    assert_eq!(find_bytes(b"hi", b"high"), None);
    assert_eq!(find_bytes(b"abc", b""), Some(0));
}

#[test]
fn text_helpers() {
    assert!(same_text("FOLDER", "FOLDER"));
    assert!(!same_text("FOLDER", "FOLDERS"));
    assert!(!same_text("VIDEO", "video"));
    assert_eq!(chars_of("aé"), vec!['a', 'é']);
    assert_eq!(concat2("ab", "cd"), "abcd");
    assert_eq!(bearer("tok"), "Bearer tok");
}

#[test]
fn file_requests() {
    let r = list_request(42);
    assert!(!r.post);
    assert_eq!(r.url, "https://api.put.io/v2/files/list?parent_id=42");
    assert!(r.form.is_empty());
    assert_eq!(list_request(0).url, "https://api.put.io/v2/files/list?parent_id=0");

    assert_eq!(search_request("big buck").url, "https://api.put.io/v2/files/search?query=big buck");

    let r = delete_request("7");
    assert!(r.post);
    assert_eq!(r.url, "https://api.put.io/v2/files/delete");
    assert_eq!(form(&r), vec![pair("file_ids", "7")]);

    assert_eq!(url_request(-3).url, "https://api.put.io/v2/files/-3/url");

    let r = move_request(5, 9);
    assert_eq!(r.url, "https://api.put.io/v2/files/move");
    assert_eq!(form(&r), vec![pair("file_ids", "5"), pair("parent_id", "9")]);

    let r = rename_request(5, "new name");
    assert_eq!(r.url, "https://api.put.io/v2/files/rename");
    assert_eq!(form(&r), vec![pair("file_id", "5"), pair("name", "new name")]);

    let r = extract_request(11);
    assert!(r.post);
    assert_eq!(r.url, "https://api.put.io/v2/files/extract");
    assert_eq!(form(&r), vec![pair("file_ids", "11")]);

    let r = extractions_request();
    assert!(!r.post);
    assert_eq!(r.url, "https://api.put.io/v2/files/extract");
}

#[test]
fn zip_and_code_requests() {
    let r = create_request(12);
    assert!(r.post);
    assert_eq!(r.url, "https://api.put.io/v2/zips/create");
    assert_eq!(form(&r), vec![pair("file_ids", "12")]);
    assert_eq!(get_request_for(99).url, "https://api.put.io/v2/zips/99");
    assert_eq!(code_request().url, "https://api.put.io/v2/oauth2/oob/code?app_id=4701");
    assert_eq!(check_request("ABCD").url, "https://api.put.io/v2/oauth2/oob/code/ABCD");
}

#[test]
fn zip_polling() {
    let ready = zip_poll(CheckZipResponse { zip_status: "DONE".to_string(), url: Some("https://z".to_string()) });
    assert!(matches!(ready, ZipPoll::Ready(ref u) if u == "https://z"));
    let waiting = zip_poll(CheckZipResponse { zip_status: "NEW".to_string(), url: None });
    assert!(matches!(waiting, ZipPoll::Wait));
}

#[test]
fn illegal_characters_are_replaced() {
    assert_eq!(replace_illegal_chars("a<b>c"), "abc");
    assert_eq!(replace_illegal_chars("Movie: Part 2"), "Movie -  Part 2");
    assert_eq!(replace_illegal_chars("say \"hi\""), "say 'hi'");
    assert_eq!(replace_illegal_chars("what|now?*"), "whatnow");
    assert_eq!(replace_illegal_chars("plain name.mkv"), "plain name.mkv");
    assert_eq!(replace_illegal_chars(""), "");
}

#[test]
fn replacing_twice_changes_nothing_more() {
    let once = replace_illegal_chars("a:b<c>\"d\"|e?f*g");
    assert_eq!(replace_illegal_chars(&once), once);
    for c in ['<', '>', ':', '"', '|', '?', '*'] {
        assert!(!once.contains(c));
    }
}

#[test]
fn file_sizes_as_text() {
    assert_eq!(FileSize(123).to_string(), "123 B");
    assert_eq!(FileSize(0).to_string(), "0 B");
    assert_eq!(FileSize(1_230).to_string(), "1.23 KB");
    assert_eq!(FileSize(1_230_000).to_string(), "1.23 MB");
    assert_eq!(FileSize(1_000).to_string(), "1 KB");
    assert!(FileSize(5_000_000_000).to_string().ends_with(" GB"));
}

fn listing(parent: File, files: Vec<File>) -> FilesResponse {
    FilesResponse { files, parent }
}

#[test]
fn downloading_a_folder_recursively() {
    let l = listing(file(10, "My: Show", "FOLDER", 0), vec![file(11, "a", "VIDEO", 10), file(12, "b", "FOLDER", 10)]);
    match plan_download(&l, true, None, false) {
        DownloadPlan::Recurse { directory, file_ids } => {
            assert_eq!(directory, "./My -  Show");
            assert_eq!(file_ids, vec![11, 12]);
        }
        _ => panic!("expected a recursive download"),
    }
    let base = "downloads".to_string();
    match plan_download(&l, true, Some(&base), true) {
        DownloadPlan::Recurse { directory, .. } => assert_eq!(directory, "downloads/My: Show"),
        _ => panic!("expected a recursive download"),
    }
}

#[test]
fn downloading_a_folder_as_zip() {
    let l = listing(file(10, "Show?", "FOLDER", 0), vec![]);
    match plan_download(&l, false, None, false) {
        DownloadPlan::Zip { folder_id, output_path } => {
            assert_eq!(folder_id, 10);
            assert_eq!(output_path, "./Show.zip");
        }
        _ => panic!("expected a zip download"),
    }
}

#[test]
fn downloading_a_file() {
    let l = listing(file(20, "clip<1>.mp4", "VIDEO", 3), vec![]);
    let dir = "out".to_string();
    match plan_download(&l, true, Some(&dir), false) {
        DownloadPlan::Single { output_path } => assert_eq!(output_path, "out/clip1.mp4"),
        _ => panic!("expected a single download"),
    }
}

#[test]
fn upload_arguments() {
    let args = upload_curl_args("TOKEN", "/tmp/a.txt", None, &vec!["-s".to_string()]);
    assert_eq!(
        args,
        vec![
            "-s",
            "-H",
            "Authorization: Bearer TOKEN",
            "-F",
            "file=@/tmp/a.txt",
            "-F",
            "parent_id=0",
            "https://upload.put.io/v2/files/upload",
        ]
    );
    let parent = "77".to_string();
    let args = upload_curl_args("T", "f", Some(&parent), &vec![]);
    assert_eq!(args[5], "parent_id=77");
    assert_eq!(args.len(), 7);
}

#[test]
fn reply_fields() {
    let reply = vec![pair("device_code", "xyz"), pair("code", "AB12"), pair("code", "later")];
    assert_eq!(code_of(&reply), Some("AB12".to_string()));
    assert_eq!(token_of(&reply), None);
    let linked = vec![pair("oauth_token", "TOKEN")];
    assert_eq!(token_of(&linked), Some("TOKEN".to_string()));
    assert_eq!(code_of(&linked), None);
    assert_eq!(reply_field(&Vec::new(), "code"), None);
}

#[test]
fn playing_and_addresses() {
    let video = file(7, "trip.mp4", "VIDEO", 0);
    let folder = file(8, "Trips", "FOLDER", 0);
    let text = file(9, "notes.txt", "TEXT", 0);
    assert!(video.is_video());
    assert!(!folder.is_video());
    assert!(!text.is_video());
    assert!(matches!(url_plan(8, &folder), UrlPlan::Zip { folder_id: 8 }));
    assert!(matches!(url_plan(7, &video), UrlPlan::Direct { file_id: 7 }));
    assert!(matches!(url_plan(9, &text), UrlPlan::Direct { file_id: 9 }));
}
