use downloader::status::{classify, StatusClass};
use downloader::target::{find_last_separator, DownloadTarget};

#[test]
fn success_and_redirect_codes_are_accepted() {
    assert_eq!(classify(200), StatusClass::Accepted);
    assert_eq!(classify(204), StatusClass::Accepted);
    assert_eq!(classify(301), StatusClass::Accepted);
    assert_eq!(classify(100), StatusClass::Accepted);
}

#[test]
fn not_found_has_its_own_class() {
    assert_eq!(classify(404), StatusClass::NotFound);
    assert_ne!(classify(403), StatusClass::NotFound);
    assert_ne!(classify(405), StatusClass::NotFound);
}

#[test]
fn client_and_server_errors_are_rejected() {
    assert_eq!(classify(400), StatusClass::Rejected);
    assert_eq!(classify(403), StatusClass::Rejected);
    assert_eq!(classify(499), StatusClass::Rejected);
    assert_eq!(classify(500), StatusClass::Rejected);
    assert_eq!(classify(503), StatusClass::Rejected);
    assert_eq!(classify(599), StatusClass::Rejected);
}

#[test]
fn codes_outside_the_error_ranges_are_accepted() {
    assert_eq!(classify(0), StatusClass::Accepted);
    assert_eq!(classify(399), StatusClass::Accepted);
    assert_eq!(classify(600), StatusClass::Accepted);
    assert_eq!(classify(999), StatusClass::Accepted);
    assert_eq!(classify(u16::MAX), StatusClass::Accepted);
}

#[test]
fn new_target_keeps_both_parts() {
    let target = DownloadTarget::new("http://example.test", "a.jpg");
    assert_eq!(target.base_location, "http://example.test");
    assert_eq!(target.identifier, "a.jpg");
}

#[test]
fn remote_address_joins_with_one_slash() {
    let target = DownloadTarget::new("http://example.test", "a.jpg");
    assert_eq!(target.remote_address(), "http://example.test/a.jpg");
}

#[test]
fn remote_address_adds_no_slash_handling() {
    let trailing = DownloadTarget::new("http://example.test/", "a.jpg");
    assert_eq!(trailing.remote_address(), "http://example.test//a.jpg");
    let empty = DownloadTarget::new("", "");
    assert_eq!(empty.remote_address(), "/");
}

#[test]
fn remote_address_keeps_subdirectories() {
    let target = DownloadTarget::new("https://jsonplaceholder.typicode.com", "todos/1");
    assert_eq!(target.remote_address(), "https://jsonplaceholder.typicode.com/todos/1");
}

#[test]
fn local_path_is_identifier_below_downloads() {
    let target = DownloadTarget::new("http://example.test", "a.jpg");
    assert_eq!(target.local_path(), "downloads/a.jpg");
}

#[test]
fn local_path_keeps_identifier_verbatim() {
    let target = DownloadTarget::new("http://example.test", "todos/1");
    assert_eq!(target.local_path(), "downloads/todos/1");
    let empty = DownloadTarget::new("http://example.test", "");
    assert_eq!(empty.local_path(), "downloads/");
}

#[test]
fn local_directory_of_plain_name_is_the_root() {
    let target = DownloadTarget::new("http://example.test", "arquivo_1.jpg");
    assert_eq!(target.local_directory(), "downloads");
}

#[test]
fn local_directory_includes_intermediate_directories() {
    let one = DownloadTarget::new("http://example.test", "todos/1");
    assert_eq!(one.local_directory(), "downloads/todos");
    let two = DownloadTarget::new("http://example.test", "a/b/c.txt");
    assert_eq!(two.local_directory(), "downloads/a/b");
}

#[test]
fn local_directory_with_slash_at_either_end() {
    let trailing = DownloadTarget::new("http://example.test", "dir/");
    assert_eq!(trailing.local_directory(), "downloads/dir");
    let leading = DownloadTarget::new("http://example.test", "/x");
    assert_eq!(leading.local_directory(), "downloads/");
    let empty = DownloadTarget::new("http://example.test", "");
    assert_eq!(empty.local_directory(), "downloads");
}

#[test]
fn local_directory_counts_characters_not_bytes() {
    let target = DownloadTarget::new("http://example.test", "fotos/maçã/pão.jpg");
    assert_eq!(target.local_directory(), "downloads/fotos/maçã");
    assert_eq!(target.local_path(), "downloads/fotos/maçã/pão.jpg");
}

#[test]
fn directory_slash_file_name_is_the_path() {
    for identifier in ["a.jpg", "todos/1", "a/b/c.txt", "dir/", "/x", ""] {
        let target = DownloadTarget::new("http://example.test", identifier);
        let name = match identifier.rfind('/') {
            Some(at) => &identifier[at + 1..],
            None => identifier,
        };
        assert!(!name.contains('/'));
        assert_eq!(format!("{}/{}", target.local_directory(), name), target.local_path());
    }
}

#[test]
fn last_separator_positions() {
    assert_eq!(find_last_separator(""), None);
    assert_eq!(find_last_separator("abc"), None);
    assert_eq!(find_last_separator("/"), Some(0));
    assert_eq!(find_last_separator("a/b"), Some(1));
    assert_eq!(find_last_separator("a/b/c"), Some(3));
    assert_eq!(find_last_separator("a//"), Some(2));
    assert_eq!(find_last_separator("maçã/x"), Some(4));
}

#[test]
fn classes_agree_with_the_status_codes_of_reqwest() {
    for code in 100u16..1000 {
        let status = match reqwest::StatusCode::from_u16(code) {
            Ok(status) => status,
            Err(_) => panic!("{} is a valid status code", code),
        };
        let is_error = status.is_client_error() || status.is_server_error();
        assert_eq!(classify(code) != StatusClass::Accepted, is_error);
        assert_eq!(
            classify(code) == StatusClass::NotFound,
            status == reqwest::StatusCode::NOT_FOUND
        );
        assert_eq!(status.as_u16(), code);
    }
}
