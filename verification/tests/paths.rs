use html2pdf::paths::{default_output_path, file_url};

#[test]
fn extension_is_replaced_by_pdf() {
    assert_eq!(default_output_path("page.html"), "page.pdf");
    assert_eq!(default_output_path("dir/page.html"), "dir/page.pdf");
    assert_eq!(default_output_path("a/b.c/page.html"), "a/b.c/page.pdf");
    assert_eq!(default_output_path("archive.tar.gz"), "archive.tar.pdf");
}

#[test]
fn missing_extension_is_added() {
    assert_eq!(default_output_path("page"), "page.pdf");
    assert_eq!(default_output_path("dir/page"), "dir/page.pdf");
    assert_eq!(default_output_path("dir.d/page"), "dir.d/page.pdf");
    assert_eq!(default_output_path(".hidden"), ".hidden.pdf");
    assert_eq!(default_output_path("dir/.hidden"), "dir/.hidden.pdf");
    assert_eq!(default_output_path("page."), "page.pdf");
}

#[test]
fn paths_without_a_file_name_stay_as_they_are() {
    assert_eq!(default_output_path(""), "");
    assert_eq!(default_output_path("dir/"), "dir/");
}

#[test]
fn relative_markers_stay_as_they_are() {
    assert_eq!(default_output_path("."), ".");
    assert_eq!(default_output_path(".."), "..");
    assert_eq!(default_output_path("dir/.."), "dir/..");
    assert_eq!(default_output_path("..."), "...pdf");
    assert_eq!(default_output_path("..a"), "..pdf");
}

#[test]
fn file_urls_carry_the_scheme() {
    assert_eq!(file_url("/tmp/page.html"), "file:///tmp/page.html");
    assert_eq!(file_url("page.html"), "file://page.html");
}
