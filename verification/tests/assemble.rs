use ar5iv::assemble_asset::{
    assemble_paper, build_paper_path, build_source_zip_path, entry_kind, extract_all, fetch_zip,
    ArchiveEntry, ArchiveFormatError, ConversionArchive, EntryKind, LatexmlStatus,
};
use ar5iv::cache::CacheEntry;
use ar5iv::constants::{AR5IV_CSS_URL, LOG_FILENAME, ROBOTS_TXT, SITE_CSS_URL};
use ar5iv::dirty_templates::{dirty_branded_ar5iv_html, log_to_html};

#[test]
fn names_of_the_fixed_files() {
    assert_eq!(LOG_FILENAME, "cortex.log");
    assert_eq!(AR5IV_CSS_URL, "/assets/ar5iv.0.7.6.min.css");
    assert_eq!(SITE_CSS_URL, "/assets/ar5iv-site.0.2.1.css");
    assert_eq!(ROBOTS_TXT, "User-agent: *\nDisallow: /log/\n");
}

#[test]
fn entries_by_name() {
    assert_eq!(entry_kind("2101.00001.html", true), EntryKind::Html);
    assert_eq!(entry_kind("sub/doc.html", true), EntryKind::Html);
    assert_eq!(entry_kind(".html", true), EntryKind::Html);
    assert_eq!(entry_kind("cortex.log", true), EntryKind::Log);
    assert_eq!(entry_kind("x1.png", true), EntryKind::Asset);
    assert_eq!(entry_kind("sub/cortex.log", true), EntryKind::Asset);
    assert_eq!(entry_kind("cortex.log.bak", true), EntryKind::Asset);
    assert_eq!(entry_kind("page.htm", true), EntryKind::Asset);
    assert_eq!(entry_kind("html", true), EntryKind::Asset);
    assert_eq!(entry_kind("", true), EntryKind::Asset);
}

#[test]
fn what_is_no_file_is_skipped() {
    assert_eq!(entry_kind("figures/", false), EntryKind::Skipped);
    assert_eq!(entry_kind("a.html", false), EntryKind::Skipped);
    assert_eq!(entry_kind("cortex.log", false), EntryKind::Skipped);
}

#[test]
fn archive_gathers_what_is_added() {
    let mut archive = ConversionArchive::new();
    assert_eq!(archive.html_text(), "");
    assert_eq!(archive.log_text(), "");
    archive.add_html("<html>");
    archive.add_log("Warning:x\n");
    archive.add_html("</html>");
    archive.add_log("done");
    assert_eq!(archive.html_text(), "<html></html>");
    assert_eq!(archive.log_text(), "Warning:x\ndone");
}

#[test]
fn paper_path_is_sharded_by_the_first_four_characters() {
    assert_eq!(
        build_paper_path("/data/arxmliv", None, "2105.04404"),
        Some("/data/arxmliv/2105/2105.04404/tex_to_html.zip".to_string())
    );
    assert_eq!(
        build_paper_path("/data/arxmliv", Some("astro-ph"), "0001016"),
        Some("/data/arxmliv/0001/astro-ph0001016/tex_to_html.zip".to_string())
    );
    assert_eq!(build_paper_path("", None, "abcd"), Some("/abcd/abcd/tex_to_html.zip".to_string()));
}

#[test]
fn short_id_names_no_paper() {
    assert_eq!(build_paper_path("/data/arxmliv", None, "210"), None);
    assert_eq!(build_paper_path("/data/arxmliv", Some("astro-ph"), ""), None);
    assert_eq!(build_source_zip_path("/data/arxmliv", None, "abc"), None);
}

#[test]
fn source_archive_is_named_like_its_directory() {
    assert_eq!(
        build_source_zip_path("/data/arxmliv", None, "2105.04404"),
        Some("/data/arxmliv/2105/2105.04404/2105.04404.zip".to_string())
    );
    assert_eq!(
        build_source_zip_path("/data/arxmliv", Some("astro-ph"), "0001016"),
        Some("/data/arxmliv/0001/astro-ph0001016/astro-ph0001016.zip".to_string())
    );
}

#[test]
fn source_archive_without_bytes_is_none() {
    assert_eq!(fetch_zip(Vec::new()), None);
    assert_eq!(fetch_zip(vec![80, 75, 3, 4]), Some(vec![80, 75, 3, 4]));
}

#[test]
fn missing_log_counts_as_fatal() {
    let mut archive = ConversionArchive::new();
    archive.add_html("<article>x</article>");
    let paper = assemble_paper(archive, None, "2101.00001", None, true, false);
    assert_eq!(paper.status, LatexmlStatus::Fatal);
}

#[test]
fn empty_archive_assembles_to_the_fatal_placeholder() {
    let paper = assemble_paper(ConversionArchive::new(), None, "2101.00001", None, true, false);
    assert_eq!(paper.status, LatexmlStatus::Fatal);
    assert!(paper.page.contains("<title> No content available </title>"));
    assert!(paper.page.contains("<div class=\"ar5iv-footer\">"));
    assert!(paper.page.contains("class=\"ar5iv-text-button ar5iv-severity-fatal\">Conversion<br>report</a>"));
    assert!(paper.page.contains("Conversion to HTML had a Fatal error and exited abruptly."));
    assert_eq!(
        paper.page,
        dirty_branded_ar5iv_html(String::new(), "2101.00001", LatexmlStatus::Fatal, None, None)
    );
    assert_eq!(
        paper.writes,
        vec![CacheEntry::Text { key: "2101.00001".to_string(), text: paper.page.clone() }]
    );
}

#[test]
fn status_is_read_off_the_log() {
    for (log, status) in [
        ("all fine\n", LatexmlStatus::Okay),
        ("Warning:x\n", LatexmlStatus::Warning),
        ("Error:x\nStatus:conversion:2", LatexmlStatus::Error),
        ("Status:conversion:3", LatexmlStatus::Fatal),
    ] {
        let mut archive = ConversionArchive::new();
        archive.add_log(log);
        let paper = assemble_paper(archive, None, "2101.00001", None, false, false);
        assert_eq!(paper.status, status);
        assert!(paper.page.contains(status.as_css_class()));
    }
}

#[test]
fn paper_is_assembled_with_its_neighbours() {
    let content = "<html><body><article><img src=\"x1.png\"></article><footer class=\"ltx_page_footer\"></footer></body></html>";
    let mut archive = ConversionArchive::new();
    archive.add_html(content);
    archive.add_log("Warning:x\n");
    let paper = assemble_paper(
        archive,
        Some("astro-ph"),
        "0001016",
        Some("astro-ph/0001015;astro-ph/0001017"),
        false,
        false,
    );
    assert_eq!(paper.status, LatexmlStatus::Warning);
    assert_eq!(
        paper.page,
        dirty_branded_ar5iv_html(
            content.to_string(),
            "astro-ph/0001016",
            LatexmlStatus::Warning,
            Some("astro-ph/0001015".to_string()),
            Some("astro-ph/0001017".to_string()),
        )
    );
    assert!(paper.page.contains("<img src=\"/html/astro-ph/0001016/assets/x1.png\">"));
    assert!(paper.page.contains("<a href=\"/html/astro-ph/0001015\" class=\"ar5iv-nav-button ar5iv-nav-button-prev\">"));
    assert!(paper.page.contains("<a href=\"/html/astro-ph/0001017\" class=\"ar5iv-nav-button ar5iv-nav-button-next\">"));
    assert!(paper.writes.is_empty());
}

#[test]
fn structural_assembly_gives_the_same_paper() {
    let make = || {
        let mut archive = ConversionArchive::new();
        archive.add_html("<html><head></head><body></body></html>");
        archive.add_log("Error:x");
        archive.add_asset("a.png".to_string(), vec![1]);
        archive
    };
    let dirty = assemble_paper(make(), None, "2101.00001", Some("a;b"), true, false);
    let dom = assemble_paper(make(), None, "2101.00001", Some("a;b"), true, true);
    assert_eq!(dirty, dom);
}

#[test]
fn writes_are_assets_then_report_then_page() {
    let mut archive = ConversionArchive::new();
    archive.add_html("<p>doc</p>");
    archive.add_log("Warning:x\n");
    archive.add_asset("x1.png".to_string(), vec![1, 2, 3]);
    archive.add_asset("empty.png".to_string(), Vec::new());
    archive.add_asset("figs/x2.svg".to_string(), vec![4]);
    let paper = assemble_paper(archive, Some("hep-th"), "9901001", None, true, false);
    assert_eq!(
        paper.writes,
        vec![
            CacheEntry::Binary { key: "hep-th/9901001/x1.png".to_string(), bytes: vec![1, 2, 3] },
            CacheEntry::Binary { key: "hep-th/9901001/figs/x2.svg".to_string(), bytes: vec![4] },
            CacheEntry::Text {
                key: "hep-th/9901001/cortex.log".to_string(),
                text: log_to_html("Warning:x\n", "hep-th/9901001"),
            },
            CacheEntry::Text { key: "hep-th/9901001".to_string(), text: "<p>doc</p>".to_string() },
        ]
    );
    assert_eq!(paper.page, "<p>doc</p>");
}

#[test]
fn nothing_is_written_without_persist() {
    let mut archive = ConversionArchive::new();
    archive.add_html("<p>doc</p>");
    archive.add_log("Warning:x\n");
    archive.add_asset("x1.png".to_string(), vec![1, 2, 3]);
    let paper = assemble_paper(archive, None, "2101.00001", None, false, false);
    assert!(paper.writes.is_empty());
    assert_eq!(paper.page, "<p>doc</p>");
    assert_eq!(paper.status, LatexmlStatus::Warning);
}

#[test]
fn oversized_values_are_served_but_not_written() {
    let mut archive = ConversionArchive::new();
    let big_page = "x".repeat(2_621_441);
    archive.add_html(&big_page);
    archive.add_log(&"y".repeat(2_621_441));
    archive.add_asset("big.bin".to_string(), vec![0u8; 10_485_761]);
    archive.add_asset("fits.bin".to_string(), vec![0u8; 10_485_760]);
    let paper = assemble_paper(archive, None, "2101.00001", None, true, false);
    assert_eq!(paper.page, big_page);
    assert_eq!(paper.status, LatexmlStatus::Okay);
    assert_eq!(
        paper.writes,
        vec![CacheEntry::Binary { key: "2101.00001/fits.bin".to_string(), bytes: vec![0u8; 10_485_760] }]
    );
}

#[test]
fn page_at_the_ceiling_is_written() {
    let mut archive = ConversionArchive::new();
    let page = "x".repeat(2_621_440);
    archive.add_html(&page);
    archive.add_log("ok");
    let paper = assemble_paper(archive, None, "2101.00001", None, true, false);
    assert_eq!(paper.writes.len(), 2);
    assert_eq!(paper.writes[1], CacheEntry::Text { key: "2101.00001".to_string(), text: page });
}

fn entry(name: &str, is_file: bool, content: &[u8]) -> ArchiveEntry {
    ArchiveEntry { name: name.to_string(), is_file, content: content.to_vec() }
}

#[test]
fn entries_are_gathered_by_kind() {
    let archive = extract_all(vec![
        entry("figures/", false, b""),
        entry("x1.png", true, &[1, 2, 3]),
        entry("2101.00001.html", true, "<html>é</html>".as_bytes()),
        entry("empty.png", true, b""),
        entry("cortex.log", true, b"Warning:x\n"),
        entry("figures/x2.svg", true, b"<svg/>"),
    ])
    .unwrap();
    assert_eq!(archive.html_text(), "<html>é</html>");
    assert_eq!(archive.log_text(), "Warning:x\n");
    let paper = assemble_paper(archive, None, "2101.00001", None, true, false);
    assert_eq!(paper.status, LatexmlStatus::Warning);
    assert_eq!(paper.page, "<html lang=\"en\">é</html>");
    assert_eq!(paper.writes.len(), 4);
    assert_eq!(
        paper.writes[0],
        CacheEntry::Binary { key: "2101.00001/x1.png".to_string(), bytes: vec![1, 2, 3] }
    );
    assert_eq!(
        paper.writes[1],
        CacheEntry::Binary { key: "2101.00001/figures/x2.svg".to_string(), bytes: b"<svg/>".to_vec() }
    );
}

#[test]
fn several_documents_are_joined_in_the_order_of_the_entries() {
    let archive = extract_all(vec![
        entry("b.html", true, b"second-in-name "),
        entry("a.html", true, b"first-in-name"),
        entry("cortex.log", true, b"one\n"),
        entry("cortex.log", true, b"two\n"),
    ])
    .unwrap();
    assert_eq!(archive.html_text(), "second-in-name first-in-name");
    assert_eq!(archive.log_text(), "one\ntwo\n");
}

#[test]
fn archive_without_entries_is_empty() {
    let archive = extract_all(Vec::new()).unwrap();
    assert_eq!(archive.html_text(), "");
    assert_eq!(archive.log_text(), "");
}

#[test]
fn document_that_is_no_text_is_refused() {
    let refused = extract_all(vec![
        entry("x1.png", true, &[0xff, 0xfe]),
        entry("doc.html", true, &[b'a', 0xff, b'b']),
        entry("cortex.log", true, &[0xc0]),
    ]);
    assert_eq!(refused.err(), Some(ArchiveFormatError { entry: "doc.html".to_string() }));
}

#[test]
fn log_that_is_no_text_is_refused() {
    let refused = extract_all(vec![
        entry("doc.html", true, b"fine"),
        entry("cortex.log", true, &[0xed, 0xa0, 0x80]),
    ]);
    assert_eq!(refused.err(), Some(ArchiveFormatError { entry: "cortex.log".to_string() }));
}

#[test]
fn bytes_that_are_no_text_are_fine_in_assets_and_directories() {
    let archive = extract_all(vec![
        entry("x1.png", true, &[0xff, 0xfe]),
        entry("dir.html", false, &[0xff]),
    ])
    .unwrap();
    assert_eq!(archive.html_text(), "");
    let paper = assemble_paper(archive, None, "2101.00001", None, true, false);
    assert_eq!(
        paper.writes[0],
        CacheEntry::Binary { key: "2101.00001/x1.png".to_string(), bytes: vec![0xff, 0xfe] }
    );
}
