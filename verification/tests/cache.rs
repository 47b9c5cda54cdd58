use ar5iv::cache::{
    asset_extension, assemble_log_with_cache, assemble_paper_asset_with_cache,
    assemble_paper_with_cache, binary_is_storable, build_arxiv_id, build_asset_key,
    build_report_key, cached_text, get_cached_asset, lucky_address, strip_pdf_ext, strip_version,
    strip_zip_ext, text_is_storable, AssetAction, AssetProgress, LogAction, LogProgress,
    PaperAction, PaperProgress, MISSING_IMAGE, TEN_MIB, TWO_AND_A_HALF_MIB,
};
use ar5iv::dirty_templates::log_to_html;

#[test]
fn arxiv_id_with_and_without_field() {
    assert_eq!(build_arxiv_id(&Some("astro-ph"), "0001016"), "astro-ph/0001016");
    assert_eq!(build_arxiv_id(&None, "2105.04404"), "2105.04404");
    assert_eq!(build_arxiv_id(&Some(""), "1"), "/1");
}

#[test]
fn keys_follow_the_scheme() {
    assert_eq!(build_asset_key(&None, "2105.04404", "x1.png"), "2105.04404/x1.png");
    assert_eq!(
        build_asset_key(&Some("astro-ph"), "0001016", "figs/a.png"),
        "astro-ph/0001016/figs/a.png"
    );
    assert_eq!(build_report_key(&None, "2105.04404"), "2105.04404/cortex.log");
    assert_eq!(build_report_key(&Some("hep-th"), "9901001"), "hep-th/9901001/cortex.log");
}

#[test]
fn version_is_stripped_from_the_end() {
    assert_eq!(strip_version("2101.00001v2"), "2101.00001");
    assert_eq!(strip_version("2101.00001v12"), "2101.00001");
    assert_eq!(strip_version("2101.00001"), "2101.00001");
    assert_eq!(strip_version("2101.00001v123"), "2101.00001v123");
    assert_eq!(strip_version("2101.00001v"), "2101.00001v");
    assert_eq!(strip_version("v1v2"), "v1");
    assert_eq!(strip_version("2101.00001v2x"), "2101.00001v2x");
    assert_eq!(strip_version(""), "");
}

#[test]
fn aliases_are_stripped_from_the_end() {
    assert_eq!(strip_pdf_ext("2101.00001.pdf"), "2101.00001");
    assert_eq!(strip_pdf_ext("2101.00001"), "2101.00001");
    assert_eq!(strip_pdf_ext("a.pdf.pdf"), "a.pdf");
    assert_eq!(strip_pdf_ext("a.pdfx"), "a.pdfx");
    assert_eq!(strip_pdf_ext("aXpdf"), "aXpdf");
    assert_eq!(strip_zip_ext("2101.00001.zip"), "2101.00001");
    assert_eq!(strip_zip_ext("2101.00001.pdf"), "2101.00001.pdf");
}

#[test]
fn text_ceiling_is_two_and_a_half_mebibytes() {
    assert_eq!(TWO_AND_A_HALF_MIB, 2_621_440);
    assert!(text_is_storable(""));
    assert!(text_is_storable(&"a".repeat(2_621_440)));
    assert!(!text_is_storable(&"a".repeat(2_621_441)));
}

#[test]
fn text_ceiling_counts_bytes() {
    let two_bytes_each = "é".repeat(1_310_720);
    assert!(text_is_storable(&two_bytes_each));
    let one_more = format!("{}é", two_bytes_each);
    assert!(!text_is_storable(&one_more));
}

#[test]
fn binary_ceiling_is_ten_mebibytes() {
    assert_eq!(TEN_MIB, 10_485_760);
    assert!(binary_is_storable(&vec![0u8; 10_485_760]));
    assert!(!binary_is_storable(&vec![0u8; 10_485_761]));
    assert!(binary_is_storable(&Vec::new()));
}

#[test]
fn empty_binary_value_is_a_miss() {
    assert_eq!(get_cached_asset(Ok(Vec::new())), Err(()));
}

#[test]
fn binary_hit_and_failure() {
    assert_eq!(get_cached_asset(Ok(vec![1, 2, 3])), Ok(vec![1, 2, 3]));
    assert_eq!(get_cached_asset(Ok(vec![0])), Ok(vec![0]));
    assert_eq!(get_cached_asset(Err(())), Err(()));
}

#[test]
fn text_hit_miss_and_failure() {
    assert_eq!(cached_text(Ok("page".to_string())), Some("page".to_string()));
    assert_eq!(cached_text(Ok(String::new())), None);
    assert_eq!(cached_text(Err(())), None);
}

#[test]
fn extension_is_what_follows_the_last_dot() {
    assert_eq!(asset_extension("x1.png"), "png");
    assert_eq!(asset_extension("a/b.c/d.tar.gz"), "gz");
    assert_eq!(asset_extension("noext"), "noext");
    assert_eq!(asset_extension("trailing."), "");
    assert_eq!(asset_extension(""), "");
}

#[test]
fn paper_is_looked_up_then_served_or_assembled() {
    let first = assemble_paper_with_cache(Some("astro-ph"), "0001016v3", PaperProgress::Requested);
    assert_eq!(
        first,
        PaperAction::LookUp { id: "0001016".to_string(), key: "astro-ph/0001016".to_string() }
    );
    let hit = assemble_paper_with_cache(
        None,
        "2101.00001v1",
        PaperProgress::Answered(Ok("<html>cached</html>".to_string())),
    );
    assert_eq!(hit, PaperAction::Serve { page: "<html>cached</html>".to_string() });
    let empty = assemble_paper_with_cache(None, "2101.00001v1", PaperProgress::Answered(Ok(String::new())));
    assert_eq!(empty, PaperAction::Assemble { id: "2101.00001".to_string() });
    let failed = assemble_paper_with_cache(None, "2101.00001", PaperProgress::Answered(Err(())));
    assert_eq!(failed, PaperAction::Assemble { id: "2101.00001".to_string() });
}

#[test]
fn asset_is_looked_up_first() {
    let first = assemble_paper_asset_with_cache(None, "2101.00001v2", "x1.png", AssetProgress::Requested);
    assert_eq!(
        first,
        AssetAction::LookUp { id: "2101.00001".to_string(), key: "2101.00001/x1.png".to_string() }
    );
    let field = assemble_paper_asset_with_cache(Some("hep-th"), "9901001", "f/g.svg", AssetProgress::Requested);
    assert_eq!(
        field,
        AssetAction::LookUp { id: "9901001".to_string(), key: "hep-th/9901001/f/g.svg".to_string() }
    );
}

#[test]
fn cached_asset_is_served_and_not_stored_again() {
    let hit = assemble_paper_asset_with_cache(
        None,
        "2101.00001",
        "x1.png",
        AssetProgress::Answered(Ok(vec![7, 8])),
    );
    assert_eq!(
        hit,
        AssetAction::Serve { extension: "png".to_string(), asset: vec![7, 8], store_under: None }
    );
}

#[test]
fn asset_miss_leads_to_the_archive() {
    for reply in [Ok(Vec::new()), Err(())] {
        let miss = assemble_paper_asset_with_cache(None, "2101.00001v9", "x1.png", AssetProgress::Answered(reply));
        assert_eq!(miss, AssetAction::Extract { id: "2101.00001".to_string() });
    }
}

#[test]
fn fresh_asset_is_served_and_stored() {
    let fresh = assemble_paper_asset_with_cache(
        Some("math"),
        "0101001v1",
        "fig.jpeg",
        AssetProgress::Extracted(Some(vec![1])),
    );
    assert_eq!(
        fresh,
        AssetAction::Serve {
            extension: "jpeg".to_string(),
            asset: vec![1],
            store_under: Some("math/0101001/fig.jpeg".to_string()),
        }
    );
}

#[test]
fn oversized_asset_is_served_but_not_stored() {
    let big = vec![1u8; 10_485_761];
    let action = assemble_paper_asset_with_cache(None, "2101.00001", "big.bin", AssetProgress::Extracted(Some(big.clone())));
    assert_eq!(
        action,
        AssetAction::Serve { extension: "bin".to_string(), asset: big, store_under: None }
    );
    let at_ceiling = vec![1u8; 10_485_760];
    let action = assemble_paper_asset_with_cache(None, "2101.00001", "big.bin", AssetProgress::Extracted(Some(at_ceiling.clone())));
    assert_eq!(
        action,
        AssetAction::Serve {
            extension: "bin".to_string(),
            asset: at_ceiling,
            store_under: Some("2101.00001/big.bin".to_string()),
        }
    );
}

#[test]
fn absent_or_empty_asset_is_missing() {
    assert_eq!(
        assemble_paper_asset_with_cache(None, "2101.00001", "x.png", AssetProgress::Extracted(None)),
        AssetAction::Missing
    );
    assert_eq!(
        assemble_paper_asset_with_cache(None, "2101.00001", "x.png", AssetProgress::Extracted(Some(Vec::new()))),
        AssetAction::Missing
    );
    assert_eq!(MISSING_IMAGE, "assets/missing_image.png");
}

#[test]
fn report_is_looked_up_then_served_or_extracted() {
    let first = assemble_log_with_cache(Some("hep-th"), "9901001v2", LogProgress::Requested);
    assert_eq!(
        first,
        LogAction::LookUp { id: "9901001".to_string(), key: "hep-th/9901001/cortex.log".to_string() }
    );
    let hit = assemble_log_with_cache(None, "2101.00001", LogProgress::Answered(Ok("report".to_string())));
    assert_eq!(hit, LogAction::Serve { page: "report".to_string(), store_under: None });
    for reply in [Ok(String::new()), Err(())] {
        let miss = assemble_log_with_cache(None, "2101.00001v4", LogProgress::Answered(reply));
        assert_eq!(miss, LogAction::Extract { id: "2101.00001".to_string() });
    }
}

#[test]
fn fresh_report_is_served_and_stored() {
    let action = assemble_log_with_cache(
        Some("hep-th"),
        "9901001v2",
        LogProgress::Extracted(Some("Warning:x\n".to_string())),
    );
    assert_eq!(
        action,
        LogAction::Serve {
            page: log_to_html("Warning:x\n", "hep-th/9901001"),
            store_under: Some("hep-th/9901001/cortex.log".to_string()),
        }
    );
}

#[test]
fn oversized_report_is_served_but_not_stored() {
    let log = "x".repeat(2_621_440);
    let action = assemble_log_with_cache(None, "2101.00001", LogProgress::Extracted(Some(log.clone())));
    assert_eq!(
        action,
        LogAction::Serve { page: log_to_html(&log, "2101.00001"), store_under: None }
    );
}

#[test]
fn paper_without_log_has_no_report() {
    assert_eq!(
        assemble_log_with_cache(None, "2101.00001", LogProgress::Extracted(None)),
        LogAction::Missing
    );
}

#[test]
fn lucky_address_falls_back_to_the_fixed_paper() {
    assert_eq!(lucky_address(Some("2101.00001")), "/html/2101.00001");
    assert_eq!(lucky_address(Some("astro-ph/0001016")), "/html/astro-ph/0001016");
    assert_eq!(lucky_address(None), "/html/1910.06709");
}
