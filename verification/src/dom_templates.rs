//! The served page of a paper, by way of a structural rewrite.

use crate::assemble_asset::LatexmlStatus;
use crate::dirty_templates::{branded_page, dirty_branded_ar5iv_html, unmarked};
use vstd::prelude::*;

verus! {

/// Turns the HTML of a conversion into the page that is served. The page is
/// the one that the rewrite by text patterns gives: the two ways of branding
/// answer to the same substitutions.
pub fn branded_ar5iv_html(
    main_content: String,
    id_arxiv: &str,
    status: LatexmlStatus,
    prev: Option<String>,
    next: Option<String>,
) -> (page: String)
    ensures
        page@ == branded_page(
            main_content@,
            id_arxiv@,
            status,
            prev.deep_view(),
            next.deep_view(),
        ),
        main_content@.len() > 0 && unmarked(main_content@) ==> page@ == main_content@,
{
    dirty_branded_ar5iv_html(main_content, id_arxiv, status, prev, next)
}

} // verus!
