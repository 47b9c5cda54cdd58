//! Names and texts that the served pages are built from.

use vstd::prelude::*;

verus! {

/// The name of the diagnostic log inside a conversion archive.
pub const LOG_FILENAME: &'static str = "cortex.log";

/// The stylesheet of converted documents.
pub const AR5IV_CSS_URL: &'static str = "/assets/ar5iv.0.7.6.min.css";

/// The stylesheet of the site's own pages.
pub const SITE_CSS_URL: &'static str = "/assets/ar5iv-site.0.2.1.css";

/// What the site tells crawlers: the reports are not to be indexed.
pub const ROBOTS_TXT: &'static str = "User-agent: *\nDisallow: /log/\n";

/// The page that stands in for a paper whose archive held no HTML.
pub const DOC_NOT_FOUND_TEMPLATE: &'static str = r###"<!DOCTYPE html>
<html lang="en">
<head>
    <meta http-equiv="Content-Type" content="text/html" />
    <meta charset="utf-8" />
    <title> No content available </title>
    <meta name="language" content="English">
    <meta name="viewport" content="width=device-width, initial-scale=1.0">
</head>
<body>
    <div class="ltx_page_main">
      <div class="ltx_page_content">
        <article class="ltx_document">
        </article>
      </div>
      <footer class="ltx_page_footer"></footer>
    </div>
</body>
</html>
"###;

} // verus!
