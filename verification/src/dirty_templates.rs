//! The served pages as text: the branded page of a paper and the page that
//! shows its conversion report.

use crate::assemble_asset::LatexmlStatus;
use crate::constants::{AR5IV_CSS_URL, DOC_NOT_FOUND_TEMPLATE, SITE_CSS_URL};
use crate::pattern::{
    finds_nothing, group, group_text, regex_captures, replace_fixed, rewritten, scan, weave,
    with_fixed,
};
use crate::text::{
    chars_of, contains_chars, contains_text, joined, joined_upto, prefix_at, replace_first,
    replaced_first, rows, split_chars, split_on, starts_with, text_of,
};
use vstd::prelude::*;

verus! {

/// The closing tag of the article.
pub const END_ARTICLE: &'static str = "</article>";

/// The closing tag of the head.
pub const END_HEAD: &'static str = "</head>";

/// The closing tag of the body.
pub const END_BODY: &'static str = "</body>";

/// The opening tag of the footer.
pub const START_FOOTER: &'static str = "<footer class=\"ltx_page_footer\">";

/// The title element, its text captured.
pub const TITLE_ELEMENT: &'static str = "<title>([^<]+)</title>";

/// A `src` attribute, its value captured.
pub const SRC_ATTR: &'static str = " src=\"([^\"]+)";

/// A `data` attribute that names an SVG file, the name captured without its
/// ending.
pub const DATA_SVG_ATTR: &'static str = " data=\"([^\"]+)[.]svg";

/// A hyperlink that leaves the site.
pub const EXTERNAL_HREF: &'static str = " href=\"http";

/// The end of the link to the previous paper.
pub const PREV_BUTTON: &'static str = "\" class=\"ar5iv-nav-button ar5iv-nav-button-prev\">◄</a>";

/// The end of the link to the next paper.
pub const NEXT_BUTTON: &'static str = "\" class=\"ar5iv-nav-button ar5iv-nav-button-next\">►</a>";

/// What follows the rewritten title element: the preview card, up to the title it names.
pub const TITLE_CARD: &'static str = r###"
<meta name="twitter:card" content="summary">
<meta name="twitter:title" content=""###;

/// The card's image, up to the title of the article.
pub const TITLE_CARD_IMAGE: &'static str = r###"">
<meta name="twitter:image:src" content="https://ar5iv.org/assets/ar5iv_card.png">
<meta name="twitter:image:alt" content="ar5iv logo">
<meta property="og:title" content=""###;

/// The site the article belongs to, up to the id in the article's address.
pub const TITLE_CARD_SITE: &'static str = r###"">
<meta property="og:site_name" content="ar5iv">
<meta property="og:image" content="https://ar5iv.org/assets/ar5iv_card.png">
<meta property="og:type" content="article">
<meta property="og:url" content="https://ar5iv.org/html/"###;

/// The end of the preview card.
pub const TITLE_CARD_END: &'static str = r###"">
"###;

/// The paragraph that warns readers of a conversion that ended fatally, and the closing tag it is put before.
pub const FATAL_NOTE: &'static str = r###"
<div class="ltx_document"><div class="ltx_para"><div class="ltx_p"><span class="ltx_ERROR">
Conversion to HTML had a Fatal error and exited abruptly. This document may be truncated or damaged.
</span></div></div></div>
</article>
"###;

/// The footer's links to the home page and to a random paper, up to the id in the address of the report.
pub const FOOTER_HOME: &'static str = r###"
    <a class="ar5iv-home-button" href="/"><img height="40" alt="ar5iv homepage" src="/assets/ar5iv.png"></a>
    <a href="/feeling_lucky" class="ar5iv-text-button">Feeling<br>lucky?</a>
    <a href="/log/"###;

/// Between the report's address and the class of its status.
pub const FOOTER_REPORT_CLASS: &'static str = r###"" class="ar5iv-text-button "###;

/// The text of the report link, up to the id in the address of the original.
pub const FOOTER_ORIGINAL: &'static str = r###"">Conversion<br>report</a>
    <a href="https://arxiv.org/abs/"###;

/// The text of the link to the original.
pub const FOOTER_ORIGINAL_END: &'static str = r###"" class="ar5iv-text-button arxiv-ui-theme">View&nbsp;original<br>on&nbsp;arXiv</a>"###;

/// The end of the generated block: the footer's own opening tag and the switch of the colour scheme.
pub const FOOTER_END: &'static str = r###"
</div><footer class="ltx_page_footer">
<a class="ar5iv-toggle-color-scheme" href="javascript:toggleColorScheme()" title="Toggle ar5iv color scheme"><span class="color-scheme-icon"></span></a>
"###;

/// The scripts of a served page (a loader for rendering mathematics where the browser cannot, the colour scheme that is kept between visits, the preview of a citation), and the closing tag they are put before.
pub const ACTIVE_JS: &'static str = r###"
    <script>
      var canMathML = typeof(MathMLElement) == "function";
      if (!canMathML) {
        var body = document.querySelector("body");
        body.firstElementChild.setAttribute('style', 'opacity: 0;');
        var loading = document.createElement("div");
        loading.setAttribute("id", "mathjax-loading-spinner");
        var message = document.createElement("div");
        message.setAttribute("id", "mathjax-loading-message");
        message.innerText = "Typesetting Equations...";
        body.prepend(loading);
        body.prepend(message);

        var el = document.createElement("script");
        el.src = "https://cdn.jsdelivr.net/npm/mathjax@3/es5/tex-mml-chtml.js";
        document.querySelector("head").appendChild(el);

        window.MathJax = {
          startup: {
            pageReady: () => {
              return MathJax.startup.defaultPageReady().then(() => {
                body.removeChild(loading);
                body.removeChild(message);
                body.firstElementChild.removeAttribute('style');
              }); } } };
      }      
    </script>
    <script>
      function detectColorScheme(){
        var theme="light";
        var current_theme = localStorage.getItem("ar5iv_theme");
        if(current_theme){
          if(current_theme == "dark"){
            theme = "dark";
          } }
        else if(!window.matchMedia) { return false; }
        else if(window.matchMedia("(prefers-color-scheme: dark)").matches) {
          theme = "dark"; }
        if (theme=="dark") {
          document.documentElement.setAttribute("data-theme", "dark");
        } else {
          document.documentElement.setAttribute("data-theme", "light"); } }
      
      detectColorScheme();
      
      function toggleColorScheme(){
        var current_theme = localStorage.getItem("ar5iv_theme");
        if (current_theme) {
          if (current_theme == "light") {
            localStorage.setItem("ar5iv_theme", "dark"); }
          else {
            localStorage.setItem("ar5iv_theme", "light"); } }
        else {
            localStorage.setItem("ar5iv_theme", "dark"); }
        detectColorScheme(); }
    </script>
    <script>
    // Auxiliary function, building the preview feature when
    // an inline citation is clicked
    function clicked_cite(e) {
      e.preventDefault();
      let cite = this.closest('.ltx_cite');
      let next = cite.nextSibling;
      if (next && next.nodeType == Node.ELEMENT_NODE && next.getAttribute('class') == "ar5iv-bibitem-preview") {
        next.remove();
        return; }
      // Before adding a preview modal,
      // cleanup older previews, in case they're still open
      document.querySelectorAll('span.ar5iv-bibitem-preview').forEach(function(node) {
        node.remove();
      })
      
      // Create the preview
      preview = document.createElement('span');
      preview.setAttribute('class','ar5iv-bibitem-preview');
      let target = document.getElementById(this.getAttribute('href').slice(1));
      target.childNodes.forEach(function (child) {
        preview.append(child.cloneNode(true));
      });
      let close_x = document.createElement('button');
      close_x.setAttribute("aria-label","Close modal for bibliography item preview");
      close_x.textContent = "×";
      close_x.setAttribute('class', 'ar5iv-button-close-preview');
      close_x.setAttribute('onclick','this.parentNode.remove()');
      preview.append(close_x);
      preview.querySelectorAll('.ltx_tag_bibitem').forEach(function(node) {
        node.remove();
      });
      cite.parentNode.insertBefore(preview, cite.nextSibling);
      return;
    }
    // Global Document initialization:
    // - assign the preview feature to all inline citation links
    document.querySelectorAll(".ltx_cite .ltx_ref").forEach(function (link) {
      link.addEventListener("click", clicked_cite);
    });
    </script>
    </body>"###;

/// The start of a report page, up to the id in its title.
pub const REPORT_HEAD: &'static str = r###"<!DOCTYPE html><html>
<head>
<title>Conversion report for arXiv article "###;

/// From the title of a report page to the address of its stylesheet.
pub const REPORT_STYLE: &'static str = r###"</title>
<meta http-equiv="Content-Type" content="text/html; charset=UTF-8">
<meta name="robots" content="noindex">
<link media="all" rel="stylesheet" href=""###;

/// From the stylesheet of a report page to the id in the address of the paper.
pub const REPORT_BODY: &'static str = r###"">
</head>
<body>
<div class="ltx_page_main">
<div class="ltx_page_content">
<article class="ltx_document ltx_authors_1line">
  <section id="latexml-conversion-report" class="ltx_section ltx_conversion_report">
    <h2 class="ltx_title ltx_title_section">LaTeXML conversion report (<a class="ltx_ref" href="/html/"###;

/// From the paper's id in the heading of a report page to its first line.
pub const REPORT_LINES: &'static str = r###"</a>)</h2>
    <div id="S1.p1" class="ltx_para">
      <p class="ltx_p">
"###;

/// The end of a report page.
pub const REPORT_END: &'static str = r###"
      </p>
    </div>
  </section>
</article>
</div></div>
</body>
</html>"###;

/// A value that names a resource outside the paper: a data URL or a remote
/// address.
pub open spec fn is_remote(value: Seq<char>) -> bool {
    starts_with(value, "data:"@) || starts_with(value, "http"@)
}

/// The address under which a paper's page reaches an asset: the value itself
/// where it is remote, else the absolute path of the asset under the paper.
pub open spec fn asset_address(id: Seq<char>, value: Seq<char>) -> Seq<char> {
    if is_remote(value) {
        value
    } else {
        "/html/"@ + id + "/assets/"@ + value
    }
}

/// For each match the attribute again, with the captured value turned into
/// the asset's address.
pub open spec fn asset_replacements(
    found: Seq<Seq<Option<Seq<char>>>>,
    attr: Seq<char>,
    suffix: Seq<char>,
    id: Seq<char>,
) -> Seq<Seq<char>> {
    Seq::new(found.len(), |i: int| attr + asset_address(id, group(found[i], 1)) + suffix)
}

/// `text` with the value of every attribute that `pattern` matches turned
/// into the asset's address.
pub open spec fn with_asset_addresses(
    pattern: Seq<char>,
    text: Seq<char>,
    attr: Seq<char>,
    suffix: Seq<char>,
    id: Seq<char>,
) -> Seq<char> {
    rewritten(
        pattern,
        text,
        asset_replacements(regex_captures(pattern, text), attr, suffix, id),
    )
}

/// The title element of a served page, with the paper's id in brackets before
/// the title, and the preview card that follows it.
pub open spec fn title_block(id: Seq<char>, title: Seq<char>) -> Seq<char> {
    "<title>["@ + id + "] "@ + title + "</title>"@ + TITLE_CARD@ + title + TITLE_CARD_IMAGE@
        + title + TITLE_CARD_SITE@ + id + TITLE_CARD_END@
}

/// The rewritten title in the place of the first match; every later match
/// stays as it is.
pub open spec fn title_replacements(found: Seq<Seq<Option<Seq<char>>>>, id: Seq<char>) -> Seq<
    Seq<char>,
> {
    Seq::new(
        found.len(),
        |i: int|
            if i > 0 {
                group(found[i], 0)
            } else {
                title_block(id, group(found[i], 1))
            },
    )
}

/// `text` with its first title element rewritten.
pub open spec fn with_title(text: Seq<char>, id: Seq<char>) -> Seq<char> {
    rewritten(TITLE_ELEMENT@, text, title_replacements(regex_captures(TITLE_ELEMENT@, text), id))
}

/// A navigation link: to the page of `target`, or one that leads nowhere
/// where there is no such paper.
pub open spec fn nav_link(target: Option<Seq<char>>, button: Seq<char>) -> Seq<char> {
    match target {
        Some(id) => "<a href=\"/html/"@ + id + button,
        None => "<a href=\"javascript: void(0)"@ + button,
    }
}

/// The block that takes the place of the footer's opening tag: the links to
/// the previous and the next paper, to the home page, to a random paper, to
/// the conversion report in the class of its status, and to the original.
pub open spec fn footer_block(
    id: Seq<char>,
    status: LatexmlStatus,
    prev: Option<Seq<char>>,
    next: Option<Seq<char>>,
) -> Seq<char> {
    "<div class=\"ar5iv-footer\">"@ + nav_link(prev, PREV_BUTTON@) + FOOTER_HOME@ + id
        + FOOTER_REPORT_CLASS@ + status.css_class() + FOOTER_ORIGINAL@ + id + FOOTER_ORIGINAL_END@
        + nav_link(next, NEXT_BUTTON@) + FOOTER_END@
}

/// The links to the stylesheets, and the closing tag they are put before.
pub open spec fn css_block() -> Seq<char> {
    "<link media=\"all\" rel=\"stylesheet\" href=\""@ + AR5IV_CSS_URL@
        + "\"><link media=\"all\" rel=\"stylesheet\" href=\""@ + SITE_CSS_URL@ + "\">\n</head>"@
}

/// The document that the rewrites start from: the placeholder where the
/// archive held no HTML, else the HTML with the language set on the root
/// element and the title rewritten.
pub open spec fn page_base(content: Seq<char>, id: Seq<char>) -> Seq<char> {
    if content.len() == 0 {
        DOC_NOT_FOUND_TEMPLATE@
    } else {
        with_title(replaced_first(content, "<html>"@, "<html lang=\"en\">"@), id)
    }
}

/// The page before anything that depends on the status or the neighbours:
/// asset addresses made absolute and outside links opening in a new context.
pub open spec fn page_with_addresses(content: Seq<char>, id: Seq<char>) -> Seq<char> {
    let base = page_base(content, id);
    let sources = with_asset_addresses(SRC_ATTR@, base, " src=\""@, ""@, id);
    let objects = with_asset_addresses(DATA_SVG_ATTR@, sources, " data=\""@, ".svg"@, id);
    with_fixed(EXTERNAL_HREF@, objects, " target=\"_blank\" href=\"http"@, false)
}

/// The page with the note on a fatal conversion before the end of the
/// article; unchanged for any other status.
pub open spec fn page_with_note(page: Seq<char>, status: LatexmlStatus) -> Seq<char> {
    if status == LatexmlStatus::Fatal {
        with_fixed(END_ARTICLE@, page, FATAL_NOTE@, true)
    } else {
        page
    }
}

/// No rewrite finds its marker in the document.
pub open spec fn unmarked(content: Seq<char>) -> bool {
    &&& !contains_text(content, "<html>"@)
    &&& finds_nothing(TITLE_ELEMENT@, content)
    &&& finds_nothing(SRC_ATTR@, content)
    &&& finds_nothing(DATA_SVG_ATTR@, content)
    &&& finds_nothing(EXTERNAL_HREF@, content)
    &&& finds_nothing(END_ARTICLE@, content)
    &&& finds_nothing(START_FOOTER@, content)
    &&& finds_nothing(END_HEAD@, content)
    &&& finds_nothing(END_BODY@, content)
}

/// The served page of a paper: the rewrites of the document in their fixed
/// order. A rewrite whose pattern finds nothing changes nothing.
pub open spec fn branded_page(
    content: Seq<char>,
    id: Seq<char>,
    status: LatexmlStatus,
    prev: Option<Seq<char>>,
    next: Option<Seq<char>>,
) -> Seq<char> {
    let noted = page_with_note(page_with_addresses(content, id), status);
    let footed = with_fixed(START_FOOTER@, noted, footer_block(id, status, prev, next), true);
    let styled = with_fixed(END_HEAD@, footed, css_block(), true);
    with_fixed(END_BODY@, styled, ACTIVE_JS@, true)
}

/// The address under which a paper's page reaches an asset.
pub fn asset_address_of(id: &str, value: &str) -> (r: String)
    ensures
        r@ == asset_address(id@, value@),
{
    let v = chars_of(value);
    let data = chars_of("data:");
    let http = chars_of("http");
    if prefix_at(&v, 0, &data) || prefix_at(&v, 0, &http) {
        value.to_owned()
    } else {
        let mut out = String::from_str("/html/");
        out.append(id);
        out.append("/assets/");
        out.append(value);
        out
    }
}

/// For each match the attribute again, with the captured value turned into
/// the asset's address.
pub fn replace_asset_refs(
    found: &Vec<Vec<Option<String>>>,
    attr: &str,
    suffix: &str,
    id: &str,
) -> (r: Vec<String>)
    ensures
        r.deep_view() == asset_replacements(found.deep_view(), attr@, suffix@, id@),
{
    let mut reps: Vec<String> = Vec::new();
    let mut i: usize = 0;
    while i < found.len()
        invariant
            i <= found.len(),
            reps.len() == i,
            forall|j: int|
                0 <= j < i ==> (#[trigger] reps@[j])@ == asset_replacements(
                    found.deep_view(),
                    attr@,
                    suffix@,
                    id@,
                )[j],
        decreases found.len() - i,
    {
        let address = asset_address_of(id, group_text(&found[i], 1));
        let mut rep = attr.to_owned();
        rep.append(address.as_str());
        rep.append(suffix);
        reps.push(rep);
        i += 1;
    }
    assert(reps.deep_view() =~= asset_replacements(found.deep_view(), attr@, suffix@, id@));
    reps
}

/// `text` with the value of every attribute that `pattern` matches turned
/// into the asset's address.
pub fn rewrite_asset_refs(pattern: &str, text: &str, attr: &str, suffix: &str, id: &str) -> (r:
    String)
    ensures
        r@ == with_asset_addresses(pattern@, text@, attr@, suffix@, id@),
        finds_nothing(pattern@, text@) ==> r@ == text@,
{
    match scan(pattern, text) {
        Some(s) => {
            let reps = replace_asset_refs(&s.found, attr, suffix, id);
            weave(&s.gaps, &reps)
        },
        None => text.to_owned(),
    }
}

/// The title element of a served page and the preview card that follows it.
pub fn title_block_of(id: &str, title: &str) -> (r: String)
    ensures
        r@ == title_block(id@, title@),
{
    let mut out = String::from_str("<title>[");
    out.append(id);
    out.append("] ");
    out.append(title);
    out.append("</title>");
    out.append(TITLE_CARD);
    out.append(title);
    out.append(TITLE_CARD_IMAGE);
    out.append(title);
    out.append(TITLE_CARD_SITE);
    out.append(id);
    out.append(TITLE_CARD_END);
    out
}

/// The rewritten title in the place of the first match; every later match
/// stays as it is.
pub fn replace_title(found: &Vec<Vec<Option<String>>>, id: &str) -> (r: Vec<String>)
    ensures
        r.deep_view() == title_replacements(found.deep_view(), id@),
{
    let mut reps: Vec<String> = Vec::new();
    let mut i: usize = 0;
    while i < found.len()
        invariant
            i <= found.len(),
            reps.len() == i,
            forall|j: int|
                0 <= j < i ==> (#[trigger] reps@[j])@ == title_replacements(
                    found.deep_view(),
                    id@,
                )[j],
        decreases found.len() - i,
    {
        let rep = if i > 0 {
            group_text(&found[i], 0).to_owned()
        } else {
            title_block_of(id, group_text(&found[i], 1))
        };
        reps.push(rep);
        i += 1;
    }
    assert(reps.deep_view() =~= title_replacements(found.deep_view(), id@));
    reps
}

/// `text` with its first title element rewritten.
pub fn rewrite_title(text: &str, id: &str) -> (r: String)
    ensures
        r@ == with_title(text@, id@),
        finds_nothing(TITLE_ELEMENT@, text@) ==> r@ == text@,
{
    match scan(TITLE_ELEMENT, text) {
        Some(s) => {
            let reps = replace_title(&s.found, id);
            weave(&s.gaps, &reps)
        },
        None => text.to_owned(),
    }
}

/// A navigation link to the page of `target`, or one that leads nowhere.
pub fn nav_link_of(target: &Option<String>, button: &str) -> (r: String)
    ensures
        r@ == nav_link(target.deep_view(), button@),
{
    match target {
        Some(id) => {
            let mut out = String::from_str("<a href=\"/html/");
            out.append(id.as_str());
            out.append(button);
            out
        },
        None => {
            let mut out = String::from_str("<a href=\"javascript: void(0)");
            out.append(button);
            out
        },
    }
}

/// The block that takes the place of the footer's opening tag.
pub fn footer_block_of(
    id: &str,
    status: LatexmlStatus,
    prev: &Option<String>,
    next: &Option<String>,
) -> (r: String)
    ensures
        r@ == footer_block(id@, status, prev.deep_view(), next.deep_view()),
{
    let prev_link = nav_link_of(prev, PREV_BUTTON);
    let next_link = nav_link_of(next, NEXT_BUTTON);
    let mut out = String::from_str("<div class=\"ar5iv-footer\">");
    out.append(prev_link.as_str());
    out.append(FOOTER_HOME);
    out.append(id);
    out.append(FOOTER_REPORT_CLASS);
    out.append(status.as_css_class());
    out.append(FOOTER_ORIGINAL);
    out.append(id);
    out.append(FOOTER_ORIGINAL_END);
    out.append(next_link.as_str());
    out.append(FOOTER_END);
    out
}

/// The links to the stylesheets, and the closing tag they are put before.
pub fn css_block_of() -> (r: String)
    ensures
        r@ == css_block(),
{
    let mut out = String::from_str("<link media=\"all\" rel=\"stylesheet\" href=\"");
    out.append(AR5IV_CSS_URL);
    out.append("\"><link media=\"all\" rel=\"stylesheet\" href=\"");
    out.append(SITE_CSS_URL);
    out.append("\">\n</head>");
    out
}

/// Turns the HTML of a conversion into the page that is served: a fixed
/// sequence of rewrites, each of which leaves the document as it is where its
/// pattern finds nothing. An empty document gives the placeholder page, with
/// the same footer, stylesheets and scripts.
pub fn dirty_branded_ar5iv_html(
    main_content: String,
    id_arxiv: &str,
    status: LatexmlStatus,
    prev: Option<String>,
    next: Option<String>,
) -> (page: String)
    ensures
        page@ == branded_page(
            main_content@,
            id_arxiv@,
            status,
            prev.deep_view(),
            next.deep_view(),
        ),
        main_content@.len() > 0 && unmarked(main_content@) ==> page@ == main_content@,
{
    let base = if main_content.as_str().is_empty() {
        DOC_NOT_FOUND_TEMPLATE.to_owned()
    } else {
        let rooted = replace_first(main_content.as_str(), "<html>", "<html lang=\"en\">");
        rewrite_title(rooted.as_str(), id_arxiv)
    };
    let sources = rewrite_asset_refs(SRC_ATTR, base.as_str(), " src=\"", "", id_arxiv);
    let objects = rewrite_asset_refs(DATA_SVG_ATTR, sources.as_str(), " data=\"", ".svg", id_arxiv);
    let linked = replace_fixed(
        EXTERNAL_HREF,
        objects.as_str(),
        " target=\"_blank\" href=\"http",
        false,
    );
    let noted = if status == LatexmlStatus::Fatal {
        replace_fixed(END_ARTICLE, linked.as_str(), FATAL_NOTE, true)
    } else {
        linked
    };
    let footer = footer_block_of(id_arxiv, status, &prev, &next);
    let footed = replace_fixed(START_FOOTER, noted.as_str(), footer.as_str(), true);
    let css = css_block_of();
    let styled = replace_fixed(END_HEAD, footed.as_str(), css.as_str(), true);
    replace_fixed(END_BODY, styled.as_str(), ACTIVE_JS, true)
}

/// What stands between two lines of a report.
pub const LINE_BREAK: &'static str = "<br>\n";

/// A line with each tab replaced by a wide space.
pub open spec fn tabs_expanded(line: Seq<char>) -> Seq<char>
    decreases line.len(),
{
    if line.len() == 0 {
        Seq::empty()
    } else if line.last() == '\t' {
        tabs_expanded(line.drop_last()) + "&emsp;"@
    } else {
        tabs_expanded(line.drop_last()).push(line.last())
    }
}

/// A line set off in a paragraph of its own, in the class of its severity.
pub open spec fn highlighted(class: Seq<char>, line: Seq<char>) -> Seq<char> {
    "</p><p class=\"ltx_p\"><span class=\""@ + class + "\">"@ + line + "</span>"@
}

/// The class in which a line of a report is set off, if it is: that of its
/// marker, and for a line that sums up a stage the worst kind of message that
/// it counts.
pub open spec fn line_class(line: Seq<char>) -> Option<Seq<char>> {
    if starts_with(line, "Warning:"@) {
        Some("ltx_WARNING"@)
    } else if starts_with(line, "Error:"@) {
        Some("ltx_ERROR"@)
    } else if starts_with(line, "Info:"@) {
        Some("ltx_INFO"@)
    } else if starts_with(line, "Fatal:"@) {
        Some("ltx_FATAL"@)
    } else if starts_with(line, "Conversion complete:"@) || starts_with(
        line,
        "Post-processing complete:"@,
    ) {
        if contains_text(line, " fatal"@) {
            Some("ltx_FATAL"@)
        } else if contains_text(line, " error"@) {
            Some("ltx_ERROR"@)
        } else if contains_text(line, " warning"@) {
            Some("ltx_WARNING"@)
        } else {
            Some("ltx_INFO"@)
        }
    } else {
        None
    }
}

/// A line of a report as it is shown: tabs expanded, and set off where the
/// line has a class.
pub open spec fn report_line(line: Seq<char>) -> Seq<char> {
    let shown = tabs_expanded(line);
    match line_class(shown) {
        Some(class) => highlighted(class, shown),
        None => shown,
    }
}

/// The lines of a report as they are shown.
pub open spec fn report_lines(report: Seq<char>) -> Seq<Seq<char>> {
    let lines = split_on(report, '\n');
    Seq::new(lines.len(), |i: int| report_line(lines[i]))
}

/// The page that shows the conversion report of a paper.
pub open spec fn report_page(report: Seq<char>, id: Seq<char>) -> Seq<char> {
    REPORT_HEAD@ + id + REPORT_STYLE@ + AR5IV_CSS_URL@ + REPORT_BODY@ + id + "\">"@ + id
        + REPORT_LINES@ + joined(report_lines(report), LINE_BREAK@) + REPORT_END@
}

/// The markers by which the lines of a report are told apart.
struct ReportMarks {
    warning: Vec<char>,
    error: Vec<char>,
    info: Vec<char>,
    fatal: Vec<char>,
    conversion: Vec<char>,
    post_processing: Vec<char>,
    any_fatal: Vec<char>,
    any_error: Vec<char>,
    any_warning: Vec<char>,
}

impl ReportMarks {
    /// Each field holds the marker it is named after.
    spec fn wf(&self) -> bool {
        &&& self.warning@ == "Warning:"@
        &&& self.error@ == "Error:"@
        &&& self.info@ == "Info:"@
        &&& self.fatal@ == "Fatal:"@
        &&& self.conversion@ == "Conversion complete:"@
        &&& self.post_processing@ == "Post-processing complete:"@
        &&& self.any_fatal@ == " fatal"@
        &&& self.any_error@ == " error"@
        &&& self.any_warning@ == " warning"@
    }

    /// The markers, each as a list of characters.
    fn new() -> (r: ReportMarks)
        ensures
            r.wf(),
    {
        ReportMarks {
            warning: chars_of("Warning:"),
            error: chars_of("Error:"),
            info: chars_of("Info:"),
            fatal: chars_of("Fatal:"),
            conversion: chars_of("Conversion complete:"),
            post_processing: chars_of("Post-processing complete:"),
            any_fatal: chars_of(" fatal"),
            any_error: chars_of(" error"),
            any_warning: chars_of(" warning"),
        }
    }
}

/// A line with each tab replaced by a wide space.
fn expand_tabs(line: &Vec<char>) -> (r: Vec<char>)
    ensures
        r@ == tabs_expanded(line@),
{
    let mut out: Vec<char> = Vec::new();
    let mut i: usize = 0;
    while i < line.len()
        invariant
            i <= line.len(),
            out@ == tabs_expanded(line@.take(i as int)),
        decreases line.len() - i,
    {
        proof {
            reveal_strlit("&emsp;");
            assert(line@.take(i + 1).drop_last() == line@.take(i as int));
        }
        if line[i] == '\t' {
            let ghost before = out@;
            out.push('&');
            out.push('e');
            out.push('m');
            out.push('s');
            out.push('p');
            out.push(';');
            assert(out@ == before + "&emsp;"@);
        } else {
            out.push(line[i]);
        }
        i += 1;
    }
    assert(line@.take(line.len() as int) == line@);
    out
}

/// The class in which a line of a report is set off, if it is.
fn class_of_line(line: &Vec<char>, marks: &ReportMarks) -> (r: Option<&'static str>)
    requires
        marks.wf(),
    ensures
        match r {
            Some(class) => line_class(line@) == Some(class@),
            None => line_class(line@) is None,
        },
{
    if prefix_at(line, 0, &marks.warning) {
        Some("ltx_WARNING")
    } else if prefix_at(line, 0, &marks.error) {
        Some("ltx_ERROR")
    } else if prefix_at(line, 0, &marks.info) {
        Some("ltx_INFO")
    } else if prefix_at(line, 0, &marks.fatal) {
        Some("ltx_FATAL")
    } else if prefix_at(line, 0, &marks.conversion) || prefix_at(line, 0, &marks.post_processing) {
        if contains_chars(line, &marks.any_fatal) {
            Some("ltx_FATAL")
        } else if contains_chars(line, &marks.any_error) {
            Some("ltx_ERROR")
        } else if contains_chars(line, &marks.any_warning) {
            Some("ltx_WARNING")
        } else {
            Some("ltx_INFO")
        }
    } else {
        None
    }
}

/// A line of a report as it is shown.
fn show_line(line: &Vec<char>, marks: &ReportMarks) -> (r: String)
    requires
        marks.wf(),
    ensures
        r@ == report_line(line@),
{
    let shown = expand_tabs(line);
    let text = text_of(&shown);
    match class_of_line(&shown, marks) {
        Some(class) => {
            let mut out = String::from_str("</p><p class=\"ltx_p\"><span class=\"");
            out.append(class);
            out.append("\">");
            out.append(text.as_str());
            out.append("</span>");
            out
        },
        None => text,
    }
}

/// The page that shows the conversion report of a paper: its lines in order,
/// tabs widened, the lines that carry a message set off in the class of its
/// severity.
pub fn log_to_html(conversion_report: &str, id_arxiv: &str) -> (page: String)
    ensures
        page@ == report_page(conversion_report@, id_arxiv@),
{
    let report = chars_of(conversion_report);
    let lines = split_chars(&report, '\n');
    let marks = ReportMarks::new();
    let mut out = String::from_str(REPORT_HEAD);
    out.append(id_arxiv);
    out.append(REPORT_STYLE);
    out.append(AR5IV_CSS_URL);
    out.append(REPORT_BODY);
    out.append(id_arxiv);
    out.append("\">");
    out.append(id_arxiv);
    out.append(REPORT_LINES);
    let ghost head = out@;
    let ghost shown = report_lines(conversion_report@);
    let mut i: usize = 0;
    while i < lines.len()
        invariant
            i <= lines.len(),
            marks.wf(),
            rows(lines@) == split_on(conversion_report@, '\n'),
            shown == report_lines(conversion_report@),
            out@ == head + joined_upto(shown, LINE_BREAK@, i as int),
        decreases lines.len() - i,
    {
        let line = show_line(&lines[i], &marks);
        assert(line@ == shown[i as int]) by {
            assert(rows(lines@)[i as int] == lines@[i as int]@);
        }
        if i > 0 {
            out.append(LINE_BREAK);
        }
        out.append(line.as_str());
        i += 1;
        assert(out@ == head + joined_upto(shown, LINE_BREAK@, i as int));
    }
    assert(shown.len() == lines.len()) by {
        assert(rows(lines@).len() == lines@.len());
    }
    out.append(REPORT_END);
    out
}

} // verus!
