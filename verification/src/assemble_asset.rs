//! Assembling a paper from what its conversion archive holds: the severity of
//! the conversion, the place of the archive on disk, and the page itself.

use crate::cache::{
    arxiv_id, binary_fits, binary_is_storable, build_arxiv_id, entry_views, text_fits,
    text_is_storable, CacheEntry, CacheEntryView,
};
use crate::constants::LOG_FILENAME;
use crate::dirty_templates::{branded_page, dirty_branded_ar5iv_html, log_to_html, report_page};
use crate::dom_templates::branded_ar5iv_html;
use crate::paper_order::{adjacent_papers, next_of, prev_of};
use crate::text::{
    chars_of, ends_with, has_prefix_at, prefix_at, suffix_of, text_from_utf8, text_of_range,
};
use vstd::prelude::*;
use vstd::utf8::{decode_utf8, encode_utf8_decode_utf8, valid_utf8};

verus! {

/// How a conversion ended, from best to worst.
#[derive(Debug, Clone, Copy, PartialEq, Eq, PartialOrd, Structural)]
pub enum LatexmlStatus {
    Okay,
    Warning,
    Error,
    Fatal,
}

impl LatexmlStatus {
    /// The place of a status in the order `Okay < Warning < Error < Fatal`.
    pub open spec fn rank(self) -> nat {
        match self {
            LatexmlStatus::Okay => 0,
            LatexmlStatus::Warning => 1,
            LatexmlStatus::Error => 2,
            LatexmlStatus::Fatal => 3,
        }
    }

    /// The worse of two statuses.
    pub open spec fn worse(self, other: LatexmlStatus) -> LatexmlStatus {
        if self.rank() >= other.rank() {
            self
        } else {
            other
        }
    }

    /// The class that styles the link to the conversion report.
    pub open spec fn css_class(self) -> Seq<char> {
        match self {
            LatexmlStatus::Okay => "ar5iv-severity-ok"@,
            LatexmlStatus::Warning => "ar5iv-severity-warning"@,
            LatexmlStatus::Error => "ar5iv-severity-error"@,
            LatexmlStatus::Fatal => "ar5iv-severity-fatal"@,
        }
    }

    /// The class that styles the link to the conversion report.
    pub fn as_css_class(&self) -> (class: &'static str)
        ensures
            class@ == self.css_class(),
    {
        match self {
            LatexmlStatus::Okay => "ar5iv-severity-ok",
            LatexmlStatus::Warning => "ar5iv-severity-warning",
            LatexmlStatus::Error => "ar5iv-severity-error",
            LatexmlStatus::Fatal => "ar5iv-severity-fatal",
        }
    }

    /// The place of the status in the order, as a number.
    pub fn severity(&self) -> (r: u8)
        ensures
            r == self.rank(),
    {
        match self {
            LatexmlStatus::Okay => 0,
            LatexmlStatus::Warning => 1,
            LatexmlStatus::Error => 2,
            LatexmlStatus::Fatal => 3,
        }
    }

    /// Raises the status to `other` where `other` is worse; never lowers it.
    pub fn escalate(self, other: LatexmlStatus) -> (r: LatexmlStatus)
        ensures
            r == self.worse(other),
            r.rank() >= self.rank(),
            r.rank() >= other.rank(),
    {
        if self.severity() >= other.severity() {
            self
        } else {
            other
        }
    }
}

/// The offset, in a line that reports the conversion's status, of the digit
/// that tells it.
pub const STATUS_DIGIT_OFFSET: usize = 18;

/// A line of `t` begins at position `i`.
pub open spec fn line_starts_at(t: Seq<char>, i: int) -> bool {
    0 <= i < t.len() && (i == 0 || t[i - 1] == '\n')
}

/// The status that a status digit stands for.
pub open spec fn digit_status(digit: char) -> LatexmlStatus {
    if digit == '0' {
        LatexmlStatus::Okay
    } else if digit == '1' {
        LatexmlStatus::Warning
    } else if digit == '2' {
        LatexmlStatus::Error
    } else {
        LatexmlStatus::Fatal
    }
}

/// The status that the line beginning at position `i` of `t` reports: that of
/// its marker, or of the digit at the fixed offset behind `Status:conversion:`.
/// A line without marker reports `Okay`, and so does a status line that ends
/// before the digit.
pub open spec fn line_status(t: Seq<char>, i: int) -> LatexmlStatus {
    if has_prefix_at(t, i, "Warning:"@) {
        LatexmlStatus::Warning
    } else if has_prefix_at(t, i, "Error:"@) {
        LatexmlStatus::Error
    } else if has_prefix_at(t, i, "Fatal:"@) {
        LatexmlStatus::Fatal
    } else if has_prefix_at(t, i, "Status:conversion:"@) && i + STATUS_DIGIT_OFFSET < t.len() && t[i
        + STATUS_DIGIT_OFFSET] != '\n' {
        digit_status(t[i + STATUS_DIGIT_OFFSET])
    } else {
        LatexmlStatus::Okay
    }
}

/// The worst status reported by the lines that begin before position `n`.
pub open spec fn status_upto(t: Seq<char>, n: int) -> LatexmlStatus
    decreases n,
{
    if n <= 0 {
        LatexmlStatus::Okay
    } else if line_starts_at(t, n - 1) {
        status_upto(t, n - 1).worse(line_status(t, n - 1))
    } else {
        status_upto(t, n - 1)
    }
}

/// The status of a conversion whose log is `t`: the worst that any line reports.
pub open spec fn log_status(t: Seq<char>) -> LatexmlStatus {
    status_upto(t, t.len() as int)
}

/// Scanning further never lowers the status.
pub proof fn lemma_status_upto_grows(t: Seq<char>, n: int, m: int)
    requires
        n <= m,
    ensures
        status_upto(t, n).rank() <= status_upto(t, m).rank(),
    decreases m - n,
{
    if n < m {
        lemma_status_upto_grows(t, n, m - 1);
    }
}

/// The status of a log is at least what each of its lines reports.
pub proof fn lemma_log_status_bounds_lines(t: Seq<char>, i: int)
    requires
        line_starts_at(t, i),
    ensures
        line_status(t, i).rank() <= log_status(t).rank(),
{
    lemma_status_upto_grows(t, i + 1, t.len() as int);
}

/// A status other than `Okay` is reported by some line.
pub proof fn lemma_log_status_is_reported(t: Seq<char>, n: int)
    requires
        status_upto(t, n) != LatexmlStatus::Okay,
    ensures
        exists|i: int| 0 <= i < n && line_starts_at(t, i) && line_status(t, i) == status_upto(t, n),
    decreases n,
{
    if n > 0 {
        if line_starts_at(t, n - 1) && status_upto(t, n) == line_status(t, n - 1) {
            assert(0 <= n - 1 < n && line_starts_at(t, n - 1) && line_status(t, n - 1)
                == status_upto(t, n));
        } else {
            lemma_log_status_is_reported(t, n - 1);
            let i = choose|i: int|
                0 <= i < n - 1 && line_starts_at(t, i) && line_status(t, i) == status_upto(
                    t,
                    n - 1,
                );
            assert(0 <= i < n && line_starts_at(t, i) && line_status(t, i) == status_upto(t, n));
        }
    }
}

/// Where a text stands at a position, its first character stands there.
proof fn lemma_prefix_first(t: Seq<char>, i: int, p: Seq<char>)
    requires
        p.len() > 0,
        has_prefix_at(t, i, p),
    ensures
        0 <= i < t.len(),
        t[i] == p[0],
{
    assert(t.subrange(i, i + p.len())[0] == t[i]);
}

/// What stands in a text at a position still stands there once text is added
/// behind it.
proof fn lemma_prefix_extends(t1: Seq<char>, t2: Seq<char>, i: int, p: Seq<char>)
    requires
        has_prefix_at(t1, i, p),
    ensures
        has_prefix_at(t1 + t2, i, p),
{
    assert((t1 + t2).subrange(i, i + p.len()) =~= t1.subrange(i, i + p.len()));
}

/// A line reports no less once text is added behind it.
proof fn lemma_line_status_extends(t1: Seq<char>, t2: Seq<char>, i: int)
    requires
        0 <= i < t1.len(),
    ensures
        line_status(t1, i).rank() <= line_status(t1 + t2, i).rank(),
{
    reveal_strlit("Warning:");
    reveal_strlit("Error:");
    reveal_strlit("Fatal:");
    reveal_strlit("Status:conversion:");
    let t = t1 + t2;
    let w = "Warning:"@;
    let e = "Error:"@;
    let f = "Fatal:"@;
    let s = "Status:conversion:"@;
    assert(t[i] == t1[i]);
    if has_prefix_at(t, i, w) {
        lemma_prefix_first(t, i, w);
    }
    if has_prefix_at(t, i, e) {
        lemma_prefix_first(t, i, e);
    }
    if has_prefix_at(t, i, f) {
        lemma_prefix_first(t, i, f);
    }
    if has_prefix_at(t1, i, w) {
        lemma_prefix_extends(t1, t2, i, w);
    } else if has_prefix_at(t1, i, e) {
        lemma_prefix_extends(t1, t2, i, e);
        lemma_prefix_first(t1, i, e);
    } else if has_prefix_at(t1, i, f) {
        lemma_prefix_extends(t1, t2, i, f);
        lemma_prefix_first(t1, i, f);
    } else if has_prefix_at(t1, i, s) && i + STATUS_DIGIT_OFFSET < t1.len() && t1[i
        + STATUS_DIGIT_OFFSET] != '\n' {
        lemma_prefix_extends(t1, t2, i, s);
        lemma_prefix_first(t1, i, s);
        assert(t[i + STATUS_DIGIT_OFFSET] == t1[i + STATUS_DIGIT_OFFSET]);
    }
}

/// What the lines that begin within a text report is no less once text is
/// added behind it.
proof fn lemma_status_upto_extends(t1: Seq<char>, t2: Seq<char>, n: int)
    requires
        n <= t1.len(),
    ensures
        status_upto(t1, n).rank() <= status_upto(t1 + t2, n).rank(),
    decreases n,
{
    if n > 0 {
        lemma_status_upto_extends(t1, t2, n - 1);
        lemma_line_status_extends(t1, t2, n - 1);
        let t = t1 + t2;
        assert(line_starts_at(t1, n - 1) == line_starts_at(t, n - 1)) by {
            if n - 1 > 0 {
                assert(t[n - 2] == t1[n - 2]);
            }
        }
    }
}

/// Escalation is monotonic under extension: the status of a log is never worse
/// than the status of the same log with more text behind it.
pub proof fn lemma_log_status_extends(t1: Seq<char>, t2: Seq<char>)
    ensures
        log_status(t1).rank() <= log_status(t1 + t2).rank(),
{
    lemma_status_upto_extends(t1, t2, t1.len() as int);
    lemma_status_upto_grows(t1 + t2, t1.len() as int, (t1 + t2).len() as int);
}

/// The markers by which a line reports a status hold no line break.
proof fn lemma_markers_hold_no_break()
    ensures
        forall|k: int| 0 <= k < "Warning:"@.len() ==> "Warning:"@[k] != '\n',
        forall|k: int| 0 <= k < "Error:"@.len() ==> "Error:"@[k] != '\n',
        forall|k: int| 0 <= k < "Fatal:"@.len() ==> "Fatal:"@[k] != '\n',
        forall|k: int| 0 <= k < "Status:conversion:"@.len() ==> "Status:conversion:"@[k] != '\n',
        "Warning:"@.len() > 0,
        "Error:"@.len() > 0,
        "Fatal:"@.len() > 0,
        "Status:conversion:"@.len() == STATUS_DIGIT_OFFSET,
{
    reveal_strlit("Warning:");
    reveal_strlit("Error:");
    reveal_strlit("Fatal:");
    reveal_strlit("Status:conversion:");
}

/// A text without line break stands at a position of a log followed by a
/// line break and more text just when it stands there in the log alone.
proof fn lemma_prefix_before_break(a: Seq<char>, b: Seq<char>, i: int, p: Seq<char>)
    requires
        0 <= i <= a.len(),
        forall|k: int| 0 <= k < p.len() ==> p[k] != '\n',
    ensures
        has_prefix_at(a + seq!['\n'] + b, i, p) == has_prefix_at(a, i, p),
{
    let t = a + seq!['\n'] + b;
    if has_prefix_at(a, i, p) {
        assert(t.subrange(i, i + p.len()) =~= a.subrange(i, i + p.len()));
    }
    if has_prefix_at(t, i, p) {
        if i + p.len() <= a.len() {
            assert(t.subrange(i, i + p.len()) =~= a.subrange(i, i + p.len()));
        } else {
            let k = a.len() - i;
            assert(t.subrange(i, i + p.len())[k] == t[a.len() as int]);
            assert(p[k] == '\n');
        }
    }
}

/// What stands in the second of two logs joined by a line break stands at
/// the same place once the first log and the break are counted in.
proof fn lemma_prefix_after_break(a: Seq<char>, b: Seq<char>, j: int, p: Seq<char>)
    requires
        0 <= j,
    ensures
        has_prefix_at(a + seq!['\n'] + b, a.len() + 1 + j, p) == has_prefix_at(b, j, p),
{
    let t = a + seq!['\n'] + b;
    let i = a.len() + 1 + j;
    if j + p.len() <= b.len() {
        assert(t.subrange(i, i + p.len()) =~= b.subrange(j, j + p.len()));
    }
}

/// In two logs joined by a line break, the lines of the first report what
/// they report in the first log alone.
proof fn lemma_status_upto_before_break(a: Seq<char>, b: Seq<char>, n: int)
    requires
        n <= a.len(),
    ensures
        status_upto(a + seq!['\n'] + b, n) == status_upto(a, n),
    decreases n,
{
    if n > 0 {
        lemma_status_upto_before_break(a, b, n - 1);
        lemma_markers_hold_no_break();
        let t = a + seq!['\n'] + b;
        let i = n - 1;
        lemma_prefix_before_break(a, b, i, "Warning:"@);
        lemma_prefix_before_break(a, b, i, "Error:"@);
        lemma_prefix_before_break(a, b, i, "Fatal:"@);
        lemma_prefix_before_break(a, b, i, "Status:conversion:"@);
        assert(t[i] == a[i]);
        if i > 0 {
            assert(t[i - 1] == a[i - 1]);
        }
        if i + STATUS_DIGIT_OFFSET < a.len() {
            assert(t[i + STATUS_DIGIT_OFFSET] == a[i + STATUS_DIGIT_OFFSET]);
        } else if i + STATUS_DIGIT_OFFSET == a.len() {
            assert(t[i + STATUS_DIGIT_OFFSET] == '\n');
        }
        assert(line_starts_at(t, i) == line_starts_at(a, i));
        assert(line_status(t, i) == line_status(a, i));
    }
}

/// In two logs joined by a line break, the lines of the second report what
/// they report in the second log alone.
proof fn lemma_status_upto_after_break(a: Seq<char>, b: Seq<char>, m: int)
    requires
        0 <= m <= b.len(),
    ensures
        status_upto(a + seq!['\n'] + b, a.len() + 1 + m) == log_status(a).worse(
            status_upto(b, m),
        ),
    decreases m,
{
    let t = a + seq!['\n'] + b;
    lemma_markers_hold_no_break();
    if m == 0 {
        lemma_status_upto_before_break(a, b, a.len() as int);
        let i = a.len() as int;
        assert(t[i] == '\n');
        lemma_prefix_before_break(a, b, i, "Warning:"@);
        lemma_prefix_before_break(a, b, i, "Error:"@);
        lemma_prefix_before_break(a, b, i, "Fatal:"@);
        lemma_prefix_before_break(a, b, i, "Status:conversion:"@);
        assert(line_status(t, i) == LatexmlStatus::Okay);
    } else {
        lemma_status_upto_after_break(a, b, m - 1);
        let j = m - 1;
        let i = a.len() + 1 + j;
        lemma_prefix_after_break(a, b, j, "Warning:"@);
        lemma_prefix_after_break(a, b, j, "Error:"@);
        lemma_prefix_after_break(a, b, j, "Fatal:"@);
        lemma_prefix_after_break(a, b, j, "Status:conversion:"@);
        assert(t[i] == b[j]);
        assert(t[i - 1] == if j == 0 {
            '\n'
        } else {
            b[j - 1]
        });
        if j + STATUS_DIGIT_OFFSET < b.len() {
            assert(t[i + STATUS_DIGIT_OFFSET] == b[j + STATUS_DIGIT_OFFSET]);
        }
        assert(line_starts_at(t, i) == line_starts_at(b, j));
        assert(line_status(t, i) == line_status(b, j));
    }
}

/// The status of two logs, one below the other, is the worse of their
/// statuses.
pub proof fn lemma_log_status_of_two(a: Seq<char>, b: Seq<char>)
    ensures
        log_status(a + seq!['\n'] + b) == log_status(a).worse(log_status(b)),
{
    lemma_status_upto_after_break(a, b, b.len() as int);
}

/// The order of the lines does not matter: two logs give the same status
/// whichever of them comes first.
pub proof fn lemma_log_status_ignores_order(a: Seq<char>, b: Seq<char>)
    ensures
        log_status(a + seq!['\n'] + b) == log_status(b + seq!['\n'] + a),
{
    lemma_log_status_of_two(a, b);
    lemma_log_status_of_two(b, a);
}

/// The status that a status digit stands for.
fn status_of_digit(digit: char) -> (r: LatexmlStatus)
    ensures
        r == digit_status(digit),
{
    if digit == '0' {
        LatexmlStatus::Okay
    } else if digit == '1' {
        LatexmlStatus::Warning
    } else if digit == '2' {
        LatexmlStatus::Error
    } else {
        LatexmlStatus::Fatal
    }
}

/// The severity of a conversion, read off its log. An empty log gives `Okay`.
pub fn log_to_status(log: &str) -> (status: LatexmlStatus)
    ensures
        status == log_status(log@),
        log@.len() == 0 ==> status == LatexmlStatus::Okay,
{
    let t = chars_of(log);
    let warning = chars_of("Warning:");
    let error = chars_of("Error:");
    let fatal = chars_of("Fatal:");
    let conversion = chars_of("Status:conversion:");
    let mut status = LatexmlStatus::Okay;
    let mut line_start = true;
    let mut i: usize = 0;
    while i < t.len()
        invariant
            i <= t.len(),
            t@ == log@,
            warning@ == "Warning:"@,
            error@ == "Error:"@,
            fatal@ == "Fatal:"@,
            conversion@ == "Status:conversion:"@,
            line_start == (i == 0 || t@[i - 1] == '\n'),
            status == status_upto(t@, i as int),
        decreases t.len() - i,
    {
        if line_start {
            let reported = if prefix_at(&t, i, &warning) {
                LatexmlStatus::Warning
            } else if prefix_at(&t, i, &error) {
                LatexmlStatus::Error
            } else if prefix_at(&t, i, &fatal) {
                LatexmlStatus::Fatal
            } else if prefix_at(&t, i, &conversion) {
                proof {
                    reveal_strlit("Status:conversion:");
                }
                if STATUS_DIGIT_OFFSET < t.len() - i && t[i + STATUS_DIGIT_OFFSET] != '\n' {
                    status_of_digit(t[i + STATUS_DIGIT_OFFSET])
                } else {
                    LatexmlStatus::Okay
                }
            } else {
                LatexmlStatus::Okay
            };
            assert(reported == line_status(t@, i as int));
            status = status.escalate(reported);
        }
        line_start = t[i] == '\n';
        i += 1;
    }
    status
}

/// What an entry of a conversion archive is taken for.
#[derive(Debug, Clone, Copy, PartialEq, Eq, Structural)]
pub enum EntryKind {
    /// Not a regular file: passed over.
    Skipped,
    /// A part of the document.
    Html,
    /// The diagnostic log.
    Log,
    /// Anything else: an asset of the document.
    Asset,
}

/// What an entry is taken for, by its name: a name that ends in `.html` is a
/// part of the document, the fixed name of the log is the log, every other
/// regular file is an asset.
pub open spec fn kind_of_entry(name: Seq<char>, is_file: bool) -> EntryKind {
    if !is_file {
        EntryKind::Skipped
    } else if ends_with(name, ".html"@) {
        EntryKind::Html
    } else if name == LOG_FILENAME@ {
        EntryKind::Log
    } else {
        EntryKind::Asset
    }
}

/// What an entry of a conversion archive is taken for.
pub fn entry_kind(name: &str, is_file: bool) -> (kind: EntryKind)
    ensures
        kind == kind_of_entry(name@, is_file),
{
    if !is_file {
        return EntryKind::Skipped;
    }
    let chars = chars_of(name);
    let html = chars_of(".html");
    let log = chars_of(LOG_FILENAME);
    if suffix_of(&chars, &html) {
        EntryKind::Html
    } else if chars.len() == log.len() && prefix_at(&chars, 0, &log) {
        assert(chars@.subrange(0, chars@.len() as int) == chars@);
        EntryKind::Log
    } else {
        assert(chars@ == log@ ==> chars@.subrange(0, log@.len() as int) == log@);
        EntryKind::Asset
    }
}

/// What was read out of a conversion archive: the document, the log, and the
/// assets by name. Every asset that is kept has at least one byte.
pub struct ConversionArchive {
    html: String,
    log: String,
    assets: Vec<(String, Vec<u8>)>,
}

impl ConversionArchive {
    /// The document: the parts that were added, in the order of their adding.
    pub closed spec fn html(&self) -> Seq<char> {
        self.html@
    }

    /// The diagnostic log; empty where the archive held none.
    pub closed spec fn log(&self) -> Seq<char> {
        self.log@
    }

    /// The assets, each with its name, in the order of their adding.
    pub closed spec fn assets(&self) -> Seq<(Seq<char>, Seq<u8>)> {
        Seq::new(self.assets@.len(), |i: int| (self.assets@[i].0@, self.assets@[i].1@))
    }

    /// No asset is empty.
    pub open spec fn wf(&self) -> bool {
        forall|i: int| 0 <= i < self.assets().len() ==> (#[trigger] self.assets()[i]).1.len() > 0
    }

    /// An archive of which nothing has been read yet.
    pub fn new() -> (archive: ConversionArchive)
        ensures
            archive.wf(),
            archive.html() == Seq::<char>::empty(),
            archive.log() == Seq::<char>::empty(),
            archive.assets() == Seq::<(Seq<char>, Seq<u8>)>::empty(),
    {
        ConversionArchive { html: String::new(), log: String::new(), assets: Vec::new() }
    }

    /// Adds a part of the document behind those already there.
    pub fn add_html(&mut self, text: &str)
        ensures
            final(self).html() == old(self).html() + text@,
            final(self).log() == old(self).log(),
            final(self).assets() == old(self).assets(),
    {
        self.html.append(text);
    }

    /// Adds the text of the log behind what is already there.
    pub fn add_log(&mut self, text: &str)
        ensures
            final(self).html() == old(self).html(),
            final(self).log() == old(self).log() + text@,
            final(self).assets() == old(self).assets(),
    {
        self.log.append(text);
    }

    /// Adds an asset, unless it has no bytes.
    pub fn add_asset(&mut self, name: String, bytes: Vec<u8>)
        ensures
            final(self).html() == old(self).html(),
            final(self).log() == old(self).log(),
            final(self).assets() == if bytes@.len() > 0 {
                old(self).assets().push((name@, bytes@))
            } else {
                old(self).assets()
            },
            old(self).wf() ==> final(self).wf(),
    {
        if bytes.len() > 0 {
            self.assets.push((name, bytes));
        }
    }

    /// The document.
    pub fn html_text(&self) -> (r: &str)
        ensures
            r@ == self.html(),
    {
        self.html.as_str()
    }

    /// The diagnostic log.
    pub fn log_text(&self) -> (r: &str)
        ensures
            r@ == self.log(),
    {
        self.log.as_str()
    }
}

/// An entry of a conversion archive as it was read: its name, whether it is
/// a regular file, and its bytes.
#[derive(Debug, PartialEq, Eq)]
pub struct ArchiveEntry {
    pub name: String,
    pub is_file: bool,
    pub content: Vec<u8>,
}

/// What an entry of a conversion archive holds.
pub ghost struct ArchiveEntryView {
    pub name: Seq<char>,
    pub is_file: bool,
    pub content: Seq<u8>,
}

impl View for ArchiveEntry {
    type V = ArchiveEntryView;

    open spec fn view(&self) -> ArchiveEntryView {
        ArchiveEntryView { name: self.name@, is_file: self.is_file, content: self.content@ }
    }
}

/// What a list of entries holds.
pub open spec fn entry_list(entries: Seq<ArchiveEntry>) -> Seq<ArchiveEntryView> {
    Seq::new(entries.len(), |i: int| entries[i]@)
}

/// The archive cannot be used: the named entry is a part of the document or
/// the log, and its bytes are no text.
#[derive(Debug, PartialEq, Eq)]
pub struct ArchiveFormatError {
    pub entry: String,
}

/// An entry that has to be text and is none: a part of the document or the
/// log whose bytes are not valid UTF-8.
pub open spec fn is_unreadable(entry: ArchiveEntryView) -> bool {
    let kind = kind_of_entry(entry.name, entry.is_file);
    (kind == EntryKind::Html || kind == EntryKind::Log) && !valid_utf8(entry.content)
}

/// The document that the first `n` entries make: the texts of those that are
/// parts of the document, in the order of the entries.
pub open spec fn html_upto(entries: Seq<ArchiveEntryView>, n: int) -> Seq<char>
    decreases n,
{
    if n <= 0 {
        Seq::empty()
    } else if kind_of_entry(entries[n - 1].name, entries[n - 1].is_file) == EntryKind::Html {
        html_upto(entries, n - 1) + decode_utf8(entries[n - 1].content)
    } else {
        html_upto(entries, n - 1)
    }
}

/// The log that the first `n` entries make.
pub open spec fn log_upto(entries: Seq<ArchiveEntryView>, n: int) -> Seq<char>
    decreases n,
{
    if n <= 0 {
        Seq::empty()
    } else if kind_of_entry(entries[n - 1].name, entries[n - 1].is_file) == EntryKind::Log {
        log_upto(entries, n - 1) + decode_utf8(entries[n - 1].content)
    } else {
        log_upto(entries, n - 1)
    }
}

/// The assets among the first `n` entries: every other regular file that has
/// at least one byte, by its name, in the order of the entries.
pub open spec fn assets_upto(entries: Seq<ArchiveEntryView>, n: int) -> Seq<(Seq<char>, Seq<u8>)>
    decreases n,
{
    if n <= 0 {
        Seq::empty()
    } else if kind_of_entry(entries[n - 1].name, entries[n - 1].is_file) == EntryKind::Asset
        && entries[n - 1].content.len() > 0 {
        assets_upto(entries, n - 1).push((entries[n - 1].name, entries[n - 1].content))
    } else {
        assets_upto(entries, n - 1)
    }
}

/// Gathers what the entries of a conversion archive hold, each entry taken
/// once and in order: the parts of the document make the document, the log
/// entry makes the log, every other regular file that is not empty is kept as
/// an asset, and what is no regular file is passed over. The archive is
/// refused where a part of the document or the log is no text; the error
/// names the first such entry.
pub fn extract_all(entries: Vec<ArchiveEntry>) -> (r: Result<
    ConversionArchive,
    ArchiveFormatError,
>)
    ensures
        match r {
            Ok(archive) => {
                &&& forall|i: int|
                    0 <= i < entries@.len() ==> !is_unreadable(#[trigger] entry_list(entries@)[i])
                &&& archive.wf()
                &&& archive.html() == html_upto(entry_list(entries@), entries@.len() as int)
                &&& archive.log() == log_upto(entry_list(entries@), entries@.len() as int)
                &&& archive.assets() == assets_upto(entry_list(entries@), entries@.len() as int)
            },
            Err(e) => exists|i: int|
                {
                    &&& 0 <= i < entries@.len()
                    &&& is_unreadable(#[trigger] entry_list(entries@)[i])
                    &&& e.entry@ == entry_list(entries@)[i].name
                    &&& forall|j: int| 0 <= j < i ==> !is_unreadable(#[trigger] entry_list(entries@)[j])
                },
        },
{
    let ghost all = entry_list(entries@);
    let mut archive = ConversionArchive::new();
    for entry in it: entries.into_iter()
        invariant
            it.seq() == entries@,
            all == entry_list(entries@),
            forall|j: int| 0 <= j < it.index() ==> !is_unreadable(#[trigger] all[j]),
            archive.wf(),
            archive.html() == html_upto(all, it.index() as int),
            archive.log() == log_upto(all, it.index() as int),
            archive.assets() == assets_upto(all, it.index() as int),
    {
        let ghost i = it.index() as int;
        assert(entry@ == all[i]);
        let ArchiveEntry { name, is_file, content } = entry;
        match entry_kind(name.as_str(), is_file) {
            EntryKind::Skipped => {},
            EntryKind::Html => {
                match text_from_utf8(content) {
                    Some(text) => {
                        proof {
                            encode_utf8_decode_utf8(text@);
                        }
                        archive.add_html(text.as_str());
                    },
                    None => {
                        assert(is_unreadable(all[i]));
                        return Err(ArchiveFormatError { entry: name });
                    },
                }
            },
            EntryKind::Log => {
                match text_from_utf8(content) {
                    Some(text) => {
                        proof {
                            encode_utf8_decode_utf8(text@);
                        }
                        archive.add_log(text.as_str());
                    },
                    None => {
                        assert(is_unreadable(all[i]));
                        return Err(ArchiveFormatError { entry: name });
                    },
                }
            },
            EntryKind::Asset => {
                archive.add_asset(name, content);
            },
        }
    }
    Ok(archive)
}

/// The status of a paper whose log is `log`. A paper without a log counts as
/// a fatal conversion.
pub open spec fn paper_status(log: Seq<char>) -> LatexmlStatus {
    if log.len() == 0 {
        LatexmlStatus::Fatal
    } else {
        log_status(log)
    }
}

/// The cache entries for the assets of a paper: one for each asset under the
/// ceiling for binary values, under the paper's id, a slash and the asset's
/// name, in the order of the assets.
pub open spec fn asset_entries(id_arxiv: Seq<char>, assets: Seq<(Seq<char>, Seq<u8>)>) -> Seq<
    CacheEntryView,
>
    decreases assets.len(),
{
    if assets.len() == 0 {
        Seq::empty()
    } else {
        let before = asset_entries(id_arxiv, assets.drop_last());
        let asset = assets.last();
        if binary_fits(asset.1) {
            before.push(CacheEntryView::Binary { key: id_arxiv + "/"@ + asset.0, bytes: asset.1 })
        } else {
            before
        }
    }
}

/// The cache entry for the report of a paper: the page that shows its log,
/// under the paper's id, a slash and the log's name. There is none where the
/// paper has no log or the page is over the ceiling for texts.
pub open spec fn report_entries(id_arxiv: Seq<char>, log: Seq<char>) -> Seq<CacheEntryView> {
    if log.len() > 0 && text_fits(report_page(log, id_arxiv)) {
        seq![
            CacheEntryView::Text {
                key: id_arxiv + "/"@ + LOG_FILENAME@,
                text: report_page(log, id_arxiv),
            },
        ]
    } else {
        Seq::empty()
    }
}

/// The cache entry for the page of a paper, under the paper's id. There is
/// none where the page is over the ceiling for texts.
pub open spec fn page_entries(id_arxiv: Seq<char>, page: Seq<char>) -> Seq<CacheEntryView> {
    if text_fits(page) {
        seq![CacheEntryView::Text { key: id_arxiv, text: page }]
    } else {
        Seq::empty()
    }
}

/// A paper as it is served, and what of it goes to the cache.
#[derive(Debug, PartialEq, Eq)]
pub struct PaperAssembly {
    /// The page.
    pub page: String,
    /// How the conversion ended.
    pub status: LatexmlStatus,
    /// What is to be written to the cache, in this order. A write that fails
    /// changes nothing of the page.
    pub writes: Vec<CacheEntry>,
}

/// The cache entries for the assets of a paper.
fn collect_asset_entries(id_arxiv: &str, assets: Vec<(String, Vec<u8>)>) -> (writes: Vec<
    CacheEntry,
>)
    ensures
        entry_views(writes@) == asset_entries(
            id_arxiv@,
            Seq::new(assets@.len(), |i: int| (assets@[i].0@, assets@[i].1@)),
        ),
{
    let ghost all = Seq::new(assets@.len(), |i: int| (assets@[i].0@, assets@[i].1@));
    let mut writes: Vec<CacheEntry> = Vec::new();
    assert(all.take(0) == Seq::<(Seq<char>, Seq<u8>)>::empty());
    for asset in it: assets.into_iter()
        invariant
            it.seq() == assets@,
            all == Seq::new(assets@.len(), |i: int| (assets@[i].0@, assets@[i].1@)),
            entry_views(writes@) == asset_entries(id_arxiv@, all.take(it.index() as int)),
    {
        let ghost done = it.index() as int;
        let ghost before = entry_views(writes@);
        let (name, bytes) = asset;
        proof {
            assert((name@, bytes@) == all[done]);
            assert(all.take(done + 1).drop_last() == all.take(done));
            assert(all.take(done + 1).last() == all[done]);
        }
        if binary_is_storable(&bytes) {
            let mut key = id_arxiv.to_owned();
            key.append("/");
            key.append(name.as_str());
            writes.push(CacheEntry::Binary { key, bytes });
            assert(entry_views(writes@) == before.push(
                CacheEntryView::Binary { key: id_arxiv@ + "/"@ + name@, bytes: bytes@ },
            ));
        }
    }
    assert(all.take(all.len() as int) == all);
    writes
}

/// Assembles the page of a paper from what its archive held. The status is
/// read off the log, a paper without log counting as fatal; the neighbours
/// are read off `adjacency`, the value that the adjacency table holds for the
/// paper, if any; the page is the branded document, or the placeholder where
/// the archive held no document. With `persist`, the assets, the page of the
/// report and the page itself are handed on for the cache, each only where it
/// is under the ceiling of its kind; the page is the same either way.
pub fn assemble_paper(
    archive: ConversionArchive,
    field_opt: Option<&str>,
    id: &str,
    adjacency: Option<&str>,
    persist: bool,
    use_dom: bool,
) -> (paper: PaperAssembly)
    ensures
        paper.status == paper_status(archive.log()),
        paper.page@ == branded_page(
            archive.html(),
            arxiv_id(field_opt.deep_view(), id@),
            paper_status(archive.log()),
            prev_of(adjacency.deep_view()),
            next_of(adjacency.deep_view()),
        ),
        entry_views(paper.writes@) == if persist {
            asset_entries(arxiv_id(field_opt.deep_view(), id@), archive.assets()) + report_entries(
                arxiv_id(field_opt.deep_view(), id@),
                archive.log(),
            ) + page_entries(arxiv_id(field_opt.deep_view(), id@), paper.page@)
        } else {
            Seq::empty()
        },
{
    let id_arxiv = build_arxiv_id(&field_opt, id);
    let ConversionArchive { html, log, assets } = archive;
    let status = if log.as_str().is_empty() {
        LatexmlStatus::Fatal
    } else {
        log_to_status(log.as_str())
    };
    let mut writes: Vec<CacheEntry> = Vec::new();
    if persist {
        writes = collect_asset_entries(id_arxiv.as_str(), assets);
        if !log.as_str().is_empty() {
            let report = log_to_html(log.as_str(), id_arxiv.as_str());
            if text_is_storable(report.as_str()) {
                let mut key = id_arxiv.clone();
                key.append("/");
                key.append(LOG_FILENAME);
                let ghost before = entry_views(writes@);
                writes.push(CacheEntry::Text { key, text: report });
                assert(entry_views(writes@) == before + report_entries(id_arxiv@, log@));
            }
        }
    }
    let neighbours = adjacent_papers(adjacency);
    let page = if use_dom {
        branded_ar5iv_html(html, id_arxiv.as_str(), status, neighbours.prev, neighbours.next)
    } else {
        dirty_branded_ar5iv_html(html, id_arxiv.as_str(), status, neighbours.prev, neighbours.next)
    };
    if persist && text_is_storable(page.as_str()) {
        let ghost before = entry_views(writes@);
        writes.push(CacheEntry::Text { key: id_arxiv, text: page.clone() });
        assert(entry_views(writes@) == before + page_entries(id_arxiv@, page@));
    }
    PaperAssembly { page, status, writes }
}

/// The page that shows the conversion report of a paper, from the log that
/// its archive held.
pub fn assemble_log(field_opt: Option<&str>, id: &str, conversion_report: &str) -> (page: String)
    ensures
        page@ == report_page(conversion_report@, arxiv_id(field_opt.deep_view(), id@)),
{
    let id_arxiv = build_arxiv_id(&field_opt, id);
    log_to_html(conversion_report, id_arxiv.as_str())
}

/// The source archive of a paper as it is served for download; none where
/// the file gave no bytes.
pub fn fetch_zip(payload: Vec<u8>) -> (r: Option<Vec<u8>>)
    ensures
        r == if payload@.len() == 0 {
            None
        } else {
            Some(payload)
        },
{
    if payload.len() == 0 {
        None
    } else {
        Some(payload)
    }
}

/// The number of leading characters of an id that name its shard on disk.
pub const SHARD_LEN: usize = 4;

/// The directory of a paper below the root of the corpus: the shard named by
/// the first four characters of the id, then the field and the id in one
/// name.
pub open spec fn paper_dir(root: Seq<char>, field: Option<Seq<char>>, id: Seq<char>) -> Seq<char> {
    root + "/"@ + id.take(SHARD_LEN as int) + "/"@ + (match field {
        Some(field) => field,
        None => Seq::empty(),
    }) + id
}

/// The place of a paper's conversion archive.
pub open spec fn paper_path(root: Seq<char>, field: Option<Seq<char>>, id: Seq<char>) -> Seq<char> {
    paper_dir(root, field, id) + "/tex_to_html.zip"@
}

/// The place of a paper's source archive: in the paper's directory, named
/// like it.
pub open spec fn source_zip_path(root: Seq<char>, field: Option<Seq<char>>, id: Seq<char>) -> Seq<
    char,
> {
    paper_dir(root, field, id) + "/"@ + (match field {
        Some(field) => field,
        None => Seq::empty(),
    }) + id + ".zip"@
}

/// The directory of a paper; none for an id of fewer than four characters.
fn build_paper_dir(root: &str, field_opt: Option<&str>, id: &str) -> (r: Option<String>)
    ensures
        r.deep_view() == if id@.len() < SHARD_LEN {
            None
        } else {
            Some(paper_dir(root@, field_opt.deep_view(), id@))
        },
{
    let chars = chars_of(id);
    if chars.len() < SHARD_LEN {
        return None;
    }
    let shard = text_of_range(&chars, 0, SHARD_LEN);
    assert(chars@.subrange(0, SHARD_LEN as int) == id@.take(SHARD_LEN as int));
    let mut out = root.to_owned();
    out.append("/");
    out.append(shard.as_str());
    out.append("/");
    match field_opt {
        Some(field) => {
            out.append(field);
        },
        None => {
            assert(out@ + Seq::<char>::empty() == out@);
        },
    }
    out.append(id);
    Some(out)
}

/// The place where the conversion archive of a paper lies, if it exists,
/// below the root directory of the corpus. An id of fewer than four
/// characters names no paper.
pub fn build_paper_path(root: &str, field_opt: Option<&str>, id: &str) -> (r: Option<String>)
    ensures
        r.deep_view() == if id@.len() < SHARD_LEN {
            None
        } else {
            Some(paper_path(root@, field_opt.deep_view(), id@))
        },
{
    match build_paper_dir(root, field_opt, id) {
        Some(dir) => {
            let mut out = dir;
            out.append("/tex_to_html.zip");
            Some(out)
        },
        None => None,
    }
}

/// The place where the source archive of a paper lies, if it exists, below
/// the root directory of the corpus. An id of fewer than four characters
/// names no paper.
pub fn build_source_zip_path(root: &str, field_opt: Option<&str>, id: &str) -> (r: Option<String>)
    ensures
        r.deep_view() == if id@.len() < SHARD_LEN {
            None
        } else {
            Some(source_zip_path(root@, field_opt.deep_view(), id@))
        },
{
    match build_paper_dir(root, field_opt, id) {
        Some(dir) => {
            let mut out = dir;
            out.append("/");
            match field_opt {
                Some(field) => {
                    out.append(field);
                },
                None => {
                    assert(out@ + Seq::<char>::empty() == out@);
                },
            }
            out.append(id);
            out.append(".zip");
            Some(out)
        },
        None => None,
    }
}

} // verus!
