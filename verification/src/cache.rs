//! The cache in front of the archives: which keys it is asked under, what
//! counts as a hit, what is handed on to be stored, and the order of the steps
//! that serve a request.

use crate::assemble_asset::assemble_log;
use crate::chance::{pick_one, shuffle};
use crate::constants::LOG_FILENAME;
use crate::dirty_templates::report_page;
use crate::pattern::{finds_nothing, replace_fixed, with_fixed};
use crate::pool::{queue_is_empty, queue_limit, queue_new, queue_pop, queue_push, queued};
use crate::text::{chars_of, rows, split_chars, split_on, text_of, text_size};
use crossbeam::queue::ArrayQueue;
use vstd::prelude::*;
use vstd::seq_lib::to_multiset_len;

verus! {

/// The largest binary value that is stored.
pub const TEN_MIB: usize = 10_485_760;

/// The largest text value that is stored.
pub const TWO_AND_A_HALF_MIB: usize = 2_621_440;

/// The version that may follow a paper's id: `v` and one or two digits at the
/// end.
pub const ARXIV_ID_VERSION: &'static str = "v\\d\\d?$";

/// The ending `.pdf` of an address.
pub const TRAILING_PDF_EXT: &'static str = "[.]pdf$";

/// The ending `.zip` of an address.
pub const TRAILING_ZIP_EXT: &'static str = "[.]zip$";

/// The paper that is shown where chance has none to offer.
pub const FALLBACK_PAPER: &'static str = "1910.06709";

/// A value under a key, as the cache stores it: text or bytes.
#[derive(Debug, PartialEq, Eq)]
pub enum CacheEntry {
    Text { key: String, text: String },
    Binary { key: String, bytes: Vec<u8> },
}

/// What a cache entry holds.
pub ghost enum CacheEntryView {
    Text { key: Seq<char>, text: Seq<char> },
    Binary { key: Seq<char>, bytes: Seq<u8> },
}

impl View for CacheEntry {
    type V = CacheEntryView;

    open spec fn view(&self) -> CacheEntryView {
        match self {
            CacheEntry::Text { key, text } => CacheEntryView::Text { key: key@, text: text@ },
            CacheEntry::Binary { key, bytes } => CacheEntryView::Binary {
                key: key@,
                bytes: bytes@,
            },
        }
    }
}

/// What a list of cache entries holds.
pub open spec fn entry_views(entries: Seq<CacheEntry>) -> Seq<CacheEntryView> {
    Seq::new(entries.len(), |i: int| entries[i]@)
}

/// The id of a paper in the scheme that names papers and cache keys alike:
/// the field and a slash before the id where the paper has a field.
pub open spec fn arxiv_id(field: Option<Seq<char>>, id: Seq<char>) -> Seq<char> {
    match field {
        Some(field) => field + "/"@ + id,
        None => id,
    }
}

/// The key under which an asset of a paper is cached.
pub open spec fn asset_key(field: Option<Seq<char>>, id: Seq<char>, filename: Seq<char>) -> Seq<
    char,
> {
    arxiv_id(field, id) + "/"@ + filename
}

/// The key under which the conversion report of a paper is cached.
pub open spec fn report_key(field: Option<Seq<char>>, id: Seq<char>) -> Seq<char> {
    arxiv_id(field, id) + "/"@ + LOG_FILENAME@
}

/// The id that a request names, without the version behind it.
pub open spec fn canonical_id(id_raw: Seq<char>) -> Seq<char> {
    with_fixed(ARXIV_ID_VERSION@, id_raw, ""@, true)
}

/// A text is small enough to be stored.
pub open spec fn text_fits(value: Seq<char>) -> bool {
    text_size(value) <= TWO_AND_A_HALF_MIB
}

/// A binary value is small enough to be stored.
pub open spec fn binary_fits(value: Seq<u8>) -> bool {
    value.len() <= TEN_MIB
}

/// We universally use the arxiv id scheme for both arxiv id refs and cache keys.
pub fn build_arxiv_id(field_opt: &Option<&str>, id: &str) -> (r: String)
    ensures
        r@ == arxiv_id(field_opt.deep_view(), id@),
{
    match field_opt {
        Some(field) => {
            let mut out = String::from_str(field);
            out.append("/");
            out.append(id);
            out
        },
        None => id.to_owned(),
    }
}

/// The key under which an asset of a paper is cached.
pub fn build_asset_key(field_opt: &Option<&str>, id: &str, filename: &str) -> (r: String)
    ensures
        r@ == asset_key(field_opt.deep_view(), id@, filename@),
{
    let mut out = build_arxiv_id(field_opt, id);
    out.append("/");
    out.append(filename);
    out
}

/// The key under which the conversion report of a paper is cached.
pub fn build_report_key(field_opt: &Option<&str>, id: &str) -> (r: String)
    ensures
        r@ == report_key(field_opt.deep_view(), id@),
{
    let mut out = build_arxiv_id(field_opt, id);
    out.append("/");
    out.append(LOG_FILENAME);
    out
}

/// The id that an address for the PDF of a paper names: the address without
/// `.pdf` at its end.
pub fn strip_pdf_ext(id: &str) -> (r: String)
    ensures
        r@ == with_fixed(TRAILING_PDF_EXT@, id@, ""@, true),
{
    replace_fixed(TRAILING_PDF_EXT, id, "", true)
}

/// The id that an address for the source of a paper names: the address
/// without `.zip` at its end.
pub fn strip_zip_ext(id: &str) -> (r: String)
    ensures
        r@ == with_fixed(TRAILING_ZIP_EXT@, id@, ""@, true),
{
    replace_fixed(TRAILING_ZIP_EXT, id, "", true)
}

/// The id that a request names, without the version behind it.
pub fn strip_version(id_raw: &str) -> (id: String)
    ensures
        id@ == canonical_id(id_raw@),
        finds_nothing(ARXIV_ID_VERSION@, id_raw@) ==> id@ == id_raw@,
{
    replace_fixed(ARXIV_ID_VERSION, id_raw, "", true)
}

/// Whether a text is small enough to be stored.
pub fn text_is_storable(value: &str) -> (r: bool)
    ensures
        r == text_fits(value@),
{
    value.as_bytes().len() <= TWO_AND_A_HALF_MIB
}

/// Whether a binary value is small enough to be stored.
pub fn binary_is_storable(value: &Vec<u8>) -> (r: bool)
    ensures
        r == binary_fits(value@),
{
    value.len() <= TEN_MIB
}

/// What the cache answered to a request for a text, as a hit or a miss: a
/// failure is a miss, and so is an empty text.
pub open spec fn text_hit(reply: Result<Seq<char>, ()>) -> Option<Seq<char>> {
    match reply {
        Ok(value) => if value.len() > 0 {
            Some(value)
        } else {
            None
        },
        Err(_) => None,
    }
}

/// What the cache answered to a request for a binary value, as a hit or a
/// miss: a failure is a miss, and so is a value of no bytes.
pub open spec fn binary_hit(reply: Result<Seq<u8>, ()>) -> Option<Seq<u8>> {
    match reply {
        Ok(value) => if value.len() > 0 {
            Some(value)
        } else {
            None
        },
        Err(_) => None,
    }
}

/// The view of a reply that carries a text.
pub open spec fn text_reply(reply: Result<String, ()>) -> Result<Seq<char>, ()> {
    match reply {
        Ok(value) => Ok(value@),
        Err(e) => Err(e),
    }
}

/// The view of a reply that carries bytes.
pub open spec fn binary_reply(reply: Result<Vec<u8>, ()>) -> Result<Seq<u8>, ()> {
    match reply {
        Ok(value) => Ok(value@),
        Err(e) => Err(e),
    }
}

/// Reads the store's answer to a request for a text: a hit only where the
/// store answered with a text that is not empty.
pub fn cached_text(reply: Result<String, ()>) -> (r: Option<String>)
    ensures
        r.deep_view() == text_hit(text_reply(reply)),
{
    match reply {
        Ok(value) => {
            if value.as_str().is_empty() {
                None
            } else {
                Some(value)
            }
        },
        Err(_) => None,
    }
}

/// Reads the store's answer to a request for an asset. A stored value of no
/// bytes is reported as a miss, never as a hit of length zero: a real asset is
/// never empty.
pub fn get_cached_asset(reply: Result<Vec<u8>, ()>) -> (r: Result<Vec<u8>, ()>)
    ensures
        match binary_hit(binary_reply(reply)) {
            Some(value) => r is Ok && r->Ok_0@ == value,
            None => r is Err,
        },
        r matches Ok(value) ==> value@.len() > 0,
{
    match reply {
        Ok(value) => {
            if value.len() == 0 {
                Err(())
            } else {
                Ok(value)
            }
        },
        Err(e) => Err(e),
    }
}

/// The file that is served in the place of an asset that cannot be had.
pub const MISSING_IMAGE: &'static str = "assets/missing_image.png";

/// The ending of a file name, by which its content type is told: what follows
/// the last dot, or the whole name where it has no dot.
pub open spec fn extension_of(filename: Seq<char>) -> Seq<char> {
    split_on(filename, '.').last()
}

/// The ending of a file name.
pub fn asset_extension(filename: &str) -> (r: String)
    ensures
        r@ == extension_of(filename@),
{
    let chars = chars_of(filename);
    let pieces = split_chars(&chars, '.');
    assert(rows(pieces@).last() == pieces@[pieces@.len() - 1]@);
    text_of(&pieces[pieces.len() - 1])
}

/// What is known so far of a request for the page of a paper.
#[derive(Debug, PartialEq, Eq)]
pub enum PaperProgress {
    /// Nothing yet.
    Requested,
    /// The cache was asked for the page and gave this answer.
    Answered(Result<String, ()>),
}

/// What is to be done next for a request for the page of a paper.
#[derive(Debug, PartialEq, Eq)]
pub enum PaperAction {
    /// Ask the cache for the page under `key`.
    LookUp { id: String, key: String },
    /// Serve the page that the cache held.
    Serve { page: String },
    /// Assemble the page of the paper `id` from its archive.
    Assemble { id: String },
}

/// The next step of serving a paper's page through the cache: the cache is
/// asked first, under the paper's id without its version; what it holds is
/// served; on a miss the page is assembled from the archive. A failure of the
/// cache and an empty page are misses.
pub fn assemble_paper_with_cache(
    field_opt: Option<&str>,
    id_raw: &str,
    progress: PaperProgress,
) -> (action: PaperAction)
    ensures
        match progress {
            PaperProgress::Requested => action matches PaperAction::LookUp { id, key } && id@
                == canonical_id(id_raw@) && key@ == arxiv_id(
                field_opt.deep_view(),
                canonical_id(id_raw@),
            ),
            PaperProgress::Answered(reply) => match text_hit(text_reply(reply)) {
                Some(cached) => action matches PaperAction::Serve { page } && page@ == cached,
                None => action matches PaperAction::Assemble { id } && id@ == canonical_id(
                    id_raw@,
                ),
            },
        },
{
    match progress {
        PaperProgress::Requested => {
            let id = strip_version(id_raw);
            let key = build_arxiv_id(&field_opt, id.as_str());
            PaperAction::LookUp { id, key }
        },
        PaperProgress::Answered(reply) => match cached_text(reply) {
            Some(page) => PaperAction::Serve { page },
            None => PaperAction::Assemble { id: strip_version(id_raw) },
        },
    }
}

/// What is known so far of a request for an asset of a paper.
#[derive(Debug, PartialEq, Eq)]
pub enum AssetProgress {
    /// Nothing yet.
    Requested,
    /// The cache was asked for the asset and gave this answer.
    Answered(Result<Vec<u8>, ()>),
    /// The cache missed, and the archive held this under the asset's name, or
    /// nothing.
    Extracted(Option<Vec<u8>>),
}

/// What is to be done next for a request for an asset of a paper.
#[derive(Debug, PartialEq, Eq)]
pub enum AssetAction {
    /// Ask the cache for the asset under `key`.
    LookUp { id: String, key: String },
    /// Read the asset from the archive of the paper `id`.
    Extract { id: String },
    /// Serve the asset with the content type of `extension`, and store it
    /// under the key, if one is given.
    Serve { extension: String, asset: Vec<u8>, store_under: Option<String> },
    /// Serve the image that stands for a missing asset.
    Missing,
}

/// The next step of serving an asset through the cache: the cache is asked
/// first; a hit is served; on a miss the archive is read. What the archive
/// gives is served and, unless it is over the ceiling for binary values,
/// stored. An asset that the archive lacks or holds without bytes is missing.
pub fn assemble_paper_asset_with_cache(
    field_opt: Option<&str>,
    id_raw: &str,
    filename: &str,
    progress: AssetProgress,
) -> (action: AssetAction)
    ensures
        match progress {
            AssetProgress::Requested => action matches AssetAction::LookUp { id, key } && id@
                == canonical_id(id_raw@) && key@ == asset_key(
                field_opt.deep_view(),
                canonical_id(id_raw@),
                filename@,
            ),
            AssetProgress::Answered(reply) => match binary_hit(binary_reply(reply)) {
                Some(cached) => action matches AssetAction::Serve { extension, asset, store_under }
                    && extension@ == extension_of(filename@) && asset@ == cached
                    && store_under is None,
                None => action matches AssetAction::Extract { id } && id@ == canonical_id(
                    id_raw@,
                ),
            },
            AssetProgress::Extracted(Some(fresh)) if fresh@.len() > 0 => action matches AssetAction::Serve {
                extension,
                asset,
                store_under,
            } && extension@ == extension_of(filename@) && asset@ == fresh@
                && store_under.deep_view() == (if binary_fits(fresh@) {
                Some(asset_key(field_opt.deep_view(), canonical_id(id_raw@), filename@))
            } else {
                None
            }),
            AssetProgress::Extracted(_) => action is Missing,
        },
{
    match progress {
        AssetProgress::Requested => {
            let id = strip_version(id_raw);
            let key = build_asset_key(&field_opt, id.as_str(), filename);
            AssetAction::LookUp { id, key }
        },
        AssetProgress::Answered(reply) => match get_cached_asset(reply) {
            Ok(asset) => AssetAction::Serve {
                extension: asset_extension(filename),
                asset,
                store_under: None,
            },
            Err(_) => AssetAction::Extract { id: strip_version(id_raw) },
        },
        AssetProgress::Extracted(found) => match found {
            Some(asset) => {
                if asset.len() == 0 {
                    AssetAction::Missing
                } else {
                    let store_under = if binary_is_storable(&asset) {
                        let id = strip_version(id_raw);
                        Some(build_asset_key(&field_opt, id.as_str(), filename))
                    } else {
                        None
                    };
                    AssetAction::Serve { extension: asset_extension(filename), asset, store_under }
                }
            },
            None => AssetAction::Missing,
        },
    }
}

/// What is known so far of a request for the conversion report of a paper.
#[derive(Debug, PartialEq, Eq)]
pub enum LogProgress {
    /// Nothing yet.
    Requested,
    /// The cache was asked for the report and gave this answer.
    Answered(Result<String, ()>),
    /// The cache missed, and the archive held this log, or none.
    Extracted(Option<String>),
}

/// What is to be done next for a request for the conversion report of a paper.
#[derive(Debug, PartialEq, Eq)]
pub enum LogAction {
    /// Ask the cache for the report under `key`.
    LookUp { id: String, key: String },
    /// Read the log from the archive of the paper `id`.
    Extract { id: String },
    /// Serve the page, and store it under the key, if one is given.
    Serve { page: String, store_under: Option<String> },
    /// There is no report to serve.
    Missing,
}

/// The next step of serving the report of a paper through the cache: the
/// cache is asked first; a hit is served; on a miss the log is read from the
/// archive and made into a page, which is served and, unless it is over the
/// ceiling for texts, stored. Without a log there is no report.
pub fn assemble_log_with_cache(field_opt: Option<&str>, id_raw: &str, progress: LogProgress) -> (action:
    LogAction)
    ensures
        match progress {
            LogProgress::Requested => action matches LogAction::LookUp { id, key } && id@
                == canonical_id(id_raw@) && key@ == report_key(
                field_opt.deep_view(),
                canonical_id(id_raw@),
            ),
            LogProgress::Answered(reply) => match text_hit(text_reply(reply)) {
                Some(cached) => action matches LogAction::Serve { page, store_under } && page@
                    == cached && store_under is None,
                None => action matches LogAction::Extract { id } && id@ == canonical_id(id_raw@),
            },
            LogProgress::Extracted(Some(log)) => action matches LogAction::Serve {
                page,
                store_under,
            } && page@ == report_page(log@, arxiv_id(field_opt.deep_view(), canonical_id(id_raw@)))
                && store_under.deep_view() == (if page@.len() > 0 && text_fits(page@) {
                Some(report_key(field_opt.deep_view(), canonical_id(id_raw@)))
            } else {
                None
            }),
            LogProgress::Extracted(None) => action is Missing,
        },
{
    match progress {
        LogProgress::Requested => {
            let id = strip_version(id_raw);
            let key = build_report_key(&field_opt, id.as_str());
            LogAction::LookUp { id, key }
        },
        LogProgress::Answered(reply) => match cached_text(reply) {
            Some(page) => LogAction::Serve { page, store_under: None },
            None => LogAction::Extract { id: strip_version(id_raw) },
        },
        LogProgress::Extracted(found) => match found {
            Some(log) => {
                let id = strip_version(id_raw);
                let page = assemble_log(field_opt, id.as_str(), log.as_str());
                let store_under = if !page.as_str().is_empty() && text_is_storable(page.as_str()) {
                    Some(build_report_key(&field_opt, id.as_str()))
                } else {
                    None
                };
                LogAction::Serve { page, store_under }
            },
            None => LogAction::Missing,
        },
    }
}

/// The address of a paper picked by chance among `all_article_ids`, the ids
/// that the adjacency table knows; none where it knows no paper.
pub fn lucky_url(all_article_ids: Vec<String>) -> (url: Option<String>)
    ensures
        url is Some <==> all_article_ids@.len() > 0,
        url matches Some(address) ==> exists|i: int|
            0 <= i < all_article_ids@.len() && address@ == "/html/"@ + all_article_ids@[i]@,
{
    match pick_one(&all_article_ids) {
        Some(id) => {
            let ghost ids = all_article_ids.deep_view();
            let ghost i = choose|i: int| 0 <= i < ids.len() && ids[i] == id@;
            let mut address = String::from_str("/html/");
            address.append(id.as_str());
            assert(0 <= i < all_article_ids@.len() && address@ == "/html/"@ + all_article_ids@[i]@);
            Some(address)
        },
        None => None,
    }
}

/// The address that a request for a random paper is sent on to: that of the
/// paper that was picked, or of the fixed paper where none was.
pub fn lucky_address(picked: Option<&str>) -> (address: String)
    ensures
        address@ == "/html/"@ + (match picked {
            Some(id) => id@,
            None => FALLBACK_PAPER@,
        }),
{
    let mut address = String::from_str("/html/");
    match picked {
        Some(id) => address.append(id),
        None => address.append(FALLBACK_PAPER),
    }
    address
}

/// The number of ids that each pool of the picker has room for.
pub const LUCKY_CAPACITY: usize = 2_000_000;

/// A lap begins: the ids of `pool`, in an order that chance decides, become
/// the active ids, and the first of them is handed out and is the only spent
/// one. An empty pool hands out nothing.
pub open spec fn lap_begins(
    pool: Seq<Seq<char>>,
    active: Seq<Seq<char>>,
    spent: Seq<Seq<char>>,
    out: Option<Seq<char>>,
) -> bool {
    if pool.len() == 0 {
        out is None && active.len() == 0 && spent.len() == 0
    } else {
        out matches Some(id) && (seq![id] + active).to_multiset() == pool.to_multiset() && spent
            == seq![id]
    }
}

/// One pick: while active ids are left, the first of them is handed out and
/// moves to the spent ones. When none is left, a lap begins over the spent
/// ids, or, where nothing was spent either, over the corpus that the call was
/// given.
pub open spec fn lucky_step(
    active: Seq<Seq<char>>,
    spent: Seq<Seq<char>>,
    corpus: Seq<Seq<char>>,
    active_after: Seq<Seq<char>>,
    spent_after: Seq<Seq<char>>,
    out: Option<Seq<char>>,
) -> bool {
    if active.len() > 0 {
        out == Some(active[0]) && active_after == active.drop_first() && spent_after == spent.push(
            active[0],
        )
    } else if spent.len() > 0 {
        lap_begins(spent, active_after, spent_after, out)
    } else {
        lap_begins(corpus, active_after, spent_after, out)
    }
}

/// Hands out the ids of the corpus in laps: within a lap every id is handed
/// out once, in an order that chance decides anew for each lap.
pub struct LuckyStore(ArrayQueue<String>, ArrayQueue<String>);

impl LuckyStore {
    /// The ids still to be handed out in this lap, the next one first.
    pub closed spec fn active(&self) -> Seq<Seq<char>> {
        queued(self.0)
    }

    /// The ids handed out in this lap, in the order of their handing out.
    pub closed spec fn spent(&self) -> Seq<Seq<char>> {
        queued(self.1)
    }

    /// Both pools have the fixed capacity, and together they hold no more
    /// than one pool has room for.
    pub closed spec fn wf(&self) -> bool {
        &&& queue_limit(self.0) == LUCKY_CAPACITY
        &&& queue_limit(self.1) == LUCKY_CAPACITY
        &&& queued(self.0).len() + queued(self.1).len() <= LUCKY_CAPACITY
    }

    /// A store that has handed out nothing: both pools are empty.
    pub fn new() -> (store: Self)
        ensures
            store.wf(),
            store.active() == Seq::<Seq<char>>::empty(),
            store.spent() == Seq::<Seq<char>>::empty(),
    {
        LuckyStore(queue_new(LUCKY_CAPACITY), queue_new(LUCKY_CAPACITY))
    }

    /// Whether the store has handed out nothing yet, so that the next pick
    /// needs the corpus.
    pub fn is_cold(&self) -> (r: bool)
        ensures
            r == (self.active().len() == 0 && self.spent().len() == 0),
    {
        queue_is_empty(&self.0) && queue_is_empty(&self.1)
    }

    /// Takes the spent ids out of their pool, in the order in which they were
    /// spent.
    fn drain_spent(&mut self) -> (buffer: Vec<String>)
        requires
            old(self).wf(),
        ensures
            final(self).wf(),
            final(self).active() == old(self).active(),
            final(self).spent() == Seq::<Seq<char>>::empty(),
            buffer.deep_view() == old(self).spent(),
    {
        let mut buffer: Vec<String> = Vec::new();
        loop
            invariant
                self.wf(),
                self.active() == old(self).active(),
                buffer.deep_view() + self.spent() == old(self).spent(),
            ensures
                self.spent().len() == 0,
            decreases self.spent().len(),
        {
            let ghost before = buffer.deep_view();
            let ghost spent = self.spent();
            match queue_pop(&mut self.1) {
                Some(id) => {
                    buffer.push(id);
                    assert(buffer.deep_view() == before.push(spent[0]));
                    assert(before.push(spent[0]) + spent.drop_first() == before + spent);
                },
                None => {
                    break;
                },
            }
        }
        assert(buffer.deep_view() + self.spent() == buffer.deep_view());
        buffer
    }

    /// Puts the ids into the pool of active ones, in their order.
    fn load_active(&mut self, ids: Vec<String>)
        requires
            old(self).wf(),
            old(self).active().len() == 0,
            old(self).spent().len() == 0,
            ids@.len() <= LUCKY_CAPACITY,
        ensures
            final(self).wf(),
            final(self).active() == ids.deep_view(),
            final(self).spent() == old(self).spent(),
    {
        let ghost all = ids.deep_view();
        for id in it: ids.into_iter()
            invariant
                it.seq() == ids@,
                all == ids.deep_view(),
                all.len() <= LUCKY_CAPACITY,
                self.wf(),
                self.spent() == old(self).spent(),
                self.spent().len() == 0,
                self.active() == all.take(it.index() as int),
        {
            let ghost done = it.index() as int;
            assert(id@ == all[done]);
            let pushed = queue_push(&mut self.0, id);
            assert(self.active() == all.take(done + 1)) by {
                assert(all.take(done).push(all[done]) == all.take(done + 1));
            }
        }
        assert(all.take(all.len() as int) == all);
    }

    /// Picks the next id. `corpus` is the full set of ids, which only a store
    /// that has handed out nothing yet makes use of. The result is the first
    /// of the active ids; where none is left a new lap begins first, over the
    /// ids spent in the last lap, or over the corpus, shuffled. No id comes
    /// back only where there is none at all.
    pub fn get(&mut self, corpus: Vec<String>) -> (r: Option<String>)
        requires
            old(self).wf(),
            corpus@.len() <= LUCKY_CAPACITY,
        ensures
            final(self).wf(),
            lucky_step(
                old(self).active(),
                old(self).spent(),
                corpus.deep_view(),
                final(self).active(),
                final(self).spent(),
                r.deep_view(),
            ),
    {
        let ghost pool = if old(self).spent().len() > 0 {
            old(self).spent()
        } else {
            corpus.deep_view()
        };
        let refill = queue_is_empty(&self.0);
        if refill {
            let mut buffer = if queue_is_empty(&self.1) {
                corpus
            } else {
                self.drain_spent()
            };
            assert(buffer.deep_view() == pool);
            shuffle(&mut buffer);
            proof {
                to_multiset_len(buffer.deep_view());
                to_multiset_len(pool);
            }
            self.load_active(buffer);
        }
        let ghost active = self.active();
        let ghost spent = self.spent();
        match queue_pop(&mut self.0) {
            Some(next) => {
                let pushed = queue_push(&mut self.1, next.clone());
                proof {
                    if refill {
                        assert(seq![next@] + self.active() == active);
                        assert(self.spent() == seq![next@]);
                    }
                }
                Some(next)
            },
            None => None,
        }
    }
}

/// The ids that a run of picks handed out, in their order.
pub open spec fn handed_out(outs: Seq<Option<Seq<char>>>) -> Seq<Seq<char>> {
    Seq::new(
        outs.len(),
        |k: int|
            match outs[k] {
                Some(id) => id,
                None => Seq::empty(),
            },
    )
}

/// A run of picks from a store that had handed out nothing: `actives[k]` and
/// `spents[k]` are the pools before pick `k`, `outs[k]` is what the pick
/// handed out, and `corpora[k]` the corpus that it was given, which for the
/// first pick is `corpus`.
pub open spec fn is_run(
    corpus: Seq<Seq<char>>,
    actives: Seq<Seq<Seq<char>>>,
    spents: Seq<Seq<Seq<char>>>,
    corpora: Seq<Seq<Seq<char>>>,
    outs: Seq<Option<Seq<char>>>,
) -> bool {
    &&& outs.len() > 0
    &&& actives.len() == outs.len() + 1
    &&& spents.len() == outs.len() + 1
    &&& corpora.len() == outs.len()
    &&& actives[0].len() == 0
    &&& spents[0].len() == 0
    &&& corpora[0] == corpus
    &&& forall|k: int|
        0 <= k < outs.len() ==> #[trigger] lucky_step(
            actives[k],
            spents[k],
            corpora[k],
            actives[k + 1],
            spents[k + 1],
            outs[k],
        )
}

/// Between picks every id is in exactly one pool. Of a store that had handed
/// out nothing and was given a corpus that is not empty, after each pick the
/// spent and the active ids together are the ids of the corpus, each as often
/// as the corpus holds it; and every pick hands out an id.
pub proof fn lemma_pools_hold_the_corpus(
    corpus: Seq<Seq<char>>,
    actives: Seq<Seq<Seq<char>>>,
    spents: Seq<Seq<Seq<char>>>,
    corpora: Seq<Seq<Seq<char>>>,
    outs: Seq<Option<Seq<char>>>,
    k: int,
)
    requires
        corpus.len() > 0,
        is_run(corpus, actives, spents, corpora, outs),
        1 <= k <= outs.len(),
    ensures
        (spents[k] + actives[k]).to_multiset() == corpus.to_multiset(),
        outs[k - 1] is Some,
    decreases k,
{
    let j = k - 1;
    assert(lucky_step(actives[j], spents[j], corpora[j], actives[j + 1], spents[j + 1], outs[j]));
    if k > 1 {
        lemma_pools_hold_the_corpus(corpus, actives, spents, corpora, outs, k - 1);
        if actives[j].len() > 0 {
            assert(spents[k] + actives[k] == spents[j] + actives[j]);
        } else {
            assert(spents[j] + actives[j] == spents[j]);
            to_multiset_len(spents[j]);
            to_multiset_len(corpus);
        }
    }
}

/// After `k` picks of the first lap the spent ids are those handed out, and
/// spent and active ids together are the corpus.
proof fn lemma_first_lap(
    corpus: Seq<Seq<char>>,
    actives: Seq<Seq<Seq<char>>>,
    spents: Seq<Seq<Seq<char>>>,
    corpora: Seq<Seq<Seq<char>>>,
    outs: Seq<Option<Seq<char>>>,
    k: int,
)
    requires
        is_run(corpus, actives, spents, corpora, outs),
        1 <= k <= corpus.len(),
        k <= outs.len(),
    ensures
        forall|j: int| 0 <= j < k ==> outs[j] is Some,
        spents[k] == handed_out(outs.take(k)),
        (spents[k] + actives[k]).to_multiset() == corpus.to_multiset(),
        actives[k].len() == corpus.len() - k,
    decreases k,
{
    if k == 1 {
        let j = 0int;
        assert(lucky_step(
            actives[j],
            spents[j],
            corpora[j],
            actives[j + 1],
            spents[j + 1],
            outs[j],
        ));
        assert(spents[1] == handed_out(outs.take(1)));
    } else {
        lemma_first_lap(corpus, actives, spents, corpora, outs, k - 1);
        let j = k - 1;
        assert(lucky_step(
            actives[j],
            spents[j],
            corpora[j],
            actives[j + 1],
            spents[j + 1],
            outs[j],
        ));
        assert(spents[k] + actives[k] == spents[k - 1] + actives[k - 1]);
        assert(spents[k] == handed_out(outs.take(k))) by {
            assert(outs.take(k - 1) == outs.take(k).take(k - 1));
            assert(handed_out(outs.take(k)) == handed_out(outs.take(k - 1)).push(
                actives[k - 1][0],
            ));
        }
    }
    to_multiset_len(spents[k] + actives[k]);
    to_multiset_len(corpus);
}

/// A lap hands out every id once. Of a store that had handed out nothing and
/// was given a corpus of `n` ids, with `n` above zero, the first `n` picks
/// hand out an id each, and together exactly the ids of the corpus, each as
/// often as the corpus holds it. The pick after them begins a new lap over
/// the same ids.
pub proof fn lemma_lap_hands_out_each_id_once(
    corpus: Seq<Seq<char>>,
    actives: Seq<Seq<Seq<char>>>,
    spents: Seq<Seq<Seq<char>>>,
    corpora: Seq<Seq<Seq<char>>>,
    outs: Seq<Option<Seq<char>>>,
)
    requires
        corpus.len() > 0,
        outs.len() == corpus.len() + 1,
        is_run(corpus, actives, spents, corpora, outs),
    ensures
        forall|k: int| 0 <= k < corpus.len() ==> outs[k] is Some,
        handed_out(outs.take(corpus.len() as int)).to_multiset() == corpus.to_multiset(),
        lap_begins(
            handed_out(outs.take(corpus.len() as int)),
            actives[corpus.len() as int + 1],
            spents[corpus.len() as int + 1],
            outs[corpus.len() as int],
        ),
{
    let n = corpus.len() as int;
    lemma_first_lap(corpus, actives, spents, corpora, outs, n);
    assert(spents[n] + actives[n] == spents[n]);
    assert(lucky_step(actives[n], spents[n], corpora[n], actives[n + 1], spents[n + 1], outs[n]));
    assert(spents[n].len() == n);
}

impl Default for LuckyStore {
    /// A store that has handed out nothing.
    fn default() -> (store: Self)
        ensures
            store.wf(),
            store.active() == Seq::<Seq<char>>::empty(),
            store.spent() == Seq::<Seq<char>>::empty(),
    {
        Self::new()
    }
}

} // verus!
