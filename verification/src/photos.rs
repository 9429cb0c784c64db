//! Photographs and the index of the collection: what is kept of each
//! photograph, how it is put into albums, and the snapshot that is built of
//! all photographs and albums together.

use vstd::prelude::*;

use vstd::pervasive::unreached;
use vstd::string::StringExecFns;

use crate::albums::{
    albums_model, auto_path, auto_ref, auto_wf, builders_model, date_index, find_date,
    captures, lemma_date_index, lemma_with_capture, lemma_with_photo, ref_model, refs_model,
    texts,
    with_capture, with_photo, Album, AlbumKind, AlbumModel, AlbumReference, AutoAlbumModel,
    AutoDateAlbumBuilder, RefModel,
};
use crate::guarantees::lemma_snapshot_wf;
use crate::hashing::{content_hash, hash, hash_text, ContentHash, HASH_LEN};
use crate::manifest::{
    all_path, effective, entry_at, entry_model, entry_photos, favorites_path, find_entry,
    find_repeat, find_unsafe, find_unsafe_path, first_repeat, first_unsafe, kind_at, kind_of,
    lemma_last_with_path, lemma_missing_upto, manifest_model, membership, membership_of,
    missing_from, missing_photos, named_photos, paths, references, references_upto,
    reserved_used, AlbumDisplayOrder, EntryModel, ParsedAlbum,
};
use crate::metadata::{ExifModel, PhotoExifInfo};
use crate::text::{str_eq, str_le, text_le};
use crate::time::DateView;
use crate::util::{markdown_html, markdown_to_html, uri_idempotent};

verus! {

/// Approximate pixel count of the smaller versions of images, about 800 by
/// 600.
pub const SMALL_IMG_APROX_PIXELCOUNT: u64 = 480_000;

/// Whether an image of the given size has more pixels than the smaller
/// versions are meant to have, so that it has to be scaled down.
pub fn exceeds_pixel_budget(width: u32, height: u32) -> (r: bool)
    ensures
        r == (width * height > SMALL_IMG_APROX_PIXELCOUNT),
{
    assert(width * height <= 0xffff_ffff * 0xffff_ffff) by (nonlinear_arith)
        requires
            width <= 0xffff_ffff,
            height <= 0xffff_ffff,
    ;
    (width as u64) * (height as u64) > SMALL_IMG_APROX_PIXELCOUNT
}

/// What an `InMemImg` stands for.
pub struct ImgModel {
    pub height: u32,
    pub width: u32,
    pub hash: Seq<char>,
    pub img_data: Seq<u8>,
}

/// The smaller version of an image, encoded and held in memory together
/// with the content hash of the encoding.
#[derive(Debug)]
pub struct InMemImg {
    height: u32,
    width: u32,
    hash: ContentHash,
    img_data: Vec<u8>,
}

impl View for InMemImg {
    type V = ImgModel;

    closed spec fn view(&self) -> ImgModel {
        ImgModel {
            height: self.height,
            width: self.width,
            hash: self.hash@,
            img_data: self.img_data@,
        }
    }
}

impl InMemImg {
    /// The hash of every image is the content hash of its encoding.
    #[verifier::type_invariant]
    pub open spec fn well_formed(self) -> bool {
        self@.hash == content_hash(self@.img_data)
    }

    /// The image of the given size and encoding, with the content hash of
    /// the encoding.
    pub fn new(width: u32, height: u32, img_data: Vec<u8>) -> (r: InMemImg)
        ensures
            r@ == (ImgModel { height, width, hash: content_hash(img_data@), img_data: img_data@ }),
    {
        let hash = ContentHash::of(img_data.as_slice());
        InMemImg { height, width, hash, img_data }
    }

    pub fn height(&self) -> (h: u32)
        ensures
            h == self@.height,
    {
        self.height
    }

    pub fn width(&self) -> (w: u32)
        ensures
            w == self@.width,
    {
        self.width
    }

    /// The content hash of the encoding.
    pub fn hash(&self) -> (h: &str)
        ensures
            h@ == self@.hash,
            h@ == content_hash(self@.img_data),
            hash_text(h@),
            h@.len() == HASH_LEN,
            uri_idempotent(h@),
    {
        proof {
            use_type_invariant(self);
        }
        self.hash.as_str()
    }

    /// The encoded image.
    pub fn img_data(&self) -> (data: &Vec<u8>)
        ensures
            data@ == self@.img_data,
    {
        &self.img_data
    }
}

/// What a `PhotoSource` stands for.
pub struct SourceModel {
    pub file_name: Seq<char>,
    pub exif: ExifModel,
    pub full_img_hash: Seq<char>,
    pub smaller_webp: ImgModel,
}

/// What is known of a photograph from its own file: its name, its metadata,
/// the content hash of the file and the smaller version of the image.
#[derive(Debug)]
pub struct PhotoSource {
    pub file_name: String,
    pub exif_info: PhotoExifInfo,
    pub full_img_hash: ContentHash,
    pub smaller_webp: InMemImg,
}

impl View for PhotoSource {
    type V = SourceModel;

    open spec fn view(&self) -> SourceModel {
        SourceModel {
            file_name: self.file_name@,
            exif: self.exif_info@,
            full_img_hash: self.full_img_hash@,
            smaller_webp: self.smaller_webp@,
        }
    }
}

impl PhotoSource {
    /// What is known of a photograph from its file, given the metadata that
    /// was read from the file and the smaller version that was made of it:
    /// the file is hashed here.
    pub fn new(
        file_name: String,
        exif_info: PhotoExifInfo,
        img_data: &[u8],
        smaller_webp: InMemImg,
    ) -> (r: PhotoSource)
        ensures
            r@ == (SourceModel {
                file_name: file_name@,
                exif: exif_info@,
                full_img_hash: content_hash(img_data@),
                smaller_webp: smaller_webp@,
            }),
    {
        let full_img_hash = ContentHash::of(img_data);
        PhotoSource { file_name, exif_info, full_img_hash, smaller_webp }
    }
}

/// The first index from `from` on at which the batch holds an error, or the
/// length of the batch.
pub open spec fn first_error<T, E>(results: Seq<Result<T, E>>, from: int) -> int
    decreases results.len() - from,
{
    if from >= results.len() {
        results.len() as int
    } else if from >= 0 && results[from] is Err {
        from
    } else {
        first_error(results, from + 1)
    }
}

/// The outcome of a batch of work that was done item by item: all of the
/// results in their order where every item succeeded, else the first error
/// in that order. Nothing is kept of a batch in which an item failed.
pub fn fail_fast<T, E>(results: Vec<Result<T, E>>) -> (r: Result<Vec<T>, E>)
    ensures
        match r {
            Ok(all) => first_error(results@, 0) == results@.len() && all@.len() == results@.len()
                && forall|i: int|
                0 <= i < all@.len() ==> results@[i] == Ok::<T, E>(#[trigger] all@[i]),
            Err(e) => first_error(results@, 0) < results@.len() && results@[first_error(
                results@,
                0,
            )] == Err::<T, E>(e),
        },
{
    let ghost batch = results@;
    let mut all: Vec<T> = Vec::new();
    for result in it: results
        invariant
            it.seq() == batch,
            all@.len() == it.index(),
            first_error(batch, 0) == first_error(batch, it.index() as int),
            forall|i: int| 0 <= i < all@.len() ==> batch[i] == Ok::<T, E>(#[trigger] all@[i]),
    {
        match result {
            Ok(value) => {
                all.push(value);
            },
            Err(e) => {
                return Err(e);
            },
        }
    }
    Ok(all)
}

/// Why a photograph could not be put into its albums.
#[derive(Clone, Copy, Debug, PartialEq, Eq, Structural)]
pub enum PhotoError {
    /// More than one album of a place holds the photograph.
    MultipleLocationAlbums,
    /// More than one album of a day holds the photograph.
    MultipleDayAlbums,
    /// The album that would be made for the day of the photograph has the
    /// path of an album of the manifest.
    AutoAlbumPathTaken,
}

/// What a `PhotoInfo` stands for.
pub struct PhotoModel {
    pub file_name: Seq<char>,
    pub exif: ExifModel,
    pub is_favorite: bool,
    pub albums: Seq<RefModel>,
    pub location: Option<RefModel>,
    pub day_album: RefModel,
    pub smaller_webp: ImgModel,
    pub full_img_hash: Seq<char>,
}

/// A photograph of the collection.
#[derive(Debug)]
pub struct PhotoInfo {
    /// The name of the file without its extension, by which the photograph
    /// is found.
    pub file_name: String,
    pub exif_info: PhotoExifInfo,
    /// Whether the photograph is in the album of favorites.
    pub is_favorite: bool,
    /// The albums that hold the photograph, but for the album of its place,
    /// the album of its day and the album of favorites; ordered by name.
    pub albums: Vec<AlbumReference>,
    /// The album of the place at which the photograph was taken.
    pub location: Option<AlbumReference>,
    /// The album of the day on which the photograph was taken.
    pub day_album: AlbumReference,
    pub smaller_webp: InMemImg,
    /// The content hash of the file.
    pub full_img_hash: ContentHash,
}

impl View for PhotoInfo {
    type V = PhotoModel;

    open spec fn view(&self) -> PhotoModel {
        PhotoModel {
            file_name: self.file_name@,
            exif: self.exif_info@,
            is_favorite: self.is_favorite,
            albums: refs_model(self.albums@),
            location: ref_model(self.location),
            day_album: self.day_album@,
            smaller_webp: self.smaller_webp@,
            full_img_hash: self.full_img_hash@,
        }
    }
}

/// Whether the manifest gives the album of a reference the kind `kind`.
pub open spec fn is_kind(m: Seq<EntryModel>, r: RefModel, kind: AlbumKind) -> bool {
    kind_at(m, r.path) == Some(kind)
}

/// How many of the first `n` references go to an album of the kind.
pub open spec fn count_kind(m: Seq<EntryModel>, refs: Seq<RefModel>, kind: AlbumKind, n: int) -> nat
    decreases n,
{
    if n <= 0 {
        0
    } else if is_kind(m, refs[n - 1], kind) {
        count_kind(m, refs, kind, n - 1) + 1
    } else {
        count_kind(m, refs, kind, n - 1)
    }
}

/// The first reference from `from` on that goes to an album of the kind, or
/// the length of the list.
pub open spec fn first_kind(m: Seq<EntryModel>, refs: Seq<RefModel>, kind: AlbumKind, from: int) -> int
    decreases refs.len() - from,
{
    if from >= refs.len() {
        refs.len() as int
    } else if is_kind(m, refs[from], kind) {
        from
    } else {
        first_kind(m, refs, kind, from + 1)
    }
}

/// Whether a reference goes to an album of no place and no day.
pub open spec fn is_plain(m: Seq<EntryModel>, r: RefModel) -> bool {
    !is_kind(m, r, AlbumKind::Location) && !is_kind(m, r, AlbumKind::Day)
}

/// Whether one of the first `n` references goes to the album of favorites,
/// whatever kind the manifest gives that album.
pub open spec fn favorite_upto(refs: Seq<RefModel>, n: int) -> bool
    decreases n,
{
    n > 0 && (favorite_upto(refs, n - 1) || refs[n - 1].path == favorites_path())
}

/// The first index from `from` on whose name comes after `name`, or the
/// length of the list.
pub open spec fn name_rank(list: Seq<RefModel>, name: Seq<char>, from: int) -> int
    decreases list.len() - from,
{
    if from >= list.len() {
        list.len() as int
    } else if !text_le(list[from].name, name) {
        from
    } else {
        name_rank(list, name, from + 1)
    }
}

/// The references among the first `n` that go to an album of no place and no
/// day other than the favorites, ordered by name, those of one name in the
/// order of the list.
pub open spec fn tags_upto(m: Seq<EntryModel>, refs: Seq<RefModel>, n: int) -> Seq<RefModel>
    decreases n,
{
    if n <= 0 {
        Seq::empty()
    } else if is_plain(m, refs[n - 1]) && refs[n - 1].path != favorites_path() {
        tags_upto(m, refs, n - 1).insert(
            name_rank(tags_upto(m, refs, n - 1), refs[n - 1].name, 0),
            refs[n - 1],
        )
    } else {
        tags_upto(m, refs, n - 1)
    }
}

/// Why a photograph with the given references, taken on `date`, cannot be
/// put into its albums, if it cannot: the albums of a place are counted
/// first, then those of a day, and where there is none of a day and none
/// was made for the day yet, the path of the one to be made is looked up in
/// the manifest.
pub open spec fn photo_error(
    m: Seq<EntryModel>,
    refs: Seq<RefModel>,
    date: DateView,
    auto: Seq<AutoAlbumModel>,
) -> Option<PhotoError> {
    if count_kind(m, refs, AlbumKind::Location, refs.len() as int) > 1 {
        Some(PhotoError::MultipleLocationAlbums)
    } else if count_kind(m, refs, AlbumKind::Day, refs.len() as int) > 1 {
        Some(PhotoError::MultipleDayAlbums)
    } else if count_kind(m, refs, AlbumKind::Day, refs.len() as int) == 0 && date_index(
        auto,
        date,
        0,
    ) >= auto.len() && entry_at(m, auto_path(date)) >= 0 {
        Some(PhotoError::AutoAlbumPathTaken)
    } else {
        None
    }
}

/// The photograph as the index keeps it, given the references that the
/// manifest gives it.
pub open spec fn photo_record(m: Seq<EntryModel>, source: SourceModel, refs: Seq<RefModel>) -> PhotoModel {
    PhotoModel {
        file_name: source.file_name,
        exif: source.exif,
        is_favorite: favorite_upto(refs, refs.len() as int),
        albums: tags_upto(m, refs, refs.len() as int),
        location: if first_kind(m, refs, AlbumKind::Location, 0) < refs.len() {
            Some(refs[first_kind(m, refs, AlbumKind::Location, 0)])
        } else {
            None
        },
        day_album: if first_kind(m, refs, AlbumKind::Day, 0) < refs.len() {
            refs[first_kind(m, refs, AlbumKind::Day, 0)]
        } else {
            auto_ref(source.exif.actual_datetime.date())
        },
        smaller_webp: source.smaller_webp,
        full_img_hash: source.full_img_hash,
    }
}

/// The albums made for days after the photograph has been put into its
/// albums: it goes into the album of its day where no album of the manifest
/// is its album of the day.
pub open spec fn auto_after(
    m: Seq<EntryModel>,
    source: SourceModel,
    refs: Seq<RefModel>,
    auto: Seq<AutoAlbumModel>,
) -> Seq<AutoAlbumModel> {
    if count_kind(m, refs, AlbumKind::Day, refs.len() as int) == 0 {
        with_capture(
            auto,
            source.exif.actual_datetime.date(),
            source.exif.actual_datetime.unix_seconds,
            source.file_name,
        )
    } else {
        auto
    }
}

/// A reference of the kind stands among the first `n` exactly when one is
/// counted there, and the first one is where `first_kind` says.
pub proof fn lemma_count_first(m: Seq<EntryModel>, refs: Seq<RefModel>, kind: AlbumKind, n: int)
    requires
        0 <= n <= refs.len(),
    ensures
        count_kind(m, refs, kind, n) <= n,
        count_kind(m, refs, kind, n) == 0 <==> first_kind(m, refs, kind, 0) >= n,
        0 <= first_kind(m, refs, kind, 0) <= refs.len(),
        first_kind(m, refs, kind, 0) < refs.len() ==> is_kind(
            m,
            refs[first_kind(m, refs, kind, 0)],
            kind,
        ),
    decreases n,
{
    lemma_first_kind(m, refs, kind, 0);
    if n > 0 {
        lemma_count_first(m, refs, kind, n - 1);
    }
}

/// What `first_kind` finds: a reference of the kind, and none before it.
pub proof fn lemma_first_kind(m: Seq<EntryModel>, refs: Seq<RefModel>, kind: AlbumKind, from: int)
    requires
        0 <= from <= refs.len(),
    ensures
        from <= first_kind(m, refs, kind, from) <= refs.len(),
        first_kind(m, refs, kind, from) < refs.len() ==> is_kind(
            m,
            refs[first_kind(m, refs, kind, from)],
            kind,
        ),
        forall|i: int|
            from <= i < first_kind(m, refs, kind, from) ==> !is_kind(m, #[trigger] refs[i], kind),
    decreases refs.len() - from,
{
    if from < refs.len() && !is_kind(m, refs[from], kind) {
        lemma_first_kind(m, refs, kind, from + 1);
    }
}

/// The first index from `from` on that holds `id`, or the length of the
/// list.
pub open spec fn photo_index(ids: Seq<Seq<char>>, id: Seq<char>, from: int) -> int
    decreases ids.len() - from,
{
    if from >= ids.len() {
        ids.len() as int
    } else if ids[from] == id {
        from
    } else {
        photo_index(ids, id, from + 1)
    }
}

/// The places in `ids` of the photographs that `names` names.
pub open spec fn resolved(ids: Seq<Seq<char>>, names: Seq<Seq<char>>) -> Seq<usize> {
    Seq::new(names.len(), |i: int| photo_index(ids, names[i], 0) as usize)
}

/// Whether a photograph taken at `time` goes before one taken at `other`
/// that is in the order already: only where it is strictly newer, when the
/// newest come first, or strictly older, when the oldest come first.
pub open spec fn goes_before(time: i64, other: i64, newest_first: bool) -> bool {
    if newest_first {
        other < time
    } else {
        other > time
    }
}

/// Where a photograph taken at `time` goes into an order of photographs:
/// after every one that is not later, when the oldest come first, and after
/// every one that is not earlier, when the newest come first.
pub open spec fn insert_point(
    times: Seq<i64>,
    order: Seq<usize>,
    time: i64,
    newest_first: bool,
    from: int,
) -> int
    decreases order.len() - from,
{
    if from >= order.len() {
        order.len() as int
    } else if goes_before(time, times[order[from] as int], newest_first) {
        from
    } else {
        insert_point(times, order, time, newest_first, from + 1)
    }
}

/// The first `n` photographs in the order of their capture, oldest or
/// newest first; photographs of one moment in the order of the list.
pub open spec fn time_order(times: Seq<i64>, newest_first: bool, n: int) -> Seq<usize>
    decreases n,
{
    if n <= 0 {
        Seq::empty()
    } else {
        time_order(times, newest_first, n - 1).insert(
            insert_point(
                times,
                time_order(times, newest_first, n - 1),
                times[n - 1],
                newest_first,
                0,
            ),
            (n - 1) as usize,
        )
    }
}

/// What `photo_index` finds: the first place of `id`.
pub proof fn lemma_photo_index(ids: Seq<Seq<char>>, id: Seq<char>, from: int)
    requires
        0 <= from <= ids.len(),
    ensures
        from <= photo_index(ids, id, from) <= ids.len(),
        photo_index(ids, id, from) < ids.len() ==> ids[photo_index(ids, id, from)] == id,
        forall|i: int| from <= i < photo_index(ids, id, from) ==> #[trigger] ids[i] != id,
        ids.contains(id) ==> photo_index(ids, id, 0) < ids.len(),
    decreases ids.len() - from,
{
    if from < ids.len() && ids[from] != id {
        lemma_photo_index(ids, id, from + 1);
    }
    if ids.contains(id) {
        let k = choose|k: int| 0 <= k < ids.len() && ids[k] == id;
        lemma_photo_index_finds(ids, id, 0, k);
    }
}

/// `photo_index` stops at or before any place that holds `id`.
proof fn lemma_photo_index_finds(ids: Seq<Seq<char>>, id: Seq<char>, from: int, k: int)
    requires
        0 <= from <= k < ids.len(),
        ids[k] == id,
    ensures
        photo_index(ids, id, from) <= k,
    decreases k - from,
{
    if ids[from] != id {
        lemma_photo_index_finds(ids, id, from + 1, k);
    }
}

/// What `insert_point` finds.
pub proof fn lemma_insert_point(
    times: Seq<i64>,
    order: Seq<usize>,
    time: i64,
    newest_first: bool,
    from: int,
)
    requires
        0 <= from <= order.len(),
    ensures
        from <= insert_point(times, order, time, newest_first, from) <= order.len(),
        forall|i: int|
            from <= i < insert_point(times, order, time, newest_first, from) ==> !goes_before(
                time,
                times[#[trigger] order[i] as int],
                newest_first,
            ),
        insert_point(times, order, time, newest_first, from) < order.len() ==> goes_before(
            time,
            times[order[insert_point(times, order, time, newest_first, from)] as int],
            newest_first,
        ),
    decreases order.len() - from,
{
    if from < order.len() && !goes_before(time, times[order[from] as int], newest_first) {
        lemma_insert_point(times, order, time, newest_first, from + 1);
    }
}

/// Whether the photographs of an order follow each other in time.
pub open spec fn in_time_order(times: Seq<i64>, order: Seq<usize>, newest_first: bool) -> bool {
    forall|i: int, j: int|
        0 <= i < j < order.len() ==> (if newest_first {
            times[#[trigger] order[i] as int] >= times[#[trigger] order[j] as int]
        } else {
            times[order[i] as int] <= times[order[j] as int]
        })
}

/// The order of the first `n` photographs holds each of them once, and they
/// follow each other in time.
pub proof fn lemma_time_order(times: Seq<i64>, newest_first: bool, n: int)
    requires
        0 <= n <= times.len(),
        times.len() <= usize::MAX,
    ensures
        time_order(times, newest_first, n).len() == n,
        forall|i: int| 0 <= i < n ==> 0 <= #[trigger] time_order(times, newest_first, n)[i] < n,
        forall|k: usize| k < n ==> #[trigger] time_order(times, newest_first, n).contains(k),
        time_order(times, newest_first, n).no_duplicates(),
        in_time_order(times, time_order(times, newest_first, n), newest_first),
    decreases n,
{
    if n > 0 {
        lemma_time_order(times, newest_first, n - 1);
        let prev = time_order(times, newest_first, n - 1);
        let p = insert_point(times, prev, times[n - 1], newest_first, 0);
        lemma_insert_point(times, prev, times[n - 1], newest_first, 0);
        let out = time_order(times, newest_first, n);
        assert(out == prev.insert(p, (n - 1) as usize));
        assert forall|k: usize| k < n implies #[trigger] out.contains(k) by {
            if k == n - 1 {
                assert(out[p] == k);
            } else {
                assert(prev.contains(k));
                let j = choose|j: int| 0 <= j < prev.len() && #[trigger] prev[j] == k;
                if j < p {
                    assert(out[j] == k);
                } else {
                    assert(out[j + 1] == k);
                }
            }
        }
        assert forall|i: int, j: int| 0 <= i < j < out.len() implies out[i] != out[j] by {
            let a = if i < p { i } else { i - 1 };
            let b = if j < p { j } else { j - 1 };
            if i != p && j != p {
                assert(out[i] == prev[a]);
                assert(out[j] == prev[b]);
            } else if i == p {
                assert(out[j] == prev[b]);
            } else {
                assert(out[i] == prev[a]);
            }
        }
        assert forall|i: int, j: int| 0 <= i < j < out.len() implies (if newest_first {
            times[#[trigger] out[i] as int] >= times[#[trigger] out[j] as int]
        } else {
            times[out[i] as int] <= times[out[j] as int]
        }) by {
            let a = if i < p { i } else { i - 1 };
            let b = if j < p { j } else { j - 1 };
            if i != p && j != p {
                assert(out[i] == prev[a]);
                assert(out[j] == prev[b]);
            } else if i == p {
                assert(out[j] == prev[b]);
                assert(out[i] == (n - 1) as usize);
                if p < prev.len() {
                    assert(prev[p] == prev[p]);
                }
            } else {
                assert(out[i] == prev[a]);
                assert(out[j] == (n - 1) as usize);
            }
        }
    }
}

/// Computes `goes_before`.
fn goes_before_exec(time: i64, other: i64, newest_first: bool) -> (r: bool)
    ensures
        r == goes_before(time, other, newest_first),
{
    if newest_first {
        other < time
    } else {
        other > time
    }
}

/// The place of a photograph that is in the list.
pub fn find_photo(ids: &Vec<String>, id: &str) -> (r: Option<usize>)
    ensures
        match r {
            Some(i) => i == photo_index(texts(ids@), id@, 0) && i < ids@.len(),
            None => photo_index(texts(ids@), id@, 0) == ids@.len(),
        },
{
    let mut i: usize = 0;
    while i < ids.len()
        invariant
            i <= ids.len(),
            photo_index(texts(ids@), id@, 0) == photo_index(texts(ids@), id@, i as int),
        decreases ids.len() - i,
    {
        assert(texts(ids@)[i as int] == ids@[i as int]@);
        if str_eq(ids[i].as_str(), id) {
            return Some(i);
        }
        i += 1;
    }
    None
}

/// The photographs in the order of their capture, oldest or newest first;
/// photographs of one moment in the order of the list.
pub fn sort_by_time(times: &Vec<i64>, newest_first: bool) -> (order: Vec<usize>)
    ensures
        order@ == time_order(times@, newest_first, times@.len() as int),
{
    let mut order: Vec<usize> = Vec::new();
    let mut n: usize = 0;
    assert(order@ =~= time_order(times@, newest_first, 0));
    while n < times.len()
        invariant
            n <= times.len(),
            order@ == time_order(times@, newest_first, n as int),
        decreases times.len() - n,
    {
        proof {
            lemma_time_order(times@, newest_first, n as int);
        }
        let time = times[n];
        let mut p: usize = 0;
        while p < order.len() && !goes_before_exec(time, times[order[p]], newest_first)
            invariant
                p <= order.len(),
                n < times.len(),
                time == times@[n as int],
                order@.len() == n,
                forall|i: int| 0 <= i < n ==> 0 <= #[trigger] order@[i] < n,
                insert_point(times@, order@, time, newest_first, 0) == insert_point(
                    times@,
                    order@,
                    time,
                    newest_first,
                    p as int,
                ),
            decreases order.len() - p,
        {
            p += 1;
        }
        order.insert(p, n);
        n += 1;
    }
    order
}

/// Whether `ids` holds every one of `names`.
pub open spec fn all_known(ids: Seq<Seq<char>>, names: Seq<Seq<char>>) -> bool {
    forall|i: int| 0 <= i < names.len() ==> ids.contains(#[trigger] names[i])
}

/// The names of the photographs of an album made for a day, in order.
pub open spec fn capture_ids(photos: Seq<(i64, Seq<char>)>) -> Seq<Seq<char>> {
    Seq::new(photos.len(), |i: int| photos[i].1)
}

/// The album of the index that an entry of the manifest declares.
pub open spec fn entry_album(ids: Seq<Seq<char>>, e: EntryModel) -> AlbumModel {
    AlbumModel {
        name: e.name,
        path: e.path,
        description: markdown_html(e.description),
        kind: e.kind,
        cover_img: photo_index(ids, e.cover_img, 0) as usize,
        photos: if e.from_last {
            resolved(ids, e.photos).reverse()
        } else {
            resolved(ids, e.photos)
        },
    }
}

/// The albums of the index that the manifest declares, entry by entry. An
/// entry whose path is declared again later stands for the later one.
pub open spec fn manifest_albums(m: Seq<EntryModel>, ids: Seq<Seq<char>>) -> Seq<AlbumModel> {
    Seq::new(m.len(), |i: int| entry_album(ids, m[entry_at(m, m[i].path)]))
}

/// The album of the index for an album made for a day: its photographs in
/// the order of their capture, the first of them as its cover.
pub open spec fn day_album(ids: Seq<Seq<char>>, a: AutoAlbumModel) -> AlbumModel {
    AlbumModel {
        name: a.name,
        path: a.path,
        description: markdown_html(a.description),
        kind: Some(AlbumKind::Day),
        cover_img: resolved(ids, capture_ids(a.photos))[0],
        photos: resolved(ids, capture_ids(a.photos)),
    }
}

/// The albums of the index for the albums made for days.
pub open spec fn day_albums(ids: Seq<Seq<char>>, auto: Seq<AutoAlbumModel>) -> Seq<AlbumModel> {
    Seq::new(auto.len(), |k: int| day_album(ids, auto[k]))
}

/// The name of the album of every photograph.
pub open spec fn all_name() -> Seq<char> {
    "All photos"@
}

/// The description of the album of every photograph.
pub open spec fn all_description() -> Seq<char> {
    "All of my photos on this site, each and every one"@
}

/// The album of every photograph: the newest first, and as its cover the
/// one in the middle of that order.
pub open spec fn all_album(times: Seq<i64>) -> AlbumModel {
    AlbumModel {
        name: all_name(),
        path: all_path(),
        description: all_description(),
        kind: Some(AlbumKind::All),
        cover_img: time_order(times, true, times.len() as int)[times.len() as int / 2],
        photos: time_order(times, true, times.len() as int),
    }
}

/// Those of the first `n` entries of the manifest whose album has the given
/// kind, in the order of the manifest.
pub open spec fn grouped(m: Seq<EntryModel>, kind: Option<AlbumKind>, n: int) -> Seq<usize>
    decreases n,
{
    if n <= 0 {
        Seq::empty()
    } else if m[entry_at(m, m[n - 1].path)].kind == kind {
        grouped(m, kind, n - 1).push((n - 1) as usize)
    } else {
        grouped(m, kind, n - 1)
    }
}

/// The names of the photographs, in order.
pub open spec fn ids_of(sources: Seq<SourceModel>) -> Seq<Seq<char>> {
    Seq::new(sources.len(), |k: int| sources[k].file_name)
}

/// The moments of capture of the photographs, in order.
pub open spec fn times_of(sources: Seq<SourceModel>) -> Seq<i64> {
    Seq::new(sources.len(), |k: int| sources[k].exif.actual_datetime.unix_seconds)
}

/// The views of a list of photograph sources.
pub open spec fn sources_model(v: Seq<PhotoSource>) -> Seq<SourceModel> {
    Seq::new(v.len(), |k: int| v[k]@)
}

/// The views of a list of photographs.
pub open spec fn photos_model(v: Seq<PhotoInfo>) -> Seq<PhotoModel> {
    Seq::new(v.len(), |k: int| v[k]@)
}

/// The albums made for days once the first `k` photographs have been put
/// into their albums.
pub open spec fn auto_upto(m: Seq<EntryModel>, sources: Seq<SourceModel>, k: int) -> Seq<
    AutoAlbumModel,
>
    decreases k,
{
    if k <= 0 {
        Seq::empty()
    } else {
        auto_after(
            m,
            sources[k - 1],
            membership_of(m, sources[k - 1].file_name),
            auto_upto(m, sources, k - 1),
        )
    }
}

/// Why photograph `k` cannot be put into its albums, if it cannot, once
/// those before it have been.
pub open spec fn photo_error_at(m: Seq<EntryModel>, sources: Seq<SourceModel>, k: int) -> Option<
    PhotoError,
> {
    photo_error(
        m,
        membership_of(m, sources[k].file_name),
        sources[k].exif.actual_datetime.date(),
        auto_upto(m, sources, k),
    )
}

/// The first photograph from `from` on that cannot be put into its albums,
/// or the number of photographs.
pub open spec fn first_failure(m: Seq<EntryModel>, sources: Seq<SourceModel>, from: int) -> int
    decreases sources.len() - from,
{
    if from >= sources.len() {
        sources.len() as int
    } else if from >= 0 && photo_error_at(m, sources, from) is Some {
        from
    } else {
        first_failure(m, sources, from + 1)
    }
}

/// What a `BuildError` stands for.
pub enum BuildErrorModel {
    ReservedAlbumName,
    BadAlbumPath(Seq<char>),
    BadFileName(Seq<char>),
    DuplicatePhoto(Seq<char>),
    MissingPhotos(Seq<Seq<char>>),
    NoPhotos,
    Photo { file_name: Seq<char>, error: PhotoError },
}

/// Why no index could be built.
#[derive(Debug)]
pub enum BuildError {
    /// The manifest declares an album at the path kept for the album of
    /// every photograph.
    ReservedAlbumName,
    /// The path of an album is not URI encoded to itself.
    BadAlbumPath(String),
    /// The name of a photograph is not URI encoded to itself.
    BadFileName(String),
    /// Two files give the same name to their photograph.
    DuplicatePhoto(String),
    /// The manifest names photographs that there is no file for.
    MissingPhotos(Vec<String>),
    /// There is no photograph at all.
    NoPhotos,
    /// A photograph could not be put into its albums.
    Photo { file_name: String, error: PhotoError },
}

impl View for BuildError {
    type V = BuildErrorModel;

    open spec fn view(&self) -> BuildErrorModel {
        match self {
            BuildError::ReservedAlbumName => BuildErrorModel::ReservedAlbumName,
            BuildError::BadAlbumPath(p) => BuildErrorModel::BadAlbumPath(p@),
            BuildError::BadFileName(n) => BuildErrorModel::BadFileName(n@),
            BuildError::DuplicatePhoto(n) => BuildErrorModel::DuplicatePhoto(n@),
            BuildError::MissingPhotos(l) => BuildErrorModel::MissingPhotos(texts(l@)),
            BuildError::NoPhotos => BuildErrorModel::NoPhotos,
            BuildError::Photo { file_name, error } => BuildErrorModel::Photo {
                file_name: file_name@,
                error: *error,
            },
        }
    }
}

/// What is wrong with a manifest by itself, if anything: the reserved path
/// is looked for first, then a path of an album that is not URI encoded to
/// itself.
pub open spec fn manifest_error(m: Seq<EntryModel>) -> Option<BuildErrorModel> {
    if reserved_used(m) {
        Some(BuildErrorModel::ReservedAlbumName)
    } else if first_unsafe(paths(m), 0) < m.len() {
        Some(BuildErrorModel::BadAlbumPath(m[first_unsafe(paths(m), 0)].path))
    } else {
        None
    }
}

/// What is wrong with a manifest and a list of photographs before any
/// photograph is looked at, if anything: after what is wrong with the
/// manifest by itself comes a name of a photograph that is not URI encoded
/// to itself, a name that two photographs share, and photographs that the
/// manifest names and the list lacks.
pub open spec fn input_error(m: Seq<EntryModel>, ids: Seq<Seq<char>>) -> Option<BuildErrorModel> {
    if manifest_error(m) is Some {
        manifest_error(m)
    } else if first_unsafe(ids, 0) < ids.len() {
        Some(BuildErrorModel::BadFileName(ids[first_unsafe(ids, 0)]))
    } else if first_repeat(ids, 0) < ids.len() {
        Some(BuildErrorModel::DuplicatePhoto(ids[first_repeat(ids, 0)]))
    } else if missing_photos(m, ids).len() > 0 {
        Some(BuildErrorModel::MissingPhotos(missing_photos(m, ids)))
    } else {
        None
    }
}

/// Why no index can be built of a manifest and a list of photographs, if
/// none can: after what is wrong with the input as a whole comes the lack
/// of any photograph, then the first photograph that cannot be put into its
/// albums.
pub open spec fn build_error(m: Seq<EntryModel>, sources: Seq<SourceModel>) -> Option<
    BuildErrorModel,
> {
    if input_error(m, ids_of(sources)) is Some {
        input_error(m, ids_of(sources))
    } else if sources.len() == 0 {
        Some(BuildErrorModel::NoPhotos)
    } else if first_failure(m, sources, 0) < sources.len() {
        Some(
            BuildErrorModel::Photo {
                file_name: sources[first_failure(m, sources, 0)].file_name,
                error: photo_error_at(m, sources, first_failure(m, sources, 0))->0,
            },
        )
    } else {
        None
    }
}

/// What a `PhotosState` stands for.
pub struct StateModel {
    pub albums: Seq<AlbumModel>,
    pub normal_albums: Seq<usize>,
    pub days: Seq<usize>,
    pub locations: Seq<usize>,
    pub images: Seq<PhotoModel>,
    pub images_by_time: Seq<usize>,
}

/// Whether every place of the list is below `n`.
pub open spec fn all_below(list: Seq<usize>, n: int) -> bool {
    forall|i: int| 0 <= i < list.len() ==> #[trigger] list[i] < n
}

/// Whether an album names only photographs among the first `n`.
pub open spec fn album_within(album: AlbumModel, n: int) -> bool {
    album.cover_img < n && all_below(album.photos, n)
}

impl StateModel {
    /// Whether the index hangs together: it has a photograph, its albums
    /// name photographs that it has, its groups name albums that it has,
    /// and its order in time holds as many photographs as it has.
    pub open spec fn wf(self) -> bool {
        &&& self.images.len() > 0
        &&& forall|a: int|
            0 <= a < self.albums.len() ==> album_within(
                #[trigger] self.albums[a],
                self.images.len() as int,
            )
        &&& all_below(self.normal_albums, self.albums.len() as int)
        &&& all_below(self.days, self.albums.len() as int)
        &&& all_below(self.locations, self.albums.len() as int)
        &&& all_below(self.images_by_time, self.images.len() as int)
        &&& self.images_by_time.len() == self.images.len()
    }
}

/// The index that is built of a manifest and a list of photographs: the
/// photographs in the order of the list, each put into its albums; the
/// albums of the manifest in its order, then the albums made for days in
/// the order in which they were first needed, then the album of every
/// photograph; the albums of the manifest grouped by kind; and the
/// photographs from the oldest to the newest.
pub open spec fn snapshot(m: Seq<EntryModel>, sources: Seq<SourceModel>) -> StateModel {
    StateModel {
        albums: manifest_albums(m, ids_of(sources)) + day_albums(
            ids_of(sources),
            auto_upto(m, sources, sources.len() as int),
        ) + seq![all_album(times_of(sources))],
        normal_albums: grouped(m, None, m.len() as int),
        days: grouped(m, Some(AlbumKind::Day), m.len() as int),
        locations: grouped(m, Some(AlbumKind::Location), m.len() as int),
        images: Seq::new(
            sources.len(),
            |k: int| photo_record(m, sources[k], membership_of(m, sources[k].file_name)),
        ),
        images_by_time: time_order(times_of(sources), false, sources.len() as int),
    }
}

/// The albums of the manifest, each in one of three lists by its kind and
/// named by its place among the albums of the index; the lists keep the
/// order of the manifest.
#[derive(Debug)]
pub struct AlbumsInOrder {
    pub normal_albums: Vec<usize>,
    pub days: Vec<usize>,
    pub locations: Vec<usize>,
}

/// The index of the collection: every photograph and every album. Albums
/// name photographs by their place in `images`.
#[derive(Debug)]
pub struct PhotosState {
    /// Every album: those of the manifest in its order, those made for
    /// days, and last the album of every photograph.
    pub albums: Vec<Album>,
    /// The albums of the manifest by kind.
    pub albums_in_order: AlbumsInOrder,
    /// Every photograph, in the order in which the files were handed in.
    pub images: Vec<PhotoInfo>,
    /// Every photograph, from the oldest to the newest.
    pub images_by_time: Vec<usize>,
}

impl View for PhotosState {
    type V = StateModel;

    open spec fn view(&self) -> StateModel {
        StateModel {
            albums: albums_model(self.albums@),
            normal_albums: self.albums_in_order.normal_albums@,
            days: self.albums_in_order.days@,
            locations: self.albums_in_order.locations@,
            images: photos_model(self.images@),
            images_by_time: self.images_by_time@,
        }
    }
}

/// The entry that counts for the path of an entry is an entry that counts
/// for its own path.
pub proof fn lemma_entry_at(m: Seq<EntryModel>, i: int)
    requires
        0 <= i < m.len(),
    ensures
        i <= entry_at(m, m[i].path) < m.len(),
        m[entry_at(m, m[i].path)].path == m[i].path,
        effective(m, entry_at(m, m[i].path)),
{
    lemma_last_with_path(m, m[i].path, m.len() as int);
}

/// Every photograph that an entry that counts names is among the
/// photographs that the manifest names.
proof fn lemma_references_hold(m: Seq<EntryModel>, n: int, i: int, j: int)
    requires
        0 <= i < n <= m.len(),
        effective(m, i),
        0 <= j < entry_photos(m[i]).len(),
    ensures
        references_upto(m, n).contains(entry_photos(m[i])[j]),
    decreases n,
{
    if i == n - 1 {
        let before = references_upto(m, n - 1);
        assert(references_upto(m, n)[before.len() + j] == entry_photos(m[i])[j]);
    } else {
        lemma_references_hold(m, n - 1, i, j);
        let x = entry_photos(m[i])[j];
        let earlier = references_upto(m, n - 1);
        let k = choose|k: int| 0 <= k < earlier.len() && #[trigger] earlier[k] == x;
        assert(references_upto(m, n)[k] == x);
    }
}

/// Where no photograph is missing, the list of photographs holds every
/// photograph that an entry that counts names.
pub proof fn lemma_nothing_missing(m: Seq<EntryModel>, ids: Seq<Seq<char>>, i: int)
    requires
        missing_photos(m, ids).len() == 0,
        0 <= i < m.len(),
        effective(m, i),
    ensures
        all_known(ids, entry_photos(m[i])),
        all_known(ids, m[i].photos),
        ids.contains(m[i].cover_img),
{
    let names = references(m);
    lemma_missing_upto(names, ids, names.len() as int);
    assert forall|j: int| 0 <= j < entry_photos(m[i]).len() implies ids.contains(
        #[trigger] entry_photos(m[i])[j],
    ) by {
        lemma_references_hold(m, m.len() as int, i, j);
        let x = entry_photos(m[i])[j];
        let k = choose|k: int| 0 <= k < names.len() && names[k] == x;
        if !ids.contains(names[k]) {
            assert(missing_photos(m, ids).contains(names[k]));
        }
    }
    assert forall|j: int| 0 <= j < m[i].photos.len() implies ids.contains(
        #[trigger] m[i].photos[j],
    ) by {
        assert(entry_photos(m[i])[j] == m[i].photos[j]);
    }
    assert(entry_photos(m[i])[m[i].photos.len() as int] == m[i].cover_img);
}

/// Whether a photograph among the first `k` that no album of the manifest
/// claims for its day was taken on `date` at the moment, and has the name,
/// of `entry`.
pub open spec fn has_capture(
    m: Seq<EntryModel>,
    sources: Seq<SourceModel>,
    k: int,
    date: DateView,
    entry: (i64, Seq<char>),
) -> bool {
    exists|j: int|
        0 <= j < k && #[trigger] sources[j].file_name == entry.1
            && sources[j].exif.actual_datetime.unix_seconds == entry.0
            && sources[j].exif.actual_datetime.date() == date && count_kind(
            m,
            membership_of(m, sources[j].file_name),
            AlbumKind::Day,
            membership_of(m, sources[j].file_name).len() as int,
        ) == 0
}

/// The albums made for days are well formed, hold only photographs that no
/// album of the manifest claims for its day, each in the album of its own
/// day, and there is an album for the day of every such photograph.
pub proof fn lemma_auto_upto(m: Seq<EntryModel>, sources: Seq<SourceModel>, k: int)
    requires
        0 <= k <= sources.len(),
    ensures
        auto_wf(auto_upto(m, sources, k)),
        forall|a: int, e: int|
            0 <= a < auto_upto(m, sources, k).len() && 0 <= e < auto_upto(
                m,
                sources,
                k,
            )[a].photos.len() ==> has_capture(
                m,
                sources,
                k,
                auto_upto(m, sources, k)[a].date,
                #[trigger] auto_upto(m, sources, k)[a].photos[e],
            ),
        forall|j: int|
            0 <= j < k && count_kind(
                m,
                membership_of(m, sources[j].file_name),
                AlbumKind::Day,
                membership_of(m, sources[j].file_name).len() as int,
            ) == 0 ==> date_index(
                auto_upto(m, sources, k),
                (#[trigger] sources[j]).exif.actual_datetime.date(),
                0,
            ) < auto_upto(m, sources, k).len(),
    decreases k,
{
    if k > 0 {
        lemma_auto_upto(m, sources, k - 1);
        let prev = auto_upto(m, sources, k - 1);
        let cur = auto_upto(m, sources, k);
        let src = sources[k - 1];
        let refs = membership_of(m, src.file_name);
        let date = src.exif.actual_datetime.date();
        let time = src.exif.actual_datetime.unix_seconds;
        if count_kind(m, refs, AlbumKind::Day, refs.len() as int) == 0 {
            lemma_with_capture(prev, date, time, src.file_name);
            lemma_date_index(prev, date, 0);
            let d = date_index(prev, date, 0);
            assert forall|a: int, e: int|
                0 <= a < cur.len() && 0 <= e < cur[a].photos.len() implies has_capture(
                m,
                sources,
                k,
                cur[a].date,
                #[trigger] cur[a].photos[e],
            ) by {
                let entry = cur[a].photos[e];
                if a == d {
                    let old_photos = if d < prev.len() {
                        prev[d].photos
                    } else {
                        Seq::empty()
                    };
                    lemma_with_photo(old_photos, time, src.file_name);
                    assert(cur[a].photos == with_photo(old_photos, time, src.file_name));
                    assert(cur[a].photos.contains(entry));
                    if entry == (time, src.file_name) {
                        assert(sources[k - 1].file_name == entry.1);
                    } else {
                        assert(old_photos.contains(entry));
                        let e0 = choose|e0: int|
                            0 <= e0 < old_photos.len() && old_photos[e0] == entry;
                        assert(has_capture(m, sources, k - 1, prev[a].date, prev[a].photos[e0]));
                    }
                } else {
                    assert(cur[a] == prev[a]);
                    assert(has_capture(m, sources, k - 1, prev[a].date, prev[a].photos[e]));
                }
            }
        } else {
            assert forall|a: int, e: int|
                0 <= a < cur.len() && 0 <= e < cur[a].photos.len() implies has_capture(
                m,
                sources,
                k,
                cur[a].date,
                #[trigger] cur[a].photos[e],
            ) by {
                assert(has_capture(m, sources, k - 1, prev[a].date, prev[a].photos[e]));
            }
        }
    }
}


/// The place of a photograph that the list holds.
fn resolve(ids: &Vec<String>, id: &str) -> (i: usize)
    requires
        texts(ids@).contains(id@),
    ensures
        i == photo_index(texts(ids@), id@, 0),
        i < ids@.len(),
{
    proof {
        lemma_photo_index(texts(ids@), id@, 0);
    }
    match find_photo(ids, id) {
        Some(i) => i,
        None => unreached(),
    }
}

/// The places of the photographs that `names` names.
fn resolve_all(ids: &Vec<String>, names: &Vec<String>) -> (places: Vec<usize>)
    requires
        all_known(texts(ids@), texts(names@)),
    ensures
        places@ == resolved(texts(ids@), texts(names@)),
{
    let mut places: Vec<usize> = Vec::new();
    let mut i: usize = 0;
    while i < names.len()
        invariant
            i <= names.len(),
            all_known(texts(ids@), texts(names@)),
            places@.len() == i,
            forall|j: int| 0 <= j < i ==> places@[j] == resolved(texts(ids@), texts(names@))[j],
        decreases names.len() - i,
    {
        assert(texts(names@)[i as int] == names@[i as int]@);
        places.push(resolve(ids, names[i].as_str()));
        i += 1;
    }
    assert(places@ =~= resolved(texts(ids@), texts(names@)));
    places
}

/// The places of the photographs of an album made for a day.
fn resolve_captures(ids: &Vec<String>, photos: &Vec<(i64, String)>) -> (places: Vec<usize>)
    requires
        all_known(texts(ids@), capture_ids(captures(photos@))),
    ensures
        places@ == resolved(texts(ids@), capture_ids(captures(photos@))),
{
    let ghost names = capture_ids(captures(photos@));
    let mut places: Vec<usize> = Vec::new();
    let mut i: usize = 0;
    while i < photos.len()
        invariant
            i <= photos.len(),
            names == capture_ids(captures(photos@)),
            all_known(texts(ids@), names),
            places@.len() == i,
            forall|j: int| 0 <= j < i ==> places@[j] == resolved(texts(ids@), names)[j],
        decreases photos.len() - i,
    {
        assert(names[i as int] == photos@[i as int].1@);
        places.push(resolve(ids, photos[i].1.as_str()));
        i += 1;
    }
    assert(places@ =~= resolved(texts(ids@), names));
    places
}

/// The list from its last element to its first.
fn reversed(list: &Vec<usize>) -> (r: Vec<usize>)
    ensures
        r@ == list@.reverse(),
{
    let n: usize = list.len();
    let mut r: Vec<usize> = Vec::new();
    let mut i: usize = 0;
    while i < n
        invariant
            n == list@.len(),
            i <= n,
            r@.len() == i,
            forall|j: int| 0 <= j < i ==> r@[j] == list@[n - 1 - j],
        decreases n - i,
    {
        r.push(list[n - 1 - i]);
        i += 1;
    }
    assert(r@ =~= list@.reverse());
    r
}

/// The album of the index that an entry of the manifest declares.
fn build_entry_album(entry: &(String, ParsedAlbum), ids: &Vec<String>) -> (album: Album)
    requires
        all_known(texts(ids@), entry_model(*entry).photos),
        texts(ids@).contains(entry_model(*entry).cover_img),
    ensures
        album@ == entry_album(texts(ids@), entry_model(*entry)),
{
    let parsed = &entry.1;
    let listed = resolve_all(ids, &parsed.photos);
    let photos = match parsed.display {
        AlbumDisplayOrder::FromLast => reversed(&listed),
        AlbumDisplayOrder::FromFirst => listed,
    };
    Album {
        name: parsed.name.clone(),
        path: entry.0.clone(),
        description: markdown_to_html(parsed.description.as_str()),
        kind: match &parsed.kind {
            None => None,
            Some(kind) => Some(AlbumKind::from(kind)),
        },
        cover_img: resolve(ids, parsed.cover_img.as_str()),
        photos,
    }
}

/// The album of the index for an album made for a day.
fn build_day_album(builder: &AutoDateAlbumBuilder, ids: &Vec<String>) -> (album: Album)
    requires
        builder@.photos.len() > 0,
        all_known(texts(ids@), capture_ids(builder@.photos)),
    ensures
        album@ == day_album(texts(ids@), builder@),
{
    let photos = resolve_captures(ids, &builder.photos);
    Album {
        name: builder.name.clone(),
        path: builder.path.clone(),
        description: markdown_to_html(builder.description.as_str()),
        kind: Some(AlbumKind::Day),
        cover_img: photos[0],
        photos,
    }
}

/// The album of every photograph.
fn build_all_album(times: &Vec<i64>) -> (album: Album)
    requires
        times@.len() > 0,
    ensures
        album@ == all_album(times@),
{
    let count: usize = times.len();
    let photos = sort_by_time(times, true);
    proof {
        lemma_time_order(times@, true, count as int);
    }
    Album {
        name: String::from_str("All photos"),
        path: String::from_str("all"),
        description: String::from_str("All of my photos on this site, each and every one"),
        kind: Some(AlbumKind::All),
        cover_img: photos[count / 2],
        photos,
    }
}

/// Whether two kinds are the same.
fn same_kind(a: Option<AlbumKind>, b: Option<AlbumKind>) -> (r: bool)
    ensures
        r == (a == b),
{
    match (a, b) {
        (None, None) => true,
        (Some(AlbumKind::Day), Some(AlbumKind::Day)) => true,
        (Some(AlbumKind::Location), Some(AlbumKind::Location)) => true,
        (Some(AlbumKind::All), Some(AlbumKind::All)) => true,
        _ => false,
    }
}

/// The entries of the manifest whose album has the given kind, in the order
/// of the manifest.
fn group(entries: &Vec<(String, ParsedAlbum)>, kind: Option<AlbumKind>) -> (list: Vec<usize>)
    ensures
        list@ == grouped(manifest_model(entries@), kind, entries@.len() as int),
{
    let ghost m = manifest_model(entries@);
    let mut list: Vec<usize> = Vec::new();
    let mut i: usize = 0;
    assert(list@ =~= grouped(m, kind, 0));
    while i < entries.len()
        invariant
            i <= entries.len(),
            m == manifest_model(entries@),
            list@ == grouped(m, kind, i as int),
        decreases entries.len() - i,
    {
        proof {
            lemma_entry_at(m, i as int);
        }
        let j = match find_entry(entries, entries[i].0.as_str()) {
            Some(j) => j,
            None => unreached(),
        };
        let found = match &entries[j].1.kind {
            None => None,
            Some(parsed) => Some(AlbumKind::from(parsed)),
        };
        if same_kind(found, kind) {
            list.push(i);
        }
        i += 1;
    }
    list
}

/// Counting references of a kind among more of them counts no fewer.
proof fn lemma_count_grows(m: Seq<EntryModel>, refs: Seq<RefModel>, kind: AlbumKind, a: int, b: int)
    requires
        0 <= a <= b <= refs.len(),
    ensures
        count_kind(m, refs, kind, a) <= count_kind(m, refs, kind, b),
    decreases b - a,
{
    if a < b {
        lemma_count_grows(m, refs, kind, a, b - 1);
    }
}

/// The place of the single reference that goes to an album of the kind:
/// nothing where there is none, and an error where there is more than one.
fn extract_kind(
    albums: &Vec<AlbumReference>,
    all_albums: &Vec<(String, ParsedAlbum)>,
    kind: AlbumKind,
) -> (r: Result<Option<usize>, ()>)
    ensures
        match r {
            Ok(None) => count_kind(
                manifest_model(all_albums@),
                refs_model(albums@),
                kind,
                albums@.len() as int,
            ) == 0,
            Ok(Some(i)) => count_kind(
                manifest_model(all_albums@),
                refs_model(albums@),
                kind,
                albums@.len() as int,
            ) == 1 && i == first_kind(manifest_model(all_albums@), refs_model(albums@), kind, 0)
                && i < albums@.len(),
            Err(_) => count_kind(
                manifest_model(all_albums@),
                refs_model(albums@),
                kind,
                albums@.len() as int,
            ) > 1,
        },
{
    let ghost m = manifest_model(all_albums@);
    let ghost refs = refs_model(albums@);
    let mut found: Option<usize> = None;
    let mut i: usize = 0;
    proof {
        lemma_first_kind(m, refs, kind, 0);
    }
    while i < albums.len()
        invariant
            i <= albums.len(),
            m == manifest_model(all_albums@),
            refs == refs_model(albums@),
            found is None ==> count_kind(m, refs, kind, i as int) == 0,
            found matches Some(f) ==> count_kind(m, refs, kind, i as int) == 1 && f == first_kind(
                m,
                refs,
                kind,
                0,
            ) && f < i,
        decreases albums.len() - i,
    {
        assert(albums@[i as int]@ == refs[i as int]);
        proof {
            lemma_count_first(m, refs, kind, i as int);
            lemma_first_kind(m, refs, kind, 0);
        }
        if same_kind(kind_of(all_albums, albums[i].path.as_str()), Some(kind)) {
            match PhotosState::fold_extract_single(found, i) {
                Ok(next) => {
                    found = next;
                },
                Err(()) => {
                    proof {
                        lemma_count_grows(m, refs, kind, i + 1, albums@.len() as int);
                    }
                    return Err(());
                },
            }
        }
        i += 1;
    }
    Ok(found)
}

impl PhotosState {
    /// Returns the content hash of the data: its SHA-256 digest in URL-safe
    /// base64.
    pub fn hash(data: &[u8]) -> (h: String)
        ensures
            h@ == content_hash(data@),
            hash_text(h@),
            h@.len() == HASH_LEN,
            uri_idempotent(h@),
    {
        hash(data)
    }

    /// Keeps a value only if it is the first: the step of a fold that ends
    /// with the single value of a sequence, or fails at the second.
    pub fn fold_extract_single<T>(acc: Option<T>, val: T) -> (r: Result<Option<T>, ()>)
        ensures
            acc is None ==> r == Ok::<Option<T>, ()>(Some(val)),
            acc is Some ==> r is Err,
    {
        match acc {
            None => Ok(Some(val)),
            Some(_) => Err(()),
        }
    }

    /// Puts a photograph into its albums: takes the album of its place and
    /// the album of its day out of the references that the manifest gives
    /// it, puts it into the album made for its day where the manifest names
    /// none, marks it where it is a favorite, and orders the other
    /// references by name.
    pub fn process_photo(
        source: PhotoSource,
        albums: &Vec<AlbumReference>,
        all_albums: &Vec<(String, ParsedAlbum)>,
        auto_date_albums: &mut Vec<AutoDateAlbumBuilder>,
    ) -> (r: Result<PhotoInfo, PhotoError>)
        requires
            auto_wf(builders_model(old(auto_date_albums)@)),
        ensures
            auto_wf(builders_model(final(auto_date_albums)@)),
            match photo_error(
                manifest_model(all_albums@),
                refs_model(albums@),
                source@.exif.actual_datetime.date(),
                builders_model(old(auto_date_albums)@),
            ) {
                Some(e) => r matches Err(x) && x == e && builders_model(final(auto_date_albums)@)
                    == builders_model(old(auto_date_albums)@),
                None => r matches Ok(photo) && photo@ == photo_record(
                    manifest_model(all_albums@),
                    source@,
                    refs_model(albums@),
                ) && builders_model(final(auto_date_albums)@) == auto_after(
                    manifest_model(all_albums@),
                    source@,
                    refs_model(albums@),
                    builders_model(old(auto_date_albums)@),
                ),
            },
    {
        let ghost m = manifest_model(all_albums@);
        let ghost refs = refs_model(albums@);
        let ghost auto = builders_model(auto_date_albums@);
        let n: usize = albums.len();
        let location_album_idx = match extract_kind(albums, all_albums, AlbumKind::Location) {
            Ok(found) => found,
            Err(()) => {
                return Err(PhotoError::MultipleLocationAlbums);
            },
        };
        let maybe_day_album = match extract_kind(albums, all_albums, AlbumKind::Day) {
            Ok(found) => found,
            Err(()) => {
                return Err(PhotoError::MultipleDayAlbums);
            },
        };
        let location = match location_album_idx {
            Some(i) => Some(albums[i].duplicate()),
            None => None,
        };
        let day = match maybe_day_album {
            Some(i) => Some(albums[i].duplicate()),
            None => None,
        };
        proof {
            lemma_count_first(m, refs, AlbumKind::Location, n as int);
            lemma_count_first(m, refs, AlbumKind::Day, n as int);
        }
        let mut is_favorite = false;
        let mut tags: Vec<AlbumReference> = Vec::new();
        let mut i: usize = 0;
        assert(refs_model(tags@) =~= tags_upto(m, refs, 0));
        while i < n
            invariant
                n == albums@.len(),
                i <= n,
                m == manifest_model(all_albums@),
                refs == refs_model(albums@),
                is_favorite == favorite_upto(refs, i as int),
                refs_model(tags@) == tags_upto(m, refs, i as int),
            decreases n - i,
        {
            let r = &albums[i];
            assert(r@ == refs[i as int]);
            let in_favorites = str_eq(r.path.as_str(), "favorites");
            if in_favorites {
                is_favorite = true;
            }
            match kind_of(all_albums, r.path.as_str()) {
                Some(AlbumKind::Location) => {},
                Some(AlbumKind::Day) => {},
                _ => {
                    if !in_favorites {
                        let ghost sorted = refs_model(tags@);
                        let mut p: usize = 0;
                        while p < tags.len() && str_le(tags[p].name.as_str(), r.name.as_str())
                            invariant
                                p <= tags.len(),
                                sorted == refs_model(tags@),
                                name_rank(sorted, r@.name, 0) == name_rank(sorted, r@.name, p as int),
                            decreases tags.len() - p,
                        {
                            assert(sorted[p as int] == tags@[p as int]@);
                            p += 1;
                        }
                        assert(p < tags.len() ==> sorted[p as int] == tags@[p as int]@);
                        tags.insert(p, r.duplicate());
                        assert(refs_model(tags@) =~= sorted.insert(p as int, r@));
                    }
                },
            }
            i += 1;
        }
        let day_album = match day {
            Some(r) => r,
            None => {
                let date = source.exif_info.actual_datetime.date();
                let time = source.exif_info.actual_datetime.unix_seconds();
                proof {
                    lemma_with_capture(auto, date@, time, source.file_name@);
                    lemma_date_index(auto, date@, 0);
                }
                match find_date(auto_date_albums, &date) {
                    Some(k) => {
                        let mut album = auto_date_albums.remove(k);
                        assert(album@ == auto[k as int]);
                        album.insert(time, source.file_name.clone());
                        let reference = album.reference();
                        auto_date_albums.insert(k, album);
                        assert(builders_model(auto_date_albums@) =~= with_capture(
                            auto,
                            date@,
                            time,
                            source.file_name@,
                        ));
                        reference
                    },
                    None => {
                        let mut album = AutoDateAlbumBuilder::new(date);
                        if find_entry(all_albums, album.path.as_str()).is_some() {
                            return Err(PhotoError::AutoAlbumPathTaken);
                        }
                        album.insert(time, source.file_name.clone());
                        let reference = album.reference();
                        auto_date_albums.push(album);
                        assert(builders_model(auto_date_albums@) =~= with_capture(
                            auto,
                            date@,
                            time,
                            source.file_name@,
                        ));
                        reference
                    },
                }
            },
        };
        Ok(
            PhotoInfo {
                file_name: source.file_name,
                exif_info: source.exif_info,
                is_favorite,
                albums: tags,
                location,
                day_album,
                smaller_webp: source.smaller_webp,
                full_img_hash: source.full_img_hash,
            },
        )
    }

    /// Checks a manifest by itself, before any file is looked for.
    pub fn check_manifest(albums_info: &Vec<(String, ParsedAlbum)>) -> (r: Result<(), BuildError>)
        ensures
            match manifest_error(manifest_model(albums_info@)) {
                Some(e) => r matches Err(x) && x@ == e,
                None => r is Ok,
            },
    {
        if find_entry(albums_info, "all").is_some() {
            return Err(BuildError::ReservedAlbumName);
        }
        match find_unsafe_path(albums_info) {
            Some(i) => Err(BuildError::BadAlbumPath(albums_info[i].0.clone())),
            None => Ok(()),
        }
    }

    /// Checks a manifest and the names of the photographs before any
    /// photograph is looked at.
    pub fn check_inputs(albums_info: &Vec<(String, ParsedAlbum)>, file_names: &Vec<String>) -> (r:
        Result<(), BuildError>)
        ensures
            match input_error(manifest_model(albums_info@), texts(file_names@)) {
                Some(e) => r matches Err(x) && x@ == e,
                None => r is Ok,
            },
    {
        match Self::check_manifest(albums_info) {
            Err(e) => {
                return Err(e);
            },
            Ok(()) => {},
        }
        match find_unsafe(file_names) {
            Some(i) => {
                assert(texts(file_names@)[i as int] == file_names@[i as int]@);
                return Err(BuildError::BadFileName(file_names[i].clone()));
            },
            None => {},
        }
        match find_repeat(file_names) {
            Some(i) => {
                assert(texts(file_names@)[i as int] == file_names@[i as int]@);
                return Err(BuildError::DuplicatePhoto(file_names[i].clone()));
            },
            None => {},
        }
        let names = named_photos(albums_info);
        let missing = missing_from(&names, file_names);
        if missing.len() > 0 {
            return Err(BuildError::MissingPhotos(missing));
        }
        assert(texts(missing@).len() == missing@.len());
        Ok(())
    }

    /// Builds the index of the collection from the manifest and from what
    /// is known of each photograph from its file.
    ///
    /// Fails as a whole at the first thing that is wrong; nothing is built
    /// of a part of the photographs.
    pub fn new(albums_info: Vec<(String, ParsedAlbum)>, sources: Vec<PhotoSource>) -> (r: Result<
        PhotosState,
        BuildError,
    >)
        ensures
            match build_error(manifest_model(albums_info@), sources_model(sources@)) {
                Some(e) => r matches Err(x) && x@ == e,
                None => r matches Ok(state) && state@ == snapshot(
                    manifest_model(albums_info@),
                    sources_model(sources@),
                ) && state@.wf(),
            },
    {
        let ghost m = manifest_model(albums_info@);
        let ghost all = sources@;
        let ghost s = sources_model(sources@);
        let count: usize = sources.len();
        let mut ids: Vec<String> = Vec::new();
        let mut times: Vec<i64> = Vec::new();
        let mut k: usize = 0;
        while k < count
            invariant
                count == sources@.len(),
                k <= count,
                s == sources_model(sources@),
                ids@.len() == k,
                times@.len() == k,
                forall|j: int| 0 <= j < k ==> (#[trigger] ids@[j])@ == ids_of(s)[j],
                forall|j: int| 0 <= j < k ==> #[trigger] times@[j] == times_of(s)[j],
            decreases count - k,
        {
            ids.push(sources[k].file_name.clone());
            times.push(sources[k].exif_info.actual_datetime.unix_seconds());
            k += 1;
        }
        assert(texts(ids@) =~= ids_of(s));
        assert(times@ =~= times_of(s));
        match Self::check_inputs(&albums_info, &ids) {
            Err(e) => {
                return Err(e);
            },
            Ok(()) => {},
        }
        if count == 0 {
            return Err(BuildError::NoPhotos);
        }
        let mut images: Vec<PhotoInfo> = Vec::new();
        let mut auto: Vec<AutoDateAlbumBuilder> = Vec::new();
        assert(builders_model(auto@) =~= auto_upto(m, s, 0));
        for source in it: sources
            invariant
                it.seq() == all,
                all == sources@,
                s == sources_model(all),
                m == manifest_model(albums_info@),
                count == all.len(),
                count > 0,
                texts(ids@) == ids_of(s),
                input_error(m, ids_of(s)) is None,
                images@.len() == it.index(),
                auto_wf(builders_model(auto@)),
                builders_model(auto@) == auto_upto(m, s, it.index() as int),
                first_failure(m, s, 0) == first_failure(m, s, it.index() as int),
                forall|j: int|
                    0 <= j < images@.len() ==> (#[trigger] images@[j])@ == photo_record(
                        m,
                        s[j],
                        membership_of(m, s[j].file_name),
                    ),
        {
            let ghost here = it.index() as int;
            assert(source@ == s[here]);
            assert(ids_of(s)[here] == s[here].file_name);
            assert(texts(ids@)[here] == ids@[here]@);
            let file_name = ids[images.len()].clone();
            let refs = membership(&albums_info, source.file_name.as_str());
            match Self::process_photo(source, &refs, &albums_info, &mut auto) {
                Err(error) => {
                    return Err(BuildError::Photo { file_name, error });
                },
                Ok(photo) => {
                    images.push(photo);
                },
            }
        }
        assert(first_failure(m, s, 0) == count);
        proof {
            lemma_auto_upto(m, s, count as int);
        }
        let mut albums: Vec<Album> = Vec::new();
        let mut i: usize = 0;
        while i < albums_info.len()
            invariant
                i <= albums_info.len(),
                m == manifest_model(albums_info@),
                input_error(m, texts(ids@)) is None,
                albums@.len() == i,
                forall|j: int|
                    0 <= j < i ==> (#[trigger] albums@[j])@ == manifest_albums(m, texts(ids@))[j],
            decreases albums_info.len() - i,
        {
            proof {
                lemma_entry_at(m, i as int);
                lemma_nothing_missing(m, texts(ids@), entry_at(m, m[i as int].path));
            }
            let j = match find_entry(&albums_info, albums_info[i].0.as_str()) {
                Some(j) => j,
                None => unreached(),
            };
            albums.push(build_entry_album(&albums_info[j], &ids));
            i += 1;
        }
        let ghost days = auto_upto(m, s, count as int);
        let mut d: usize = 0;
        while d < auto.len()
            invariant
                d <= auto.len(),
                m == manifest_model(albums_info@),
                builders_model(auto@) == days,
                days == auto_upto(m, s, count as int),
                auto_wf(days),
                texts(ids@) == ids_of(s),
                count == s.len(),
                forall|a: int, e: int|
                    0 <= a < days.len() && 0 <= e < days[a].photos.len() ==> has_capture(
                        m,
                        s,
                        count as int,
                        days[a].date,
                        #[trigger] days[a].photos[e],
                    ),
                albums@.len() == albums_info@.len() + d,
                forall|j: int|
                    0 <= j < albums@.len() ==> (#[trigger] albums@[j])@ == (manifest_albums(
                        m,
                        texts(ids@),
                    ) + day_albums(texts(ids@), days))[j],
            decreases auto.len() - d,
        {
            assert(auto@[d as int]@ == days[d as int]);
            assert forall|e: int| 0 <= e < capture_ids(days[d as int].photos).len() implies texts(
                ids@,
            ).contains(#[trigger] capture_ids(days[d as int].photos)[e]) by {
                assert(has_capture(m, s, count as int, days[d as int].date, days[d as int].photos[e]));
                let j = choose|j: int|
                    0 <= j < count && #[trigger] s[j].file_name == days[d as int].photos[e].1;
                assert(ids_of(s)[j] == s[j].file_name);
            }
            albums.push(build_day_album(&auto[d], &ids));
            assert(manifest_albums(m, texts(ids@)).len() == albums_info@.len());
            assert((manifest_albums(m, texts(ids@)) + day_albums(texts(ids@), days))[albums_info@.len()
                + d] == day_albums(texts(ids@), days)[d as int]);
            d += 1;
        }
        albums.push(build_all_album(&times));
        let normal_albums = group(&albums_info, None);
        let days_list = group(&albums_info, Some(AlbumKind::Day));
        let locations = group(&albums_info, Some(AlbumKind::Location));
        let images_by_time = sort_by_time(&times, false);
        let state = PhotosState {
            albums,
            albums_in_order: AlbumsInOrder { normal_albums, days: days_list, locations },
            images,
            images_by_time,
        };
        assert(state@.albums =~= snapshot(m, s).albums);
        assert(state@.images =~= snapshot(m, s).images);
        proof {
            lemma_snapshot_wf(m, s);
        }
        Ok(state)
    }

    /// Builds the index anew and puts it in the place of this one. Where
    /// the new one cannot be built this one stays as it is.
    pub fn rebuild(&mut self, albums_info: Vec<(String, ParsedAlbum)>, sources: Vec<PhotoSource>) -> (r:
        Result<(), BuildError>)
        ensures
            match build_error(manifest_model(albums_info@), sources_model(sources@)) {
                Some(e) => r matches Err(x) && x@ == e && *final(self) == *old(self),
                None => r is Ok && final(self)@ == snapshot(
                    manifest_model(albums_info@),
                    sources_model(sources@),
                ) && final(self)@.wf(),
            },
    {
        match Self::new(albums_info, sources) {
            Ok(state) => {
                *self = state;
                Ok(())
            },
            Err(e) => Err(e),
        }
    }
}

} // verus!
