//! Albums, the references that photographs hold to them, and the albums
//! that are made for the days on which photographs were taken.

use vstd::prelude::*;

use vstd::string::StringExecFns;

use crate::text::str_eq;
use crate::time::{iso_date, lemma_patterns, long_date, DateView, LocalDate};

verus! {

/// What an `AlbumReference` stands for.
pub struct RefModel {
    pub path: Seq<char>,
    pub name: Seq<char>,
}

/// A reference from a photograph to an album.
#[derive(Debug)]
pub struct AlbumReference {
    /// The path name of the album, by which it is found.
    pub path: String,
    /// The name under which the album is displayed.
    pub name: String,
}

impl View for AlbumReference {
    type V = RefModel;

    open spec fn view(&self) -> RefModel {
        RefModel { path: self.path@, name: self.name@ }
    }
}

impl AlbumReference {
    /// A copy of the reference.
    pub fn duplicate(&self) -> (r: AlbumReference)
        ensures
            r@ == self@,
    {
        AlbumReference { path: self.path.clone(), name: self.name.clone() }
    }
}

/// The views of a list of references.
pub open spec fn refs_model(v: Seq<AlbumReference>) -> Seq<RefModel> {
    Seq::new(v.len(), |i: int| v[i]@)
}

/// The view of a reference that may be absent.
pub open spec fn ref_model(r: Option<AlbumReference>) -> Option<RefModel> {
    match r {
        Some(x) => Some(x@),
        None => None,
    }
}

/// The views of a list of strings.
pub open spec fn texts(v: Seq<String>) -> Seq<Seq<char>> {
    Seq::new(v.len(), |i: int| v[i]@)
}

/// The kind of an album, where it is anything notable.
#[derive(Clone, Copy, Debug, PartialEq, Eq, Structural)]
pub enum AlbumKind {
    /// The photographs of one day.
    Day,
    /// The photographs of one place.
    Location,
    /// Every photograph.
    All,
}

/// What an `Album` stands for.
pub struct AlbumModel {
    pub name: Seq<char>,
    pub path: Seq<char>,
    pub description: Seq<char>,
    pub kind: Option<AlbumKind>,
    pub cover_img: usize,
    pub photos: Seq<usize>,
}

/// An album of the finished index. Photographs are named by their position
/// in the index's list of photographs.
#[derive(Debug)]
pub struct Album {
    /// The displayed name of the album.
    pub name: String,
    /// The path name of the album.
    pub path: String,
    /// The description of the album, as HTML.
    pub description: String,
    /// The kind of album, if it is anything notable.
    pub kind: Option<AlbumKind>,
    /// The photograph that represents the album.
    pub cover_img: usize,
    /// The photographs in the order in which they are displayed.
    pub photos: Vec<usize>,
}

impl View for Album {
    type V = AlbumModel;

    open spec fn view(&self) -> AlbumModel {
        AlbumModel {
            name: self.name@,
            path: self.path@,
            description: self.description@,
            kind: self.kind,
            cover_img: self.cover_img,
            photos: self.photos@,
        }
    }
}

/// The views of a list of albums.
pub open spec fn albums_model(v: Seq<Album>) -> Seq<AlbumModel> {
    Seq::new(v.len(), |i: int| v[i]@)
}

/// Whether some string of the list holds the given text.
pub fn contains_text(list: &Vec<String>, text: &str) -> (r: bool)
    ensures
        r == texts(list@).contains(text@),
{
    let mut i: usize = 0;
    while i < list.len()
        invariant
            i <= list.len(),
            forall|j: int| 0 <= j < i ==> texts(list@)[j] != text@,
        decreases list.len() - i,
    {
        if str_eq(list[i].as_str(), text) {
            assert(texts(list@)[i as int] == text@);
            return true;
        }
        i += 1;
    }
    false
}

/// The path of the album made for a day: the date as `YYYY-MM-DD`.
pub open spec fn auto_path(date: DateView) -> Seq<char> {
    date.formatted("%Y-%m-%d"@)
}

/// The name of the album made for a day: the date as in
/// `18 December, 2021`.
pub open spec fn auto_name(date: DateView) -> Seq<char> {
    date.formatted("%-d %B, %Y"@)
}

/// The description of the album made for a day.
pub open spec fn auto_description(date: DateView) -> Seq<char> {
    "<p>Everything from "@ + auto_name(date) + "</p>"@
}

/// The album made for a day has the day's date as its path, year first, and
/// as its name the day, the month's name and the year.
pub proof fn lemma_auto_names(date: DateView)
    ensures
        auto_path(date) == iso_date(date.year, date.month, date.day),
        auto_name(date) == long_date(date.year, date.month, date.day),
{
    lemma_patterns(date.year, date.month, date.day, 0, 0, 0, 0);
}

/// What an `AutoDateAlbumBuilder` stands for.
pub struct AutoAlbumModel {
    pub date: DateView,
    pub path: Seq<char>,
    pub name: Seq<char>,
    pub description: Seq<char>,
    /// The photographs of the day, each with its moment of capture.
    pub photos: Seq<(i64, Seq<char>)>,
}

/// The album made for a day, before any photograph is put into it.
pub open spec fn fresh_album(date: DateView) -> AutoAlbumModel {
    AutoAlbumModel {
        date,
        path: auto_path(date),
        name: auto_name(date),
        description: auto_description(date),
        photos: Seq::empty(),
    }
}

/// The reference to the album made for a day.
pub open spec fn auto_ref(date: DateView) -> RefModel {
    RefModel { path: auto_path(date), name: auto_name(date) }
}

/// The first index from `from` on whose moment is later than `time`, or the
/// length of the list.
pub open spec fn upper_bound(photos: Seq<(i64, Seq<char>)>, time: i64, from: int) -> int
    decreases photos.len() - from,
{
    if from >= photos.len() {
        photos.len() as int
    } else if photos[from].0 > time {
        from
    } else {
        upper_bound(photos, time, from + 1)
    }
}

/// The list with a photograph put in at its moment of capture: after every
/// one that was taken earlier or at the same moment, so that photographs of
/// one moment stand in the order in which they were put in.
pub open spec fn with_photo(photos: Seq<(i64, Seq<char>)>, time: i64, id: Seq<char>) -> Seq<
    (i64, Seq<char>),
> {
    photos.insert(upper_bound(photos, time, 0), (time, id))
}

/// Whether the moments of the list never go downwards.
pub open spec fn ascending(photos: Seq<(i64, Seq<char>)>) -> bool {
    forall|i: int, j: int| 0 <= i < j < photos.len() ==> photos[i].0 <= photos[j].0
}

/// What `upper_bound` finds: nothing before it is later than `time`.
pub proof fn lemma_upper_bound(photos: Seq<(i64, Seq<char>)>, time: i64, from: int)
    requires
        0 <= from <= photos.len(),
    ensures
        from <= upper_bound(photos, time, from) <= photos.len(),
        upper_bound(photos, time, from) < photos.len() ==> photos[upper_bound(
            photos,
            time,
            from,
        )].0 > time,
        forall|i: int| from <= i < upper_bound(photos, time, from) ==> (#[trigger] photos[i]).0
            <= time,
    decreases photos.len() - from,
{
    if from < photos.len() && photos[from].0 <= time {
        lemma_upper_bound(photos, time, from + 1);
    }
}

/// Putting a photograph into an ascending list leaves it ascending, keeps
/// every photograph that the list held, and holds the new one.
pub proof fn lemma_with_photo(photos: Seq<(i64, Seq<char>)>, time: i64, id: Seq<char>)
    requires
        ascending(photos),
    ensures
        ascending(with_photo(photos, time, id)),
        with_photo(photos, time, id).len() == photos.len() + 1,
        with_photo(photos, time, id).contains((time, id)),
        forall|e: (i64, Seq<char>)| #[trigger]
            with_photo(photos, time, id).contains(e) ==> e == (time, id) || photos.contains(e),
        forall|e: (i64, Seq<char>)| #[trigger]
            photos.contains(e) ==> with_photo(photos, time, id).contains(e),
{
    lemma_upper_bound(photos, time, 0);
    let p = upper_bound(photos, time, 0);
    let out = with_photo(photos, time, id);
    assert(out[p] == (time, id));
    assert forall|i: int, j: int| 0 <= i < j < out.len() implies out[i].0 <= out[j].0 by {
        if i < p && j > p {
            assert(out[j] == photos[j - 1]);
        } else if i == p {
            assert(out[j] == photos[j - 1]);
        } else if j == p {
        } else if j < p {
        } else {
            assert(out[i] == photos[i - 1]);
            assert(out[j] == photos[j - 1]);
        }
    }
    assert forall|e: (i64, Seq<char>)| #[trigger] out.contains(e) implies e == (time, id)
        || photos.contains(e) by {
        let k = choose|k: int| 0 <= k < out.len() && out[k] == e;
        if k < p {
            assert(photos[k] == e);
        } else if k > p {
            assert(photos[k - 1] == e);
        }
    }
    assert forall|e: (i64, Seq<char>)| #[trigger] photos.contains(e) implies out.contains(e) by {
        let k = choose|k: int| 0 <= k < photos.len() && photos[k] == e;
        if k < p {
            assert(out[k] == e);
        } else {
            assert(out[k + 1] == e);
        }
    }
}

/// The first index from `from` on of an album for the day, or the length of
/// the list.
pub open spec fn date_index(albums: Seq<AutoAlbumModel>, date: DateView, from: int) -> int
    decreases albums.len() - from,
{
    if from >= albums.len() {
        albums.len() as int
    } else if albums[from].date == date {
        from
    } else {
        date_index(albums, date, from + 1)
    }
}

/// The albums after a photograph taken on `date` at `time` has been put
/// into the album of its day, which is made where there is none yet.
pub open spec fn with_capture(
    albums: Seq<AutoAlbumModel>,
    date: DateView,
    time: i64,
    id: Seq<char>,
) -> Seq<AutoAlbumModel> {
    let k = date_index(albums, date, 0);
    if k < albums.len() {
        albums.update(
            k,
            AutoAlbumModel { photos: with_photo(albums[k].photos, time, id), ..albums[k] },
        )
    } else {
        albums.push(
            AutoAlbumModel { photos: with_photo(Seq::empty(), time, id), ..fresh_album(date) },
        )
    }
}

/// Whether an album is the one made for its day, holds a photograph, and
/// holds its photographs in the order of their capture.
pub open spec fn auto_album_wf(a: AutoAlbumModel) -> bool {
    &&& a.path == auto_path(a.date)
    &&& a.name == auto_name(a.date)
    &&& a.description == auto_description(a.date)
    &&& a.photos.len() > 0
    &&& ascending(a.photos)
}

/// Whether the albums are well formed, one for each day.
pub open spec fn auto_wf(albums: Seq<AutoAlbumModel>) -> bool {
    &&& forall|k: int| 0 <= k < albums.len() ==> auto_album_wf(#[trigger] albums[k])
    &&& forall|i: int, j: int|
        0 <= i < j < albums.len() ==> (#[trigger] albums[i]).date != (#[trigger] albums[j]).date
}

/// What `date_index` finds: the first album of the day.
pub proof fn lemma_date_index(albums: Seq<AutoAlbumModel>, date: DateView, from: int)
    requires
        0 <= from <= albums.len(),
    ensures
        from <= date_index(albums, date, from) <= albums.len(),
        date_index(albums, date, from) < albums.len() ==> albums[date_index(
            albums,
            date,
            from,
        )].date == date,
        forall|i: int| from <= i < date_index(albums, date, from) ==> (#[trigger] albums[i]).date
            != date,
    decreases albums.len() - from,
{
    if from < albums.len() && albums[from].date != date {
        lemma_date_index(albums, date, from + 1);
    }
}

/// Putting a photograph into the album of its day keeps the albums well
/// formed.
pub proof fn lemma_with_capture(
    albums: Seq<AutoAlbumModel>,
    date: DateView,
    time: i64,
    id: Seq<char>,
)
    requires
        auto_wf(albums),
    ensures
        auto_wf(with_capture(albums, date, time, id)),
        date_index(with_capture(albums, date, time, id), date, 0) == date_index(albums, date, 0),
        date_index(albums, date, 0) < with_capture(albums, date, time, id).len(),
        forall|d: DateView|
            date_index(albums, d, 0) < albums.len() ==> #[trigger] date_index(
                with_capture(albums, date, time, id),
                d,
                0,
            ) == date_index(albums, d, 0),
{
    let out = with_capture(albums, date, time, id);
    let k = date_index(albums, date, 0);
    lemma_date_index(albums, date, 0);
    if k < albums.len() {
        lemma_with_photo(albums[k].photos, time, id);
        assert forall|j: int| 0 <= j < out.len() implies auto_album_wf(#[trigger] out[j]) by {
            if j != k {
                assert(out[j] == albums[j]);
            }
        }
        assert forall|i: int, j: int| 0 <= i < j < out.len() implies (#[trigger] out[i]).date != (
        #[trigger] out[j]).date by {
            assert(out[i].date == albums[i].date);
            assert(out[j].date == albums[j].date);
        }
    } else {
        lemma_with_photo(Seq::empty(), time, id);
        assert forall|j: int| 0 <= j < out.len() implies auto_album_wf(#[trigger] out[j]) by {
            if j < albums.len() {
                assert(out[j] == albums[j]);
            }
        }
        assert forall|i: int, j: int| 0 <= i < j < out.len() implies (#[trigger] out[i]).date != (
        #[trigger] out[j]).date by {
            assert(out[i] == albums[i]);
            if j < albums.len() {
                assert(out[j] == albums[j]);
            }
        }
    }
    assert forall|d: DateView| true implies date_index(out, d, 0) == (if date_index(albums, d, 0)
        < albums.len() || d == date {
        date_index(albums, d, 0)
    } else {
        out.len() as int
    }) by {
        lemma_same_dates(albums, out, d, 0);
    }
}

/// Two lists whose albums have the same days find a day at the same place,
/// as far as the shorter list goes.
proof fn lemma_same_dates(a: Seq<AutoAlbumModel>, b: Seq<AutoAlbumModel>, d: DateView, from: int)
    requires
        0 <= from <= a.len() <= b.len() <= a.len() + 1,
        forall|i: int| 0 <= i < a.len() ==> (#[trigger] a[i]).date == (#[trigger] b[i]).date,
    ensures
        date_index(a, d, from) < a.len() ==> date_index(b, d, from) == date_index(a, d, from),
        date_index(a, d, from) >= a.len() && b.len() == a.len() ==> date_index(b, d, from)
            == b.len(),
        date_index(a, d, from) >= a.len() && b.len() > a.len() ==> date_index(b, d, from) == (
        if b[a.len() as int].date == d {
            a.len() as int
        } else {
            b.len() as int
        }),
    decreases a.len() - from,
{
    if from < a.len() {
        assert(a[from].date == b[from].date);
        if a[from].date != d {
            lemma_same_dates(a, b, d, from + 1);
        }
    } else {
        if b.len() > a.len() {
            assert(date_index(b, d, from + 1) == b.len());
        }
    }
}

/// The photographs of a day with their moments, as the contracts see them.
pub open spec fn captures(v: Seq<(i64, String)>) -> Seq<(i64, Seq<char>)> {
    Seq::new(v.len(), |i: int| (v[i].0, v[i].1@))
}

/// The album that is made for a day on which photographs were taken that no
/// album of the manifest claims for a day of its own.
#[derive(Debug)]
pub struct AutoDateAlbumBuilder {
    /// The day.
    pub date: LocalDate,
    /// The path name of the album.
    pub path: String,
    /// The displayed name of the album.
    pub name: String,
    /// The description of the album.
    pub description: String,
    /// The photographs of the day, in the order of their capture.
    pub photos: Vec<(i64, String)>,
}

impl View for AutoDateAlbumBuilder {
    type V = AutoAlbumModel;

    open spec fn view(&self) -> AutoAlbumModel {
        AutoAlbumModel {
            date: self.date@,
            path: self.path@,
            name: self.name@,
            description: self.description@,
            photos: captures(self.photos@),
        }
    }
}

/// The views of a list of builders.
pub open spec fn builders_model(v: Seq<AutoDateAlbumBuilder>) -> Seq<AutoAlbumModel> {
    Seq::new(v.len(), |i: int| v[i]@)
}

impl AutoDateAlbumBuilder {
    /// The album for a day, with no photograph in it yet.
    pub fn new(date: LocalDate) -> (r: AutoDateAlbumBuilder)
        ensures
            r@ == fresh_album(date@),
    {
        let name = date.format("%-d %B, %Y");
        let description = String::from_str("<p>Everything from ").concat(name.as_str()).concat(
            "</p>",
        );
        let path = date.format("%Y-%m-%d");
        let r = AutoDateAlbumBuilder { date, path, name, description, photos: Vec::new() };
        assert(r@.photos =~= Seq::empty());
        r
    }

    /// The reference that a photograph of the day holds to the album.
    pub fn reference(&self) -> (r: AlbumReference)
        ensures
            r@ == (RefModel { path: self@.path, name: self@.name }),
    {
        AlbumReference { path: self.path.clone(), name: self.name.clone() }
    }

    /// Puts a photograph into the album at its moment of capture.
    pub fn insert(&mut self, time: i64, file_name: String)
        ensures
            final(self)@ == (AutoAlbumModel {
                photos: with_photo(old(self)@.photos, time, file_name@),
                ..old(self)@
            }),
    {
        insert_by_time(&mut self.photos, time, file_name);
    }
}

/// Puts a name into a list at its moment, after every name of an earlier or
/// of the same moment.
pub fn insert_by_time(list: &mut Vec<(i64, String)>, time: i64, name: String)
    ensures
        captures(final(list)@) == with_photo(captures(old(list)@), time, name@),
{
    let ghost before = captures(list@);
    let mut p: usize = 0;
    while p < list.len() && list[p].0 <= time
        invariant
            p <= list.len(),
            captures(list@) == before,
            upper_bound(before, time, 0) == upper_bound(before, time, p as int),
        decreases list.len() - p,
    {
        p += 1;
    }
    list.insert(p, (time, name));
    assert(captures(list@) =~= before.insert(p as int, (time, name@)));
}

/// The album for the day among the builders, if there is one.
pub fn find_date(albums: &Vec<AutoDateAlbumBuilder>, date: &LocalDate) -> (r: Option<usize>)
    ensures
        match r {
            Some(k) => k == date_index(builders_model(albums@), date@, 0) && k < albums@.len(),
            None => date_index(builders_model(albums@), date@, 0) == albums@.len(),
        },
{
    let mut k: usize = 0;
    while k < albums.len()
        invariant
            k <= albums.len(),
            date_index(builders_model(albums@), date@, 0) == date_index(
                builders_model(albums@),
                date@,
                k as int,
            ),
        decreases albums.len() - k,
    {
        assert(builders_model(albums@)[k as int] == albums@[k as int]@);
        if albums[k].date.same_day(date) {
            return Some(k);
        }
        k += 1;
    }
    None
}

} // verus!
