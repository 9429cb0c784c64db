//! What the pages of the site read from the index: albums by path, the
//! neighbours of a photograph, and the answer to a request for an image.

use vstd::prelude::*;
use vstd::string::StringExecFns;

use crate::albums::{Album, AlbumModel};
use crate::hashing::{hash_text, HASH_LEN};
use crate::manifest::favorites_path;
use crate::metadata::GPSCoords;
use crate::photos::{AlbumsInOrder, PhotoModel, PhotosState, StateModel};
use crate::text::str_eq;
use crate::util::{uri_idempotent, MaybeRedirect};

verus! {

/// Number of photographs to show at the root of the site, as a preview.
pub const NUM_PREVIEW_PHOTOS: usize = 5;

/// The zoom level of the map on the page of a photograph.
pub const PHOTO_MAP_ZOOM: u8 = 12;

/// The first view of a map on a page.
#[derive(Clone, Copy, Debug, PartialEq, Eq, Structural)]
pub struct MapView {
    pub centered_at: GPSCoords,
    pub zoom_level: u8,
}

/// Why a request cannot be answered.
#[derive(Clone, Copy, Debug, PartialEq, Eq, Structural)]
pub enum RequestError {
    /// The request names no size, or none that there is.
    BadRequest,
    /// The index holds nothing of that name.
    NotFound,
}

/// Where the bytes of a requested image are: the smaller version is held
/// in memory with the photograph, the full image is the file of the
/// photograph. Both name the photograph by its place in the index.
#[derive(Clone, Copy, Debug, PartialEq, Eq, Structural)]
pub enum ImageSource {
    InMem(usize),
    File(usize),
}

/// What the page of one photograph shows.
#[derive(Debug)]
pub struct ImagePageContext {
    /// The album in which the photograph is looked at, if any.
    pub album: Option<String>,
    /// The place of the photograph in the index.
    pub img: usize,
    /// The photograph before it in the album, or in time.
    pub previous: Option<usize>,
    /// The photograph after it.
    pub next: Option<usize>,
    /// The map to show, where the photograph has coordinates.
    pub map_view: Option<MapView>,
}

/// What an `ImagePageContext` stands for.
pub struct PageModel {
    pub album: Option<Seq<char>>,
    pub img: usize,
    pub previous: Option<usize>,
    pub next: Option<usize>,
    pub map_view: Option<MapView>,
}

impl View for ImagePageContext {
    type V = PageModel;

    open spec fn view(&self) -> PageModel {
        PageModel {
            album: match self.album {
                Some(a) => Some(a@),
                None => None,
            },
            img: self.img,
            previous: self.previous,
            next: self.next,
            map_view: self.map_view,
        }
    }
}

/// The last of the first `n` albums with the path, or -1. The albums made
/// for days come after those of the manifest, and the album of every
/// photograph comes last.
pub open spec fn album_index(albums: Seq<AlbumModel>, path: Seq<char>, n: int) -> int
    decreases n,
{
    if n <= 0 {
        -1
    } else if albums[n - 1].path == path {
        n - 1
    } else {
        album_index(albums, path, n - 1)
    }
}

/// The first photograph from `from` on with the name, or the number of
/// photographs.
pub open spec fn image_index(images: Seq<PhotoModel>, name: Seq<char>, from: int) -> int
    decreases images.len() - from,
{
    if from >= images.len() {
        images.len() as int
    } else if images[from].file_name == name {
        from
    } else {
        image_index(images, name, from + 1)
    }
}

/// The first place from `from` on at which the list holds `img`, or the
/// length of the list.
pub open spec fn position(list: Seq<usize>, img: usize, from: int) -> int
    decreases list.len() - from,
{
    if from >= list.len() {
        list.len() as int
    } else if list[from] == img {
        from
    } else {
        position(list, img, from + 1)
    }
}

/// The address of the page of a photograph outside any album.
pub open spec fn page_url(name: Seq<char>) -> Seq<char> {
    "/photos/view/"@ + name
}

/// The address of an image in a size and at a revision.
pub open spec fn image_url(name: Seq<char>, size: Seq<char>, rev: Seq<char>) -> Seq<char> {
    "/photos/img-file/"@ + name + "?size="@ + size + "&rev="@ + rev
}

/// The content hash under which the image `name` is served in `size` now:
/// that of the file for `full`, that of the smaller version otherwise.
pub open spec fn current_hash(state: StateModel, name: Seq<char>, size: Option<Seq<char>>) -> Seq<
    char,
> {
    if or_empty(size) == "full"@ {
        state.images[image_index(state.images, name, 0)].full_img_hash
    } else {
        state.images[image_index(state.images, name, 0)].smaller_webp.hash
    }
}

/// A text that was given, or the empty text.
pub open spec fn or_empty(text: Option<Seq<char>>) -> Seq<char> {
    match text {
        Some(t) => t,
        None => Seq::empty(),
    }
}

/// The view of a text that may be absent.
pub open spec fn given(text: Option<&str>) -> Option<Seq<char>> {
    match text {
        Some(t) => Some(t@),
        None => None,
    }
}

/// The answer to a request for the image `name` in `size` at revision
/// `rev`: the size has to be `full` or `small` and the photograph has to be
/// there; unless the revision is the hash of what is served, the answer is
/// the address with that hash, for good where a revision was asked for.
pub open spec fn image_answer(
    state: StateModel,
    name: Seq<char>,
    size: Option<Seq<char>>,
    rev: Option<Seq<char>>,
) -> Result<PageAnswer<ImageSource>, RequestError> {
    let i = image_index(state.images, name, 0);
    let full = or_empty(size) == "full"@;
    if or_empty(size) != "full"@ && or_empty(size) != "small"@ {
        Err(RequestError::BadRequest)
    } else if i >= state.images.len() {
        Err(RequestError::NotFound)
    } else {
        let hash = if full {
            state.images[i].full_img_hash
        } else {
            state.images[i].smaller_webp.hash
        };
        if hash != or_empty(rev) {
            Ok(
                PageAnswer::Redirect {
                    new_url: image_url(name, or_empty(size), hash),
                    is_permanent: rev is Some,
                },
            )
        } else if full {
            Ok(PageAnswer::Dont(ImageSource::File(i as usize)))
        } else {
            Ok(PageAnswer::Dont(ImageSource::InMem(i as usize)))
        }
    }
}

/// What a `MaybeRedirect` stands for.
pub enum PageAnswer<R> {
    Dont(R),
    Redirect { new_url: Seq<char>, is_permanent: bool },
}

/// The list of photographs in which a photograph is looked at: those of the
/// album, or all from the oldest to the newest; nothing where there is no
/// album of the name.
pub open spec fn page_list(state: StateModel, album: Option<Seq<char>>) -> Option<Seq<usize>> {
    match album {
        None => Some(state.images_by_time),
        Some(path) => if album_index(state.albums, path, state.albums.len() as int) >= 0 {
            Some(state.albums[album_index(state.albums, path, state.albums.len() as int)].photos)
        } else {
            None
        },
    }
}

/// The page of the photograph `img`, looked at in an album or in none: the
/// photograph has to be there; an album that is not there sends to the page
/// outside any album; and the photograph has to be in the list, where its
/// neighbours are taken from.
pub open spec fn page_answer(state: StateModel, img: Seq<char>, album: Option<Seq<char>>) -> Result<
    PageAnswer<PageModel>,
    RequestError,
> {
    let i = image_index(state.images, img, 0);
    if i >= state.images.len() {
        Err(RequestError::NotFound)
    } else {
        match page_list(state, album) {
            None => Ok(PageAnswer::Redirect { new_url: page_url(img), is_permanent: false }),
            Some(list) => {
                let p = position(list, i as usize, 0);
                if p >= list.len() {
                    Err(RequestError::NotFound)
                } else {
                    Ok(
                        PageAnswer::Dont(
                            PageModel {
                                album,
                                img: i as usize,
                                previous: if p > 0 {
                                    Some(list[p - 1])
                                } else {
                                    None
                                },
                                next: if p + 1 < list.len() {
                                    Some(list[p + 1])
                                } else {
                                    None
                                },
                                map_view: match state.images[i].exif.coords {
                                    Some(c) => Some(
                                        MapView { centered_at: c, zoom_level: PHOTO_MAP_ZOOM },
                                    ),
                                    None => None,
                                },
                            },
                        ),
                    )
                }
            },
        }
    }
}

/// The photographs shown at the root of the site: the first five of the
/// album of favorites, or none where there is no such album.
pub open spec fn recent_photos(state: StateModel) -> Seq<usize> {
    let k = album_index(state.albums, favorites_path(), state.albums.len() as int);
    if k < 0 {
        Seq::empty()
    } else if state.albums[k].photos.len() <= NUM_PREVIEW_PHOTOS {
        state.albums[k].photos
    } else {
        state.albums[k].photos.take(NUM_PREVIEW_PHOTOS as int)
    }
}

/// The place of `img` in the list, if it is there.
fn find_position(list: &Vec<usize>, img: usize) -> (r: Option<usize>)
    ensures
        match r {
            Some(p) => p == position(list@, img, 0) && p < list@.len(),
            None => position(list@, img, 0) == list@.len(),
        },
{
    let mut p: usize = 0;
    while p < list.len()
        invariant
            p <= list.len(),
            position(list@, img, 0) == position(list@, img, p as int),
        decreases list.len() - p,
    {
        if list[p] == img {
            return Some(p);
        }
        p += 1;
    }
    None
}

impl PhotosState {
    /// The place of the photograph with the name, if there is one.
    pub fn find_image(&self, name: &str) -> (r: Option<usize>)
        ensures
            match r {
                Some(i) => i == image_index(self@.images, name@, 0) && i < self.images@.len(),
                None => image_index(self@.images, name@, 0) == self.images@.len(),
            },
    {
        let mut i: usize = 0;
        while i < self.images.len()
            invariant
                i <= self.images.len(),
                image_index(self@.images, name@, 0) == image_index(self@.images, name@, i as int),
            decreases self.images.len() - i,
        {
            assert(self@.images[i as int] == self.images@[i as int]@);
            if str_eq(self.images[i].file_name.as_str(), name) {
                return Some(i);
            }
            i += 1;
        }
        None
    }

    /// The place of the album with the path, if there is one.
    pub fn find_album(&self, path: &str) -> (r: Option<usize>)
        ensures
            match r {
                Some(k) => k == album_index(self@.albums, path@, self.albums@.len() as int) && k
                    < self.albums@.len(),
                None => album_index(self@.albums, path@, self.albums@.len() as int) == -1,
            },
    {
        let mut k: usize = self.albums.len();
        while k > 0
            invariant
                k <= self.albums.len(),
                album_index(self@.albums, path@, self.albums@.len() as int) == album_index(
                    self@.albums,
                    path@,
                    k as int,
                ),
            decreases k,
        {
            assert(self@.albums[k - 1] == self.albums@[k - 1]@);
            if str_eq(self.albums[k - 1].path.as_str(), path) {
                return Some(k - 1);
            }
            k -= 1;
        }
        None
    }

    /// The album of favorites, which the index page shows.
    pub fn index_context(&self) -> (r: Option<&Album>)
        ensures
            match r {
                Some(a) => album_index(self@.albums, favorites_path(), self.albums@.len() as int)
                    >= 0 && *a == self.albums@[album_index(
                    self@.albums,
                    favorites_path(),
                    self.albums@.len() as int,
                )],
                None => album_index(self@.albums, favorites_path(), self.albums@.len() as int)
                    == -1,
            },
    {
        self.album_context("favorites")
    }

    /// The albums of the manifest by kind, which the page of all albums
    /// shows.
    pub fn albums_context(&self) -> (r: &AlbumsInOrder)
        ensures
            *r == self.albums_in_order,
    {
        &self.albums_in_order
    }

    /// The album with the path, which the page of an album shows.
    pub fn album_context(&self, name: &str) -> (r: Option<&Album>)
        ensures
            match r {
                Some(a) => album_index(self@.albums, name@, self.albums@.len() as int) >= 0 && *a
                    == self.albums@[album_index(self@.albums, name@, self.albums@.len() as int)],
                None => album_index(self@.albums, name@, self.albums@.len() as int) == -1,
            },
    {
        match self.find_album(name) {
            Some(k) => Some(&self.albums[k]),
            None => None,
        }
    }

    /// Every photograph from the oldest to the newest, which the map shows.
    pub fn map_context(&self) -> (r: &Vec<usize>)
        ensures
            r@ == self@.images_by_time,
    {
        &self.images_by_time
    }

    /// The page of a photograph, looked at in an album or in none.
    pub fn img_page_context(&self, img: &str, album: Option<String>) -> (r: Result<
        MaybeRedirect<ImagePageContext>,
        RequestError,
    >)
        ensures
            match page_answer(
                self@,
                img@,
                match album {
                    Some(a) => Some(a@),
                    None => None,
                },
            ) {
                Err(e) => r matches Err(x) && x == e,
                Ok(PageAnswer::Redirect { new_url, is_permanent }) => r matches Ok(
                    MaybeRedirect::Redirect { new_url: u, is_permanent: p },
                ) && u@ == new_url && p == is_permanent,
                Ok(PageAnswer::Dont(page)) => r matches Ok(MaybeRedirect::Dont(context))
                    && context@ == page,
            },
            self@.wf() ==> (r matches Ok(MaybeRedirect::Dont(context)) ==> context.img
                < self.images@.len() && (context.previous matches Some(p) ==> p
                < self.images@.len()) && (context.next matches Some(n) ==> n
                < self.images@.len())),
    {
        let i = match self.find_image(img) {
            Some(i) => i,
            None => {
                return Err(RequestError::NotFound);
            },
        };
        let list = match &album {
            None => &self.images_by_time,
            Some(name) => match self.find_album(name.as_str()) {
                None => {
                    return Ok(
                        MaybeRedirect::Redirect {
                            new_url: String::from_str("/photos/view/").concat(img),
                            is_permanent: false,
                        },
                    );
                },
                Some(k) => {
                    assert(self@.albums[k as int] == self.albums@[k as int]@);
                    &self.albums[k].photos
                },
            },
        };
        let p = match find_position(list, i) {
            Some(p) => p,
            None => {
                return Err(RequestError::NotFound);
            },
        };
        let previous = if p > 0 {
            Some(list[p - 1])
        } else {
            None
        };
        let next = if p < list.len() - 1 {
            Some(list[p + 1])
        } else {
            None
        };
        assert(self@.images[i as int] == self.images@[i as int]@);
        let map_view = match self.images[i].exif_info.coords {
            Some(c) => Some(MapView { centered_at: c, zoom_level: PHOTO_MAP_ZOOM }),
            None => None,
        };
        Ok(MaybeRedirect::Dont(ImagePageContext { album, img: i, previous, next, map_view }))
    }
}

/// The photographs shown at the root of the site.
pub fn recent_photos_context(state: &PhotosState) -> (r: Vec<usize>)
    ensures
        r@ == recent_photos(state@),
{
    let mut out: Vec<usize> = Vec::new();
    match state.find_album("favorites") {
        None => {},
        Some(k) => {
            let photos = &state.albums[k].photos;
            assert(state@.albums[k as int] == state.albums@[k as int]@);
            let mut i: usize = 0;
            while i < photos.len() && i < NUM_PREVIEW_PHOTOS
                invariant
                    i <= photos.len(),
                    i <= NUM_PREVIEW_PHOTOS,
                    out@ == photos@.take(i as int),
                decreases photos.len() - i,
            {
                out.push(photos[i]);
                assert(photos@.take(i + 1) =~= photos@.take(i as int).push(photos@[i as int]));
                i += 1;
            }
            assert(photos@.take(photos@.len() as int) =~= photos@);
        },
    }
    out
}

/// The answer to a request for an image in a size and at a revision.
pub fn img(state: &PhotosState, name: &str, size: Option<&str>, rev: Option<&str>) -> (r: Result<
    MaybeRedirect<ImageSource>,
    RequestError,
>)
    ensures
        match image_answer(state@, name@, given(size), given(rev)) {
            Err(e) => r matches Err(x) && x == e,
            Ok(PageAnswer::Redirect { new_url, is_permanent }) => r matches Ok(
                MaybeRedirect::Redirect { new_url: u, is_permanent: p },
            ) && u@ == new_url && p == is_permanent,
            Ok(PageAnswer::Dont(source)) => r matches Ok(MaybeRedirect::Dont(s)) && s
                == source,
        },
        rev is None && image_answer(state@, name@, given(size), given(rev)) is Ok ==> (
        r matches Ok(MaybeRedirect::Redirect { new_url: u, is_permanent: p }) && !p && u@
            == image_url(name@, or_empty(given(size)), current_hash(state@, name@, given(size)))),
        r matches Ok(MaybeRedirect::Redirect { new_url: u, is_permanent: p }) ==> current_hash(
            state@,
            name@,
            given(size),
        ).len() == HASH_LEN && hash_text(current_hash(state@, name@, given(size)))
            && uri_idempotent(current_hash(state@, name@, given(size))),
{
    let size = match size {
        Some(s) => s,
        None => "",
    };
    let rev_is_some = rev.is_some();
    let rev = match rev {
        Some(r) => r,
        None => "",
    };
    proof {
        reveal_strlit("");
        reveal_strlit("full");
        reveal_strlit("small");
        assert(""@ =~= Seq::<char>::empty());
    }
    let is_full = if str_eq(size, "full") {
        true
    } else if str_eq(size, "small") {
        false
    } else {
        return Err(RequestError::BadRequest);
    };
    let i = match state.find_image(name) {
        Some(i) => i,
        None => {
            return Err(RequestError::NotFound);
        },
    };
    assert(state@.images[i as int] == state.images@[i as int]@);
    let target_hash = if is_full {
        state.images[i].full_img_hash.as_str()
    } else {
        state.images[i].smaller_webp.hash()
    };
    if !str_eq(target_hash, rev) {
        return Ok(
            MaybeRedirect::Redirect {
                new_url: String::from_str("/photos/img-file/").concat(name).concat(
                    "?size=",
                ).concat(size).concat("&rev=").concat(target_hash),
                is_permanent: rev_is_some,
            },
        );
    }
    if is_full {
        Ok(MaybeRedirect::Dont(ImageSource::File(i)))
    } else {
        Ok(MaybeRedirect::Dont(ImageSource::InMem(i)))
    }
}

} // verus!
