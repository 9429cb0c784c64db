//! What holds of every index that is built, stated over the model of the
//! index and proved from its definition.

use vstd::prelude::*;

use crate::albums::{
    AlbumModel, ascending, auto_path, auto_ref, date_index, lemma_date_index, lemma_with_capture,
    lemma_upper_bound, lemma_with_photo, upper_bound, with_photo, AlbumKind, RefModel,
};
use crate::manifest::{
    all_path, effective, entry_at, entry_photos, favorites_path, first_repeat, first_unsafe,
    lemma_last_with_path, membership_of, paths, EntryModel,
};
use crate::photos::{
    all_album, all_below, all_known, album_within, auto_upto, build_error, capture_ids,
    count_kind, day_albums, entry_album, favorite_upto, first_failure, grouped, has_capture,
    ids_of, in_time_order, input_error, is_plain, lemma_auto_upto, lemma_count_first,
    lemma_entry_at, lemma_nothing_missing, lemma_photo_index, lemma_time_order, manifest_albums,
    name_rank, photo_error_at, photo_index, photo_record, resolved, snapshot, tags_upto, times_of, SourceModel,
    StateModel,
};
use crate::pages::album_index;
use crate::text::{lemma_bytes_le_total, lemma_bytes_le_transitive, text_le};
use crate::time::{iso_date, lemma_iso_date};
use crate::util::uri_idempotent;

verus! {

/// Where `first_unsafe` finds nothing, every text of the list is URI encoded
/// to itself.
pub proof fn lemma_all_safe(list: Seq<Seq<char>>, from: int)
    requires
        0 <= from <= list.len(),
        first_unsafe(list, from) >= list.len(),
    ensures
        forall|i: int| from <= i < list.len() ==> uri_idempotent(#[trigger] list[i]),
    decreases list.len() - from,
{
    if from < list.len() {
        lemma_all_safe(list, from + 1);
    }
}

/// Where `first_repeat` finds nothing, no text stands twice in the list.
pub proof fn lemma_no_repeat(list: Seq<Seq<char>>, from: int)
    requires
        0 <= from <= list.len(),
        first_repeat(list, from) >= list.len(),
    ensures
        forall|i: int, j: int| 0 <= i < j < list.len() && from <= j ==> list[i] != list[j],
    decreases list.len() - from,
{
    if from < list.len() {
        lemma_no_repeat(list, from + 1);
        assert forall|i: int| 0 <= i < from implies list[i] != list[from] by {
            assert(list.take(from)[i] == list[i]);
        }
    }
}

/// Where `first_failure` finds nothing, every photograph can be put into its
/// albums.
pub proof fn lemma_no_failure(m: Seq<EntryModel>, sources: Seq<SourceModel>, from: int)
    requires
        0 <= from <= sources.len(),
        first_failure(m, sources, from) >= sources.len(),
    ensures
        forall|k: int| from <= k < sources.len() ==> photo_error_at(m, sources, k) is None,
    decreases sources.len() - from,
{
    if from < sources.len() {
        lemma_no_failure(m, sources, from + 1);
    }
}

/// Every name in an index is URI encoded to itself: an index is built only
/// where the path of every album of the manifest and the name of every
/// photograph is.
pub proof fn lemma_names_are_uri_safe(m: Seq<EntryModel>, sources: Seq<SourceModel>)
    requires
        build_error(m, sources) is None,
    ensures
        forall|i: int| 0 <= i < m.len() ==> uri_idempotent(#[trigger] m[i].path),
        forall|k: int| 0 <= k < sources.len() ==> uri_idempotent(#[trigger] sources[k].file_name),
{
    lemma_all_safe(paths(m), 0);
    lemma_all_safe(ids_of(sources), 0);
    assert forall|i: int| 0 <= i < m.len() implies uri_idempotent(#[trigger] m[i].path) by {
        assert(paths(m)[i] == m[i].path);
    }
    assert forall|k: int| 0 <= k < sources.len() implies uri_idempotent(
        #[trigger] sources[k].file_name,
    ) by {
        assert(ids_of(sources)[k] == sources[k].file_name);
    }
}

/// A name that is not URI encoded to itself fails the build: neither an
/// album with such a path nor a photograph with such a name is dropped.
pub proof fn lemma_unsafe_name_fails(m: Seq<EntryModel>, sources: Seq<SourceModel>)
    requires
        (exists|i: int| 0 <= i < m.len() && !uri_idempotent(#[trigger] m[i].path)) || (exists|
            k: int,
        | 0 <= k < sources.len() && !uri_idempotent(#[trigger] sources[k].file_name)),
    ensures
        build_error(m, sources) is Some,
{
    if build_error(m, sources) is None {
        lemma_names_are_uri_safe(m, sources);
    }
}

/// Every photograph that an album of the manifest names, in its list or as
/// its cover, is a photograph of the index; and the index is built only
/// where that is so.
pub proof fn lemma_named_photos_exist(m: Seq<EntryModel>, sources: Seq<SourceModel>, i: int)
    requires
        0 <= i < m.len(),
        effective(m, i),
    ensures
        build_error(m, sources) is None ==> all_known(ids_of(sources), entry_photos(m[i])),
        !all_known(ids_of(sources), entry_photos(m[i])) ==> build_error(m, sources) is Some,
{
    if input_error(m, ids_of(sources)) is None {
        lemma_nothing_missing(m, ids_of(sources), i);
    }
}

/// No photograph of an index is in more than one album of a place, nor in
/// more than one album of a day.
pub proof fn lemma_one_place_one_day(m: Seq<EntryModel>, sources: Seq<SourceModel>, k: int)
    requires
        build_error(m, sources) is None,
        0 <= k < sources.len(),
    ensures
        count_kind(
            m,
            membership_of(m, sources[k].file_name),
            AlbumKind::Location,
            membership_of(m, sources[k].file_name).len() as int,
        ) <= 1,
        count_kind(
            m,
            membership_of(m, sources[k].file_name),
            AlbumKind::Day,
            membership_of(m, sources[k].file_name).len() as int,
        ) <= 1,
        snapshot(m, sources).images[k].location is Some <==> count_kind(
            m,
            membership_of(m, sources[k].file_name),
            AlbumKind::Location,
            membership_of(m, sources[k].file_name).len() as int,
        ) == 1,
{
    lemma_no_failure(m, sources, 0);
    assert(photo_error_at(m, sources, k) is None);
    let refs = membership_of(m, sources[k].file_name);
    lemma_count_first(m, refs, AlbumKind::Location, refs.len() as int);
}

/// A photograph in two albums of a place fails the build.
pub proof fn lemma_two_places_fail(m: Seq<EntryModel>, sources: Seq<SourceModel>, k: int)
    requires
        0 <= k < sources.len(),
        count_kind(
            m,
            membership_of(m, sources[k].file_name),
            AlbumKind::Location,
            membership_of(m, sources[k].file_name).len() as int,
        ) > 1,
    ensures
        build_error(m, sources) is Some,
{
    if build_error(m, sources) is None {
        lemma_one_place_one_day(m, sources, k);
    }
}

/// The references that a photograph keeps as its other albums: each goes to
/// an album of no place and no day other than the favorites, each such
/// reference among the first `n` is kept, and they are ordered by name.
pub proof fn lemma_tags(m: Seq<EntryModel>, refs: Seq<RefModel>, n: int)
    requires
        0 <= n <= refs.len(),
    ensures
        forall|i: int|
            0 <= i < tags_upto(m, refs, n).len() ==> is_plain(
                m,
                #[trigger] tags_upto(m, refs, n)[i],
            ) && tags_upto(m, refs, n)[i].path != favorites_path() && refs.take(n).contains(
                tags_upto(m, refs, n)[i],
            ),
        forall|j: int|
            0 <= j < n && is_plain(m, #[trigger] refs[j]) && refs[j].path != favorites_path()
                ==> tags_upto(m, refs, n).contains(refs[j]),
        forall|i: int, j: int|
            0 <= i < j < tags_upto(m, refs, n).len() ==> text_le(
                (#[trigger] tags_upto(m, refs, n)[i]).name,
                (#[trigger] tags_upto(m, refs, n)[j]).name,
            ),
    decreases n,
{
    if n > 0 {
        lemma_tags(m, refs, n - 1);
        let prev = tags_upto(m, refs, n - 1);
        let cur = tags_upto(m, refs, n);
        let r = refs[n - 1];
        assert forall|i: int| 0 <= i < prev.len() implies refs.take(n).contains(
            #[trigger] prev[i],
        ) by {
            let j = choose|j: int|
                0 <= j < refs.take(n - 1).len() && #[trigger] refs.take(n - 1)[j] == prev[i];
            assert(refs.take(n)[j] == prev[i]);
        }
        if is_plain(m, r) && r.path != favorites_path() {
            let p = name_rank(prev, r.name, 0);
            lemma_name_rank(prev, r.name, 0);
            assert(cur == prev.insert(p, r));
            assert(refs.take(n)[n - 1] == r);
            assert forall|i: int| 0 <= i < cur.len() implies is_plain(m, #[trigger] cur[i])
                && cur[i].path != favorites_path() && refs.take(n).contains(cur[i]) by {
                if i < p {
                    assert(cur[i] == prev[i]);
                } else if i > p {
                    assert(cur[i] == prev[i - 1]);
                }
            }
            assert forall|j: int|
                0 <= j < n && is_plain(m, #[trigger] refs[j]) && refs[j].path
                    != favorites_path() implies cur.contains(refs[j]) by {
                if j == n - 1 {
                    assert(cur[p] == refs[j]);
                } else {
                    let i = choose|i: int| 0 <= i < prev.len() && #[trigger] prev[i] == refs[j];
                    if i < p {
                        assert(cur[i] == refs[j]);
                    } else {
                        assert(cur[i + 1] == refs[j]);
                    }
                }
            }
            assert forall|i: int, j: int| 0 <= i < j < cur.len() implies text_le(
                (#[trigger] cur[i]).name,
                (#[trigger] cur[j]).name,
            ) by {
                let a = if i < p { i } else { i - 1 };
                let b = if j < p { j } else { j - 1 };
                if i != p && j != p {
                    assert(cur[i] == prev[a]);
                    assert(cur[j] == prev[b]);
                } else if j == p {
                    assert(cur[i] == prev[a]);
                } else {
                    assert(cur[j] == prev[b]);
                    lemma_text_le_total(prev[p].name, r.name);
                    if b > p {
                        lemma_text_le_transitive(r.name, prev[p].name, prev[b].name);
                    }
                }
            }
        } else {
            assert forall|j: int|
                0 <= j < n && is_plain(m, #[trigger] refs[j]) && refs[j].path
                    != favorites_path() implies cur.contains(refs[j]) by {
                assert(j < n - 1);
            }
        }
    }
}

/// What `name_rank` finds: the first name that comes after `name`.
pub proof fn lemma_name_rank(list: Seq<RefModel>, name: Seq<char>, from: int)
    requires
        0 <= from <= list.len(),
    ensures
        from <= name_rank(list, name, from) <= list.len(),
        forall|i: int|
            from <= i < name_rank(list, name, from) ==> text_le((#[trigger] list[i]).name, name),
        name_rank(list, name, from) < list.len() ==> !text_le(
            list[name_rank(list, name, from)].name,
            name,
        ),
    decreases list.len() - from,
{
    if from < list.len() && text_le(list[from].name, name) {
        lemma_name_rank(list, name, from + 1);
    }
}

/// Of two texts one comes before the other, or they are equal.
pub proof fn lemma_text_le_total(a: Seq<char>, b: Seq<char>)
    ensures
        text_le(a, b) || text_le(b, a),
{
    lemma_bytes_le_total(vstd::utf8::encode_utf8(a), vstd::utf8::encode_utf8(b));
}

/// The order of texts is transitive.
pub proof fn lemma_text_le_transitive(a: Seq<char>, b: Seq<char>, c: Seq<char>)
    requires
        text_le(a, b),
        text_le(b, c),
    ensures
        text_le(a, c),
{
    lemma_bytes_le_transitive(
        vstd::utf8::encode_utf8(a),
        vstd::utf8::encode_utf8(b),
        vstd::utf8::encode_utf8(c),
    );
}

/// A photograph is marked as a favorite exactly where a reference of it goes
/// to the album of favorites, and the album of favorites is never among its
/// other albums.
pub proof fn lemma_favorites(m: Seq<EntryModel>, sources: Seq<SourceModel>, k: int)
    requires
        0 <= k < sources.len(),
    ensures
        forall|i: int|
            0 <= i < snapshot(m, sources).images[k].albums.len() ==> (
            #[trigger] snapshot(m, sources).images[k].albums[i]).path != favorites_path(),
        snapshot(m, sources).images[k].is_favorite <==> exists|j: int|
            0 <= j < membership_of(m, sources[k].file_name).len() && (#[trigger] membership_of(
                m,
                sources[k].file_name,
            )[j]).path == favorites_path(),
{
    let refs = membership_of(m, sources[k].file_name);
    lemma_tags(m, refs, refs.len() as int);
    lemma_favorite_upto(refs, refs.len() as int);
}

/// Whatever references a photograph is given, it is marked as a favorite
/// exactly where one of them goes to the album of favorites, and none of its
/// other albums is the album of favorites.
pub proof fn lemma_record_favorites(m: Seq<EntryModel>, source: SourceModel, refs: Seq<RefModel>)
    ensures
        photo_record(m, source, refs).is_favorite <==> exists|j: int|
            0 <= j < refs.len() && (#[trigger] refs[j]).path == favorites_path(),
        forall|i: int|
            0 <= i < photo_record(m, source, refs).albums.len() ==> (#[trigger] photo_record(
                m,
                source,
                refs,
            ).albums[i]).path != favorites_path(),
{
    lemma_tags(m, refs, refs.len() as int);
    lemma_favorite_upto(refs, refs.len() as int);
}

/// `favorite_upto` holds exactly where one of the first `n` references goes
/// to the album of favorites.
pub proof fn lemma_favorite_upto(refs: Seq<RefModel>, n: int)
    requires
        0 <= n <= refs.len(),
    ensures
        favorite_upto(refs, n) <==> exists|j: int|
            0 <= j < n && (#[trigger] refs[j]).path == favorites_path(),
    decreases n,
{
    if n > 0 {
        lemma_favorite_upto(refs, n - 1);
        if favorite_upto(refs, n) {
            if favorite_upto(refs, n - 1) {
                let j = choose|j: int| 0 <= j < n - 1 && (#[trigger] refs[j]).path
                    == favorites_path();
                assert(0 <= j < n && refs[j].path == favorites_path());
            } else {
                assert(refs[n - 1].path == favorites_path());
            }
        }
    }
}

/// For every photograph of an index that no album of the manifest claims for
/// its day there is an album made for the day on which it was taken, and no
/// day has two such albums.
pub proof fn lemma_day_albums(m: Seq<EntryModel>, sources: Seq<SourceModel>)
    requires
        build_error(m, sources) is None,
        sources.len() <= usize::MAX,
    ensures
        day_albums(ids_of(sources), auto_upto(m, sources, sources.len() as int)).len()
            == auto_upto(m, sources, sources.len() as int).len(),
        forall|k: int|
            0 <= k < sources.len() && count_kind(
                m,
                membership_of(m, sources[k].file_name),
                AlbumKind::Day,
                membership_of(m, sources[k].file_name).len() as int,
            ) == 0 ==> date_index(
                auto_upto(m, sources, sources.len() as int),
                (#[trigger] sources[k]).exif.actual_datetime.date(),
                0,
            ) < auto_upto(m, sources, sources.len() as int).len(),
        forall|a: int, b: int|
            0 <= a < b < auto_upto(m, sources, sources.len() as int).len() ==> (
            #[trigger] auto_upto(m, sources, sources.len() as int)[a]).date != (
            #[trigger] auto_upto(m, sources, sources.len() as int)[b]).date,
        forall|a: int|
            0 <= a < auto_upto(m, sources, sources.len() as int).len() ==> (#[trigger] day_albums(
                ids_of(sources),
                auto_upto(m, sources, sources.len() as int),
            )[a]).path == auto_ref(auto_upto(m, sources, sources.len() as int)[a].date).path
                && day_albums(ids_of(sources), auto_upto(m, sources, sources.len() as int))[a].name
                == auto_ref(auto_upto(m, sources, sources.len() as int)[a].date).name,
        forall|k: int|
            0 <= k < sources.len() && count_kind(
                m,
                membership_of(m, sources[k].file_name),
                AlbumKind::Day,
                membership_of(m, sources[k].file_name).len() as int,
            ) == 0 ==> (#[trigger] snapshot(m, sources).images[k]).day_album == auto_ref(
                sources[k].exif.actual_datetime.date(),
            ),
{
    let n = sources.len() as int;
    lemma_auto_upto(m, sources, n);
    assert forall|k: int|
        0 <= k < sources.len() && count_kind(
            m,
            membership_of(m, sources[k].file_name),
            AlbumKind::Day,
            membership_of(m, sources[k].file_name).len() as int,
        ) == 0 implies (#[trigger] snapshot(m, sources).images[k]).day_album == auto_ref(
        sources[k].exif.actual_datetime.date(),
    ) by {
        let refs = membership_of(m, sources[k].file_name);
        lemma_count_first(m, refs, AlbumKind::Day, refs.len() as int);
    }
}

/// The photographs of an album made for a day are photographs of the index
/// and follow each other in the order of their capture.
pub proof fn lemma_day_album_order(
    m: Seq<EntryModel>,
    sources: Seq<SourceModel>,
    a: int,
    i: int,
    j: int,
)
    requires
        build_error(m, sources) is None,
        sources.len() <= usize::MAX,
        0 <= a < auto_upto(m, sources, sources.len() as int).len(),
        0 <= i < j < auto_upto(m, sources, sources.len() as int)[a].photos.len(),
    ensures
        day_albums(ids_of(sources), auto_upto(m, sources, sources.len() as int))[a].photos.len()
            == auto_upto(m, sources, sources.len() as int)[a].photos.len(),
        day_albums(ids_of(sources), auto_upto(m, sources, sources.len() as int))[a].photos[i]
            < sources.len(),
        day_albums(ids_of(sources), auto_upto(m, sources, sources.len() as int))[a].photos[j]
            < sources.len(),
        times_of(sources)[day_albums(
            ids_of(sources),
            auto_upto(m, sources, sources.len() as int),
        )[a].photos[i] as int] <= times_of(sources)[day_albums(
            ids_of(sources),
            auto_upto(m, sources, sources.len() as int),
        )[a].photos[j] as int],
{
    let n = sources.len() as int;
    let auto = auto_upto(m, sources, n);
    lemma_auto_upto(m, sources, n);
    lemma_capture_place(m, sources, a, i);
    lemma_capture_place(m, sources, a, j);
    assert(ascending(auto[a].photos));
}

/// Whether no album of the manifest claims the photograph for its day.
pub open spec fn lacks_day(m: Seq<EntryModel>, source: SourceModel) -> bool {
    count_kind(
        m,
        membership_of(m, source.file_name),
        AlbumKind::Day,
        membership_of(m, source.file_name).len() as int,
    ) == 0
}

/// Once the first `k` photographs have been put into their albums, the album
/// made for the day of each of them that no album of the manifest claims for
/// its day holds it at its moment of capture.
pub proof fn lemma_auto_holds(m: Seq<EntryModel>, sources: Seq<SourceModel>, k: int, j: int)
    requires
        0 <= j < k <= sources.len(),
        lacks_day(m, sources[j]),
    ensures
        date_index(auto_upto(m, sources, k), sources[j].exif.actual_datetime.date(), 0)
            < auto_upto(m, sources, k).len(),
        auto_upto(m, sources, k)[date_index(
            auto_upto(m, sources, k),
            sources[j].exif.actual_datetime.date(),
            0,
        )].photos.contains(
            (sources[j].exif.actual_datetime.unix_seconds, sources[j].file_name),
        ),
    decreases k,
{
    let prev = auto_upto(m, sources, k - 1);
    let cur = auto_upto(m, sources, k);
    let src = sources[k - 1];
    let date = src.exif.actual_datetime.date();
    let time = src.exif.actual_datetime.unix_seconds;
    let wanted = sources[j].exif.actual_datetime.date();
    let entry = (sources[j].exif.actual_datetime.unix_seconds, sources[j].file_name);
    lemma_auto_upto(m, sources, k - 1);
    lemma_auto_upto(m, sources, k);
    if j < k - 1 {
        lemma_auto_holds(m, sources, k - 1, j);
        if lacks_day(m, src) {
            lemma_with_capture(prev, date, time, src.file_name);
            lemma_date_index(prev, date, 0);
            lemma_date_index(prev, wanted, 0);
            let d = date_index(prev, wanted, 0);
            assert(date_index(cur, wanted, 0) == d);
            if d == date_index(prev, date, 0) {
                lemma_with_photo(prev[d].photos, time, src.file_name);
            } else {
                assert(cur[d] == prev[d]);
            }
        }
    } else {
        lemma_with_capture(prev, date, time, src.file_name);
        lemma_date_index(prev, date, 0);
        let d = date_index(prev, date, 0);
        let old_photos = if d < prev.len() {
            prev[d].photos
        } else {
            Seq::empty()
        };
        lemma_with_photo(old_photos, time, src.file_name);
        assert(cur[d].photos == with_photo(old_photos, time, src.file_name));
    }
}

/// Every photograph of an index that no album of the manifest claims for its
/// day is in the album made for the day on which it was taken, and names
/// that album as the album of its day.
pub proof fn lemma_day_album_holds(m: Seq<EntryModel>, sources: Seq<SourceModel>, k: int)
    requires
        build_error(m, sources) is None,
        sources.len() <= usize::MAX,
        0 <= k < sources.len(),
        lacks_day(m, sources[k]),
    ensures
        date_index(
            auto_upto(m, sources, sources.len() as int),
            sources[k].exif.actual_datetime.date(),
            0,
        ) < auto_upto(m, sources, sources.len() as int).len(),
        day_albums(ids_of(sources), auto_upto(m, sources, sources.len() as int))[date_index(
            auto_upto(m, sources, sources.len() as int),
            sources[k].exif.actual_datetime.date(),
            0,
        )].photos.contains(k as usize),
        day_albums(ids_of(sources), auto_upto(m, sources, sources.len() as int))[date_index(
            auto_upto(m, sources, sources.len() as int),
            sources[k].exif.actual_datetime.date(),
            0,
        )].path == snapshot(m, sources).images[k].day_album.path,
        snapshot(m, sources).albums[m.len() + date_index(
            auto_upto(m, sources, sources.len() as int),
            sources[k].exif.actual_datetime.date(),
            0,
        )] == day_albums(ids_of(sources), auto_upto(m, sources, sources.len() as int))[date_index(
            auto_upto(m, sources, sources.len() as int),
            sources[k].exif.actual_datetime.date(),
            0,
        )],
{
    let n = sources.len() as int;
    let ids = ids_of(sources);
    let auto = auto_upto(m, sources, n);
    let date = sources[k].exif.actual_datetime.date();
    let entry = (sources[k].exif.actual_datetime.unix_seconds, sources[k].file_name);
    lemma_auto_holds(m, sources, n, k);
    lemma_auto_upto(m, sources, n);
    lemma_day_albums(m, sources);
    let a = date_index(auto, date, 0);
    lemma_date_index(auto, date, 0);
    let e = choose|e: int| 0 <= e < auto[a].photos.len() && auto[a].photos[e] == entry;
    lemma_no_repeat(ids, 0);
    assert(ids[k] == sources[k].file_name);
    lemma_photo_index(ids, entry.1, 0);
    let found = photo_index(ids, entry.1, 0);
    assert(found <= k);
    assert(ids[found] == ids[k]);
    assert(found == k);
    assert(capture_ids(auto[a].photos)[e] == entry.1);
    let album = day_albums(ids, auto)[a];
    assert(album.photos[e] == k as usize);
    let refs = membership_of(m, sources[k].file_name);
    lemma_count_first(m, refs, AlbumKind::Day, refs.len() as int);
}

/// What `album_index` finds: the last album with the path.
pub proof fn lemma_album_index(albums: Seq<AlbumModel>, path: Seq<char>, n: int)
    requires
        0 <= n <= albums.len(),
    ensures
        -1 <= album_index(albums, path, n) < n,
        album_index(albums, path, n) >= 0 ==> albums[album_index(albums, path, n)].path == path,
        forall|j: int| album_index(albums, path, n) < j < n ==> (#[trigger] albums[j]).path != path,
    decreases n,
{
    if n > 0 && albums[n - 1].path != path {
        lemma_album_index(albums, path, n - 1);
    }
}

/// Whether the time of capture of every photograph is one that exists.
pub open spec fn times_valid(sources: Seq<SourceModel>) -> bool {
    forall|k: int| 0 <= k < sources.len() ==> (#[trigger] sources[k]).exif.actual_datetime.valid()
}

/// Looking up the path of an album made for a day finds that album: no
/// other day has the path, and the album of every photograph has not.
pub proof fn lemma_day_album_is_found(m: Seq<EntryModel>, sources: Seq<SourceModel>, a: int)
    requires
        build_error(m, sources) is None,
        times_valid(sources),
        0 <= a < auto_upto(m, sources, sources.len() as int).len(),
    ensures
        album_index(
            snapshot(m, sources).albums,
            auto_upto(m, sources, sources.len() as int)[a].path,
            snapshot(m, sources).albums.len() as int,
        ) == m.len() + a,
        snapshot(m, sources).albums[m.len() + a] == day_albums(
            ids_of(sources),
            auto_upto(m, sources, sources.len() as int),
        )[a],
{
    let n = sources.len() as int;
    let auto = auto_upto(m, sources, n);
    let albums = snapshot(m, sources).albums;
    let path = auto[a].path;
    lemma_auto_upto(m, sources, n);
    lemma_made_albums_are_undeclared(m, sources);
    lemma_album_index(albums, path, albums.len() as int);
    lemma_album_date_valid(m, sources, a);
    assert(albums[m.len() + a] == day_albums(ids_of(sources), auto)[a]);
    assert forall|j: int| m.len() + a < j < albums.len() implies (#[trigger] albums[j]).path
        != path by {
        if j < m.len() + auto.len() {
            let b = j - m.len();
            assert(albums[j] == day_albums(ids_of(sources), auto)[b]);
            lemma_album_date_valid(m, sources, b);
            lemma_iso_date(auto[a].date, auto[b].date);
            assert(auto[a].date != auto[b].date);
        } else {
            assert(albums[j] == all_album(times_of(sources)));
            lemma_iso_date(auto[a].date, auto[a].date);
            reveal_strlit("all");
        }
    }
}

/// The day of an album made for a day is a day of the calendar.
proof fn lemma_album_date_valid(m: Seq<EntryModel>, sources: Seq<SourceModel>, a: int)
    requires
        times_valid(sources),
        0 <= a < auto_upto(m, sources, sources.len() as int).len(),
    ensures
        auto_upto(m, sources, sources.len() as int)[a].date.valid(),
        auto_upto(m, sources, sources.len() as int)[a].path == iso_date(
            auto_upto(m, sources, sources.len() as int)[a].date.year,
            auto_upto(m, sources, sources.len() as int)[a].date.month,
            auto_upto(m, sources, sources.len() as int)[a].date.day,
        ),
{
    let n = sources.len() as int;
    let auto = auto_upto(m, sources, n);
    lemma_auto_upto(m, sources, n);
    assert(has_capture(m, sources, n, auto[a].date, auto[a].photos[0]));
    let j = choose|j: int|
        0 <= j < n && #[trigger] sources[j].file_name == auto[a].photos[0].1
            && sources[j].exif.actual_datetime.date() == auto[a].date;
    assert(sources[j].exif.actual_datetime.valid());
}

/// Looking up a path that the manifest declares finds the album of its last
/// declaration: no album that is made stands in its way.
pub proof fn lemma_declared_album_is_found(m: Seq<EntryModel>, sources: Seq<SourceModel>, i: int)
    requires
        build_error(m, sources) is None,
        0 <= i < m.len(),
    ensures
        album_index(
            snapshot(m, sources).albums,
            m[i].path,
            snapshot(m, sources).albums.len() as int,
        ) == entry_at(m, m[i].path),
        snapshot(m, sources).albums[entry_at(m, m[i].path)] == entry_album(
            ids_of(sources),
            m[entry_at(m, m[i].path)],
        ),
{
    let n = sources.len() as int;
    let auto = auto_upto(m, sources, n);
    let albums = snapshot(m, sources).albums;
    let path = m[i].path;
    let e = entry_at(m, path);
    lemma_entry_at(m, i);
    lemma_last_with_path(m, path, m.len() as int);
    lemma_made_albums_are_undeclared(m, sources);
    lemma_album_index(albums, path, albums.len() as int);
    lemma_entry_at(m, e);
    assert(albums[e] == manifest_albums(m, ids_of(sources))[e]);
    assert forall|j: int| e < j < albums.len() implies (#[trigger] albums[j]).path != path by {
        if j < m.len() {
            lemma_entry_at(m, j);
            assert(albums[j] == manifest_albums(m, ids_of(sources))[j]);
        } else if j < m.len() + auto.len() {
            let b = j - m.len();
            assert(albums[j] == day_albums(ids_of(sources), auto)[b]);
        } else {
            assert(albums[j] == all_album(times_of(sources)));
        }
    }
}

/// No album made for a day stands at a path that the manifest declares, and
/// neither does the album of every photograph: an index is built only where
/// that is so.
pub proof fn lemma_made_albums_are_undeclared(m: Seq<EntryModel>, sources: Seq<SourceModel>)
    requires
        build_error(m, sources) is None,
    ensures
        entry_at(m, all_album(times_of(sources)).path) == -1,
        forall|a: int|
            0 <= a < auto_upto(m, sources, sources.len() as int).len() ==> entry_at(
                m,
                (#[trigger] auto_upto(m, sources, sources.len() as int)[a]).path,
            ) == -1,
        forall|a: int, i: int|
            0 <= a < auto_upto(m, sources, sources.len() as int).len() && 0 <= i < m.len() ==> (
            #[trigger] day_albums(
                ids_of(sources),
                auto_upto(m, sources, sources.len() as int),
            )[a]).path != (#[trigger] m[i]).path,
        forall|i: int| 0 <= i < m.len() ==> (#[trigger] m[i]).path != all_path(),
{
    lemma_no_failure(m, sources, 0);
    lemma_undeclared_upto(m, sources, sources.len() as int);
    lemma_last_with_path(m, all_path(), m.len() as int);
    let auto = auto_upto(m, sources, sources.len() as int);
    assert forall|a: int, i: int| 0 <= a < auto.len() && 0 <= i < m.len() implies (
    #[trigger] day_albums(ids_of(sources), auto)[a]).path != (#[trigger] m[i]).path by {
        lemma_last_with_path(m, auto[a].path, m.len() as int);
    }
}

/// Where each of the first `k` photographs can be put into its albums, no
/// album made for a day stands at a path that the manifest declares.
proof fn lemma_undeclared_upto(m: Seq<EntryModel>, sources: Seq<SourceModel>, k: int)
    requires
        0 <= k <= sources.len(),
        forall|j: int| 0 <= j < k ==> photo_error_at(m, sources, j) is None,
    ensures
        forall|a: int|
            0 <= a < auto_upto(m, sources, k).len() ==> entry_at(
                m,
                (#[trigger] auto_upto(m, sources, k)[a]).path,
            ) == -1,
    decreases k,
{
    if k > 0 {
        lemma_undeclared_upto(m, sources, k - 1);
        lemma_auto_upto(m, sources, k - 1);
        let prev = auto_upto(m, sources, k - 1);
        let cur = auto_upto(m, sources, k);
        let src = sources[k - 1];
        let date = src.exif.actual_datetime.date();
        let time = src.exif.actual_datetime.unix_seconds;
        assert(photo_error_at(m, sources, k - 1) is None);
        lemma_last_with_path(m, auto_path(date), m.len() as int);
        if lacks_day(m, src) {
            lemma_with_capture(prev, date, time, src.file_name);
            lemma_date_index(prev, date, 0);
            let d = date_index(prev, date, 0);
            assert forall|a: int| 0 <= a < cur.len() implies entry_at(m, (#[trigger] cur[a]).path)
                == -1 by {
                if a < prev.len() {
                    assert(cur[a].path == prev[a].path);
                }
            }
        }
    }
}

/// Where no two photographs share a name, no album made for a day holds a
/// name twice.
proof fn lemma_auto_distinct(m: Seq<EntryModel>, sources: Seq<SourceModel>, k: int)
    requires
        0 <= k <= sources.len(),
        first_repeat(ids_of(sources), 0) >= sources.len(),
    ensures
        forall|a: int, e1: int, e2: int|
            0 <= a < auto_upto(m, sources, k).len() && 0 <= e1 < e2 < auto_upto(
                m,
                sources,
                k,
            )[a].photos.len() ==> (#[trigger] auto_upto(m, sources, k)[a].photos[e1]).1 != (
            #[trigger] auto_upto(m, sources, k)[a].photos[e2]).1,
    decreases k,
{
    if k > 0 {
        lemma_auto_distinct(m, sources, k - 1);
        lemma_auto_upto(m, sources, k - 1);
        lemma_no_repeat(ids_of(sources), 0);
        let prev = auto_upto(m, sources, k - 1);
        let cur = auto_upto(m, sources, k);
        let src = sources[k - 1];
        let date = src.exif.actual_datetime.date();
        let time = src.exif.actual_datetime.unix_seconds;
        if lacks_day(m, src) {
            lemma_with_capture(prev, date, time, src.file_name);
            lemma_date_index(prev, date, 0);
            let d = date_index(prev, date, 0);
            let old_photos = if d < prev.len() {
                prev[d].photos
            } else {
                Seq::empty()
            };
            let p = upper_bound(old_photos, time, 0);
            lemma_upper_bound(old_photos, time, 0);
            assert forall|a: int, e1: int, e2: int|
                0 <= a < cur.len() && 0 <= e1 < e2 < cur[a].photos.len() implies (
            #[trigger] cur[a].photos[e1]).1 != (#[trigger] cur[a].photos[e2]).1 by {
                if a == d {
                    assert(cur[a].photos == old_photos.insert(p, (time, src.file_name)));
                    let o1 = if e1 < p { e1 } else { e1 - 1 };
                    let o2 = if e2 < p { e2 } else { e2 - 1 };
                    if e1 != p && e2 != p {
                        assert(cur[a].photos[e1] == old_photos[o1]);
                        assert(cur[a].photos[e2] == old_photos[o2]);
                        assert(prev[d].photos[o1].1 != prev[d].photos[o2].1);
                    } else {
                        let o = if e1 == p { o2 } else { o1 };
                        let e = if e1 == p { e2 } else { e1 };
                        assert(cur[a].photos[e] == old_photos[o]);
                        assert(has_capture(m, sources, k - 1, prev[d].date, prev[d].photos[o]));
                        let j = choose|j: int|
                            0 <= j < k - 1 && #[trigger] sources[j].file_name
                                == prev[d].photos[o].1;
                        assert(ids_of(sources)[j] == sources[j].file_name);
                        assert(ids_of(sources)[k - 1] == src.file_name);
                    }
                } else {
                    assert(cur[a] == prev[a]);
                }
            }
        }
    }
}

/// An album made for a day holds each of its photographs once.
pub proof fn lemma_day_album_once(m: Seq<EntryModel>, sources: Seq<SourceModel>, a: int)
    requires
        build_error(m, sources) is None,
        sources.len() <= usize::MAX,
        0 <= a < auto_upto(m, sources, sources.len() as int).len(),
    ensures
        day_albums(
            ids_of(sources),
            auto_upto(m, sources, sources.len() as int),
        )[a].photos.no_duplicates(),
        day_albums(ids_of(sources), auto_upto(m, sources, sources.len() as int))[a].photos.len()
            == auto_upto(m, sources, sources.len() as int)[a].photos.len(),
{
    let n = sources.len() as int;
    let auto = auto_upto(m, sources, n);
    let album = day_albums(ids_of(sources), auto)[a];
    lemma_auto_distinct(m, sources, n);
    assert forall|i: int, j: int| 0 <= i < j < album.photos.len() implies album.photos[i]
        != album.photos[j] by {
        lemma_capture_place(m, sources, a, i);
        lemma_capture_place(m, sources, a, j);
        assert(auto[a].photos[i].1 != auto[a].photos[j].1);
    }
}

/// The place in the index of a photograph of an album made for a day is that
/// of a photograph taken at the moment that the album holds for it.
proof fn lemma_capture_place(m: Seq<EntryModel>, sources: Seq<SourceModel>, a: int, e: int)
    requires
        build_error(m, sources) is None,
        sources.len() <= usize::MAX,
        0 <= a < auto_upto(m, sources, sources.len() as int).len(),
        0 <= e < auto_upto(m, sources, sources.len() as int)[a].photos.len(),
    ensures
        day_albums(ids_of(sources), auto_upto(m, sources, sources.len() as int))[a].photos[e]
            < sources.len(),
        times_of(sources)[day_albums(
            ids_of(sources),
            auto_upto(m, sources, sources.len() as int),
        )[a].photos[e] as int] == auto_upto(m, sources, sources.len() as int)[a].photos[e].0,
        ids_of(sources)[day_albums(
            ids_of(sources),
            auto_upto(m, sources, sources.len() as int),
        )[a].photos[e] as int] == auto_upto(m, sources, sources.len() as int)[a].photos[e].1,
{
    let n = sources.len() as int;
    let ids = ids_of(sources);
    let auto = auto_upto(m, sources, n);
    lemma_auto_upto(m, sources, n);
    lemma_no_repeat(ids, 0);
    let entry = auto[a].photos[e];
    assert(has_capture(m, sources, n, auto[a].date, entry));
    let j = choose|j: int|
        0 <= j < n && #[trigger] sources[j].file_name == entry.1
            && sources[j].exif.actual_datetime.unix_seconds == entry.0;
    assert(ids[j] == entry.1);
    lemma_photo_index(ids, entry.1, 0);
    let found = photo_index(ids, entry.1, 0);
    assert(found <= j);
    assert(ids[found] == ids[j]);
    assert(found == j);
    assert(capture_ids(auto[a].photos)[e] == entry.1);
    assert(resolved(ids, capture_ids(auto[a].photos))[e] == found as usize);
}

/// All places of a group of albums are places of entries of the manifest.
proof fn lemma_grouped(m: Seq<EntryModel>, kind: Option<AlbumKind>, n: int)
    requires
        0 <= n <= m.len(),
    ensures
        all_below(grouped(m, kind, n), n),
    decreases n,
{
    if n > 0 {
        lemma_grouped(m, kind, n - 1);
    }
}

/// An index that is built hangs together: every place that it names is a
/// place that it has.
pub proof fn lemma_snapshot_wf(m: Seq<EntryModel>, sources: Seq<SourceModel>)
    requires
        build_error(m, sources) is None,
        sources.len() <= usize::MAX,
    ensures
        snapshot(m, sources).wf(),
{
    let n = sources.len() as int;
    let ids = ids_of(sources);
    let auto = auto_upto(m, sources, n);
    let state = snapshot(m, sources);
    lemma_time_order(times_of(sources), true, n);
    lemma_time_order(times_of(sources), false, n);
    lemma_grouped(m, None, m.len() as int);
    lemma_grouped(m, Some(AlbumKind::Day), m.len() as int);
    lemma_grouped(m, Some(AlbumKind::Location), m.len() as int);
    assert forall|a: int| 0 <= a < state.albums.len() implies album_within(
        #[trigger] state.albums[a],
        n,
    ) by {
        if a < m.len() {
            lemma_entry_at(m, a);
            let e = m[entry_at(m, m[a].path)];
            lemma_nothing_missing(m, ids, entry_at(m, m[a].path));
            let album = entry_album(ids, e);
            assert(state.albums[a] == album);
            lemma_photo_index(ids, e.cover_img, 0);
            let listed = resolved(ids, e.photos);
            assert forall|i: int| 0 <= i < listed.len() implies #[trigger] listed[i] < n by {
                lemma_photo_index(ids, e.photos[i], 0);
            }
            assert forall|i: int| 0 <= i < album.photos.len() implies #[trigger] album.photos[i]
                < n by {
                if e.from_last {
                    assert(album.photos[i] == listed[listed.len() - 1 - i]);
                }
            }
        } else if a < m.len() + auto.len() {
            let d = a - m.len();
            lemma_auto_upto(m, sources, n);
            let album = day_albums(ids, auto)[d];
            assert(state.albums[a] == album);
            assert forall|i: int| 0 <= i < album.photos.len() implies #[trigger] album.photos[i]
                < n by {
                lemma_capture_place(m, sources, d, i);
            }
            lemma_capture_place(m, sources, d, 0);
        } else {
            assert(state.albums[a] == all_album(times_of(sources)));
        }
    }
}

/// The album of every photograph holds every photograph of the index once,
/// the newest first, and its cover is the one in the middle of that order.
pub proof fn lemma_all_album(m: Seq<EntryModel>, sources: Seq<SourceModel>)
    requires
        0 < sources.len() <= usize::MAX,
    ensures
        snapshot(m, sources).albums.last() == all_album(times_of(sources)),
        all_album(times_of(sources)).photos.len() == sources.len(),
        all_album(times_of(sources)).photos.no_duplicates(),
        forall|k: usize|
            k < sources.len() ==> #[trigger] all_album(times_of(sources)).photos.contains(k),
        forall|i: int|
            0 <= i < sources.len() ==> (#[trigger] all_album(times_of(sources)).photos[i])
                < sources.len(),
        in_time_order(times_of(sources), all_album(times_of(sources)).photos, true),
        all_album(times_of(sources)).cover_img == all_album(
            times_of(sources),
        ).photos[sources.len() as int / 2],
{
    lemma_time_order(times_of(sources), true, sources.len() as int);
}

/// The photographs of an index from the oldest to the newest hold every
/// photograph once.
pub proof fn lemma_images_by_time(m: Seq<EntryModel>, sources: Seq<SourceModel>)
    requires
        sources.len() <= usize::MAX,
    ensures
        snapshot(m, sources).images_by_time.len() == sources.len(),
        snapshot(m, sources).images_by_time.no_duplicates(),
        forall|k: usize|
            k < sources.len() ==> #[trigger] snapshot(m, sources).images_by_time.contains(k),
        in_time_order(times_of(sources), snapshot(m, sources).images_by_time, false),
{
    lemma_time_order(times_of(sources), false, sources.len() as int);
}

/// Building twice from the same manifest and the same photographs gives the
/// same index: the same albums with the same photographs in the same order,
/// and the same content hashes.
pub proof fn lemma_rebuild_is_identical(
    m: Seq<EntryModel>,
    sources: Seq<SourceModel>,
    first: StateModel,
    second: StateModel,
)
    requires
        first == snapshot(m, sources),
        second == snapshot(m, sources),
    ensures
        first == second,
        first.albums == second.albums,
        first.images_by_time == second.images_by_time,
        forall|k: int|
            0 <= k < first.images.len() ==> (#[trigger] first.images[k]).full_img_hash
                == second.images[k].full_img_hash && first.images[k].smaller_webp.hash
                == second.images[k].smaller_webp.hash,
{
}

} // verus!
