use photo_site::albums::{AlbumKind, AlbumReference, AutoDateAlbumBuilder};
use photo_site::hashing::{hash, ContentHash};
use photo_site::manifest::{
    find_entry, is_effective, kind_of, membership, missing_from, named_photos,
    AlbumDisplayOrder, ParsedAlbum, ParsedAlbumKind,
};
use photo_site::metadata::PhotoExifInfo;
use photo_site::pages::recent_photos_context;
use photo_site::photos::{
    exceeds_pixel_budget, fail_fast, find_photo, sort_by_time, BuildError, InMemImg, PhotoError,
    PhotoSource, PhotosState,
};
use photo_site::tags::{ExifTags, Rational, TagValue};
use photo_site::time::CaptureTime;

fn ascii(text: &str) -> Option<TagValue> {
    Some(TagValue::Ascii(vec![text.as_bytes().to_vec()]))
}

fn exif_at(taken: &str, offset: &str) -> PhotoExifInfo {
    let mut tags = ExifTags::empty();
    tags.image_description = ascii("A photograph");
    tags.date_time_original = ascii(taken);
    tags.offset_time_original = ascii(offset);
    tags.make = ascii("Pentax");
    tags.model = ascii("K-1");
    tags.photographic_sensitivity = Some(TagValue::Short(vec![200]));
    tags.f_number = Some(TagValue::Rational(vec![Rational { num: 8, denom: 1 }]));
    tags.focal_length = Some(TagValue::Rational(vec![Rational { num: 50, denom: 1 }]));
    tags.exposure_time = Some(TagValue::Rational(vec![Rational { num: 1, denom: 60 }]));
    PhotoExifInfo::from_tags(&tags).unwrap()
}

fn source(name: &str, taken: &str) -> PhotoSource {
    PhotoSource {
        file_name: name.to_string(),
        exif_info: exif_at(taken, "+00:00"),
        full_img_hash: ContentHash::of(name.as_bytes()),
        smaller_webp: InMemImg::new(4, 3, name.as_bytes().to_vec()),
    }
}

fn album(
    name: &str,
    kind: Option<ParsedAlbumKind>,
    display: AlbumDisplayOrder,
    cover: &str,
    photos: &[&str],
) -> ParsedAlbum {
    ParsedAlbum {
        name: name.to_string(),
        kind,
        display,
        description: format!("About *{}*", name),
        cover_img: cover.to_string(),
        photos: photos.iter().map(|p| p.to_string()).collect(),
    }
}

fn plain(name: &str, cover: &str, photos: &[&str]) -> ParsedAlbum {
    album(name, None, AlbumDisplayOrder::FromFirst, cover, photos)
}

fn names(state: &PhotosState, places: &[usize]) -> Vec<String> {
    places.iter().map(|&i| state.images[i].file_name.clone()).collect()
}

fn paths(refs: &[AlbumReference]) -> Vec<String> {
    refs.iter().map(|r| r.path.clone()).collect()
}

#[test]
fn favorites_mark_the_photo_and_are_no_tag() {
    let manifest = vec![
        ("favorites".to_string(), plain("Favorites", "sunset", &["sunset"])),
        ("trips".to_string(), plain("Trips", "sunset", &["sunset", "harbour"])),
    ];
    let sources = vec![
        source("sunset", "2021:12:18 17:00:00"),
        source("harbour", "2021:12:18 09:00:00"),
    ];
    let state = PhotosState::new(manifest, sources).unwrap();
    let sunset = &state.images[state.find_image("sunset").unwrap()];
    assert!(sunset.is_favorite);
    assert_eq!(paths(&sunset.albums), vec!["trips"]);
    let harbour = &state.images[state.find_image("harbour").unwrap()];
    assert!(!harbour.is_favorite);
    assert_eq!(paths(&harbour.albums), vec!["trips"]);
    let favorites = state.album_context("favorites").unwrap();
    assert_eq!(names(&state, &favorites.photos), vec!["sunset"]);
    assert_eq!(recent_photos_context(&state), vec![0]);
}

#[test]
fn two_photos_of_one_day_share_an_album_made_for_the_day() {
    let sources = vec![
        source("late", "2021:12:18 21:30:00"),
        source("early", "2021:12:18 07:15:00"),
    ];
    let state = PhotosState::new(Vec::new(), sources).unwrap();
    assert_eq!(state.albums.len(), 2);
    let day = state.album_context("2021-12-18").unwrap();
    assert_eq!(day.path, "2021-12-18");
    assert_eq!(day.name, "18 December, 2021");
    assert_eq!(day.description, "<p>Everything from 18 December, 2021</p>");
    assert_eq!(day.kind, Some(AlbumKind::Day));
    assert_eq!(names(&state, &day.photos), vec!["early", "late"]);
    assert_eq!(state.images[day.cover_img].file_name, "early");
    for photo in &state.images {
        assert_eq!(photo.day_album.path, "2021-12-18");
        assert_eq!(photo.day_album.name, "18 December, 2021");
        assert!(photo.location.is_none());
        assert!(photo.albums.is_empty());
    }
}

#[test]
fn the_reserved_path_fails_the_build() {
    let manifest = vec![
        ("trips".to_string(), plain("Trips", "a", &["a"])),
        ("all".to_string(), plain("Everything", "a", &["a"])),
    ];
    let result = PhotosState::new(manifest, vec![source("a", "2021:01:01 00:00:00")]);
    assert!(matches!(result, Err(BuildError::ReservedAlbumName)));
    let manifest = vec![("all".to_string(), plain("Everything", "missing", &["bad name"]))];
    assert!(matches!(
        PhotosState::check_inputs(&manifest, &vec!["bad name".to_string()]),
        Err(BuildError::ReservedAlbumName)
    ));
    assert!(matches!(
        PhotosState::check_manifest(&manifest),
        Err(BuildError::ReservedAlbumName)
    ));
    let fine = vec![("trips".to_string(), plain("Trips", "missing", &[]))];
    assert!(PhotosState::check_manifest(&fine).is_ok());
    let bad = vec![("tr ips".to_string(), plain("Trips", "missing", &[]))];
    assert!(matches!(
        PhotosState::check_manifest(&bad),
        Err(BuildError::BadAlbumPath(ref p)) if p == "tr ips"
    ));
}

#[test]
fn names_that_are_not_uri_safe_fail_the_build() {
    let manifest = vec![
        ("trips".to_string(), plain("Trips", "a", &["a"])),
        ("my trips".to_string(), plain("Mine", "a", &["a"])),
        ("also bad".to_string(), plain("Bad", "a", &["a"])),
    ];
    let result = PhotosState::new(manifest, vec![source("a", "2021:01:01 00:00:00")]);
    assert!(matches!(result, Err(BuildError::BadAlbumPath(ref p)) if p == "my trips"));

    let sources = vec![
        source("fine", "2021:01:01 00:00:00"),
        source("not fine", "2021:01:02 00:00:00"),
    ];
    let result = PhotosState::new(Vec::new(), sources);
    assert!(matches!(result, Err(BuildError::BadFileName(ref n)) if n == "not fine"));
}

#[test]
fn two_files_of_one_name_fail_the_build() {
    let sources = vec![
        source("a", "2021:01:01 00:00:00"),
        source("b", "2021:01:02 00:00:00"),
        source("a", "2021:01:03 00:00:00"),
    ];
    let result = PhotosState::new(Vec::new(), sources);
    assert!(matches!(result, Err(BuildError::DuplicatePhoto(ref n)) if n == "a"));
}

#[test]
fn photos_that_the_manifest_names_have_to_be_there() {
    let manifest = vec![
        ("trips".to_string(), plain("Trips", "cover", &["a", "gone", "a", "gone"])),
        ("more".to_string(), plain("More", "a", &["lost", "cover"])),
    ];
    let result = PhotosState::new(manifest, vec![source("a", "2021:01:01 00:00:00")]);
    match result {
        Err(BuildError::MissingPhotos(missing)) => {
            assert_eq!(missing, vec!["gone", "cover", "lost"]);
        }
        other => panic!("unexpected result {:?}", other.map(|_| ())),
    }
}

#[test]
fn a_cover_alone_has_to_be_there_too() {
    let manifest = vec![("trips".to_string(), plain("Trips", "cover", &[]))];
    let result = PhotosState::new(manifest, vec![source("a", "2021:01:01 00:00:00")]);
    assert!(matches!(result, Err(BuildError::MissingPhotos(ref m)) if m == &vec!["cover".to_string()]));
}

#[test]
fn no_photo_no_index() {
    assert!(matches!(
        PhotosState::new(Vec::new(), Vec::new()),
        Err(BuildError::NoPhotos)
    ));
    let manifest = vec![("trips".to_string(), plain("Trips", "a", &[]))];
    assert!(matches!(
        PhotosState::new(manifest, Vec::new()),
        Err(BuildError::MissingPhotos(_))
    ));
}

#[test]
fn two_albums_of_a_place_for_one_photo_fail_the_build() {
    let manifest = vec![
        (
            "lisbon".to_string(),
            album("Lisbon", Some(ParsedAlbumKind::Location), AlbumDisplayOrder::FromFirst, "a", &["a", "b"]),
        ),
        (
            "porto".to_string(),
            album("Porto", Some(ParsedAlbumKind::Location), AlbumDisplayOrder::FromFirst, "b", &["b"]),
        ),
    ];
    let sources = vec![
        source("a", "2021:01:01 00:00:00"),
        source("b", "2021:01:02 00:00:00"),
    ];
    let result = PhotosState::new(manifest, sources);
    assert!(matches!(
        result,
        Err(BuildError::Photo { ref file_name, error: PhotoError::MultipleLocationAlbums })
            if file_name == "b"
    ));
}

#[test]
fn a_photo_twice_in_one_album_of_a_place_counts_twice() {
    let manifest = vec![(
        "lisbon".to_string(),
        album("Lisbon", Some(ParsedAlbumKind::Location), AlbumDisplayOrder::FromFirst, "a", &["a", "a"]),
    )];
    let result = PhotosState::new(manifest, vec![source("a", "2021:01:01 00:00:00")]);
    assert!(matches!(
        result,
        Err(BuildError::Photo { error: PhotoError::MultipleLocationAlbums, .. })
    ));
}

#[test]
fn two_albums_of_a_day_for_one_photo_fail_the_build() {
    let day = |label: &str| Some(ParsedAlbumKind::Day(label.to_string()));
    let manifest = vec![
        ("first".to_string(), album("First", day("1"), AlbumDisplayOrder::FromFirst, "a", &["a"])),
        ("second".to_string(), album("Second", day("2"), AlbumDisplayOrder::FromFirst, "a", &["a"])),
    ];
    let result = PhotosState::new(manifest, vec![source("a", "2021:01:01 00:00:00")]);
    assert!(matches!(
        result,
        Err(BuildError::Photo { error: PhotoError::MultipleDayAlbums, .. })
    ));
}

#[test]
fn a_declared_album_at_the_path_of_a_day_fails_the_build() {
    let manifest = vec![("2021-01-02".to_string(), plain("New year", "a", &["a"]))];
    let sources = vec![
        source("a", "2021:01:01 00:00:00"),
        source("b", "2021:01:02 00:00:00"),
    ];
    let result = PhotosState::new(manifest, sources);
    assert!(matches!(
        result,
        Err(BuildError::Photo { ref file_name, error: PhotoError::AutoAlbumPathTaken })
            if file_name == "b"
    ));
}

#[test]
fn albums_of_a_place_and_a_day_are_taken_out_of_the_tags() {
    let manifest = vec![
        ("zoo".to_string(), plain("Zoo", "a", &["a"])),
        (
            "lisbon".to_string(),
            album("Lisbon", Some(ParsedAlbumKind::Location), AlbumDisplayOrder::FromFirst, "a", &["a"]),
        ),
        (
            "arrival".to_string(),
            album("Arrival", Some(ParsedAlbumKind::Day("d1".to_string())), AlbumDisplayOrder::FromFirst, "a", &["a"]),
        ),
        ("animals".to_string(), plain("Animals", "a", &["b", "a"])),
        ("favorites".to_string(), plain("Best", "a", &["a"])),
        ("birds".to_string(), plain("Animals", "a", &["a"])),
    ];
    let sources = vec![
        source("a", "2021:01:01 00:00:00"),
        source("b", "2021:01:02 00:00:00"),
    ];
    let state = PhotosState::new(manifest, sources).unwrap();
    let a = &state.images[0];
    assert_eq!(a.location.as_ref().unwrap().path, "lisbon");
    assert_eq!(a.location.as_ref().unwrap().name, "Lisbon");
    assert_eq!(a.day_album.path, "arrival");
    assert_eq!(a.day_album.name, "Arrival");
    assert!(a.is_favorite);
    assert_eq!(paths(&a.albums), vec!["animals", "birds", "zoo"]);
    let b = &state.images[1];
    assert!(b.location.is_none());
    assert_eq!(b.day_album.path, "2021-01-02");
    assert_eq!(paths(&b.albums), vec!["animals"]);
    assert!(state.album_context("2021-01-01").is_none());
    assert!(state.album_context("2021-01-02").is_some());
}

#[test]
fn the_album_of_every_photo_runs_from_the_newest_to_the_oldest() {
    let sources = vec![
        source("middle", "2021:06:01 00:00:00"),
        source("oldest", "2020:06:01 00:00:00"),
        source("newest", "2022:06:01 00:00:00"),
        source("second", "2020:07:01 00:00:00"),
        source("twin", "2021:06:01 00:00:00"),
    ];
    let state = PhotosState::new(Vec::new(), sources).unwrap();
    let all = state.album_context("all").unwrap();
    assert_eq!(all.name, "All photos");
    assert_eq!(all.description, "All of my photos on this site, each and every one");
    assert_eq!(all.kind, Some(AlbumKind::All));
    assert_eq!(
        names(&state, &all.photos),
        vec!["newest", "middle", "twin", "second", "oldest"]
    );
    assert_eq!(all.cover_img, all.photos[5 / 2]);
    assert_eq!(state.images[all.cover_img].file_name, "twin");
    assert_eq!(
        names(&state, &state.images_by_time),
        vec!["oldest", "second", "middle", "twin", "newest"]
    );
    assert_eq!(state.map_context(), &state.images_by_time);
    assert_eq!(state.albums.last().unwrap().path, "all");
}

#[test]
fn the_album_of_a_single_photo() {
    let state = PhotosState::new(Vec::new(), vec![source("only", "2021:06:01 00:00:00")]).unwrap();
    let all = state.album_context("all").unwrap();
    assert_eq!(all.photos, vec![0]);
    assert_eq!(all.cover_img, 0);
}

#[test]
fn declared_albums_keep_their_order_or_turn_it_round() {
    let manifest = vec![
        (
            "forward".to_string(),
            album("Forward", None, AlbumDisplayOrder::FromFirst, "c", &["b", "a", "c"]),
        ),
        (
            "backward".to_string(),
            album("Backward", None, AlbumDisplayOrder::FromLast, "a", &["b", "a", "c"]),
        ),
    ];
    let sources = vec![
        source("a", "2021:01:01 00:00:00"),
        source("b", "2021:01:02 00:00:00"),
        source("c", "2021:01:03 00:00:00"),
    ];
    let state = PhotosState::new(manifest, sources).unwrap();
    let forward = state.album_context("forward").unwrap();
    assert_eq!(names(&state, &forward.photos), vec!["b", "a", "c"]);
    assert_eq!(state.images[forward.cover_img].file_name, "c");
    assert_eq!(forward.description, "<p>About <em>Forward</em></p>\n");
    assert_eq!(forward.kind, None);
    let backward = state.album_context("backward").unwrap();
    assert_eq!(names(&state, &backward.photos), vec!["c", "a", "b"]);
    assert_eq!(state.images[backward.cover_img].file_name, "a");
}

#[test]
fn albums_made_for_days_are_never_turned_round() {
    let sources = vec![
        source("b", "2021:01:01 10:00:00"),
        source("c", "2021:01:01 11:00:00"),
        source("a", "2021:01:01 09:00:00"),
        source("x", "2021:01:05 09:00:00"),
    ];
    let state = PhotosState::new(Vec::new(), sources).unwrap();
    let first = state.album_context("2021-01-01").unwrap();
    assert_eq!(names(&state, &first.photos), vec!["a", "b", "c"]);
    let second = state.album_context("2021-01-05").unwrap();
    assert_eq!(names(&state, &second.photos), vec!["x"]);
    assert_eq!(state.albums.len(), 3);
    assert_eq!(state.albums[0].path, "2021-01-01");
    assert_eq!(state.albums[1].path, "2021-01-05");
}

#[test]
fn the_day_of_a_photo_is_the_day_on_its_own_clock() {
    let mut east = source("east", "2021:01:02 00:30:00");
    east.exif_info = exif_at("2021:01:02 00:30:00", "+09:00");
    let mut west = source("west", "2021:01:01 23:30:00");
    west.exif_info = exif_at("2021:01:01 23:30:00", "-09:00");
    let state = PhotosState::new(Vec::new(), vec![east, west]).unwrap();
    assert_eq!(state.images[0].day_album.path, "2021-01-02");
    assert_eq!(state.images[1].day_album.path, "2021-01-01");
    assert_eq!(names(&state, &state.images_by_time), vec!["east", "west"]);
}

#[test]
fn albums_are_grouped_by_kind_in_the_order_of_the_manifest() {
    let place = || Some(ParsedAlbumKind::Location);
    let day = || Some(ParsedAlbumKind::Day("x".to_string()));
    let manifest = vec![
        ("n1".to_string(), plain("N1", "a", &[])),
        ("l1".to_string(), album("L1", place(), AlbumDisplayOrder::FromFirst, "a", &[])),
        ("d1".to_string(), album("D1", day(), AlbumDisplayOrder::FromFirst, "a", &[])),
        ("n2".to_string(), plain("N2", "a", &[])),
        ("l2".to_string(), album("L2", place(), AlbumDisplayOrder::FromFirst, "a", &[])),
    ];
    let state = PhotosState::new(manifest, vec![source("a", "2021:01:01 00:00:00")]).unwrap();
    let grouped = state.albums_context();
    assert_eq!(grouped.normal_albums, vec![0, 3]);
    assert_eq!(grouped.locations, vec![1, 4]);
    assert_eq!(grouped.days, vec![2]);
    assert_eq!(state.albums[3].name, "N2");
    assert_eq!(state.albums.len(), 7);
}

#[test]
fn a_path_declared_twice_stands_for_its_last_declaration() {
    let manifest = vec![
        ("trips".to_string(), plain("Old trips", "nowhere", &["nothing", "a"])),
        ("other".to_string(), plain("Other", "a", &["a"])),
        (
            "trips".to_string(),
            album("New trips", Some(ParsedAlbumKind::Location), AlbumDisplayOrder::FromFirst, "a", &["a"]),
        ),
    ];
    assert_eq!(find_entry(&manifest, "trips"), Some(2));
    assert_eq!(find_entry(&manifest, "none"), None);
    assert!(!is_effective(&manifest, 0));
    assert!(is_effective(&manifest, 1));
    assert!(is_effective(&manifest, 2));
    assert_eq!(kind_of(&manifest, "trips"), Some(AlbumKind::Location));
    assert_eq!(kind_of(&manifest, "other"), None);
    assert_eq!(named_photos(&manifest), vec!["a", "a", "a", "a"]);
    let refs = membership(&manifest, "a");
    assert_eq!(paths(&refs), vec!["other", "trips"]);
    assert_eq!(refs[1].name, "New trips");

    let state = PhotosState::new(manifest, vec![source("a", "2021:01:01 00:00:00")]).unwrap();
    assert_eq!(state.albums[0].name, "New trips");
    assert_eq!(state.albums[2].name, "New trips");
    assert_eq!(state.albums_in_order.locations, vec![0, 2]);
    assert_eq!(state.albums_in_order.normal_albums, vec![1]);
    assert_eq!(state.images[0].location.as_ref().unwrap().name, "New trips");
}

#[test]
fn rebuilding_gives_the_same_index() {
    let build = || {
        let manifest = vec![
            ("favorites".to_string(), plain("Favorites", "b", &["b", "a"])),
            (
                "coast".to_string(),
                album("Coast", Some(ParsedAlbumKind::Location), AlbumDisplayOrder::FromLast, "a", &["a", "c"]),
            ),
        ];
        let sources = vec![
            source("a", "2021:01:01 10:00:00"),
            source("b", "2021:01:01 10:00:00"),
            source("c", "2019:01:01 10:00:00"),
        ];
        PhotosState::new(manifest, sources).unwrap()
    };
    let first = build();
    let second = build();
    assert_eq!(first.images_by_time, second.images_by_time);
    assert_eq!(first.albums.len(), second.albums.len());
    for (x, y) in first.albums.iter().zip(second.albums.iter()) {
        assert_eq!(x.path, y.path);
        assert_eq!(x.name, y.name);
        assert_eq!(x.cover_img, y.cover_img);
        assert_eq!(x.photos, y.photos);
    }
    for (x, y) in first.images.iter().zip(second.images.iter()) {
        assert_eq!(x.file_name, y.file_name);
        assert_eq!(x.full_img_hash.as_str(), y.full_img_hash.as_str());
        assert_eq!(x.smaller_webp.hash(), y.smaller_webp.hash());
        assert_eq!(paths(&x.albums), paths(&y.albums));
        assert_eq!(x.is_favorite, y.is_favorite);
    }
}

#[test]
fn photos_of_one_moment_are_both_in_the_album_of_their_day() {
    let sources = vec![
        source("third", "2021:01:01 11:00:00"),
        source("first", "2021:01:01 10:00:00"),
        source("second", "2021:01:01 10:00:00"),
    ];
    let state = PhotosState::new(Vec::new(), sources).unwrap();
    let day = state.album_context("2021-01-01").unwrap();
    assert_eq!(names(&state, &day.photos), vec!["first", "second", "third"]);
    assert_eq!(state.images[day.cover_img].file_name, "first");
    for photo in &state.images {
        assert_eq!(photo.day_album.path, "2021-01-01");
    }
    let all = state.album_context("all").unwrap();
    assert_eq!(names(&state, &all.photos), vec!["third", "first", "second"]);
}

#[test]
fn two_photos_of_one_second_share_the_album_made_for_the_day() {
    let sources = vec![
        source("x", "2021:12:18 12:00:00"),
        source("y", "2021:12:18 12:00:00"),
    ];
    let state = PhotosState::new(Vec::new(), sources).unwrap();
    let days: Vec<_> =
        state.albums.iter().filter(|a| a.kind == Some(AlbumKind::Day)).collect();
    assert_eq!(days.len(), 1);
    assert_eq!(days[0].path, "2021-12-18");
    assert_eq!(days[0].name, "18 December, 2021");
    assert_eq!(names(&state, &days[0].photos), vec!["x", "y"]);
    for photo in &state.images {
        assert_eq!(photo.day_album.path, "2021-12-18");
        assert_eq!(photo.day_album.name, "18 December, 2021");
    }
}

#[test]
fn process_photo_puts_one_photo_into_its_albums() {
    let manifest = vec![
        ("b-side".to_string(), plain("B", "p", &["p"])),
        ("a-side".to_string(), plain("A", "p", &["p"])),
    ];
    let refs = membership(&manifest, "p");
    let mut days: Vec<AutoDateAlbumBuilder> = Vec::new();
    let photo =
        PhotosState::process_photo(source("p", "2021:12:18 10:00:00"), &refs, &manifest, &mut days)
            .unwrap();
    assert_eq!(paths(&photo.albums), vec!["a-side", "b-side"]);
    assert_eq!(photo.day_album.path, "2021-12-18");
    assert_eq!(photo.full_img_hash.as_str(), hash(b"p"));
    assert_eq!(photo.smaller_webp.hash(), hash(b"p"));
    assert_eq!(days.len(), 1);
    assert_eq!(days[0].path, "2021-12-18");
    assert_eq!(days[0].photos, vec![(1_639_821_600, "p".to_string())]);

    let again =
        PhotosState::process_photo(source("q", "2021:12:18 09:00:00"), &Vec::new(), &manifest, &mut days)
            .unwrap();
    assert_eq!(again.day_album.name, "18 December, 2021");
    assert_eq!(days.len(), 1);
    assert_eq!(
        days[0].photos,
        vec![(1_639_818_000, "q".to_string()), (1_639_821_600, "p".to_string())]
    );
}

#[test]
fn the_builder_of_a_day_names_its_album() {
    let date = CaptureTime::new(2022, 3, 4, 5, 6, 7, 0).unwrap().date();
    let mut builder = AutoDateAlbumBuilder::new(date);
    assert_eq!(builder.path, "2022-03-04");
    assert_eq!(builder.name, "4 March, 2022");
    assert_eq!(builder.description, "<p>Everything from 4 March, 2022</p>");
    assert!(builder.photos.is_empty());
    let reference = builder.reference();
    assert_eq!(reference.path, "2022-03-04");
    assert_eq!(reference.name, "4 March, 2022");
    builder.insert(30, "c".to_string());
    builder.insert(10, "a".to_string());
    builder.insert(20, "b".to_string());
    builder.insert(10, "z".to_string());
    assert_eq!(
        builder.photos,
        vec![
            (10, "a".to_string()),
            (10, "z".to_string()),
            (20, "b".to_string()),
            (30, "c".to_string())
        ]
    );
}

#[test]
fn fold_extract_single_keeps_one_value() {
    assert_eq!(PhotosState::fold_extract_single(None, 3), Ok(Some(3)));
    assert_eq!(PhotosState::fold_extract_single(Some(1), 3), Err(()));
    let single = [7].iter().try_fold(None, PhotosState::fold_extract_single);
    assert_eq!(single, Ok(Some(&7)));
    let double = [7, 8].iter().try_fold(None, PhotosState::fold_extract_single);
    assert_eq!(double, Err(()));
    let none: Result<Option<&i32>, ()> =
        [].iter().try_fold(None, PhotosState::fold_extract_single);
    assert_eq!(none, Ok(None));
}

#[test]
fn sorting_by_time_keeps_the_order_of_equal_times() {
    let times = vec![5, 1, 5, 3, 1];
    assert_eq!(sort_by_time(&times, false), vec![1, 4, 3, 0, 2]);
    assert_eq!(sort_by_time(&times, true), vec![0, 2, 3, 1, 4]);
    assert_eq!(sort_by_time(&Vec::new(), true), Vec::<usize>::new());
}

#[test]
fn small_helpers() {
    let ids = vec!["a".to_string(), "b".to_string(), "a".to_string()];
    assert_eq!(find_photo(&ids, "a"), Some(0));
    assert_eq!(find_photo(&ids, "b"), Some(1));
    assert_eq!(find_photo(&ids, "c"), None);
    let wanted = vec!["x".to_string(), "a".to_string(), "y".to_string(), "x".to_string()];
    assert_eq!(missing_from(&wanted, &ids), vec!["x", "y"]);
    assert_eq!(PhotosState::hash(b"abc"), hash(b"abc"));
    assert_eq!(AlbumKind::from(&ParsedAlbumKind::Location), AlbumKind::Location);
    assert_eq!(AlbumKind::from(&ParsedAlbumKind::Day("x".to_string())), AlbumKind::Day);
}

#[test]
fn the_pixel_budget_is_about_800_by_600() {
    assert!(!exceeds_pixel_budget(800, 600));
    assert!(exceeds_pixel_budget(801, 600));
    assert!(!exceeds_pixel_budget(0, u32::MAX));
    assert!(exceeds_pixel_budget(u32::MAX, u32::MAX));
}

#[test]
fn the_smaller_image_is_hashed_by_its_bytes() {
    let image = InMemImg::new(640, 480, vec![1, 2, 3]);
    assert_eq!(image.width(), 640);
    assert_eq!(image.height(), 480);
    assert_eq!(image.img_data(), &vec![1, 2, 3]);
    assert_eq!(image.hash(), hash(&[1, 2, 3]));
    let same = InMemImg::new(640, 480, vec![1, 2, 3]);
    assert_eq!(image.hash(), same.hash());
    let other = InMemImg::new(640, 480, vec![1, 2, 4]);
    assert_ne!(image.hash(), other.hash());
}

#[test]
fn a_photo_source_hashes_its_file() {
    let made = PhotoSource::new(
        "x".to_string(),
        exif_at("2021:01:01 00:00:00", "+00:00"),
        b"the bytes of the file",
        InMemImg::new(1, 1, vec![0]),
    );
    assert_eq!(made.file_name, "x");
    assert_eq!(made.full_img_hash.as_str(), hash(b"the bytes of the file"));
    assert_eq!(made.smaller_webp.hash(), hash(&[0]));
    assert_eq!(made.full_img_hash.as_str().len(), 43);
    assert!(photo_site::util::is_uri_idempotent(made.full_img_hash.as_str()));
}

#[test]
fn a_failed_rebuild_leaves_the_index_as_it_was() {
    let mut state =
        PhotosState::new(Vec::new(), vec![source("kept", "2021:06:01 00:00:00")]).unwrap();
    let failed = state.rebuild(Vec::new(), vec![source("not kept", "2021:06:01 00:00:00")]);
    assert!(matches!(failed, Err(BuildError::BadFileName(_))));
    assert_eq!(state.images.len(), 1);
    assert_eq!(state.images[0].file_name, "kept");
    assert!(state.album_context("2021-06-01").is_some());
    let done = state.rebuild(
        Vec::new(),
        vec![source("new", "2022:06:01 00:00:00"), source("newer", "2022:06:02 00:00:00")],
    );
    assert!(done.is_ok());
    assert_eq!(state.images.len(), 2);
    assert!(state.find_image("kept").is_none());
    assert!(state.album_context("2021-06-01").is_none());
    assert!(state.album_context("2022-06-02").is_some());
}

#[test]
fn a_batch_is_all_of_its_results_or_its_first_error() {
    let fine: Vec<Result<u8, &str>> = vec![Ok(1), Ok(2), Ok(3)];
    assert_eq!(fail_fast(fine), Ok(vec![1, 2, 3]));
    let failed: Vec<Result<u8, &str>> = vec![Ok(1), Err("second"), Ok(3), Err("fourth")];
    assert_eq!(fail_fast(failed), Err("second"));
    let empty: Vec<Result<u8, &str>> = Vec::new();
    assert_eq!(fail_fast(empty), Ok(Vec::new()));
}

#[test]
fn favorites_declared_with_a_kind_still_mark_the_photo() {
    let manifest = vec![
        (
            "favorites".to_string(),
            album(
                "Best",
                Some(ParsedAlbumKind::Day("the day".to_string())),
                AlbumDisplayOrder::FromFirst,
                "a",
                &["a"],
            ),
        ),
        ("trips".to_string(), plain("Trips", "a", &["a", "b"])),
    ];
    let sources = vec![
        source("a", "2021:01:01 00:00:00"),
        source("b", "2021:01:02 00:00:00"),
    ];
    let state = PhotosState::new(manifest, sources).unwrap();
    assert!(state.images[0].is_favorite);
    assert_eq!(state.images[0].day_album.path, "favorites");
    assert_eq!(paths(&state.images[0].albums), vec!["trips"]);
    assert!(!state.images[1].is_favorite);

    let manifest = vec![(
        "favorites".to_string(),
        album("Best", Some(ParsedAlbumKind::Location), AlbumDisplayOrder::FromFirst, "a", &["a"]),
    )];
    let state = PhotosState::new(manifest, vec![source("a", "2021:01:01 00:00:00")]).unwrap();
    assert!(state.images[0].is_favorite);
    assert_eq!(state.images[0].location.as_ref().unwrap().path, "favorites");
    assert!(state.images[0].albums.is_empty());
}

#[test]
fn albums_are_found_by_their_paths() {
    let manifest = vec![
        ("trips".to_string(), plain("Trips", "a", &["a"])),
        ("coast".to_string(), plain("Coast", "b", &["b"])),
    ];
    let sources = vec![
        source("a", "2021:01:01 00:00:00"),
        source("b", "2021:01:02 00:00:00"),
        source("c", "2021:01:01 08:00:00"),
    ];
    let state = PhotosState::new(manifest, sources).unwrap();
    assert_eq!(state.find_album("trips"), Some(0));
    assert_eq!(state.find_album("coast"), Some(1));
    assert_eq!(state.find_album("2021-01-01"), Some(2));
    assert_eq!(state.find_album("2021-01-02"), Some(3));
    assert_eq!(state.find_album("all"), Some(4));
    assert_eq!(state.find_album("2021-01-03"), None);
    assert_eq!(names(&state, &state.albums[2].photos), vec!["a", "c"]);
}
