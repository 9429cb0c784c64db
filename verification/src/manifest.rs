//! The album manifest: the albums that are declared by hand, in the order of
//! their declaration, and what follows from it for each photograph.

use vstd::prelude::*;

use crate::albums::{contains_text, refs_model, texts, AlbumKind, AlbumReference, RefModel};
use crate::text::str_eq;
use crate::util::{is_uri_idempotent, uri_idempotent};

verus! {

/// The kind that the manifest gives an album.
#[derive(Debug)]
pub enum ParsedAlbumKind {
    /// The photographs of one place.
    Location,
    /// The photographs of one day, with the day's label.
    Day(String),
}

/// The order in which an album shows the photographs of its list.
#[derive(Clone, Copy, Debug, PartialEq, Eq, Structural)]
pub enum AlbumDisplayOrder {
    FromFirst,
    FromLast,
}

/// One album as the manifest declares it.
#[derive(Debug)]
pub struct ParsedAlbum {
    /// The displayed name of the album.
    pub name: String,
    /// The kind of album, if it is anything notable.
    pub kind: Option<ParsedAlbumKind>,
    /// Whether the list is shown from its first or from its last photograph.
    pub display: AlbumDisplayOrder,
    /// A description of the album, in markdown.
    pub description: String,
    /// The photograph that represents the album.
    pub cover_img: String,
    /// The photographs of the album, in the order of the list.
    pub photos: Vec<String>,
}

/// What one entry of the manifest stands for.
pub struct EntryModel {
    pub path: Seq<char>,
    pub name: Seq<char>,
    pub kind: Option<AlbumKind>,
    /// The label of the day, where the album is one of a day.
    pub day_label: Option<Seq<char>>,
    pub from_last: bool,
    pub description: Seq<char>,
    pub cover_img: Seq<char>,
    pub photos: Seq<Seq<char>>,
}

/// The kind of album that a declared kind stands for.
pub open spec fn kind_model(kind: Option<ParsedAlbumKind>) -> Option<AlbumKind> {
    match kind {
        None => None,
        Some(ParsedAlbumKind::Location) => Some(AlbumKind::Location),
        Some(ParsedAlbumKind::Day(_)) => Some(AlbumKind::Day),
    }
}

/// What the entry at a path stands for.
pub open spec fn entry_model(entry: (String, ParsedAlbum)) -> EntryModel {
    EntryModel {
        path: entry.0@,
        name: entry.1.name@,
        kind: kind_model(entry.1.kind),
        day_label: match entry.1.kind {
            Some(ParsedAlbumKind::Day(label)) => Some(label@),
            _ => None,
        },
        from_last: entry.1.display == AlbumDisplayOrder::FromLast,
        description: entry.1.description@,
        cover_img: entry.1.cover_img@,
        photos: texts(entry.1.photos@),
    }
}

/// What a manifest stands for: its entries in the order of declaration.
pub open spec fn manifest_model(entries: Seq<(String, ParsedAlbum)>) -> Seq<EntryModel> {
    Seq::new(entries.len(), |i: int| entry_model(entries[i]))
}

/// The path of the album that holds every photograph. No manifest may
/// declare it.
pub open spec fn all_path() -> Seq<char> {
    "all"@
}

/// The path of the album of favorites.
pub open spec fn favorites_path() -> Seq<char> {
    "favorites"@
}

/// The last of the first `n` entries that declares `path`, or -1. Where a
/// path is declared more than once the last declaration counts.
pub open spec fn last_with_path(m: Seq<EntryModel>, path: Seq<char>, n: int) -> int
    decreases n,
{
    if n <= 0 {
        -1
    } else if m[n - 1].path == path {
        n - 1
    } else {
        last_with_path(m, path, n - 1)
    }
}

/// The entry that counts for `path`, or -1 where the manifest declares none.
pub open spec fn entry_at(m: Seq<EntryModel>, path: Seq<char>) -> int {
    last_with_path(m, path, m.len() as int)
}

/// Whether entry `i` is the one that counts for its path.
pub open spec fn effective(m: Seq<EntryModel>, i: int) -> bool {
    entry_at(m, m[i].path) == i
}

/// The kind of the album declared at `path`, if it has one.
pub open spec fn kind_at(m: Seq<EntryModel>, path: Seq<char>) -> Option<AlbumKind> {
    if entry_at(m, path) >= 0 {
        m[entry_at(m, path)].kind
    } else {
        None
    }
}

/// Whether the manifest declares the path kept for the album of every
/// photograph.
pub open spec fn reserved_used(m: Seq<EntryModel>) -> bool {
    entry_at(m, all_path()) >= 0
}

/// The paths of the entries, in order.
pub open spec fn paths(m: Seq<EntryModel>) -> Seq<Seq<char>> {
    Seq::new(m.len(), |i: int| m[i].path)
}

/// The first index from `from` on whose text is not URI encoded to itself,
/// or the length of the list.
pub open spec fn first_unsafe(list: Seq<Seq<char>>, from: int) -> int
    decreases list.len() - from,
{
    if from >= list.len() {
        list.len() as int
    } else if !uri_idempotent(list[from]) {
        from
    } else {
        first_unsafe(list, from + 1)
    }
}

/// The first index from `from` on whose text stands earlier in the list
/// too, or the length of the list.
pub open spec fn first_repeat(list: Seq<Seq<char>>, from: int) -> int
    decreases list.len() - from,
{
    if from >= list.len() {
        list.len() as int
    } else if from >= 0 && list.take(from).contains(list[from]) {
        from
    } else {
        first_repeat(list, from + 1)
    }
}

/// The reference to an entry's album.
pub open spec fn entry_ref(e: EntryModel) -> RefModel {
    RefModel { path: e.path, name: e.name }
}

/// One reference to the album for each time `id` stands among the first `k`
/// photographs of its list.
pub open spec fn entry_refs_to(e: EntryModel, id: Seq<char>, k: int) -> Seq<RefModel>
    decreases k,
{
    if k <= 0 {
        Seq::empty()
    } else if e.photos[k - 1] == id {
        entry_refs_to(e, id, k - 1).push(entry_ref(e))
    } else {
        entry_refs_to(e, id, k - 1)
    }
}

/// The references that the first `n` entries give the photograph `id`, in
/// the order of the manifest. Only entries that count for their path give
/// any.
pub open spec fn membership_upto(m: Seq<EntryModel>, id: Seq<char>, n: int) -> Seq<RefModel>
    decreases n,
{
    if n <= 0 {
        Seq::empty()
    } else if effective(m, n - 1) {
        membership_upto(m, id, n - 1) + entry_refs_to(
            m[n - 1],
            id,
            m[n - 1].photos.len() as int,
        )
    } else {
        membership_upto(m, id, n - 1)
    }
}

/// The references that the manifest gives the photograph `id`.
pub open spec fn membership_of(m: Seq<EntryModel>, id: Seq<char>) -> Seq<RefModel> {
    membership_upto(m, id, m.len() as int)
}

/// The photographs that an entry names: those of its list, then its cover.
pub open spec fn entry_photos(e: EntryModel) -> Seq<Seq<char>> {
    e.photos.push(e.cover_img)
}

/// The photographs that the first `n` entries name, in order and with
/// repeats. Only entries that count for their path are looked at.
pub open spec fn references_upto(m: Seq<EntryModel>, n: int) -> Seq<Seq<char>>
    decreases n,
{
    if n <= 0 {
        Seq::empty()
    } else if effective(m, n - 1) {
        references_upto(m, n - 1) + entry_photos(m[n - 1])
    } else {
        references_upto(m, n - 1)
    }
}

/// The photographs that the manifest names.
pub open spec fn references(m: Seq<EntryModel>) -> Seq<Seq<char>> {
    references_upto(m, m.len() as int)
}

/// Those of the first `n` names that are not among `ids`, each once, in the
/// order in which they first occur.
pub open spec fn missing_upto(names: Seq<Seq<char>>, ids: Seq<Seq<char>>, n: int) -> Seq<
    Seq<char>,
>
    decreases n,
{
    if n <= 0 {
        Seq::empty()
    } else if ids.contains(names[n - 1]) || missing_upto(names, ids, n - 1).contains(
        names[n - 1],
    ) {
        missing_upto(names, ids, n - 1)
    } else {
        missing_upto(names, ids, n - 1).push(names[n - 1])
    }
}

/// The photographs that the manifest names and `ids` lacks.
pub open spec fn missing_photos(m: Seq<EntryModel>, ids: Seq<Seq<char>>) -> Seq<Seq<char>> {
    missing_upto(references(m), ids, references(m).len() as int)
}

impl AlbumKind {
    /// The kind of album that a kind declared in the manifest stands for.
    pub fn from(parsed: &ParsedAlbumKind) -> (kind: AlbumKind)
        ensures
            Some(kind) == kind_model(Some(*parsed)),
    {
        match parsed {
            ParsedAlbumKind::Day(_) => AlbumKind::Day,
            ParsedAlbumKind::Location => AlbumKind::Location,
        }
    }
}

/// What `last_with_path` finds: an entry with the path, and none after it.
pub proof fn lemma_last_with_path(m: Seq<EntryModel>, path: Seq<char>, n: int)
    requires
        0 <= n <= m.len(),
    ensures
        -1 <= last_with_path(m, path, n) < n,
        last_with_path(m, path, n) >= 0 ==> m[last_with_path(m, path, n)].path == path,
        forall|j: int| last_with_path(m, path, n) < j < n ==> (#[trigger] m[j]).path != path,
    decreases n,
{
    if n > 0 && m[n - 1].path != path {
        lemma_last_with_path(m, path, n - 1);
    }
}

/// Every name that `ids` lacks is among the missing ones, and every missing
/// one is a name that `ids` lacks.
pub proof fn lemma_missing_upto(names: Seq<Seq<char>>, ids: Seq<Seq<char>>, n: int)
    requires
        0 <= n <= names.len(),
    ensures
        forall|k: int|
            0 <= k < n && !ids.contains(#[trigger] names[k]) ==> missing_upto(
                names,
                ids,
                n,
            ).contains(names[k]),
        forall|x: Seq<char>| #[trigger]
            missing_upto(names, ids, n).contains(x) ==> !ids.contains(x) && names.take(
                n,
            ).contains(x),
        missing_upto(names, ids, n).no_duplicates(),
    decreases n,
{
    if n > 0 {
        lemma_missing_upto(names, ids, n - 1);
        let prev = missing_upto(names, ids, n - 1);
        let cur = missing_upto(names, ids, n);
        assert forall|x: Seq<char>| #[trigger] cur.contains(x) implies !ids.contains(x)
            && names.take(n).contains(x) by {
            if prev.contains(x) {
                let j = choose|j: int| 0 <= j < n - 1 && #[trigger] names.take(n - 1)[j] == x;
                assert(names.take(n)[j] == x);
            } else {
                assert(x == names[n - 1]);
                assert(names.take(n)[n - 1] == x);
            }
        }
        assert forall|k: int| 0 <= k < n && !ids.contains(#[trigger] names[k]) implies cur.contains(
            names[k],
        ) by {
            if k < n - 1 {
                assert(prev.contains(names[k]));
                let j = choose|j: int| 0 <= j < prev.len() && #[trigger] prev[j] == names[k];
                if cur != prev {
                    assert(cur[j] == names[k]);
                }
            } else if cur == prev {
            } else {
                assert(cur[prev.len() as int] == names[k]);
            }
        }
    }
}

/// The index of the entry that counts for `path`, if the manifest declares
/// the path.
pub fn find_entry(entries: &Vec<(String, ParsedAlbum)>, path: &str) -> (r: Option<usize>)
    ensures
        match r {
            Some(i) => i == entry_at(manifest_model(entries@), path@),
            None => entry_at(manifest_model(entries@), path@) == -1,
        },
{
    let ghost m = manifest_model(entries@);
    let mut k: usize = entries.len();
    while k > 0
        invariant
            k <= entries.len(),
            m == manifest_model(entries@),
            entry_at(m, path@) == last_with_path(m, path@, k as int),
        decreases k,
    {
        if str_eq(entries[k - 1].0.as_str(), path) {
            return Some(k - 1);
        }
        k -= 1;
    }
    None
}

/// Whether entry `i` is the one that counts for its path.
pub fn is_effective(entries: &Vec<(String, ParsedAlbum)>, i: usize) -> (r: bool)
    requires
        i < entries.len(),
    ensures
        r == effective(manifest_model(entries@), i as int),
{
    match find_entry(entries, entries[i].0.as_str()) {
        Some(j) => j == i,
        None => false,
    }
}

/// The kind of the album declared at `path`, if it has one.
pub fn kind_of(entries: &Vec<(String, ParsedAlbum)>, path: &str) -> (r: Option<AlbumKind>)
    ensures
        r == kind_at(manifest_model(entries@), path@),
{
    match find_entry(entries, path) {
        None => None,
        Some(i) => {
            proof {
                lemma_last_with_path(manifest_model(entries@), path@, entries@.len() as int);
            }
            match &entries[i].1.kind {
                None => None,
                Some(parsed) => Some(AlbumKind::from(parsed)),
            }
        },
    }
}

/// The references that the manifest gives the photograph `id`, in the order
/// of the manifest.
pub fn membership(entries: &Vec<(String, ParsedAlbum)>, id: &str) -> (refs: Vec<AlbumReference>)
    ensures
        refs_model(refs@) == membership_of(manifest_model(entries@), id@),
{
    let ghost m = manifest_model(entries@);
    let mut refs: Vec<AlbumReference> = Vec::new();
    let mut i: usize = 0;
    assert(refs_model(refs@) =~= membership_upto(m, id@, 0));
    while i < entries.len()
        invariant
            i <= entries.len(),
            m == manifest_model(entries@),
            refs_model(refs@) == membership_upto(m, id@, i as int),
        decreases entries.len() - i,
    {
        if is_effective(entries, i) {
            let album = &entries[i].1;
            let ghost before = refs_model(refs@);
            let mut k: usize = 0;
            assert(refs_model(refs@) =~= before + entry_refs_to(m[i as int], id@, 0));
            while k < album.photos.len()
                invariant
                    i < entries.len(),
                    m == manifest_model(entries@),
                    *album == entries@[i as int].1,
                    k <= album.photos.len(),
                    refs_model(refs@) == before + entry_refs_to(m[i as int], id@, k as int),
                decreases album.photos.len() - k,
            {
                if str_eq(album.photos[k].as_str(), id) {
                    let ghost old_refs = refs_model(refs@);
                    refs.push(
                        AlbumReference { path: entries[i].0.clone(), name: album.name.clone() },
                    );
                    assert(refs_model(refs@) =~= old_refs.push(entry_ref(m[i as int])));
                    assert(refs_model(refs@) =~= before + entry_refs_to(
                        m[i as int],
                        id@,
                        k + 1,
                    ));
                }
                k += 1;
            }
        }
        i += 1;
    }
    refs
}

/// The photographs that the manifest names, in order and with repeats.
pub fn named_photos(entries: &Vec<(String, ParsedAlbum)>) -> (names: Vec<String>)
    ensures
        texts(names@) == references(manifest_model(entries@)),
{
    let ghost m = manifest_model(entries@);
    let mut names: Vec<String> = Vec::new();
    let mut i: usize = 0;
    assert(texts(names@) =~= references_upto(m, 0));
    while i < entries.len()
        invariant
            i <= entries.len(),
            m == manifest_model(entries@),
            texts(names@) == references_upto(m, i as int),
        decreases entries.len() - i,
    {
        if is_effective(entries, i) {
            let album = &entries[i].1;
            let ghost before = texts(names@);
            let mut k: usize = 0;
            assert(texts(names@) =~= before + m[i as int].photos.take(0));
            while k < album.photos.len()
                invariant
                    i < entries.len(),
                    m == manifest_model(entries@),
                    *album == entries@[i as int].1,
                    k <= album.photos.len(),
                    texts(names@) == before + m[i as int].photos.take(k as int),
                decreases album.photos.len() - k,
            {
                let ghost so_far = texts(names@);
                names.push(album.photos[k].clone());
                assert(texts(names@) =~= so_far.push(m[i as int].photos[k as int]));
                assert(texts(names@) =~= before + m[i as int].photos.take(k + 1));
                k += 1;
            }
            let ghost so_far = texts(names@);
            names.push(album.cover_img.clone());
            assert(texts(names@) =~= so_far.push(m[i as int].cover_img));
            assert(m[i as int].photos.take(k as int) =~= m[i as int].photos);
            assert(texts(names@) =~= before + entry_photos(m[i as int]));
        }
        i += 1;
    }
    names
}

/// Those of `names` that are not among `ids`, each once, in the order in
/// which they first occur.
pub fn missing_from(names: &Vec<String>, ids: &Vec<String>) -> (missing: Vec<String>)
    ensures
        texts(missing@) == missing_upto(texts(names@), texts(ids@), names@.len() as int),
{
    let mut missing: Vec<String> = Vec::new();
    let mut i: usize = 0;
    assert(texts(missing@) =~= missing_upto(texts(names@), texts(ids@), 0));
    while i < names.len()
        invariant
            i <= names.len(),
            texts(missing@) == missing_upto(texts(names@), texts(ids@), i as int),
        decreases names.len() - i,
    {
        let name = names[i].as_str();
        assert(name@ == texts(names@)[i as int]);
        if !contains_text(ids, name) && !contains_text(&missing, name) {
            let ghost before = texts(missing@);
            missing.push(names[i].clone());
            assert(texts(missing@) =~= before.push(texts(names@)[i as int]));
        }
        i += 1;
    }
    missing
}

/// The first of the strings that is not URI encoded to itself, if there is
/// one.
pub fn find_unsafe(list: &Vec<String>) -> (r: Option<usize>)
    ensures
        match r {
            Some(i) => i == first_unsafe(texts(list@), 0) && i < list@.len(),
            None => first_unsafe(texts(list@), 0) == list@.len(),
        },
{
    let mut i: usize = 0;
    while i < list.len()
        invariant
            i <= list.len(),
            first_unsafe(texts(list@), 0) == first_unsafe(texts(list@), i as int),
        decreases list.len() - i,
    {
        assert(list@[i as int]@ == texts(list@)[i as int]);
        if !is_uri_idempotent(list[i].as_str()) {
            return Some(i);
        }
        i += 1;
    }
    None
}

/// The first entry of the manifest whose path is not URI encoded to itself,
/// if there is one.
pub fn find_unsafe_path(entries: &Vec<(String, ParsedAlbum)>) -> (r: Option<usize>)
    ensures
        match r {
            Some(i) => i == first_unsafe(paths(manifest_model(entries@)), 0) && i < entries@.len(),
            None => first_unsafe(paths(manifest_model(entries@)), 0) == entries@.len(),
        },
{
    let ghost list = paths(manifest_model(entries@));
    let mut i: usize = 0;
    while i < entries.len()
        invariant
            i <= entries.len(),
            list == paths(manifest_model(entries@)),
            first_unsafe(list, 0) == first_unsafe(list, i as int),
        decreases entries.len() - i,
    {
        assert(entries@[i as int].0@ == list[i as int]);
        if !is_uri_idempotent(entries[i].0.as_str()) {
            return Some(i);
        }
        i += 1;
    }
    None
}

/// The first of the strings that stands earlier in the list too, if there is
/// one.
pub fn find_repeat(list: &Vec<String>) -> (r: Option<usize>)
    ensures
        match r {
            Some(i) => i == first_repeat(texts(list@), 0) && i < list@.len(),
            None => first_repeat(texts(list@), 0) == list@.len(),
        },
{
    let mut i: usize = 0;
    while i < list.len()
        invariant
            i <= list.len(),
            first_repeat(texts(list@), 0) == first_repeat(texts(list@), i as int),
        decreases list.len() - i,
    {
        let mut j: usize = 0;
        let mut found = false;
        while j < i && !found
            invariant
                j <= i < list.len(),
                found ==> texts(list@).take(i as int).contains(texts(list@)[i as int]),
                !found ==> forall|k: int| 0 <= k < j ==> texts(list@)[k] != texts(list@)[i as int],
            decreases i - j + (if found { 0int } else { 1int }),
        {
            if str_eq(list[j].as_str(), list[i].as_str()) {
                found = true;
                assert(texts(list@).take(i as int)[j as int] == texts(list@)[i as int]);
            } else {
                j += 1;
            }
        }
        if !found {
            assert forall|k: int| 0 <= k < texts(list@).take(i as int).len() implies texts(
                list@,
            ).take(i as int)[k] != texts(list@)[i as int] by {
                assert(texts(list@).take(i as int)[k] == texts(list@)[k]);
            }
        }
        if found {
            return Some(i);
        }
        i += 1;
    }
    None
}

} // verus!
