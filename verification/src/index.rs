//! Operations on the library index: finding, removing and renaming
//! wallpapers, and keeping the entries of the resource directory in step
//! with the files found there.
use vstd::prelude::*;
use crate::external::lowercase;
use crate::layout::{
    get_detail_play_path_for_id, get_library_dir, get_thumbnail_path_for_id,
    get_video_preview_path_for_id, id_file_name, library_dir, plays_dir, preview_suffix,
    previews_dir, thumbnails_dir, Platform,
};
use crate::media::{is_supported_media, kind_of_extension, lower_extension, media_kind_of, MediaKind};
use crate::models::{copy_string, LibraryIndex, MediaMetadata, Wallpaper};
use crate::names::{resource_id, resource_id_for_path};
use crate::paths::{extension, join, join_chars, native};
use crate::text::{
    ascii_lower_seq, chars_eq, chars_of, decimal, decimal_chars, has_prefix, starts_with, string_of,
    to_ascii_lower, trim, trim_chars, append_chars,
};

verus! {

/// The first entry with id `id`, as an index.
pub open spec fn is_first_with_id(ws: Seq<Wallpaper>, id: Seq<char>, k: int) -> bool {
    0 <= k < ws.len() && ws[k].id@ == id && forall|j: int| 0 <= j < k ==> ws[j].id@ != id
}

pub open spec fn has_id(ws: Seq<Wallpaper>, id: Seq<char>) -> bool {
    exists|j: int| 0 <= j < ws.len() && ws[j].id@ == id
}

/// The position of the first wallpaper with the given id.
pub fn position_of_id(ws: &Vec<Wallpaper>, id: &str) -> (r: Option<usize>)
    ensures
        match r {
            Some(k) => is_first_with_id(ws@, id@, k as int),
            None => !has_id(ws@, id@),
        },
{
    let target = chars_of(id);
    let mut i: usize = 0;
    while i < ws.len()
        invariant
            i <= ws@.len(),
            target@ == id@,
            forall|j: int| 0 <= j < i ==> ws@[j].id@ != id@,
        decreases ws@.len() - i,
    {
        if chars_eq(&chars_of(ws[i].id.as_str()), &target) {
            return Some(i);
        }
        i += 1;
    }
    None
}

/// The wallpaper with the given id (the first, if several have it).
pub fn find_wallpaper(index: &LibraryIndex, id: &str) -> (r: Option<Wallpaper>)
    ensures
        match r {
            Some(w) => exists|k: int|
                is_first_with_id(index.wallpapers@, id@, k) && w == index.wallpapers@[k],
            None => !has_id(index.wallpapers@, id@),
        },
{
    match position_of_id(&index.wallpapers, id) {
        Some(k) => Some(index.wallpapers[k].duplicate()),
        None => None,
    }
}

/// The entries whose id is not `id`, in order.
pub open spec fn without_id(ws: Seq<Wallpaper>, id: Seq<char>) -> Seq<Wallpaper>
    decreases ws.len(),
{
    if ws.len() == 0 {
        ws
    } else if ws.last().id@ == id {
        without_id(ws.drop_last(), id)
    } else {
        without_id(ws.drop_last(), id).push(ws.last())
    }
}

/// No entry of `without_id` has the id, every other entry stays, and when
/// no entry had the id the list is unchanged.
pub proof fn lemma_without_id(ws: Seq<Wallpaper>, id: Seq<char>)
    ensures
        !has_id(without_id(ws, id), id),
        forall|j: int|
            0 <= j < ws.len() && ws[j].id@ != id ==> without_id(ws, id).contains(#[trigger] ws[j]),
        !has_id(ws, id) ==> without_id(ws, id) == ws,
        has_id(ws, id) ==> without_id(ws, id).len() < ws.len(),
        without_id(ws, id).len() <= ws.len(),
    decreases ws.len(),
{
    if ws.len() > 0 {
        let d = ws.drop_last();
        lemma_without_id(d, id);
        let r = without_id(ws, id);
        assert forall|j: int| 0 <= j < ws.len() && ws[j].id@ != id implies r.contains(
            #[trigger] ws[j],
        ) by {
            if j < ws.len() - 1 {
                assert(ws[j] == d[j]);
                assert(without_id(d, id).contains(d[j]));
                if ws.last().id@ != id {
                    let k = choose|k: int| 0 <= k < without_id(d, id).len() && without_id(d, id)[k] == d[j];
                    assert(r[k] == d[j]);
                }
            } else {
                assert(r.last() == ws[j]);
            }
        }
        if has_id(r, id) {
            let k = choose|k: int| 0 <= k < r.len() && r[k].id@ == id;
            if ws.last().id@ != id && k == r.len() - 1 {
            } else {
                assert(r[k] == without_id(d, id)[k]);
            }
        }
        if !has_id(ws, id) {
            assert(!has_id(d, id)) by {
                if has_id(d, id) {
                    let k = choose|k: int| 0 <= k < d.len() && d[k].id@ == id;
                    assert(ws[k] == d[k]);
                }
            }
            assert(ws.last() == ws[ws.len() - 1]);
            assert(r =~= ws);
        }
        if has_id(ws, id) {
            if ws.last().id@ != id {
                assert(has_id(d, id)) by {
                    let k = choose|k: int| 0 <= k < ws.len() && ws[k].id@ == id;
                    assert(k < ws.len() - 1);
                    assert(ws[k] == d[k]);
                }
            }
        }
    }
}

/// Removes every entry with the given id.
pub fn remove_entries_with_id(ws: &mut Vec<Wallpaper>, id: &str)
    ensures
        final(ws)@ == without_id(old(ws)@, id@),
{
    let target = chars_of(id);
    let mut kept: Vec<Wallpaper> = Vec::new();
    let mut rest: Vec<Wallpaper> = Vec::new();
    let ghost s = ws@;
    // Reverse into `rest`, then keep the entries in their order.
    while ws.len() > 0
        invariant
            ws@ + rest@.reverse() == s,
        decreases ws@.len(),
    {
        let x = ws.pop().unwrap();
        let ghost before = rest@;
        rest.push(x);
        assert(rest@.reverse() =~= seq![x] + before.reverse());
        assert(ws@ + rest@.reverse() =~= s);
    }
    assert(rest@.reverse() =~= s);
    let ghost n = s.len();
    assert(s.subrange(0, 0) =~= Seq::<Wallpaper>::empty());
    while rest.len() > 0
        invariant
            n == s.len(),
            rest@.len() <= n,
            rest@.reverse() == s.subrange(n - rest@.len(), n as int),
            kept@ == without_id(s.subrange(0, n - rest@.len()), id@),
            target@ == id@,
        decreases rest@.len(),
    {
        let ghost i = n - rest@.len();
        let x = rest.pop().unwrap();
        proof {
            let t = rest@.push(x);
            assert(t.reverse()[0] == x);
            assert(s.subrange(i, n as int)[0] == s[i]);
            assert(rest@.reverse() =~= t.reverse().drop_first());
            assert(s.subrange(i, n as int).drop_first() =~= s.subrange(i + 1, n as int));
            let pre = s.subrange(0, i + 1);
            assert(pre.drop_last() =~= s.subrange(0, i));
            assert(pre.last() == x);
        }
        if !chars_eq(&chars_of(x.id.as_str()), &target) {
            kept.push(x);
        }
    }
    assert(s.subrange(0, n as int) =~= s);
    *ws = kept;
}

/// Why a change to the index was refused.
#[derive(Clone, Copy, Debug, PartialEq, Eq, Structural)]
pub enum IndexError {
    /// No wallpaper has the id.
    NotFound,
}

/// Takes a wallpaper out of the index: every entry with the id goes, and
/// the first of them is handed back; `NotFound` when none has it, with the
/// index unchanged.
pub fn remove_wallpaper(index: &mut LibraryIndex, id: &str) -> (r: Result<Wallpaper, IndexError>)
    ensures
        final(index).schema_version == old(index).schema_version,
        match r {
            Ok(w) => exists|k: int|
                is_first_with_id(old(index).wallpapers@, id@, k) && w == old(index).wallpapers@[k],
            Err(e) => e == IndexError::NotFound && !has_id(old(index).wallpapers@, id@),
        },
        r is Ok ==> final(index).wallpapers@ == without_id(old(index).wallpapers@, id@),
        r is Err ==> final(index).wallpapers@ == old(index).wallpapers@,
{
    let removed = match position_of_id(&index.wallpapers, id) {
        Some(k) => index.wallpapers[k].duplicate(),
        None => return Err(IndexError::NotFound),
    };
    remove_entries_with_id(&mut index.wallpapers, id);
    Ok(removed)
}

/// Gives the first wallpaper with the id a new title and hands back the
/// changed entry; `NotFound` (index unchanged) when none has it.
pub fn update_title(index: &mut LibraryIndex, id: &str, title: String) -> (r: Result<
    Wallpaper,
    IndexError,
>)
    ensures
        final(index).schema_version == old(index).schema_version,
        match r {
            Ok(w) => exists|k: int|
                is_first_with_id(old(index).wallpapers@, id@, k) && w == (Wallpaper {
                    title: title,
                    ..old(index).wallpapers@[k]
                }) && final(index).wallpapers@ == old(index).wallpapers@.update(k, w),
            Err(e) => e == IndexError::NotFound && !has_id(old(index).wallpapers@, id@)
                && final(index).wallpapers@ == old(index).wallpapers@,
        },
{
    match position_of_id(&index.wallpapers, id) {
        Some(k) => {
            let mut w = index.wallpapers[k].duplicate();
            w.title = title;
            let out = w.duplicate();
            index.wallpapers.set(k, w);
            Ok(out)
        },
        None => Err(IndexError::NotFound),
    }
}

/// A renamed wallpaper is what a lookup of its id then finds: replacing the
/// first entry with an id by an entry with the same id (and a new title)
/// leaves it the first entry with that id, holding the new title.
pub proof fn lemma_renamed_is_found(ws: Seq<Wallpaper>, id: Seq<char>, k: int, w: Wallpaper)
    requires
        is_first_with_id(ws, id, k),
        w.id == ws[k].id,
    ensures
        is_first_with_id(ws.update(k, w), id, k),
        ws.update(k, w)[k].title == w.title,
        has_id(ws.update(k, w), id),
{
    let u = ws.update(k, w);
    assert forall|j: int| 0 <= j < k implies u[j].id@ != id by {
        assert(u[j] == ws[j]);
    }
}

/// The text of a stored thumbnail path, trimmed and without a `video:`
/// prefix.
pub open spec fn bare_thumbnail_path(tp: Seq<char>) -> Seq<char> {
    let t = trim(tp);
    if has_prefix(t, "video:"@) {
        t.subrange(6, t.len() as int)
    } else {
        t
    }
}

/// The files that removing a wallpaper deletes where they exist, in order:
/// its file (when the path is not empty), its stored thumbnail or preview
/// (when not empty), the thumbnail, preview and detail-play files that its
/// id names; and the directory that older versions kept it in.
pub open spec fn removal_files(
    data_dir: Seq<char>,
    w: Wallpaper,
    id: Seq<char>,
    platform: Platform,
) -> Seq<Seq<char>> {
    let own = if w.local_path@.len() > 0 {
        seq![w.local_path@]
    } else {
        Seq::empty()
    };
    let thumb = match w.thumbnail_path {
        Some(tp) => if bare_thumbnail_path(tp@).len() > 0 {
            seq![bare_thumbnail_path(tp@)]
        } else {
            Seq::empty()
        },
        None => Seq::empty(),
    };
    own + thumb + seq![
        join(thumbnails_dir(data_dir), id_file_name(id, ".jpg"@)),
        join(previews_dir(data_dir), id_file_name(id, preview_suffix(platform))),
        join(plays_dir(data_dir), id_file_name(id, ".webm"@)),
    ]
}

/// What to delete when a wallpaper is removed.
pub struct RemovalTargets {
    /// Files to delete where they exist.
    pub files: Vec<String>,
    /// A directory to delete, with its content, where it exists.
    pub dir: String,
}

pub open spec fn texts(v: Seq<String>) -> Seq<Seq<char>> {
    v.map_values(|s: String| s@)
}

fn push_text(v: &mut Vec<String>, s: String)
    ensures
        texts(final(v)@) == texts(old(v)@).push(s@),
{
    let ghost before = v@;
    v.push(s);
    assert(texts(v@) =~= texts(before).push(s@));
}

/// The files and the directory that removing a wallpaper deletes.
pub fn removal_targets(data_dir: &str, removed: &Wallpaper, id: &str, platform: Platform) -> (r:
    RemovalTargets)
    ensures
        texts(r.files@) == removal_files(data_dir@, *removed, id@, platform),
        r.dir@ == join(library_dir(data_dir@), id@),
{
    let mut files: Vec<String> = Vec::new();
    if !removed.local_path.as_str().is_empty() {
        push_text(&mut files, copy_string(&removed.local_path));
    }
    let ghost after_own = texts(files@);
    match &removed.thumbnail_path {
        Some(tp) => {
            proof {
                reveal_strlit("video:");
            }
            let t = trim_chars(&chars_of(tp.as_str()));
            let bare = if starts_with(&t, &chars_of("video:")) {
                crate::text::sub_chars(&t, 6, t.len())
            } else {
                t
            };
            if bare.len() > 0 {
                push_text(&mut files, string_of(&bare));
            }
        },
        None => {},
    }
    push_text(&mut files, get_thumbnail_path_for_id(data_dir, id));
    push_text(&mut files, get_video_preview_path_for_id(data_dir, id, platform));
    push_text(&mut files, get_detail_play_path_for_id(data_dir, id));
    proof {
        reveal_strlit("video:");
        assert(texts(files@) =~= removal_files(data_dir@, *removed, id@, platform));
    }
    let lib = get_library_dir(data_dir);
    let dir = string_of(&join_chars(&chars_of(lib.as_str()), &chars_of(id)));
    RemovalTargets { files, dir }
}

/// The resolution text of a width and height: `<w>×<h>`.
pub open spec fn resolution_text(w: u32, h: u32) -> Seq<char> {
    decimal(w as nat) + seq!['×'] + decimal(h as nat)
}

/// The resolution text of some dimensions.
pub fn format_resolution(w: u32, h: u32) -> (r: String)
    ensures
        r@ == resolution_text(w, h),
{
    let mut v = decimal_chars(w as u64);
    v.push('×');
    append_chars(&mut v, &decimal_chars(h as u64));
    string_of(&v)
}

/// The resolution that metadata gives: present when both its width and its
/// height are.
pub open spec fn metadata_resolution(m: Option<MediaMetadata>) -> Option<Seq<char>> {
    match m {
        Some(meta) => match (meta.width, meta.height) {
            (Some(w), Some(h)) => Some(resolution_text(w, h)),
            _ => None,
        },
        None => None,
    }
}

/// The resolution of probed metadata, when it knows both dimensions.
pub fn resolution_from_metadata(m: &Option<MediaMetadata>) -> (r: Option<String>)
    ensures
        match r {
            Some(s) => metadata_resolution(*m) == Some(s@),
            None => metadata_resolution(*m) is None,
        },
{
    match m {
        Some(meta) => match (meta.width, meta.height) {
            (Some(w), Some(h)) => Some(format_resolution(w, h)),
            _ => None,
        },
        None => None,
    }
}

/// What a file of the resource directory means for the index.
pub enum ResourceAction {
    /// Not a wallpaper file (a shortcut, or an unknown format).
    Ignore,
    /// An entry of another id (one the user imported) already has this
    /// file as its path; no resource entry is made for it.
    AlreadyImported,
    /// The entry at `pos` has the file's resource id; its fields are
    /// brought up to date.
    Refresh { pos: usize, id: String, kind: MediaKind },
    /// No entry has the file's resource id; a new one is added.
    Add { id: String, kind: MediaKind },
}

pub open spec fn has_local_path(ws: Seq<Wallpaper>, p: Seq<char>) -> bool {
    exists|j: int| 0 <= j < ws.len() && ws[j].local_path@ == p
}

/// Some entry whose id is not `id` has the file `p` as its path.
pub open spec fn held_by_other(ws: Seq<Wallpaper>, p: Seq<char>, id: Seq<char>) -> bool {
    exists|j: int| 0 <= j < ws.len() && ws[j].local_path@ == p && ws[j].id@ != id
}

/// Whether some entry whose id is not `id` has the given file as its path.
fn any_other_with_local_path(ws: &Vec<Wallpaper>, p: &str, id: &str) -> (r: bool)
    ensures
        r == held_by_other(ws@, p@, id@),
{
    let target = chars_of(p);
    let own = chars_of(id);
    let mut i: usize = 0;
    while i < ws.len()
        invariant
            i <= ws@.len(),
            target@ == p@,
            own@ == id@,
            forall|j: int| 0 <= j < i ==> !(ws@[j].local_path@ == p@ && ws@[j].id@ != id@),
        decreases ws@.len() - i,
    {
        if chars_eq(&chars_of(ws[i].local_path.as_str()), &target) && !chars_eq(
            &chars_of(ws[i].id.as_str()),
            &own,
        ) {
            return true;
        }
        i += 1;
    }
    false
}

/// Keeps the resource entries of the index in step with the files of the
/// resource directory: `wallpapers` is the index being updated,
/// `found_ids` the resource ids seen so far and `changed` whether anything
/// was changed.
pub struct ResourceSync {
    pub wallpapers: Vec<Wallpaper>,
    pub found_ids: Vec<String>,
    pub changed: bool,
}

pub open spec fn text_set(v: Seq<String>) -> Seq<Seq<char>> {
    v.map_values(|s: String| s@)
}

impl ResourceSync {
    /// Starts from the entries of the index.
    pub fn new(wallpapers: Vec<Wallpaper>) -> (r: Self)
        ensures
            r.wallpapers == wallpapers,
            r.found_ids@.len() == 0,
            !r.changed,
    {
        ResourceSync { wallpapers, found_ids: Vec::new(), changed: false }
    }

    /// What a regular file of the resource directory, at `local_path`, asks
    /// for: a shortcut or a file of another format is ignored; a file that an
    /// entry of another id (one the user imported) already has as its path
    /// is left alone; otherwise the entry with the file's resource id is
    /// refreshed (and so recorded as found), or a new one added.
    pub fn classify(&self, local_path: &str, platform: Platform) -> (r: ResourceAction)
        ensures
            !is_supported_media(native(local_path@, platform)) <==> r is Ignore,
            is_supported_media(native(local_path@, platform)) ==> (held_by_other(
                self.wallpapers@,
                local_path@,
                resource_id(native(local_path@, platform)),
            ) <==> r is AlreadyImported),
            match r {
                ResourceAction::Refresh { pos, id, kind } => {
                    &&& id@ == resource_id(native(local_path@, platform))
                    &&& is_first_with_id(self.wallpapers@, id@, pos as int)
                    &&& Some(kind) == kind_of_extension(lower_extension(native(local_path@, platform)))
                },
                ResourceAction::Add { id, kind } => {
                    &&& id@ == resource_id(native(local_path@, platform))
                    &&& !has_id(self.wallpapers@, id@)
                    &&& Some(kind) == kind_of_extension(lower_extension(native(local_path@, platform)))
                },
                _ => true,
            },
    {
        if !crate::media::is_supported_media_path(local_path, platform) {
            return ResourceAction::Ignore;
        }
        let kind = match media_kind_of(local_path, platform) {
            Some(k) => k,
            None => {
                proof {
                    lemma_supported_has_kind(native(local_path@, platform));
                }
                return ResourceAction::Ignore;
            },
        };
        let id = resource_id_for_path(local_path, platform);
        if any_other_with_local_path(&self.wallpapers, local_path, id.as_str()) {
            return ResourceAction::AlreadyImported;
        }
        match position_of_id(&self.wallpapers, id.as_str()) {
            Some(pos) => ResourceAction::Refresh { pos, id, kind },
            None => ResourceAction::Add { id, kind },
        }
    }

    /// Brings the entry at `pos` up to date with its file, noting whether
    /// any field changed, and records its id as found.
    pub fn refresh(
        &mut self,
        pos: usize,
        id: String,
        local_path: String,
        title: String,
        file_size: Option<u64>,
        resolution: Option<String>,
    )
        requires
            pos < old(self).wallpapers@.len(),
        ensures
            final(self).wallpapers@ == old(self).wallpapers@.update(
                pos as int,
                Wallpaper {
                    local_path: local_path,
                    title: title,
                    file_size: file_size,
                    resolution: resolution,
                    ..old(self).wallpapers@[pos as int]
                },
            ),
            final(self).found_ids@ == old(self).found_ids@.push(id),
            final(self).changed == (old(self).changed || old(
                self,
            ).wallpapers@[pos as int].local_path@ != local_path@ || old(
                self,
            ).wallpapers@[pos as int].title@ != title@ || old(self).wallpapers@[pos as int].file_size
                != file_size || opt_text(old(self).wallpapers@[pos as int].resolution) != opt_text(
                resolution,
            )),
    {
        let mut w = self.wallpapers[pos].duplicate();
        let mut changed = self.changed;
        if !chars_eq(&chars_of(w.local_path.as_str()), &chars_of(local_path.as_str())) {
            changed = true;
        }
        if !chars_eq(&chars_of(w.title.as_str()), &chars_of(title.as_str())) {
            changed = true;
        }
        if w.file_size != file_size {
            changed = true;
        }
        if !opt_text_eq(&w.resolution, &resolution) {
            changed = true;
        }
        w.local_path = local_path;
        w.title = title;
        w.file_size = file_size;
        w.resolution = resolution;
        self.wallpapers.set(pos, w);
        self.found_ids.push(id);
        self.changed = changed;
    }

    /// Adds a new resource entry, imported at `内置` (built in), and records
    /// its id as found.
    pub fn add(
        &mut self,
        id: String,
        local_path: String,
        title: String,
        file_size: Option<u64>,
        resolution: Option<String>,
        metadata: Option<MediaMetadata>,
    )
        ensures
            final(self).wallpapers@.len() == old(self).wallpapers@.len() + 1,
            final(self).wallpapers@.drop_last() == old(self).wallpapers@,
            final(self).wallpapers@.last().id == id,
            final(self).wallpapers@.last().local_path == local_path,
            final(self).wallpapers@.last().title == title,
            final(self).wallpapers@.last().thumbnail_path is None,
            final(self).wallpapers@.last().file_size == file_size,
            final(self).wallpapers@.last().resolution == resolution,
            final(self).wallpapers@.last().metadata == metadata,
            final(self).wallpapers@.last().import_time@ == "内置"@,
            final(self).found_ids@ == old(self).found_ids@.push(final(self).wallpapers@.last().id),
            final(self).changed,
    {
        let id_copy = copy_string(&id);
        let w = Wallpaper {
            id,
            title,
            local_path,
            thumbnail_path: None,
            resolution,
            file_size,
            metadata,
            import_time: string_of(&chars_of("内置")),
        };
        let ghost before = self.wallpapers@;
        self.wallpapers.push(w);
        assert(self.wallpapers@.drop_last() =~= before);
        self.found_ids.push(id_copy);
        self.changed = true;
    }
}

/// The text of an optional string, for comparing by content.
pub open spec fn opt_text(o: Option<String>) -> Option<Seq<char>> {
    match o {
        Some(s) => Some(s@),
        None => None,
    }
}

fn opt_text_eq(a: &Option<String>, b: &Option<String>) -> (r: bool)
    ensures
        r == (opt_text(*a) == opt_text(*b)),
{
    match (a, b) {
        (Some(x), Some(y)) => chars_eq(&chars_of(x.as_str()), &chars_of(y.as_str())),
        (None, None) => true,
        _ => false,
    }
}

proof fn lemma_supported_has_kind(p: Seq<char>)
    requires
        is_supported_media(p),
    ensures
        kind_of_extension(lower_extension(p)) is Some,
{
}

/// Whether an entry stays after a scan of the resource directory: entries
/// the user imported always stay; a resource entry (id starting with `res_`)
/// stays only if its file was found in this scan and still exists.
pub open spec fn keeps_entry(w: Wallpaper, found: Seq<Seq<char>>, exists: bool) -> bool {
    !has_prefix(w.id@, "res_"@) || (found.contains(w.id@) && exists)
}

/// The entries that stay, in order; `exists[i]` tells whether the file of
/// entry `i` exists.
pub open spec fn kept_entries(ws: Seq<Wallpaper>, found: Seq<Seq<char>>, exists: Seq<bool>) -> Seq<
    Wallpaper,
>
    decreases ws.len(),
{
    if ws.len() == 0 || exists.len() < ws.len() {
        Seq::empty()
    } else if keeps_entry(ws.last(), found, exists[ws.len() - 1]) {
        kept_entries(ws.drop_last(), found, exists).push(ws.last())
    } else {
        kept_entries(ws.drop_last(), found, exists)
    }
}

/// Entries the user imported are never dropped by a scan of the resource
/// directory.
pub proof fn lemma_user_entries_kept(ws: Seq<Wallpaper>, found: Seq<Seq<char>>, exists: Seq<bool>)
    requires
        exists.len() >= ws.len(),
    ensures
        forall|j: int|
            0 <= j < ws.len() && !has_prefix(ws[j].id@, "res_"@) ==> kept_entries(
                ws,
                found,
                exists,
            ).contains(#[trigger] ws[j]),
        kept_entries(ws, found, exists).len() <= ws.len(),
    decreases ws.len(),
{
    if ws.len() > 0 {
        let d = ws.drop_last();
        lemma_user_entries_kept(d, found, exists);
        let r = kept_entries(ws, found, exists);
        assert forall|j: int|
            0 <= j < ws.len() && !has_prefix(ws[j].id@, "res_"@) implies r.contains(
            #[trigger] ws[j],
        ) by {
            if j < ws.len() - 1 {
                assert(ws[j] == d[j]);
                assert(kept_entries(d, found, exists).contains(d[j]));
                let k = choose|k: int|
                    0 <= k < kept_entries(d, found, exists).len() && kept_entries(d, found, exists)[k]
                        == d[j];
                if keeps_entry(ws.last(), found, exists[ws.len() - 1]) {
                    assert(r[k] == d[j]);
                }
            } else {
                assert(ws.last() == ws[j]);
                assert(r.last() == ws[j]);
            }
        }
    }
}

/// A resource entry is dropped by a scan only when its file is gone or was
/// not found: every entry that the user imported, and every resource entry
/// whose id was found and whose file exists, stays.
pub proof fn lemma_found_entries_kept(ws: Seq<Wallpaper>, found: Seq<Seq<char>>, exists: Seq<bool>)
    requires
        exists.len() >= ws.len(),
    ensures
        forall|j: int|
            0 <= j < ws.len() && keeps_entry(ws[j], found, exists[j]) ==> kept_entries(
                ws,
                found,
                exists,
            ).contains(#[trigger] ws[j]),
    decreases ws.len(),
{
    if ws.len() > 0 {
        let d = ws.drop_last();
        lemma_found_entries_kept(d, found, exists);
        let r = kept_entries(ws, found, exists);
        assert forall|j: int|
            0 <= j < ws.len() && keeps_entry(ws[j], found, exists[j]) implies r.contains(
            #[trigger] ws[j],
        ) by {
            if j < ws.len() - 1 {
                assert(ws[j] == d[j]);
                assert(kept_entries(d, found, exists).contains(d[j]));
                let k = choose|k: int|
                    0 <= k < kept_entries(d, found, exists).len() && kept_entries(d, found, exists)[k]
                        == d[j];
                if keeps_entry(ws.last(), found, exists[ws.len() - 1]) {
                    assert(r[k] == d[j]);
                }
            } else {
                assert(ws.last() == ws[j]);
                assert(r.last() == ws[j]);
            }
        }
    }
}

/// Whether a file (a path of the platform) is taken up by a scan of the
/// resource directory that has the entries `ws`: it is a wallpaper file
/// and no entry of another id holds its path.
pub open spec fn scan_takes(ws: Seq<Wallpaper>, path: Seq<char>, platform: Platform) -> bool {
    is_supported_media(native(path, platform)) && !held_by_other(
        ws,
        path,
        resource_id(native(path, platform)),
    )
}

/// One step of a scan of the resource directory, from the entries `ws0`
/// and found ids `f0` to `ws1` and `f1`, for the file `path`: a file not
/// taken up changes nothing; otherwise its resource id is recorded as
/// found, and the first entry with that id is brought up to date (its id
/// kept, its path set to the file) or, when there is none, a new entry with
/// that id and path is added at the end. The other fields of a refreshed
/// or added entry are left free: they come from the file.
pub open spec fn scan_step(
    ws0: Seq<Wallpaper>,
    f0: Seq<Seq<char>>,
    path: Seq<char>,
    platform: Platform,
    ws1: Seq<Wallpaper>,
    f1: Seq<Seq<char>>,
) -> bool {
    let rid = resource_id(native(path, platform));
    if !scan_takes(ws0, path, platform) {
        ws1 == ws0 && f1 == f0
    } else {
        &&& f1 == f0.push(rid)
        &&& if has_id(ws0, rid) {
            exists|k: int|
                {
                    &&& is_first_with_id(ws0, rid, k)
                    &&& ws1.len() == ws0.len()
                    &&& ws1[k].id == ws0[k].id
                    &&& ws1[k].local_path@ == path
                    &&& forall|j: int| 0 <= j < ws0.len() && j != k ==> ws1[j] == ws0[j]
                }
        } else {
            &&& ws1.len() == ws0.len() + 1
            &&& ws1.drop_last() == ws0
            &&& ws1.last().id@ == rid
            &&& ws1.last().local_path@ == path
        }
    }
}

/// A scan of the files `paths`, in order: `wss[i]` and `fss[i]` are the
/// entries and found ids before the `i`-th file, starting from no found id.
pub open spec fn is_scan(
    wss: Seq<Seq<Wallpaper>>,
    fss: Seq<Seq<Seq<char>>>,
    paths: Seq<Seq<char>>,
    platform: Platform,
) -> bool {
    &&& wss.len() == paths.len() + 1
    &&& fss.len() == paths.len() + 1
    &&& fss[0].len() == 0
    &&& forall|i: int|
        0 <= i < paths.len() ==> #[trigger] scan_step(
            wss[i],
            fss[i],
            paths[i],
            platform,
            wss[i + 1],
            fss[i + 1],
        )
}

/// What holds after the first `n` steps of a scan: the entries the user
/// imported stand unchanged where they stood, and the resource id of every
/// file taken up so far is among the found ids.
proof fn lemma_scan_prefix(
    wss: Seq<Seq<Wallpaper>>,
    fss: Seq<Seq<Seq<char>>>,
    paths: Seq<Seq<char>>,
    platform: Platform,
    n: int,
)
    requires
        is_scan(wss, fss, paths, platform),
        0 <= n <= paths.len(),
    ensures
        wss[n].len() >= wss[0].len(),
        forall|j: int|
            0 <= j < wss[0].len() && !has_prefix(wss[0][j].id@, "res_"@) ==> #[trigger] wss[n][j]
                == wss[0][j],
        forall|i: int|
            0 <= i < n && scan_takes(wss[i], paths[i], platform) ==> fss[n].contains(
                resource_id(native(#[trigger] paths[i], platform)),
            ),
    decreases n,
{
    if n > 0 {
        let m = n - 1;
        lemma_scan_prefix(wss, fss, paths, platform, m);
        assert(scan_step(wss[m], fss[m], paths[m], platform, wss[m + 1], fss[m + 1]));
        assert(m + 1 == n);
        let rid = resource_id(native(paths[m], platform));
        assert(has_prefix(rid, "res_"@)) by {
            reveal_strlit("res_");
            assert(rid.subrange(0, 4) =~= "res_"@);
        }
        if scan_takes(wss[m], paths[m], platform) {
            if has_id(wss[m], rid) {
                let k = choose|k: int|
                    {
                        &&& is_first_with_id(wss[m], rid, k)
                        &&& wss[n].len() == wss[m].len()
                        &&& wss[n][k].id == wss[m][k].id
                        &&& wss[n][k].local_path@ == paths[m]
                        &&& forall|j: int| 0 <= j < wss[m].len() && j != k ==> wss[n][j] == wss[m][j]
                    };
                assert forall|j: int|
                    0 <= j < wss[0].len() && !has_prefix(wss[0][j].id@, "res_"@) implies #[trigger] wss[n][j]
                    == wss[0][j] by {
                    assert(wss[m][j] == wss[0][j]);
                    if j == k {
                        assert(wss[m][k].id@ == rid);
                    }
                }
            } else {
                assert forall|j: int|
                    0 <= j < wss[0].len() && !has_prefix(wss[0][j].id@, "res_"@) implies #[trigger] wss[n][j]
                    == wss[0][j] by {
                    assert(wss[m][j] == wss[0][j]);
                    assert(wss[n].drop_last()[j] == wss[n][j]);
                }
            }
            assert forall|i: int|
                0 <= i < n && scan_takes(wss[i], paths[i], platform) implies fss[n].contains(
                resource_id(native(#[trigger] paths[i], platform)),
            ) by {
                if i < m {
                    let x = resource_id(native(paths[i], platform));
                    let q = choose|q: int| 0 <= q < fss[m].len() && fss[m][q] == x;
                    assert(fss[n][q] == x);
                } else {
                    assert(fss[n].last() == rid);
                }
            }
        } else {
            assert forall|i: int|
                0 <= i < n && scan_takes(wss[i], paths[i], platform) implies fss[n].contains(
                resource_id(native(#[trigger] paths[i], platform)),
            ) by {
                if i == m {
                    assert(false);
                }
            }
        }
    }
}

/// The calls of one scan step make a `scan_step`: given what `classify`
/// ensures of its answer for the file `path`, and what `refresh` or `add`
/// (or nothing, for `Ignore` and `AlreadyImported`) ensures of the sync
/// afterwards, the entries and found ids before and after are one step of
/// the scan.
pub proof fn lemma_calls_make_scan_step(
    before: ResourceSync,
    path: Seq<char>,
    platform: Platform,
    action: ResourceAction,
    after: ResourceSync,
)
    requires
        !is_supported_media(native(path, platform)) <==> action is Ignore,
        is_supported_media(native(path, platform)) ==> (held_by_other(
            before.wallpapers@,
            path,
            resource_id(native(path, platform)),
        ) <==> action is AlreadyImported),
        match action {
            ResourceAction::Refresh { pos, id, kind } => {
                &&& id@ == resource_id(native(path, platform))
                &&& is_first_with_id(before.wallpapers@, id@, pos as int)
                &&& after.wallpapers@ == before.wallpapers@.update(
                    pos as int,
                    Wallpaper {
                        local_path: after.wallpapers@[pos as int].local_path,
                        title: after.wallpapers@[pos as int].title,
                        file_size: after.wallpapers@[pos as int].file_size,
                        resolution: after.wallpapers@[pos as int].resolution,
                        ..before.wallpapers@[pos as int]
                    },
                )
                &&& after.wallpapers@[pos as int].local_path@ == path
                &&& after.found_ids@ == before.found_ids@.push(id)
            },
            ResourceAction::Add { id, kind } => {
                &&& id@ == resource_id(native(path, platform))
                &&& !has_id(before.wallpapers@, id@)
                &&& after.wallpapers@.len() == before.wallpapers@.len() + 1
                &&& after.wallpapers@.drop_last() == before.wallpapers@
                &&& after.wallpapers@.last().id == id
                &&& after.wallpapers@.last().local_path@ == path
                &&& after.found_ids@ == before.found_ids@.push(after.wallpapers@.last().id)
            },
            _ => after.wallpapers@ == before.wallpapers@ && after.found_ids@ == before.found_ids@,
        },
    ensures
        scan_step(
            before.wallpapers@,
            text_set(before.found_ids@),
            path,
            platform,
            after.wallpapers@,
            text_set(after.found_ids@),
        ),
{
    let ws0 = before.wallpapers@;
    let ws1 = after.wallpapers@;
    let rid = resource_id(native(path, platform));
    match action {
        ResourceAction::Refresh { pos, id, kind } => {
            assert(text_set(after.found_ids@) =~= text_set(before.found_ids@).push(rid));
            let k = pos as int;
            assert(has_id(ws0, rid));
            assert forall|j: int| 0 <= j < ws0.len() && j != k implies ws1[j] == ws0[j] by {}
        },
        ResourceAction::Add { id, kind } => {
            assert(text_set(after.found_ids@) =~= text_set(before.found_ids@).push(rid));
        },
        _ => {},
    }
}

/// The laws of a scan of the resource directory followed by the clean-up
/// (`kept_entries`, with `exists[j]` telling whether the file of entry `j`
/// exists): the entries the user imported are left as they were, where
/// they were, and are all kept; and an entry holding the resource id of a
/// file that the scan took up is kept whenever its file exists. So a
/// resource entry is dropped only when its file was not found or is gone.
pub proof fn lemma_scan_laws(
    wss: Seq<Seq<Wallpaper>>,
    fss: Seq<Seq<Seq<char>>>,
    paths: Seq<Seq<char>>,
    platform: Platform,
    exists: Seq<bool>,
)
    requires
        is_scan(wss, fss, paths, platform),
        exists.len() >= wss.last().len(),
    ensures
        wss.last().len() >= wss[0].len(),
        forall|j: int|
            0 <= j < wss[0].len() && !has_prefix(wss[0][j].id@, "res_"@) ==> wss.last()[j]
                == wss[0][j] && kept_entries(wss.last(), fss.last(), exists).contains(
                #[trigger] wss[0][j],
            ),
        forall|i: int, j: int|
            #![trigger wss.last()[j], paths[i]]
            0 <= i < paths.len() && 0 <= j < wss.last().len() && scan_takes(
                wss[i],
                paths[i],
                platform,
            ) && wss.last()[j].id@ == resource_id(native(paths[i], platform)) && exists[j]
                ==> kept_entries(wss.last(), fss.last(), exists).contains(wss.last()[j]),
{
    let n = paths.len() as int;
    lemma_scan_prefix(wss, fss, paths, platform, n);
    assert(wss.last() == wss[n]);
    assert(fss.last() == fss[n]);
    lemma_found_entries_kept(wss[n], fss[n], exists);
    assert forall|j: int|
        0 <= j < wss[0].len() && !has_prefix(wss[0][j].id@, "res_"@) implies wss.last()[j]
        == wss[0][j] && kept_entries(wss.last(), fss.last(), exists).contains(
        #[trigger] wss[0][j],
    ) by {
        assert(wss[n][j] == wss[0][j]);
        assert(keeps_entry(wss[n][j], fss[n], exists[j]));
    }
    assert forall|i: int, j: int|
        #![trigger wss.last()[j], paths[i]]
        0 <= i < paths.len() && 0 <= j < wss.last().len() && scan_takes(wss[i], paths[i], platform)
            && wss.last()[j].id@ == resource_id(native(paths[i], platform)) && exists[j] implies kept_entries(
        wss.last(),
        fss.last(),
        exists,
    ).contains(wss.last()[j]) by {
        assert(fss[n].contains(resource_id(native(paths[i], platform))));
        assert(keeps_entry(wss[n][j], fss[n], exists[j]));
    }
}

/// Whether `x` is an entry of `ws` that the clean-up keeps.
pub open spec fn is_kept_entry_of(
    ws: Seq<Wallpaper>,
    found: Seq<Seq<char>>,
    exists: Seq<bool>,
    x: Wallpaper,
) -> bool {
    exists|j: int| 0 <= j < ws.len() && x == ws[j] && keeps_entry(ws[j], found, exists[j])
}

/// The clean-up keeps nothing else: every entry it keeps is an entry of
/// the index that the user imported, or a resource entry whose id was
/// found and whose file exists.
pub proof fn lemma_only_kept_entries(ws: Seq<Wallpaper>, found: Seq<Seq<char>>, exists: Seq<bool>)
    requires
        exists.len() >= ws.len(),
    ensures
        forall|k: int|
            0 <= k < kept_entries(ws, found, exists).len() ==> is_kept_entry_of(
                ws,
                found,
                exists,
                #[trigger] kept_entries(ws, found, exists)[k],
            ),
    decreases ws.len(),
{
    if ws.len() > 0 {
        let d = ws.drop_last();
        lemma_only_kept_entries(d, found, exists);
        let r = kept_entries(ws, found, exists);
        let rd = kept_entries(d, found, exists);
        assert forall|k: int| 0 <= k < r.len() implies is_kept_entry_of(ws, found, exists, #[trigger] r[k]) by {
            let keep_last = keeps_entry(ws.last(), found, exists[ws.len() - 1]);
            if k < rd.len() {
                assert(r[k] == rd[k]);
                assert(is_kept_entry_of(d, found, exists, rd[k]));
                let j = choose|j: int|
                    0 <= j < d.len() && rd[k] == d[j] && keeps_entry(d[j], found, exists[j]);
                assert(ws[j] == d[j]);
            } else {
                assert(keep_last);
                let j = ws.len() - 1;
                assert(r[k] == ws[j] && keeps_entry(ws[j], found, exists[j]));
            }
        }
    }
}

fn contains_text(v: &Vec<String>, s: &str) -> (r: bool)
    ensures
        r == text_set(v@).contains(s@),
{
    let t = chars_of(s);
    let mut i: usize = 0;
    while i < v.len()
        invariant
            i <= v@.len(),
            t@ == s@,
            forall|j: int| 0 <= j < i ==> v@[j]@ != s@,
        decreases v@.len() - i,
    {
        if chars_eq(&chars_of(v[i].as_str()), &t) {
            assert(text_set(v@)[i as int] == s@);
            return true;
        }
        i += 1;
    }
    proof {
        if text_set(v@).contains(s@) {
            let k = choose|k: int| 0 <= k < text_set(v@).len() && text_set(v@)[k] == s@;
            assert(v@[k]@ == s@);
        }
    }
    false
}

/// Drops the resource entries that this scan did not find, or whose file
/// is gone (`exists[i]` for entry `i`); tells whether any was dropped.
pub fn retain_found_resources(
    ws: Vec<Wallpaper>,
    found_ids: &Vec<String>,
    exists: &Vec<bool>,
) -> (r: (Vec<Wallpaper>, bool))
    requires
        exists@.len() == ws@.len(),
    ensures
        r.0@ == kept_entries(ws@, text_set(found_ids@), exists@),
        r.1 == (r.0@.len() != ws@.len()),
{
    let ghost s = ws@;
    let n = ws.len();
    let mut rest = ws;
    let mut taken: Vec<Wallpaper> = Vec::new();
    while rest.len() > 0
        invariant
            rest@ + taken@.reverse() == s,
        decreases rest@.len(),
    {
        let x = rest.pop().unwrap();
        let ghost before = taken@;
        taken.push(x);
        assert(taken@.reverse() =~= seq![x] + before.reverse());
        assert(rest@ + taken@.reverse() =~= s);
    }
    assert(taken@.reverse() =~= s);
    let mut kept: Vec<Wallpaper> = Vec::new();
    let res = chars_of("res_");
    assert(s.subrange(0, 0) =~= Seq::<Wallpaper>::empty());
    let ghost e0 = exists@.subrange(0, 0);
    while taken.len() > 0
        invariant
            n == s.len(),
            exists@.len() == n,
            taken@.len() <= n,
            taken@.reverse() == s.subrange(n - taken@.len(), n as int),
            kept@ == kept_entries(
                s.subrange(0, n - taken@.len()),
                text_set(found_ids@),
                exists@.subrange(0, n - taken@.len()),
            ),
            res@ == "res_"@,
        decreases taken@.len(),
    {
        let i = n - taken.len();
        let x = taken.pop().unwrap();
        proof {
            let t = taken@.push(x);
            assert(t.reverse()[0] == x);
            assert(s.subrange(i as int, n as int)[0] == s[i as int]);
            assert(taken@.reverse() =~= t.reverse().drop_first());
            assert(s.subrange(i as int, n as int).drop_first() =~= s.subrange(i + 1, n as int));
            let pre = s.subrange(0, i + 1);
            let epre = exists@.subrange(0, i + 1);
            assert(pre.drop_last() =~= s.subrange(0, i as int));
            assert(pre.last() == x);
            assert(epre[i as int] == exists@[i as int]);
            lemma_kept_entries_exists_prefix(pre.drop_last(), text_set(found_ids@), epre);
            assert(epre.subrange(0, i as int) =~= exists@.subrange(0, i as int));
            assert(pre.len() == i + 1);
        }
        let is_res = starts_with(&chars_of(x.id.as_str()), &res);
        let keep = !is_res || (contains_text(found_ids, x.id.as_str()) && exists[i]);
        if keep {
            kept.push(x);
        }
    }
    assert(s.subrange(0, n as int) =~= s);
    assert(exists@.subrange(0, n as int) =~= exists@);
    let dropped = kept.len() != n;
    (kept, dropped)
}

/// `kept_entries` reads only the first `ws.len()` existence flags.
proof fn lemma_kept_entries_exists_prefix(ws: Seq<Wallpaper>, found: Seq<Seq<char>>, e: Seq<bool>)
    requires
        e.len() == ws.len() + 1,
    ensures
        kept_entries(ws, found, e) == kept_entries(ws, found, e.subrange(0, ws.len() as int)),
    decreases ws.len(),
{
    lemma_kept_entries_exists_any(ws, found, e, e.subrange(0, ws.len() as int));
}

proof fn lemma_kept_entries_exists_any(
    ws: Seq<Wallpaper>,
    found: Seq<Seq<char>>,
    e1: Seq<bool>,
    e2: Seq<bool>,
)
    requires
        e1.len() >= ws.len(),
        e2.len() >= ws.len(),
        forall|j: int| 0 <= j < ws.len() ==> e1[j] == e2[j],
    ensures
        kept_entries(ws, found, e1) == kept_entries(ws, found, e2),
    decreases ws.len(),
{
    if ws.len() > 0 {
        lemma_kept_entries_exists_any(ws.drop_last(), found, e1, e2);
    }
}

/// What the index file's content comes to: an empty or unreadable index
/// (blank text, or text the JSON reader could not turn into an index) is
/// replaced by the empty index.
pub fn index_from_content(content: &str, parsed: Option<LibraryIndex>) -> (r: LibraryIndex)
    ensures
        trim(content@).len() == 0 ==> r.schema_version == 1 && r.wallpapers@.len() == 0,
        trim(content@).len() > 0 ==> match parsed {
            Some(i) => r == i,
            None => r.schema_version == 1 && r.wallpapers@.len() == 0,
        },
{
    if trim_chars(&chars_of(content)).len() == 0 {
        return LibraryIndex::default();
    }
    match parsed {
        Some(i) => i,
        None => LibraryIndex::default(),
    }
}

/// The id of a file found by the fallback scan of the detail-play warm-up:
/// the id of the entry with that path, else its resource id.
pub open spec fn scanned_file_id(ws: Seq<Wallpaper>, local_path: Seq<char>) -> Seq<char> {
    if has_local_path(ws, local_path) {
        ws[choose|j: int| 0 <= j < ws.len() && ws[j].local_path@ == local_path && forall|k: int|
            0 <= k < j ==> ws[k].local_path@ != local_path].id@
    } else {
        resource_id(local_path)
    }
}

/// The id used for a video file (a path of the platform) found by the
/// fallback scan.
pub fn fallback_play_id(ws: &Vec<Wallpaper>, local_path: &str, platform: Platform) -> (r: String)
    ensures
        has_local_path(ws@, local_path@) ==> exists|j: int|
            0 <= j < ws@.len() && ws@[j].local_path@ == local_path@ && (forall|k: int|
                0 <= k < j ==> ws@[k].local_path@ != local_path@) && r@ == ws@[j].id@,
        !has_local_path(ws@, local_path@) ==> r@ == resource_id(native(local_path@, platform)),
{
    let target = chars_of(local_path);
    let mut i: usize = 0;
    while i < ws.len()
        invariant
            i <= ws@.len(),
            target@ == local_path@,
            forall|j: int| 0 <= j < i ==> ws@[j].local_path@ != local_path@,
        decreases ws@.len() - i,
    {
        if chars_eq(&chars_of(ws[i].local_path.as_str()), &target) {
            return copy_string(&ws[i].id);
        }
        i += 1;
    }
    resource_id_for_path(local_path, platform)
}

/// The number of worker threads for the detail-play warm-up: at most 4, at
/// most the machine's parallelism (1 when unknown or 0), at most the number
/// of tasks.
pub fn warmup_workers(tasks: usize, available: Option<usize>) -> (r: usize)
    ensures
        r == vstd::math::min(
            tasks as int,
            vstd::math::min(
                vstd::math::max(
                    match available {
                        Some(n) => n as int,
                        None => 1,
                    },
                    1,
                ),
                4,
            ),
        ),
{
    let avail = match available {
        Some(n) => n,
        None => 1,
    };
    let max_workers = if avail < 1 {
        1
    } else {
        avail
    };
    let capped = if max_workers < 4 {
        max_workers
    } else {
        4
    };
    if tasks < capped {
        tasks
    } else {
        capped
    }
}

} // verus!
