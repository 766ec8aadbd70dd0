//! The list of wallpapers: which one is current, and what is counted over them.

use crate::text::opt_view;
use crate::local_data::{
    created_at, newest_first, sort_wallpapers_desc, LocalWallpaper, WallpaperDeleteResult,
    WallpaperStats,
};
use crate::text::{text_eq, trim, trimmed};
use vstd::prelude::*;

verus! {

/// The wallpapers as they are kept on disk.
pub struct WallpapersFile {
    pub version: u32,
    pub current_wallpaper_id: Option<String>,
    pub wallpapers: Vec<LocalWallpaper>,
}

impl Default for WallpapersFile {
    fn default() -> (file: WallpapersFile)
        ensures
            file.version == 1,
            file.current_wallpaper_id is None,
            file.wallpapers@.len() == 0,
    {
        WallpapersFile { version: 1, current_wallpaper_id: None, wallpapers: Vec::new() }
    }
}

/// The index of the first wallpaper at or after `i` that is flagged as
/// current, or the length of the list.
pub open spec fn flagged_from(list: Seq<LocalWallpaper>, i: int) -> int
    decreases list.len() - i,
{
    if i < 0 || i >= list.len() {
        list.len() as int
    } else if list[i].is_current {
        i
    } else {
        flagged_from(list, i + 1)
    }
}

/// The index of the first wallpaper at or after `i` with the id `id`, or
/// the length of the list.
pub open spec fn index_of_id(list: Seq<LocalWallpaper>, id: Seq<char>, i: int) -> int
    decreases list.len() - i,
{
    if i < 0 || i >= list.len() {
        list.len() as int
    } else if list[i].id@ == id {
        i
    } else {
        index_of_id(list, id, i + 1)
    }
}

/// Whether a wallpaper of the list has the id `id`.
pub open spec fn has_id(list: Seq<LocalWallpaper>, id: Seq<char>) -> bool {
    index_of_id(list, id, 0) < list.len()
}

/// The id of the current wallpaper of a list that is not empty: the
/// recorded one where it is not blank, else that of the first wallpaper
/// flagged as current, else that of the first wallpaper; and that of the
/// first wallpaper where no wallpaper has the id so found.
pub open spec fn chosen_current(list: Seq<LocalWallpaper>, recorded: Option<Seq<char>>) -> Seq<
    char,
>
    recommends
        list.len() > 0,
{
    let wanted = if recorded is Some && trimmed(recorded->0).len() > 0 {
        recorded->0
    } else if flagged_from(list, 0) < list.len() {
        list[flagged_from(list, 0)].id@
    } else {
        list[0].id@
    };
    if has_id(list, wanted) {
        wanted
    } else {
        list[0].id@
    }
}

/// Whether `after` is `before` with its flag set for the current id
/// `current` and with the source `local` in place of a blank one.
pub open spec fn marked(before: LocalWallpaper, after: LocalWallpaper, current: Seq<char>) -> bool {
    &&& after.id == before.id
    &&& after.original_name == before.original_name
    &&& after.url == before.url
    &&& after.mime_type == before.mime_type
    &&& after.size == before.size
    &&& after.description == before.description
    &&& after.created_at == before.created_at
    &&& after.updated_at == before.updated_at
    &&& after.is_current == (before.id@ == current)
    &&& after.source@ == if trimmed(before.source@).len() == 0 {
        "local"@
    } else {
        before.source@
    }
}

/// Whether the file `after` is the list `list`, recorded with the current
/// id `recorded`, once its current wallpaper is settled: an empty list has
/// none, and in any other exactly the wallpapers with the chosen id are flagged.
pub open spec fn settled(
    list: Seq<LocalWallpaper>,
    recorded: Option<Seq<char>>,
    after: WallpapersFile,
) -> bool {
    &&& after.wallpapers@.len() == list.len()
    &&& if list.len() == 0 {
        after.current_wallpaper_id is None
    } else {
        &&& opt_view(after.current_wallpaper_id) == Some(chosen_current(list, recorded))
        &&& forall|i: int|
            0 <= i < list.len() ==> marked(
                list[i],
                #[trigger] after.wallpapers@[i],
                chosen_current(list, recorded),
            )
    }
}

fn position_of_id(list: &Vec<LocalWallpaper>, id: &str) -> (r: usize)
    ensures
        r == index_of_id(list@, id@, 0),
        r <= list.len(),
{
    let mut i: usize = 0;
    while i < list.len() && !text_eq(list[i].id.as_str(), id)
        invariant
            i <= list.len(),
            index_of_id(list@, id@, i as int) == index_of_id(list@, id@, 0),
        decreases list.len() - i,
    {
        i += 1;
    }
    i
}

fn position_of_flagged(list: &Vec<LocalWallpaper>) -> (r: usize)
    ensures
        r == flagged_from(list@, 0),
        r <= list.len(),
{
    let mut i: usize = 0;
    while i < list.len() && !list[i].is_current
        invariant
            i <= list.len(),
            flagged_from(list@, i as int) == flagged_from(list@, 0),
        decreases list.len() - i,
    {
        i += 1;
    }
    i
}

/// Settles which wallpaper is current, without changing the order of the list.
pub fn mark_current(file: &mut WallpapersFile)
    ensures
        final(file).version == old(file).version,
        settled(old(file).wallpapers@, opt_view(old(file).current_wallpaper_id), *final(file)),
{
    if file.wallpapers.len() == 0 {
        file.current_wallpaper_id = None;
        return ;
    }
    let ghost list = file.wallpapers@;
    let ghost recorded = opt_view(file.current_wallpaper_id);
    let recorded_id = match &file.current_wallpaper_id {
        Some(id) => id.clone(),
        None => String::new(),
    };
    let mut current_id = recorded_id;
    if trim(current_id.as_str()).as_str().is_empty() {
        let flagged = position_of_flagged(&file.wallpapers);
        if flagged < file.wallpapers.len() {
            current_id = file.wallpapers[flagged].id.clone();
        } else {
            current_id = file.wallpapers[0].id.clone();
        }
    }
    assert(trimmed(Seq::<char>::empty()).len() == 0) by {
        crate::text::lemma_lead_bounds(Seq::<char>::empty(), crate::text::Strip::Whitespace, 0);
    }
    if position_of_id(&file.wallpapers, current_id.as_str()) >= file.wallpapers.len() {
        current_id = file.wallpapers[0].id.clone();
    }
    assert(current_id@ == chosen_current(list, recorded));
    let mut out: Vec<LocalWallpaper> = Vec::new();
    let mut i: usize = 0;
    while i < file.wallpapers.len()
        invariant
            i <= file.wallpapers.len(),
            file.wallpapers@ == list,
            out@.len() == i,
            forall|j: int| 0 <= j < i ==> marked(list[j], #[trigger] out@[j], current_id@),
        decreases file.wallpapers.len() - i,
    {
        let w = &file.wallpapers[i];
        let source = if trim(w.source.as_str()).as_str().is_empty() {
            "local".to_owned()
        } else {
            w.source.clone()
        };
        out.push(
            LocalWallpaper {
                id: w.id.clone(),
                original_name: w.original_name.clone(),
                url: w.url.clone(),
                mime_type: w.mime_type.clone(),
                size: w.size,
                description: w.description.clone(),
                created_at: w.created_at.clone(),
                updated_at: w.updated_at.clone(),
                is_current: text_eq(w.id.as_str(), current_id.as_str()),
                source,
            },
        );
        i += 1;
    }
    file.wallpapers = out;
    file.current_wallpaper_id = Some(current_id);
}

/// Puts the file in order: the wallpapers sorted by the time of their
/// creation, the newest first and ties in the order they had, and the
/// current wallpaper settled on that order.
pub fn normalize_wallpapers_file(file: &mut WallpapersFile)
    ensures
        final(file).version == old(file).version,
        exists|sorted: Seq<LocalWallpaper>|
            {
                &&& newest_first(sorted)
                &&& sorted.len() == old(file).wallpapers@.len()
                &&& forall|at: Seq<char>| #[trigger]
                    created_at(sorted, at) == created_at(old(file).wallpapers@, at)
                &&& #[trigger] settled(
                    sorted,
                    opt_view(old(file).current_wallpaper_id),
                    *final(file),
                )
            },
{
    sort_wallpapers_desc(&mut file.wallpapers);
    let ghost sorted = file.wallpapers@;
    mark_current(file);
    assert(settled(sorted, opt_view(old(file).current_wallpaper_id), *file));
}

/// The sizes of the wallpapers of a list, added up.
pub open spec fn size_sum(list: Seq<LocalWallpaper>) -> nat
    decreases list.len(),
{
    if list.len() == 0 {
        0
    } else {
        size_sum(list.drop_last()) + list.last().size as nat
    }
}

/// The counts over a list whose sizes add up to no more than `u64::MAX`.
pub open spec fn stats_of(list: Seq<LocalWallpaper>) -> WallpaperStats {
    WallpaperStats {
        total_wallpapers: list.len() as usize,
        total_size: size_sum(list) as u64,
        avg_size: if list.len() > 0 {
            (size_sum(list) / list.len()) as u64
        } else {
            0
        },
        current_wallpaper: if flagged_from(list, 0) < list.len() {
            1
        } else {
            0
        },
    }
}

/// Counts the wallpapers, adds up and averages their sizes, and says
/// whether one of them is current; nothing where the sizes add up to more
/// than `u64::MAX`.
pub fn pdh_wallpapers_stats(list: &Vec<LocalWallpaper>) -> (r: Option<WallpaperStats>)
    ensures
        r == if size_sum(list@) <= u64::MAX {
            Some(stats_of(list@))
        } else {
            None
        },
{
    let mut total: u64 = 0;
    let mut i: usize = 0;
    proof {
        assert(list@.take(0) =~= Seq::<LocalWallpaper>::empty());
    }
    while i < list.len()
        invariant
            i <= list.len(),
            total == size_sum(list@.take(i as int)),
        decreases list.len() - i,
    {
        proof {
            assert(list@.take(i + 1).drop_last() =~= list@.take(i as int));
            assert(list@.take(i + 1).last() == list@[i as int]);
            lemma_size_sum_grows(list@, i + 1);
        }
        match total.checked_add(list[i].size) {
            Some(sum) => {
                total = sum;
            },
            None => {
                return None;
            },
        }
        i += 1;
    }
    proof {
        assert(list@.take(i as int) =~= list@);
    }
    let count = list.len();
    let avg: u64 = if count > 0 {
        total / (count as u64)
    } else {
        0
    };
    let current: u8 = if position_of_flagged(list) < list.len() {
        1
    } else {
        0
    };
    Some(
        WallpaperStats {
            total_wallpapers: count,
            total_size: total,
            avg_size: avg,
            current_wallpaper: current,
        },
    )
}

proof fn lemma_size_sum_grows(list: Seq<LocalWallpaper>, n: int)
    requires
        0 <= n <= list.len(),
    ensures
        size_sum(list.take(n)) <= size_sum(list),
    decreases list.len() - n,
{
    if n < list.len() {
        lemma_size_sum_grows(list, n + 1);
        assert(list.take(n + 1).drop_last() =~= list.take(n));
    } else {
        assert(list.take(n) =~= list);
    }
}

/// Why a command on the wallpapers was refused.
#[derive(Clone, Copy, Debug, PartialEq, Eq, Structural)]
pub enum WallpaperError {
    /// The id is blank.
    EmptyId,
    /// No wallpaper has the id.
    NotFound,
    /// The image has no bytes.
    EmptyBytes,
    /// The wallpaper is not in the list after it was added.
    CreateFailed,
    /// The name of the image file would leave the directory of the images.
    InvalidFileName,
}

impl WallpaperError {
    /// The message shown to the caller.
    pub open spec fn text(self) -> Seq<char> {
        match self {
            WallpaperError::EmptyId => "wallpaper id is empty"@,
            WallpaperError::NotFound => "wallpaper not found"@,
            WallpaperError::EmptyBytes => "wallpaper bytes is empty"@,
            WallpaperError::CreateFailed => "create wallpaper failed"@,
            WallpaperError::InvalidFileName => "invalid wallpaper file name"@,
        }
    }

    /// The message shown to the caller.
    pub fn message(&self) -> (m: String)
        ensures
            m@ == self.text(),
    {
        match self {
            WallpaperError::EmptyId => "wallpaper id is empty".to_owned(),
            WallpaperError::NotFound => "wallpaper not found".to_owned(),
            WallpaperError::EmptyBytes => "wallpaper bytes is empty".to_owned(),
            WallpaperError::CreateFailed => "create wallpaper failed".to_owned(),
            WallpaperError::InvalidFileName => "invalid wallpaper file name".to_owned(),
        }
    }
}

/// The wallpapers of a list whose id is not `id`, in order.
pub open spec fn without_id(list: Seq<LocalWallpaper>, id: Seq<char>) -> Seq<LocalWallpaper>
    decreases list.len(),
{
    if list.len() == 0 {
        Seq::empty()
    } else if list.last().id@ == id {
        without_id(list.drop_last(), id)
    } else {
        without_id(list.drop_last(), id).push(list.last())
    }
}

/// The first wallpaper of the list with the id `id`, if there is one.
pub fn find_wallpaper(list: &Vec<LocalWallpaper>, id: &str) -> (r: Option<LocalWallpaper>)
    ensures
        r == if has_id(list@, id@) {
            Some(list@[index_of_id(list@, id@, 0)])
        } else {
            None
        },
{
    let i = position_of_id(list, id);
    if i < list.len() {
        Some(list[i].clone())
    } else {
        None
    }
}

/// The first wallpaper of the list that is flagged as current, if there is one.
pub fn pdh_wallpapers_get_current(list: &Vec<LocalWallpaper>) -> (r: Option<LocalWallpaper>)
    ensures
        r == if flagged_from(list@, 0) < list@.len() {
            Some(list@[flagged_from(list@, 0)])
        } else {
            None
        },
{
    let i = position_of_flagged(list);
    if i < list.len() {
        Some(list[i].clone())
    } else {
        None
    }
}

/// Records the wallpaper with the trimmed id as the current one, and hands
/// back that id. A blank id and an id that no wallpaper has are refused.
pub fn pdh_wallpapers_set_current(file: &mut WallpapersFile, id: &str) -> (r: Result<
    String,
    WallpaperError,
>)
    ensures
        final(file).version == old(file).version,
        final(file).wallpapers@ == old(file).wallpapers@,
        match r {
            Ok(target) => {
                &&& target@ == trimmed(id@)
                &&& target@.len() > 0
                &&& has_id(old(file).wallpapers@, target@)
                &&& opt_view(final(file).current_wallpaper_id) == Some(target@)
            },
            Err(e) => {
                &&& final(file).current_wallpaper_id == old(file).current_wallpaper_id
                &&& e == if trimmed(id@).len() == 0 {
                    WallpaperError::EmptyId
                } else {
                    WallpaperError::NotFound
                }
                &&& trimmed(id@).len() > 0 ==> !has_id(old(file).wallpapers@, trimmed(id@))
            },
        },
{
    let target = trim(id);
    if target.as_str().is_empty() {
        return Err(WallpaperError::EmptyId);
    }
    if position_of_id(&file.wallpapers, target.as_str()) >= file.wallpapers.len() {
        return Err(WallpaperError::NotFound);
    }
    file.current_wallpaper_id = Some(target.clone());
    Ok(target)
}

/// What was removed from the list.
pub struct RemovedWallpaper {
    pub deleted_id: String,
    /// Where the image of the first wallpaper with the id was kept.
    pub url: String,
}

/// Removes every wallpaper with the trimmed id. Where the removed id was
/// recorded as the current one, the first wallpaper that is left becomes
/// the recorded one, or none where nothing is left. A blank id and an id
/// that no wallpaper has are refused.
pub fn pdh_wallpapers_delete(file: &mut WallpapersFile, id: &str) -> (r: Result<
    RemovedWallpaper,
    WallpaperError,
>)
    ensures
        final(file).version == old(file).version,
        match r {
            Ok(removed) => {
                let list = old(file).wallpapers@;
                let left = without_id(list, trimmed(id@));
                &&& removed.deleted_id@ == trimmed(id@)
                &&& trimmed(id@).len() > 0
                &&& has_id(list, trimmed(id@))
                &&& removed.url == list[index_of_id(list, trimmed(id@), 0)].url
                &&& final(file).wallpapers@ == left
                &&& opt_view(final(file).current_wallpaper_id) == if opt_view(
                    old(file).current_wallpaper_id,
                ) == Some(trimmed(id@)) {
                    if left.len() > 0 {
                        Some(left[0].id@)
                    } else {
                        None
                    }
                } else {
                    opt_view(old(file).current_wallpaper_id)
                }
            },
            Err(e) => {
                &&& final(file).wallpapers@ == old(file).wallpapers@
                &&& final(file).current_wallpaper_id == old(file).current_wallpaper_id
                &&& e == if trimmed(id@).len() == 0 {
                    WallpaperError::EmptyId
                } else {
                    WallpaperError::NotFound
                }
                &&& trimmed(id@).len() > 0 ==> !has_id(old(file).wallpapers@, trimmed(id@))
            },
        },
{
    let target = trim(id);
    if target.as_str().is_empty() {
        return Err(WallpaperError::EmptyId);
    }
    let found = position_of_id(&file.wallpapers, target.as_str());
    if found >= file.wallpapers.len() {
        return Err(WallpaperError::NotFound);
    }
    let url = file.wallpapers[found].url.clone();
    let ghost list = file.wallpapers@;
    let mut out: Vec<LocalWallpaper> = Vec::new();
    let mut i: usize = 0;
    proof {
        assert(list.take(0) =~= Seq::<LocalWallpaper>::empty());
    }
    while i < file.wallpapers.len()
        invariant
            i <= file.wallpapers.len(),
            file.wallpapers@ == list,
            out@ == without_id(list.take(i as int), target@),
        decreases file.wallpapers.len() - i,
    {
        proof {
            assert(list.take(i + 1).drop_last() =~= list.take(i as int));
            assert(list.take(i + 1).last() == list[i as int]);
        }
        if !text_eq(file.wallpapers[i].id.as_str(), target.as_str()) {
            out.push(file.wallpapers[i].clone());
        }
        i += 1;
    }
    proof {
        assert(list.take(i as int) =~= list);
    }
    file.wallpapers = out;
    let was_current = match &file.current_wallpaper_id {
        Some(current) => text_eq(current.as_str(), target.as_str()),
        None => false,
    };
    if was_current {
        file.current_wallpaper_id = if file.wallpapers.len() > 0 {
            Some(file.wallpapers[0].id.clone())
        } else {
            None
        };
    }
    Ok(RemovedWallpaper { deleted_id: target, url })
}

/// Gives the first wallpaper with the trimmed id a new description,
/// trimmed, and a new time of change, and hands back that id. A blank id
/// and an id that no wallpaper has are refused.
pub fn pdh_wallpapers_update_description(
    file: &mut WallpapersFile,
    id: &str,
    description: &str,
    updated_at: &str,
) -> (r: Result<String, WallpaperError>)
    ensures
        final(file).version == old(file).version,
        final(file).current_wallpaper_id == old(file).current_wallpaper_id,
        match r {
            Ok(target) => {
                let list = old(file).wallpapers@;
                let at = index_of_id(list, trimmed(id@), 0);
                &&& target@ == trimmed(id@)
                &&& target@.len() > 0
                &&& at < list.len()
                &&& final(file).wallpapers@.len() == list.len()
                &&& forall|j: int|
                    0 <= j < list.len() && j != at ==> #[trigger] final(file).wallpapers@[j]
                        == list[j]
                &&& final(file).wallpapers@[at].description@ == trimmed(description@)
                &&& final(file).wallpapers@[at].updated_at@ == updated_at@
                &&& final(file).wallpapers@[at].id == list[at].id
                &&& final(file).wallpapers@[at].original_name == list[at].original_name
                &&& final(file).wallpapers@[at].url == list[at].url
                &&& final(file).wallpapers@[at].mime_type == list[at].mime_type
                &&& final(file).wallpapers@[at].size == list[at].size
                &&& final(file).wallpapers@[at].created_at == list[at].created_at
                &&& final(file).wallpapers@[at].is_current == list[at].is_current
                &&& final(file).wallpapers@[at].source == list[at].source
            },
            Err(e) => {
                &&& final(file).wallpapers@ == old(file).wallpapers@
                &&& e == if trimmed(id@).len() == 0 {
                    WallpaperError::EmptyId
                } else {
                    WallpaperError::NotFound
                }
                &&& trimmed(id@).len() > 0 ==> !has_id(old(file).wallpapers@, trimmed(id@))
            },
        },
{
    let target = trim(id);
    if target.as_str().is_empty() {
        return Err(WallpaperError::EmptyId);
    }
    let at = position_of_id(&file.wallpapers, target.as_str());
    if at >= file.wallpapers.len() {
        return Err(WallpaperError::NotFound);
    }
    let w = &file.wallpapers[at];
    let changed = LocalWallpaper {
        id: w.id.clone(),
        original_name: w.original_name.clone(),
        url: w.url.clone(),
        mime_type: w.mime_type.clone(),
        size: w.size,
        description: trim(description),
        created_at: w.created_at.clone(),
        updated_at: updated_at.to_owned(),
        is_current: w.is_current,
        source: w.source.clone(),
    };
    file.wallpapers.set(at, changed);
    Ok(target)
}

/// Adds a wallpaper whose image of `size` bytes is kept at `url`: it
/// goes to the front of the list, with its name and description trimmed
/// and the source `local`, and is the current one where the list was
/// empty. An image without bytes is refused.
pub fn pdh_wallpapers_create(
    file: &mut WallpapersFile,
    id: String,
    original_name: &str,
    url: String,
    mime_type: String,
    size: u64,
    description: &str,
    created_at: String,
    updated_at: String,
) -> (r: Result<(), WallpaperError>)
    ensures
        final(file).version == old(file).version,
        match r {
            Ok(_) => {
                let list = old(file).wallpapers@;
                let added = final(file).wallpapers@[0];
                &&& size > 0
                &&& final(file).wallpapers@.len() == list.len() + 1
                &&& final(file).wallpapers@ == list.insert(0, added)
                &&& added.id@ == id@
                &&& added.original_name@ == trimmed(original_name@)
                &&& added.url@ == url@
                &&& added.mime_type@ == mime_type@
                &&& added.size == size
                &&& added.description@ == trimmed(description@)
                &&& added.created_at@ == created_at@
                &&& added.updated_at@ == updated_at@
                &&& added.is_current == (list.len() == 0)
                &&& added.source@ == "local"@
                &&& if list.len() == 0 {
                    opt_view(final(file).current_wallpaper_id) == Some(id@)
                } else {
                    final(file).current_wallpaper_id == old(file).current_wallpaper_id
                }
            },
            Err(e) => {
                &&& e == WallpaperError::EmptyBytes
                &&& size == 0
                &&& final(file).wallpapers@ == old(file).wallpapers@
                &&& final(file).current_wallpaper_id == old(file).current_wallpaper_id
            },
        },
{
    if size == 0 {
        return Err(WallpaperError::EmptyBytes);
    }
    let first = file.wallpapers.len() == 0;
    if first {
        file.current_wallpaper_id = Some(id.clone());
    }
    let added = LocalWallpaper {
        id,
        original_name: trim(original_name),
        url,
        mime_type,
        size,
        description: trim(description),
        created_at,
        updated_at,
        is_current: first,
        source: "local".to_owned(),
    };
    file.wallpapers.insert(0, added);
    Ok(())
}

/// What the caller learns of a deletion: the id that was deleted, the
/// wallpaper that is current in the list that is left, and how many are left.
pub fn deletion_result(removed: RemovedWallpaper, left: &Vec<LocalWallpaper>) -> (r:
    WallpaperDeleteResult)
    ensures
        r.deleted_id == removed.deleted_id,
        r.total == left@.len(),
        r.current_wallpaper == if flagged_from(left@, 0) < left@.len() {
            Some(left@[flagged_from(left@, 0)])
        } else {
            None
        },
{
    WallpaperDeleteResult {
        deleted_id: removed.deleted_id,
        current_wallpaper: pdh_wallpapers_get_current(left),
        total: left.len(),
    }
}

} // verus!
