//! The records of the local data store and the rules that keep them in order.

use crate::text::{
    chars_of, concat3, decimal, decimal_text, strip_start, text_eq, trim, trim_start_of, trimmed,
    Strip,
};
use vstd::prelude::*;

verus! {

/// Where the local data lives.
pub struct LocalDataInfo {
    pub data_dir: String,
    pub default_data_dir: String,
    pub config_path: String,
    pub using_custom_dir: bool,
}

/// A saved theme.
pub struct ThemePreset {
    pub id: String,
    pub name: String,
    pub created_at: String,
    pub payload: serde_json::Value,
}

/// A wallpaper kept on this machine.
pub struct LocalWallpaper {
    pub id: String,
    pub original_name: String,
    pub url: String,
    pub mime_type: String,
    pub size: u64,
    pub description: String,
    pub created_at: String,
    pub updated_at: String,
    pub is_current: bool,
    pub source: String,
}

/// How opaque each part of the window is, in percent.
#[derive(Clone, Copy, Debug, PartialEq, Eq, Structural)]
pub struct TransparencyValue {
    pub cards: u8,
    pub sidebar: u8,
    pub app_bar: u8,
}

/// A named transparency setting.
pub struct TransparencyConfigRecord {
    pub name: String,
    pub description: String,
    pub transparency: TransparencyValue,
    pub created_at: String,
    pub updated_at: String,
}

/// What the deletion of a wallpaper left behind.
pub struct WallpaperDeleteResult {
    pub deleted_id: String,
    pub current_wallpaper: Option<LocalWallpaper>,
    pub total: usize,
}

/// Counts over the wallpapers.
#[derive(Clone, Copy, Debug, PartialEq, Eq, Structural)]
pub struct WallpaperStats {
    pub total_wallpapers: usize,
    pub total_size: u64,
    pub avg_size: u64,
    pub current_wallpaper: u8,
}

impl Default for TransparencyValue {
    fn default() -> (v: TransparencyValue)
        ensures
            v == (TransparencyValue { cards: 100, sidebar: 100, app_bar: 100 }),
    {
        TransparencyValue { cards: 100, sidebar: 100, app_bar: 100 }
    }
}

/// `p` as a percentage: capped at 100.
pub open spec fn capped(p: u8) -> u8 {
    if p > 100 {
        100
    } else {
        p
    }
}

/// The value with each part capped at 100 percent.
pub fn normalize_transparency_value(value: TransparencyValue) -> (r: TransparencyValue)
    ensures
        r == (TransparencyValue {
            cards: capped(value.cards),
            sidebar: capped(value.sidebar),
            app_bar: capped(value.app_bar),
        }),
{
    TransparencyValue {
        cards: if value.cards > 100 {
            100
        } else {
            value.cards
        },
        sidebar: if value.sidebar > 100 {
            100
        } else {
            value.sidebar
        },
        app_bar: if value.app_bar > 100 {
            100
        } else {
            value.app_bar
        },
    }
}

/// What `str::to_lowercase` makes of a text.
pub uninterp spec fn unicode_lower(text: Seq<char>) -> Seq<char>;

/// `str::to_lowercase`: the lower-case form of a text as Unicode defines it,
/// a function of the text alone. No ASCII upper-case letter is left in it.
#[verifier::external_body]
pub(crate) fn unicode_lowercase(text: &str) -> (r: String)
    ensures
        r@ == unicode_lower(text@),
        forall|i: int| 0 <= i < r@.len() ==> !('A' <= #[trigger] r@[i] <= 'Z'),
{
    text.to_lowercase()
}

/// `Path::extension`, as text: the extension of the file that a path names,
/// if it has one that is valid Unicode. Where a path's file name begins is
/// for the platform to say, so nothing is stated of the answer.
#[verifier::external_body]
pub(crate) fn path_extension(path: &str) -> Option<String> {
    std::path::Path::new(path).extension().and_then(|e| e.to_str()).map(|e| e.to_string())
}

/// Whether `c` is an ASCII letter or digit.
pub open spec fn ascii_alnum(c: char) -> bool {
    ('a' <= c <= 'z') || ('A' <= c <= 'Z') || ('0' <= c <= '9')
}

/// Whether `e` can be a file extension: 1 to 12 ASCII letters and digits.
pub open spec fn extension_ok(e: Seq<char>) -> bool {
    &&& 1 <= e.len() <= 12
    &&& forall|i: int| 0 <= i < e.len() ==> ascii_alnum(#[trigger] e[i])
}

/// The extension that a text stands for: trimmed, without leading dots,
/// in lower case; none where that is no extension.
pub open spec fn sanitized(ext: Seq<char>) -> Option<Seq<char>> {
    let lower = unicode_lower(strip_start(trimmed(ext), Strip::Char('.')));
    if extension_ok(lower) {
        Some(lower)
    } else {
        None
    }
}

/// The extension that a text stands for; it holds no upper-case letter.
pub fn sanitize_extension(ext: &str) -> (r: Option<String>)
    ensures
        crate::text::opt_view(r) == sanitized(ext@),
        r matches Some(e) ==> forall|i: int|
            0 <= i < e@.len() ==> !('A' <= #[trigger] e@[i] <= 'Z'),
{
    let t = trim(ext);
    let bare = trim_start_of(t.as_str(), Strip::Char('.'));
    let lower = unicode_lowercase(bare.as_str());
    let v = chars_of(lower.as_str());
    if v.len() == 0 || v.len() > 12 {
        return None;
    }
    let mut i: usize = 0;
    while i < v.len()
        invariant
            i <= v.len(),
            v@ == lower@,
            lower@ == unicode_lower(strip_start(trimmed(ext@), Strip::Char('.'))),
            forall|j: int| 0 <= j < i ==> ascii_alnum(#[trigger] v@[j]),
        decreases v.len() - i,
    {
        let c = v[i];
        if !(('a' <= c && c <= 'z') || ('A' <= c && c <= 'Z') || ('0' <= c && c <= '9')) {
            assert(!ascii_alnum(lower@[i as int]));
            return None;
        }
        i += 1;
    }
    Some(lower)
}

/// The extension under which a file with the extension `ext` is stored:
/// sanitized, and `jpg` for `jpeg`.
pub open spec fn stored_extension(ext: Option<Seq<char>>) -> Option<Seq<char>> {
    match ext {
        Some(e) => match sanitized(e) {
            Some(s) => if s == "jpeg"@ {
                Some("jpg"@)
            } else {
                Some(s)
            },
            None => None,
        },
        None => None,
    }
}

/// The extension under which a file with the extension `ext` is stored.
pub fn extension_for(ext: Option<String>) -> (r: Option<String>)
    ensures
        crate::text::opt_view(r) == stored_extension(crate::text::opt_view(ext)),
{
    match ext {
        Some(e) => match sanitize_extension(e.as_str()) {
            Some(s) => {
                if text_eq(s.as_str(), "jpeg") {
                    Some("jpg".to_owned())
                } else {
                    Some(s)
                }
            },
            None => None,
        },
        None => None,
    }
}

/// The extension under which a file named `original_name` is stored, if
/// the name has a usable one. Whatever the platform takes for the name's
/// extension, the answer is what [`extension_for`] makes of it.
pub fn ext_from_original_name(original_name: &str) -> (r: Option<String>)
    ensures
        exists|ext: Option<Seq<char>>|
            crate::text::opt_view(r) == #[trigger] stored_extension(ext),
{
    let ext = path_extension(original_name);
    let ghost witness = crate::text::opt_view(ext);
    let r = extension_for(ext);
    assert(crate::text::opt_view(r) == stored_extension(witness));
    r
}

/// The extension for an image type, where the type is one of the known ones.
pub open spec fn mime_extension(mime_type: Seq<char>) -> Option<Seq<char>> {
    let mt = unicode_lower(trimmed(mime_type));
    if mt == "image/jpeg"@ {
        Some("jpg"@)
    } else if mt == "image/png"@ {
        Some("png"@)
    } else if mt == "image/webp"@ {
        Some("webp"@)
    } else if mt == "image/gif"@ {
        Some("gif"@)
    } else if mt == "image/bmp"@ {
        Some("bmp"@)
    } else if mt == "image/avif"@ {
        Some("avif"@)
    } else {
        None
    }
}

/// The extension for an image type.
pub fn ext_from_mime_type(mime_type: &str) -> (r: Option<String>)
    ensures
        crate::text::opt_view(r) == mime_extension(mime_type@),
{
    let t = trim(mime_type);
    let mt = unicode_lowercase(t.as_str());
    let m = mt.as_str();
    if text_eq(m, "image/jpeg") {
        Some("jpg".to_owned())
    } else if text_eq(m, "image/png") {
        Some("png".to_owned())
    } else if text_eq(m, "image/webp") {
        Some("webp".to_owned())
    } else if text_eq(m, "image/gif") {
        Some("gif".to_owned())
    } else if text_eq(m, "image/bmp") {
        Some("bmp".to_owned())
    } else if text_eq(m, "image/avif") {
        Some("avif".to_owned())
    } else {
        None
    }
}

/// The id made of a prefix and a time in milliseconds.
pub open spec fn local_id_text(prefix: Seq<char>, millis: u128) -> Seq<char> {
    prefix + "_"@ + decimal(millis as nat)
}

/// The id made of a prefix and a time in milliseconds.
pub fn local_id(prefix: &str, millis: u128) -> (id: String)
    ensures
        id@ == local_id_text(prefix@, millis),
{
    let digits = decimal_text(millis);
    concat3(prefix, "_", digits.as_str())
}

/// `SystemTime::now` and `SystemTime::duration_since` the Unix epoch, in
/// milliseconds; nothing for a clock set before the epoch. Nothing is
/// stated of a reading of the clock.
#[verifier::external_body]
pub(crate) fn unix_millis() -> Option<u128> {
    std::time::SystemTime::now().duration_since(std::time::UNIX_EPOCH).ok().map(|d| d.as_millis())
}

/// The time that an id is made of: the reading of the clock, and 0 where
/// the clock gave none.
pub fn id_millis(reading: Option<u128>) -> (millis: u128)
    ensures
        millis == match reading {
            Some(m) => m,
            None => 0,
        },
{
    match reading {
        Some(m) => m,
        None => 0,
    }
}

/// A fresh id: the prefix and the time of the call in milliseconds.
pub fn generate_local_id(prefix: &str) -> (id: String)
    ensures
        exists|millis: u128| id@ == #[trigger] local_id_text(prefix@, millis),
{
    let millis = id_millis(unix_millis());
    let id = local_id(prefix, millis);
    assert(id@ == local_id_text(prefix@, millis));
    id
}

/// A component of a path.
#[derive(Clone, Copy, Debug, PartialEq, Eq, Structural)]
pub enum PathPart {
    Prefix,
    RootDir,
    CurDir,
    ParentDir,
    Normal,
}

/// Whether a component leads out of the directory a path starts in.
pub open spec fn escapes(part: PathPart) -> bool {
    part == PathPart::ParentDir || part == PathPart::RootDir || part == PathPart::Prefix
}

/// Whether a path of these components stays inside the directory it is
/// resolved in: none of them is a prefix, the root or the parent directory.
pub fn ensure_relative_path_no_escape(parts: &Vec<PathPart>) -> (r: bool)
    ensures
        r == forall|i: int| 0 <= i < parts.len() ==> !escapes(#[trigger] parts@[i]),
{
    let mut i: usize = 0;
    while i < parts.len()
        invariant
            i <= parts.len(),
            forall|j: int| 0 <= j < i ==> !escapes(#[trigger] parts@[j]),
        decreases parts.len() - i,
    {
        match parts[i] {
            PathPart::ParentDir | PathPart::RootDir | PathPart::Prefix => {
                return false;
            },
            _ => {},
        }
        i += 1;
    }
    true
}

impl Clone for LocalWallpaper {
    fn clone(&self) -> (r: LocalWallpaper)
        ensures
            r == *self,
    {
        LocalWallpaper {
            id: self.id.clone(),
            original_name: self.original_name.clone(),
            url: self.url.clone(),
            mime_type: self.mime_type.clone(),
            size: self.size,
            description: self.description.clone(),
            created_at: self.created_at.clone(),
            updated_at: self.updated_at.clone(),
            is_current: self.is_current,
            source: self.source.clone(),
        }
    }
}

/// Whether `a` comes before `b` in the order of their characters, read
/// from index `i` on; the texts agree before `i`.
pub open spec fn before_from(a: Seq<char>, b: Seq<char>, i: int) -> bool
    decreases b.len() - i,
{
    if i < 0 || i >= b.len() {
        false
    } else if i >= a.len() {
        true
    } else if a[i] != b[i] {
        a[i] < b[i]
    } else {
        before_from(a, b, i + 1)
    }
}

/// Whether `a` comes before `b` in the order of their characters.
pub open spec fn text_before(a: Seq<char>, b: Seq<char>) -> bool {
    before_from(a, b, 0)
}

/// Whether `a` comes before `b` in the order of their characters.
pub fn is_before(a: &str, b: &str) -> (r: bool)
    ensures
        r == text_before(a@, b@),
{
    let x = chars_of(a);
    let y = chars_of(b);
    let mut i: usize = 0;
    while i < x.len() && i < y.len() && x[i] == y[i]
        invariant
            x@ == a@,
            y@ == b@,
            i <= x.len(),
            i <= y.len(),
            before_from(a@, b@, i as int) == text_before(a@, b@),
        decreases y.len() - i,
    {
        i += 1;
    }
    if i >= y.len() {
        false
    } else if i >= x.len() {
        true
    } else {
        x[i] < y[i]
    }
}

proof fn lemma_before_chain(a: Seq<char>, b: Seq<char>, c: Seq<char>, i: int)
    requires
        0 <= i,
        before_from(a, b, i),
        before_from(b, c, i),
    ensures
        before_from(a, c, i),
    decreases c.len() - i,
{
    if i < a.len() && i < b.len() && i < c.len() && a[i] == b[i] && b[i] == c[i] {
        lemma_before_chain(a, b, c, i + 1);
    }
}

proof fn lemma_before_irreflexive(a: Seq<char>, i: int)
    requires
        0 <= i,
    ensures
        !before_from(a, a, i),
    decreases a.len() - i,
{
    if i < a.len() {
        lemma_before_irreflexive(a, i + 1);
    }
}

/// The order of texts is strict: nothing comes before itself, and what
/// comes before a text comes before all that the text comes before.
pub proof fn lemma_text_order(a: Seq<char>, b: Seq<char>, c: Seq<char>)
    ensures
        !text_before(a, a),
        text_before(a, b) && text_before(b, c) ==> text_before(a, c),
{
    lemma_before_irreflexive(a, 0);
    if text_before(a, b) && text_before(b, c) {
        lemma_before_chain(a, b, c, 0);
    }
}

/// The wallpapers of `list` that were created at `at`, in order.
pub open spec fn created_at(list: Seq<LocalWallpaper>, at: Seq<char>) -> Seq<LocalWallpaper>
    decreases list.len(),
{
    if list.len() == 0 {
        Seq::empty()
    } else if list.last().created_at@ == at {
        created_at(list.drop_last(), at).push(list.last())
    } else {
        created_at(list.drop_last(), at)
    }
}

/// No wallpaper stands before one that was created later.
pub open spec fn newest_first(list: Seq<LocalWallpaper>) -> bool {
    forall|i: int, j: int|
        0 <= i < j < list.len() ==> !text_before(
            (#[trigger] list[i]).created_at@,
            (#[trigger] list[j]).created_at@,
        )
}

proof fn lemma_created_at_concat(a: Seq<LocalWallpaper>, b: Seq<LocalWallpaper>, at: Seq<char>)
    ensures
        created_at(a + b, at) == created_at(a, at) + created_at(b, at),
    decreases b.len(),
{
    if b.len() == 0 {
        assert(a + b =~= a);
        assert(created_at(a, at) + created_at(b, at) =~= created_at(a, at));
    } else {
        lemma_created_at_concat(a, b.drop_last(), at);
        assert((a + b).drop_last() =~= a + b.drop_last());
        assert((a + b).last() == b.last());
        assert(created_at(a + b, at) =~= created_at(a, at) + created_at(b, at));
    }
}

proof fn lemma_created_at_one(x: LocalWallpaper, at: Seq<char>)
    ensures
        created_at(seq![x], at) == if x.created_at@ == at {
            seq![x]
        } else {
            Seq::<LocalWallpaper>::empty()
        },
{
    let one = seq![x];
    assert(one.last() == x);
    assert(one.drop_last() =~= Seq::<LocalWallpaper>::empty());
    assert(created_at(one.drop_last(), at) == Seq::<LocalWallpaper>::empty());
    assert(Seq::<LocalWallpaper>::empty().push(x) =~= seq![x]);
}

proof fn lemma_created_at_none(list: Seq<LocalWallpaper>, at: Seq<char>)
    requires
        forall|i: int| 0 <= i < list.len() ==> (#[trigger] list[i]).created_at@ != at,
    ensures
        created_at(list, at) == Seq::<LocalWallpaper>::empty(),
    decreases list.len(),
{
    if list.len() > 0 {
        assert(list.last() == list[list.len() - 1]);
        assert forall|i: int| 0 <= i < list.drop_last().len() implies (#[trigger] list.drop_last()[i]).created_at@
            != at by {
            assert(list.drop_last()[i] == list[i]);
        }
        lemma_created_at_none(list.drop_last(), at);
    }
}

/// Orders the wallpapers by the time of their creation, the newest first.
/// Wallpapers created at the same time keep their order.
pub fn sort_wallpapers_desc(wallpapers: &mut Vec<LocalWallpaper>)
    ensures
        final(wallpapers)@.len() == old(wallpapers)@.len(),
        newest_first(final(wallpapers)@),
        forall|at: Seq<char>|
            #[trigger] created_at(final(wallpapers)@, at) == created_at(old(wallpapers)@, at),
{
    let mut out: Vec<LocalWallpaper> = Vec::new();
    let mut i: usize = 0;
    let ghost input = wallpapers@;
    proof {
        assert(input.take(0) =~= Seq::<LocalWallpaper>::empty());
    }
    while i < wallpapers.len()
        invariant
            i <= wallpapers.len(),
            wallpapers@ == input,
            out@.len() == i,
            newest_first(out@),
            forall|at: Seq<char>| #[trigger] created_at(out@, at) == created_at(input.take(i as int), at),
        decreases wallpapers.len() - i,
    {
        let x = wallpapers[i].clone();
        let mut pos: usize = 0;
        while pos < out.len() && !is_before(out[pos].created_at.as_str(), x.created_at.as_str())
            invariant
                pos <= out.len(),
                forall|m: int|
                    0 <= m < pos ==> !text_before(
                        (#[trigger] out@[m]).created_at@,
                        x.created_at@,
                    ),
            decreases out.len() - pos,
        {
            pos += 1;
        }
        let ghost before = out@;
        out.insert(pos, x);
        proof {
            let head = before.subrange(0, pos as int);
            let tail = before.subrange(pos as int, before.len() as int);
            assert(before =~= head + tail);
            assert(out@ =~= head + seq![x] + tail);
            // every wallpaper after the new one was created earlier than it
            assert forall|m: int| 0 <= m < tail.len() implies text_before(
                (#[trigger] tail[m]).created_at@,
                x.created_at@,
            ) by {
                assert(tail[m] == before[pos + m]);
                let p = before[pos as int].created_at@;
                let f = before[pos + m].created_at@;
                if m > 0 {
                    assert(!text_before(p, f));
                    lemma_before_total(p, f, x.created_at@);
                }
            }
            assert forall|a: int, b: int| 0 <= a < b < out@.len() implies !text_before(
                (#[trigger] out@[a]).created_at@,
                (#[trigger] out@[b]).created_at@,
            ) by {
                let ea = if a < pos { before[a] } else if a == pos { x } else { before[a - 1] };
                let eb = if b < pos { before[b] } else if b == pos { x } else { before[b - 1] };
                assert(out@[a] == ea && out@[b] == eb);
                if a == pos {
                    assert(eb == tail[b - 1 - pos]);
                    lemma_text_order(eb.created_at@, x.created_at@, eb.created_at@);
                }
            }
            assert(input.take(i + 1) =~= input.take(i as int).push(input[i as int]));
            assert(input.take(i + 1).drop_last() =~= input.take(i as int));
            assert forall|at: Seq<char>| #[trigger]
                created_at(out@, at) == created_at(input.take(i + 1), at) by {
                lemma_created_at_concat(head + seq![x], tail, at);
                lemma_created_at_concat(head, seq![x], at);
                lemma_created_at_concat(head, tail, at);
                lemma_created_at_one(x, at);
                assert(created_at(before, at) == created_at(input.take(i as int), at));
                if x.created_at@ == at {
                    assert forall|m: int| 0 <= m < tail.len() implies (#[trigger] tail[m]).created_at@
                        != at by {
                        lemma_text_order(tail[m].created_at@, x.created_at@, x.created_at@);
                    }
                    lemma_created_at_none(tail, at);
                    assert(created_at(seq![x], at) =~= seq![x]);
                    assert(created_at(out@, at) =~= created_at(head, at).push(x));
                    assert(created_at(before, at) =~= created_at(head, at));
                } else {
                    assert(created_at(seq![x], at) =~= Seq::<LocalWallpaper>::empty());
                    assert(created_at(out@, at) =~= created_at(head, at) + created_at(tail, at));
                }
            }
        }
        i += 1;
    }
    proof {
        assert(input.take(i as int) =~= input);
    }
    *wallpapers = out;
}

/// Of three texts, where the first does not come before the second and
/// comes before the third, the second comes before the third.
proof fn lemma_before_total(p: Seq<char>, f: Seq<char>, x: Seq<char>)
    requires
        !text_before(p, f),
        text_before(p, x),
    ensures
        text_before(f, x),
{
    lemma_before_total_from(p, f, x, 0);
}

proof fn lemma_before_total_from(p: Seq<char>, f: Seq<char>, x: Seq<char>, i: int)
    requires
        0 <= i,
        !before_from(p, f, i),
        before_from(p, x, i),
    ensures
        before_from(f, x, i),
    decreases x.len() - i,
{
    if i < p.len() && i < f.len() && i < x.len() && p[i] == f[i] && p[i] == x[i] {
        lemma_before_total_from(p, f, x, i + 1);
    } else if i < p.len() && i < f.len() && i < x.len() {
        if p[i] != f[i] {
            assert(f[i] < p[i]);
        }
    }
}

/// `Path::components`, each component told by its kind. Where one
/// component ends and the next begins is for the platform to say, so
/// nothing is stated of the answer.
#[verifier::external_body]
pub(crate) fn path_parts(path: &str) -> Vec<PathPart> {
    std::path::Path::new(path).components().map(|part| match part {
        std::path::Component::Prefix(_) => PathPart::Prefix,
        std::path::Component::RootDir => PathPart::RootDir,
        std::path::Component::CurDir => PathPart::CurDir,
        std::path::Component::ParentDir => PathPart::ParentDir,
        std::path::Component::Normal(_) => PathPart::Normal,
    }).collect()
}

/// The extension of the file that keeps an image: that of its name where
/// it has a usable one, else that of its type, else `img`.
pub open spec fn image_extension(from_name: Option<Seq<char>>, mime_type: Seq<char>) -> Seq<char> {
    match from_name {
        Some(ext) => ext,
        None => match mime_extension(mime_type) {
            Some(ext) => ext,
            None => "img"@,
        },
    }
}

/// The name of the file that keeps the image of the wallpaper `id`.
pub fn file_name_for(id: &str, from_name: Option<String>, mime_type: &str) -> (name: String)
    ensures
        name@ == id@ + "."@ + image_extension(crate::text::opt_view(from_name), mime_type@),
{
    let ext = match from_name {
        Some(ext) => ext,
        None => match ext_from_mime_type(mime_type) {
            Some(ext) => ext,
            None => "img".to_owned(),
        },
    };
    concat3(id, ".", ext.as_str())
}

/// The name of the file that keeps the image of the wallpaper `id`, or why
/// there is none: a blank id, or a name that would leave the directory of
/// the images. Whatever the platform takes for the extension of
/// `original_name`, the name is what [`file_name_for`] makes of it.
pub fn wallpaper_file_name(id: &str, original_name: &str, mime_type: &str) -> (r: Result<
    String,
    String,
>)
    ensures
        trimmed(id@).len() == 0 ==> r is Err && r->Err_0@ == "wallpaper id is empty"@,
        match r {
            Ok(name) => trimmed(id@).len() > 0 && exists|ext: Option<Seq<char>>|
                name@ == id@ + "."@ + image_extension(#[trigger] stored_extension(ext), mime_type@),
            Err(e) => e@ == "wallpaper id is empty"@ || (trimmed(id@).len() > 0 && e@
                == "invalid wallpaper file name"@),
        },
{
    if trim(id).as_str().is_empty() {
        return Err("wallpaper id is empty".to_owned());
    }
    let raw = path_extension(original_name);
    let ghost ext = crate::text::opt_view(raw);
    let from_name = extension_for(raw);
    let name = file_name_for(id, from_name, mime_type);
    let parts = path_parts(name.as_str());
    if !ensure_relative_path_no_escape(&parts) {
        return Err("invalid wallpaper file name".to_owned());
    }
    assert(name@ == id@ + "."@ + image_extension(stored_extension(ext), mime_type@));
    Ok(name)
}

/// The directory that holds the local data where the configuration names
/// one: the trimmed name; nothing for a missing or blank name.
pub fn custom_data_dir(configured: Option<String>) -> (r: Option<String>)
    ensures
        crate::text::opt_view(r) == match configured {
            Some(raw) => if trimmed(raw@).len() == 0 {
                None
            } else {
                Some(trimmed(raw@))
            },
            None => None,
        },
{
    match configured {
        Some(raw) => {
            let t = trim(raw.as_str());
            if t.as_str().is_empty() {
                None
            } else {
                Some(t)
            }
        },
        None => None,
    }
}

/// Whether a wallpaper's address names a file: it is neither blank nor a
/// `data:` URL once trimmed.
pub fn names_a_file(url: &str) -> (r: bool)
    ensures
        r == (trimmed(url@).len() > 0 && !crate::text::has_prefix(trimmed(url@), "data:"@)),
{
    let raw = trim(url);
    !raw.as_str().is_empty() && !crate::text::starts_with(raw.as_str(), "data:")
}

/// The media type under which an image decoded from a `data:` URL is
/// kept: the recorded one, or the decoded one where none is recorded.
pub fn migrated_mime_type(recorded: &str, decoded: String) -> (r: String)
    ensures
        r@ == if trimmed(recorded@).len() == 0 {
            decoded@
        } else {
            recorded@
        },
{
    if trim(recorded).as_str().is_empty() {
        decoded
    } else {
        recorded.to_owned()
    }
}

} // verus!
