//! Named transparency settings and theme presets: how the lists change
//! when an entry is saved or deleted.

use crate::local_data::{
    capped, normalize_transparency_value, ThemePreset, TransparencyConfigRecord, TransparencyValue,
};
use crate::text::{text_eq, trim, trimmed};
use vstd::prelude::*;

verus! {

/// Why a setting was not saved.
#[derive(Clone, Copy, Debug, PartialEq, Eq, Structural)]
pub enum SettingsError {
    /// The name of a transparency setting is blank.
    EmptyConfigName,
    /// The id of a preset is blank.
    EmptyPresetId,
    /// The name of a preset is blank.
    EmptyPresetName,
}

impl SettingsError {
    /// The message shown to the caller.
    pub open spec fn text(self) -> Seq<char> {
        match self {
            SettingsError::EmptyConfigName => "config name is empty"@,
            SettingsError::EmptyPresetId => "id is empty"@,
            SettingsError::EmptyPresetName => "name is empty"@,
        }
    }

    /// The message shown to the caller.
    pub fn message(&self) -> (m: String)
        ensures
            m@ == self.text(),
    {
        match self {
            SettingsError::EmptyConfigName => "config name is empty".to_owned(),
            SettingsError::EmptyPresetId => "id is empty".to_owned(),
            SettingsError::EmptyPresetName => "name is empty".to_owned(),
        }
    }
}

/// The transparency settings as they are kept on disk.
pub struct TransparencyFile {
    pub version: u32,
    pub current: Option<TransparencyValue>,
    pub configs: Vec<TransparencyConfigRecord>,
}

/// The theme presets as they are kept on disk.
pub struct ThemePresetsFile {
    pub version: u32,
    pub presets: Vec<ThemePreset>,
}

impl Default for TransparencyFile {
    fn default() -> (file: TransparencyFile)
        ensures
            file.version == 1,
            file.current is None,
            file.configs@.len() == 0,
    {
        TransparencyFile { version: 1, current: None, configs: Vec::new() }
    }
}

impl Default for ThemePresetsFile {
    fn default() -> (file: ThemePresetsFile)
        ensures
            file.version == 1,
            file.presets@.len() == 0,
    {
        ThemePresetsFile { version: 1, presets: Vec::new() }
    }
}

impl Clone for TransparencyConfigRecord {
    fn clone(&self) -> (r: TransparencyConfigRecord)
        ensures
            r == *self,
    {
        TransparencyConfigRecord {
            name: self.name.clone(),
            description: self.description.clone(),
            transparency: self.transparency,
            created_at: self.created_at.clone(),
            updated_at: self.updated_at.clone(),
        }
    }
}

impl Clone for ThemePreset {
    fn clone(&self) -> (r: ThemePreset)
        ensures
            r == *self,
    {
        ThemePreset {
            id: self.id.clone(),
            name: self.name.clone(),
            created_at: self.created_at.clone(),
            payload: self.payload.clone(),
        }
    }
}

/// The value with each part capped at 100 percent.
pub open spec fn capped_value(v: TransparencyValue) -> TransparencyValue {
    TransparencyValue {
        cards: capped(v.cards),
        sidebar: capped(v.sidebar),
        app_bar: capped(v.app_bar),
    }
}

/// The index of the first setting at or after `i` with the name `name`, or
/// the length of the list.
pub open spec fn index_of_name(list: Seq<TransparencyConfigRecord>, name: Seq<char>, i: int) -> int
    decreases list.len() - i,
{
    if i < 0 || i >= list.len() {
        list.len() as int
    } else if list[i].name@ == name {
        i
    } else {
        index_of_name(list, name, i + 1)
    }
}

/// The settings of a list whose name is not `name`, in order.
pub open spec fn without_name(list: Seq<TransparencyConfigRecord>, name: Seq<char>) -> Seq<
    TransparencyConfigRecord,
>
    decreases list.len(),
{
    if list.len() == 0 {
        Seq::empty()
    } else if list.last().name@ == name {
        without_name(list.drop_last(), name)
    } else {
        without_name(list.drop_last(), name).push(list.last())
    }
}

/// The index of the first preset at or after `i` with the id `id`, or the
/// length of the list.
pub open spec fn index_of_preset(list: Seq<ThemePreset>, id: Seq<char>, i: int) -> int
    decreases list.len() - i,
{
    if i < 0 || i >= list.len() {
        list.len() as int
    } else if list[i].id@ == id {
        i
    } else {
        index_of_preset(list, id, i + 1)
    }
}

/// The presets of a list whose id is not `id`, in order.
pub open spec fn without_preset(list: Seq<ThemePreset>, id: Seq<char>) -> Seq<ThemePreset>
    decreases list.len(),
{
    if list.len() == 0 {
        Seq::empty()
    } else if list.last().id@ == id {
        without_preset(list.drop_last(), id)
    } else {
        without_preset(list.drop_last(), id).push(list.last())
    }
}

fn position_of_name(list: &Vec<TransparencyConfigRecord>, name: &str) -> (r: usize)
    ensures
        r == index_of_name(list@, name@, 0),
        r <= list.len(),
        r < list.len() ==> list@[r as int].name@ == name@,
{
    let mut i: usize = 0;
    while i < list.len() && !text_eq(list[i].name.as_str(), name)
        invariant
            i <= list.len(),
            index_of_name(list@, name@, i as int) == index_of_name(list@, name@, 0),
        decreases list.len() - i,
    {
        i += 1;
    }
    i
}

fn position_of_preset(list: &Vec<ThemePreset>, id: &str) -> (r: usize)
    ensures
        r == index_of_preset(list@, id@, 0),
        r <= list.len(),
        r < list.len() ==> list@[r as int].id@ == id@,
{
    let mut i: usize = 0;
    while i < list.len() && !text_eq(list[i].id.as_str(), id)
        invariant
            i <= list.len(),
            index_of_preset(list@, id@, i as int) == index_of_preset(list@, id@, 0),
        decreases list.len() - i,
    {
        i += 1;
    }
    i
}

/// Caps every value of the file at 100 percent, as is done when it is read.
pub fn normalize_transparency_file(file: &mut TransparencyFile)
    ensures
        final(file).version == old(file).version,
        final(file).current == match old(file).current {
            Some(v) => Some(capped_value(v)),
            None => None,
        },
        final(file).configs@.len() == old(file).configs@.len(),
        forall|i: int|
            0 <= i < old(file).configs@.len() ==> {
                let before = old(file).configs@[i];
                let after = #[trigger] final(file).configs@[i];
                &&& after.name == before.name
                &&& after.description == before.description
                &&& after.created_at == before.created_at
                &&& after.updated_at == before.updated_at
                &&& after.transparency == capped_value(before.transparency)
            },
{
    file.current = match file.current {
        Some(v) => Some(normalize_transparency_value(v)),
        None => None,
    };
    let ghost list = file.configs@;
    let mut out: Vec<TransparencyConfigRecord> = Vec::new();
    let mut i: usize = 0;
    while i < file.configs.len()
        invariant
            i <= file.configs.len(),
            file.configs@ == list,
            out@.len() == i,
            forall|j: int|
                0 <= j < i ==> {
                    let after = #[trigger] out@[j];
                    &&& after.name == list[j].name
                    &&& after.description == list[j].description
                    &&& after.created_at == list[j].created_at
                    &&& after.updated_at == list[j].updated_at
                    &&& after.transparency == capped_value(list[j].transparency)
                },
        decreases file.configs.len() - i,
    {
        let r = &file.configs[i];
        out.push(
            TransparencyConfigRecord {
                name: r.name.clone(),
                description: r.description.clone(),
                transparency: normalize_transparency_value(r.transparency),
                created_at: r.created_at.clone(),
                updated_at: r.updated_at.clone(),
            },
        );
        i += 1;
    }
    file.configs = out;
}

/// The setting named `name` once trimmed, if there is one; nothing for a
/// blank name.
pub fn pdh_transparency_get_config(file: &TransparencyFile, name: &str) -> (r: Option<
    TransparencyConfigRecord,
>)
    ensures
        r == if trimmed(name@).len() > 0 && index_of_name(file.configs@, trimmed(name@), 0)
            < file.configs@.len() {
            Some(file.configs@[index_of_name(file.configs@, trimmed(name@), 0)])
        } else {
            None
        },
{
    let target = trim(name);
    if target.as_str().is_empty() {
        return None;
    }
    let i = position_of_name(&file.configs, target.as_str());
    if i < file.configs.len() {
        Some(file.configs[i].clone())
    } else {
        None
    }
}

/// Saves a setting under its trimmed name. The first setting of that name
/// gets the new description, value and time of change and keeps its place
/// and its time of creation; where there is none, the setting is added at
/// the end. The answer is the setting as it is kept. A blank name is refused.
pub fn pdh_transparency_save_config(
    file: &mut TransparencyFile,
    name: &str,
    description: &str,
    transparency: TransparencyValue,
    created_at: String,
    updated_at: String,
) -> (r: Result<TransparencyConfigRecord, SettingsError>)
    ensures
        final(file).version == old(file).version,
        final(file).current == old(file).current,
        match r {
            Err(e) => e == SettingsError::EmptyConfigName && trimmed(name@).len() == 0
                && final(file).configs@ == old(file).configs@,
            Ok(kept) => {
                let list = old(file).configs@;
                let at = index_of_name(list, trimmed(name@), 0);
                &&& trimmed(name@).len() > 0
                &&& kept.name@ == trimmed(name@)
                &&& kept.description@ == trimmed(description@)
                &&& kept.transparency == capped_value(transparency)
                &&& kept.updated_at@ == updated_at@
                &&& if at < list.len() {
                    kept.name == list[at].name && kept.created_at == list[at].created_at
                        && final(file).configs@ == list.update(at, kept)
                } else {
                    kept.created_at@ == created_at@ && final(file).configs@ == list.push(kept)
                }
            },
        },
{
    let target = trim(name);
    if target.as_str().is_empty() {
        return Err(SettingsError::EmptyConfigName);
    }
    let normalized = normalize_transparency_value(transparency);
    let i = position_of_name(&file.configs, target.as_str());
    if i < file.configs.len() {
        let kept = TransparencyConfigRecord {
            name: file.configs[i].name.clone(),
            description: trim(description),
            transparency: normalized,
            created_at: file.configs[i].created_at.clone(),
            updated_at,
        };
        file.configs.set(i, kept.clone());
        Ok(kept)
    } else {
        let kept = TransparencyConfigRecord {
            name: target,
            description: trim(description),
            transparency: normalized,
            created_at,
            updated_at,
        };
        file.configs.push(kept.clone());
        Ok(kept)
    }
}

/// Deletes every setting named `name` once trimmed; a blank name deletes nothing.
pub fn pdh_transparency_delete_config(file: &mut TransparencyFile, name: &str)
    ensures
        final(file).version == old(file).version,
        final(file).current == old(file).current,
        final(file).configs@ == if trimmed(name@).len() == 0 {
            old(file).configs@
        } else {
            without_name(old(file).configs@, trimmed(name@))
        },
{
    let target = trim(name);
    if target.as_str().is_empty() {
        return ;
    }
    let ghost list = file.configs@;
    let mut out: Vec<TransparencyConfigRecord> = Vec::new();
    let mut i: usize = 0;
    proof {
        assert(list.take(0) =~= Seq::<TransparencyConfigRecord>::empty());
    }
    while i < file.configs.len()
        invariant
            i <= file.configs.len(),
            file.configs@ == list,
            out@ == without_name(list.take(i as int), target@),
        decreases file.configs.len() - i,
    {
        proof {
            assert(list.take(i + 1).drop_last() =~= list.take(i as int));
            assert(list.take(i + 1).last() == list[i as int]);
        }
        if !text_eq(file.configs[i].name.as_str(), target.as_str()) {
            out.push(file.configs[i].clone());
        }
        i += 1;
    }
    proof {
        assert(list.take(i as int) =~= list);
    }
    file.configs = out;
}

/// Saves a preset under its trimmed id. The first preset of that id is
/// replaced where it stands; where there is none, the preset is added at
/// the front. The answer is the preset as it is kept. A blank id and a
/// blank name are refused.
pub fn pdh_theme_presets_save(
    file: &mut ThemePresetsFile,
    id: &str,
    name: &str,
    created_at: &str,
    payload: serde_json::Value,
) -> (r: Result<ThemePreset, SettingsError>)
    ensures
        final(file).version == old(file).version,
        match r {
            Err(e) => {
                &&& final(file).presets@ == old(file).presets@
                &&& trimmed(id@).len() == 0 || trimmed(name@).len() == 0
                &&& e == if trimmed(id@).len() == 0 {
                    SettingsError::EmptyPresetId
                } else {
                    SettingsError::EmptyPresetName
                }
            },
            Ok(kept) => {
                let list = old(file).presets@;
                let at = index_of_preset(list, trimmed(id@), 0);
                &&& trimmed(id@).len() > 0
                &&& trimmed(name@).len() > 0
                &&& kept.id@ == trimmed(id@)
                &&& kept.name@ == trimmed(name@)
                &&& kept.created_at@ == trimmed(created_at@)
                &&& kept.payload == payload
                &&& final(file).presets@ == if at < list.len() {
                    list.update(at, kept)
                } else {
                    list.insert(0, kept)
                }
            },
        },
{
    let preset_id = trim(id);
    if preset_id.as_str().is_empty() {
        return Err(SettingsError::EmptyPresetId);
    }
    let preset_name = trim(name);
    if preset_name.as_str().is_empty() {
        return Err(SettingsError::EmptyPresetName);
    }
    let i = position_of_preset(&file.presets, preset_id.as_str());
    let kept = ThemePreset {
        id: preset_id,
        name: preset_name,
        created_at: trim(created_at),
        payload,
    };
    if i < file.presets.len() {
        file.presets.set(i, kept.clone());
    } else {
        file.presets.insert(0, kept.clone());
    }
    Ok(kept)
}

/// Deletes every preset with the id `id` once trimmed, and says whether
/// the list changed; a blank id deletes nothing.
pub fn pdh_theme_presets_delete(file: &mut ThemePresetsFile, id: &str) -> (changed: bool)
    ensures
        final(file).version == old(file).version,
        final(file).presets@ == if trimmed(id@).len() == 0 {
            old(file).presets@
        } else {
            without_preset(old(file).presets@, trimmed(id@))
        },
        changed == (final(file).presets@.len() != old(file).presets@.len()),
{
    let target = trim(id);
    if target.as_str().is_empty() {
        return false;
    }
    let ghost list = file.presets@;
    let before = file.presets.len();
    let mut out: Vec<ThemePreset> = Vec::new();
    let mut i: usize = 0;
    proof {
        assert(list.take(0) =~= Seq::<ThemePreset>::empty());
    }
    while i < file.presets.len()
        invariant
            i <= file.presets.len(),
            file.presets@ == list,
            out@ == without_preset(list.take(i as int), target@),
        decreases file.presets.len() - i,
    {
        proof {
            assert(list.take(i + 1).drop_last() =~= list.take(i as int));
            assert(list.take(i + 1).last() == list[i as int]);
        }
        if !text_eq(file.presets[i].id.as_str(), target.as_str()) {
            out.push(file.presets[i].clone());
        }
        i += 1;
    }
    proof {
        assert(list.take(i as int) =~= list);
    }
    let changed = out.len() != before;
    file.presets = out;
    changed
}

} // verus!
