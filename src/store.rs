//! The runtime store: configuration and session data that every host bridge
//! call reads. It is an ordinary value; the process that embeds the library
//! decides where it lives and how it is locked.

use vstd::prelude::*;
use crate::paths::{join_path, join_spec};

verus! {

/// Metadata of a track, as the playback side reports it.
#[derive(Clone, Debug)]
pub struct SongMetadata {
    pub title: String,
    pub artist: String,
    pub album: String,
    pub duration: u64,
    pub path: String,
    pub album_art: Option<Vec<u8>>,
    pub genre: String,
}

#[derive(Clone, Debug)]
pub struct ValueStore {
    pub music_folder: String,
    pub current_song: Option<SongMetadata>,
    pub plugins_enabled: bool,
    pub plugin_rw_dir: String,
    pub unsafe_apis: bool,
}

/// What a patch does to the current track.
#[derive(Clone, Debug)]
pub enum CurrentSongUpdate {
    NoChange,
    SetToNone,
    SetToSome(SongMetadata),
}

/// A partial patch of the store: `None` leaves a field as it is.
#[derive(Clone, Debug)]
pub struct ValueStoreUpdate {
    pub music_folder: Option<String>,
    pub current_song: CurrentSongUpdate,
    pub plugins_enabled: Option<bool>,
    pub plugin_rw_dir: Option<String>,
    pub unsafe_apis: Option<bool>,
}

/// Builder of a `ValueStoreUpdate`.
#[derive(Clone, Debug)]
pub struct ValueStoreUpdater {
    pub music_folder: Option<String>,
    pub current_song: CurrentSongUpdate,
    pub plugins_enabled: Option<bool>,
    pub plugin_rw_dir: Option<String>,
    pub unsafe_apis: Option<bool>,
}

/// A patch is accepted when each folder it names was found to be an existing
/// directory.
pub open spec fn update_accepted(u: ValueStoreUpdate, music_folder_is_dir: bool, rw_dir_is_dir: bool) -> bool {
    (u.music_folder is Some ==> music_folder_is_dir) && (u.plugin_rw_dir is Some ==> rw_dir_is_dir)
}

/// The store after an accepted patch.
pub open spec fn patched(s: ValueStore, u: ValueStoreUpdate) -> ValueStore {
    ValueStore {
        music_folder: match u.music_folder {
            Some(f) => f,
            None => s.music_folder,
        },
        current_song: match u.current_song {
            CurrentSongUpdate::NoChange => s.current_song,
            CurrentSongUpdate::SetToNone => None,
            CurrentSongUpdate::SetToSome(song) => Some(song),
        },
        plugins_enabled: match u.plugins_enabled {
            Some(b) => b,
            None => s.plugins_enabled,
        },
        plugin_rw_dir: match u.plugin_rw_dir {
            Some(f) => f,
            None => s.plugin_rw_dir,
        },
        unsafe_apis: match u.unsafe_apis {
            Some(b) => b,
            None => s.unsafe_apis,
        },
    }
}

/// A store is the initial one for `home`: music under `home/Music`, the jail
/// at `home/AdiDir`, extensions and unconfined operations switched off, no
/// track.
pub open spec fn is_initial_store(s: ValueStore, home: Seq<char>) -> bool {
    &&& s.music_folder@ == join_spec(home, seq!['M', 'u', 's', 'i', 'c'])
    &&& s.plugin_rw_dir@ == join_spec(home, seq!['A', 'd', 'i', 'D', 'i', 'r'])
    &&& s.current_song is None
    &&& !s.plugins_enabled
    &&& !s.unsafe_apis
}

impl ValueStore {
    /// The initial store for the given home directory.
    pub fn new(home: &str) -> (r: ValueStore)
        ensures
            is_initial_store(r, home@),
    {
        let music_folder = join_path(home, "Music");
        let plugin_rw_dir = join_path(home, "AdiDir");
        proof {
            reveal_strlit("Music");
            reveal_strlit("AdiDir");
            assert("Music"@ =~= seq!['M', 'u', 's', 'i', 'c']);
            assert("AdiDir"@ =~= seq!['A', 'd', 'i', 'D', 'i', 'r']);
        }
        ValueStore {
            music_folder,
            current_song: None,
            plugins_enabled: false,
            plugin_rw_dir,
            unsafe_apis: false,
        }
    }

    /// Sets the music folder when it was found to be an existing directory.
    pub fn update_music_folder(&mut self, folder: String, is_dir: bool) -> (r: Result<(), String>)
        ensures
            r is Ok <==> is_dir,
            is_dir ==> *final(self) == (ValueStore { music_folder: folder, ..*old(self) }),
            !is_dir ==> *final(self) == *old(self),
    {
        if is_dir {
            self.music_folder = folder;
            Ok(())
        } else {
            Err("The provided folder is not a folder or does not exist".to_string())
        }
    }

    /// Sets the jail directory when it was found to be an existing directory.
    pub fn update_plugin_rw_dir(&mut self, folder: String, is_dir: bool) -> (r: Result<(), String>)
        ensures
            r is Ok <==> is_dir,
            is_dir ==> *final(self) == (ValueStore { plugin_rw_dir: folder, ..*old(self) }),
            !is_dir ==> *final(self) == *old(self),
    {
        if is_dir {
            self.plugin_rw_dir = folder;
            Ok(())
        } else {
            Err("The provided folder is not a folder or does not exist".to_string())
        }
    }

    /// Applies a patch. The two flags say whether the folders that the patch
    /// names are existing directories; a patch that names one that is not is
    /// rejected as a whole and the store stays as it was.
    pub fn apply_update(
        &mut self,
        update: ValueStoreUpdate,
        music_folder_is_dir: bool,
        rw_dir_is_dir: bool,
    ) -> (r: Result<(), String>)
        ensures
            r is Ok <==> update_accepted(update, music_folder_is_dir, rw_dir_is_dir),
            r is Ok ==> *final(self) == patched(*old(self), update),
            r is Err ==> *final(self) == *old(self),
    {
        if update.music_folder.is_some() && !music_folder_is_dir {
            return Err("The provided folder is not a folder or does not exist".to_string());
        }
        if update.plugin_rw_dir.is_some() && !rw_dir_is_dir {
            return Err("The provided folder is not a folder or does not exist".to_string());
        }
        let ValueStoreUpdate { music_folder, current_song, plugins_enabled, plugin_rw_dir, unsafe_apis } =
            update;
        if let Some(folder) = music_folder {
            self.music_folder = folder;
        }
        if let Some(pen) = plugins_enabled {
            self.plugins_enabled = pen;
        }
        if let Some(folder) = plugin_rw_dir {
            self.plugin_rw_dir = folder;
        }
        if let Some(uapis) = unsafe_apis {
            self.unsafe_apis = uapis;
        }
        match current_song {
            CurrentSongUpdate::NoChange => {},
            CurrentSongUpdate::SetToNone => {
                self.current_song = None;
            },
            CurrentSongUpdate::SetToSome(song) => {
                self.current_song = Some(song);
            },
        }
        Ok(())
    }
}

impl ValueStoreUpdater {
    /// A builder that changes nothing.
    pub fn new() -> (r: ValueStoreUpdater)
        ensures
            r.music_folder is None,
            r.current_song is NoChange,
            r.plugins_enabled is None,
            r.plugin_rw_dir is None,
            r.unsafe_apis is None,
    {
        ValueStoreUpdater {
            music_folder: None,
            current_song: CurrentSongUpdate::NoChange,
            plugins_enabled: None,
            plugin_rw_dir: None,
            unsafe_apis: None,
        }
    }

    pub fn set_music_folder(&mut self, folder: String) -> (r: &mut ValueStoreUpdater)
        ensures
            *r == (ValueStoreUpdater { music_folder: Some(folder), ..*old(self) }),
            *final(self) == *final(r),
    {
        self.music_folder = Some(folder);
        self
    }

    pub fn set_plugins_enabled(&mut self, val: bool) -> (r: &mut ValueStoreUpdater)
        ensures
            *r == (ValueStoreUpdater { plugins_enabled: Some(val), ..*old(self) }),
            *final(self) == *final(r),
    {
        self.plugins_enabled = Some(val);
        self
    }

    pub fn set_plugin_rw_dir(&mut self, folder: String) -> (r: &mut ValueStoreUpdater)
        ensures
            *r == (ValueStoreUpdater { plugin_rw_dir: Some(folder), ..*old(self) }),
            *final(self) == *final(r),
    {
        self.plugin_rw_dir = Some(folder);
        self
    }

    pub fn set_unsafe_apis(&mut self, value: bool) -> (r: &mut ValueStoreUpdater)
        ensures
            *r == (ValueStoreUpdater { unsafe_apis: Some(value), ..*old(self) }),
            *final(self) == *final(r),
    {
        self.unsafe_apis = Some(value);
        self
    }

    pub fn set_current_song(&mut self, song: SongMetadata) -> (r: &mut ValueStoreUpdater)
        ensures
            *r == (ValueStoreUpdater { current_song: CurrentSongUpdate::SetToSome(song), ..*old(self) }),
            *final(self) == *final(r),
    {
        self.current_song = CurrentSongUpdate::SetToSome(song);
        self
    }

    pub fn clear_current_song(&mut self) -> (r: &mut ValueStoreUpdater)
        ensures
            *r == (ValueStoreUpdater { current_song: CurrentSongUpdate::SetToNone, ..*old(self) }),
            *final(self) == *final(r),
    {
        self.current_song = CurrentSongUpdate::SetToNone;
        self
    }

    /// The patch that this builder describes.
    pub fn to_update(self) -> (r: ValueStoreUpdate)
        ensures
            r == (ValueStoreUpdate {
                music_folder: self.music_folder,
                current_song: self.current_song,
                plugins_enabled: self.plugins_enabled,
                plugin_rw_dir: self.plugin_rw_dir,
                unsafe_apis: self.unsafe_apis,
            }),
    {
        ValueStoreUpdate {
            music_folder: self.music_folder,
            current_song: self.current_song,
            plugins_enabled: self.plugins_enabled,
            plugin_rw_dir: self.plugin_rw_dir,
            unsafe_apis: self.unsafe_apis,
        }
    }

    /// Applies the patch to the store in `slot` (see `update_value_store`).
    pub fn apply(
        self,
        slot: &mut Option<ValueStore>,
        music_folder_is_dir: bool,
        rw_dir_is_dir: bool,
    ) -> (r: Result<(), String>)
        ensures
            r is Ok <==> (*old(slot)) is Some && update_accepted(self.view_update(), music_folder_is_dir, rw_dir_is_dir),
            r is Ok ==> *final(slot) == Some(patched((*old(slot))->0, self.view_update())),
            r is Err ==> *final(slot) == *old(slot),
    {
        let update = self.to_update();
        update_value_store(slot, update, music_folder_is_dir, rw_dir_is_dir)
    }

    pub open spec fn view_update(self) -> ValueStoreUpdate {
        ValueStoreUpdate {
            music_folder: self.music_folder,
            current_song: self.current_song,
            plugins_enabled: self.plugins_enabled,
            plugin_rw_dir: self.plugin_rw_dir,
            unsafe_apis: self.unsafe_apis,
        }
    }
}

/// Puts the initial store for `home` into `slot`.
pub fn init_value_store(slot: &mut Option<ValueStore>, home: &str) -> (r: Result<(), String>)
    ensures
        r is Ok,
        (*final(slot)) is Some,
        is_initial_store((*final(slot))->0, home@),
{
    *slot = Some(ValueStore::new(home));
    Ok(())
}

/// Whether the store has been initialised.
pub fn check_value_store_state(slot: &Option<ValueStore>) -> (r: bool)
    ensures
        r == slot is Some,
{
    slot.is_some()
}

/// Applies a patch to the store in `slot`; fails, changing nothing, when there
/// is no store or when the patch is rejected.
pub fn update_value_store(
    slot: &mut Option<ValueStore>,
    update: ValueStoreUpdate,
    music_folder_is_dir: bool,
    rw_dir_is_dir: bool,
) -> (r: Result<(), String>)
    ensures
        r is Ok <==> (*old(slot)) is Some && update_accepted(update, music_folder_is_dir, rw_dir_is_dir),
        r is Ok ==> *final(slot) == Some(patched((*old(slot))->0, update)),
        r is Err ==> *final(slot) == *old(slot),
{
    match slot {
        None => Err("The VALUE_STORE is None".to_string()),
        Some(store) => store.apply_update(update, music_folder_is_dir, rw_dir_is_dir),
    }
}

/// A builder for a patch of the store.
pub fn update_store() -> (r: ValueStoreUpdater)
    ensures
        r.music_folder is None,
        r.current_song is NoChange,
        r.plugins_enabled is None,
        r.plugin_rw_dir is None,
        r.unsafe_apis is None,
{
    ValueStoreUpdater::new()
}

} // verus!
