//! Hot-reload bookkeeping for element textures: which files back which
//! textures, when each was last modified, and which need reloading when
//! fresh modification times come in. Reading the times and re-uploading
//! the textures is the surrounding program's job.

use vstd::prelude::*;

use crate::file_utils::Ms;

verus! {

/// One tracked texture: the file that backs it and the modification time
/// it was loaded at.
#[derive(Debug)]
pub struct TextureData {
    pub path: String,
    pub modified_time: Ms,
}

impl TextureData {
    /// A tracked texture.
    pub fn new(path: String, modified_time: Ms) -> (r: Self)
        ensures
            r.path == path,
            r.modified_time == modified_time,
    {
        Self { path, modified_time }
    }
}

/// The textures the reloader watches.
#[derive(Debug)]
pub struct TextureReloader {
    pub textures: Vec<TextureData>,
}

impl TextureReloader {
    /// A reloader watching nothing.
    pub fn new() -> (r: Self)
        ensures
            r.textures@.len() == 0,
    {
        Self { textures: Vec::new() }
    }

    /// Starts watching a texture backed by the given file.
    pub fn add_texture(&mut self, path: String, modified_time: Ms)
        ensures
            final(self).textures@ == old(self).textures@.push(
                TextureData { path, modified_time },
            ),
    {
        self.textures.push(TextureData::new(path, modified_time));
    }

    /// Decides which textures need a reload, given one fresh modification
    /// time per tracked texture (`None` when the file could not be read).
    /// An entry with a fresh time takes it and is marked for reload
    /// exactly when the time changed; an entry without one is untouched
    /// and not marked.
    pub fn needs_reload(&mut self, new_times: &Vec<Option<Ms>>) -> (r: Vec<bool>)
        requires
            new_times@.len() == old(self).textures@.len(),
        ensures
            r@.len() == old(self).textures@.len(),
            final(self).textures@.len() == old(self).textures@.len(),
            forall|j: int|
                0 <= j < new_times@.len() ==> match #[trigger] new_times@[j] {
                    Some(t) => final(self).textures@[j].path == old(self).textures@[j].path
                        && final(self).textures@[j].modified_time == t && r@[j] == (t != old(
                        self,
                    ).textures@[j].modified_time),
                    None => final(self).textures@[j] == old(self).textures@[j] && r@[j] == false,
                },
    {
        let ghost pre = self.textures@;
        let n = self.textures.len();
        let mut out: Vec<bool> = Vec::new();
        let mut i: usize = 0;
        while i < n
            invariant
                n == pre.len(),
                n == new_times@.len(),
                self.textures@.len() == n,
                0 <= i <= n,
                out@.len() == i,
                forall|j: int| i <= j < n ==> (#[trigger] self.textures@[j]) == pre[j],
                forall|j: int|
                    0 <= j < i ==> match #[trigger] new_times@[j] {
                        Some(t) => self.textures@[j].path == pre[j].path
                            && self.textures@[j].modified_time == t && out@[j] == (t
                            != pre[j].modified_time),
                        None => self.textures@[j] == pre[j] && out@[j] == false,
                    },
            decreases n - i,
        {
            let ghost out0 = out@;
            let ghost tex0 = self.textures@;
            let push_val: bool;
            match new_times[i] {
                Some(t) => {
                    let changed = t.0 != self.textures[i].modified_time.0;
                    let old_path = self.textures[i].path.clone();
                    self.textures[i] = TextureData::new(old_path, t);
                    push_val = changed;
                },
                None => {
                    push_val = false;
                },
            }
            out.push(push_val);
            proof {
                assert(forall|j: int| 0 <= j < i ==> #[trigger] out@[j] == out0[j]);
                assert(forall|j: int|
                    0 <= j < n && j != i ==> #[trigger] self.textures@[j] == tex0[j]);
            }
            i = i + 1;
        }
        out
    }
}

} // verus!
