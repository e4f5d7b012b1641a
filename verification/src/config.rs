//! The editor's persisted settings: language, colour theme and the list of
//! recently opened hat directories.

use vstd::prelude::*;

use crate::ui_text::Language;

verus! {

/// The colour themes the editor offers.
#[derive(Debug, Clone, Copy, PartialEq, Eq, Structural)]
pub enum Theme {
    Latte,
    Frappe,
    Macchiato,
    Mocha,
}

/// What the preview window is asked to do on one frame; `NoAction` when
/// nothing was requested.
#[derive(Debug, Clone, Copy, PartialEq, Eq, Structural, Default)]
pub enum AnimationWindowAction {
    #[default]
    NoAction,
    Pause,
    IncreaseFrame,
    DecreaseFrame,
}

/// The recent-paths list with the marked entries kept, in order.
pub open spec fn keep_marked(paths: Seq<String>, keep: Seq<bool>) -> Seq<String>
    decreases paths.len(),
    when paths.len() == keep.len()
{
    if paths.len() == 0 {
        Seq::empty()
    } else {
        keep_marked(paths.drop_last(), keep.drop_last()) + (if keep.last() {
            seq![paths.last()]
        } else {
            Seq::empty()
        })
    }
}

/// The persisted settings.
#[derive(Debug)]
pub struct AppConfig {
    pub language: Language,
    pub theme: Theme,
    pub latest_hats: Vec<String>,
}

impl AppConfig {
    /// Whether the selected theme is the light one.
    pub fn is_light_theme(&self) -> (r: bool)
        ensures
            r == (self.theme == Theme::Latte),
    {
        matches!(self.theme, Theme::Latte)
    }

    /// Drops the recent paths that no longer exist. The caller, which can
    /// reach the file system, passes one flag per entry saying whether the
    /// path still exists.
    pub fn remove_invalid_latest(&mut self, exists: &Vec<bool>)
        requires
            exists@.len() == old(self).latest_hats@.len(),
        ensures
            final(self).language == old(self).language,
            final(self).theme == old(self).theme,
            final(self).latest_hats@ == keep_marked(old(self).latest_hats@, exists@),
    {
        let n = self.latest_hats.len();
        let mut kept: Vec<String> = Vec::new();
        let mut i: usize = 0;
        while i < n
            invariant
                n == self.latest_hats@.len(),
                n == exists@.len(),
                0 <= i <= n,
                kept@ == keep_marked(
                    self.latest_hats@.take(i as int),
                    exists@.take(i as int),
                ),
            decreases n - i,
        {
            proof {
                assert(self.latest_hats@.take(i + 1).drop_last() =~= self.latest_hats@.take(
                    i as int,
                ));
                assert(exists@.take(i + 1).drop_last() =~= exists@.take(i as int));
                assert(self.latest_hats@.take(i + 1).last() == self.latest_hats@[i as int]);
                assert(exists@.take(i + 1).last() == exists@[i as int]);
            }
            if exists[i] {
                let p = self.latest_hats[i].clone();
                kept.push(p);
            }
            proof {
                assert(kept@ =~= keep_marked(
                    self.latest_hats@.take(i + 1),
                    exists@.take(i + 1),
                ));
            }
            i = i + 1;
        }
        proof {
            assert(self.latest_hats@.take(n as int) =~= self.latest_hats@);
            assert(exists@.take(n as int) =~= exists@);
        }
        self.latest_hats = kept;
    }
}

} // verus!
