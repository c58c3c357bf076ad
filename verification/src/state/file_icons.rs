//! Icon themes: which icon a file or a folder gets.
//!
//! A theme maps file extensions to icons, with a default icon for other
//! files and two icons for folders, open and closed.  The application reads
//! a theme's description and its icon files; the theme itself is built here.
use vstd::prelude::*;
use crate::global_defaults::lowercase_of;
use crate::pairs::{lemma_pairs_map_get, lemma_pairs_map_update, pairs_map, unique_keys};
use crate::paths::{path_extension, path_extension_of};

verus! {

/// An icon: the bytes of its SVG file.
pub struct IconEntry {
    pub svg: Vec<u8>,
}

/// One icon of a theme's description and the extensions that it is for.
pub struct IconSource {
    pub svg: Vec<u8>,
    pub extensions: Vec<String>,
}

/// The extensions of a theme and the bytes of their icons.
pub open spec fn icon_pairs(entries: Seq<(String, IconEntry)>) -> Seq<(Seq<char>, Seq<u8>)> {
    Seq::new(entries.len(), |i: int| (entries[i].0@, entries[i].1.svg@))
}

/// The map that `extensions` gets after each of `extensions` is mapped to `svg`.
pub open spec fn with_extensions(map: Map<Seq<char>, Seq<u8>>, extensions: Seq<Seq<char>>, svg: Seq<u8>) -> Map<Seq<char>, Seq<u8>>
    decreases extensions.len(),
{
    if extensions.len() == 0 {
        map
    } else {
        with_extensions(map, extensions.drop_last(), svg).insert(extensions.last(), svg)
    }
}

pub open spec fn source_extensions(source: IconSource) -> Seq<Seq<char>> {
    source.extensions@.map_values(|e: String| e@)
}

/// The extension map that a theme's icons give: each icon in turn maps its
/// extensions to itself, a later icon taking an extension from an earlier one.
pub open spec fn icons_map(icons: Seq<IconSource>) -> Map<Seq<char>, Seq<u8>>
    decreases icons.len(),
{
    if icons.len() == 0 {
        Map::empty()
    } else {
        with_extensions(
            icons_map(icons.drop_last()),
            source_extensions(icons.last()),
            icons.last().svg@,
        )
    }
}

/// A loaded icon theme.
pub struct IconTheme {
    extension_map: Vec<(String, IconEntry)>,
    file_default: IconEntry,
    folder_open: IconEntry,
    folder_closed: IconEntry,
}

/// A copy of the bytes of an icon.
fn copy_entry(svg: &Vec<u8>) -> (entry: IconEntry)
    ensures
        entry.svg@ == svg@,
{
    let mut out: Vec<u8> = Vec::new();
    let mut k: usize = 0;
    while k < svg.len()
        invariant
            k <= svg@.len(),
            out@ == svg@.take(k as int),
        decreases svg@.len() - k,
    {
        out.push(svg[k]);
        k = k + 1;
        assert(out@ =~= svg@.take(k as int));
    }
    assert(svg@.take(k as int) =~= svg@);
    IconEntry { svg: out }
}

impl IconTheme {
    /// The icon of each extension.
    pub closed spec fn extensions(&self) -> Map<Seq<char>, Seq<u8>> {
        pairs_map(icon_pairs(self.extension_map@))
    }

    pub closed spec fn wf(&self) -> bool {
        unique_keys(icon_pairs(self.extension_map@))
    }

    pub closed spec fn file_default_svg(&self) -> Seq<u8> {
        self.file_default.svg@
    }

    pub closed spec fn folder_open_svg(&self) -> Seq<u8> {
        self.folder_open.svg@
    }

    pub closed spec fn folder_closed_svg(&self) -> Seq<u8> {
        self.folder_closed.svg@
    }

    /// Maps an extension to an icon, in place of the icon it had.
    fn insert(&mut self, extension: &String, svg: &Vec<u8>)
        requires
            old(self).wf(),
        ensures
            final(self).wf(),
            final(self).extensions() == old(self).extensions().insert(extension@, svg@),
            final(self).file_default_svg() == old(self).file_default_svg(),
            final(self).folder_open_svg() == old(self).folder_open_svg(),
            final(self).folder_closed_svg() == old(self).folder_closed_svg(),
    {
        let ghost before = icon_pairs(self.extension_map@);
        let mut k: usize = 0;
        while k < self.extension_map.len()
            invariant
                k <= self.extension_map@.len(),
                *self == *old(self),
                old(self).wf(),
                before == icon_pairs(self.extension_map@),
                forall|i: int| 0 <= i < k ==> #[trigger] before[i].0 != extension@,
            decreases self.extension_map@.len() - k,
        {
            if self.extension_map[k].0 == *extension {
                let entry = copy_entry(svg);
                let key = extension.clone();
                proof {
                    assert(before[k as int].0 == extension@);
                    lemma_pairs_map_update(before, k as int, svg@);
                }
                self.extension_map.set(k, (key, entry));
                proof {
                    let after = icon_pairs(self.extension_map@);
                    assert(after =~= before.update(k as int, (before[k as int].0, svg@)));
                    assert forall|i: int, j: int| 0 <= i < j < after.len() implies #[trigger] after[i].0
                        != #[trigger] after[j].0 by {
                        assert(after[i].0 == before[i].0);
                        assert(after[j].0 == before[j].0);
                    }
                }
                return;
            }
            k = k + 1;
        }
        let entry = copy_entry(svg);
        let key = extension.clone();
        self.extension_map.push((key, entry));
        proof {
            let after = icon_pairs(self.extension_map@);
            assert(after =~= before.push((extension@, svg@)));
            assert(after.drop_last() =~= before);
            assert forall|i: int, j: int| 0 <= i < j < after.len() implies #[trigger] after[i].0
                != #[trigger] after[j].0 by {
                if j < before.len() {
                    assert(after[i] == before[i] && after[j] == before[j]);
                } else {
                    assert(after[i] == before[i]);
                }
            }
        }
    }

    /// A theme from the icons of its description, in the order in which it
    /// lists them, its default file icon and its folder icons.
    pub fn new(
        file_default: &Vec<u8>,
        folder_open: &Vec<u8>,
        folder_closed: &Vec<u8>,
        icons: &Vec<IconSource>,
    ) -> (theme: Self)
        ensures
            theme.wf(),
            theme.extensions() == icons_map(icons@),
            theme.file_default_svg() == file_default@,
            theme.folder_open_svg() == folder_open@,
            theme.folder_closed_svg() == folder_closed@,
    {
        let mut theme = IconTheme {
            extension_map: Vec::new(),
            file_default: copy_entry(file_default),
            folder_open: copy_entry(folder_open),
            folder_closed: copy_entry(folder_closed),
        };
        proof {
            assert(icon_pairs(theme.extension_map@) =~= Seq::<(Seq<char>, Seq<u8>)>::empty());
            assert(theme.extensions() == Map::<Seq<char>, Seq<u8>>::empty());
        }
        let mut i: usize = 0;
        while i < icons.len()
            invariant
                i <= icons@.len(),
                theme.wf(),
                theme.extensions() == icons_map(icons@.take(i as int)),
                theme.file_default_svg() == file_default@,
                theme.folder_open_svg() == folder_open@,
                theme.folder_closed_svg() == folder_closed@,
            decreases icons@.len() - i,
        {
            let icon = &icons[i];
            let ghost start = theme.extensions();
            let ghost exts = source_extensions(*icon);
            let mut e: usize = 0;
            while e < icon.extensions.len()
                invariant
                    e <= icon.extensions@.len(),
                    exts == icon.extensions@.map_values(|x: String| x@),
                    theme.wf(),
                    theme.extensions() == with_extensions(start, exts.take(e as int), icon.svg@),
                    theme.file_default_svg() == file_default@,
                    theme.folder_open_svg() == folder_open@,
                    theme.folder_closed_svg() == folder_closed@,
                decreases icon.extensions@.len() - e,
            {
                theme.insert(&icon.extensions[e], &icon.svg);
                proof {
                    assert(exts.take(e + 1).drop_last() =~= exts.take(e as int));
                    assert(exts.take(e + 1).last() == icon.extensions@[e as int]@);
                }
                e = e + 1;
            }
            proof {
                assert(exts.take(e as int) =~= exts);
                assert(icons@.take(i + 1).drop_last() =~= icons@.take(i as int));
                assert(icons@.take(i + 1).last() == *icon);
            }
            i = i + 1;
        }
        proof {
            assert(icons@.take(i as int) =~= icons@);
        }
        theme
    }

    /// The icon of a file: the one of its extension, in lower case, or else
    /// the default one.
    pub fn get_file(&self, path: &String) -> (icon: &IconEntry)
        requires
            self.wf(),
        ensures
            icon.svg@ == match path_extension_of(path@) {
                Some(ext) => if self.extensions().contains_key(lowercase_of(ext)) {
                    self.extensions()[lowercase_of(ext)]
                } else {
                    self.file_default_svg()
                },
                None => self.file_default_svg(),
            },
    {
        if let Some(ext) = path_extension(path) {
            let lower = crate::global_defaults::to_lowercase(ext.as_str());
            let mut k: usize = 0;
            while k < self.extension_map.len()
                invariant
                    k <= self.extension_map@.len(),
                    self.wf(),
                    path_extension_of(path@) == Some(ext@),
                    lower@ == lowercase_of(ext@),
                    forall|i: int| 0 <= i < k ==> #[trigger] icon_pairs(self.extension_map@)[i].0
                        != lower@,
                decreases self.extension_map@.len() - k,
            {
                if self.extension_map[k].0 == lower {
                    proof {
                        let pairs = icon_pairs(self.extension_map@);
                        assert(pairs[k as int] == (self.extension_map@[k as int].0@, self.extension_map@[k as int].1.svg@));
                        lemma_pairs_map_get(pairs, k as int);
                    }
                    return &self.extension_map[k].1;
                }
                k = k + 1;
            }
            proof {
                crate::pairs::lemma_pairs_map_absent(icon_pairs(self.extension_map@), lower@);
            }
        }
        &self.file_default
    }

    /// The icon of a folder, open or closed.
    pub fn get_folder(&self, open: bool) -> (icon: &IconEntry)
        ensures
            icon.svg@ == if open {
                self.folder_open_svg()
            } else {
                self.folder_closed_svg()
            },
    {
        if open {
            &self.folder_open
        } else {
            &self.folder_closed
        }
    }
}

/// The icon themes, one of which is active.
pub struct FileIcons {
    themes: Vec<IconTheme>,
    active: usize,
}

impl FileIcons {
    pub closed spec fn wf(&self) -> bool {
        &&& self.active < self.themes@.len()
        &&& forall|i: int| 0 <= i < self.themes@.len() ==> (#[trigger] self.themes@[i]).wf()
    }

    pub closed spec fn active_theme_spec(&self) -> IconTheme {
        self.themes@[self.active as int]
    }

    /// The themes with the built-in one, which is active.
    pub fn new(builtin: IconTheme) -> (icons: Self)
        requires
            builtin.wf(),
        ensures
            icons.wf(),
            icons.active_theme_spec() == builtin,
    {
        FileIcons { themes: vec![builtin], active: 0 }
    }

    pub fn active_theme(&self) -> (theme: &IconTheme)
        requires
            self.wf(),
        ensures
            *theme == self.active_theme_spec(),
            theme.wf(),
    {
        &self.themes[self.active]
    }

    /// The icon of a file in the active theme.
    pub fn get_file(&self, path: &String) -> (icon: &IconEntry)
        requires
            self.wf(),
        ensures
            icon.svg@ == match path_extension_of(path@) {
                Some(ext) => if self.active_theme_spec().extensions().contains_key(lowercase_of(ext)) {
                    self.active_theme_spec().extensions()[lowercase_of(ext)]
                } else {
                    self.active_theme_spec().file_default_svg()
                },
                None => self.active_theme_spec().file_default_svg(),
            },
    {
        self.active_theme().get_file(path)
    }

    /// The icon of a folder in the active theme.
    pub fn get_folder(&self, open: bool) -> (icon: &IconEntry)
        requires
            self.wf(),
        ensures
            icon.svg@ == if open {
                self.active_theme_spec().folder_open_svg()
            } else {
                self.active_theme_spec().folder_closed_svg()
            },
    {
        self.active_theme().get_folder(open)
    }
}

} // verus!
