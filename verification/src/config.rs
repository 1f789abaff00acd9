//! Application settings: window, map and export defaults, and the list of
//! recently opened files.
use vstd::prelude::*;
use crate::parsers::owned;

verus! {

/// Window settings.
pub struct WindowConfig {
    pub width: u32,
    pub height: u32,
    pub maximized: bool,
    pub show_style_editor: bool,
    pub show_tool_panel: bool,
}

/// Map settings.
pub struct MapConfig {
    pub default_projection: String,
    pub background_color: (u8, u8, u8, u8),
    pub cache_enabled: bool,
    pub cache_size_mb: u32,
    pub default_style: String,
}

/// Export settings; `default_dpi` is a binary32 bit pattern.
pub struct ExportConfig {
    pub default_format: String,
    pub default_dpi: u32,
    pub default_width: u32,
    pub default_height: u32,
    pub last_export_directory: Option<String>,
}

/// All settings, with the recently opened files, most recent first.
pub struct AppConfig {
    pub window: WindowConfig,
    pub map: MapConfig,
    pub export: ExportConfig,
    pub recent_files: Vec<String>,
}

/// The most recent files that are kept.
pub open spec fn recent_limit() -> nat {
    10
}

/// `s` without the entries equal to `p`, in order.
pub open spec fn without(s: Seq<Seq<char>>, p: Seq<char>) -> Seq<Seq<char>>
    decreases s.len(),
{
    if s.len() == 0 {
        Seq::empty()
    } else {
        without(s.drop_last(), p) + if s.last() == p {
            Seq::empty()
        } else {
            seq![s.last()]
        }
    }
}

/// The recent files after opening `p`: `p` first, then the others without
/// `p`, at most `recent_limit` in all.
pub open spec fn recent_after(old: Seq<Seq<char>>, p: Seq<char>) -> Seq<Seq<char>> {
    let s = seq![p] + without(old, p);
    if s.len() > recent_limit() {
        s.take(recent_limit() as int)
    } else {
        s
    }
}

/// The texts of a list of strings.
pub open spec fn texts(v: Seq<String>) -> Seq<Seq<char>> {
    v.map_values(|s: String| s@)
}

impl AppConfig {
    /// Records `path` as the most recently opened file (see `recent_after`).
    pub fn add_recent_file(&mut self, path: String)
        ensures
            texts(final(self).recent_files@) == recent_after(texts(old(self).recent_files@), path@),
            final(self).window == old(self).window,
            final(self).map == old(self).map,
            final(self).export == old(self).export,
    {
        let ghost old_texts = texts(self.recent_files@);
        let mut kept: Vec<String> = Vec::new();
        kept.push(path.clone());
        let n = self.recent_files.len();
        for i in 0..n
            invariant
                n == self.recent_files@.len(),
                old_texts == texts(self.recent_files@),
                texts(kept@) == seq![path@] + without(old_texts.take(i as int), path@),
        {
            proof {
                assert(old_texts.take(i + 1).drop_last() =~= old_texts.take(i as int));
            }
            let f = &self.recent_files[i];
            let ghost k0 = texts(kept@);
            if *f != path {
                kept.push(f.clone());
                proof {
                    assert(texts(kept@) =~= k0.push(f@));
                }
            }
            proof {
                assert(texts(kept@) =~= seq![path@] + without(old_texts.take(i + 1), path@));
            }
        }
        proof {
            assert(old_texts.take(n as int) =~= old_texts);
        }
        kept.truncate(10);
        proof {
            assert(texts(kept@) =~= recent_after(old_texts, path@));
        }
        self.recent_files = kept;
    }
}

impl Default for AppConfig {
    /// The default settings: a 1200 x 800 window with the style editor and
    /// tool panel, Web Mercator on an alice-blue background with a 256 MB
    /// cache and the Google-Maps style, SVG export at 300 dpi in 1920 x 1080,
    /// and no recent files.
    fn default() -> (c: Self)
        ensures
            c.window == (WindowConfig {
                width: 1200,
                height: 800,
                maximized: false,
                show_style_editor: true,
                show_tool_panel: true,
            }),
            c.map.default_projection@ == "WebMercator"@,
            c.map.background_color == (240u8, 248u8, 255u8, 255u8),
            c.map.cache_enabled,
            c.map.cache_size_mb == 256,
            c.map.default_style@ == "google-maps"@,
            c.export.default_format@ == "svg"@,
            c.export.default_dpi == 0x4396_0000,
            c.export.default_width == 1920,
            c.export.default_height == 1080,
            c.export.last_export_directory is None,
            c.recent_files@.len() == 0,
    {
        AppConfig {
            window: WindowConfig {
                width: 1200,
                height: 800,
                maximized: false,
                show_style_editor: true,
                show_tool_panel: true,
            },
            map: MapConfig {
                default_projection: owned("WebMercator"),
                background_color: (240, 248, 255, 255),
                cache_enabled: true,
                cache_size_mb: 256,
                default_style: owned("google-maps"),
            },
            export: ExportConfig {
                default_format: owned("svg"),
                default_dpi: 0x4396_0000u32,
                default_width: 1920,
                default_height: 1080,
                last_export_directory: None,
            },
            recent_files: Vec::new(),
        }
    }
}

/// `without` keeps order and drops exactly the entries equal to `p`.
proof fn lemma_without(s: Seq<Seq<char>>, p: Seq<char>)
    ensures
        !without(s, p).contains(p),
        without(s, p).len() <= s.len(),
        s.no_duplicates() ==> without(s, p).no_duplicates(),
        forall|x: Seq<char>| x != p ==> (without(s, p).contains(x) == s.contains(x)),
    decreases s.len(),
{
    if s.len() > 0 {
        lemma_without(s.drop_last(), p);
        let w = without(s.drop_last(), p);
        let t: Seq<Seq<char>> = if s.last() == p {
            Seq::empty()
        } else {
            seq![s.last()]
        };
        assert(without(s, p) == w + t);
        assert forall|x: Seq<char>| x != p implies (without(s, p).contains(x) == s.contains(x)) by {
            if s.contains(x) {
                let i = s.index_of(x);
                if i < s.len() - 1 {
                    assert(s.drop_last()[i] == x);
                    assert(s.drop_last().contains(x));
                    assert(w.contains(x));
                    let j = w.index_of(x);
                    assert((w + t)[j] == x);
                } else {
                    assert(s.last() == x);
                    assert((w + t)[w.len() as int] == x);
                }
            }
            if without(s, p).contains(x) {
                let j = (w + t).index_of(x);
                if j < w.len() {
                    assert(w[j] == x);
                    assert(w.contains(x));
                    assert(s.drop_last().contains(x));
                    let i = s.drop_last().index_of(x);
                    assert(s[i] == x);
                } else {
                    assert(t[j - w.len()] == x);
                    assert(s[s.len() - 1] == x);
                }
            }
        }
        if s.no_duplicates() {
            assert(s.drop_last().no_duplicates());
            if s.last() != p {
                assert(!s.drop_last().contains(s.last())) by {
                    if s.drop_last().contains(s.last()) {
                        let i = s.drop_last().index_of(s.last());
                        assert(s[i] == s[s.len() - 1]);
                    }
                }
                assert(!w.contains(s.last()));
            }
        }
        assert(!without(s, p).contains(p)) by {
            if without(s, p).contains(p) {
                let j = without(s, p).index_of(p);
                if j < w.len() {
                    assert(w[j] == p);
                }
            }
        }
    }
}

/// After a file is opened, it is the most recent one, it is listed once, at
/// most `recent_limit` files are listed, and a list without repeats stays so.
pub proof fn law_recent_files(old: Seq<Seq<char>>, p: Seq<char>)
    ensures
        recent_after(old, p).len() >= 1,
        recent_after(old, p)[0] == p,
        recent_after(old, p).len() <= recent_limit(),
        forall|i: int| 1 <= i < recent_after(old, p).len() ==> recent_after(old, p)[i] != p,
        old.no_duplicates() ==> recent_after(old, p).no_duplicates(),
{
    lemma_without(old, p);
    let s = seq![p] + without(old, p);
    assert forall|i: int| 1 <= i < s.len() implies s[i] != p by {
        assert(s[i] == without(old, p)[i - 1]);
    }
    if old.no_duplicates() {
        assert(s.no_duplicates()) by {
            assert forall|i: int, j: int| 0 <= i < s.len() && 0 <= j < s.len() && i != j implies s[i] != s[j] by {
                if i > 0 && j > 0 {
                    assert(s[i] == without(old, p)[i - 1]);
                    assert(s[j] == without(old, p)[j - 1]);
                }
            }
        }
    }
}

} // verus!
