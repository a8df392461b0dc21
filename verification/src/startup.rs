//! The initial browser state from the configuration and the environment,
//! and the choice of the program that opens a file.
use vstd::prelude::*;
use crate::app::{ext_of, App, SortMode};
use crate::config::{en_label_texts, is_english, ja_label_texts, label_texts, labels_en, labels_ja, ui_colors_of, Config, UiColors};
use crate::keymap::{build_keymap, entry_views, is_key_label, key_label, keymap_for, menu_actions, menu_entries, KeyMap};
use crate::lscolors::{file_colors_map, parse_file_colors};
use crate::namemap::NameMap;
use crate::fs_utils::GitStatus;
use crate::text::{chars_eq, chars_of, lowercase, string_of, to_lowercase};

verus! {

/// The colouring value in use: the configured one, else `LS_COLORS`, else
/// `LSCOLORS` (empty values count as unset).
pub open spec fn ls_source(cfg: Seq<char>, ls_colors: Option<Seq<char>>, lscolors: Option<Seq<char>>) -> Seq<char> {
    if cfg.len() > 0 {
        cfg
    } else if ls_colors is Some && ls_colors->Some_0.len() > 0 {
        ls_colors->Some_0
    } else if lscolors is Some && lscolors->Some_0.len() > 0 {
        lscolors->Some_0
    } else {
        seq![]
    }
}

/// Chooses the colouring value (see [`ls_source`]).
pub fn choose_ls_source(cfg: &str, ls_colors: Option<String>, lscolors: Option<String>) -> (r: String)
    ensures
        r@ == ls_source(
            cfg@,
            match ls_colors {
                Some(s) => Some(s@),
                None => None,
            },
            match lscolors {
                Some(s) => Some(s@),
                None => None,
            },
        ),
{
    let c = chars_of(cfg);
    if c.len() > 0 {
        return string_of(&c);
    }
    if let Some(s) = ls_colors {
        if chars_of(s.as_str()).len() > 0 {
            return s;
        }
    }
    if let Some(s) = lscolors {
        if chars_of(s.as_str()).len() > 0 {
            return s;
        }
    }
    String::new()
}

/// The value of the first entry named `key`, if any.
pub open spec fn setting_of(ps: Seq<(String, String)>, key: Seq<char>, i: int) -> Option<Seq<char>>
    decreases ps.len() - i,
{
    if i < 0 || i >= ps.len() {
        None
    } else if ps[i].0@ == key {
        Some(ps[i].1@)
    } else {
        setting_of(ps, key, i + 1)
    }
}

fn find_setting(ps: &Vec<(String, String)>, key: &str) -> (r: Option<String>)
    ensures
        match setting_of(ps@, key@, 0) {
            Some(v) => r matches Some(s) && s@ == v,
            None => r is None,
        },
{
    let k = chars_of(key);
    let mut i: usize = 0;
    while i < ps.len()
        invariant
            i <= ps.len(),
            k@ == key@,
            setting_of(ps@, key@, i as int) == setting_of(ps@, key@, 0),
        decreases ps.len() - i,
    {
        if chars_eq(&chars_of(ps[i].0.as_str()), &k) {
            return Some(ps[i].1.clone());
        }
        i += 1;
    }
    None
}

/// The program for a setting: the configured value when not empty, else
/// the environment's, else `fallback`.
pub open spec fn program_choice(cfg: Option<Seq<char>>, env: Option<Seq<char>>, fallback: Seq<char>) -> Seq<char> {
    if cfg is Some && cfg->Some_0.len() > 0 {
        cfg->Some_0
    } else if env is Some {
        env->Some_0
    } else {
        fallback
    }
}

/// The `[programs]` entries other than `pager` and `editor`.
pub open spec fn ext_entries(ps: Seq<(String, String)>) -> Seq<(String, String)>
    decreases ps.len(),
{
    if ps.len() == 0 {
        seq![]
    } else if ps.last().0@ == "pager"@ || ps.last().0@ == "editor"@ {
        ext_entries(ps.drop_last())
    } else {
        ext_entries(ps.drop_last()).push(ps.last())
    }
}

fn choose_program(cfg: Option<String>, env: Option<String>, fallback: &str) -> (r: String)
    ensures
        r@ == program_choice(
            match cfg {
                Some(s) => Some(s@),
                None => None,
            },
            match env {
                Some(s) => Some(s@),
                None => None,
            },
            fallback@,
        ),
{
    if let Some(s) = cfg {
        if chars_of(s.as_str()).len() > 0 {
            return s;
        }
    }
    match env {
        Some(e) => e,
        None => string_of(&chars_of(fallback)),
    }
}

fn split_ext_programs(ps: Vec<(String, String)>) -> (r: Vec<(String, String)>)
    ensures
        r@ == ext_entries(ps@),
{
    let ghost p0 = ps@;
    let n = ps.len();
    let mut ps = ps;
    let mut out: Vec<(String, String)> = Vec::new();
    let mut i: usize = 0;
    while ps.len() > 0
        invariant
            n == p0.len(),
            ps@ == p0.skip(i as int),
            i + ps@.len() == n,
            out@ == ext_entries(p0.take(i as int)),
        decreases ps@.len(),
    {
        let e = ps.remove(0);
        assert(p0.take(i + 1).drop_last() =~= p0.take(i as int));
        assert(p0.take(i + 1).last() == e);
        let k = chars_of(e.0.as_str());
        let pager = chars_of("pager");
        let editor = chars_of("editor");
        if !(chars_eq(&k, &pager) || chars_eq(&k, &editor)) {
            out.push(e);
        }
        i += 1;
        assert(ps@ =~= p0.skip(i as int));
    }
    assert(p0.take(n as int) =~= p0);
    out
}

impl App {
    /// The initial state: the current directory (listed later), the
    /// configured colours, captions, key map and menu, the colouring value
    /// `ls_src`, the pager and editor (configured, else from the
    /// environment, else `less` and `nano`), the other programs per
    /// extension, an unsorted ascending listing in two columns, and no
    /// dialog open.
    pub fn new(
        config: Config,
        current_dir: String,
        ls_src: String,
        env_pager: Option<String>,
        env_editor: Option<String>,
        is_root: bool,
    ) -> (r: App)
        ensures
            r.current_dir@ == current_dir@,
            r.entries@.len() == 0 && r.tagged@.len() == 0 && r.cursor == 0,
            r.col_mode == 2,
            r.sort_mode == SortMode::Unsorted && r.sort_asc,
            r.keymap.view_map() == keymap_for(entry_views(config.keys@)),
            r.ls_colors.view_map() == file_colors_map(ls_src@),
            r.lang_en == (config.display.lang@ == "en"@),
            r.show_hidden == config.display.show_hidden,
            r.pager@ == program_choice(
                setting_of(config.programs@, "pager"@, 0),
                match env_pager {
                    Some(s) => Some(s@),
                    None => None,
                },
                "less"@,
            ),
            r.editor@ == program_choice(
                setting_of(config.programs@, "editor"@, 0),
                match env_editor {
                    Some(s) => Some(s@),
                    None => None,
                },
                "nano"@,
            ),
            r.ext_programs@ == ext_entries(config.programs@),
            r.menu_items@.len() == 14,
            forall|i: int| 0 <= i < 14 ==> {
                let (a, ja, en) = #[trigger] menu_entries()[i];
                &&& is_key_label(r.keymap.view_map(), a, r.menu_items@[i].0@)
                &&& r.menu_items@[i].1@ == (if r.lang_en { en } else { ja })
            },
            r.ui_colors == ui_colors_of(config.colors),
            r.success_msg is None && r.error_msg is None && !r.show_help,
            r.git_dialog is None && r.file_dialog is None && r.search is None,
            r.run_dialog is None && r.func_dialog is None && r.dir_jump_dialog is None,
            !r.quit && !r.tree_open && !r.tree_focus && !r.git_running && !r.show_sort_dialog,
            r.is_root == is_root,
            label_texts(r.labels) == (if r.lang_en { en_label_texts() } else { ja_label_texts() }),
            r.git_menu_cursor == 0 && r.sort_cursor == 0 && r.last_search@.len() == 0,
            r.tree_cursor == 0 && r.tree_offset == 0 && r.tree_nodes@.len() == 0,
            r.free_bytes == 0 && r.total_bytes == 0 && r.used_bytes == 0,
            r.volume_info@.len() == 0 && r.file_type@.len() == 0 && r.owner_s@.len() == 0,
            r.git_branch is None && r.git_ahead == 0 && r.git_behind == 0,
            r.git_status.view_map() == Map::<Seq<char>, char>::empty(),
    {
        let ui_colors = UiColors::from_config(&config.colors);
        let lang_en = is_english(config.display.lang.as_str());
        let labels = if lang_en {
            labels_en()
        } else {
            labels_ja()
        };
        let keymap = build_keymap(&config.keys);
        let pager = choose_program(find_setting(&config.programs, "pager"), env_pager, "less");
        let editor = choose_program(find_setting(&config.programs, "editor"), env_editor, "nano");
        let show_hidden = config.display.show_hidden;
        let ext_programs = split_ext_programs(config.programs);
        let acts = menu_actions();
        let mut menu_items: Vec<(String, String)> = Vec::new();
        let mut i: usize = 0;
        while i < acts.len()
            invariant
                i <= acts.len(),
                acts@.len() == 14,
                menu_items@.len() == i,
                forall|j: int| 0 <= j < 14 ==> (acts@[j].0, acts@[j].1@, acts@[j].2@) == #[trigger] menu_entries()[j],
                forall|j: int| 0 <= j < i ==> {
                    let (a, ja, en) = #[trigger] menu_entries()[j];
                    &&& is_key_label(keymap.view_map(), a, menu_items@[j].0@)
                    &&& menu_items@[j].1@ == (if lang_en { en } else { ja })
                },
            decreases acts.len() - i,
        {
            let (a, ja, en) = acts[i];
            let key = key_label(&keymap, a);
            let label = if lang_en {
                string_of(&chars_of(en))
            } else {
                string_of(&chars_of(ja))
            };
            let ghost e = menu_entries()[i as int];
            menu_items.push((key, label));
            assert(menu_items@[i as int].0@ == key@);
            i += 1;
        }
        App {
            current_dir,
            entries: Vec::new(),
            cursor: 0,
            tagged: Vec::new(),
            col_mode: 2,
            quit: false,
            tree_open: false,
            tree_focus: false,
            tree_cursor: 0,
            tree_offset: 0,
            tree_nodes: Vec::new(),
            free_bytes: 0,
            total_bytes: 0,
            used_bytes: 0,
            volume_info: String::new(),
            file_type: String::new(),
            owner_s: String::new(),
            git_branch: None,
            git_ahead: 0,
            git_behind: 0,
            git_status: GitStatus::new(),
            ls_colors: parse_file_colors(ls_src.as_str()),
            ui_colors,
            labels,
            lang_en,
            keymap,
            menu_items,
            sort_mode: SortMode::Unsorted,
            sort_asc: true,
            show_sort_dialog: false,
            sort_cursor: 0,
            git_menu_cursor: 0,
            error_msg: None,
            success_msg: None,
            show_help: false,
            run_dialog: None,
            func_dialog: None,
            dir_jump_dialog: None,
            search: None,
            last_search: String::new(),
            git_dialog: None,
            git_running: false,
            file_dialog: None,
            show_hidden,
            pager,
            editor,
            ext_programs,
            is_root,
        }
    }

    /// The program that opens the file `name`: the one configured for its
    /// lowercased extension, else the pager.
    pub fn program_for(&self, name: &str) -> (r: String)
        ensures
            match setting_of(self.ext_programs@, lowercase(ext_of(name@)), 0) {
                Some(p) => r@ == p,
                None => r@ == self.pager@,
            },
    {
        let n = chars_of(name);
        let nl = n.len();
        let ext: Vec<char> = match crate::text::rfind(&n, '.') {
            Some(i) => if i == 0 {
                Vec::new()
            } else {
                crate::text::slice_chars(&n, i + 1, nl)
            },
            None => Vec::new(),
        };
        proof {
            if crate::text::rfind_char(n@, '.') > 0 {
                assert(ext@ == n@.skip(crate::text::rfind_char(n@, '.') + 1));
            } else {
                assert(ext@ =~= Seq::<char>::empty());
            }
        }
        let low = to_lowercase(&ext);
        let ls = string_of(&low);
        match find_setting(&self.ext_programs, ls.as_str()) {
            Some(p) => p,
            None => self.pager.clone(),
        }
    }
}

} // verus!
