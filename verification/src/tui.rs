//! Screen state and key handling of the terminal interface. Drawing and
//! the event loop live outside the library; this module decides what each
//! key does.

use vstd::prelude::*;

use crate::catalog::{info_of, searchable_rules, RuleCatalog, SourceInfo};
use crate::model::SearchHit;
use crate::rule::Rule;
use crate::text::{cat, chars_of, decimal, number_text, string_of, trim, trimmed};

verus! {

/// The main menu's entries: title and description.
pub open spec fn menu_entries() -> Seq<(Seq<char>, Seq<char>)> {
    seq![
        ("聚合搜索"@, "在全部可搜索书源中查找书名或作者"@),
        ("独立搜索"@, "仅在指定书源中搜索"@),
        ("批量下载"@, "按书名列表批量下载（即将推出）"@),
        ("书源一览"@, "查看当前规则包中的书源"@),
        ("配置信息"@, "查看已加载的 TOML 配置"@),
        ("退出程序"@, "结束 novel-boom"@),
    ]
}

/// The main menu: title and description of each entry.
pub fn menu_items() -> (r: Vec<(&'static str, &'static str)>)
    ensures
        r@.len() == 6,
        forall|i: int| 0 <= i < 6 ==> (#[trigger] r@[i]).0@ == menu_entries()[i].0 && r@[i].1@
            == menu_entries()[i].1,
{
    let mut v: Vec<(&'static str, &'static str)> = Vec::new();
    v.push(("聚合搜索", "在全部可搜索书源中查找书名或作者"));
    v.push(("独立搜索", "仅在指定书源中搜索"));
    v.push(("批量下载", "按书名列表批量下载（即将推出）"));
    v.push(("书源一览", "查看当前规则包中的书源"));
    v.push(("配置信息", "查看已加载的 TOML 配置"));
    v.push(("退出程序", "结束 novel-boom"));
    assert(v@[0].0@ == menu_entries()[0].0 && v@[0].1@ == menu_entries()[0].1);
    assert(v@[1].0@ == menu_entries()[1].0 && v@[1].1@ == menu_entries()[1].1);
    assert(v@[2].0@ == menu_entries()[2].0 && v@[2].1@ == menu_entries()[2].1);
    assert(v@[3].0@ == menu_entries()[3].0 && v@[3].1@ == menu_entries()[3].1);
    assert(v@[4].0@ == menu_entries()[4].0 && v@[4].1@ == menu_entries()[4].1);
    assert(v@[5].0@ == menu_entries()[5].0 && v@[5].1@ == menu_entries()[5].1);
    v
}

/// `是` / `否` for a flag.
pub fn bool_zh(value: bool) -> (r: String)
    ensures
        r@ == if value {
            "是"@
        } else {
            "否"@
        },
{
    if value {
        "是".to_string()
    } else {
        "否".to_string()
    }
}

/// An em dash for an empty value, else the value.
pub fn empty_as_dash(value: &str) -> (r: String)
    ensures
        r@ == if value@.len() == 0 {
            "—"@
        } else {
            value@
        },
{
    if value.unicode_len() == 0 {
        "—".to_string()
    } else {
        value.to_owned()
    }
}

/// An em dash for an empty value, else the value.
pub fn empty_dash(value: &str) -> (r: String)
    ensures
        r@ == if value@.len() == 0 {
            "—"@
        } else {
            value@
        },
{
    empty_as_dash(value)
}

/// The text cut to `max_chars` characters, the last one becoming `…` when
/// it had to be cut.
pub open spec fn truncated(input: Seq<char>, max_chars: nat) -> Seq<char> {
    if input.len() <= max_chars {
        input
    } else {
        input.take(if max_chars >= 1 {
            max_chars - 1
        } else {
            0
        }).push('…')
    }
}

/// Cuts a display string to at most `max_chars` characters.
pub fn truncate_display(input: &str, max_chars: usize) -> (r: String)
    ensures
        r@ == truncated(input@, max_chars as nat),
{
    let v = chars_of(input);
    if v.len() <= max_chars {
        return input.to_owned();
    }
    let keep = if max_chars >= 1 {
        max_chars - 1
    } else {
        0
    };
    let mut w = crate::text::slice_of(v.as_slice(), 0, keep);
    w.push('…');
    assert(w@ =~= v@.take(keep as int).push('…'));
    string_of(w.as_slice())
}

/// The selection after moving by `delta` in a list of `len` rows, wrapping
/// around; unchanged in an empty list.
pub open spec fn moved(selected: Option<usize>, len: nat, delta: int) -> Option<usize> {
    if len == 0 {
        selected
    } else {
        let cur = match selected {
            Some(i) => i as int,
            None => 0,
        };
        Some(((cur + delta) % (len as int)) as usize)
    }
}

/// Moves a table selection by `delta` rows, wrapping around.
pub fn move_table_sel(selected: Option<usize>, len: usize, delta: i32) -> (r: Option<usize>)
    requires
        len <= i32::MAX,
        match selected {
            Some(i) => i + delta <= i32::MAX && i <= i32::MAX,
            None => true,
        },
    ensures
        r == moved(selected, len as nat, delta as int),
{
    if len == 0 {
        return selected;
    }
    let cur: usize = match selected {
        Some(i) => i,
        None => 0,
    };
    if delta >= 0 {
        let s = cur + delta as usize;
        Some(s % len)
    } else {
        let d = (-(delta as i64)) as usize;
        let m = d % len;
        let r = (cur + len - m) % len;
        proof {
            let q = d as int / len as int;
            vstd::arithmetic::div_mod::lemma_fundamental_div_mod(d as int, len as int);
            assert(cur + len - m == (len as int) * (q + 1) + (cur as int + delta as int)) by (nonlinear_arith)
                requires
                    d as int == (len as int) * q + m as int,
                    d as int == -(delta as int),
            ;
            vstd::arithmetic::div_mod::lemma_mod_multiples_vanish(q + 1, cur as int + delta as int, len as int);
        }
        Some(r)
    }
}

/// The selection after one step forward or back in a list of `len` rows,
/// wrapping around; the same as [`move_table_sel`] with a delta of ±1.
pub fn step_selection(selected: Option<usize>, len: usize, forward: bool) -> (r: Option<usize>)
    ensures
        r == moved(selected, len as nat, if forward { 1 } else { -1 }),
{
    if len == 0 {
        return selected;
    }
    let cur: usize = match selected {
        Some(i) => i,
        None => 0,
    };
    let c = cur % len;
    proof {
        vstd::arithmetic::div_mod::lemma_add_mod_noop_right(1, cur as int, len as int);
        vstd::arithmetic::div_mod::lemma_add_mod_noop_right(-1, cur as int, len as int);
        vstd::arithmetic::div_mod::lemma_mod_add_multiples_vanish(-1, len as int);
        if len > 1 {
            vstd::arithmetic::div_mod::lemma_small_mod((len - 1) as nat, len as nat);
        }
    }
    if forward {
        if c + 1 == len {
            proof {
                vstd::arithmetic::div_mod::lemma_mod_self_0(len as int);
            }
            Some(0)
        } else {
            proof {
                vstd::arithmetic::div_mod::lemma_small_mod((c + 1) as nat, len as nat);
            }
            Some(c + 1)
        }
    } else if c == 0 {
        proof {
            vstd::arithmetic::div_mod::lemma_small_mod((len - 1) as nat, len as nat);
        }
        Some(len - 1)
    } else {
        proof {
            vstd::arithmetic::div_mod::lemma_small_mod((c - 1) as nat, len as nat);
        }
        Some(c - 1)
    }
}

/// Range input mode: start and end chapters, or the latest N.
#[derive(Debug, Clone, Copy, PartialEq, Eq)]
pub enum RangeInputMode {
    Span,
    Latest,
}

/// The current full-screen page.
#[derive(Debug, Clone, PartialEq, Eq)]
pub enum Screen {
    Home,
    Config,
    Sources,
    SingleSearchPickSource,
    SingleSearchInput { source_id: u32, source_name: String },
    SingleSearchResults { source_id: u32, source_name: String, keyword: String },
    BookToc { source_id: u32, source_name: String, keyword: String },
    BookRangeInput { source_id: u32, source_name: String, keyword: String, mode: RangeInputMode },
    DownloadPlan { source_id: u32, source_name: String, keyword: String, range_label: String },
    Placeholder(&'static str),
}

/// A key, as the interface distinguishes them.
#[derive(Debug, Clone, Copy, PartialEq, Eq, Structural)]
pub enum Key {
    Up,
    Down,
    Enter,
    Esc,
    Backspace,
    Char(char),
    Other,
}

/// A key event: the key, whether Control was held, and whether it is a
/// press (repeats and releases are ignored).
#[derive(Debug, Clone, Copy, PartialEq, Eq)]
pub struct KeyInput {
    pub key: Key,
    pub control: bool,
    pub press: bool,
}

/// What the event loop must do after a key.
#[derive(Debug, Clone, PartialEq, Eq)]
pub enum AppAction {
    Nothing,
    /// Run a single-source search, then report it with
    /// [`AppState::finish_search`].
    Search { source_id: u32, source_name: String, keyword: String },
}

/// Everything the interface shows, apart from drawing details.
#[derive(Debug, Clone)]
pub struct AppState {
    pub screen: Screen,
    pub menu_selected: Option<usize>,
    pub source_selected: Option<usize>,
    pub search_pick_selected: Option<usize>,
    pub search_result_selected: Option<usize>,
    pub sources: Vec<SourceInfo>,
    pub searchable_sources: Vec<SourceInfo>,
    pub search_input: String,
    pub search_hits: Vec<SearchHit>,
    pub searching: bool,
    pub rules_path: String,
    pub rules_error: Option<String>,
    pub catalog_loaded: bool,
    pub configured_source_id: u32,
    pub should_quit: bool,
    pub status: String,
}

/// `k` is a press of the character `c`.
pub open spec fn is_char(k: KeyInput, c: char) -> bool {
    k.key == Key::Char(c)
}

/// `k` moves up: the up arrow or `k`.
pub open spec fn is_up(k: KeyInput) -> bool {
    k.key == Key::Up || is_char(k, 'k')
}

/// `k` moves down: the down arrow or `j`.
pub open spec fn is_down(k: KeyInput) -> bool {
    k.key == Key::Down || is_char(k, 'j')
}

/// `k` leaves the page: Esc or `q`.
pub open spec fn is_back(k: KeyInput) -> bool {
    k.key == Key::Esc || is_char(k, 'q')
}

/// `t` is `s` with only its status changed, to `msg`.
pub open spec fn status_only(s: AppState, t: AppState, msg: Seq<char>) -> bool {
    t == AppState { status: t.status, ..s } && t.status@ == msg
}

/// `t` is `s` back on the home page.
pub open spec fn went_home(s: AppState, t: AppState) -> bool {
    t == AppState { screen: Screen::Home, status: t.status, ..s } && t.status@ == "已返回主菜单"@
}

/// `t` is `s` on the keyword page of source `id` / `name`, with the input,
/// the hits and their selection cleared.
pub open spec fn opened_input(s: AppState, t: AppState, id: u32, name: String) -> bool {
    &&& t == AppState {
        screen: Screen::SingleSearchInput { source_id: id, source_name: name },
        search_input: t.search_input,
        search_hits: t.search_hits,
        search_result_selected: None,
        status: t.status,
        ..s
    }
    &&& t.search_input@.len() == 0
    &&& t.search_hits@.len() == 0
    &&& t.status@ == "已选择 ["@ + decimal(id as nat) + "] "@ + name@ + "，请输入关键词"@
}

/// The index of the first searchable source with id `id`.
pub open spec fn searchable_index(v: Seq<SourceInfo>, id: u32, j: int) -> Option<int>
    decreases v.len() - j,
{
    if j < 0 || j >= v.len() {
        None
    } else if v[j].id == id {
        Some(j)
    } else {
        searchable_index(v, id, j + 1)
    }
}

/// The effect of opening the single-source search.
pub open spec fn opened_search(s: AppState, t: AppState) -> bool {
    if !s.catalog_loaded {
        status_only(s, t, "无法搜索：书源规则未加载"@)
    } else if s.searchable_sources@.len() == 0 {
        status_only(s, t, "当前规则包没有可搜索书源"@)
    } else if s.configured_source_id > 0 && searchable_index(
        s.searchable_sources@,
        s.configured_source_id,
        0,
    ) is Some {
        let i = searchable_index(s.searchable_sources@, s.configured_source_id, 0)->Some_0;
        opened_input(s, t, s.searchable_sources@[i].id, s.searchable_sources@[i].name)
    } else {
        &&& t == AppState {
            screen: Screen::SingleSearchPickSource,
            search_pick_selected: match s.search_pick_selected {
                Some(x) => Some(x),
                None => Some(0),
            },
            status: t.status,
            ..s
        }
        &&& t.status@ == "独立搜索 — 选择书源（可搜索 "@ + decimal(s.searchable_sources@.len())
            + " 个）· Enter 确认"@
    }
}

/// The effect of Enter on a main-menu entry.
pub open spec fn activated(s: AppState, t: AppState) -> bool {
    match s.menu_selected {
        None => t == s,
        Some(0) => status_only(
            AppState { screen: Screen::Placeholder("聚合搜索"), ..s },
            t,
            "功能尚未实现"@,
        ),
        Some(1) => opened_search(s, t),
        Some(2) => status_only(
            AppState { screen: Screen::Placeholder("批量下载"), ..s },
            t,
            "功能尚未实现"@,
        ),
        Some(3) => status_only(
            AppState { screen: Screen::Sources, ..s },
            t,
            if s.rules_error is Some {
                "书源规则加载失败，请检查配置"@
            } else {
                "书源一览 — 共 "@ + decimal(s.sources@.len()) + " 个 · ↑/↓ 浏览 · Esc 返回"@
            },
        ),
        Some(4) => status_only(
            AppState { screen: Screen::Config, ..s },
            t,
            "配置信息（只读）· Esc / q 返回"@,
        ),
        Some(5) => t == AppState { should_quit: true, ..s },
        Some(_) => t == s,
    }
}

/// The effect of a key on the home page.
pub open spec fn home_step(s: AppState, k: KeyInput, t: AppState) -> bool {
    if is_back(k) || (is_char(k, 'c') && k.control) {
        t == AppState { should_quit: true, ..s }
    } else if is_up(k) {
        let i = match s.menu_selected {
            Some(x) => x as int,
            None => 0,
        };
        t == AppState {
            menu_selected: Some(
                if i == 0 {
                    5usize
                } else {
                    (i - 1) as usize
                },
            ),
            ..s
        }
    } else if is_down(k) {
        let i = match s.menu_selected {
            Some(x) => x as int,
            None => 0,
        };
        t == AppState {
            menu_selected: Some(
                if i + 1 >= 6 {
                    0usize
                } else {
                    (i + 1) as usize
                },
            ),
            ..s
        }
    } else if k.key == Key::Enter {
        activated(s, t)
    } else {
        t == s
    }
}

/// The keyword search the input page starts.
pub open spec fn search_started(s: AppState, t: AppState, a: AppAction, id: u32, name: String) -> bool {
    let kw = trim(s.search_input@);
    if kw.len() == 0 {
        status_only(s, t, "关键词不能为空"@) && a == AppAction::Nothing
    } else if !s.catalog_loaded {
        status_only(s, t, "书源未加载"@) && a == AppAction::Nothing
    } else {
        &&& t == AppState { searching: true, status: t.status, ..s }
        &&& t.status@ == "正在搜索「"@ + kw + "」…"@
        &&& a matches AppAction::Search { source_id: i, source_name: n, keyword: w } && i == id
            && n == name && w@ == kw
    }
}

/// The effect of a key on the keyword page of source `id`.
pub open spec fn input_step(s: AppState, k: KeyInput, t: AppState, a: AppAction, id: u32, name: String) -> bool {
    if k.key == Key::Esc {
        status_only(AppState { screen: Screen::SingleSearchPickSource, ..s }, t, "已返回书源选择"@)
            && a == AppAction::Nothing
    } else if k.key == Key::Enter {
        search_started(s, t, a, id, name)
    } else {
        &&& a == AppAction::Nothing
        &&& t == AppState { search_input: t.search_input, ..s }
        &&& t.search_input@ == if k.key == Key::Backspace {
            if s.search_input@.len() > 0 {
                s.search_input@.drop_last()
            } else {
                s.search_input@
            }
        } else if is_char(k, 'u') && k.control {
            Seq::empty()
        } else {
            match k.key {
                Key::Char(c) => if !k.control {
                    s.search_input@.push(c)
                } else {
                    s.search_input@
                },
                _ => s.search_input@,
            }
        }
    }
}

/// The effect of a key press.
pub open spec fn key_step(s: AppState, k: KeyInput, t: AppState, a: AppAction) -> bool {
    if !k.press || s.searching {
        t == s && a == AppAction::Nothing
    } else {
        match s.screen {
            Screen::Home => home_step(s, k, t) && a == AppAction::Nothing,
            Screen::Sources => a == AppAction::Nothing && if is_back(k) {
                went_home(s, t)
            } else if is_up(k) {
                t == AppState { source_selected: moved(s.source_selected, s.sources@.len(), -1), ..s }
            } else if is_down(k) {
                t == AppState { source_selected: moved(s.source_selected, s.sources@.len(), 1), ..s }
            } else {
                t == s
            },
            Screen::SingleSearchPickSource => a == AppAction::Nothing && if is_back(k) {
                went_home(s, t)
            } else if is_up(k) {
                t == AppState {
                    search_pick_selected: moved(
                        s.search_pick_selected,
                        s.searchable_sources@.len(),
                        -1,
                    ),
                    ..s
                }
            } else if is_down(k) {
                t == AppState {
                    search_pick_selected: moved(
                        s.search_pick_selected,
                        s.searchable_sources@.len(),
                        1,
                    ),
                    ..s
                }
            } else if k.key == Key::Enter {
                match s.search_pick_selected {
                    Some(i) => if i < s.searchable_sources@.len() {
                        opened_input(
                            s,
                            t,
                            s.searchable_sources@[i as int].id,
                            s.searchable_sources@[i as int].name,
                        )
                    } else {
                        t == s
                    },
                    None => t == s,
                }
            } else {
                t == s
            },
            Screen::SingleSearchInput { source_id, source_name } => input_step(
                s,
                k,
                t,
                a,
                source_id,
                source_name,
            ),
            Screen::SingleSearchResults { source_id, source_name, .. } => a == AppAction::Nothing
                && if is_back(k) {
                went_home(s, t)
            } else if is_char(k, 'r') {
                opened_input(s, t, source_id, source_name)
            } else if is_up(k) {
                t == AppState {
                    search_result_selected: moved(
                        s.search_result_selected,
                        s.search_hits@.len(),
                        -1,
                    ),
                    ..s
                }
            } else if is_down(k) {
                t == AppState {
                    search_result_selected: moved(
                        s.search_result_selected,
                        s.search_hits@.len(),
                        1,
                    ),
                    ..s
                }
            } else {
                t == s
            },
            _ => a == AppAction::Nothing && if is_back(k) {
                went_home(s, t)
            } else {
                t == s
            },
        }
    }
}

fn is_back_key(k: KeyInput) -> (r: bool)
    ensures
        r == is_back(k),
{
    match k.key {
        Key::Esc => true,
        Key::Char(c) => c == 'q',
        _ => false,
    }
}

fn is_up_key(k: KeyInput) -> (r: bool)
    ensures
        r == is_up(k),
{
    match k.key {
        Key::Up => true,
        Key::Char(c) => c == 'k',
        _ => false,
    }
}

fn is_down_key(k: KeyInput) -> (r: bool)
    ensures
        r == is_down(k),
{
    match k.key {
        Key::Down => true,
        Key::Char(c) => c == 'j',
        _ => false,
    }
}

fn is_char_key(k: KeyInput, c: char) -> (r: bool)
    ensures
        r == is_char(k, c),
{
    match k.key {
        Key::Char(x) => x == c,
        _ => false,
    }
}

impl AppState {
    fn back_home(&mut self)
        ensures
            went_home(*old(self), *final(self)),
    {
        self.screen = Screen::Home;
        self.status = "已返回主菜单".to_string();
    }

    fn open_search_input(&mut self, source_id: u32, source_name: String)
        ensures
            opened_input(*old(self), *final(self), source_id, source_name),
    {
        self.search_input = String::new();
        self.search_hits = Vec::new();
        self.search_result_selected = None;
        let a = cat(cat("已选择 [", number_text(source_id as u64).as_str()).as_str(), "] ");
        let b = cat(a.as_str(), source_name.as_str());
        self.status = cat(b.as_str(), "，请输入关键词");
        self.screen = Screen::SingleSearchInput { source_id, source_name };
    }

    fn open_single_search(&mut self)
        ensures
            opened_search(*old(self), *final(self)),
    {
        if !self.catalog_loaded {
            self.status = "无法搜索：书源规则未加载".to_string();
            return;
        }
        if self.searchable_sources.len() == 0 {
            self.status = "当前规则包没有可搜索书源".to_string();
            return;
        }
        if self.configured_source_id > 0 {
            let n = self.searchable_sources.len();
            let mut j: usize = 0;
            while j < n
                invariant
                    *self == *old(self),
                    self.catalog_loaded,
                    self.configured_source_id > 0,
                    n == self.searchable_sources@.len(),
                    n > 0,
                    j <= n,
                    searchable_index(self.searchable_sources@, self.configured_source_id, 0)
                        == searchable_index(
                        self.searchable_sources@,
                        self.configured_source_id,
                        j as int,
                    ),
                decreases n - j,
            {
                if self.searchable_sources[j].id == self.configured_source_id {
                    assert(searchable_index(
                        self.searchable_sources@,
                        self.configured_source_id,
                        j as int,
                    ) == Some(j as int));
                    let id = self.searchable_sources[j].id;
                    let name = self.searchable_sources[j].name.clone();
                    self.open_search_input(id, name);
                    return;
                }
                j += 1;
            }
        }
        if self.search_pick_selected.is_none() {
            self.search_pick_selected = Some(0);
        }
        self.screen = Screen::SingleSearchPickSource;
        let m = cat(
            cat("独立搜索 — 选择书源（可搜索 ", number_text(self.searchable_sources.len() as u64).as_str()).as_str(),
            " 个）· Enter 确认",
        );
        self.status = m;
    }

    fn activate_menu(&mut self)
        ensures
            activated(*old(self), *final(self)),
    {
        let i = match self.menu_selected {
            Some(i) => i,
            None => return,
        };
        if i == 0 {
            self.screen = Screen::Placeholder("聚合搜索");
            self.status = "功能尚未实现".to_string();
        } else if i == 1 {
            self.open_single_search();
        } else if i == 2 {
            self.screen = Screen::Placeholder("批量下载");
            self.status = "功能尚未实现".to_string();
        } else if i == 3 {
            self.screen = Screen::Sources;
            self.status = if self.rules_error.is_some() {
                "书源规则加载失败，请检查配置".to_string()
            } else {
                cat(
                    cat("书源一览 — 共 ", number_text(self.sources.len() as u64).as_str()).as_str(),
                    " 个 · ↑/↓ 浏览 · Esc 返回",
                )
            };
        } else if i == 4 {
            self.screen = Screen::Config;
            self.status = "配置信息（只读）· Esc / q 返回".to_string();
        } else if i == 5 {
            self.should_quit = true;
        }
    }

    fn on_home_key(&mut self, key: KeyInput)
        ensures
            home_step(*old(self), key, *final(self)),
    {
        if is_back_key(key) || (is_char_key(key, 'c') && key.control) {
            self.should_quit = true;
        } else if is_up_key(key) {
            let i: usize = match self.menu_selected {
                Some(x) => x,
                None => 0,
            };
            self.menu_selected = Some(
                if i == 0 {
                    5
                } else {
                    i - 1
                },
            );
        } else if is_down_key(key) {
            let i: usize = match self.menu_selected {
                Some(x) => x,
                None => 0,
            };
            self.menu_selected = Some(
                if i >= 5 {
                    0
                } else {
                    i + 1
                },
            );
        } else if key.key == Key::Enter {
            self.activate_menu();
        }
    }

    fn run_search_from_input(&mut self, source_id: u32, source_name: String) -> (a: AppAction)
        ensures
            search_started(*old(self), *final(self), a, source_id, source_name),
    {
        let keyword = trimmed(self.search_input.as_str());
        if keyword.as_str().unicode_len() == 0 {
            self.status = "关键词不能为空".to_string();
            return AppAction::Nothing;
        }
        if !self.catalog_loaded {
            self.status = "书源未加载".to_string();
            return AppAction::Nothing;
        }
        self.searching = true;
        self.status = cat(cat("正在搜索「", keyword.as_str()).as_str(), "」…");
        AppAction::Search { source_id, source_name, keyword }
    }

    fn on_search_input_key(&mut self, key: KeyInput, source_id: u32, source_name: String) -> (a:
        AppAction)
        ensures
            input_step(*old(self), key, *final(self), a, source_id, source_name),
    {
        if key.key == Key::Esc {
            self.screen = Screen::SingleSearchPickSource;
            self.status = "已返回书源选择".to_string();
            return AppAction::Nothing;
        }
        if key.key == Key::Enter {
            return self.run_search_from_input(source_id, source_name);
        }
        let v = chars_of(self.search_input.as_str());
        if key.key == Key::Backspace {
            if v.len() > 0 {
                let w = crate::text::slice_of(v.as_slice(), 0, v.len() - 1);
                assert(w@ =~= v@.drop_last());
                self.search_input = string_of(w.as_slice());
            }
        } else if is_char_key(key, 'u') && key.control {
            self.search_input = String::new();
        } else {
            match key.key {
                Key::Char(c) => {
                    if !key.control {
                        let mut w = v;
                        w.push(c);
                        self.search_input = string_of(w.as_slice());
                    }
                },
                _ => {},
            }
        }
        AppAction::Nothing
    }

    /// Handles one key event.
    pub fn on_key(&mut self, key: KeyInput) -> (a: AppAction)
        ensures
            key_step(*old(self), key, *final(self), a),
    {
        if !key.press || self.searching {
            return AppAction::Nothing;
        }
        match &self.screen {
            Screen::Home => {
                self.on_home_key(key);
                AppAction::Nothing
            },
            Screen::Sources => {
                if is_back_key(key) {
                    self.back_home();
                } else if is_up_key(key) {
                    self.source_selected = step_selection(self.source_selected, self.sources.len(), false);
                } else if is_down_key(key) {
                    self.source_selected = step_selection(self.source_selected, self.sources.len(), true);
                }
                AppAction::Nothing
            },
            Screen::SingleSearchPickSource => {
                if is_back_key(key) {
                    self.back_home();
                } else if is_up_key(key) {
                    self.search_pick_selected = step_selection(
                        self.search_pick_selected,
                        self.searchable_sources.len(),
                        false,
                    );
                } else if is_down_key(key) {
                    self.search_pick_selected = step_selection(
                        self.search_pick_selected,
                        self.searchable_sources.len(),
                        true,
                    );
                } else if key.key == Key::Enter {
                    if let Some(i) = self.search_pick_selected {
                        if i < self.searchable_sources.len() {
                            let id = self.searchable_sources[i].id;
                            let name = self.searchable_sources[i].name.clone();
                            self.open_search_input(id, name);
                        }
                    }
                }
                AppAction::Nothing
            },
            Screen::SingleSearchInput { source_id, source_name } => {
                let id = *source_id;
                let name = source_name.clone();
                self.on_search_input_key(key, id, name)
            },
            Screen::SingleSearchResults { source_id, source_name, .. } => {
                let id = *source_id;
                let name = source_name.clone();
                if is_back_key(key) {
                    self.back_home();
                } else if is_char_key(key, 'r') {
                    self.open_search_input(id, name);
                } else if is_up_key(key) {
                    self.search_result_selected = step_selection(
                        self.search_result_selected,
                        self.search_hits.len(),
                        false,
                    );
                } else if is_down_key(key) {
                    self.search_result_selected = step_selection(
                        self.search_result_selected,
                        self.search_hits.len(),
                        true,
                    );
                }
                AppAction::Nothing
            },
            _ => {
                if is_back_key(key) {
                    self.back_home();
                }
                AppAction::Nothing
            },
        }
    }
}

impl AppState {
    /// The interface's first state, with the loaded rules pack (if any) and
    /// the error that prevented loading it (if any).
    pub fn new(catalog: Option<&RuleCatalog>, rules_error: Option<String>, configured_source_id: u32) -> (r:
        AppState)
        ensures
            r.screen == Screen::Home,
            r.menu_selected == Some(0usize),
            r.search_result_selected is None,
            r.search_input@.len() == 0,
            r.search_hits@.len() == 0,
            !r.searching,
            !r.should_quit,
            r.rules_error == rules_error,
            r.configured_source_id == configured_source_id,
            r.catalog_loaded == catalog is Some,
            selections_in_bounds(r),
            match catalog {
                Some(c) => {
                    let all = c.rules@.map_values(|x: Rule| info_of(x));
                    let found = searchable_rules(c.rules@).map_values(|x: Rule| info_of(x));
                    &&& r.sources@ == all
                    &&& r.searchable_sources@ == found
                    &&& r.source_selected == if all.len() > 0 {
                        Some(0usize)
                    } else {
                        None
                    }
                    &&& r.search_pick_selected == if found.len() > 0 {
                        Some(0usize)
                    } else {
                        None
                    }
                    &&& r.rules_path == c.path
                    &&& r.status@ == "就绪 — 已加载 "@ + decimal(all.len()) + " 个书源（可搜索 "@
                        + decimal(found.len()) + "）· ↑/↓ 移动 · Enter 打开 · q 退出"@
                },
                None => {
                    &&& r.sources@.len() == 0
                    &&& r.searchable_sources@.len() == 0
                    &&& r.source_selected is None
                    &&& r.search_pick_selected is None
                    &&& r.rules_path@.len() == 0
                    &&& r.status@ == match rules_error {
                        Some(e) => "就绪 — 书源未加载："@ + e@,
                        None => "就绪 — ↑/↓ 移动 · Enter 打开 · q 退出"@,
                    }
                },
            },
    {
        let catalog_loaded = catalog.is_some();
        let (sources, searchable_sources, rules_path, status) = match catalog {
            Some(c) => {
                let sources = c.sources();
                let searchable = c.searchable_sources();
                let a = cat("就绪 — 已加载 ", number_text(sources.len() as u64).as_str());
                let b = cat(cat(a.as_str(), " 个书源（可搜索 ").as_str(), number_text(searchable.len() as u64).as_str());
                let status = cat(b.as_str(), "）· ↑/↓ 移动 · Enter 打开 · q 退出");
                (sources, searchable, c.path.clone(), status)
            },
            None => {
                let status = match &rules_error {
                    Some(err) => cat("就绪 — 书源未加载：", err.as_str()),
                    None => "就绪 — ↑/↓ 移动 · Enter 打开 · q 退出".to_string(),
                };
                (Vec::new(), Vec::new(), String::new(), status)
            },
        };
        let source_selected = if sources.len() > 0 {
            Some(0)
        } else {
            None
        };
        let search_pick_selected = if searchable_sources.len() > 0 {
            Some(0)
        } else {
            None
        };
        AppState {
            screen: Screen::Home,
            menu_selected: Some(0),
            source_selected,
            search_pick_selected,
            search_result_selected: None,
            sources,
            searchable_sources,
            search_input: String::new(),
            search_hits: Vec::new(),
            searching: false,
            rules_path,
            rules_error,
            catalog_loaded,
            configured_source_id,
            should_quit: false,
            status,
        }
    }

    /// Records the outcome of a search started by [`AppState::on_key`]: the
    /// hits (shown on the results page) or the error's text.
    pub fn finish_search(
        &mut self,
        source_id: u32,
        source_name: String,
        keyword: String,
        result: Result<Vec<SearchHit>, String>,
    )
        ensures
            selections_in_bounds(*old(self)) ==> selections_in_bounds(*final(self)),
            match result {
                Ok(hits) => {
                    &&& *final(self) == AppState {
                        searching: false,
                        search_hits: hits,
                        search_result_selected: if hits@.len() > 0 {
                            Some(0usize)
                        } else {
                            None
                        },
                        screen: Screen::SingleSearchResults { source_id, source_name, keyword },
                        status: final(self).status,
                        ..*old(self)
                    }
                    &&& final(self).status@ == "搜索完成 — ["@ + decimal(source_id as nat) + "] "@
                        + source_name@ + " · 「"@ + keyword@ + "」· "@ + decimal(hits@.len())
                        + " 条 · r 重搜"@
                },
                Err(e) => {
                    &&& *final(self) == AppState {
                        searching: false,
                        status: final(self).status,
                        ..*old(self)
                    }
                    &&& final(self).status@ == "搜索失败："@ + e@
                },
            },
    {
        self.searching = false;
        match result {
            Ok(hits) => {
                let count = hits.len();
                self.search_hits = hits;
                self.search_result_selected = if count > 0 {
                    Some(0)
                } else {
                    None
                };
                let a = cat(cat("搜索完成 — [", number_text(source_id as u64).as_str()).as_str(), "] ");
                let b = cat(cat(a.as_str(), source_name.as_str()).as_str(), " · 「");
                let c = cat(cat(b.as_str(), keyword.as_str()).as_str(), "」· ");
                let d = cat(cat(c.as_str(), number_text(count as u64).as_str()).as_str(), " 条 · r 重搜");
                self.status = d;
                self.screen = Screen::SingleSearchResults { source_id, source_name, keyword };
            },
            Err(e) => {
                self.status = cat("搜索失败：", e.as_str());
            },
        }
    }
}

/// Every selection of `s` points at a row of its list: the menu's among its
/// six entries, the others within their tables.
pub open spec fn selections_in_bounds(s: AppState) -> bool {
    &&& (s.menu_selected matches Some(i) ==> i < 6)
    &&& (s.source_selected matches Some(i) ==> i < s.sources@.len())
    &&& (s.search_pick_selected matches Some(i) ==> i < s.searchable_sources@.len())
    &&& (s.search_result_selected matches Some(i) ==> i < s.search_hits@.len())
}

/// Moving in a non-empty list always selects one of its rows.
pub proof fn lemma_moved_in_bounds(selected: Option<usize>, len: nat, delta: int)
    requires
        len > 0,
        len <= usize::MAX,
    ensures
        moved(selected, len, delta) matches Some(x) && x < len,
{
    let cur = match selected {
        Some(i) => i as int,
        None => 0,
    };
    vstd::arithmetic::div_mod::lemma_mod_bound(cur + delta, len as int);
}

/// One step down then one step up (or up then down) returns to the row
/// selected before.
pub proof fn lemma_moved_steps_cancel(i: usize, len: nat)
    requires
        i < len,
        len <= usize::MAX,
    ensures
        moved(moved(Some(i), len, 1), len, -1) == Some(i),
        moved(moved(Some(i), len, -1), len, 1) == Some(i),
{
    let l = len as int;
    let x = i as int;
    if x + 1 < l {
        vstd::arithmetic::div_mod::lemma_small_mod((x + 1) as nat, len);
        vstd::arithmetic::div_mod::lemma_small_mod(x as nat, len);
    } else {
        vstd::arithmetic::div_mod::lemma_mod_self_0(l);
        vstd::arithmetic::div_mod::lemma_mod_add_multiples_vanish(-1, l);
        vstd::arithmetic::div_mod::lemma_small_mod((l - 1) as nat, len);
    }
    if x > 0 {
        vstd::arithmetic::div_mod::lemma_small_mod((x - 1) as nat, len);
        vstd::arithmetic::div_mod::lemma_small_mod(x as nat, len);
    } else {
        vstd::arithmetic::div_mod::lemma_mod_add_multiples_vanish(-1, l);
        vstd::arithmetic::div_mod::lemma_small_mod((l - 1) as nat, len);
        vstd::arithmetic::div_mod::lemma_mod_self_0(l);
    }
}

/// No key takes a selection out of its list.
pub proof fn lemma_key_step_keeps_selections(s: AppState, k: KeyInput, t: AppState, a: AppAction)
    requires
        selections_in_bounds(s),
        key_step(s, k, t, a),
        s.sources@.len() <= usize::MAX,
        s.searchable_sources@.len() <= usize::MAX,
        s.search_hits@.len() <= usize::MAX,
    ensures
        selections_in_bounds(t),
{
    if s.sources@.len() > 0 {
        lemma_moved_in_bounds(s.source_selected, s.sources@.len(), 1);
        lemma_moved_in_bounds(s.source_selected, s.sources@.len(), -1);
    }
    if s.searchable_sources@.len() > 0 {
        lemma_moved_in_bounds(s.search_pick_selected, s.searchable_sources@.len(), 1);
        lemma_moved_in_bounds(s.search_pick_selected, s.searchable_sources@.len(), -1);
    }
    if s.search_hits@.len() > 0 {
        lemma_moved_in_bounds(s.search_result_selected, s.search_hits@.len(), 1);
        lemma_moved_in_bounds(s.search_result_selected, s.search_hits@.len(), -1);
    }
    if s.configured_source_id > 0 {
        lemma_searchable_index(s.searchable_sources@, s.configured_source_id, 0);
    }
}

proof fn lemma_searchable_index(v: Seq<SourceInfo>, id: u32, j: int)
    requires
        0 <= j,
    ensures
        searchable_index(v, id, j) matches Some(i) ==> j <= i < v.len() && v[i].id == id,
    decreases v.len() - j,
{
    if j < v.len() {
        lemma_searchable_index(v, id, j + 1);
    }
}

/// A cut display string is never longer than the width asked for (one
/// character when the width is zero), ends in `…` when it was cut, and
/// otherwise is the input itself.
pub proof fn lemma_truncated_fits(input: Seq<char>, max_chars: nat)
    ensures
        truncated(input, max_chars).len() <= if max_chars >= 1 {
            max_chars
        } else {
            1
        },
        input.len() <= max_chars ==> truncated(input, max_chars) == input,
        input.len() > max_chars ==> truncated(input, max_chars).last() == '…'
            && truncated(input, max_chars).drop_last() == input.take(truncated(input, max_chars).len() - 1),
{
}


proof fn lemma_searchable_index_first(v: Seq<SourceInfo>, id: u32, j: int)
    requires
        0 <= j,
    ensures
        searchable_index(v, id, j) matches Some(i) ==> j <= i < v.len() && v[i].id == id && forall|
            p: int,
        | j <= p < i ==> (#[trigger] v[p]).id != id,
        searchable_index(v, id, j) is None ==> forall|p: int| j <= p < v.len() ==> (#[trigger] v[p]).id
            != id,
    decreases v.len() - j,
{
    if j < v.len() {
        lemma_searchable_index_first(v, id, j + 1);
    }
}

/// Opening the single-source search from the menu with a configured source
/// id that names a searchable source goes straight to the keyword page of
/// that source (the first listed with that id), under its own name; with a
/// configured id that names none, the source picker opens instead.
pub proof fn lemma_configured_source_opens(s: AppState, k: KeyInput, t: AppState, a: AppAction)
    requires
        key_step(s, k, t, a),
        k.press,
        !s.searching,
        s.screen == Screen::Home,
        k.key == Key::Enter,
        s.menu_selected == Some(1usize),
        s.catalog_loaded,
        s.configured_source_id > 0,
    ensures
        (exists|j: int|
            0 <= j < s.searchable_sources@.len() && (#[trigger] s.searchable_sources@[j]).id
                == s.configured_source_id) ==> (t.screen matches Screen::SingleSearchInput {
            source_id: id,
            source_name: name,
        } && id == s.configured_source_id && exists|j: int|
            0 <= j < s.searchable_sources@.len() && (#[trigger] s.searchable_sources@[j]).id == id
                && s.searchable_sources@[j].name == name && forall|p: int|
                0 <= p < j ==> (#[trigger] s.searchable_sources@[p]).id != id),
        (forall|j: int|
            0 <= j < s.searchable_sources@.len() ==> (#[trigger] s.searchable_sources@[j]).id
                != s.configured_source_id) && s.searchable_sources@.len() > 0
            ==> t.screen == Screen::SingleSearchPickSource,
{
    lemma_searchable_index_first(s.searchable_sources@, s.configured_source_id, 0);
    if let Some(i) = searchable_index(s.searchable_sources@, s.configured_source_id, 0) {
        assert(s.searchable_sources@[i].id == s.configured_source_id);
    }
}

} // verus!
