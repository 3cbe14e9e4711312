//! The menu bar: menus of labelled actions, which menu is open and which item
//! of it is highlighted, keyboard navigation and mouse clicks in the open
//! dropdown.
use vstd::prelude::*;
use crate::keys::{KeyCode, KeyEvent};
use crate::text::{byte_len, lemma_utf8_len_bound, utf8_len};

verus! {

/// What a menu item or a command does.
#[derive(Debug, Clone, Copy, PartialEq, Eq, Structural)]
pub enum MenuAction {
    NewFile,
    NewFolder,
    Rename,
    Delete,
    Quit,
    Undo,
    Redo,
    ToggleHidden,
    TogglePreview,
    CycleSort,
    CycleTheme,
    Refresh,
    OpenEditor,
    GoUp,
    ShowKeybindings,
    ShowAbout,
    OpenCommandPalette,
}

/// A row of a dropdown: an action with its label and shortcut, or a separator.
#[derive(Debug, Clone)]
pub struct MenuItem {
    pub label: String,
    pub shortcut: String,
    pub action: Option<MenuAction>,
    pub separator: bool,
}

/// A menu of the bar.
#[derive(Debug, Clone)]
pub struct Menu {
    pub name: String,
    pub items: Vec<MenuItem>,
}

/// The menus and which one is open.
#[derive(Debug, Clone)]
pub struct MenuBarState {
    pub menus: Vec<Menu>,
    pub open_index: Option<usize>,
    pub selected_item: Option<usize>,
}

fn text(chars: &Vec<char>) -> (s: String)
    ensures
        s@ == chars@,
{
    crate::text::string_from_chars(chars)
}

impl MenuItem {
    /// An item that runs `action`.
    pub fn action(label: &str, shortcut: &str, action: MenuAction) -> (m: Self)
        ensures
            item_view(m) == action_row(label@, shortcut@, action),
    {
        MenuItem { label: label.to_owned(), shortcut: shortcut.to_owned(), action: Some(action), separator: false }
    }

    /// A separator line.
    pub fn separator() -> (m: Self)
        ensures
            item_view(m) == separator_row(),
    {
        let m = MenuItem { label: String::new(), shortcut: String::new(), action: None, separator: true };
        assert(m.label@ =~= Seq::<char>::empty());
        assert(m.shortcut@ =~= Seq::<char>::empty());
        m
    }
}

/// The bytes a menu name takes in the bar, as `len() as u16` counts them.
pub open spec fn name_width(m: Menu) -> int {
    (utf8_len(m.name@) % 0x10000) as int
}

/// The column where the title of menu `k` starts: each earlier title takes
/// its width and three more columns.
pub open spec fn column_offset(menus: Seq<Menu>, k: int) -> int
    decreases k,
{
    if k <= 0 {
        0
    } else {
        column_offset(menus, k - 1) + name_width(menus[k - 1]) + 3
    }
}

/// The width of a dropdown row: separators take none, items their label and
/// shortcut and four more.
pub open spec fn row_width(item: MenuItem) -> int {
    if item.separator {
        0
    } else {
        (utf8_len(item.label@) + utf8_len(item.shortcut@) + 4) as int
    }
}

/// The widest row of the first `k` items (0 for none).
pub open spec fn widest_row(items: Seq<MenuItem>, k: int) -> int
    decreases k,
{
    if k <= 0 {
        0
    } else {
        let w = row_width(items[k - 1]);
        let r = widest_row(items, k - 1);
        if w > r {
            w
        } else {
            r
        }
    }
}

/// The dropdown's width: the widest row and four more, at least 14, as a
/// `u16` (truncated); 10 stands for the widest row of an empty menu.
pub open spec fn dropdown_width(items: Seq<MenuItem>) -> int {
    let widest = if items.len() == 0 {
        10
    } else {
        widest_row(items, items.len() as int)
    };
    let w = if widest + 4 > 14 {
        widest + 4
    } else {
        14
    };
    w % 0x10000
}

/// An item as plain values: label, shortcut, action, and whether it is a
/// separator.
pub open spec fn item_view(i: MenuItem) -> (Seq<char>, Seq<char>, Option<MenuAction>, bool) {
    (i.label@, i.shortcut@, i.action, i.separator)
}

/// The menus as plain values: each name with its items.
pub open spec fn menus_view(menus: Seq<Menu>) -> Seq<(Seq<char>, Seq<(Seq<char>, Seq<char>, Option<MenuAction>, bool)>)> {
    menus.map_values(|m: Menu| (m.name@, m.items@.map_values(|i: MenuItem| item_view(i))))
}

/// An item that runs `a`.
pub open spec fn action_row(label: Seq<char>, shortcut: Seq<char>, a: MenuAction) -> (
    Seq<char>,
    Seq<char>,
    Option<MenuAction>,
    bool,
) {
    (label, shortcut, Some(a), false)
}

/// A separator line.
pub open spec fn separator_row() -> (Seq<char>, Seq<char>, Option<MenuAction>, bool) {
    (Seq::empty(), Seq::empty(), None, true)
}

/// The menu bar's menus and their items.
pub open spec fn default_menus() -> Seq<(Seq<char>, Seq<(Seq<char>, Seq<char>, Option<MenuAction>, bool)>)> {
    seq![
        ("File"@, seq![
            action_row("New File"@, "Ctrl+N"@, MenuAction::NewFile),
            action_row("New Folder"@, ""@, MenuAction::NewFolder),
            separator_row(),
            action_row("Rename"@, "Ctrl+R"@, MenuAction::Rename),
            action_row("Delete"@, "Del"@, MenuAction::Delete),
            separator_row(),
            action_row("Quit"@, "Ctrl+Q"@, MenuAction::Quit),
        ]),
        ("Edit"@, seq![
            action_row("Open in Editor"@, "e"@, MenuAction::OpenEditor),
            separator_row(),
            action_row("Undo"@, "Ctrl+Z"@, MenuAction::Undo),
            action_row("Redo"@, "Ctrl+Y"@, MenuAction::Redo),
        ]),
        ("View"@, seq![
            action_row("Toggle Hidden Files"@, "Ctrl+H"@, MenuAction::ToggleHidden),
            action_row("Toggle Preview"@, "Tab"@, MenuAction::TogglePreview),
            action_row("Cycle Sort Order"@, "Ctrl+O"@, MenuAction::CycleSort),
            action_row("Cycle Theme"@, "Ctrl+T"@, MenuAction::CycleTheme),
            separator_row(),
            action_row("Refresh"@, "F5"@, MenuAction::Refresh),
            action_row("Go Up"@, "\u{2190}"@, MenuAction::GoUp),
        ]),
        ("Help"@, seq![
            action_row("Keybindings"@, ""@, MenuAction::ShowKeybindings),
            action_row("About"@, ""@, MenuAction::ShowAbout),
        ]),
    ]
}

impl MenuBarState {
    /// The open menu and its highlighted item index are in range, and every
    /// menu has items.
    pub open spec fn well_formed(&self) -> bool {
        &&& self.menus@.len() > 0
        &&& forall|i: int| 0 <= i < self.menus@.len() ==> (#[trigger] self.menus@[i]).items@.len() > 0
        &&& self.open_index matches Some(i) ==> i < self.menus@.len()
    }

    /// The bar with no menu open.
    pub open spec fn closed(self) -> MenuBarState {
        MenuBarState { open_index: None, selected_item: None, ..self }
    }

    /// After `move_left`.
    pub open spec fn moved_left(self) -> MenuBarState {
        match self.open_index {
            Some(i) => MenuBarState {
                open_index: Some(if i == 0 { (self.menus@.len() - 1) as usize } else { (i - 1) as usize }),
                selected_item: Some(0),
                ..self
            },
            None => self,
        }
    }

    /// After `move_right`.
    pub open spec fn moved_right(self) -> MenuBarState {
        match self.open_index {
            Some(i) => MenuBarState {
                open_index: Some(((i + 1) % (self.menus@.len() as int)) as usize),
                selected_item: Some(0),
                ..self
            },
            None => self,
        }
    }

    /// After `move_up`.
    pub open spec fn moved_up(self) -> MenuBarState {
        match (self.open_index, self.selected_item) {
            (Some(i), Some(s)) => MenuBarState {
                selected_item: Some(if s == 0 {
                    (self.menus@[i as int].items@.len() - 1) as usize
                } else {
                    (s - 1) as usize
                }),
                ..self
            },
            _ => self,
        }
    }

    /// After `move_down`.
    pub open spec fn moved_down(self) -> MenuBarState {
        match (self.open_index, self.selected_item) {
            (Some(i), Some(s)) => MenuBarState {
                selected_item: Some(if s >= self.menus@[i as int].items@.len() - 1 {
                    0usize
                } else {
                    (s + 1) as usize
                }),
                ..self
            },
            _ => self,
        }
    }

    /// What `select_item` returns.
    pub open spec fn highlighted_action(self) -> Option<MenuAction> {
        match (self.open_index, self.selected_item) {
            (Some(i), Some(s)) => if s < self.menus@[i as int].items@.len() {
                self.menus@[i as int].items@[s as int].action
            } else {
                None
            },
            _ => None,
        }
    }

    /// `move_left` does not panic.
    pub open spec fn can_move_left(self) -> bool {
        self.open_index is Some ==> self.menus@.len() > 0
    }

    /// `move_right` does not panic.
    pub open spec fn can_move_right(self) -> bool {
        self.open_index matches Some(i) ==> self.menus@.len() > 0 && i < usize::MAX
    }

    /// `move_up` and `move_down` do not panic.
    pub open spec fn can_move_vertically(self) -> bool {
        self.selected_item is Some ==> (self.open_index matches Some(i) ==> {
            &&& i < self.menus@.len()
            &&& self.menus@[i as int].items@.len() > 0
        })
    }

    /// `select_item` does not panic.
    pub open spec fn can_select(self) -> bool {
        self.selected_item is Some ==> (self.open_index matches Some(i) ==> i < self.menus@.len())
    }

    /// The File, Edit, View and Help menus (see `default_menus`), none open.
    pub fn new() -> (m: Self)
        ensures
            menus_view(m.menus@) == default_menus(),
            m.well_formed(),
            menus_fit(m.menus@),
            m.open_index is None,
            m.selected_item is None,
    {
        let file_menu = Menu {
            name: "File".to_owned(),
            items: vec![
                MenuItem::action("New File", "Ctrl+N", MenuAction::NewFile),
                MenuItem::action("New Folder", "", MenuAction::NewFolder),
                MenuItem::separator(),
                MenuItem::action("Rename", "Ctrl+R", MenuAction::Rename),
                MenuItem::action("Delete", "Del", MenuAction::Delete),
                MenuItem::separator(),
                MenuItem::action("Quit", "Ctrl+Q", MenuAction::Quit),
            ],
        };
        let edit_menu = Menu {
            name: "Edit".to_owned(),
            items: vec![
                MenuItem::action("Open in Editor", "e", MenuAction::OpenEditor),
                MenuItem::separator(),
                MenuItem::action("Undo", "Ctrl+Z", MenuAction::Undo),
                MenuItem::action("Redo", "Ctrl+Y", MenuAction::Redo),
            ],
        };
        let view_menu = Menu {
            name: "View".to_owned(),
            items: vec![
                MenuItem::action("Toggle Hidden Files", "Ctrl+H", MenuAction::ToggleHidden),
                MenuItem::action("Toggle Preview", "Tab", MenuAction::TogglePreview),
                MenuItem::action("Cycle Sort Order", "Ctrl+O", MenuAction::CycleSort),
                MenuItem::action("Cycle Theme", "Ctrl+T", MenuAction::CycleTheme),
                MenuItem::separator(),
                MenuItem::action("Refresh", "F5", MenuAction::Refresh),
                MenuItem::action("Go Up", "\u{2190}", MenuAction::GoUp),
            ],
        };
        let help_menu = Menu {
            name: "Help".to_owned(),
            items: vec![
                MenuItem::action("Keybindings", "", MenuAction::ShowKeybindings),
                MenuItem::action("About", "", MenuAction::ShowAbout),
            ],
        };
        proof {
            reveal_strlit("File");
            reveal_strlit("Edit");
            reveal_strlit("View");
            reveal_strlit("Help");
            reveal_strlit("New File");
            reveal_strlit("New Folder");
            reveal_strlit("Rename");
            reveal_strlit("Delete");
            reveal_strlit("Quit");
            reveal_strlit("Open in Editor");
            reveal_strlit("Undo");
            reveal_strlit("Redo");
            reveal_strlit("Toggle Hidden Files");
            reveal_strlit("Toggle Preview");
            reveal_strlit("Cycle Sort Order");
            reveal_strlit("Cycle Theme");
            reveal_strlit("Refresh");
            reveal_strlit("Go Up");
            reveal_strlit("Keybindings");
            reveal_strlit("About");
            reveal_strlit("Ctrl+N");
            reveal_strlit("");
            reveal_strlit("Ctrl+R");
            reveal_strlit("Del");
            reveal_strlit("Ctrl+Q");
            reveal_strlit("e");
            reveal_strlit("Ctrl+Z");
            reveal_strlit("Ctrl+Y");
            reveal_strlit("Ctrl+H");
            reveal_strlit("Tab");
            reveal_strlit("Ctrl+O");
            reveal_strlit("Ctrl+T");
            reveal_strlit("F5");
            reveal_strlit("\u{2190}");
            assert(short_menu(file_menu));
            assert(short_menu(edit_menu));
            assert(short_menu(view_menu));
            assert(short_menu(help_menu));
        }
        let m = MenuBarState {
            menus: vec![file_menu, edit_menu, view_menu, help_menu],
            open_index: None,
            selected_item: None,
        };
        assert(m.menus@[0].items@.map_values(|i: MenuItem| item_view(i)) =~= default_menus()[0].1);
        assert(m.menus@[1].items@.map_values(|i: MenuItem| item_view(i)) =~= default_menus()[1].1);
        assert(m.menus@[2].items@.map_values(|i: MenuItem| item_view(i)) =~= default_menus()[2].1);
        assert(m.menus@[3].items@.map_values(|i: MenuItem| item_view(i)) =~= default_menus()[3].1);
        assert(menus_view(m.menus@) =~= default_menus());
        proof {
            assert forall|i: int| 0 <= i < m.menus@.len() implies #[trigger] short_menu(m.menus@[i]) by {
                if i == 0 {
                } else if i == 1 {
                } else if i == 2 {
                } else {
                }
            }
            lemma_short_menus_fit(m.menus@);
        }
        m
    }

    /// Opens menu `index` with its first item highlighted.
    pub fn open(&mut self, index: usize)
        ensures
            *final(self) == (MenuBarState { open_index: Some(index), selected_item: Some(0), ..*old(self) }),
    {
        self.open_index = Some(index);
        self.selected_item = Some(0);
    }

    /// Closes the open menu.
    pub fn close(&mut self)
        ensures
            *final(self) == (MenuBarState { open_index: None, selected_item: None, ..*old(self) }),
    {
        self.open_index = None;
        self.selected_item = None;
    }

    /// A menu is open.
    pub fn is_open(&self) -> (r: bool)
        ensures
            r == self.open_index is Some,
    {
        self.open_index.is_some()
    }

    /// Opens the menu to the left (the last one from the first) with its first
    /// item highlighted; with no menu open nothing changes.
    pub fn move_left(&mut self)
        requires
            old(self).can_move_left(),
        ensures
            *final(self) == old(self).moved_left(),
    {
        if let Some(idx) = self.open_index {
            if idx == 0 {
                self.open_index = Some(self.menus.len() - 1);
            } else {
                self.open_index = Some(idx - 1);
            }
            self.selected_item = Some(0);
        }
    }

    /// Opens the menu to the right (the first one from the last) with its
    /// first item highlighted; with no menu open nothing changes.
    pub fn move_right(&mut self)
        requires
            old(self).can_move_right(),
        ensures
            *final(self) == old(self).moved_right(),
    {
        if let Some(idx) = self.open_index {
            self.open_index = Some((idx + 1) % self.menus.len());
            self.selected_item = Some(0);
        }
    }

    /// Highlights the item above (the last one from the first).
    pub fn move_up(&mut self)
        requires
            old(self).can_move_vertically(),
        ensures
            *final(self) == old(self).moved_up(),
    {
        if let Some(idx) = self.open_index {
            if let Some(sel) = self.selected_item {
                let n = self.menus[idx].items.len();
                let new_sel = if sel == 0 {
                    n - 1
                } else {
                    sel - 1
                };
                self.selected_item = Some(new_sel);
            }
        }
    }

    /// Highlights the item below (the first one from the last).
    pub fn move_down(&mut self)
        requires
            old(self).can_move_vertically(),
        ensures
            *final(self) == old(self).moved_down(),
    {
        if let Some(idx) = self.open_index {
            if let Some(sel) = self.selected_item {
                let n = self.menus[idx].items.len();
                let new_sel = if sel >= n - 1 {
                    0
                } else {
                    sel + 1
                };
                self.selected_item = Some(new_sel);
            }
        }
    }

    /// The action of the highlighted item, if a menu is open, the item exists
    /// and is not a separator.
    pub fn select_item(&self) -> (r: Option<MenuAction>)
        requires
            self.can_select(),
        ensures
            r == self.highlighted_action(),
    {
        if let Some(idx) = self.open_index {
            if let Some(sel) = self.selected_item {
                let menu = &self.menus[idx];
                if sel < menu.items.len() {
                    return menu.items[sel].action;
                }
            }
        }
        None
    }

    /// The column where the title of menu `index` starts in the bar (the end
    /// of the last title when `index` is past the last menu).
    pub fn menu_bar_column_offset(&self, index: usize) -> (r: u16)
        requires
            column_offset(
                self.menus@,
                if index < self.menus@.len() { index as int } else { self.menus@.len() as int },
            ) <= u16::MAX,
        ensures
            r == column_offset(
                self.menus@,
                if index < self.menus@.len() { index as int } else { self.menus@.len() as int },
            ),
    {
        let mut offset: u16 = 0;
        let mut i: usize = 0;
        let end = if index < self.menus.len() { index } else { self.menus.len() };
        while i < end
            invariant
                end <= self.menus@.len(),
                end == (if index < self.menus@.len() { index as int } else { self.menus@.len() as int }),
                i <= end,
                offset == column_offset(self.menus@, i as int),
                column_offset(self.menus@, end as int) <= u16::MAX,
            decreases end - i,
        {
            proof {
                lemma_column_offset_monotone(self.menus@, i + 1, end as int);
            }
            let w = byte_len(self.menus[i].name.as_str());
            let w16 = (w % 0x10000) as u16;
            offset = offset + w16 + 3;
            i = i + 1;
        }
        offset
    }

    /// The menu whose title in the bar holds column `col` (its width and two
    /// more columns), if any.
    pub fn title_at(&self, col: u16) -> (r: Option<usize>)
        requires
            column_offset(self.menus@, self.menus@.len() as int) <= u16::MAX,
        ensures
            match r {
                Some(i) => title_hit(self.menus@, 0, col as int) == Some(i as int),
                None => title_hit(self.menus@, 0, col as int) is None,
            },
    {
        let mut offset: u16 = 0;
        let mut i: usize = 0;
        while i < self.menus.len()
            invariant
                i <= self.menus@.len(),
                offset == column_offset(self.menus@, i as int),
                column_offset(self.menus@, self.menus@.len() as int) <= u16::MAX,
                title_hit(self.menus@, 0, col as int) == title_hit(self.menus@, i as int, col as int),
            decreases self.menus.len() - i,
        {
            proof {
                lemma_column_offset_monotone(self.menus@, i + 1, self.menus@.len() as int);
            }
            let w = byte_len(self.menus[i].name.as_str());
            let width = (w % 0x10000) as u16 + 2;
            if col >= offset && col < offset + width {
                return Some(i);
            }
            offset = offset + width + 1;
            i = i + 1;
        }
        None
    }

    /// The width of menu `index`'s dropdown (see `dropdown_width`).
    pub fn dropdown_width_of(&self, index: usize) -> (w: u16)
        requires
            index < self.menus@.len(),
            widest_row(self.menus@[index as int].items@, self.menus@[index as int].items@.len() as int) + 4
                <= usize::MAX,
        ensures
            w == dropdown_width(self.menus@[index as int].items@),
    {
        let menu = &self.menus[index];
        let ghost items = menu.items@;
        let n = menu.items.len();
        let mut widest: usize = 0;
        let mut k: usize = 0;
        while k < n
            invariant
                n == items.len(),
                index < self.menus@.len(),
                items == self.menus@[index as int].items@,
                k <= n,
                widest == widest_row(items, k as int),
                widest_row(items, n as int) + 4 <= usize::MAX,
            decreases n - k,
        {
            proof {
                lemma_widest_row_monotone(items, k + 1, n as int);
            }
            let item = &self.menus[index].items[k];
            let w = if item.separator {
                0
            } else {
                byte_len(item.label.as_str()) + byte_len(item.shortcut.as_str()) + 4
            };
            if w > widest {
                widest = w;
            }
            k = k + 1;
        }
        let max_label_len: usize = if n == 0 { 10 } else { widest };
        let wide = if max_label_len + 4 > 14 { max_label_len + 4 } else { 14 };
        (wide % 0x10000) as u16
    }

    /// Clicking in the open dropdown does not overflow: the title offset, the
    /// row widths and the dropdown's right edge fit their integer types.
    pub open spec fn can_click(self) -> bool {
        self.open_index matches Some(i) ==> {
            let items = self.menus@[i as int].items@;
            &&& i < self.menus@.len()
            &&& column_offset(self.menus@, i as int) <= u16::MAX
            &&& widest_row(items, items.len() as int) + 4 <= usize::MAX
            &&& column_offset(self.menus@, i as int) + dropdown_width(items) <= u16::MAX
        }
    }

    /// What a click at (`row`, `col`) in the screen does, and returns, with
    /// menu `i` open: outside the dropdown's columns it closes the menu; on an
    /// item row inside its border it runs the item (closing the menu); on the
    /// border, a separator or below the items nothing happens.
    pub open spec fn clicked(self, row: int, col: int) -> (MenuBarState, Option<MenuAction>) {
        match self.open_index {
            None => (self, None),
            Some(i) => {
                let items = self.menus@[i as int].items@;
                let x = column_offset(self.menus@, i as int);
                let w = dropdown_width(items);
                if col < x || col >= x + w {
                    (self.closed(), None)
                } else if row <= 1 || col < x + 1 || col >= x + w - 1 {
                    (self, None)
                } else if row - 2 >= items.len() || items[row - 2].separator {
                    (self, None)
                } else {
                    (self.closed(), items[row - 2].action)
                }
            },
        }
    }

    /// Handles a mouse click at (`row`, `col`) while a menu is open.
    pub fn handle_dropdown_click(&mut self, row: u16, col: u16) -> (r: Option<MenuAction>)
        requires
            old(self).can_click(),
        ensures
            (*final(self), r) == old(self).clicked(row as int, col as int),
    {
        let open_idx = match self.open_index {
            Some(i) => i,
            None => return None,
        };
        let menu_x = self.menu_bar_column_offset(open_idx);
        let dropdown_width = self.dropdown_width_of(open_idx);
        if col < menu_x || col >= menu_x + dropdown_width {
            self.close();
            return None;
        }
        let dropdown_top: u16 = 1;
        let inner_left: u16 = menu_x + 1;
        let inner_right: u16 = menu_x + dropdown_width - 1;
        if row <= dropdown_top || col < inner_left || col >= inner_right {
            return None;
        }
        let item_row = row - dropdown_top - 1;
        if item_row as usize >= self.menus[open_idx].items.len() {
            return None;
        }
        let item = &self.menus[open_idx].items[item_row as usize];
        if item.separator {
            return None;
        }
        let action = item.action;
        self.close();
        action
    }

    /// What a key does while a menu is open: Esc and F10 close it, the arrows
    /// move, Enter runs the highlighted action and closes, Ctrl+P closes and
    /// asks for the command palette.
    pub open spec fn key_result(self, key: KeyEvent) -> (MenuBarState, Option<MenuAction>) {
        match key.code {
            KeyCode::Esc => (self.closed(), None),
            KeyCode::Left => (self.moved_left(), None),
            KeyCode::Right => (self.moved_right(), None),
            KeyCode::Up => (self.moved_up(), None),
            KeyCode::Down => (self.moved_down(), None),
            KeyCode::Enter => (self.closed(), self.highlighted_action()),
            KeyCode::Char(c) => if c == 'p' && key.ctrl {
                (self.closed(), Some(MenuAction::OpenCommandPalette))
            } else {
                (self, None)
            },
            KeyCode::F(n) => if n == 10 {
                (self.closed(), None)
            } else {
                (self, None)
            },
            _ => (self, None),
        }
    }

    /// The key can be handled without a panic.
    pub open spec fn can_handle_key(self, key: KeyEvent) -> bool {
        match key.code {
            KeyCode::Left => self.can_move_left(),
            KeyCode::Right => self.can_move_right(),
            KeyCode::Up => self.can_move_vertically(),
            KeyCode::Down => self.can_move_vertically(),
            KeyCode::Enter => self.can_select(),
            _ => true,
        }
    }

    /// Handles a key while a menu is open; returns the action to run, if any.
    pub fn handle_key_event(&mut self, key: KeyEvent) -> (r: Option<MenuAction>)
        requires
            old(self).can_handle_key(key),
        ensures
            (*final(self), r) == old(self).key_result(key),
    {
        match key.code {
            KeyCode::Esc => {
                self.close();
                None
            },
            KeyCode::Left => {
                self.move_left();
                None
            },
            KeyCode::Right => {
                self.move_right();
                None
            },
            KeyCode::Up => {
                self.move_up();
                None
            },
            KeyCode::Down => {
                self.move_down();
                None
            },
            KeyCode::Enter => {
                let action = self.select_item();
                self.close();
                action
            },
            KeyCode::Char(c) => {
                if c == 'p' && key.ctrl {
                    self.close();
                    Some(MenuAction::OpenCommandPalette)
                } else {
                    None
                }
            },
            KeyCode::F(n) => {
                if n == 10 {
                    self.close();
                }
                None
            },
            _ => None,
        }
    }
}

proof fn lemma_widest_row_monotone(items: Seq<MenuItem>, j: int, k: int)
    requires
        0 <= j <= k,
    ensures
        widest_row(items, j) <= widest_row(items, k),
        j > 0 ==> row_width(items[j - 1]) <= widest_row(items, k),
    decreases k - j,
{
    if j < k {
        lemma_widest_row_monotone(items, j, k - 1);
    }
}

/// Moving to the neighbour menu on the right and back again reopens the
/// same menu.
pub proof fn law_left_undoes_right(m: MenuBarState)
    requires
        m.open_index matches Some(i) && i < m.menus@.len(),
        m.menus@.len() <= usize::MAX,
    ensures
        m.moved_right().moved_left().open_index == m.open_index,
        m.moved_left().moved_right().open_index == m.open_index,
{
    let i = m.open_index->0;
    let n = m.menus@.len() as int;
    let r = m.moved_right();
    let l = m.moved_left();
    assert(r.menus == m.menus && l.menus == m.menus);
    if i + 1 < n {
        assert((i + 1) % n == i + 1) by (nonlinear_arith)
            requires
                0 <= i + 1 < n,
        ;
        assert(r.open_index == Some((i + 1) as usize));
    } else {
        assert((i + 1) % n == 0) by (nonlinear_arith)
            requires
                i + 1 == n,
                n > 0,
        ;
        assert(r.open_index == Some(0usize));
    }
    if i == 0 {
        assert(l.open_index == Some((n - 1) as usize));
        assert((n - 1 + 1) % n == 0) by (nonlinear_arith)
            requires
                n > 0,
        ;
    } else {
        assert(l.open_index == Some((i - 1) as usize));
        assert((i - 1 + 1) % n == i) by (nonlinear_arith)
            requires
                0 < i < n,
        ;
    }
}

/// Moving the highlight down and back up (or up and back down) returns to
/// the same item.
pub proof fn law_up_undoes_down(m: MenuBarState)
    requires
        m.open_index matches Some(i) && i < m.menus@.len(),
        m.selected_item matches Some(s) && s < m.menus@[m.open_index->0 as int].items@.len(),
        m.menus@[m.open_index->0 as int].items@.len() <= usize::MAX,
    ensures
        m.moved_down().moved_up().selected_item == m.selected_item,
        m.moved_up().moved_down().selected_item == m.selected_item,
{
    let i = m.open_index->0;
    let s = m.selected_item->0;
    let n = m.menus@[i as int].items@.len();
    let d = m.moved_down();
    let u = m.moved_up();
    assert(d.menus == m.menus && d.open_index == m.open_index);
    assert(u.menus == m.menus && u.open_index == m.open_index);
    if s >= n - 1 {
        assert(d.selected_item == Some(0usize));
    } else {
        assert(d.selected_item == Some((s + 1) as usize));
    }
    if s == 0 {
        assert(u.selected_item == Some((n - 1) as usize));
    } else {
        assert(u.selected_item == Some((s - 1) as usize));
    }
}

/// Every title, the bar's full width and every dropdown's right edge fit in
/// a `u16` column, and no row width overflows.
pub open spec fn menus_fit(menus: Seq<Menu>) -> bool {
    &&& column_offset(menus, menus.len() as int) <= u16::MAX
    &&& forall|i: int|
        0 <= i < menus.len() ==> {
            let items = (#[trigger] menus[i]).items@;
            &&& widest_row(items, items.len() as int) + 4 <= usize::MAX
            &&& column_offset(menus, i) + dropdown_width(items) <= u16::MAX
        }
}

/// The first title, from menu `i` on, whose columns (its width and two
/// more) hold `col`.
pub open spec fn title_hit(menus: Seq<Menu>, i: int, col: int) -> Option<int>
    decreases menus.len() - i,
{
    if i < 0 || i >= menus.len() {
        None
    } else if column_offset(menus, i) <= col < column_offset(menus, i) + name_width(menus[i]) + 2 {
        Some(i)
    } else {
        title_hit(menus, i + 1, col)
    }
}

/// A title found from menu `k` on is a menu at or after `k`.
pub proof fn lemma_title_hit_range(menus: Seq<Menu>, k: int, col: int)
    requires
        0 <= k,
    ensures
        title_hit(menus, k, col) matches Some(i) ==> k <= i < menus.len(),
    decreases menus.len() - k,
{
    if k < menus.len() {
        lemma_title_hit_range(menus, k + 1, col);
    }
}

/// A label and shortcut of at most 32 characters together.
pub open spec fn short_item(it: MenuItem) -> bool {
    it.label@.len() + it.shortcut@.len() <= 32
}

/// A name of at most 8 characters and short items.
pub open spec fn short_menu(m: Menu) -> bool {
    &&& m.name@.len() <= 8
    &&& forall|j: int| 0 <= j < m.items@.len() ==> #[trigger] short_item(m.items@[j])
}

proof fn lemma_short_rows(items: Seq<MenuItem>, k: int)
    requires
        0 <= k <= items.len(),
        forall|j: int| 0 <= j < items.len() ==> #[trigger] short_item(items[j]),
    ensures
        widest_row(items, k) <= 132,
    decreases k,
{
    if k > 0 {
        lemma_short_rows(items, k - 1);
        assert(short_item(items[k - 1]));
        lemma_utf8_len_bound(items[k - 1].label@);
        lemma_utf8_len_bound(items[k - 1].shortcut@);
    }
}

proof fn lemma_short_columns(menus: Seq<Menu>, k: int)
    requires
        0 <= k <= menus.len(),
        forall|i: int| 0 <= i < menus.len() ==> #[trigger] short_menu(menus[i]),
    ensures
        column_offset(menus, k) <= 35 * k,
    decreases k,
{
    if k > 0 {
        lemma_short_columns(menus, k - 1);
        assert(short_menu(menus[k - 1]));
        lemma_utf8_len_bound(menus[k - 1].name@);
        assert(utf8_len(menus[k - 1].name@) % 0x10000 == utf8_len(menus[k - 1].name@));
    }
}

/// A few short menus fit the screen.
proof fn lemma_short_menus_fit(menus: Seq<Menu>)
    requires
        menus.len() <= 8,
        forall|i: int| 0 <= i < menus.len() ==> #[trigger] short_menu(menus[i]),
    ensures
        menus_fit(menus),
{
    lemma_short_columns(menus, menus.len() as int);
    assert forall|i: int| 0 <= i < menus.len() implies {
        let items = (#[trigger] menus[i]).items@;
        &&& widest_row(items, items.len() as int) + 4 <= usize::MAX
        &&& column_offset(menus, i) + dropdown_width(items) <= u16::MAX
    } by {
        assert(short_menu(menus[i]));
        lemma_short_rows(menus[i].items@, menus[i].items@.len() as int);
        lemma_column_offset_monotone(menus, i, menus.len() as int);
    }
}

/// With well-formed menus that fit the screen, clicks never overflow.
pub proof fn lemma_fits_can_click(m: MenuBarState)
    requires
        m.well_formed(),
        menus_fit(m.menus@),
    ensures
        m.can_click(),
{
    if m.open_index is Some {
        let i = m.open_index->0 as int;
        assert(0 <= i < m.menus@.len());
        let items = m.menus@[i].items@;
        assert(widest_row(items, items.len() as int) + 4 <= usize::MAX);
    }
}

proof fn lemma_column_offset_grows(menus: Seq<Menu>, k: int)
    requires
        0 <= k,
    ensures
        column_offset(menus, k) >= 3 * k,
    decreases k,
{
    if k > 0 {
        lemma_column_offset_grows(menus, k - 1);
    }
}

/// With well-formed menus that fit the screen, every key can be handled, and
/// the menus stay well-formed.
pub proof fn lemma_fits_can_handle_key(m: MenuBarState, key: KeyEvent)
    requires
        m.well_formed(),
        menus_fit(m.menus@),
    ensures
        m.can_handle_key(key),
        m.key_result(key).0.well_formed(),
        m.key_result(key).0.menus == m.menus,
{
    lemma_column_offset_grows(m.menus@, m.menus@.len() as int);
}

proof fn lemma_column_offset_monotone(menus: Seq<Menu>, j: int, k: int)
    requires
        0 <= j <= k,
    ensures
        column_offset(menus, j) <= column_offset(menus, k),
    decreases k - j,
{
    if j < k {
        lemma_column_offset_monotone(menus, j, k - 1);
    }
}

} // verus!
