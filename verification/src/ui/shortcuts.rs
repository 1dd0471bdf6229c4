//! Keyboard shortcut registry: every shortcut of the application, by
//! category, for menus and the help overlay.

use vstd::prelude::*;
use crate::text::str_equal;

verus! {

/// Category of shortcuts for organization in help overlay
#[derive(Debug, Clone, Copy, PartialEq, Eq, Structural)]
pub enum ShortcutCategory {
    File,
    Edit,
    View,
    Server,
    Window,
    Navigation,
}

/// The display name of a category.
pub open spec fn category_name(c: ShortcutCategory) -> Seq<char> {
    match c {
        ShortcutCategory::File => "File"@,
        ShortcutCategory::Edit => "Edit"@,
        ShortcutCategory::View => "View"@,
        ShortcutCategory::Server => "Server"@,
        ShortcutCategory::Window => "Window"@,
        ShortcutCategory::Navigation => "Navigation"@,
    }
}

impl ShortcutCategory {
    /// The display name of the category.
    pub fn name(&self) -> (r: &'static str)
        ensures
            r@ == category_name(*self),
    {
        match self {
            ShortcutCategory::File => "File",
            ShortcutCategory::Edit => "Edit",
            ShortcutCategory::View => "View",
            ShortcutCategory::Server => "Server",
            ShortcutCategory::Window => "Window",
            ShortcutCategory::Navigation => "Navigation",
        }
    }
}

/// A keyboard shortcut definition
#[derive(Debug, Clone)]
pub struct Shortcut {
    pub category: ShortcutCategory,
    pub key_text: &'static str,
    pub description: &'static str,
    pub action_id: &'static str,
}

/// A shortcut as plain values.
pub struct ShortcutView {
    pub category: ShortcutCategory,
    pub key_text: Seq<char>,
    pub description: Seq<char>,
    pub action_id: Seq<char>,
}

impl View for Shortcut {
    type V = ShortcutView;

    open spec fn view(&self) -> ShortcutView {
        ShortcutView {
            category: self.category,
            key_text: self.key_text@,
            description: self.description@,
            action_id: self.action_id@,
        }
    }
}

/// The views of a sequence of shortcuts.
pub open spec fn shortcuts_view(v: Seq<Shortcut>) -> Seq<ShortcutView> {
    v.map_values(|s: Shortcut| s@)
}

/// Every shortcut of the application, in menu order.
pub open spec fn shortcut_table() -> Seq<ShortcutView> {
    seq![
        ShortcutView { category: ShortcutCategory::File, key_text: "Ctrl+N"@, description: "Connect to server"@, action_id: "file.connect"@ },
        ShortcutView { category: ShortcutCategory::File, key_text: "Ctrl+D"@, description: "Disconnect from server"@, action_id: "file.disconnect"@ },
        ShortcutView { category: ShortcutCategory::File, key_text: "Ctrl+,"@, description: "Network Manager"@, action_id: "file.network_manager"@ },
        ShortcutView { category: ShortcutCategory::File, key_text: "Ctrl+Q"@, description: "Quit application"@, action_id: "file.quit"@ },
        ShortcutView { category: ShortcutCategory::Edit, key_text: "Ctrl+X"@, description: "Cut"@, action_id: "edit.cut"@ },
        ShortcutView { category: ShortcutCategory::Edit, key_text: "Ctrl+C"@, description: "Copy"@, action_id: "edit.copy"@ },
        ShortcutView { category: ShortcutCategory::Edit, key_text: "Ctrl+V"@, description: "Paste"@, action_id: "edit.paste"@ },
        ShortcutView { category: ShortcutCategory::Edit, key_text: "Ctrl+A"@, description: "Select All"@, action_id: "edit.select_all"@ },
        ShortcutView { category: ShortcutCategory::View, key_text: "Ctrl+K"@, description: "Quick Switcher"@, action_id: "view.quick_switcher"@ },
        ShortcutView { category: ShortcutCategory::View, key_text: "Ctrl+U"@, description: "Toggle User List"@, action_id: "view.toggle_user_list"@ },
        ShortcutView { category: ShortcutCategory::View, key_text: "Ctrl+B"@, description: "Toggle Channel List"@, action_id: "view.toggle_channel_list"@ },
        ShortcutView { category: ShortcutCategory::Server, key_text: "Ctrl+J"@, description: "Join Channel"@, action_id: "server.join_channel"@ },
        ShortcutView { category: ShortcutCategory::Server, key_text: "Ctrl+W"@, description: "Part Channel"@, action_id: "server.part_channel"@ },
        ShortcutView { category: ShortcutCategory::Server, key_text: "Ctrl+L"@, description: "List Channels"@, action_id: "server.list_channels"@ },
        ShortcutView { category: ShortcutCategory::Window, key_text: "Ctrl+M"@, description: "Minimize"@, action_id: "window.minimize"@ },
        ShortcutView { category: ShortcutCategory::Window, key_text: "Ctrl+Shift+F"@, description: "Toggle Fullscreen"@, action_id: "window.fullscreen"@ },
        ShortcutView { category: ShortcutCategory::Navigation, key_text: "Ctrl+P"@, description: "Previous Channel"@, action_id: "nav.prev_channel"@ },
        ShortcutView { category: ShortcutCategory::Navigation, key_text: "Ctrl+N"@, description: "Next Channel"@, action_id: "nav.next_channel"@ },
        ShortcutView { category: ShortcutCategory::Navigation, key_text: "F1"@, description: "Help / Keyboard Shortcuts"@, action_id: "nav.help"@ },
        ShortcutView { category: ShortcutCategory::Navigation, key_text: "Ctrl+/"@, description: "Show Keyboard Shortcuts"@, action_id: "nav.shortcuts"@ },
    ]
}

/// The shortcuts of `s` in category `c`, in order.
pub open spec fn in_category(s: Seq<ShortcutView>, c: ShortcutCategory) -> Seq<ShortcutView>
    decreases s.len(),
{
    if s.len() == 0 {
        s
    } else if s.last().category == c {
        in_category(s.drop_last(), c).push(s.last())
    } else {
        in_category(s.drop_last(), c)
    }
}

/// The position of the first shortcut of `s` with action `id`.
pub open spec fn first_with_action(s: Seq<ShortcutView>, id: Seq<char>) -> Option<int>
    decreases s.len(),
{
    if s.len() == 0 {
        None
    } else if s[0].action_id == id {
        Some(0)
    } else {
        match first_with_action(s.drop_first(), id) {
            Some(i) => Some(i + 1),
            None => None,
        }
    }
}

/// Global keyboard shortcut registry
#[derive(Debug)]
pub struct ShortcutRegistry {
    shortcuts: Vec<Shortcut>,
}

impl ShortcutRegistry {
    /// The shortcuts, in order.
    pub closed spec fn entries(&self) -> Seq<ShortcutView> {
        shortcuts_view(self.shortcuts@)
    }

    /// Create a new registry with all application shortcuts
    pub fn new() -> (r: Self)
        ensures
            r.entries() == shortcut_table(),
    {
        let mut shortcuts: Vec<Shortcut> = Vec::new();
        shortcuts.push(Shortcut {
            category: ShortcutCategory::File,
            key_text: "Ctrl+N",
            description: "Connect to server",
            action_id: "file.connect",
        });
        shortcuts.push(Shortcut {
            category: ShortcutCategory::File,
            key_text: "Ctrl+D",
            description: "Disconnect from server",
            action_id: "file.disconnect",
        });
        shortcuts.push(Shortcut {
            category: ShortcutCategory::File,
            key_text: "Ctrl+,",
            description: "Network Manager",
            action_id: "file.network_manager",
        });
        shortcuts.push(Shortcut {
            category: ShortcutCategory::File,
            key_text: "Ctrl+Q",
            description: "Quit application",
            action_id: "file.quit",
        });
        shortcuts.push(Shortcut {
            category: ShortcutCategory::Edit,
            key_text: "Ctrl+X",
            description: "Cut",
            action_id: "edit.cut",
        });
        shortcuts.push(Shortcut {
            category: ShortcutCategory::Edit,
            key_text: "Ctrl+C",
            description: "Copy",
            action_id: "edit.copy",
        });
        shortcuts.push(Shortcut {
            category: ShortcutCategory::Edit,
            key_text: "Ctrl+V",
            description: "Paste",
            action_id: "edit.paste",
        });
        shortcuts.push(Shortcut {
            category: ShortcutCategory::Edit,
            key_text: "Ctrl+A",
            description: "Select All",
            action_id: "edit.select_all",
        });
        shortcuts.push(Shortcut {
            category: ShortcutCategory::View,
            key_text: "Ctrl+K",
            description: "Quick Switcher",
            action_id: "view.quick_switcher",
        });
        shortcuts.push(Shortcut {
            category: ShortcutCategory::View,
            key_text: "Ctrl+U",
            description: "Toggle User List",
            action_id: "view.toggle_user_list",
        });
        shortcuts.push(Shortcut {
            category: ShortcutCategory::View,
            key_text: "Ctrl+B",
            description: "Toggle Channel List",
            action_id: "view.toggle_channel_list",
        });
        shortcuts.push(Shortcut {
            category: ShortcutCategory::Server,
            key_text: "Ctrl+J",
            description: "Join Channel",
            action_id: "server.join_channel",
        });
        shortcuts.push(Shortcut {
            category: ShortcutCategory::Server,
            key_text: "Ctrl+W",
            description: "Part Channel",
            action_id: "server.part_channel",
        });
        shortcuts.push(Shortcut {
            category: ShortcutCategory::Server,
            key_text: "Ctrl+L",
            description: "List Channels",
            action_id: "server.list_channels",
        });
        shortcuts.push(Shortcut {
            category: ShortcutCategory::Window,
            key_text: "Ctrl+M",
            description: "Minimize",
            action_id: "window.minimize",
        });
        shortcuts.push(Shortcut {
            category: ShortcutCategory::Window,
            key_text: "Ctrl+Shift+F",
            description: "Toggle Fullscreen",
            action_id: "window.fullscreen",
        });
        shortcuts.push(Shortcut {
            category: ShortcutCategory::Navigation,
            key_text: "Ctrl+P",
            description: "Previous Channel",
            action_id: "nav.prev_channel",
        });
        shortcuts.push(Shortcut {
            category: ShortcutCategory::Navigation,
            key_text: "Ctrl+N",
            description: "Next Channel",
            action_id: "nav.next_channel",
        });
        shortcuts.push(Shortcut {
            category: ShortcutCategory::Navigation,
            key_text: "F1",
            description: "Help / Keyboard Shortcuts",
            action_id: "nav.help",
        });
        shortcuts.push(Shortcut {
            category: ShortcutCategory::Navigation,
            key_text: "Ctrl+/",
            description: "Show Keyboard Shortcuts",
            action_id: "nav.shortcuts",
        });
        let r = Self { shortcuts };
        assert(r.entries() =~= shortcut_table());
        r
    }

    /// Get all shortcuts for a specific category
    pub fn by_category(&self, category: ShortcutCategory) -> (r: Vec<&Shortcut>)
        ensures
            r@.map_values(|s: &Shortcut| s@) == in_category(self.entries(), category),
    {
        let mut out: Vec<&Shortcut> = Vec::new();
        let mut i: usize = 0;
        let ghost e = self.entries();
        assert(e.take(0) =~= Seq::<ShortcutView>::empty());
        while i < self.shortcuts.len()
            invariant
                i <= self.shortcuts@.len(),
                e == shortcuts_view(self.shortcuts@),
                out@.map_values(|s: &Shortcut| s@) == in_category(e.take(i as int), category),
            decreases self.shortcuts@.len() - i,
        {
            assert(e.take(i + 1).drop_last() =~= e.take(i as int));
            assert(e.take(i + 1).last() == self.shortcuts@[i as int]@);
            if self.shortcuts[i].category == category {
                let ghost before = out@;
                out.push(&self.shortcuts[i]);
                assert(out@.map_values(|s: &Shortcut| s@) =~= before.map_values(|s: &Shortcut| s@).push(self.shortcuts@[i as int]@));
            }
            i += 1;
        }
        assert(e.take(e.len() as int) =~= e);
        out
    }

    /// Get all shortcuts
    pub fn all(&self) -> (r: &[Shortcut])
        ensures
            shortcuts_view(r@) == self.entries(),
    {
        self.shortcuts.as_slice()
    }

    /// Find a shortcut by action ID (the first one with it).
    pub fn find(&self, action_id: &str) -> (r: Option<&Shortcut>)
        ensures
            match r {
                Some(s) => first_with_action(self.entries(), action_id@) matches Some(i) && s@ == self.entries()[i],
                None => first_with_action(self.entries(), action_id@) is None,
            },
    {
        let ghost e = self.entries();
        proof {
            lemma_first_with_action(e, action_id@);
        }
        let mut i: usize = 0;
        while i < self.shortcuts.len()
            invariant
                i <= self.shortcuts@.len(),
                e == shortcuts_view(self.shortcuts@),
                forall|j: int| 0 <= j < i ==> (#[trigger] e[j]).action_id != action_id@,
                match first_with_action(e, action_id@) {
                    Some(k) => 0 <= k < e.len() && e[k].action_id == action_id@
                        && forall|j: int| 0 <= j < k ==> (#[trigger] e[j]).action_id != action_id@,
                    None => forall|j: int| 0 <= j < e.len() ==> (#[trigger] e[j]).action_id != action_id@,
                },
            decreases self.shortcuts@.len() - i,
        {
            if str_equal(self.shortcuts[i].action_id, action_id) {
                assert(e[i as int].action_id == action_id@);
                return Some(&self.shortcuts[i]);
            }
            i += 1;
        }
        None
    }
}

proof fn lemma_first_with_action(s: Seq<ShortcutView>, id: Seq<char>)
    ensures
        match first_with_action(s, id) {
            Some(k) => 0 <= k < s.len() && s[k].action_id == id
                && forall|j: int| 0 <= j < k ==> (#[trigger] s[j]).action_id != id,
            None => forall|j: int| 0 <= j < s.len() ==> (#[trigger] s[j]).action_id != id,
        },
    decreases s.len(),
{
    if s.len() > 0 {
        lemma_first_with_action(s.drop_first(), id);
        if s[0].action_id != id {
            match first_with_action(s.drop_first(), id) {
                Some(i) => {
                    assert forall|j: int| 0 <= j < i + 1 implies (#[trigger] s[j]).action_id != id by {
                        if j > 0 {
                            assert(s[j] == s.drop_first()[j - 1]);
                        }
                    }
                },
                None => {
                    assert forall|j: int| 0 <= j < s.len() implies (#[trigger] s[j]).action_id != id by {
                        if j > 0 {
                            assert(s[j] == s.drop_first()[j - 1]);
                        }
                    }
                },
            }
        }
    }
}

impl Default for ShortcutRegistry {
    fn default() -> (r: Self)
        ensures
            r.entries() == shortcut_table(),
    {
        Self::new()
    }
}

/// Every category has at least one shortcut in the table.
pub proof fn lemma_every_category_has_shortcuts(c: ShortcutCategory)
    ensures
        in_category(shortcut_table(), c).len() > 0,
{
    let t = shortcut_table();
    // an entry of each category
    let k: int = match c {
        ShortcutCategory::File => 3,
        ShortcutCategory::Edit => 7,
        ShortcutCategory::View => 10,
        ShortcutCategory::Server => 13,
        ShortcutCategory::Window => 15,
        ShortcutCategory::Navigation => 19,
    };
    assert(t[k].category == c);
    lemma_in_category_has(t, c, k);
}

proof fn lemma_in_category_has(s: Seq<ShortcutView>, c: ShortcutCategory, k: int)
    requires
        0 <= k < s.len(),
        s[k].category == c,
    ensures
        in_category(s, c).len() > 0,
    decreases s.len(),
{
    if k < s.len() - 1 {
        assert(s.drop_last()[k] == s[k]);
        lemma_in_category_has(s.drop_last(), c, k);
    }
}

/// The categories split the shortcuts: every shortcut is listed under exactly
/// one category, so the lengths of the six category lists add up to the
/// number of shortcuts.
pub proof fn lemma_categories_cover_all(s: Seq<ShortcutView>)
    ensures
        in_category(s, ShortcutCategory::File).len() + in_category(s, ShortcutCategory::Edit).len()
            + in_category(s, ShortcutCategory::View).len() + in_category(s, ShortcutCategory::Server).len()
            + in_category(s, ShortcutCategory::Window).len() + in_category(s, ShortcutCategory::Navigation).len()
            == s.len(),
    decreases s.len(),
{
    if s.len() > 0 {
        lemma_categories_cover_all(s.drop_last());
    }
}

} // verus!
