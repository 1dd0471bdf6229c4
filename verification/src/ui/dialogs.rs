//! Dialog state: each dialog owns its editing state and hands back
//! `DialogAction`s instead of changing the application directly. Drawing the
//! dialogs is done by the application.

use vstd::prelude::*;
use crate::config::{Network, NetworkView, networks_view, strings_view};
use crate::text::{chars_of, chars_contain, contains_seq, str_to_lowercase, unicode_lowercase, trim_spec, trim_string,
    to_owned_string, str_equal, concat2, string_from_chars, utf8_len, is_char_boundary_at, char_index_at,
    char_index_of_byte, utf8_byte_len};

verus! {

/// Actions that dialogs can return to the main application.
#[derive(Debug)]
pub enum DialogAction {
    NetworkConnect(Network),
    NetworkSave { index: Option<usize>, network: Network },
    NetworkDelete(usize),
    ChangeNick(String),
    JoinChannel(String),
    SetTopic { channel: String, topic: String },
}

/// Channel information from the server's LIST response
#[derive(Debug)]
pub struct ChannelListItem {
    pub channel: String,
    pub user_count: usize,
    pub topic: String,
}

impl Clone for ChannelListItem {
    fn clone(&self) -> (r: Self)
        ensures
            r.channel@ == self.channel@,
            r.user_count == self.user_count,
            r.topic@ == self.topic@,
    {
        ChannelListItem { channel: self.channel.clone(), user_count: self.user_count, topic: self.topic.clone() }
    }
}

/// Channel browser dialog state.
#[derive(Debug)]
pub struct ChannelBrowserDialog {
    /// The list of channels from the server
    pub channels: Vec<ChannelListItem>,
    /// Filter text for searching channels
    pub filter: String,
    /// Whether we're still loading the channel list
    pub is_loading: bool,
}

/// Whether a channel is shown for `filter`: always for an empty filter,
/// else when its lowercase name or topic contains the lowercase filter.
pub open spec fn channel_shown(item: ChannelListItem, filter: Seq<char>) -> bool {
    filter.len() == 0
        || contains_seq(unicode_lowercase(item.channel@), unicode_lowercase(filter))
        || contains_seq(unicode_lowercase(item.topic@), unicode_lowercase(filter))
}

/// The positions of the channels shown for `filter`, in order.
pub open spec fn shown_positions(items: Seq<ChannelListItem>, filter: Seq<char>, n: int) -> Seq<usize>
    decreases n,
{
    if n <= 0 {
        Seq::empty()
    } else if channel_shown(items[n - 1], filter) {
        shown_positions(items, filter, n - 1).push((n - 1) as usize)
    } else {
        shown_positions(items, filter, n - 1)
    }
}

/// A topic as the browser shows it: at most 60 bytes, then `...`.
pub open spec fn topic_preview_spec(topic: Seq<char>) -> Seq<char> {
    if utf8_len(topic) > 60 { topic.take(char_index_at(topic, 60)) + "..."@ } else { topic }
}

/// A topic as the browser shows it: cut after 60 bytes (which must fall
/// between two characters) and followed by `...` when longer.
pub fn topic_preview(topic: &str) -> (r: String)
    requires
        utf8_len(topic@) > 60 ==> is_char_boundary_at(topic@, 60),
    ensures
        r@ == topic_preview_spec(topic@),
{
    if utf8_byte_len(topic) > 60 {
        let v = chars_of(topic);
        let j = char_index_of_byte(v.as_slice(), 60);
        let head = string_from_chars(v.as_slice(), 0, j);
        assert(v@.subrange(0, j as int) =~= v@.take(j as int));
        concat2(head.as_str(), "...")
    } else {
        to_owned_string(topic)
    }
}

impl ChannelBrowserDialog {
    /// Create a new channel browser dialog: no channels, loading.
    pub fn new() -> (r: Self)
        ensures
            r.channels@.len() == 0,
            r.filter@.len() == 0,
            r.is_loading,
    {
        ChannelBrowserDialog { channels: Vec::new(), filter: String::new(), is_loading: true }
    }

    /// Add a channel to the list (called as LIST responses arrive)
    pub fn add_channel(&mut self, item: ChannelListItem)
        ensures
            final(self).channels@ == old(self).channels@.push(item),
            final(self).filter == old(self).filter,
            final(self).is_loading == old(self).is_loading,
    {
        self.channels.push(item);
    }

    /// Mark loading as complete
    pub fn set_loading_complete(&mut self)
        ensures
            !final(self).is_loading,
            final(self).channels == old(self).channels,
            final(self).filter == old(self).filter,
    {
        self.is_loading = false;
    }

    /// Clear the channel list (for refresh)
    pub fn clear(&mut self)
        ensures
            final(self).channels@.len() == 0,
            final(self).filter@.len() == 0,
            final(self).is_loading,
    {
        self.channels.clear();
        self.filter = String::new();
        self.is_loading = true;
    }

    /// The positions of the channels shown for the current filter.
    pub fn filtered_positions(&self) -> (r: Vec<usize>)
        ensures
            r@ == shown_positions(self.channels@, self.filter@, self.channels@.len() as int),
    {
        let fl = str_to_lowercase(self.filter.as_str());
        let fv = chars_of(fl.as_str());
        let empty = self.filter.as_str().is_empty();
        let mut out: Vec<usize> = Vec::new();
        let mut i: usize = 0;
        while i < self.channels.len()
            invariant
                i <= self.channels@.len(),
                fv@ == unicode_lowercase(self.filter@),
                empty == (self.filter@.len() == 0),
                out@ == shown_positions(self.channels@, self.filter@, i as int),
            decreases self.channels@.len() - i,
        {
            let item = &self.channels[i];
            let shown = if empty {
                true
            } else {
                let cl = str_to_lowercase(item.channel.as_str());
                let tl = str_to_lowercase(item.topic.as_str());
                let cv = chars_of(cl.as_str());
                let tv = chars_of(tl.as_str());
                chars_contain(cv.as_slice(), fv.as_slice()) || chars_contain(tv.as_slice(), fv.as_slice())
            };
            if shown {
                out.push(i);
            }
            i += 1;
        }
        out
    }
}

impl Default for ChannelBrowserDialog {
    fn default() -> (r: Self)
        ensures
            r.channels@.len() == 0,
            r.filter@.len() == 0,
            r.is_loading,
    {
        Self::new()
    }
}

/// Help dialog state.
#[derive(Debug)]
pub struct HelpDialog {
    /// Whether the dialog is visible
    pub open: bool,
}

impl HelpDialog {
    /// Create a new help dialog (closed by default)
    pub fn new() -> (r: Self)
        ensures
            !r.open,
    {
        HelpDialog { open: false }
    }

    /// Toggle the dialog visibility
    pub fn toggle(&mut self)
        ensures
            final(self).open == !old(self).open,
    {
        self.open = !self.open;
    }

    /// Show the dialog
    pub fn show(&mut self)
        ensures
            final(self).open,
    {
        self.open = true;
    }

    /// Close the dialog
    pub fn dismiss(&mut self)
        ensures
            !final(self).open,
    {
        self.open = false;
    }
}

impl Default for HelpDialog {
    fn default() -> (r: Self)
        ensures
            !r.open,
    {
        Self::new()
    }
}

/// Nick change dialog state.
#[derive(Debug)]
pub struct NickChangeDialog {
    /// Whether the dialog is visible
    pub open: bool,
    /// The new nickname being entered
    pub nick_input: String,
    /// The current nickname (for comparison)
    pub current_nick: String,
}

/// Whether the entered nick can be saved: once trimmed it is not empty and
/// differs from the current nick.
pub open spec fn nick_can_save(input: Seq<char>, current: Seq<char>) -> bool {
    trim_spec(input).len() > 0 && trim_spec(input) != current
}

impl NickChangeDialog {
    /// Create a new nick change dialog initialized with the current nick
    pub fn new(current_nick: &str) -> (r: Self)
        ensures
            r.open,
            r.nick_input@ == current_nick@,
            r.current_nick@ == current_nick@,
    {
        NickChangeDialog { open: true, nick_input: to_owned_string(current_nick), current_nick: to_owned_string(current_nick) }
    }

    /// Check if the dialog is open
    pub fn is_open(&self) -> (r: bool)
        ensures
            r == self.open,
    {
        self.open
    }

    /// Whether the entered nick can be saved.
    pub fn can_save(&self) -> (r: bool)
        ensures
            r == nick_can_save(self.nick_input@, self.current_nick@),
    {
        let t = trim_string(self.nick_input.as_str());
        !t.as_str().is_empty() && !str_equal(t.as_str(), self.current_nick.as_str())
    }

    /// Saves the entered nick when it can be saved: the dialog closes and the
    /// trimmed nick is to be set.
    pub fn submit(&mut self) -> (r: Option<DialogAction>)
        ensures
            nick_can_save(old(self).nick_input@, old(self).current_nick@) ==> {
                &&& r matches Some(DialogAction::ChangeNick(n)) && n@ == trim_spec(old(self).nick_input@)
                &&& !final(self).open
            },
            !nick_can_save(old(self).nick_input@, old(self).current_nick@) ==> r is None && final(self).open == old(self).open,
            final(self).nick_input == old(self).nick_input,
            final(self).current_nick == old(self).current_nick,
    {
        if self.can_save() {
            self.open = false;
            Some(DialogAction::ChangeNick(trim_string(self.nick_input.as_str())))
        } else {
            None
        }
    }
}

/// Topic editor dialog state.
#[derive(Debug)]
pub struct TopicEditorDialog {
    /// The channel whose topic we're editing
    pub channel: String,
    /// The current/edited topic text
    pub topic_input: String,
    /// The original topic (for comparison)
    pub original_topic: String,
}

impl TopicEditorDialog {
    /// Create a new topic editor dialog for a channel
    pub fn new(channel: &str, current_topic: &str) -> (r: Self)
        ensures
            r.channel@ == channel@,
            r.topic_input@ == current_topic@,
            r.original_topic@ == current_topic@,
    {
        TopicEditorDialog {
            channel: to_owned_string(channel),
            topic_input: to_owned_string(current_topic),
            original_topic: to_owned_string(current_topic),
        }
    }

    /// Whether the topic was edited.
    pub fn is_changed(&self) -> (r: bool)
        ensures
            r == (self.topic_input@ != self.original_topic@),
    {
        !str_equal(self.topic_input.as_str(), self.original_topic.as_str())
    }

    /// The action that saves the edited topic, when it was changed.
    pub fn save_action(&self) -> (r: Option<DialogAction>)
        ensures
            self.topic_input@ != self.original_topic@ ==>
                (r matches Some(DialogAction::SetTopic { channel, topic })
                    && channel@ == self.channel@ && topic@ == self.topic_input@),
            self.topic_input@ == self.original_topic@ ==> r is None,
    {
        if self.is_changed() {
            Some(DialogAction::SetTopic { channel: self.channel.clone(), topic: self.topic_input.clone() })
        } else {
            None
        }
    }
}

/// Form state for creating/editing a network
#[derive(Debug)]
pub struct NetworkForm {
    pub name: String,
    /// Comma-separated
    pub servers: String,
    pub nick: String,
    pub auto_connect: bool,
    /// Comma-separated
    pub favorite_channels: String,
    pub nickserv_password: String,
    pub use_tls: bool,
}

/// A form as plain values.
pub struct FormView {
    pub name: Seq<char>,
    pub servers: Seq<char>,
    pub nick: Seq<char>,
    pub auto_connect: bool,
    pub favorite_channels: Seq<char>,
    pub nickserv_password: Seq<char>,
    pub use_tls: bool,
}

impl View for NetworkForm {
    type V = FormView;

    open spec fn view(&self) -> FormView {
        FormView {
            name: self.name@,
            servers: self.servers@,
            nick: self.nick@,
            auto_connect: self.auto_connect,
            favorite_channels: self.favorite_channels@,
            nickserv_password: self.nickserv_password@,
            use_tls: self.use_tls,
        }
    }
}

/// An empty form.
pub open spec fn empty_form() -> FormView {
    FormView {
        name: Seq::empty(),
        servers: Seq::empty(),
        nick: Seq::empty(),
        auto_connect: false,
        favorite_channels: Seq::empty(),
        nickserv_password: Seq::empty(),
        use_tls: false,
    }
}

/// The form showing a network: lists joined with `, `, no password as empty.
pub open spec fn form_of(n: NetworkView) -> FormView {
    FormView {
        name: n.name,
        servers: crate::text::join_with(n.servers, ", "@),
        nick: n.nick,
        auto_connect: n.auto_connect,
        favorite_channels: crate::text::join_with(n.favorite_channels, ", "@),
        nickserv_password: match n.nickserv_password { Some(p) => p, None => Seq::empty() },
        use_tls: n.use_tls,
    }
}

/// The network a form describes: lists split at commas (trimmed, empty
/// entries dropped), an empty password as none, reconnecting automatically.
pub open spec fn network_of(f: FormView) -> NetworkView {
    NetworkView {
        name: f.name,
        servers: crate::text::comma_list(f.servers),
        nick: f.nick,
        auto_connect: f.auto_connect,
        favorite_channels: crate::text::comma_list(f.favorite_channels),
        nickserv_password: if f.nickserv_password.len() == 0 { None } else { Some(f.nickserv_password) },
        use_tls: f.use_tls,
        auto_reconnect: true,
    }
}

/// Editing a network and saving the form unchanged gives the network back:
/// its servers and favorite channels are joined with `, ` and read back as
/// comma-separated lists, and the password round-trips, when each list entry
/// can stand in such a list (see `list_entry_ok`) and the password is not
/// empty. The saved network reconnects automatically, as every saved form does.
pub proof fn lemma_form_round_trip(n: NetworkView)
    requires
        forall|i: int| 0 <= i < n.servers.len() ==> crate::text::list_entry_ok(#[trigger] n.servers[i]),
        forall|i: int| 0 <= i < n.favorite_channels.len() ==> crate::text::list_entry_ok(#[trigger] n.favorite_channels[i]),
        n.nickserv_password != Some(Seq::<char>::empty()),
    ensures
        network_of(form_of(n)) == (NetworkView { auto_reconnect: true, ..n }),
{
    crate::text::lemma_comma_list_of_join(n.servers);
    crate::text::lemma_comma_list_of_join(n.favorite_channels);
    match n.nickserv_password {
        Some(p) => {
            if p.len() == 0 {
                assert(p =~= Seq::<char>::empty());
            }
        },
        None => {},
    }
}

/// Whether a form can be saved: name, servers and nick are not blank.
pub open spec fn form_valid(f: FormView) -> bool {
    trim_spec(f.name).len() > 0 && trim_spec(f.servers).len() > 0 && trim_spec(f.nick).len() > 0
}

impl NetworkForm {
    /// Create a form from an existing network
    pub fn from_network(network: &Network) -> (r: Self)
        ensures
            r@ == form_of(network@),
    {
        NetworkForm {
            name: network.name.clone(),
            servers: crate::text::join_strings(&network.servers, ", "),
            nick: network.nick.clone(),
            auto_connect: network.auto_connect,
            favorite_channels: crate::text::join_strings(&network.favorite_channels, ", "),
            nickserv_password: match &network.nickserv_password {
                Some(p) => p.clone(),
                None => String::new(),
            },
            use_tls: network.use_tls,
        }
    }

    /// Convert the form to a Network
    pub fn to_network(&self) -> (r: Network)
        ensures
            r@ == network_of(self@),
    {
        Network {
            name: self.name.clone(),
            servers: crate::text::parse_comma_list(self.servers.as_str()),
            nick: self.nick.clone(),
            auto_connect: self.auto_connect,
            favorite_channels: crate::text::parse_comma_list(self.favorite_channels.as_str()),
            nickserv_password: if self.nickserv_password.as_str().is_empty() {
                None
            } else {
                Some(self.nickserv_password.clone())
            },
            use_tls: self.use_tls,
            auto_reconnect: true,
        }
    }

    /// Check if the form has valid data
    pub fn is_valid(&self) -> (r: bool)
        ensures
            r == form_valid(self@),
    {
        !trim_string(self.name.as_str()).as_str().is_empty()
            && !trim_string(self.servers.as_str()).as_str().is_empty()
            && !trim_string(self.nick.as_str()).as_str().is_empty()
    }
}

impl Default for NetworkForm {
    fn default() -> (r: Self)
        ensures
            r@ == empty_form(),
    {
        NetworkForm {
            name: String::new(),
            servers: String::new(),
            nick: String::new(),
            auto_connect: false,
            favorite_channels: String::new(),
            nickserv_password: String::new(),
            use_tls: false,
        }
    }
}

/// The networks offered for quick adding.
#[derive(Debug, Clone, Copy, PartialEq, Eq, Structural)]
pub enum NetworkPreset {
    LiberaChat,
    Oftc,
    Efnet,
    Rizon,
}

/// The network a preset adds: TLS, nick `slirc_user`, no auto-connect.
pub open spec fn preset_network(p: NetworkPreset) -> NetworkView {
    let (name, server, favorites) = match p {
        NetworkPreset::LiberaChat => ("Libera.Chat"@, "irc.libera.chat:6697"@, seq!["#slirc"@]),
        NetworkPreset::Oftc => ("OFTC"@, "irc.oftc.net:6697"@, Seq::empty()),
        NetworkPreset::Efnet => ("EFnet"@, "irc.choopa.net:9999"@, Seq::empty()),
        NetworkPreset::Rizon => ("Rizon"@, "irc.rizon.net:6697"@, Seq::empty()),
    };
    NetworkView {
        name,
        servers: seq![server],
        nick: "slirc_user"@,
        auto_connect: false,
        favorite_channels: favorites,
        nickserv_password: None,
        use_tls: true,
        auto_reconnect: true,
    }
}

/// Builds the network of a preset.
pub fn make_preset_network(p: NetworkPreset) -> (r: Network)
    ensures
        r@ == preset_network(p),
{
    let (name, server, favorite) = match p {
        NetworkPreset::LiberaChat => ("Libera.Chat", "irc.libera.chat:6697", Some("#slirc")),
        NetworkPreset::Oftc => ("OFTC", "irc.oftc.net:6697", None),
        NetworkPreset::Efnet => ("EFnet", "irc.choopa.net:9999", None),
        NetworkPreset::Rizon => ("Rizon", "irc.rizon.net:6697", None),
    };
    let mut servers: Vec<String> = Vec::new();
    servers.push(to_owned_string(server));
    let mut favorite_channels: Vec<String> = Vec::new();
    match favorite {
        Some(f) => favorite_channels.push(to_owned_string(f)),
        None => {},
    }
    let r = Network {
        name: to_owned_string(name),
        servers,
        nick: to_owned_string("slirc_user"),
        auto_connect: false,
        favorite_channels,
        nickserv_password: None,
        use_tls: true,
        auto_reconnect: true,
    };
    assert(r@.servers =~= preset_network(p).servers);
    assert(r@.favorite_channels =~= preset_network(p).favorite_channels);
    r
}

/// Network manager dialog state.
#[derive(Debug)]
pub struct NetworkManagerDialog {
    /// Working copy of networks (modifications are local until saved)
    pub networks: Vec<Network>,
    /// Index of network currently being edited (None = adding new)
    pub editing_index: Option<usize>,
    /// Form for editing/creating network
    pub form: NetworkForm,
    /// Which networks are expanded in the list (no name twice)
    pub expanded: Vec<String>,
    /// Track if networks were modified
    pub modified: bool,
}

impl NetworkManagerDialog {
    /// Well formed: no network name listed twice as expanded.
    pub open spec fn wf(&self) -> bool {
        crate::backend::caps::no_duplicates(strings_view(self.expanded@))
    }

    /// Create a new network manager dialog with a copy of the networks
    pub fn new(networks: Vec<Network>) -> (r: Self)
        ensures
            r.wf(),
            r.networks == networks,
            r.editing_index is None,
            r.form@ == empty_form(),
            r.expanded@.len() == 0,
            !r.modified,
    {
        NetworkManagerDialog {
            networks,
            editing_index: None,
            form: NetworkForm::default(),
            expanded: Vec::new(),
            modified: false,
        }
    }

    /// Start editing an existing network (nothing happens for a position
    /// past the end).
    pub fn start_edit(&mut self, index: usize)
        ensures
            index < old(self).networks@.len() ==> final(self).editing_index == Some(index)
                && final(self).form@ == form_of(old(self).networks@[index as int]@),
            index >= old(self).networks@.len() ==> final(self).editing_index == old(self).editing_index
                && final(self).form == old(self).form,
            final(self).networks == old(self).networks,
            final(self).expanded == old(self).expanded,
            final(self).modified == old(self).modified,
    {
        if index < self.networks.len() {
            self.editing_index = Some(index);
            self.form = NetworkForm::from_network(&self.networks[index]);
        }
    }

    /// Start adding a new network
    pub fn start_add(&mut self)
        ensures
            final(self).editing_index is None,
            final(self).form@ == empty_form(),
            final(self).networks == old(self).networks,
            final(self).expanded == old(self).expanded,
            final(self).modified == old(self).modified,
    {
        self.editing_index = None;
        self.form = NetworkForm::default();
    }

    /// Cancel editing
    pub fn cancel_edit(&mut self)
        ensures
            final(self).editing_index is None,
            final(self).form@ == empty_form(),
            final(self).networks == old(self).networks,
            final(self).expanded == old(self).expanded,
            final(self).modified == old(self).modified,
    {
        self.editing_index = None;
        self.form = NetworkForm::default();
    }

    /// Check if we're in edit mode: editing a network, or a name was typed.
    pub fn is_editing(&self) -> (r: bool)
        ensures
            r == (self.editing_index is Some || self.form.name@.len() > 0),
    {
        self.editing_index.is_some() || !self.form.name.as_str().is_empty()
    }

    /// Get the current networks (for saving)
    pub fn get_networks(&self) -> (r: &[Network])
        ensures
            r@ == self.networks@,
    {
        self.networks.as_slice()
    }

    /// Check if networks were modified
    pub fn was_modified(&self) -> (r: bool)
        ensures
            r == self.modified,
    {
        self.modified
    }

    /// Deletes the network at `index` (which must exist).
    pub fn delete_network(&mut self, index: usize) -> (r: DialogAction)
        requires
            index < old(self).networks@.len(),
        ensures
            r matches DialogAction::NetworkDelete(i) && i == index,
            final(self).networks@ == old(self).networks@.remove(index as int),
            final(self).modified,
            final(self).editing_index == old(self).editing_index,
            final(self).form == old(self).form,
            final(self).expanded == old(self).expanded,
    {
        self.networks.remove(index);
        self.modified = true;
        DialogAction::NetworkDelete(index)
    }

    /// Adds a preset network.
    pub fn quick_add(&mut self, preset: NetworkPreset)
        ensures
            networks_view(final(self).networks@) == networks_view(old(self).networks@).push(preset_network(preset)),
            final(self).modified,
            final(self).editing_index == old(self).editing_index,
            final(self).form == old(self).form,
            final(self).expanded == old(self).expanded,
    {
        let ghost before = self.networks@;
        let n = make_preset_network(preset);
        let ghost nv = n@;
        self.networks.push(n);
        assert(networks_view(self.networks@) =~= networks_view(before).push(nv));
        self.modified = true;
    }

    /// Whether the network named `name` is expanded in the list.
    pub fn is_expanded(&self, name: &str) -> (r: bool)
        ensures
            r == strings_view(self.expanded@).contains(name@),
    {
        crate::backend::caps::contains_string(&self.expanded, name)
    }

    /// Expands the network named `name` in the list, or collapses it.
    pub fn toggle_expanded(&mut self, name: &str)
        requires
            old(self).wf(),
        ensures
            final(self).wf(),
            strings_view(final(self).expanded@).to_set() == if strings_view(old(self).expanded@).contains(name@) {
                strings_view(old(self).expanded@).to_set().remove(name@)
            } else {
                strings_view(old(self).expanded@).to_set().insert(name@)
            },
            final(self).networks == old(self).networks,
            final(self).editing_index == old(self).editing_index,
            final(self).form == old(self).form,
            final(self).modified == old(self).modified,
    {
        let ghost before = strings_view(self.expanded@);
        if crate::backend::caps::contains_string(&self.expanded, name) {
            crate::backend::caps::remove_name(&mut self.expanded, name);
            proof {
                crate::state::lemma_first_index(before, name@);
                let after = strings_view(self.expanded@);
                match crate::state::first_index(before, name@) {
                    Some(i) => {
                        assert(after =~= before.remove(i));
                        assert forall|x: Seq<char>| after.contains(x) <==> #[trigger] before.to_set().remove(name@).contains(x) by {
                            if after.contains(x) {
                                let k = choose|k: int| 0 <= k < after.len() && after[k] == x;
                                if k < i {
                                    assert(before[k] == x);
                                    assert(k != i);
                                } else {
                                    assert(before[k + 1] == x);
                                    assert(before[k + 1] != before[i]);
                                }
                            }
                            if before.contains(x) && x != name@ {
                                let k = choose|k: int| 0 <= k < before.len() && before[k] == x;
                                if k < i {
                                    assert(after[k] == x);
                                } else {
                                    assert(k != i);
                                    assert(after[k - 1] == x);
                                }
                            }
                        }
                        assert(after.to_set() =~= before.to_set().remove(name@));
                    },
                    None => {},
                }
            }
        } else {
            crate::backend::caps::insert_name(&mut self.expanded, to_owned_string(name));
            proof {
                let after = strings_view(self.expanded@);
                assert(after =~= before.push(name@));
                assert forall|x: Seq<char>| after.contains(x) <==> #[trigger] before.to_set().insert(name@).contains(x) by {
                    if after.contains(x) {
                        let k = choose|k: int| 0 <= k < after.len() && after[k] == x;
                        if k < before.len() {
                            assert(before[k] == x);
                        }
                    }
                    if before.contains(x) {
                        let k = choose|k: int| 0 <= k < before.len() && before[k] == x;
                        assert(after[k] == x);
                    }
                    if x == name@ {
                        assert(after[before.len() as int] == x);
                    }
                }
                assert(after.to_set() =~= before.to_set().insert(name@));
            }
        }
    }

    /// The action that connects to the network at `index` (which must exist).
    pub fn connect_action(&self, index: usize) -> (r: DialogAction)
        requires
            index < self.networks@.len(),
        ensures
            r matches DialogAction::NetworkConnect(n) && n@ == self.networks@[index as int]@,
    {
        DialogAction::NetworkConnect(self.networks[index].clone())
    }

    /// Saves the form when it is valid: the edited network is replaced (or a
    /// new one added), the dialog leaves editing, and the save is reported.
    pub fn save_form(&mut self) -> (r: Option<DialogAction>)
        requires
            old(self).editing_index matches Some(i) ==> i < old(self).networks@.len(),
        ensures
            !form_valid(old(self).form@) ==> r is None && *final(self) == *old(self),
            form_valid(old(self).form@) ==> {
                let n = network_of(old(self).form@);
                &&& r matches Some(DialogAction::NetworkSave { index, network })
                &&& index == old(self).editing_index
                &&& network@ == n
                &&& networks_view(final(self).networks@) == match old(self).editing_index {
                    Some(i) => networks_view(old(self).networks@).update(i as int, n),
                    None => networks_view(old(self).networks@).push(n),
                }
                &&& final(self).modified
                &&& final(self).editing_index is None
                &&& final(self).form@ == empty_form()
                &&& final(self).expanded == old(self).expanded
            },
    {
        if !self.form.is_valid() {
            return None;
        }
        let network = self.form.to_network();
        let copy = network.clone();
        let ghost before = self.networks@;
        let ghost nv = network@;
        let index = self.editing_index;
        match index {
            Some(i) => {
                self.networks.set(i, network);
                assert(networks_view(self.networks@) =~= networks_view(before).update(i as int, nv));
            },
            None => {
                self.networks.push(network);
                assert(networks_view(self.networks@) =~= networks_view(before).push(nv));
            },
        }
        self.modified = true;
        self.cancel_edit();
        Some(DialogAction::NetworkSave { index, network: copy })
    }
}

} // verus!
