//! All application dialogs in one place: opening them, feeding the channel
//! browser, and what happens when one closes. Drawing them is done by the
//! application.

use vstd::prelude::*;
use crate::config::{Network, NetworkView, networks_view, strings_view, opt_string_view};
use crate::protocol::{BackendAction, ActionView};
use crate::text::{split_on, split_at_char, concat3};
use crate::validation::{parse_decimal, parse_decimal_spec};
use crate::ui::dialogs::{DialogAction, ChannelBrowserDialog, ChannelListItem, HelpDialog, NetworkManagerDialog, NickChangeDialog,
    TopicEditorDialog, empty_form};

verus! {

/// Manages all application dialogs: `None` means closed.
#[derive(Debug)]
pub struct DialogManager {
    pub help_dialog: HelpDialog,
    pub nick_change_dialog: Option<NickChangeDialog>,
    pub topic_editor_dialog: Option<TopicEditorDialog>,
    pub network_manager_dialog: Option<NetworkManagerDialog>,
    pub channel_browser_dialog: Option<ChannelBrowserDialog>,
}

impl DialogManager {
    /// Well formed: the network manager, when open, is well formed.
    pub open spec fn wf(&self) -> bool {
        self.network_manager_dialog matches Some(d) ==> d.wf()
    }

    /// Create a new DialogManager with all dialogs closed.
    pub fn new() -> (r: Self)
        ensures
            r.wf(),
            !r.help_dialog.open,
            r.nick_change_dialog is None,
            r.topic_editor_dialog is None,
            r.network_manager_dialog is None,
            r.channel_browser_dialog is None,
    {
        DialogManager {
            help_dialog: HelpDialog::new(),
            nick_change_dialog: None,
            topic_editor_dialog: None,
            network_manager_dialog: None,
            channel_browser_dialog: None,
        }
    }

    /// Open the nick change dialog with the given current nickname.
    pub fn open_nick_change(&mut self, current_nick: &str)
        ensures
            final(self).nick_change_dialog matches Some(d) && d.open && d.nick_input@ == current_nick@
                && d.current_nick@ == current_nick@,
            final(self).help_dialog == old(self).help_dialog,
            final(self).topic_editor_dialog == old(self).topic_editor_dialog,
            final(self).network_manager_dialog == old(self).network_manager_dialog,
            final(self).channel_browser_dialog == old(self).channel_browser_dialog,
    {
        self.nick_change_dialog = Some(NickChangeDialog::new(current_nick));
    }

    /// Open the topic editor dialog for the given channel.
    pub fn open_topic_editor(&mut self, channel: &str, current_topic: &str)
        ensures
            final(self).topic_editor_dialog matches Some(d) && d.channel@ == channel@
                && d.topic_input@ == current_topic@ && d.original_topic@ == current_topic@,
            final(self).help_dialog == old(self).help_dialog,
            final(self).nick_change_dialog == old(self).nick_change_dialog,
            final(self).network_manager_dialog == old(self).network_manager_dialog,
            final(self).channel_browser_dialog == old(self).channel_browser_dialog,
    {
        self.topic_editor_dialog = Some(TopicEditorDialog::new(channel, current_topic));
    }

    /// Open the network manager dialog with the given networks.
    pub fn open_network_manager(&mut self, networks: Vec<Network>)
        ensures
            final(self).wf(),
            final(self).network_manager_dialog matches Some(d) && d.networks == networks && d.editing_index is None
                && d.form@ == empty_form() && d.expanded@.len() == 0 && !d.modified,
            final(self).help_dialog == old(self).help_dialog,
            final(self).nick_change_dialog == old(self).nick_change_dialog,
            final(self).topic_editor_dialog == old(self).topic_editor_dialog,
            final(self).channel_browser_dialog == old(self).channel_browser_dialog,
    {
        self.network_manager_dialog = Some(NetworkManagerDialog::new(networks));
    }

    /// Open the channel browser dialog (empty, loading).
    pub fn open_channel_browser(&mut self)
        requires
            old(self).wf(),
        ensures
            final(self).wf(),
            final(self).channel_browser_dialog matches Some(d) && d.channels@.len() == 0 && d.filter@.len() == 0
                && d.is_loading,
            final(self).help_dialog == old(self).help_dialog,
            final(self).nick_change_dialog == old(self).nick_change_dialog,
            final(self).topic_editor_dialog == old(self).topic_editor_dialog,
            final(self).network_manager_dialog == old(self).network_manager_dialog,
    {
        self.channel_browser_dialog = Some(ChannelBrowserDialog::new());
    }

    /// Toggle the help dialog.
    pub fn toggle_help(&mut self)
        requires
            old(self).wf(),
        ensures
            final(self).wf(),
            final(self).help_dialog.open == !old(self).help_dialog.open,
            final(self).nick_change_dialog == old(self).nick_change_dialog,
            final(self).topic_editor_dialog == old(self).topic_editor_dialog,
            final(self).network_manager_dialog == old(self).network_manager_dialog,
            final(self).channel_browser_dialog == old(self).channel_browser_dialog,
    {
        self.help_dialog.toggle();
    }

    /// Show the help dialog.
    pub fn show_help(&mut self)
        requires
            old(self).wf(),
        ensures
            final(self).wf(),
            final(self).help_dialog.open,
            final(self).nick_change_dialog == old(self).nick_change_dialog,
            final(self).topic_editor_dialog == old(self).topic_editor_dialog,
            final(self).network_manager_dialog == old(self).network_manager_dialog,
            final(self).channel_browser_dialog == old(self).channel_browser_dialog,
    {
        self.help_dialog.show();
    }

    /// Add a channel to the channel browser dialog if it's open.
    pub fn add_channel_to_browser(&mut self, item: ChannelListItem)
        requires
            old(self).wf(),
        ensures
            final(self).wf(),
            match old(self).channel_browser_dialog {
                Some(d) => final(self).channel_browser_dialog matches Some(e) && e.channels@ == d.channels@.push(item)
                    && e.filter == d.filter && e.is_loading == d.is_loading,
                None => final(self).channel_browser_dialog is None,
            },
            final(self).help_dialog == old(self).help_dialog,
            final(self).nick_change_dialog == old(self).nick_change_dialog,
            final(self).topic_editor_dialog == old(self).topic_editor_dialog,
            final(self).network_manager_dialog == old(self).network_manager_dialog,
    {
        match self.channel_browser_dialog.take() {
            Some(mut d) => {
                d.add_channel(item);
                self.channel_browser_dialog = Some(d);
            },
            None => {},
        }
    }

    /// Mark channel browser loading as complete.
    pub fn channel_browser_complete(&mut self)
        requires
            old(self).wf(),
        ensures
            final(self).wf(),
            match old(self).channel_browser_dialog {
                Some(d) => final(self).channel_browser_dialog matches Some(e) && !e.is_loading
                    && e.channels == d.channels && e.filter == d.filter,
                None => final(self).channel_browser_dialog is None,
            },
            final(self).help_dialog == old(self).help_dialog,
            final(self).nick_change_dialog == old(self).nick_change_dialog,
            final(self).topic_editor_dialog == old(self).topic_editor_dialog,
            final(self).network_manager_dialog == old(self).network_manager_dialog,
    {
        match self.channel_browser_dialog.take() {
            Some(mut d) => {
                d.set_loading_complete();
                self.channel_browser_dialog = Some(d);
            },
            None => {},
        }
    }

    /// Closes the network manager; returns its networks to be saved when
    /// they were modified.
    pub fn close_network_manager(&mut self) -> (r: Option<Vec<Network>>)
        requires
            old(self).wf(),
        ensures
            final(self).wf(),
            final(self).network_manager_dialog is None,
            match old(self).network_manager_dialog {
                Some(d) => if d.modified {
                    r matches Some(v) && networks_view(v@) == networks_view(d.networks@)
                } else {
                    r is None
                },
                None => r is None,
            },
            final(self).help_dialog == old(self).help_dialog,
            final(self).nick_change_dialog == old(self).nick_change_dialog,
            final(self).topic_editor_dialog == old(self).topic_editor_dialog,
            final(self).channel_browser_dialog == old(self).channel_browser_dialog,
    {
        match self.network_manager_dialog.take() {
            Some(d) => {
                if d.modified {
                    Some(d.networks)
                } else {
                    None
                }
            },
            None => None,
        }
    }
}

impl Default for DialogManager {
    fn default() -> (r: Self)
        ensures
            r.wf(),
            !r.help_dialog.open,
            r.nick_change_dialog is None,
            r.topic_editor_dialog is None,
            r.network_manager_dialog is None,
            r.channel_browser_dialog is None,
    {
        Self::new()
    }
}

/// The server and port of a saved network's server address: the text before
/// the first `:`, and the port after it (6667 when missing or unreadable).
pub open spec fn address_parts(addr: Seq<char>) -> (Seq<char>, u16) {
    let parts = split_on(addr, ':');
    let port: u16 = if parts.len() > 1 {
        match parse_decimal_spec(parts[1], 65535) {
            Some(p) => p as u16,
            None => 6667,
        }
    } else {
        6667
    };
    (parts[0], port)
}

/// The backend actions that connecting to a saved network takes: connect to
/// its first server with its nick (as user name too, real name
/// `SLIRC User (<nick>)`), then join each favorite channel; nothing when it
/// has no server.
pub open spec fn network_connect_spec(n: NetworkView, sasl_password: Option<Seq<char>>) -> Seq<ActionView> {
    if n.servers.len() == 0 {
        Seq::empty()
    } else {
        let (server, port) = address_parts(n.servers[0]);
        seq![ActionView::Connect {
            server,
            port,
            nickname: n.nick,
            username: n.nick,
            realname: "SLIRC User ("@ + n.nick + ")"@,
            use_tls: n.use_tls,
            auto_reconnect: n.auto_reconnect,
            sasl_password,
        }] + n.favorite_channels.map_values(|c: Seq<char>| ActionView::Join(c))
    }
}

/// The views of a sequence of backend actions.
pub open spec fn actions_view(v: Seq<BackendAction>) -> Seq<ActionView> {
    v.map_values(|a: BackendAction| a@)
}

/// The backend actions for connecting to `network` (see `network_connect_spec`);
/// `sasl_password` is the stored password, if any.
pub fn network_connect_actions(network: &Network, sasl_password: Option<String>) -> (r: Vec<BackendAction>)
    ensures
        actions_view(r@) == network_connect_spec(network@, opt_string_view(sasl_password)),
{
    let mut out: Vec<BackendAction> = Vec::new();
    if network.servers.len() == 0 {
        assert(actions_view(out@) =~= Seq::<ActionView>::empty());
        return out;
    }
    let parts = split_at_char(network.servers[0].as_str(), ':');
    proof {
        crate::text::lemma_split_on_nonempty(network.servers@[0]@, ':');
    }
    let port: u16 = if parts.len() > 1 {
        match parse_decimal(parts[1].as_str(), 65535) {
            Some(p) => p as u16,
            None => 6667,
        }
    } else {
        6667
    };
    let realname = concat3("SLIRC User (", network.nick.as_str(), ")");
    out.push(BackendAction::Connect {
        server: parts[0].clone(),
        port,
        nickname: network.nick.clone(),
        username: network.nick.clone(),
        realname,
        use_tls: network.use_tls,
        auto_reconnect: network.auto_reconnect,
        sasl_password,
    });
    let ghost first = actions_view(out@);
    let ghost favs = strings_view(network.favorite_channels@);
    let mut i: usize = 0;
    while i < network.favorite_channels.len()
        invariant
            i <= network.favorite_channels@.len(),
            favs == strings_view(network.favorite_channels@),
            first.len() == 1,
            actions_view(out@) == first + favs.take(i as int).map_values(|c: Seq<char>| ActionView::Join(c)),
        decreases network.favorite_channels@.len() - i,
    {
        let ghost before = out@;
        out.push(BackendAction::Join(network.favorite_channels[i].clone()));
        assert(favs.take(i + 1).map_values(|c: Seq<char>| ActionView::Join(c))
            =~= favs.take(i as int).map_values(|c: Seq<char>| ActionView::Join(c)).push(ActionView::Join(favs[i as int])));
        assert(actions_view(out@) =~= actions_view(before).push(ActionView::Join(favs[i as int])));
        i += 1;
    }
    assert(favs.take(favs.len() as int) =~= favs);
    out
}

/// The network connected to at startup: the first one marked for
/// auto-connect that has a server.
pub fn auto_connect_index(networks: &[Network]) -> (r: Option<usize>)
    ensures
        match r {
            Some(i) => i < networks@.len() && networks@[i as int].auto_connect && networks@[i as int].servers@.len() > 0
                && forall|j: int| 0 <= j < i ==> !(#[trigger] networks@[j].auto_connect && networks@[j].servers@.len() > 0),
            None => forall|j: int| 0 <= j < networks@.len() ==> !(#[trigger] networks@[j].auto_connect
                && networks@[j].servers@.len() > 0),
        },
{
    let mut i: usize = 0;
    while i < networks.len()
        invariant
            i <= networks@.len(),
            forall|j: int| 0 <= j < i ==> !(#[trigger] networks@[j].auto_connect && networks@[j].servers@.len() > 0),
        decreases networks@.len() - i,
    {
        if networks[i].auto_connect && networks[i].servers.len() > 0 {
            return Some(i);
        }
        i += 1;
    }
    None
}

/// The backend actions a dialog's action asks for: a nick change, a topic,
/// a join, or a connection (see `network_connect_actions`); saving and
/// deleting networks only change the saved list.
pub fn backend_actions_for(action: DialogAction, sasl_password: Option<String>) -> (r: Vec<BackendAction>)
    ensures
        actions_view(r@) == match action {
            DialogAction::ChangeNick(n) => seq![ActionView::Nick(n@)],
            DialogAction::SetTopic { channel, topic } => seq![ActionView::SetTopic { channel: channel@, topic: topic@ }],
            DialogAction::JoinChannel(c) => seq![ActionView::Join(c@)],
            DialogAction::NetworkConnect(n) => network_connect_spec(n@, opt_string_view(sasl_password)),
            _ => Seq::empty(),
        },
{
    let mut out: Vec<BackendAction> = Vec::new();
    match action {
        DialogAction::ChangeNick(n) => {
            out.push(BackendAction::Nick(n));
        },
        DialogAction::SetTopic { channel, topic } => {
            out.push(BackendAction::SetTopic { channel, topic });
        },
        DialogAction::JoinChannel(c) => {
            out.push(BackendAction::Join(c));
        },
        DialogAction::NetworkConnect(n) => {
            return network_connect_actions(&n, sasl_password);
        },
        _ => {},
    }
    assert(actions_view(out@) =~= match action {
        DialogAction::ChangeNick(n) => seq![ActionView::Nick(n@)],
        DialogAction::SetTopic { channel, topic } => seq![ActionView::SetTopic { channel: channel@, topic: topic@ }],
        DialogAction::JoinChannel(c) => seq![ActionView::Join(c@)],
        DialogAction::NetworkConnect(n) => network_connect_spec(n@, opt_string_view(sasl_password)),
        _ => Seq::<ActionView>::empty(),
    });
    out
}

} // verus!
