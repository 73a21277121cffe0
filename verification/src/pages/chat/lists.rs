//! Chat lists: guilds, channels, members and the surrounding panes.

use vstd::prelude::*;
use crate::gateway::member_list::{rows_of, MemberRow, RowView};
use crate::gateway::status::{label_of, wire_name, Status};
use crate::model::asset::{sized, url_of};
use crate::model::{
    member_face, member_name, user_face, user_name, GuildId, MemberView, RoleId, Snowflake,
};
use crate::pages::chat::rows::{
    channel_lines, channel_lines_of, guild_lines_of, loading_node, loading_row, tiles_of,
    ChannelLine, ChannelRow, GuildLine, GuildRow, GuildTile, TileView,
};
use crate::session::{in_as, LoggedInView};
use crate::shell::{App, Gumicord, Panes};
use crate::text;
use crate::ui::{nodes_of, opt_node, Key, KeyView, Node, NodeId, State, UiNode};

verus! {

/// The slots of the buttons on the main screen.
pub const SETTINGS_OPEN: &'static str = "settings_open";

pub const MEMBERS_OPEN: &'static str = "members_open";

pub const BACK_OPEN: &'static str = "back_open";

/// Their marks.
pub const SETTINGS_GEAR: &'static str = "gear";

pub const MEMBERS_ICON: &'static str = "members";

pub const BACK_ICON: &'static str = "back";

/// How many guilds a folded folder shows.
pub const FOLDER_TILES: usize = 4;

// ── small parts ────────────────────────────────────────────────────────────

/// The picture, or the first letter where there is none.
pub open spec fn face_node(id: NodeId, icon: Option<Seq<char>>, name: Seq<char>) -> Node {
    match icon {
        Some(url) => Node::image(id, url),
        None => Node::text(
            id,
            if name.len() > 0 {
                name.take(1)
            } else {
                name
            },
        ),
    }
}

/// The picture, or the first letter where there is none.
pub fn face(id: NodeId, icon: &Option<String>, name: &str) -> (r: UiNode)
    ensures
        r@ == face_node(id, crate::model::opt_text(*icon), name@),
{
    match icon {
        Some(url) => UiNode::image(id, url.as_str()),
        None => {
            let c = text::chars(name);
            if c.len() > 0 {
                let first = text::piece(c.as_slice(), 0, 1);
                assert(first@ =~= name@.take(1));
                UiNode::text(id, first.as_str())
            } else {
                UiNode::text(id, name)
            }
        },
    }
}

impl App {
    /// A button with a mark.
    pub open spec fn icon_button(self, slot: Seq<char>, icon: Seq<char>) -> Node {
        Node::new(NodeId::PrimitiveButton).with_slot(slot).with_state_if(
            self.given.over(NodeId::PrimitiveButton, Some(KeyView::Slot(slot))),
            State::Hover,
        ).child(Node::icon(NodeId::PrimitiveIcon, icon))
    }

    pub open spec fn over_id(self, id: NodeId, key: u64) -> bool {
        self.given.over(id, Some(KeyView::Id(key)))
    }

    /// The scrollbar of a list, while the pointer is over it.
    pub open spec fn scrollbar_node(self, id: NodeId) -> Option<Node> {
        if self.given.hovered_scroll == Some(id) {
            Some(Node::new(NodeId::LayoutScrollbar))
        } else {
            None
        }
    }
}

impl Gumicord {
    pub fn icon_button(&self, slot: &'static str, icon: &str) -> (r: UiNode)
        ensures
            r@ == self@.icon_button(slot@, icon@),
    {
        UiNode::new(NodeId::PrimitiveButton).with_slot(slot).with_state_if(
            self.given.is_over(NodeId::PrimitiveButton, Some(Key::Slot(slot))),
            State::Hover,
        ).child(UiNode::icon(NodeId::PrimitiveIcon, icon))
    }

    pub fn hovered_id(&self, id: NodeId, key: u64) -> (r: bool)
        ensures
            r == self@.over_id(id, key),
    {
        self.given.is_over(id, Some(Key::Id(key)))
    }

    /// The scrollbar of a list. Only the one under the pointer has one.
    pub fn scrollbar(&self, id: NodeId) -> (r: Option<UiNode>)
        ensures
            opt_node(r) == self@.scrollbar_node(id),
    {
        match self.given.hovered_scroll {
            Some(h) => if h == id {
                Some(UiNode::new(NodeId::LayoutScrollbar))
            } else {
                None
            },
            None => None,
        }
    }
}

// ── channels ───────────────────────────────────────────────────────────────

/// The name of the first row with an id.
pub open spec fn name_at(ls: Seq<GuildLine>, id: u64, k: int) -> Option<Seq<char>>
    decreases ls.len() - k,
{
    if k < 0 || k >= ls.len() {
        None
    } else if ls[k].tile.id == id {
        Some(ls[k].tile.name)
    } else {
        name_at(ls, id, k + 1)
    }
}

impl App {
    /// The name of the open guild.
    pub open spec fn list_title(self) -> Seq<char> {
        match name_at(self.guild_lines(), self.chat.selected_guild, 0) {
            Some(n) => n,
            None => "Gumicord"@,
        }
    }

    /// One row: a heading for a category, else something that opens.
    pub open spec fn channel_node(self, c: ChannelLine) -> Node {
        if c.category {
            Node::text(NodeId::NavChannelListCategory, c.name).with_id_key(c.id)
        } else {
            Node::new(NodeId::NavChannelListItem).with_id_key(c.id).with_data(c.id).with_state_if(
                c.id == self.chat.selected_channel,
                State::Selected,
            ).with_state_if(c.unread, State::Unread).with_state_if(
                c.mentions > 0,
                State::Mentioned,
            ).with_state_if(self.over_id(NodeId::NavChannelListItem, c.id), State::Hover).child(
                Node::icon(NodeId::NavChannelListItemIcon, c.icon).with_data(c.id),
            ).child(Node::text(NodeId::NavChannelListItemName, c.name).with_data(c.id)).child_if(
                c.mentions > 0,
                Node::text(NodeId::NavChannelListItemBadge, text::dec(c.mentions as nat)).with_data(
                    c.id,
                ),
            )
        }
    }

    pub open spec fn channel_nodes(self) -> Seq<Node> {
        let ls = channel_lines(self.live, self.entries());
        Seq::new(ls.len(), |i: int| self.channel_node(ls[i]))
    }

    pub open spec fn channel_list_node(self) -> Node {
        Node::new(NodeId::NavChannelList).child(
            Node::text(NodeId::NavChannelListHeader, self.list_title()),
        ).child(
            Node::new(NodeId::LayoutScroll).children(self.channel_nodes()).child_opt(
                self.scrollbar_node(NodeId::LayoutScroll),
            ),
        )
    }
}

impl Gumicord {
    fn channel_item(&self, c: &ChannelRow) -> (r: UiNode)
        ensures
            r@ == self@.channel_node(c@),
    {
        if c.category {
            return UiNode::text(NodeId::NavChannelListCategory, c.name.as_str()).with_id_key(c.id);
        }
        let item = UiNode::new(NodeId::NavChannelListItem).with_id_key(c.id).with_data(
            c.id,
        ).with_state_if(c.id == self.chat.selected_channel, State::Selected).with_state_if(
            c.unread,
            State::Unread,
        ).with_state_if(c.mentions > 0, State::Mentioned).with_state_if(
            self.hovered_id(NodeId::NavChannelListItem, c.id),
            State::Hover,
        ).child(UiNode::icon(NodeId::NavChannelListItemIcon, c.icon).with_data(c.id)).child(
            UiNode::text(NodeId::NavChannelListItemName, c.name.as_str()).with_data(c.id),
        );
        if c.mentions > 0 {
            item.child(
                UiNode::text(
                    NodeId::NavChannelListItemBadge,
                    text::dec_string(c.mentions as u64).as_str(),
                ).with_data(c.id),
            )
        } else {
            item
        }
    }

    fn list_title(&self) -> (r: String)
        ensures
            r@ == self@.list_title(),
    {
        let rows = self.guild_rows();
        let ghost ls = self@.guild_lines();
        let mut k: usize = 0;
        while k < rows.len()
            invariant
                k <= rows@.len(),
                ls == guild_lines_of(rows@),
                ls == self@.guild_lines(),
                name_at(ls, self.chat.selected_guild, 0) == name_at(
                    ls,
                    self.chat.selected_guild,
                    k as int,
                ),
            decreases rows@.len() - k,
        {
            assert(ls[k as int] == rows@[k as int]@);
            if rows[k].tile.id == self.chat.selected_guild {
                return rows[k].tile.name.clone();
            }
            k += 1;
        }
        text::owned("Gumicord")
    }

    /// The channel list. Only the list scrolls: one scroll region would carry
    /// the header off screen.
    pub fn channel_list(&self) -> (r: UiNode)
        ensures
            r@ == self@.channel_list_node(),
    {
        let rows = self.channel_rows();
        let ghost ls = channel_lines(self@.live, self@.entries());
        let ghost want = self@.channel_nodes();
        let mut items: Vec<UiNode> = Vec::new();
        let mut i: usize = 0;
        while i < rows.len()
            invariant
                i <= rows@.len(),
                ls == channel_lines_of(rows@),
                ls == channel_lines(self@.live, self@.entries()),
                want == self@.channel_nodes(),
                nodes_of(items@) =~= want.take(i as int),
            decreases rows@.len() - i,
        {
            let ghost before = items@;
            let item = self.channel_item(&rows[i]);
            items.push(item);
            assert(want[i as int] == item@);
            assert(nodes_of(items@) =~= nodes_of(before).push(item@));
            i += 1;
        }
        assert(nodes_of(items@) =~= want);
        UiNode::new(NodeId::NavChannelList).child(
            UiNode::text(NodeId::NavChannelListHeader, self.list_title().as_str()),
        ).child(
            UiNode::new(NodeId::LayoutScroll).children(items).child_opt(
                self.scrollbar(NodeId::LayoutScroll),
            ),
        )
    }
}

// ── guilds ─────────────────────────────────────────────────────────────────

impl App {
    /// The pill at a guild's left edge: absent where it would say nothing.
    pub open spec fn pill_node(self, g: TileView, selected: bool, hovered: bool) -> Option<Node> {
        if !selected && !hovered && !g.unread {
            None
        } else {
            Some(
                Node::new(NodeId::NavGuildListItemPill).with_data(g.id).with_state_if(
                    selected,
                    State::Selected,
                ).with_state_if(g.unread, State::Unread).with_state_if(hovered, State::Hover),
            )
        }
    }

    /// One guild, identical inside and outside a folder.
    pub open spec fn guild_node(self, g: TileView) -> Node {
        let selected = g.id == self.chat.selected_guild;
        let hovered = self.over_id(NodeId::NavGuildListItem, g.id);
        let icon = face_node(NodeId::NavGuildListItemIcon, g.icon, g.name).with_data(
            g.id,
        ).with_state_if(selected, State::Selected).with_state_if(
            hovered,
            State::Hover,
        ).with_state_if(g.in_folder, State::Grouped);
        Node::new(NodeId::NavGuildListItem).with_id_key(g.id).with_data(g.id).with_state_if(
            selected,
            State::Selected,
        ).with_state_if(g.unread, State::Unread).with_state_if(
            g.mentions > 0,
            State::Mentioned,
        ).with_state_if(g.in_folder, State::Grouped).with_state_if(hovered, State::Hover).child_opt(
            self.pill_node(g, selected, hovered),
        ).child(icon).child_if(
            g.mentions > 0,
            Node::text(NodeId::NavGuildListItemBadge, text::dec(g.mentions as nat)).with_data(g.id),
        )
    }

    pub open spec fn guild_nodes(self, gs: Seq<TileView>) -> Seq<Node> {
        Seq::new(gs.len(), |i: int| self.guild_node(gs[i]))
    }
}

/// A tile on a folded folder.
pub open spec fn tile_node(g: TileView) -> Node {
    face_node(NodeId::NavGuildListItemIcon, g.icon, g.name).with_id_key(g.id).with_state(
        State::Collapsed,
    )
}

/// A row of at most two tiles, from `k`.
pub open spec fn tile_row(gs: Seq<TileView>, k: int) -> Node {
    Node::new(NodeId::LayoutRow).child(tile_node(gs[k])).child_if(
        k + 1 < gs.len(),
        tile_node(gs[k + 1]),
    )
}

/// How many rows of two the tiles take.
pub open spec fn tile_rows(n: nat) -> nat {
    if n == 0 {
        0
    } else if n <= 2 {
        1
    } else {
        2
    }
}

pub open spec fn tile_grid(gs: Seq<TileView>) -> Node {
    Node::new(NodeId::LayoutColumn).children(
        Seq::new(tile_rows(gs.len()), |i: int| tile_row(gs, 2 * i)),
    )
}

impl App {
    /// One folder. Open, it wraps its contents; folded, it tiles them.
    pub open spec fn folder_node(self, g: GuildLine) -> Node {
        let id = match g.folder_of_own {
            Some(f) => f,
            None => g.tile.id,
        };
        let node = Node::new(NodeId::NavGuildListFolder).with_id_key(id).with_tint(
            g.tint,
        ).with_state_if(g.collapsed, State::Collapsed).with_state_if(
            self.over_id(NodeId::NavGuildListFolder, id),
            State::Hover,
        );
        if g.collapsed {
            node.child(tile_grid(g.members))
        } else {
            node.child(
                Node::icon(NodeId::NavGuildListFolderIcon, "folder"@).with_tint(g.tint),
            ).children(self.guild_nodes(g.members))
        }
    }

    /// What a row of the list draws, if anything: guilds inside a folder are
    /// drawn by the folder.
    pub open spec fn guild_row_node(self, g: GuildLine) -> Option<Node> {
        if g.folder_of_own is Some {
            Some(self.folder_node(g))
        } else if g.tile.in_folder {
            None
        } else {
            Some(self.guild_node(g.tile))
        }
    }

    pub open spec fn guild_row_nodes(self, ls: Seq<GuildLine>, n: nat) -> Seq<Node>
        decreases n,
    {
        if n == 0 || n > ls.len() {
            seq![]
        } else {
            let before = self.guild_row_nodes(ls, (n - 1) as nat);
            match self.guild_row_node(ls[n - 1]) {
                Some(node) => before.push(node),
                None => before,
            }
        }
    }

    pub open spec fn guild_list_node(self) -> Node {
        Node::new(NodeId::NavGuildList).child(
            Node::text(NodeId::NavGuildListHome, "DM"@).with_state_if(
                self.given.over(NodeId::NavGuildListHome, None),
                State::Hover,
            ),
        ).children(self.guild_row_nodes(self.guild_lines(), self.guild_lines().len())).child_opt(
            self.scrollbar_node(NodeId::NavGuildList),
        )
    }
}

fn tile(g: &GuildTile) -> (r: UiNode)
    ensures
        r@ == tile_node(g@),
{
    face(NodeId::NavGuildListItemIcon, &g.icon, g.name.as_str()).with_id_key(g.id).with_state(
        State::Collapsed,
    )
}

/// Rows and columns; there is no grid primitive.
fn grid(gs: &Vec<GuildTile>) -> (r: UiNode)
    ensures
        r@ == tile_grid(tiles_of(gs@)),
{
    let ghost ts = tiles_of(gs@);
    let ghost want = Seq::new(tile_rows(ts.len()), |i: int| tile_row(ts, 2 * i));
    let mut lines: Vec<UiNode> = Vec::new();
    let mut k: usize = 0;
    assert(nodes_of(lines@) =~= want.take(0));
    while k < gs.len() && k < FOLDER_TILES
        invariant
            k <= 4,
            k % 2 == 0,
            k < gs@.len() || k as int >= gs@.len(),
            ts == tiles_of(gs@),
            want == Seq::new(tile_rows(ts.len()), |i: int| tile_row(ts, 2 * i)),
            lines@.len() == k / 2,
            lines@.len() <= want.len(),
            nodes_of(lines@) =~= want.take(k as int / 2),
            k > 0 ==> k <= gs@.len() + 1,
        decreases 4 - k,
    {
        let mut line = UiNode::new(NodeId::LayoutRow).child(tile(&gs[k]));
        assert(ts[k as int] == gs@[k as int]@);
        if gs.len() - k > 1 {
            assert(ts[k + 1] == gs@[k + 1]@);
            line = line.child(tile(&gs[k + 1]));
        }
        let ghost before = lines@;
        assert(line@ == tile_row(ts, k as int));
        lines.push(line);
        assert(want[k as int / 2] == line@);
        assert(nodes_of(lines@) =~= nodes_of(before).push(line@));
        k += 2;
        assert(nodes_of(lines@) =~= want.take(k as int / 2));
    }
    assert(nodes_of(lines@) =~= want);
    UiNode::new(NodeId::LayoutColumn).children(lines)
}

impl Gumicord {
    /// One guild, identical inside and outside a folder.
    pub fn guild_item(&self, g: &GuildTile) -> (r: UiNode)
        ensures
            r@ == self@.guild_node(g@),
    {
        let selected = g.id == self.chat.selected_guild;
        let hovered = self.hovered_id(NodeId::NavGuildListItem, g.id);
        // The container is wider than the icon, leaving a lane at the left for
        // the pill.
        let icon = face(NodeId::NavGuildListItemIcon, &g.icon, g.name.as_str()).with_data(
            g.id,
        ).with_state_if(selected, State::Selected).with_state_if(
            hovered,
            State::Hover,
        ).with_state_if(g.in_folder, State::Grouped);
        let item = UiNode::new(NodeId::NavGuildListItem).with_id_key(g.id).with_data(
            g.id,
        ).with_state_if(selected, State::Selected).with_state_if(
            g.unread,
            State::Unread,
        ).with_state_if(g.mentions > 0, State::Mentioned).with_state_if(
            g.in_folder,
            State::Grouped,
        ).with_state_if(hovered, State::Hover).child_opt(
            self.guild_pill(g, selected, hovered),
        ).child(icon);
        // Counts only; the pill already says there is something unread.
        if g.mentions > 0 {
            item.child(
                UiNode::text(
                    NodeId::NavGuildListItemBadge,
                    text::dec_string(g.mentions as u64).as_str(),
                ).with_data(g.id),
            )
        } else {
            item
        }
    }

    /// The pill at a guild's left edge. Absent rather than zero-height when it
    /// would say nothing, so a visible pill always means something.
    pub fn guild_pill(&self, g: &GuildTile, selected: bool, hovered: bool) -> (r: Option<UiNode>)
        ensures
            opt_node(r) == self@.pill_node(g@, selected, hovered),
    {
        if !selected && !hovered && !g.unread {
            return None;
        }
        Some(
            UiNode::new(NodeId::NavGuildListItemPill).with_data(g.id).with_state_if(
                selected,
                State::Selected,
            ).with_state_if(g.unread, State::Unread).with_state_if(hovered, State::Hover),
        )
    }

    fn guild_items(&self, gs: &Vec<GuildTile>) -> (r: Vec<UiNode>)
        ensures
            nodes_of(r@) == self@.guild_nodes(tiles_of(gs@)),
    {
        let ghost want = self@.guild_nodes(tiles_of(gs@));
        let mut out: Vec<UiNode> = Vec::new();
        let mut i: usize = 0;
        while i < gs.len()
            invariant
                i <= gs@.len(),
                want == self@.guild_nodes(tiles_of(gs@)),
                nodes_of(out@) =~= want.take(i as int),
            decreases gs@.len() - i,
        {
            let ghost before = out@;
            let item = self.guild_item(&gs[i]);
            out.push(item);
            assert(want[i as int] == item@);
            assert(nodes_of(out@) =~= nodes_of(before).push(item@));
            i += 1;
        }
        assert(nodes_of(out@) =~= want);
        out
    }

    /// One folder. Open, it wraps its contents; folded, it tiles the icons
    /// inside, so what was folded away is visible without unfolding.
    pub fn folder_face(&self, row: &GuildRow) -> (r: UiNode)
        ensures
            r@ == self@.folder_node(row@),
    {
        let id = match row.folder_of_own {
            Some(f) => f,
            None => row.tile.id,
        };
        let node = UiNode::new(NodeId::NavGuildListFolder).with_id_key(id).with_tint(
            row.tint,
        ).with_state_if(row.collapsed, State::Collapsed).with_state_if(
            self.hovered_id(NodeId::NavGuildListFolder, id),
            State::Hover,
        );
        if row.collapsed {
            node.child(grid(&row.members))
        } else {
            node.child(
                UiNode::icon(NodeId::NavGuildListFolderIcon, "folder").with_tint(row.tint),
            ).children(self.guild_items(&row.members))
        }
    }

    /// The guild list.
    pub fn guild_list(&self) -> (r: UiNode)
        ensures
            r@ == self@.guild_list_node(),
    {
        let rows = self.guild_rows();
        let ghost ls = self@.guild_lines();
        let mut out: Vec<UiNode> = Vec::new();
        let mut i: usize = 0;
        assert(nodes_of(out@) =~= seq![]);
        while i < rows.len()
            invariant
                i <= rows@.len(),
                ls == guild_lines_of(rows@),
                nodes_of(out@) == self@.guild_row_nodes(ls, i as nat),
            decreases rows@.len() - i,
        {
            let g = &rows[i];
            assert(ls[i as int] == g@);
            let ghost before = out@;
            if g.folder_of_own.is_some() {
                let node = self.folder_face(g);
                out.push(node);
                assert(nodes_of(out@) =~= nodes_of(before).push(node@));
            } else if !g.tile.in_folder {
                let node = self.guild_item(&g.tile);
                out.push(node);
                assert(nodes_of(out@) =~= nodes_of(before).push(node@));
            }
            i += 1;
        }
        UiNode::new(NodeId::NavGuildList).child(
            UiNode::text(NodeId::NavGuildListHome, "DM").with_state_if(
                self.given.is_over(NodeId::NavGuildListHome, None),
                State::Hover,
            ),
        ).children(out).child_opt(self.scrollbar(NodeId::NavGuildList))
    }
}

// ── the side, and who is signed in ─────────────────────────────────────────

impl App {
    pub open spec fn panel_node(self, l: LoggedInView) -> Node {
        let avatar = Node::image(
            NodeId::NavUserPanelAvatar,
            url_of(sized(user_face(l.me.user), self.given.sizes.small_avatar)),
        ).child_opt(
            match self.live.status {
                Some(s) => Some(Node::new(NodeId::NavUserPanelPresence).with_slot(wire_name(s))),
                None => None,
            },
        );
        let lines = Node::new(NodeId::LayoutColumn).child(
            Node::text(NodeId::NavUserPanelName, user_name(l.me.user)),
        ).child_opt(
            match self.live.status {
                Some(s) => Some(Node::text(NodeId::NavUserPanelStatus, label_of(s))),
                None => None,
            },
        );
        Node::new(NodeId::NavUserPanel).child(avatar).child(lines).child(
            self.icon_button(SETTINGS_OPEN@, SETTINGS_GEAR@),
        )
    }

    /// Who is signed in, if anyone is.
    pub open spec fn user_panel_node(self) -> Option<Node> {
        match in_as(self.login.session) {
            Some(l) => Some(self.panel_node(l)),
            None => None,
        }
    }

    /// The whole left side, with the user panel pinned below the lists.
    pub open spec fn sidebar_node(self, panes: Panes) -> Option<Node> {
        if !panes.has_guilds() && !panes.has_channels() {
            None
        } else {
            Some(
                Node::new(NodeId::NavSidebar).child(
                    Node::new(NodeId::NavSidebarLists).child_if(
                        panes.has_guilds(),
                        self.guild_list_node(),
                    ).child_if(panes.has_channels(), self.channel_list_node()),
                ).child_opt(self.user_panel_node()),
            )
        }
    }
}

impl Gumicord {
    /// The whole left side, with the user panel pinned below the lists.
    ///
    /// ```text
    ///   ┌────┬──────────────┐
    ///   │ ◎ │ # general     │
    ///   │ ◎ │ # chat        │
    ///   ├────┴──────────────┤  the panel spans both
    ///   │ ◎ name            │
    ///   └───────────────────┘
    /// ```
    pub fn sidebar(&self, panes: Panes) -> (r: Option<UiNode>)
        ensures
            opt_node(r) == self@.sidebar_node(panes),
    {
        if !panes.guilds() && !panes.channels() {
            return None;
        }
        let guilds = if panes.guilds() {
            Some(self.guild_list())
        } else {
            None
        };
        let channels = if panes.channels() {
            Some(self.channel_list())
        } else {
            None
        };
        let lists = UiNode::new(NodeId::NavSidebarLists).child_opt(guilds).child_opt(channels);
        Some(UiNode::new(NodeId::NavSidebar).child(lists).child_opt(self.user_panel()))
    }

    /// Who is signed in.
    ///
    /// Being connected is not a status: showing "online" to someone set to do
    /// not disturb would be a lie, so an unknown status shows neither a word nor
    /// a dot.
    pub fn user_panel(&self) -> (r: Option<UiNode>)
        ensures
            opt_node(r) == self@.user_panel_node(),
    {
        let me = match self.login.session().logged_in() {
            Some(l) => &l.me.user,
            None => return None,
        };
        let dot = match self.live.status {
            Some(s) => Some(UiNode::new(NodeId::NavUserPanelPresence).with_slot(s.as_wire())),
            None => None,
        };
        let word = match self.live.status {
            Some(s) => Some(UiNode::text(NodeId::NavUserPanelStatus, s.label())),
            None => None,
        };
        let url = me.display_avatar().with_size(self.given.sizes.small_avatar).url();
        let avatar = UiNode::image(NodeId::NavUserPanelAvatar, url.as_str()).child_opt(dot);
        // Not guild-scoped: this is the global display name.
        let lines = UiNode::new(NodeId::LayoutColumn).child(
            UiNode::text(NodeId::NavUserPanelName, me.display_name()),
        ).child_opt(word);
        // The gear last, so it draws and hits above the panel.
        Some(
            UiNode::new(NodeId::NavUserPanel).child(avatar).child(lines).child(
                self.icon_button(SETTINGS_OPEN, SETTINGS_GEAR),
            ),
        )
    }
}

// ── members ────────────────────────────────────────────────────────────────

impl App {
    /// A heading's name, if it can be resolved.
    pub open spec fn group_shown(self, guild: GuildId, id: Seq<char>) -> Option<Seq<char>> {
        if id == "online"@ {
            Some("オンライン"@)
        } else if id == "offline"@ {
            Some("オフライン"@)
        } else {
            match crate::model::snowflake::id_of(id) {
                Some(role) => self.live.role_name_spec(guild, RoleId(Snowflake(role))),
                None => None,
            }
        }
    }

    pub open spec fn member_node(self, guild: GuildId, m: MemberView, status: Status) -> Option<
        Node,
    > {
        match m.user {
            None => None,
            Some(user) => {
                let id = user.id.0.0;
                let avatar = Node::image(
                    NodeId::NavMemberListItemAvatar,
                    url_of(sized(member_face(m, guild, user), self.given.sizes.small_avatar)),
                ).with_data(id).child(
                    Node::new(NodeId::NavMemberListItemPresence).with_slot(
                        wire_name(status),
                    ).with_data(id),
                );
                Some(
                    Node::new(NodeId::NavMemberListItem).with_id_key(id).with_data(
                        id,
                    ).with_state_if(
                        self.over_id(NodeId::NavMemberListItem, id),
                        State::Hover,
                    ).child(avatar).child(
                        Node::text(NodeId::NavMemberListItemName, member_name(m, user)).with_data(
                            id,
                        ).with_tint(self.live.tint_spec(guild, m.roles)),
                    ),
                )
            },
        }
    }

    /// What a row of the list draws, if anything.
    pub open spec fn member_row_node(self, guild: GuildId, r: RowView) -> Option<Node> {
        match r {
            RowView::Group { id, count } => match self.group_shown(guild, id) {
                Some(name) => Some(
                    Node::text(
                        NodeId::NavMemberListGroup,
                        name + " — "@ + text::dec(count as nat),
                    ),
                ),
                None => None,
            },
            RowView::Member { member, status } => self.member_node(guild, member, status),
        }
    }

    pub open spec fn member_nodes(self, guild: GuildId, rs: Seq<RowView>, n: nat) -> Seq<Node>
        decreases n,
    {
        if n == 0 || n > rs.len() {
            seq![]
        } else {
            let before = self.member_nodes(guild, rs, (n - 1) as nat);
            match self.member_row_node(guild, rs[n - 1]) {
                Some(node) => before.push(node),
                None => before,
            }
        }
    }

    /// The rows of the member list, once there is anyone to name.
    pub open spec fn member_rows(self) -> Option<Seq<Node>> {
        match self.live.guild_spec(self.guild_id()) {
            None => None,
            Some(g) => match g.members {
                None => None,
                Some(list) => {
                    let out = self.member_nodes(self.guild_id(), list@.rows, list@.rows.len());
                    if out.len() == 0 {
                        None
                    } else if g.members_pending {
                        Some(out.push(loading_node("member_list_loading"@)))
                    } else {
                        Some(out)
                    }
                },
            },
        }
    }

    pub open spec fn member_list_node(self) -> Node {
        match self.member_rows() {
            None => Node::new(NodeId::NavMemberList).with_state(State::Loading),
            Some(rows) => Node::new(NodeId::NavMemberList).children(rows).child_opt(
                self.scrollbar_node(NodeId::NavMemberList),
            ),
        }
    }
}

pub open spec fn opt_nodes(v: Option<Vec<UiNode>>) -> Option<Seq<Node>> {
    match v {
        Some(v) => Some(nodes_of(v@)),
        None => None,
    }
}

impl Gumicord {
    /// The member list, at the right edge.
    ///
    /// The column exists before the data arrives: growing it later would change
    /// the chat width and reflow the body under the reader. `Loading` tells "not
    /// here yet" from "nobody here".
    pub fn member_list(&self) -> (r: UiNode)
        ensures
            r@ == self@.member_list_node(),
    {
        let list = UiNode::new(NodeId::NavMemberList);
        match self.member_list_rows() {
            None => list.with_state(State::Loading),
            Some(rows) => list.children(rows).child_opt(self.scrollbar(NodeId::NavMemberList)),
        }
    }

    fn member_row(&self, guild: GuildId, row: &MemberRow) -> (r: Option<UiNode>)
        ensures
            opt_node(r) == self@.member_row_node(guild, row@),
    {
        match row {
            MemberRow::Group { id, count } => {
                // An unresolved role id does not read as a heading.
                let name = self.group_name(guild, id.as_str())?;
                let mut line = name;
                line.append(" — ");
                line.append(text::dec_string(*count as u64).as_str());
                Some(UiNode::text(NodeId::NavMemberListGroup, line.as_str()))
            },
            MemberRow::Member(m) => {
                let user = match &m.member.user {
                    Some(u) => u,
                    None => return None,
                };
                let id = user.id.get();
                // Per-guild name and avatar win; the global ones leave the
                // reader unable to tell who this is here.
                let url = m.member.display_avatar(guild, user).with_size(
                    self.given.sizes.small_avatar,
                ).url();
                let avatar = UiNode::image(
                    NodeId::NavMemberListItemAvatar,
                    url.as_str(),
                ).with_data(id).child(
                    UiNode::new(NodeId::NavMemberListItemPresence).with_slot(
                        m.status.as_wire(),
                    ).with_data(id),
                );
                let tint = self.live.member_tint(guild, &m.member.roles);
                Some(
                    UiNode::new(NodeId::NavMemberListItem).with_id_key(id).with_data(
                        id,
                    ).with_state_if(
                        self.hovered_id(NodeId::NavMemberListItem, id),
                        State::Hover,
                    ).child(avatar).child(
                        UiNode::text(
                            NodeId::NavMemberListItemName,
                            m.member.display_name(user),
                        ).with_data(id).with_tint(tint),
                    ),
                )
            },
        }
    }

    /// The member rows without their container: the side pane wraps them, the
    /// sheet lets them fill. `None` while loading.
    pub fn member_list_rows(&self) -> (r: Option<Vec<UiNode>>)
        ensures
            opt_nodes(r) == self@.member_rows(),
    {
        let guild = GuildId::from(self.chat.selected_guild);
        let g = self.live.guild(guild)?;
        let list = match &g.members {
            Some(l) => l,
            None => return None,
        };
        let rows = list.rows();
        let ghost rs = list@.rows;
        let mut out: Vec<UiNode> = Vec::new();
        let mut i: usize = 0;
        assert(nodes_of(out@) =~= seq![]);
        while i < rows.len()
            invariant
                i <= rows@.len(),
                rs == rows_of(rows@),
                nodes_of(out@) == self@.member_nodes(guild, rs, i as nat),
            decreases rows@.len() - i,
        {
            let ghost before = out@;
            assert(rs[i as int] == rows@[i as int]@);
            if let Some(node) = self.member_row(guild, &rows[i]) {
                out.push(node);
                assert(nodes_of(out@) =~= nodes_of(before).push(node@));
            }
            i += 1;
        }
        // Nothing nameable yet.
        assert(nodes_of(out@).len() == out@.len());
        if out.len() == 0 {
            return None;
        }
        // More rows were asked for than have arrived: a row at the bottom says
        // the list continues instead of ending in silence.
        if g.members_pending {
            let ghost before = out@;
            let last = loading_row("member_list_loading");
            out.push(last);
            assert(nodes_of(out@) =~= nodes_of(before).push(last@));
        }
        Some(out)
    }

    /// A heading's name, if it can be resolved.
    pub fn group_name(&self, guild: GuildId, id: &str) -> (r: Option<String>)
        ensures
            crate::model::opt_text(r) == self@.group_shown(guild, id@),
    {
        if text::same_text(id, "online") {
            return Some(text::owned("オンライン"));
        }
        if text::same_text(id, "offline") {
            return Some(text::owned("オフライン"));
        }
        let role = match Snowflake::from_str(id) {
            Ok(s) => s,
            Err(_) => return None,
        };
        match self.live.role_name(guild, RoleId::from(role)) {
            Some(n) => Some(text::owned(n)),
            None => None,
        }
    }
}

// ── laws ───────────────────────────────────────────────────────────────────

/// A visible pill always means something: it is there exactly for a selected, a
/// hovered or an unread guild.
pub proof fn a_pill_means_something(a: App, g: TileView, selected: bool, hovered: bool)
    ensures
        a.pill_node(g, selected, hovered) is Some <==> selected || hovered || g.unread,
        a.pill_node(g, selected, hovered) matches Some(n) ==> n.states.len() > 0,
{
}

/// A folded folder never shows more than its tiles, and holds no guild.
pub proof fn a_folded_folder_holds_tiles_only(a: App, g: GuildLine)
    requires
        g.collapsed,
    ensures
        a.folder_node(g).children.len() == 1,
        a.folder_node(g).children[0].children.len() <= 2,
        forall|i: int|
            0 <= i < a.folder_node(g).children[0].children.len() ==> (
            #[trigger] a.folder_node(g).children[0].children[i]).children.len() <= 2,
{
}

/// An open folder holds its contents, one node for each.
pub proof fn an_open_folder_holds_its_contents(a: App, g: GuildLine)
    requires
        !g.collapsed,
    ensures
        a.folder_node(g).children.len() == 1 + g.members.len(),
        forall|i: int|
            0 <= i < g.members.len() ==> #[trigger] a.folder_node(g).children[1 + i]
                == a.guild_node(g.members[i]),
{
}

/// The member column stands, marked as loading, until there is someone to name.
pub proof fn the_column_stands_before_anything_arrives(a: App)
    ensures
        a.member_list_node().id == NodeId::NavMemberList,
        a.member_rows() is None ==> a.member_list_node().states == seq![State::Loading]
            && a.member_list_node().children.len() == 0,
        a.member_rows() is Some ==> a.member_list_node().states.len() == 0,
{
    if a.member_rows() is None {
        assert(a.member_list_node().states =~= seq![State::Loading]);
    }
}

/// The user panel spans both lists: it stands beside their group, never in it.
pub proof fn the_panel_stands_beside_the_lists(a: App, panes: Panes)
    requires
        panes.has_channels(),
    ensures
        a.sidebar_node(panes) matches Some(side) && side.children[0].id
            == NodeId::NavSidebarLists && (a.user_panel_node() matches Some(p)
            ==> side.children[1] == p),
{
}

} // verus!
