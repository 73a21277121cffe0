//! The member list.
//!
//! Never everyone: guilds run to tens of thousands, so the subscription asks
//! for a range of rows and only those arrive.
//!
//! ```text
//!   [heading] Admins (2)     group
//!     someone                member
//!     someone else
//!   [heading] Online (5)
//!     ...
//! ```
//!
//! Headings are rows too: a diff's index counts them, so treating them
//! separately shifts every position.
//!
//! Updates arrive as diffs:
//!
//! | `op` | meaning |
//! |---|---|
//! | `SYNC` | replaces a whole range; the first thing to arrive |
//! | `INSERT` | one row appears at a position |
//! | `UPDATE` | one row changes |
//! | `DELETE` | one row goes |
//! | `INVALIDATE` | no longer trustworthy; show nothing until refetched |
//!
//! An insert is not an append: the position is given because everything after
//! it shifts down.
//!
//! A heading's id is `online`, `offline`, or a role id. Only the guild knows
//! role names, so resolving them is the caller's job and ids pass through
//! here.

use vstd::prelude::*;
use crate::gateway::status::{named, Status};
use crate::json::{values_of, Json, Value};
use crate::model::de::{member_of, FromJson};
use crate::model::snowflake::id_of;
use crate::model::{opt_text, GuildId, Member, MemberView, RoleId, Snowflake, User};
use crate::text;

verus! {

/// One row; headings are rows too.
#[derive(Debug, Clone, PartialEq, Eq)]
pub enum MemberRow {
    /// A heading; the id is `online`, `offline`, or a role id.
    Group { id: String, count: u32 },
    Member(Box<MemberEntry>),
}

/// One person in the list.
#[derive(Debug, Clone, PartialEq, Eq)]
pub struct MemberEntry {
    /// Always with a user; rows without one are dropped, since a row for
    /// nobody gives the reader nothing to act on.
    pub member: Member,
    /// Absent presence means offline; it does not mean unknown.
    pub status: Status,
}

/// [`MemberRow`] with the text as character sequences.
pub ghost enum RowView {
    Group { id: Seq<char>, count: u32 },
    Member { member: MemberView, status: Status },
}

impl View for MemberRow {
    type V = RowView;

    open spec fn view(&self) -> RowView {
        match *self {
            MemberRow::Group { id, count } => RowView::Group { id: id@, count },
            MemberRow::Member(e) => RowView::Member { member: e.member@, status: e.status },
        }
    }
}

pub open spec fn rows_of(v: Seq<MemberRow>) -> Seq<RowView> {
    Seq::new(v.len(), |i: int| v[i]@)
}

/// One diff.
#[derive(Debug, Clone, PartialEq, Eq)]
pub enum ListOp {
    /// Replaces from `start` with these rows.
    Sync { start: usize, rows: Vec<MemberRow> },
    Insert { at: usize, row: MemberRow },
    Update { at: usize, row: MemberRow },
    Delete { at: usize },
    /// No longer trustworthy; clear it.
    Invalidate,
}

/// [`ListOp`] with the text as character sequences.
pub ghost enum OpView {
    Sync { start: usize, rows: Seq<RowView> },
    Insert { at: usize, row: RowView },
    Update { at: usize, row: RowView },
    Delete { at: usize },
    Invalidate,
}

impl View for ListOp {
    type V = OpView;

    open spec fn view(&self) -> OpView {
        match *self {
            ListOp::Sync { start, rows } => OpView::Sync { start, rows: rows_of(rows@) },
            ListOp::Insert { at, row } => OpView::Insert { at, row: row@ },
            ListOp::Update { at, row } => OpView::Update { at, row: row@ },
            ListOp::Delete { at } => OpView::Delete { at },
            ListOp::Invalidate => OpView::Invalidate,
        }
    }
}

pub open spec fn ops_of(v: Seq<ListOp>) -> Seq<OpView> {
    Seq::new(v.len(), |i: int| v[i]@)
}

/// One update event.
#[derive(Debug, Clone, PartialEq, Eq)]
pub struct MemberListUpdate {
    pub guild: GuildId,
    /// How many are online, counting past the requested range.
    pub online: u32,
    /// How many are in the guild.
    pub total: u32,
    pub ops: Vec<ListOp>,
}

/// [`MemberListUpdate`] with the text as character sequences.
pub ghost struct UpdateView {
    pub guild: GuildId,
    pub online: u32,
    pub total: u32,
    pub ops: Seq<OpView>,
}

impl View for MemberListUpdate {
    type V = UpdateView;

    open spec fn view(&self) -> UpdateView {
        UpdateView {
            guild: self.guild,
            online: self.online,
            total: self.total,
            ops: ops_of(self.ops@),
        }
    }
}

/// The list the diffs apply to.
#[derive(Debug, Clone, PartialEq, Eq)]
pub struct MemberList {
    rows: Vec<MemberRow>,
    online: u32,
    total: u32,
}

/// [`MemberList`] with the text as character sequences.
pub ghost struct ListView {
    pub rows: Seq<RowView>,
    pub online: u32,
    pub total: u32,
}

impl View for MemberList {
    type V = ListView;

    closed spec fn view(&self) -> ListView {
        ListView { rows: rows_of(self.rows@), online: self.online, total: self.total }
    }
}

// ── applying ───────────────────────────────────────────────────────────────

/// The rows after one diff. A diff that points outside what is held changes
/// nothing.
pub open spec fn applied(rows: Seq<RowView>, op: OpView) -> Seq<RowView> {
    match op {
        OpView::Invalidate => seq![],
        OpView::Sync { start, rows: new } => if start <= rows.len() {
            rows.take(start as int) + new
        } else {
            rows
        },
        OpView::Insert { at, row } => if at <= rows.len() {
            rows.insert(at as int, row)
        } else {
            rows
        },
        OpView::Update { at, row } => if at < rows.len() {
            rows.update(at as int, row)
        } else {
            rows
        },
        OpView::Delete { at } => if at < rows.len() {
            rows.remove(at as int)
        } else {
            rows
        },
    }
}

/// Whether a diff asks for a redraw.
pub open spec fn redraws(rows: Seq<RowView>, op: OpView) -> bool {
    match op {
        OpView::Invalidate => rows.len() > 0,
        OpView::Sync { start, .. } => start <= rows.len(),
        OpView::Insert { at, .. } => at <= rows.len(),
        OpView::Update { at, row } => at < rows.len() && rows[at as int] != row,
        OpView::Delete { at } => at < rows.len(),
    }
}

/// The rows after the first `n` diffs, one after the other.
pub open spec fn applied_all(rows: Seq<RowView>, ops: Seq<OpView>, n: nat) -> Seq<RowView>
    decreases n,
{
    if n == 0 {
        rows
    } else {
        applied(applied_all(rows, ops, (n - 1) as nat), ops[n - 1])
    }
}

/// Whether one of the first `n` diffs asks for a redraw.
pub open spec fn any_redraws(rows: Seq<RowView>, ops: Seq<OpView>, n: nat) -> bool
    decreases n,
{
    n > 0 && (any_redraws(rows, ops, (n - 1) as nat) || redraws(
        applied_all(rows, ops, (n - 1) as nat),
        ops[n - 1],
    ))
}

/// Where no diff asks for a redraw, the rows are what they were.
pub proof fn no_redraw_means_no_change(rows: Seq<RowView>, ops: Seq<OpView>, n: nat)
    requires
        !any_redraws(rows, ops, n),
    ensures
        applied_all(rows, ops, n) == rows,
    decreases n,
{
    if n > 0 {
        no_redraw_means_no_change(rows, ops, (n - 1) as nat);
        assert(applied(rows, ops[n - 1]) =~= rows);
    }
}

/// Diffs from below what is held grow nothing: after one, the rows held
/// before it still stand where they did.
pub proof fn diffs_beyond_are_dropped(rows: Seq<RowView>, op: OpView)
    requires
        match op {
            OpView::Insert { at, .. } => at > rows.len(),
            OpView::Update { at, .. } => at >= rows.len(),
            OpView::Delete { at } => at >= rows.len(),
            OpView::Sync { start, .. } => start > rows.len(),
            OpView::Invalidate => false,
        },
    ensures
        applied(rows, op) == rows,
        !redraws(rows, op),
{
}

/// Deleting what was just inserted gives the list back.
pub proof fn delete_undoes_insert(rows: Seq<RowView>, at: usize, row: RowView)
    requires
        at <= rows.len(),
    ensures
        applied(applied(rows, OpView::Insert { at, row }), OpView::Delete { at }) == rows,
{
    assert(rows.insert(at as int, row).remove(at as int) =~= rows);
}

fn same_opt(a: &Option<String>, b: &Option<String>) -> (r: bool)
    ensures
        r == (opt_text(*a) == opt_text(*b)),
{
    match (a, b) {
        (Some(x), Some(y)) => text::same_text(x.as_str(), y.as_str()),
        (None, None) => true,
        _ => false,
    }
}

fn same_user(a: &User, b: &User) -> (r: bool)
    ensures
        r == (a@ == b@),
{
    a.id == b.id && text::same_text(a.username.as_str(), b.username.as_str()) && same_opt(
        &a.global_name,
        &b.global_name,
    ) && text::same_text(a.discriminator.as_str(), b.discriminator.as_str()) && same_opt(
        &a.avatar_hash,
        &b.avatar_hash,
    ) && a.bot == b.bot
}

fn same_roles(a: &Vec<RoleId>, b: &Vec<RoleId>) -> (r: bool)
    ensures
        r == (a@ == b@),
{
    if a.len() != b.len() {
        return false;
    }
    let mut i: usize = 0;
    while i < a.len()
        invariant
            i <= a@.len(),
            a@.len() == b@.len(),
            forall|k: int| 0 <= k < i ==> a@[k] == b@[k],
        decreases a@.len() - i,
    {
        if a[i] != b[i] {
            return false;
        }
        i += 1;
    }
    assert(a@ =~= b@);
    true
}

fn same_member(a: &Member, b: &Member) -> (r: bool)
    ensures
        r == (a@ == b@),
{
    let users = match (&a.user, &b.user) {
        (Some(x), Some(y)) => same_user(x, y),
        (None, None) => true,
        _ => false,
    };
    users && same_opt(&a.nick, &b.nick) && same_opt(&a.avatar_hash, &b.avatar_hash) && same_roles(
        &a.roles,
        &b.roles,
    ) && same_opt(&a.joined_at, &b.joined_at)
}

fn same_row(a: &MemberRow, b: &MemberRow) -> (r: bool)
    ensures
        r == (a@ == b@),
{
    match (a, b) {
        (
            MemberRow::Group { id: x, count: n },
            MemberRow::Group { id: y, count: m },
        ) => text::same_text(x.as_str(), y.as_str()) && n == m,
        (MemberRow::Member(x), MemberRow::Member(y)) => same_member(&x.member, &y.member)
            && x.status == y.status,
        _ => false,
    }
}

impl Default for MemberList {
    fn default() -> (r: MemberList)
        ensures
            r@ == (ListView { rows: seq![], online: 0, total: 0 }),
    {
        let r = MemberList { rows: Vec::new(), online: 0, total: 0 };
        assert(rows_of(r.rows@) =~= seq![]);
        r
    }
}

impl MemberList {
    /// The rows held, headings included.
    pub fn rows(&self) -> (r: &Vec<MemberRow>)
        ensures
            rows_of(r@) == self@.rows,
    {
        &self.rows
    }

    /// How many are online, counting past the requested range.
    pub fn online(&self) -> (r: u32)
        ensures
            r == self@.online,
    {
        self.online
    }

    pub fn total(&self) -> (r: u32)
        ensures
            r == self@.total,
    {
        self.total
    }

    pub fn is_empty(&self) -> (r: bool)
        ensures
            r == (self@.rows.len() == 0),
    {
        self.rows.len() == 0
    }

    fn apply_op(&mut self, op: ListOp) -> (r: bool)
        ensures
            final(self)@ == (ListView { rows: applied(old(self)@.rows, op@), ..old(self)@ }),
            r == redraws(old(self)@.rows, op@),
    {
        let ghost before = self@.rows;
        match op {
            ListOp::Invalidate => {
                let had = self.rows.len() > 0;
                self.rows.clear();
                assert(rows_of(self.rows@) =~= seq![]);
                had
            },
            ListOp::Sync { start, rows } => {
                // A sync that does not continue what is held would join across
                // a gap.
                if start > self.rows.len() {
                    return false;
                }
                let ghost new = rows@;
                let mut rows = rows;
                self.rows.truncate(start);
                self.rows.append(&mut rows);
                assert(rows_of(self.rows@) =~= before.take(start as int) + rows_of(new));
                true
            },
            ListOp::Insert { at, row } => {
                if at > self.rows.len() {
                    return false;
                }
                self.rows.insert(at, row);
                assert(rows_of(self.rows@) =~= before.insert(at as int, row@));
                true
            },
            ListOp::Update { at, row } => {
                if at >= self.rows.len() {
                    return false;
                }
                if same_row(&self.rows[at], &row) {
                    assert(before.update(at as int, row@) =~= before);
                    return false;
                }
                self.rows.set(at, row);
                assert(rows_of(self.rows@) =~= before.update(at as int, row@));
                true
            },
            ListOp::Delete { at } => {
                if at >= self.rows.len() {
                    return false;
                }
                self.rows.remove(at);
                assert(rows_of(self.rows@) =~= before.remove(at as int));
                true
            },
        }
    }

    /// Applies a diff and says whether to redraw.
    ///
    /// Diffs pointing outside what is held are dropped: events from below the
    /// requested range do arrive, and applying them grows rows as if they
    /// continued from somewhere that was never held.
    pub fn apply(&mut self, update: MemberListUpdate) -> (r: bool)
        ensures
            final(self)@ == (ListView {
                rows: applied_all(old(self)@.rows, update@.ops, update@.ops.len()),
                online: update.online,
                total: update.total,
            }),
            r == (old(self)@.online != update.online || old(self)@.total != update.total
                || any_redraws(old(self)@.rows, update@.ops, update@.ops.len())),
    {
        let ghost held = self@.rows;
        let ghost ops = update@.ops;
        let counts = self.online != update.online || self.total != update.total;
        let mut changed = counts;
        self.online = update.online;
        self.total = update.total;
        let it = update.ops.into_iter();
        assert(rows_of(self.rows@) =~= held);
        for op in o: it
            invariant
                o.seq() == update.ops@,
                ops == ops_of(update.ops@),
                self@.rows == applied_all(held, ops, o.index() as nat),
                self@.online == update.online,
                self@.total == update.total,
                changed == (counts || any_redraws(held, ops, o.index() as nat)),
        {
            assert(ops[o.index()] == op@);
            let c = self.apply_op(op);
            changed = changed || c;
        }
        changed
    }
}

// ── parsing ────────────────────────────────────────────────────────────────

/// A count, zero where there is none, capped at what 32 bits hold.
pub open spec fn count_in(v: Value, key: Seq<char>) -> u32 {
    match v.get(key) {
        Some(f) => match f.unsigned() {
            Some(n) => if n > u32::MAX {
                u32::MAX
            } else {
                n as u32
            },
            None => 0,
        },
        None => 0,
    }
}

fn count(data: &Json, key: &str) -> (r: u32)
    ensures
        r == count_in(data@, key@),
{
    match data.get(key) {
        Some(f) => match f.as_unsigned() {
            Some(n) => if n > u32::MAX as u64 {
                u32::MAX
            } else {
                n as u32
            },
            None => 0,
        },
        None => 0,
    }
}

/// The text under a key.
pub open spec fn text_at(v: Value, key: Seq<char>) -> Option<Seq<char>> {
    match v.get(key) {
        Some(f) => f.text(),
        None => None,
    }
}

fn text_of<'a>(data: &'a Json, key: &str) -> (r: Option<&'a String>)
    ensures
        match r {
            Some(t) => text_at(data@, key@) == Some(t@),
            None => text_at(data@, key@) is None,
        },
{
    match data.get(key) {
        Some(f) => f.as_text(),
        None => None,
    }
}

/// The list under a key.
pub open spec fn list_at(v: Value, key: Seq<char>) -> Option<Seq<Value>> {
    match v.get(key) {
        Some(f) => f.array(),
        None => None,
    }
}

fn list_of<'a>(data: &'a Json, key: &str) -> (r: Option<&'a Vec<Json>>)
    ensures
        match r {
            Some(a) => list_at(data@, key@) == Some(values_of(a@)),
            None => list_at(data@, key@) is None,
        },
{
    match data.get(key) {
        Some(f) => f.as_array(),
        None => None,
    }
}

/// The count of the last of the first `n` groups with that id.
pub open spec fn last_count(groups: Seq<Value>, id: Seq<char>, n: nat) -> Option<u32>
    decreases n,
{
    if n == 0 || n > groups.len() {
        None
    } else if text_at(groups[n - 1], "id"@) == Some(id) {
        Some(count_in(groups[n - 1], "count"@))
    } else {
        last_count(groups, id, (n - 1) as nat)
    }
}

/// A heading's count from the top-level groups.
pub open spec fn group_count_in(data: Value, id: Seq<char>) -> Option<u32> {
    match list_at(data, "groups"@) {
        Some(g) => last_count(g, id, g.len()),
        None => None,
    }
}

/// A heading's count from the top-level groups.
fn group_count(data: &Json, id: &str) -> (r: Option<u32>)
    ensures
        r == group_count_in(data@, id@),
{
    let groups = match list_of(data, "groups") {
        Some(g) => g,
        None => return None,
    };
    let ghost vs = values_of(groups@);
    let mut n: usize = groups.len();
    while n > 0
        invariant
            n <= groups@.len(),
            vs == values_of(groups@),
            list_at(data@, "groups"@) == Some(vs),
            last_count(vs, id@, vs.len()) == last_count(vs, id@, n as nat),
        decreases n,
    {
        let g = &groups[n - 1];
        assert(vs[n - 1] == g@);
        if let Some(t) = text_of(g, "id") {
            if text::same_text(t.as_str(), id) {
                return Some(count(g, "count"));
            }
        }
        n -= 1;
    }
    None
}

/// The presence that a member's value carries; none, or an unknown one, means
/// offline.
pub open spec fn presence_in(v: Value) -> Status {
    let name = match v.get("presence"@) {
        Some(p) => text_at(p, "status"@),
        None => None,
    };
    match name {
        Some(s) => match named(s) {
            Some(status) => status,
            None => Status::Offline,
        },
        None => Status::Offline,
    }
}

fn presence(data: &Json) -> (r: Status)
    ensures
        r == presence_in(data@),
{
    let p = match data.get("presence") {
        Some(p) => p,
        None => return Status::Offline,
    };
    match text_of(p, "status") {
        Some(s) => match Status::from_wire(s.as_str()) {
            Some(status) => status,
            None => Status::Offline,
        },
        None => Status::Offline,
    }
}

/// What one item of an event `data` is: a heading, or a person. Rows for
/// nobody are dropped.
pub open spec fn row_in(data: Value, item: Value) -> Option<RowView> {
    match item.get("group"@) {
        Some(group) => match text_at(group, "id"@) {
            Some(id) => Some(
                RowView::Group {
                    id,
                    // The top-level count first: a heading inside a diff can
                    // arrive as an id alone.
                    count: match group_count_in(data, id) {
                        Some(n) => n,
                        None => count_in(group, "count"@),
                    },
                },
            ),
            None => None,
        },
        None => match item.get("member"@) {
            Some(raw) => match member_of(raw) {
                Some(member) if member.user is Some => Some(
                    RowView::Member { member, status: presence_in(raw) },
                ),
                _ => None,
            },
            None => None,
        },
    }
}

pub open spec fn opt_row(r: Option<MemberRow>) -> Option<RowView> {
    match r {
        Some(r) => Some(r@),
        None => None,
    }
}

fn row(data: &Json, item: &Json) -> (r: Option<MemberRow>)
    ensures
        opt_row(r) == row_in(data@, item@),
{
    if let Some(group) = item.get("group") {
        let id = text_of(group, "id")?;
        let n = match group_count(data, id.as_str()) {
            Some(n) => n,
            None => count(group, "count"),
        };
        return Some(MemberRow::Group { id: id.clone(), count: n });
    }
    let raw = item.get("member")?;
    let member = Member::from_json(raw)?;
    if member.user.is_none() {
        return None;
    }
    let status = presence(raw);
    Some(MemberRow::Member(Box::new(MemberEntry { member, status })))
}

/// The items that are rows, in order, from the `k`-th on.
pub open spec fn rows_in(data: Value, items: Seq<Value>, k: int) -> Seq<RowView>
    decreases items.len() - k,
{
    if k < 0 || k >= items.len() {
        seq![]
    } else {
        match row_in(data, items[k]) {
            Some(r) => seq![r] + rows_in(data, items, k + 1),
            None => rows_in(data, items, k + 1),
        }
    }
}

fn rows(data: &Json, items: &Vec<Json>) -> (r: Vec<MemberRow>)
    ensures
        rows_of(r@) == rows_in(data@, values_of(items@), 0),
{
    let ghost vs = values_of(items@);
    let mut out: Vec<MemberRow> = Vec::new();
    let mut i: usize = 0;
    assert(rows_of(out@) + rows_in(data@, vs, 0) =~= rows_in(data@, vs, 0));
    while i < items.len()
        invariant
            i <= items@.len(),
            vs == values_of(items@),
            rows_of(out@) + rows_in(data@, vs, i as int) == rows_in(data@, vs, 0),
        decreases items@.len() - i,
    {
        let ghost before = out@;
        match row(data, &items[i]) {
            Some(r) => {
                out.push(r);
                assert(rows_of(out@) =~= rows_of(before).push(r@));
                assert(rows_of(out@) + rows_in(data@, vs, i + 1) =~= rows_of(before) + rows_in(
                    data@,
                    vs,
                    i as int,
                ));
            },
            None => {},
        }
        i += 1;
    }
    assert(rows_of(out@) + rows_in(data@, vs, i as int) =~= rows_of(out@));
    out
}

/// Where a replaced range starts; zero where that is not said.
pub open spec fn range_start(raw: Value) -> usize {
    match list_at(raw, "range"@) {
        Some(r) => if r.len() > 0 {
            match r[0].unsigned() {
                Some(n) => n as usize,
                None => 0,
            }
        } else {
            0
        },
        None => 0,
    }
}

fn start_of(raw: &Json) -> (r: usize)
    ensures
        r == range_start(raw@),
{
    match list_of(raw, "range") {
        Some(a) => if a.len() > 0 {
            assert(values_of(a@)[0] == a@[0]@);
            match a[0].as_unsigned() {
                Some(n) => n as usize,
                None => 0,
            }
        } else {
            0
        },
        None => 0,
    }
}

pub open spec fn index_in(raw: Value) -> Option<usize> {
    match raw.get("index"@) {
        Some(f) => match f.unsigned() {
            Some(n) => Some(n as usize),
            None => None,
        },
        None => None,
    }
}

fn index(raw: &Json) -> (r: Option<usize>)
    ensures
        r == index_in(raw@),
{
    match raw.get("index") {
        Some(f) => match f.as_unsigned() {
            Some(n) => Some(n as usize),
            None => None,
        },
        None => None,
    }
}

pub open spec fn item_in(data: Value, raw: Value) -> Option<RowView> {
    match raw.get("item"@) {
        Some(item) => row_in(data, item),
        None => None,
    }
}

/// What one diff of an event `data` asks for. An unknown name asks for
/// nothing: one that shifts positions would silently corrupt the list.
pub open spec fn op_in(data: Value, raw: Value) -> Option<OpView> {
    match text_at(raw, "op"@) {
        Some(name) => if name == "SYNC"@ {
            match list_at(raw, "items"@) {
                Some(items) => Some(
                    OpView::Sync { start: range_start(raw), rows: rows_in(data, items, 0) },
                ),
                None => None,
            }
        } else if name == "INSERT"@ {
            match (index_in(raw), item_in(data, raw)) {
                (Some(at), Some(row)) => Some(OpView::Insert { at, row }),
                _ => None,
            }
        } else if name == "UPDATE"@ {
            match (index_in(raw), item_in(data, raw)) {
                (Some(at), Some(row)) => Some(OpView::Update { at, row }),
                _ => None,
            }
        } else if name == "DELETE"@ {
            match index_in(raw) {
                Some(at) => Some(OpView::Delete { at }),
                None => None,
            }
        } else if name == "INVALIDATE"@ {
            Some(OpView::Invalidate)
        } else {
            None
        },
        None => None,
    }
}

pub open spec fn opt_op(o: Option<ListOp>) -> Option<OpView> {
    match o {
        Some(o) => Some(o@),
        None => None,
    }
}

fn item(data: &Json, raw: &Json) -> (r: Option<MemberRow>)
    ensures
        opt_row(r) == item_in(data@, raw@),
{
    match raw.get("item") {
        Some(item) => row(data, item),
        None => None,
    }
}

fn op(data: &Json, raw: &Json) -> (r: Option<ListOp>)
    ensures
        opt_op(r) == op_in(data@, raw@),
{
    let name = text_of(raw, "op")?.as_str();
    if text::same_text(name, "SYNC") {
        // The end of the range is not looked at; the rows that arrived are the
        // truth.
        let items = list_of(raw, "items")?;
        let start = start_of(raw);
        Some(ListOp::Sync { start, rows: rows(data, items) })
    } else if text::same_text(name, "INSERT") {
        let at = index(raw)?;
        Some(ListOp::Insert { at, row: item(data, raw)? })
    } else if text::same_text(name, "UPDATE") {
        let at = index(raw)?;
        Some(ListOp::Update { at, row: item(data, raw)? })
    } else if text::same_text(name, "DELETE") {
        Some(ListOp::Delete { at: index(raw)? })
    } else if text::same_text(name, "INVALIDATE") {
        Some(ListOp::Invalidate)
    } else {
        None
    }
}

/// The diffs that can be read, in order, from the `k`-th on.
pub open spec fn ops_in(data: Value, raw: Seq<Value>, k: int) -> Seq<OpView>
    decreases raw.len() - k,
{
    if k < 0 || k >= raw.len() {
        seq![]
    } else {
        match op_in(data, raw[k]) {
            Some(o) => seq![o] + ops_in(data, raw, k + 1),
            None => ops_in(data, raw, k + 1),
        }
    }
}

/// What an update event says; none where it names no guild or holds no diffs.
pub open spec fn update_in(data: Value) -> Option<UpdateView> {
    match (text_at(data, "guild_id"@), list_at(data, "ops"@)) {
        (Some(guild), Some(ops)) => match id_of(guild) {
            Some(id) => Some(
                UpdateView {
                    guild: GuildId(Snowflake(id)),
                    online: count_in(data, "online_count"@),
                    total: count_in(data, "member_count"@),
                    ops: ops_in(data, ops, 0),
                },
            ),
            None => None,
        },
        _ => None,
    }
}

pub open spec fn opt_update(u: Option<MemberListUpdate>) -> Option<UpdateView> {
    match u {
        Some(u) => Some(u@),
        None => None,
    }
}

/// Reads an update event.
pub fn parse(data: &Json) -> (r: Option<MemberListUpdate>)
    ensures
        opt_update(r) == update_in(data@),
{
    let guild = text_of(data, "guild_id")?;
    let id = match Snowflake::from_str(guild.as_str()) {
        Ok(id) => id,
        Err(_) => return None,
    };
    let raw = list_of(data, "ops")?;
    let ghost vs = values_of(raw@);
    let mut ops: Vec<ListOp> = Vec::new();
    let mut i: usize = 0;
    assert(ops_of(ops@) + ops_in(data@, vs, 0) =~= ops_in(data@, vs, 0));
    while i < raw.len()
        invariant
            i <= raw@.len(),
            vs == values_of(raw@),
            ops_of(ops@) + ops_in(data@, vs, i as int) == ops_in(data@, vs, 0),
        decreases raw@.len() - i,
    {
        let ghost before = ops@;
        match op(data, &raw[i]) {
            Some(o) => {
                ops.push(o);
                assert(ops_of(ops@) =~= ops_of(before).push(o@));
                assert(ops_of(ops@) + ops_in(data@, vs, i + 1) =~= ops_of(before) + ops_in(
                    data@,
                    vs,
                    i as int,
                ));
            },
            None => {},
        }
        i += 1;
    }
    assert(ops_of(ops@) + ops_in(data@, vs, i as int) =~= ops_of(ops@));
    Some(
        MemberListUpdate {
            guild: GuildId(id),
            online: count(data, "online_count"),
            total: count(data, "member_count"),
            ops,
        },
    )
}

} // verus!
