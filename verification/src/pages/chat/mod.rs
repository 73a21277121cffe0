//! The main chat screen: lists, messages, composer and navigation.
//!
//! Here: the navigation drawer and the sheet, which slide rather than appear.

pub mod composer;
pub mod lists;
pub mod menus;
pub mod relative;
pub mod rows;

use vstd::prelude::*;
use crate::menu::{Floating, FloatingView, Present};
use crate::shell::{App, Chat, Gumicord, SheetCloser};
use crate::slide::{Advance, Slide, FLING, FULL};

verus! {

/// Where a release sends a surface that opens in the positive direction: a fast
/// flick decides on its own, a slow one follows whichever half it is on.
pub open spec fn drawer_side(velocity: i64, at: u32) -> u32 {
    if velocity > FLING || (velocity >= -FLING && at > FULL / 2) {
        FULL
    } else {
        0
    }
}

/// The same for the sheet, which closes in the positive direction.
pub open spec fn sheet_side(velocity: i64, at: u32) -> u32 {
    if velocity > FLING || (velocity >= -FLING && at < FULL / 2) {
        0
    } else {
        FULL
    }
}

pub open spec fn opposite(d: i64) -> i64 {
    if d == i64::MIN {
        i64::MAX
    } else {
        (-d) as i64
    }
}

impl App {
    pub open spec fn with_drawer(self, drawer: Slide) -> App {
        App { chat: Chat { drawer, ..self.chat }, ..self }
    }

    /// Whether the drawer has anything to slide over.
    pub open spec fn has_drawer(self) -> bool {
        !self.given.panes.has_guilds() && self.shows_main()
    }

    /// Opening the drawer, and whether it does anything.
    pub open spec fn drawer_opened(self, now: u64) -> (App, bool) {
        if self.chat.drawer_open {
            if self.chat.drawer.target == 0 {
                (self.with_drawer(self.chat.drawer.heading(FULL, now)), true)
            } else {
                (self, false)
            }
        } else if !self.has_drawer() {
            (self, false)
        } else {
            let a = self.unfocused();
            (
                App {
                    chat: Chat {
                        drawer_open: true,
                        member_sheet_open: false,
                        drawer: self.chat.drawer.opening(now),
                        ..a.chat
                    },
                    ..a
                },
                true,
            )
        }
    }

    pub open spec fn drawer_closed(self, now: u64) -> (App, bool) {
        if self.chat.drawer_open {
            (self.with_drawer(self.chat.drawer.heading(0, now)), true)
        } else {
            (self, false)
        }
    }

    pub open spec fn drawer_advanced(self, now: u64) -> (App, bool) {
        if !self.chat.drawer_open || self.chat.drawer.drag {
            (self, false)
        } else {
            let how = self.chat.drawer.advancing(now);
            let drawer = self.chat.drawer.advanced(now);
            (
                App {
                    chat: Chat {
                        drawer,
                        drawer_open: !(how is Landed && drawer.target == 0),
                        ..self.chat
                    },
                    ..self
                },
                how is Moving,
            )
        }
    }

    pub open spec fn drawer_grabbed_shut(self) -> (App, bool) {
        if self.chat.drawer_open || !self.has_drawer() {
            (self, false)
        } else {
            let a = self.unfocused();
            (
                App {
                    chat: Chat {
                        drawer_open: true,
                        member_sheet_open: false,
                        drawer: Slide {
                            at: 0,
                            target: FULL,
                            drag: true,
                            drag_from: 0,
                            start: None,
                            ..self.chat.drawer
                        },
                        ..a.chat
                    },
                    ..a
                },
                true,
            )
        }
    }

    pub open spec fn drawer_grabbed_open(self) -> (App, bool) {
        if self.chat.drawer_open && self.has_drawer() {
            (self.with_drawer(self.chat.drawer.held()), true)
        } else {
            (self, false)
        }
    }

    pub open spec fn drawer_followed(self, dx: i64, width: i64) -> (App, bool) {
        if self.chat.drawer.drag && self.chat.drawer.moves(dx, width) {
            (self.with_drawer(self.chat.drawer.followed(dx, width)), true)
        } else {
            (self, false)
        }
    }

    pub open spec fn drawer_let_go(self, velocity: i64, now: u64) -> (App, bool) {
        if self.chat.drawer.drag {
            (
                self.with_drawer(
                    self.chat.drawer.heading(drawer_side(velocity, self.chat.drawer.at), now),
                ),
                true,
            )
        } else {
            (self, false)
        }
    }

    /// Opening the member list as a sheet, and whether it does anything.
    pub open spec fn member_sheet_opened(self, now: u64) -> (App, bool) {
        if self.chat.member_sheet_open || self.given.panes.has_members() || !self.shows_main() {
            (self, false)
        } else {
            let a = self.unfocused();
            (
                App {
                    chat: Chat { member_sheet_open: true, drawer_open: false, ..a.chat },
                    sheet: self.sheet.opening(now),
                    sheet_closing: None,
                    ..a
                },
                true,
            )
        }
    }

    pub open spec fn member_sheet_closed(self, now: u64) -> (App, bool) {
        if self.chat.member_sheet_open {
            (
                App {
                    sheet: self.sheet.heading(0, now),
                    sheet_closing: Some(SheetCloser::Member),
                    ..self
                },
                true,
            )
        } else {
            (self, false)
        }
    }

    /// Whatever a closing sheet was hiding is gone.
    pub open spec fn sheet_landed(self) -> App {
        match self.sheet_closing {
            None => self,
            Some(SheetCloser::Member) => App {
                chat: Chat { member_sheet_open: false, ..self.chat },
                sheet_closing: None,
                ..self
            },
            Some(SheetCloser::Menu) => App {
                floating: match self.floating {
                    Some(FloatingView::Menu { .. }) => None,
                    f => f,
                },
                sheet_closing: None,
                ..self
            },
        }
    }

    pub open spec fn sheet_advanced(self, now: u64) -> (App, bool) {
        if self.sheet.drag {
            (self, false)
        } else {
            let how = self.sheet.advancing(now);
            let a = App { sheet: self.sheet.advanced(now), ..self };
            (
                if how is Landed && self.sheet.target == 0 {
                    a.sheet_landed()
                } else {
                    a
                },
                how is Moving,
            )
        }
    }

    /// Whether a sheet is up: the member list's, or a menu's on a narrow window.
    pub open spec fn has_sheet(self) -> bool {
        (self.chat.member_sheet_open || (self.floating matches Some(FloatingView::Menu { .. })
            && self.given.panes.presents() == Present::Sheet)) && self.shows_main()
    }

    pub open spec fn sheet_grabbed(self) -> (App, bool) {
        if self.has_sheet() {
            (App { sheet: self.sheet.held(), ..self }, true)
        } else {
            (self, false)
        }
    }

    pub open spec fn sheet_followed(self, dy: i64, height: i64) -> (App, bool) {
        if self.sheet.drag && self.sheet.moves(opposite(dy), height) {
            (App { sheet: self.sheet.followed(opposite(dy), height), ..self }, true)
        } else {
            (self, false)
        }
    }

    pub open spec fn sheet_let_go(self, velocity: i64, now: u64) -> (App, bool) {
        if self.sheet.drag {
            let side = sheet_side(velocity, self.sheet.at);
            (
                App {
                    sheet: self.sheet.heading(side, now),
                    sheet_closing: if side == 0 && self.sheet_closing is None {
                        if self.chat.member_sheet_open {
                            Some(SheetCloser::Member)
                        } else {
                            Some(SheetCloser::Menu)
                        }
                    } else {
                        self.sheet_closing
                    },
                    ..self
                },
                true,
            )
        } else {
            (self, false)
        }
    }
}

impl Gumicord {
    /// Opens the navigation drawer. Only where the lists hide and past login;
    /// elsewhere there is nothing to slide over. Reopening one that is closing
    /// swings it back.
    pub fn open_drawer(&mut self, now: u64) -> (r: bool)
        ensures
            (final(self)@, r) == old(self)@.drawer_opened(now),
    {
        if self.chat.drawer_open {
            if self.chat.drawer.target == 0 {
                self.chat.drawer.head(FULL, now);
                return true;
            }
            return false;
        }
        if self.given.panes.guilds() || !self.shows_main() {
            return false;
        }
        // The drawer holds no text fields; opening it over the keyboard strands
        // both.
        self.release_text_focus();
        self.chat.drawer_open = true;
        self.chat.member_sheet_open = false;
        self.chat.drawer.open(now);
        true
    }

    /// Slides the drawer out. It is gone when the slide lands.
    pub fn close_drawer(&mut self, now: u64) -> (r: bool)
        ensures
            (final(self)@, r) == old(self)@.drawer_closed(now),
    {
        if !self.chat.drawer_open {
            return false;
        }
        self.chat.drawer.head(0, now);
        true
    }

    /// Advances the drawer towards its target. Says whether it is still moving.
    pub fn advance_drawer(&mut self, now: u64) -> (r: bool)
        requires
            old(self)@.valid(),
        ensures
            (final(self)@, r) == old(self)@.drawer_advanced(now),
            final(self)@.valid(),
    {
        if !self.chat.drawer_open || self.chat.drawer.drag {
            return false;
        }
        match self.chat.drawer.advance(now) {
            Advance::Moving => true,
            Advance::Landed => {
                if self.chat.drawer.target == 0 {
                    self.chat.drawer_open = false;
                }
                false
            },
            Advance::Jumped => false,
        }
    }

    /// Whether a touch at `x` could start opening the drawer: narrow, shut, and
    /// past login.
    pub fn drawer_drag_maybe(&self, x: i64) -> (r: bool)
        ensures
            r == (!self@.chat.drawer_open && x <= self@.given.drawer_edge && self@.has_drawer()),
    {
        !self.chat.drawer_open && x <= self.given.drawer_edge && !self.given.panes.guilds()
            && self.shows_main()
    }

    /// Starts a finger-driven opening: the drawer enters shut and follows the
    /// finger from there.
    pub fn drawer_drag_start(&mut self) -> (r: bool)
        ensures
            (final(self)@, r) == old(self)@.drawer_grabbed_shut(),
    {
        if self.chat.drawer_open || self.given.panes.guilds() || !self.shows_main() {
            return false;
        }
        self.release_text_focus();
        self.chat.drawer_open = true;
        self.chat.member_sheet_open = false;
        self.chat.drawer.at = 0;
        self.chat.drawer.target = FULL;
        self.chat.drawer.drag = true;
        self.chat.drawer.drag_from = 0;
        self.chat.drawer.start = None;
        true
    }

    /// Starts a finger-driven closing from inside the open drawer.
    pub fn drawer_close_drag_start(&mut self) -> (r: bool)
        ensures
            (final(self)@, r) == old(self)@.drawer_grabbed_open(),
    {
        if !self.drawer_close_drag_maybe() {
            return false;
        }
        self.chat.drawer.hold();
        true
    }

    /// Whether a touch inside the drawer could start closing it.
    pub fn drawer_close_drag_maybe(&self) -> (r: bool)
        ensures
            r == (self@.chat.drawer_open && self@.has_drawer()),
    {
        self.chat.drawer_open && !self.given.panes.guilds() && self.shows_main()
    }

    /// Follows the finger, `dx` from where it went down.
    pub fn drawer_drag_move(&mut self, dx: i64, width: i64) -> (r: bool)
        requires
            old(self)@.valid(),
        ensures
            (final(self)@, r) == old(self)@.drawer_followed(dx, width),
            final(self)@.valid(),
    {
        if !self.chat.drawer.drag {
            return false;
        }
        self.chat.drawer.follow(dx, width)
    }

    /// Lets go: a fast flick right opens, a fast flick left falls back, and a
    /// slow release follows whichever half it is on.
    pub fn drawer_drag_end(&mut self, velocity: i64, now: u64) -> (r: bool)
        ensures
            (final(self)@, r) == old(self)@.drawer_let_go(velocity, now),
    {
        if !self.chat.drawer.drag {
            return false;
        }
        let side: u32 = if velocity > FLING || (velocity >= -FLING && self.chat.drawer.at > FULL
            / 2) {
            FULL
        } else {
            0
        };
        self.chat.drawer.head(side, now);
        true
    }

    /// Opens the member list as a bottom sheet. Only where the member pane hides
    /// and past login.
    pub fn open_member_sheet(&mut self, now: u64) -> (r: bool)
        ensures
            (final(self)@, r) == old(self)@.member_sheet_opened(now),
    {
        if self.chat.member_sheet_open || self.given.panes.members() || !self.shows_main() {
            return false;
        }
        // The sheet holds no text fields either.
        self.release_text_focus();
        self.chat.member_sheet_open = true;
        self.chat.drawer_open = false;
        self.sheet.open(now);
        self.sheet_closing = None;
        true
    }

    /// Slides the member sheet out. It is gone when the slide lands.
    pub fn close_member_sheet(&mut self, now: u64) -> (r: bool)
        ensures
            (final(self)@, r) == old(self)@.member_sheet_closed(now),
    {
        if !self.chat.member_sheet_open {
            return false;
        }
        self.sheet.head(0, now);
        self.sheet_closing = Some(SheetCloser::Member);
        true
    }

    /// Advances the sheet towards its target. Says whether it is still moving. A
    /// sheet that lands shut takes what was closing with it.
    pub fn advance_sheet(&mut self, now: u64) -> (r: bool)
        requires
            old(self)@.valid(),
        ensures
            (final(self)@, r) == old(self)@.sheet_advanced(now),
            final(self)@.valid(),
    {
        if self.sheet.drag {
            return false;
        }
        match self.sheet.advance(now) {
            Advance::Moving => true,
            Advance::Landed => {
                if self.sheet.target == 0 {
                    self.land_sheet();
                }
                false
            },
            Advance::Jumped => false,
        }
    }

    /// Clears whichever surface a closing slide was hiding.
    fn land_sheet(&mut self)
        ensures
            final(self)@ == old(self)@.sheet_landed(),
    {
        match self.sheet_closing.take() {
            Some(SheetCloser::Member) => {
                self.chat.member_sheet_open = false;
            },
            Some(SheetCloser::Menu) => {
                if self.has_menu() {
                    self.floating = None;
                }
            },
            None => {},
        }
    }

    /// Whether a menu floats.
    pub fn has_menu(&self) -> (r: bool)
        ensures
            r == (self@.floating matches Some(FloatingView::Menu { .. })),
    {
        match &self.floating {
            Some(Floating::Menu(_)) => true,
            _ => false,
        }
    }

    /// Whether a touch on the handle could start dragging the sheet.
    pub fn sheet_drag_maybe(&self) -> (r: bool)
        ensures
            r == self@.has_sheet(),
    {
        (self.chat.member_sheet_open || (self.has_menu() && self.given.panes.present()
            == Present::Sheet)) && self.shows_main()
    }

    /// Starts a finger-driven closing from the handle.
    pub fn sheet_drag_start(&mut self) -> (r: bool)
        ensures
            (final(self)@, r) == old(self)@.sheet_grabbed(),
    {
        if !self.sheet_drag_maybe() {
            return false;
        }
        self.sheet.hold();
        true
    }

    /// Follows the finger, `dy` from where it went down. Down is positive, and
    /// closes.
    pub fn sheet_drag_move(&mut self, dy: i64, height: i64) -> (r: bool)
        requires
            old(self)@.valid(),
        ensures
            (final(self)@, r) == old(self)@.sheet_followed(dy, height),
            final(self)@.valid(),
    {
        if !self.sheet.drag {
            return false;
        }
        let up: i64 = if dy == i64::MIN {
            i64::MAX
        } else {
            -dy
        };
        self.sheet.follow(up, height)
    }

    /// Lets go: a fast flick down closes, a fast flick up swings back, and a
    /// slow release follows whichever half it is on.
    pub fn sheet_drag_end(&mut self, velocity: i64, now: u64) -> (r: bool)
        ensures
            (final(self)@, r) == old(self)@.sheet_let_go(velocity, now),
    {
        if !self.sheet.drag {
            return false;
        }
        let side: u32 = if velocity > FLING || (velocity >= -FLING && self.sheet.at < FULL / 2) {
            0
        } else {
            FULL
        };
        self.sheet.head(side, now);
        if side == 0 && self.sheet_closing.is_none() {
            self.sheet_closing = if self.chat.member_sheet_open {
                Some(SheetCloser::Member)
            } else {
                Some(SheetCloser::Menu)
            };
        }
        true
    }

    /// How long until a frame is due, in milliseconds: while something coasts,
    /// the next one, else when something relative to now reads differently.
    pub fn next_frame_in(&self) -> (r: Option<u64>)
        ensures
            self@.frame_is_due(r),
    {
        let drawer = self.chat.drawer_open && !self.chat.drawer.drag && self.chat.drawer.at
            != self.chat.drawer.target;
        let sheet = (self.chat.member_sheet_open || self.has_menu()) && !self.sheet.drag
            && self.sheet.at != self.sheet.target;
        if drawer || sheet {
            return Some(FRAME_MS);
        }
        match self.stale_in() {
            Some(s) => {
                assert(self@.goes_stale_in(Some(s)));
                Some(s * 1_000)
            },
            None => None,
        }
    }
}

/// One frame.
pub const FRAME_MS: u64 = 16;

impl App {
    /// Whether a surface is on its way by itself.
    pub open spec fn coasting(self) -> bool {
        ||| self.chat.drawer_open && !self.chat.drawer.drag && self.chat.drawer.at
            != self.chat.drawer.target
        ||| (self.chat.member_sheet_open || self.floating matches Some(FloatingView::Menu { .. }))
            && !self.sheet.drag && self.sheet.at != self.sheet.target
    }

    /// Whether a frame is due after `wait` milliseconds.
    pub open spec fn frame_is_due(self, wait: Option<u64>) -> bool {
        if self.coasting() {
            wait == Some(FRAME_MS)
        } else {
            match wait {
                Some(ms) => ms % 1_000 == 0 && self.goes_stale_in(Some(ms / 1_000)),
                None => self.goes_stale_in(None),
            }
        }
    }

    /// At most one of drawer and member sheet is up.
    pub open spec fn one_surface(self) -> bool {
        !(self.chat.drawer_open && self.chat.member_sheet_open)
    }
}

// ── laws ───────────────────────────────────────────────────────────────────

/// Whatever happens to the drawer and the sheet, both stay within their ends.
pub proof fn surfaces_stay_within_their_ends(
    a: App,
    dx: i64,
    length: i64,
    velocity: i64,
    now: u64,
)
    requires
        a.valid(),
    ensures
        a.drawer_opened(now).0.valid(),
        a.drawer_closed(now).0.valid(),
        a.drawer_grabbed_shut().0.valid(),
        a.drawer_grabbed_open().0.valid(),
        a.drawer_followed(dx, length).0.valid(),
        a.drawer_let_go(velocity, now).0.valid(),
        a.member_sheet_opened(now).0.valid(),
        a.member_sheet_closed(now).0.valid(),
        a.sheet_grabbed().0.valid(),
        a.sheet_followed(dx, length).0.valid(),
        a.sheet_let_go(velocity, now).0.valid(),
{
}

/// Opening one surface puts the other away, and nothing else brings either up.
pub proof fn one_surface_at_a_time(a: App, now: u64)
    requires
        a.one_surface(),
    ensures
        a.drawer_opened(now).0.one_surface(),
        a.drawer_closed(now).0.one_surface(),
        a.drawer_advanced(now).0.one_surface(),
        a.drawer_grabbed_shut().0.one_surface(),
        a.member_sheet_opened(now).0.one_surface(),
        a.member_sheet_closed(now).0.one_surface(),
        a.sheet_advanced(now).0.one_surface(),
{
}

/// A closing drawer stays up until it lands, and is gone when it does: once its
/// time has passed, it has landed.
pub proof fn closing_lands_shut(a: App, now: u64, later: u64)
    requires
        a.chat.drawer_open,
        a.valid(),
        later >= now + crate::slide::ANIM_MS,
    ensures
        a.drawer_closed(now).0.chat.drawer_open,
        a.drawer_closed(now).0.drawer_advanced(later) == (
            App {
                chat: Chat {
                    drawer_open: false,
                    drawer: Slide { at: 0, ..a.chat.drawer.heading(0, now) },
                    ..a.chat
                },
                ..a
            },
            false,
        ),
{
    crate::slide::coasting_ends(now, later);
}

/// A drawer caught while closing swings back instead of refusing.
pub proof fn reopening_swings_back(a: App, now: u64, later: u64)
    requires
        a.chat.drawer_open,
    ensures
        a.drawer_closed(now).0.drawer_opened(later).1,
        a.drawer_closed(now).0.drawer_opened(later).0.chat.drawer.target == FULL,
        a.drawer_closed(now).0.drawer_opened(later).0.chat.drawer.at == a.chat.drawer.at,
{
}

/// Once landed, nothing coasts and no frame is due.
pub proof fn landed_is_quiet(a: App, now: u64)
    requires
        a.valid(),
        !a.drawer_advanced(now).1,
        !a.sheet_advanced(now).1,
        !a.chat.drawer.drag,
        !a.sheet.drag,
    ensures
        !a.drawer_advanced(now).0.sheet_advanced(now).0.coasting(),
{
}

} // verus!
