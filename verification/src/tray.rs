//! The status-tray model: the state behind the indicator icon, its title,
//! its icon choice and its menu. Rendering and delivery belong to the
//! desktop collaborator; everything it displays is computed here.

use vstd::prelude::*;
use crate::protocol::RepoDetail;
use crate::strutil::{spec_dec, u64_to_chars, append_chars, push_char, to_chars};

verus! {

/// What the indicator currently shows.
#[derive(Debug, Clone, Copy, PartialEq, Eq, Structural)]
pub enum TrayStatus {
    Idle,
    Syncing,
    Error,
}

/// An action the user issues from the tray menu.
#[derive(Debug, Clone, Copy, PartialEq, Eq, Structural)]
pub enum TrayAction {
    TriggerSync,
    ToggleSuspend,
    Quit,
}

/// Which icon the indicator shows.
#[derive(Debug, Clone, Copy, PartialEq, Eq, Structural)]
pub enum TrayIcon {
    Idle,
    Syncing,
    Error,
    Suspended,
}

/// One entry of the tray menu: a separator, an inert label, or an item
/// that issues an action when activated.
#[derive(Debug)]
pub enum MenuEntry {
    Separator,
    Label { text: String },
    Action { text: String, enabled: bool, action: TrayAction },
}

/// The view of a menu entry, with its text as a character sequence.
pub enum MenuEntryV {
    Separator,
    Label { text: Seq<char> },
    Action { text: Seq<char>, enabled: bool, action: TrayAction },
}

/// The view of a menu entry.
pub open spec fn entry_v(e: MenuEntry) -> MenuEntryV {
    match e {
        MenuEntry::Separator => MenuEntryV::Separator,
        MenuEntry::Label { text } => MenuEntryV::Label { text: text@ },
        MenuEntry::Action { text, enabled, action } => MenuEntryV::Action {
            text: text@,
            enabled,
            action,
        },
    }
}

/// The views of a menu.
pub open spec fn menu_view(es: Seq<MenuEntry>) -> Seq<MenuEntryV> {
    es.map_values(|e: MenuEntry| entry_v(e))
}

/// The tray state: what the icon, title and menu are computed from.
#[derive(Debug)]
pub struct AutogitTray {
    pub status: TrayStatus,
    /// When the last successful cycle ended, as seconds of a monotonic
    /// clock; absent until one succeeds.
    pub last_sync: Option<u64>,
    pub repo_count: usize,
    pub error_count: usize,
    pub repo_details: Vec<RepoDetail>,
    /// Seconds between automatic cycles, as last told; zero until then.
    pub check_interval: u64,
    pub suspended: bool,
}

/// How long ago an elapsed number of seconds is, in words: whole minutes
/// under an hour, whole hours under a day, whole days beyond.
pub open spec fn spec_time_ago(secs: u64) -> Seq<char> {
    if secs < 60 {
        "just now"@
    } else if secs < 3600 {
        let mins = secs as nat / 60;
        if mins == 1 {
            "1 minute ago"@
        } else {
            spec_dec(mins) + " minutes ago"@
        }
    } else if secs < 86400 {
        let hours = secs as nat / 3600;
        if hours == 1 {
            "1 hour ago"@
        } else {
            spec_dec(hours) + " hours ago"@
        }
    } else {
        let days = secs as nat / 86400;
        if days == 1 {
            "1 day ago"@
        } else {
            spec_dec(days) + " days ago"@
        }
    }
}

/// Renders an elapsed time in words.
pub fn format_time_ago(secs: u64) -> (r: String)
    ensures
        r@ == spec_time_ago(secs),
{
    if secs < 60 {
        String::from_str("just now")
    } else if secs < 3600 {
        let mins = secs / 60;
        if mins == 1 {
            String::from_str("1 minute ago")
        } else {
            let mut out = String::new();
            let digits = u64_to_chars(mins);
            append_chars(&mut out, &digits);
            out.append(" minutes ago");
            out
        }
    } else if secs < 86400 {
        let hours = secs / 3600;
        if hours == 1 {
            String::from_str("1 hour ago")
        } else {
            let mut out = String::new();
            let digits = u64_to_chars(hours);
            append_chars(&mut out, &digits);
            out.append(" hours ago");
            out
        }
    } else {
        let days = secs / 86400;
        if days == 1 {
            String::from_str("1 day ago")
        } else {
            let mut out = String::new();
            let digits = u64_to_chars(days);
            append_chars(&mut out, &digits);
            out.append(" days ago");
            out
        }
    }
}

/// A path under the home directory, shortened with a leading `~`; the
/// home directory itself becomes `~/`, anything elsewhere is unchanged.
pub open spec fn spec_abbreviated(path: Seq<char>, home: Seq<char>) -> Seq<char> {
    if path == home {
        "~/"@
    } else if path.len() > home.len() && path.take(home.len() as int) == home && path[home.len() as int]
        == '/' {
        "~"@ + path.skip(home.len() as int)
    } else {
        path
    }
}

/// Shortens a path under `home` with a leading `~`.
pub fn abbreviate_path(path: &str, home: &str) -> (r: String)
    ensures
        r@ == spec_abbreviated(path@, home@),
{
    let p = to_chars(path);
    let h = to_chars(home);
    if crate::strutil::chars_eq(&p, &h) {
        return String::from_str("~/");
    }
    let hn = h.len();
    if p.len() > hn && crate::strutil::check_match_at(&p, 0, &h) && p[hn] == '/' {
        proof {
            assert(path@.subrange(0, home@.len() as int) =~= path@.take(home@.len() as int));
        }
        let mut out = String::from_str("~");
        let mut i: usize = hn;
        while i < p.len()
            invariant
                p@ == path@,
                hn <= i <= p@.len(),
                out@ =~= "~"@ + path@.subrange(hn as int, i as int),
            decreases p@.len() - i,
        {
            push_char(&mut out, p[i]);
            i = i + 1;
        }
        proof {
            assert(out@ =~= "~"@ + path@.skip(hn as int));
        }
        out
    } else {
        proof {
            if path@.len() > home@.len() {
                assert(path@.subrange(0, home@.len() as int) =~= path@.take(home@.len() as int));
            }
        }
        String::from_str(path)
    }
}

/// The seconds elapsed between a past reading and now, never negative.
pub open spec fn spec_elapsed(now_secs: u64, then_secs: u64) -> u64 {
    if now_secs >= then_secs {
        (now_secs - then_secs) as u64
    } else {
        0
    }
}

/// The menu line for one repository: two spaces, a cross after an error
/// (a check mark otherwise), a space, and the abbreviated path.
pub open spec fn spec_detail_line(d: crate::protocol::RepoDetail, home: Seq<char>) -> MenuEntryV {
    MenuEntryV::Label {
        text: "  "@ + (if d.error is Some {
            "\u{2717}"@
        } else {
            "\u{2713}"@
        }) + " "@ + spec_abbreviated(d.path@, home),
    }
}

/// The head of the menu: the daemon status, the check interval when one
/// is known, the last sync time, a separator and the repository header.
pub open spec fn spec_menu_head(t: AutogitTray, now_secs: u64) -> Seq<MenuEntryV> {
    seq![
        MenuEntryV::Label {
            text: "Daemon status: "@ + (if t.suspended {
                "Suspended"@
            } else {
                "Active"@
            }),
        },
    ] + (if t.check_interval > 0 {
        seq![
            MenuEntryV::Label {
                text: "Check interval: "@ + spec_dec(t.check_interval as nat) + " seconds"@,
            },
        ]
    } else {
        Seq::<MenuEntryV>::empty()
    }) + seq![
        MenuEntryV::Label {
            text: match t.last_sync {
                Some(ts) => "Last sync: "@ + spec_time_ago(spec_elapsed(now_secs, ts)),
                None => "Last sync: never"@,
            },
        },
        MenuEntryV::Separator,
        MenuEntryV::Label {
            text: "Repositories ("@ + spec_dec(t.repo_count as nat) + ")"@,
        },
    ]
}

/// The per-repository lines, or a placeholder while no cycle has reported.
pub open spec fn spec_detail_lines(t: AutogitTray, home: Seq<char>) -> Seq<MenuEntryV> {
    if t.repo_details@.len() == 0 {
        seq![MenuEntryV::Label { text: "  (no sync data yet)"@ }]
    } else {
        t.repo_details@.map_values(|d: crate::protocol::RepoDetail| spec_detail_line(d, home))
    }
}

/// The action entries at the menu's tail: sync now (disabled while
/// suspended), suspend or resume, and quit.
pub open spec fn spec_menu_actions(t: AutogitTray) -> Seq<MenuEntryV> {
    seq![
        MenuEntryV::Separator,
        MenuEntryV::Action {
            text: "Sync Now"@,
            enabled: !t.suspended,
            action: TrayAction::TriggerSync,
        },
        MenuEntryV::Action {
            text: if t.suspended {
                "Resume"@
            } else {
                "Suspend"@
            },
            enabled: true,
            action: TrayAction::ToggleSuspend,
        },
        MenuEntryV::Separator,
        MenuEntryV::Action { text: "Quit Autogit"@, enabled: true, action: TrayAction::Quit },
    ]
}

/// The whole menu for a tray state.
pub open spec fn spec_menu(t: AutogitTray, now_secs: u64, home: Seq<char>) -> Seq<MenuEntryV> {
    spec_menu_head(t, now_secs) + spec_detail_lines(t, home) + spec_menu_actions(t)
}

broadcast proof fn lemma_menu_push(es: Seq<MenuEntry>, e: MenuEntry)
    ensures
        #[trigger] menu_view(es.push(e)) == menu_view(es).push(entry_v(e)),
{
    assert(menu_view(es.push(e)) =~= menu_view(es).push(entry_v(e)));
}

/// The title of the indicator.
pub open spec fn spec_title(t: AutogitTray) -> Seq<char> {
    if t.suspended {
        "Autogit - Suspended"@
    } else {
        match t.status {
            TrayStatus::Idle => "Autogit"@,
            TrayStatus::Syncing => "Autogit - Syncing..."@,
            TrayStatus::Error => "Autogit - "@ + spec_dec(t.error_count as nat) + " errors"@,
        }
    }
}

impl AutogitTray {
    /// A fresh tray: idle, never synced, no errors, no details yet.
    pub fn new(repo_count: usize) -> (r: AutogitTray)
        ensures
            r.status == TrayStatus::Idle,
            r.last_sync is None,
            r.repo_count == repo_count,
            r.error_count == 0,
            r.repo_details@.len() == 0,
            r.check_interval == 0,
            !r.suspended,
    {
        AutogitTray {
            status: TrayStatus::Idle,
            last_sync: None,
            repo_count,
            error_count: 0,
            repo_details: Vec::new(),
            check_interval: 0,
            suspended: false,
        }
    }

    /// Whether automatic syncing is suspended.
    pub fn is_suspended(&self) -> (r: bool)
        ensures
            r == self.suspended,
    {
        self.suspended
    }

    /// Records the shared suspension flag.
    pub fn set_suspended(&mut self, suspended: bool)
        ensures
            *final(self) == (AutogitTray { suspended, ..*old(self) }),
    {
        self.suspended = suspended;
    }

    /// Shows a new status.
    pub fn set_status(&mut self, status: TrayStatus)
        ensures
            *final(self) == (AutogitTray { status, ..*old(self) }),
    {
        self.status = status;
    }

    /// Records a successful cycle that ended now, and returns to idle.
    pub fn set_last_sync(&mut self, now_secs: u64)
        ensures
            *final(self) == (AutogitTray {
                last_sync: Some(now_secs),
                status: TrayStatus::Idle,
                ..*old(self)
            }),
    {
        self.last_sync = Some(now_secs);
        self.status = TrayStatus::Idle;
    }

    /// Counts one more failed cycle (saturating) and shows the error
    /// status.
    pub fn increment_errors(&mut self)
        ensures
            *final(self) == (AutogitTray {
                error_count: if old(self).error_count < usize::MAX {
                    (old(self).error_count + 1) as usize
                } else {
                    old(self).error_count
                },
                status: TrayStatus::Error,
                ..*old(self)
            }),
    {
        if self.error_count < usize::MAX {
            self.error_count = self.error_count + 1;
        }
        self.status = TrayStatus::Error;
    }

    /// Records how many repositories are configured.
    pub fn set_repo_count(&mut self, count: usize)
        ensures
            *final(self) == (AutogitTray { repo_count: count, ..*old(self) }),
    {
        self.repo_count = count;
    }

    /// Replaces the per-repository results; the count follows the list.
    pub fn update_repo_details(&mut self, details: Vec<RepoDetail>)
        ensures
            final(self).repo_details == details,
            final(self).repo_count == details@.len(),
            *final(self) == (AutogitTray {
                repo_details: details,
                repo_count: details@.len() as usize,
                ..*old(self)
            }),
    {
        let count = details.len();
        self.repo_details = details;
        self.repo_count = count;
    }

    /// Records the check interval shown in the menu.
    pub fn set_check_interval(&mut self, interval: u64)
        ensures
            *final(self) == (AutogitTray { check_interval: interval, ..*old(self) }),
    {
        self.check_interval = interval;
    }

    /// The indicator's title.
    pub fn title(&self) -> (r: String)
        ensures
            r@ == spec_title(*self),
    {
        if self.suspended {
            String::from_str("Autogit - Suspended")
        } else {
            match self.status {
                TrayStatus::Idle => String::from_str("Autogit"),
                TrayStatus::Syncing => String::from_str("Autogit - Syncing..."),
                TrayStatus::Error => {
                    let mut out = String::from_str("Autogit - ");
                    let digits = u64_to_chars(self.error_count as u64);
                    append_chars(&mut out, &digits);
                    out.append(" errors");
                    out
                },
            }
        }
    }

    /// Which icon to show: suspension wins, otherwise the status decides.
    pub fn current_icon(&self) -> (r: TrayIcon)
        ensures
            self.suspended ==> r == TrayIcon::Suspended,
            !self.suspended ==> r == match self.status {
                TrayStatus::Idle => TrayIcon::Idle,
                TrayStatus::Syncing => TrayIcon::Syncing,
                TrayStatus::Error => TrayIcon::Error,
            },
    {
        if self.suspended {
            TrayIcon::Suspended
        } else {
            match self.status {
                TrayStatus::Idle => TrayIcon::Idle,
                TrayStatus::Syncing => TrayIcon::Syncing,
                TrayStatus::Error => TrayIcon::Error,
            }
        }
    }

    /// The tray menu for this state. `now_secs` is the current reading of
    /// the monotonic clock behind `last_sync`; `home` is the home
    /// directory used to abbreviate repository paths.
    pub fn menu(&self, now_secs: u64, home: &str) -> (r: Vec<MenuEntry>)
        ensures
            menu_view(r@) == spec_menu(*self, now_secs, home@),
    {
        broadcast use lemma_menu_push;

        let mut out: Vec<MenuEntry> = Vec::new();
        proof {
            assert(menu_view(out@) =~= Seq::<MenuEntryV>::empty());
        }
        let mut status_text = String::from_str("Daemon status: ");
        if self.suspended {
            status_text.append("Suspended");
        } else {
            status_text.append("Active");
        }
        out.push(MenuEntry::Label { text: status_text });
        if self.check_interval > 0 {
            let mut interval_text = String::from_str("Check interval: ");
            let digits = u64_to_chars(self.check_interval);
            append_chars(&mut interval_text, &digits);
            interval_text.append(" seconds");
            out.push(MenuEntry::Label { text: interval_text });
        }
        let last_text = match self.last_sync {
            Some(ts) => {
                let elapsed = if now_secs >= ts {
                    now_secs - ts
                } else {
                    0
                };
                let mut text = String::from_str("Last sync: ");
                let ago = format_time_ago(elapsed);
                text.append(ago.as_str());
                text
            },
            None => String::from_str("Last sync: never"),
        };
        out.push(MenuEntry::Label { text: last_text });
        out.push(MenuEntry::Separator);
        let mut header_text = String::from_str("Repositories (");
        let count_digits = u64_to_chars(self.repo_count as u64);
        append_chars(&mut header_text, &count_digits);
        header_text.append(")");
        out.push(MenuEntry::Label { text: header_text });
        proof {
            assert(menu_view(out@) =~= spec_menu_head(*self, now_secs));
        }
        if self.repo_details.len() == 0 {
            out.push(MenuEntry::Label { text: String::from_str("  (no sync data yet)") });
            proof {
                assert(menu_view(out@) =~= spec_menu_head(*self, now_secs) + spec_detail_lines(
                    *self,
                    home@,
                ));
            }
        } else {
            let mut i: usize = 0;
            let ghost head = spec_menu_head(*self, now_secs);
            while i < self.repo_details.len()
                invariant
                    i <= self.repo_details@.len(),
                    self.repo_details@.len() > 0,
                    head == spec_menu_head(*self, now_secs),
                    menu_view(out@) =~= head + self.repo_details@.take(i as int).map_values(
                        |d: RepoDetail| spec_detail_line(d, home@),
                    ),
                decreases self.repo_details@.len() - i,
            {
                broadcast use lemma_menu_push;

                let d = &self.repo_details[i];
                let mut text = String::from_str("  ");
                if d.error.is_some() {
                    text.append("\u{2717}");
                } else {
                    text.append("\u{2713}");
                }
                text.append(" ");
                let abbreviated = abbreviate_path(d.path.as_str(), home);
                text.append(abbreviated.as_str());
                proof {
                    let f = |x: RepoDetail| spec_detail_line(x, home@);
                    assert((MenuEntryV::Label { text: text@ }) == spec_detail_line(
                        self.repo_details@[i as int],
                        home@,
                    ));
                    assert(self.repo_details@.take(i as int).push(self.repo_details@[i as int])
                        =~= self.repo_details@.take(i as int + 1));
                    assert(self.repo_details@.take(i as int + 1).map_values(f)
                        =~= self.repo_details@.take(i as int).map_values(f).push(
                        f(self.repo_details@[i as int]),
                    ));
                }
                out.push(MenuEntry::Label { text });
                i = i + 1;
            }
            proof {
                assert(self.repo_details@.take(self.repo_details@.len() as int)
                    =~= self.repo_details@);
                assert(menu_view(out@) =~= spec_menu_head(*self, now_secs) + spec_detail_lines(
                    *self,
                    home@,
                ));
            }
        }
        out.push(MenuEntry::Separator);
        out.push(MenuEntry::Action {
            text: String::from_str("Sync Now"),
            enabled: !self.suspended,
            action: TrayAction::TriggerSync,
        });
        let toggle_text = if self.suspended {
            String::from_str("Resume")
        } else {
            String::from_str("Suspend")
        };
        out.push(MenuEntry::Action {
            text: toggle_text,
            enabled: true,
            action: TrayAction::ToggleSuspend,
        });
        out.push(MenuEntry::Separator);
        out.push(MenuEntry::Action {
            text: String::from_str("Quit Autogit"),
            enabled: true,
            action: TrayAction::Quit,
        });
        proof {
            assert(menu_view(out@) =~= spec_menu(*self, now_secs, home@));
        }
        out
    }

    /// The attention icon: the error icon while any error is counted,
    /// nothing otherwise.
    pub fn attention_icon(&self) -> (r: Option<TrayIcon>)
        ensures
            self.error_count > 0 ==> r == Some(TrayIcon::Error),
            self.error_count == 0 ==> r is None,
    {
        if self.error_count > 0 {
            Some(TrayIcon::Error)
        } else {
            None
        }
    }
}

} // verus!
