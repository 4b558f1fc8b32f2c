//! A web page inside a script app.
//!
//! The page is shown in the platform's own web view, over the window. While a
//! page is open a watchdog asks for a redraw every half second, and hides the view
//! where the last one did not draw the widget; the next draw puts it back.
use crate::splash::policy::{
    is_enforced, page_allowed, policy_of, service_allowed, spec_is_enforced, spec_page_allowed,
    spec_service_allowed, PolicyTable,
};
use crate::text::{push_text, spec_trim, to_chars, to_text, trim};
use crate::widgets::devices::{
    listed_heaps_are_closed, of_heap, of_heaps, what_is_opened_is_let_go_of, with_opened, Opened,
};
use vstd::prelude::*;

verus! {

/// What a reader shows.
#[derive(Clone, Copy, PartialEq, Eq, Structural, Debug)]
pub struct ReaderState {
    /// The reader's web view exists.
    pub spawned: bool,
    pub open: bool,
    pub overlay_visible: bool,
    /// The watchdog runs.
    pub timer: bool,
    /// The widget was drawn since the watchdog last looked.
    pub drawn: bool,
    /// The page could not be loaded.
    pub failed: bool,
}

/// What a reader tells the host to do.
pub enum ReaderCall {
    /// Tell the script of the error that the reader holds.
    Report,
    /// Show a page, one whose links may be followed or not.
    Spawn { navigable: bool, url: String },
    StartTimer,
    StopTimer,
    Redraw,
    /// Put the web view where the widget is, or hide it.
    Update { show: bool },
}

pub enum ReaderCallView {
    Report,
    Spawn { navigable: bool, url: Seq<char> },
    StartTimer,
    StopTimer,
    Redraw,
    Update { show: bool },
}

impl View for ReaderCall {
    type V = ReaderCallView;

    open spec fn view(&self) -> ReaderCallView {
        match self {
            ReaderCall::Report => ReaderCallView::Report,
            ReaderCall::Spawn { navigable, url } => ReaderCallView::Spawn {
                navigable: *navigable,
                url: url@,
            },
            ReaderCall::StartTimer => ReaderCallView::StartTimer,
            ReaderCall::StopTimer => ReaderCallView::StopTimer,
            ReaderCall::Redraw => ReaderCallView::Redraw,
            ReaderCall::Update { show } => ReaderCallView::Update { show: *show },
        }
    }
}

/// What a list of calls says.
pub open spec fn calls(v: Seq<ReaderCall>) -> Seq<ReaderCallView> {
    v.map_values(|c: ReaderCall| c@)
}

pub struct WebReader {
    /// The heap of the script that the reader belongs to.
    pub heap: usize,
    /// The reader's own web view.
    pub browser_id: u64,
    pub state: ReaderState,
    pub url: Option<String>,
    pub last_error: String,
}

/// A reader with nothing open.
pub open spec fn closed_state() -> ReaderState {
    ReaderState {
        spawned: false,
        open: false,
        overlay_visible: false,
        timer: false,
        drawn: false,
        failed: false,
    }
}

/// What is said of a page that the app may not open.
pub open spec fn refusal(url: Seq<char>) -> Seq<char> {
    "refused "@ + url + ": not on this app's host list, and no `web` grant"@
}

/// What is said of a page that could not be loaded.
pub open spec fn load_error(url: Option<String>, why: Seq<char>) -> Seq<char> {
    "could not load "@ + (match url {
        Some(u) => u@,
        None => seq![],
    }) + ": "@ + why
}

/// Whether an app may follow links to any public page.
pub open spec fn navigable(t: &PolicyTable, heap: usize) -> bool {
    !spec_is_enforced(t, heap) || spec_service_allowed(t, heap, "web.open"@)
}

/// A reader whose view is hidden.
pub open spec fn hidden(s: ReaderState) -> ReaderState {
    ReaderState { overlay_visible: false, drawn: false, ..s }
}

/// The call that hides a view, where one shows.
pub open spec fn hiding(s: ReaderState) -> Seq<ReaderCallView> {
    if s.spawned && s.overlay_visible {
        seq![ReaderCallView::Update { show: false }]
    } else {
        seq![]
    }
}

/// A reader after its watchdog looked.
pub open spec fn ticked(s: ReaderState) -> ReaderState {
    if !s.timer {
        s
    } else if s.drawn {
        ReaderState { drawn: false, ..s }
    } else {
        hidden(s)
    }
}

/// A reader that has been drawn.
pub open spec fn drawn(s: ReaderState) -> ReaderState {
    if s.spawned && s.open && !s.failed {
        ReaderState { overlay_visible: true, drawn: true, ..s }
    } else {
        s
    }
}

/// Whether a reader that was asked for a page answers as it should: whether the
/// page opened, and what the host is to do.
pub open spec fn open_answer(
    policies: &PolicyTable,
    before: &WebReader,
    after: &WebReader,
    kept: &Opened,
    now: &Opened,
    url: Seq<char>,
    ok: bool,
    said: Seq<ReaderCallView>,
) -> bool {
    &&& ok == spec_page_allowed(policies, before.heap, url)
    &&& !ok ==> {
        &&& said == seq![ReaderCallView::Report]
        &&& after.last_error@ == refusal(url)
        &&& after.state == before.state
        &&& after.url == before.url
        &&& *now == *kept
    }
    &&& ok ==> {
        &&& said == seq![
            ReaderCallView::Spawn { navigable: navigable(policies, before.heap), url },
        ] + (if before.state.timer {
            seq![]
        } else {
            seq![ReaderCallView::StartTimer]
        }) + seq![ReaderCallView::Redraw]
        &&& after.last_error == before.last_error
        &&& after.state == (ReaderState {
            spawned: true,
            open: true,
            overlay_visible: true,
            timer: true,
            drawn: true,
            failed: false,
        })
        &&& after.url matches Some(u) && u@ == url
        &&& of_heap(now@, before.heap) == with_opened(
            of_heap(kept@, before.heap),
            before.browser_id,
        )
        &&& forall|other: usize| #![trigger of_heap(now@, other)]
            other != before.heap ==> of_heap(now@, other) == of_heap(kept@, other)
    }
}

impl WebReader {
    /// The watchdog runs while a page is open, and a view shows only then.
    pub open spec fn wf(&self) -> bool {
        let s = self.state;
        s.timer == s.open && (s.open ==> s.spawned) && (s.overlay_visible ==> s.open)
    }

    pub fn new(heap: usize, browser_id: u64) -> (r: WebReader)
        ensures
            r.wf(),
            r.heap == heap,
            r.browser_id == browser_id,
            r.state == closed_state(),
            r.url is None,
            r.last_error@.len() == 0,
    {
        WebReader {
            heap,
            browser_id,
            state: ReaderState {
                spawned: false,
                open: false,
                overlay_visible: false,
                timer: false,
                drawn: false,
                failed: false,
            },
            url: None,
            last_error: String::new(),
        }
    }

    /// Opens a page, where the app may: whether it opened, and what the host is
    /// to do. The web view is then listed, also where it was closed with its heap
    /// before. Its links may be followed only in an app that may reach any public
    /// page.
    pub fn open(&mut self, policies: &PolicyTable, opened: &mut Opened, url: &str) -> (r: (
        bool,
        Vec<ReaderCall>,
    ))
        requires
            old(self).wf(),
            policies.wf(),
        ensures
            final(self).wf(),
            final(self).heap == old(self).heap,
            final(self).browser_id == old(self).browser_id,
            open_answer(
                policies,
                old(self),
                final(self),
                old(opened),
                final(opened),
                url@,
                r.0,
                calls(r.1@),
            ),
    {
        let mut out: Vec<ReaderCall> = Vec::new();
        if !page_allowed(policies, self.heap, url) {
            let mut why: Vec<char> = Vec::new();
            push_text(&mut why, "refused ");
            push_text(&mut why, url);
            push_text(&mut why, ": not on this app's host list, and no `web` grant");
            assert(why@ =~= refusal(url@));
            self.last_error = to_text(why.as_slice());
            out.push(ReaderCall::Report);
            assert(calls(out@) =~= seq![ReaderCallView::Report]);
            return (false, out);
        }
        let navigable = !is_enforced(policies, self.heap) || service_allowed(
            policies,
            self.heap,
            "web.open",
        ).is_ok();
        out.push(ReaderCall::Spawn { navigable, url: url.to_owned() });
        opened.opened(self.heap, self.browser_id);
        if !self.state.timer {
            out.push(ReaderCall::StartTimer);
        }
        out.push(ReaderCall::Redraw);
        self.state = ReaderState {
            spawned: true,
            open: true,
            overlay_visible: true,
            timer: true,
            drawn: true,
            failed: false,
        };
        self.url = Some(url.to_owned());
        assert(calls(out@) =~= seq![ReaderCallView::Spawn { navigable, url: url@ }] + (if old(
            self,
        ).state.timer {
            seq![]
        } else {
            seq![ReaderCallView::StartTimer]
        }) + seq![ReaderCallView::Redraw]);
        (true, out)
    }

    /// A script asks to open a page; `url` is what it gave, if that is a text.
    /// White space around the address does not count.
    pub fn script_open(&mut self, policies: &PolicyTable, opened: &mut Opened, url: Option<&str>) -> (r: (
        bool,
        Vec<ReaderCall>,
    ))
        requires
            old(self).wf(),
            policies.wf(),
        ensures
            final(self).wf(),
            final(self).heap == old(self).heap,
            final(self).browser_id == old(self).browser_id,
            match url {
                Some(u) => open_answer(
                    policies,
                    old(self),
                    final(self),
                    old(opened),
                    final(opened),
                    spec_trim(u@),
                    r.0,
                    calls(r.1@),
                ),
                None => !r.0 && r.1@.len() == 0 && *final(self) == *old(self) && *final(opened)
                    == *old(opened),
            },
    {
        match url {
            Some(u) => {
                let chars = to_chars(u);
                let page = to_text(trim(chars.as_slice()));
                self.open(policies, opened, page.as_str())
            },
            None => (false, Vec::new()),
        }
    }

    fn hide_overlay(&mut self, out: &mut Vec<ReaderCall>)
        ensures
            final(self).state == hidden(old(self).state),
            final(self).heap == old(self).heap,
            final(self).browser_id == old(self).browser_id,
            final(self).url == old(self).url,
            final(self).last_error == old(self).last_error,
            calls(final(out)@) == calls(old(out)@) + hiding(old(self).state),
    {
        if self.state.spawned && self.state.overlay_visible {
            out.push(ReaderCall::Update { show: false });
        }
        self.state = ReaderState { overlay_visible: false, drawn: false, ..self.state };
        assert(calls(out@) =~= calls(old(out)@) + hiding(old(self).state));
    }

    /// Closes the page, where one is open. The web view is kept.
    pub fn close(&mut self) -> (r: Vec<ReaderCall>)
        requires
            old(self).wf(),
        ensures
            final(self).wf(),
            final(self).heap == old(self).heap,
            final(self).browser_id == old(self).browser_id,
            final(self).url == old(self).url,
            final(self).last_error == old(self).last_error,
            if old(self).state.open {
                &&& final(self).state == (ReaderState {
                    open: false,
                    timer: false,
                    ..hidden(old(self).state)
                })
                &&& calls(r@) == hiding(old(self).state) + seq![
                    ReaderCallView::StopTimer,
                    ReaderCallView::Redraw,
                ]
            } else {
                final(self).state == old(self).state && r@.len() == 0
            },
    {
        let mut out: Vec<ReaderCall> = Vec::new();
        if !self.state.open {
            return out;
        }
        assert(calls(out@) =~= seq![]);
        self.state.open = false;
        self.hide_overlay(&mut out);
        if self.state.timer {
            self.state.timer = false;
            out.push(ReaderCall::StopTimer);
        }
        out.push(ReaderCall::Redraw);
        assert(calls(out@) =~= hiding(old(self).state) + seq![
            ReaderCallView::StopTimer,
            ReaderCallView::Redraw,
        ]);
        out
    }

    /// The watchdog looks. Drawn since it last looked: it asks for the redraw that
    /// it looks for next. Not drawn: the widget is off screen, and the view hides.
    pub fn watchdog(&mut self) -> (r: Vec<ReaderCall>)
        requires
            old(self).wf(),
        ensures
            final(self).wf(),
            final(self).heap == old(self).heap,
            final(self).browser_id == old(self).browser_id,
            final(self).url == old(self).url,
            final(self).last_error == old(self).last_error,
            final(self).state == ticked(old(self).state),
            calls(r@) == if !old(self).state.timer {
                seq![]
            } else if old(self).state.drawn {
                seq![ReaderCallView::Redraw]
            } else {
                hiding(old(self).state)
            },
    {
        let mut out: Vec<ReaderCall> = Vec::new();
        assert(calls(out@) =~= seq![]);
        if self.state.timer {
            if self.state.drawn {
                self.state.drawn = false;
                out.push(ReaderCall::Redraw);
                assert(calls(out@) =~= seq![ReaderCallView::Redraw]);
            } else {
                self.hide_overlay(&mut out);
                assert(calls(out@) =~= hiding(old(self).state));
            }
        }
        out
    }

    /// A web view could not load its page.
    pub fn page_error(&mut self, browser_id: u64, why: &str) -> (r: Vec<ReaderCall>)
        requires
            old(self).wf(),
        ensures
            final(self).wf(),
            final(self).heap == old(self).heap,
            final(self).browser_id == old(self).browser_id,
            final(self).url == old(self).url,
            if browser_id == old(self).browser_id && old(self).state.open {
                &&& final(self).state == (ReaderState { failed: true, ..hidden(old(self).state) })
                &&& final(self).last_error@ == load_error(old(self).url, why@)
                &&& calls(r@) == hiding(old(self).state) + seq![ReaderCallView::Report]
            } else {
                *final(self) == *old(self) && r@.len() == 0
            },
    {
        let mut out: Vec<ReaderCall> = Vec::new();
        if browser_id == self.browser_id && self.state.open {
            assert(calls(out@) =~= seq![]);
            self.state.failed = true;
            self.hide_overlay(&mut out);
            let mut text: Vec<char> = Vec::new();
            push_text(&mut text, "could not load ");
            if let Some(url) = &self.url {
                push_text(&mut text, url.as_str());
            }
            push_text(&mut text, ": ");
            push_text(&mut text, why);
            assert(text@ =~= load_error(self.url, why@));
            self.last_error = to_text(text.as_slice());
            out.push(ReaderCall::Report);
            assert(calls(out@) =~= hiding(old(self).state) + seq![ReaderCallView::Report]);
        }
        out
    }

    /// The widget has been drawn.
    pub fn draw(&mut self) -> (r: Option<ReaderCall>)
        requires
            old(self).wf(),
        ensures
            final(self).wf(),
            final(self).heap == old(self).heap,
            final(self).browser_id == old(self).browser_id,
            final(self).url == old(self).url,
            final(self).last_error == old(self).last_error,
            final(self).state == drawn(old(self).state),
            match r {
                Some(call) => old(self).state.open && call@ == (ReaderCallView::Update {
                    show: !old(self).state.failed,
                }),
                None => !old(self).state.open,
            },
    {
        if self.state.spawned && (self.state.open || self.state.overlay_visible) {
            let show = self.state.open && !self.state.failed;
            if show {
                self.state.overlay_visible = true;
                self.state.drawn = true;
            }
            return Some(ReaderCall::Update { show });
        }
        None
    }
}

/// A reader that is not drawn between two looks of the watchdog shows nothing.
pub proof fn an_undrawn_page_is_hidden(s: ReaderState)
    requires
        s.timer,
    ensures
        !ticked(ticked(s)).overlay_visible,
        s.drawn ==> ticked(s).overlay_visible == s.overlay_visible,
{
}

/// The next draw puts the page back, unless it could not be loaded.
pub proof fn drawing_puts_the_page_back(s: ReaderState)
    requires
        s.spawned && s.open && !s.failed,
    ensures
        drawn(ticked(ticked(s))).overlay_visible,
{
}

/// A page that an app opens is among the web views that are closed when its heap is
/// collected, whatever else is collected then, and whether or not the heap was
/// collected before.
pub proof fn an_open_page_is_closed_with_its_heap(
    policies: &PolicyTable,
    before: &WebReader,
    after: &WebReader,
    kept: &Opened,
    now: &Opened,
    url: Seq<char>,
    said: Seq<ReaderCallView>,
    dead: Seq<usize>,
)
    requires
        open_answer(policies, before, after, kept, now, url, true, said),
        dead.contains(before.heap),
    ensures
        of_heap(now@, before.heap).contains(before.browser_id),
        of_heaps(now@, dead).contains(before.browser_id),
{
    what_is_opened_is_let_go_of(of_heap(kept@, before.heap), before.browser_id);
    listed_heaps_are_closed(now@, dead, before.heap, before.browser_id);
}

/// A page of an app without a policy can be left for others, and so can one of an app that
/// was granted the web; a page of another app stays where it is.
pub proof fn only_granted_apps_browse(t: &PolicyTable, heap: usize)
    ensures
        policy_of(t, heap) is None ==> navigable(t, heap),
        policy_of(t, heap) matches Some(p) ==> (navigable(t, heap) <==> !p.exhausted && p.grants(
            "web.open"@,
        )),
{
}

/// A page that failed is not shown until it is opened anew, nor is one that was closed; and
/// a page that is not shown is hidden once.
pub proof fn what_failed_is_not_shown(s: ReaderState)
    ensures
        s.failed ==> drawn(s) == s,
        !s.open ==> drawn(s) == s,
        s.spawned && s.open && !s.failed ==> drawn(s).overlay_visible && drawn(s).drawn,
        hiding(hidden(s)).len() == 0,
        s.spawned && s.overlay_visible ==> hiding(s) == seq![
            ReaderCallView::Update { show: false },
        ],
        !hidden(s).overlay_visible && hidden(s).open == s.open && hidden(s).timer == s.timer,
        !s.timer ==> ticked(s) == s,
{
}

} // verus!
