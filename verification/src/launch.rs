//! The launcher between sessions: what its events lead to, and how a
//! connection attempt ends.
use crate::config::{ClientConfig, ConfigView, HostView};
use crate::launcher::{
    law_step_keeps_wf, session_config, session_view, Effect, Model, ModelView,
    MAX_HOSTS,
};
use crate::net::SessionRequest;
use crate::text::copy_text;
use crate::widgets::{NavEvent, NavView};
use vstd::prelude::*;

verus! {

/// What it takes to connect to a host.
#[derive(Debug)]
pub struct ConnectPlan {
    /// The configuration that the session runs with.
    pub session: ClientConfig,
    /// What to ask the server for.
    pub request: SessionRequest,
    /// How the host is called while connecting.
    pub host_name: String,
}

/// What the launcher shows a host as.
pub open spec fn shown_name(host: HostView) -> Seq<char> {
    if host.name.len() == 0 {
        host.address
    } else {
        host.name
    }
}

/// What to ask the server of a host for.
pub open spec fn request_for(host: HostView) -> SessionRequest {
    SessionRequest {
        width: host.resolution.width,
        height: host.resolution.height,
        framerate: host.framerate,
        codec: host.codec,
        bitrate_mbps: host.bitrate,
    }
}

/// What it takes to connect to a host of the list.
pub fn connect_plan(cfg: &ClientConfig, row: usize) -> (plan: ConnectPlan)
    requires
        row < cfg@.hosts.len(),
    ensures
        plan.session@ == session_view(cfg@, cfg@.hosts[row as int]),
        plan.request == request_for(cfg@.hosts[row as int]),
        plan.host_name@ == shown_name(cfg@.hosts[row as int]),
{
    let host = &cfg.hosts[row];
    ConnectPlan {
        session: session_config(cfg, host),
        request: SessionRequest {
            width: host.resolution.width,
            height: host.resolution.height,
            framerate: host.framerate,
            codec: host.codec,
            bitrate_mbps: host.bitrate,
        },
        host_name: copy_text(host.display_name()),
    }
}

/// What a server is asked for that is not a saved host.
pub open spec fn direct_view(cfg: ConfigView) -> SessionRequest {
    SessionRequest {
        width: cfg.resolution.width,
        height: cfg.resolution.height,
        framerate: cfg.framerate,
        codec: cfg.codec,
        bitrate_mbps: 0,
    }
}

/// What to ask a server for that is not a saved host.
pub fn direct_request(cfg: &ClientConfig) -> (request: SessionRequest)
    ensures
        request == (SessionRequest {
            width: cfg.resolution.width,
            height: cfg.resolution.height,
            framerate: cfg.framerate,
            codec: cfg.codec,
            bitrate_mbps: 0,
        }),
        request == direct_view(cfg@),
{
    SessionRequest {
        width: cfg.resolution.width,
        height: cfg.resolution.height,
        framerate: cfg.framerate,
        codec: cfg.codec,
        bitrate_mbps: 0,
    }
}

/// The views of some events.
pub open spec fn nav_views(events: Seq<NavEvent>) -> Seq<NavView> {
    Seq::new(events.len(), |i: int| events[i]@)
}

/// The effect ends the handling of a batch of events: a second activation
/// must not start a competing connection.
pub open spec fn ends_batch(effect: Effect) -> bool {
    effect is Connect || effect is Quit
}

/// A batch of events: the model after it, and the effects in order.
pub open spec fn batch(m: ModelView, events: Seq<NavView>) -> (ModelView, Seq<Effect>)
    decreases events.len(),
{
    if events.len() == 0 {
        (m, Seq::empty())
    } else {
        let (next, effect) = m.step(events[0]);
        if ends_batch(effect) {
            (next, seq![effect])
        } else {
            let (after, effects) = batch(next, events.skip(1));
            (after, seq![effect] + effects)
        }
    }
}

/// Feeds a batch of events through the model, up to one that connects or
/// quits. Returns the effects to carry out, in order.
pub fn run_batch(model: &mut Model, events: &Vec<NavEvent>) -> (effects: Vec<Effect>)
    requires
        old(model)@.wf(),
        old(model)@.cfg.hosts.len() + events@.len() < MAX_HOSTS,
    ensures
        (final(model)@, effects@) == batch(old(model)@, nav_views(events@)),
        final(model)@.wf(),
{
    let ghost all = nav_views(events@);
    let ghost start = model@;
    let mut effects: Vec<Effect> = Vec::new();
    let mut n: usize = 0;
    proof {
        assert(all.skip(0) =~= all);
        assert(Seq::<Effect>::empty() + batch(start, all).1 =~= batch(start, all).1);
    }
    while n < events.len()
        invariant
            n <= events.len(),
            all == nav_views(events@),
            start == old(model)@,
            model@.wf(),
            model@.cfg.hosts.len() + (events@.len() - n) < MAX_HOSTS,
            batch(start, all) == ({
                let (after, more) = batch(model@, all.skip(n as int));
                (after, effects@ + more)
            }),
        decreases events.len() - n,
    {
        let ghost before = effects@;
        let ghost here = model@;
        proof {
            assert(all.skip(n as int)[0] == events@[n as int]@);
            assert(all.skip(n as int).skip(1) =~= all.skip(n + 1));
            law_step_keeps_wf(here, events@[n as int]@);
        }
        let effect = model.update(&events[n]);
        effects.push(effect);
        match effect {
            Effect::Connect(_) | Effect::Quit => {
                assert(before + seq![effect] =~= effects@);
                return effects;
            },
            _ => {},
        }
        proof {
            let more = batch(model@, all.skip(n + 1)).1;
            assert(before + (seq![effect] + more) =~= effects@ + more);
        }
        n = n + 1;
    }
    proof {
        assert(all.skip(n as int) =~= Seq::empty());
        assert(effects@ + Seq::<Effect>::empty() =~= effects@);
    }
    effects
}

/// A batch that changes the configuration asks for a save of it.
pub proof fn law_batch_changes_are_saved(m: ModelView, events: Seq<NavView>)
    ensures
        batch(m, events).0.cfg != m.cfg ==> batch(m, events).1.contains(Effect::Save),
    decreases events.len(),
{
    if events.len() > 0 {
        let (next, effect) = m.step(events[0]);
        crate::launcher::law_changes_are_saved(m, events[0]);
        if !ends_batch(effect) {
            law_batch_changes_are_saved(next, events.skip(1));
            let rest = batch(next, events.skip(1)).1;
            let all = seq![effect] + rest;
            if effect == Effect::Save {
                assert(all[0] == Effect::Save);
            } else if rest.contains(Effect::Save) {
                let i = rest.index_of(Effect::Save);
                assert(all[i + 1] == Effect::Save);
            }
        }
    }
}

/// At most one connection comes of a batch, as its last effect.
pub proof fn law_batch_connects_once(m: ModelView, events: Seq<NavView>, i: int)
    requires
        0 <= i < batch(m, events).1.len(),
        ends_batch(batch(m, events).1[i]),
    ensures
        i == batch(m, events).1.len() - 1,
    decreases events.len(),
{
    if events.len() > 0 {
        let (next, effect) = m.step(events[0]);
        if !ends_batch(effect) {
            law_batch_connects_once(next, events.skip(1), i - 1);
        }
    }
}

/// How a connection attempt stands.
#[derive(Debug, PartialEq, Eq)]
pub enum Attempt {
    /// It is under way.
    Pending,
    /// The session is established.
    Connected,
    /// It failed, with this message.
    Failed(String),
    /// It ended without a result.
    Died,
}

/// What to do about a connection attempt.
#[derive(Debug, Clone, Copy, PartialEq, Eq, Structural)]
pub enum AttemptAction {
    /// Look again later.
    Wait,
    /// Save the configuration and run the session.
    StartSession,
    /// Close the session that was just established.
    CloseSession,
    /// Stop the attempt.
    Abort,
    /// The attempt is over.
    Over,
}

/// Whether one of the events cancels.
pub fn wants_cancel(events: &Vec<NavEvent>) -> (r: bool)
    ensures
        r == nav_views(events@).contains(NavView::Back),
{
    let ghost views = nav_views(events@);
    let mut n: usize = 0;
    while n < events.len()
        invariant
            n <= events.len(),
            views == nav_views(events@),
            forall|i: int| 0 <= i < n ==> views[i] != NavView::Back,
        decreases events.len() - n,
    {
        if let NavEvent::Back = events[n] {
            assert(views[n as int] == NavView::Back);
            return true;
        }
        assert(views[n as int] == events@[n as int]@);
        n = n + 1;
    }
    false
}

/// The banner that an attempt leaves, if it leaves one.
pub open spec fn attempt_banner(cancelled: bool, attempt: Attempt) -> Option<Seq<char>> {
    match attempt {
        Attempt::Connected => None,
        Attempt::Pending => if cancelled {
            Some("Connection cancelled"@)
        } else {
            None
        },
        Attempt::Failed(e) => if cancelled {
            Some("Connection cancelled"@)
        } else {
            Some("Connection failed: "@ + e@)
        },
        Attempt::Died => Some("Connection task died"@),
    }
}

/// What to do about an attempt. A session that was established just as it
/// was cancelled is closed.
pub open spec fn attempt_action(cancelled: bool, attempt: Attempt) -> AttemptAction {
    match attempt {
        Attempt::Connected => if cancelled {
            AttemptAction::CloseSession
        } else {
            AttemptAction::StartSession
        },
        Attempt::Pending => if cancelled {
            AttemptAction::Abort
        } else {
            AttemptAction::Wait
        },
        Attempt::Failed(_) | Attempt::Died => AttemptAction::Over,
    }
}

/// Decides about a connection attempt, and puts up the banner that it
/// leaves. While connecting, only cancelling counts.
pub fn poll_attempt(model: &mut Model, cancelled: bool, attempt: &Attempt) -> (
    action: AttemptAction)
    ensures
        action == attempt_action(cancelled, *attempt),
        final(model)@ == (match attempt_banner(cancelled, *attempt) {
            Some(text) => ModelView { error: Some(text), ..old(model)@ },
            None => old(model)@,
        }),
{
    match attempt {
        Attempt::Connected => if cancelled {
            AttemptAction::CloseSession
        } else {
            AttemptAction::StartSession
        },
        Attempt::Pending => {
            if cancelled {
                model.error = Some(copy_text("Connection cancelled"));
                AttemptAction::Abort
            } else {
                AttemptAction::Wait
            }
        },
        Attempt::Failed(e) => {
            if cancelled {
                model.error = Some(copy_text("Connection cancelled"));
            } else {
                let mut text = copy_text("Connection failed: ");
                text.append(e.as_str());
                model.error = Some(text);
            }
            AttemptAction::Over
        },
        Attempt::Died => {
            model.error = Some(copy_text("Connection task died"));
            AttemptAction::Over
        },
    }
}

/// A session starts only from an attempt that succeeded and was not
/// cancelled; one that succeeded but was cancelled does not stay open.
pub proof fn law_cancelled_never_starts(cancelled: bool, attempt: Attempt)
    ensures
        attempt_action(cancelled, attempt) == AttemptAction::StartSession <==> attempt is Connected
            && !cancelled,
        attempt is Connected && cancelled ==> attempt_action(cancelled, attempt)
            == AttemptAction::CloseSession,
{
}

} // verus!
