//! TerraTactics cloud agent: the settings it syncs with and its inbox of claim
//! directives (cloud to hub). The periodic sync loop lives in the daemon; each of
//! its ticks asks [`CloudAgent::sync_tick`] what to do.

use vstd::prelude::*;

use crate::config::CloudSection;

verus! {

/// Seconds between two sync ticks.
pub const SYNC_INTERVAL_SECS: u64 = 5;

/// Most buffered telemetry items read per sync tick.
pub const SYNC_BATCH: usize = 32;

/// Claim instruction as would arrive from the TerraTactics cloud after farmer approval.
#[derive(Debug, Clone)]
pub struct ClaimDirective {
    pub identity: String,
    pub routing_addr: u16,
}

/// A claim directive as identity characters and routing address.
pub open spec fn directive_view(d: ClaimDirective) -> (Seq<char>, u16) {
    (d.identity@, d.routing_addr)
}

/// The views of a list of directives, in order.
pub open spec fn directive_views(s: Seq<ClaimDirective>) -> Seq<(Seq<char>, u16)> {
    s.map_values(|d: ClaimDirective| directive_view(d))
}

/// The characters of an optional string.
pub open spec fn opt_text(o: Option<String>) -> Option<Seq<char>> {
    match o {
        Some(s) => Some(s@),
        None => None,
    }
}

/// What one sync tick has to do.
#[derive(Debug)]
pub struct SyncTick {
    /// The claims to apply, oldest first.
    pub claims: Vec<ClaimDirective>,
    /// How many buffered items to read and publish, or None when the cloud is disabled.
    pub drain_limit: Option<usize>,
}

/// The cloud agent.
#[derive(Debug)]
pub struct CloudAgent {
    enabled: bool,
    broker_url: Option<String>,
    client_id: Option<String>,
    /// Inbox for claim directives (cloud to hub).
    pending_claims: Vec<ClaimDirective>,
}

/// A copy of an optional string.
fn copy_opt(o: &Option<String>) -> (r: Option<String>)
    ensures
        opt_text(r) == opt_text(*o),
{
    match o {
        Some(s) => Some(s.clone()),
        None => None,
    }
}

impl CloudAgent {
    /// Whether the cloud sync is enabled.
    pub closed spec fn enabled(&self) -> bool {
        self.enabled
    }

    /// The MQTT broker's URL, if configured.
    pub closed spec fn broker_url(&self) -> Option<Seq<char>> {
        opt_text(self.broker_url)
    }

    /// The MQTT client identifier, if configured.
    pub closed spec fn client_id(&self) -> Option<Seq<char>> {
        opt_text(self.client_id)
    }

    /// The queued claim directives, oldest first.
    pub closed spec fn pending(&self) -> Seq<(Seq<char>, u16)> {
        directive_views(self.pending_claims@)
    }

    /// An agent with the configured settings and an empty inbox.
    pub fn from_config(cfg: &CloudSection) -> (a: Self)
        ensures
            a.enabled() == cfg.enabled,
            a.broker_url() == opt_text(cfg.broker_url),
            a.client_id() == opt_text(cfg.client_id),
            a.pending() == Seq::<(Seq<char>, u16)>::empty(),
    {
        let a = CloudAgent {
            enabled: cfg.enabled,
            broker_url: copy_opt(&cfg.broker_url),
            client_id: copy_opt(&cfg.client_id),
            pending_claims: Vec::new(),
        };
        assert(a.pending() =~= Seq::<(Seq<char>, u16)>::empty());
        a
    }

    /// Queue a claim as if the TerraTactics cloud pushed it.
    pub fn enqueue_claim(&mut self, identity: String, routing_addr: u16)
        ensures
            final(self).pending() == old(self).pending().push((identity@, routing_addr)),
            final(self).enabled() == old(self).enabled(),
            final(self).broker_url() == old(self).broker_url(),
            final(self).client_id() == old(self).client_id(),
    {
        self.pending_claims.push(ClaimDirective { identity, routing_addr });
        assert(final(self).pending() =~= old(self).pending().push((identity@, routing_addr)));
    }

    /// One sync tick: takes every queued claim, oldest first, and says how many
    /// buffered items to publish (none when the cloud is disabled).
    pub fn sync_tick(&mut self) -> (t: SyncTick)
        ensures
            directive_views(t.claims@) == old(self).pending(),
            final(self).pending() == Seq::<(Seq<char>, u16)>::empty(),
            t.drain_limit == (if old(self).enabled() { Some(SYNC_BATCH) } else { None::<usize> }),
            final(self).enabled() == old(self).enabled(),
            final(self).broker_url() == old(self).broker_url(),
            final(self).client_id() == old(self).client_id(),
    {
        let mut claims: Vec<ClaimDirective> = Vec::new();
        std::mem::swap(&mut claims, &mut self.pending_claims);
        assert(final(self).pending() =~= Seq::<(Seq<char>, u16)>::empty());
        let drain_limit = if self.enabled { Some(SYNC_BATCH) } else { None };
        SyncTick { claims, drain_limit }
    }
}

} // verus!
