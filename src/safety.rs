use crate::bytemap::ByteMap;
use crate::error::Error;
use vstd::prelude::*;

verus! {

/// Maximum allowed depth for nested contract calls.
pub const MAX_CALL_DEPTH: u32 = 8;

/// Protocol version that messages must carry.
pub const PROTOCOL_VERSION: u32 = 1;

/// The nonce an actor must present next: zero for an actor never seen.
pub open spec fn expected_nonce(nonces: Map<Seq<u8>, u64>, actor: Seq<u8>) -> u64 {
    if nonces.contains_key(actor) {
        nonces[actor]
    } else {
        0
    }
}

/// Depth after `enter_call` from `depth`, or `None` when the bound is hit.
pub open spec fn entered(depth: u32) -> Option<u32> {
    if depth < MAX_CALL_DEPTH {
        Some((depth + 1) as u32)
    } else {
        None
    }
}

/// Depth after `exit_call`: one less, never below zero.
pub open spec fn exited(depth: u32) -> u32 {
    if depth > 0 {
        (depth - 1) as u32
    } else {
        0
    }
}

/// Nonce table after `verify_and_increment_nonce(actor, nonce)`, or `None`
/// when the nonce is rejected. The last value of a `u64` is never accepted,
/// since its successor could not be stored.
pub open spec fn nonce_step(nonces: Map<Seq<u8>, u64>, actor: Seq<u8>, nonce: u64) -> Option<
    Map<Seq<u8>, u64>,
> {
    if nonce == expected_nonce(nonces, actor) && nonce < u64::MAX {
        Some(nonces.insert(actor, (nonce + 1) as u64))
    } else {
        None
    }
}

/// Call depth, per-actor nonces and the protocol version of one session.
pub struct SafetyContext {
    call_depth: u32,
    nonces: ByteMap<u64>,
    protocol_version: u32,
}

impl SafetyContext {
    pub closed spec fn wf(&self) -> bool {
        self.nonces.wf() && self.call_depth <= MAX_CALL_DEPTH
    }

    pub closed spec fn depth(&self) -> u32 {
        self.call_depth
    }

    pub closed spec fn nonces(&self) -> Map<Seq<u8>, u64> {
        self.nonces@
    }

    pub closed spec fn version(&self) -> u32 {
        self.protocol_version
    }

    pub fn new() -> (r: Self)
        ensures
            r.wf(),
            r.depth() == 0,
            r.depth() <= MAX_CALL_DEPTH,
            r.nonces() == Map::<Seq<u8>, u64>::empty(),
            r.version() == PROTOCOL_VERSION,
    {
        Self { call_depth: 0, nonces: ByteMap::new(), protocol_version: PROTOCOL_VERSION }
    }

    /// Enters a nested call: fails with `MaxDepthExceeded` at the bound,
    /// otherwise increments the depth.
    pub fn enter_call(&mut self) -> (r: Result<(), Error>)
        requires
            old(self).wf(),
        ensures
            final(self).wf(),
            final(self).depth() <= MAX_CALL_DEPTH,
            r.is_ok() <==> entered(old(self).depth()).is_some(),
            r.is_ok() ==> final(self).depth() == entered(old(self).depth()).unwrap(),
            r.is_err() ==> final(self).depth() == old(self).depth() && r.unwrap_err() is MaxDepthExceeded,
            final(self).nonces() == old(self).nonces(),
            final(self).version() == old(self).version(),
    {
        if self.call_depth >= MAX_CALL_DEPTH {
            return Err(Error::MaxDepthExceeded("Call depth exceeds maximum".to_owned()));
        }
        self.call_depth = self.call_depth + 1;
        Ok(())
    }

    /// Leaves a nested call; the depth never goes below zero.
    pub fn exit_call(&mut self)
        requires
            old(self).wf(),
        ensures
            final(self).wf(),
            final(self).depth() <= MAX_CALL_DEPTH,
            final(self).depth() == exited(old(self).depth()),
            final(self).nonces() == old(self).nonces(),
            final(self).version() == old(self).version(),
    {
        if self.call_depth > 0 {
            self.call_depth = self.call_depth - 1;
        }
    }

    /// Accepts `nonce` only when it is exactly the one expected for `actor`,
    /// then expects the next one. A rejected nonce changes nothing.
    pub fn verify_and_increment_nonce(&mut self, actor: &[u8], nonce: u64) -> (r: Result<(), Error>)
        requires
            old(self).wf(),
        ensures
            final(self).wf(),
            final(self).depth() <= MAX_CALL_DEPTH,
            r.is_ok() <==> nonce_step(old(self).nonces(), actor@, nonce).is_some(),
            r.is_ok() ==> final(self).nonces() == nonce_step(old(self).nonces(), actor@, nonce).unwrap(),
            r.is_err() ==> final(self).nonces() == old(self).nonces() && r.unwrap_err() is InvalidNonce,
            forall|a: Seq<u8>|
                #[trigger] expected_nonce(final(self).nonces(), a) == if r.is_ok() && a == actor@ {
                    (nonce + 1) as u64
                } else {
                    expected_nonce(old(self).nonces(), a)
                },
            final(self).depth() == old(self).depth(),
            final(self).version() == old(self).version(),
    {
        let current = self.get_nonce(actor);
        if nonce != current || nonce == u64::MAX {
            return Err(Error::InvalidNonce("Invalid nonce".to_owned()));
        }
        self.nonces.insert(actor, current + 1);
        Ok(())
    }

    /// The nonce `actor` must present next.
    pub fn get_nonce(&self, actor: &[u8]) -> (r: u64)
        requires
            self.wf(),
        ensures
            r == expected_nonce(self.nonces(), actor@),
    {
        match self.nonces.get(actor) {
            Some(n) => *n,
            None => 0,
        }
    }

    /// Exact match against the running protocol version.
    pub fn check_protocol_version(&self, version: u32) -> (r: Result<(), Error>)
        ensures
            r.is_ok() <==> version == self.version(),
            r.is_err() ==> r.unwrap_err() is InvalidProtocolVersion,
    {
        if version != self.protocol_version {
            return Err(Error::InvalidProtocolVersion("Protocol version mismatch".to_owned()));
        }
        Ok(())
    }
}

/// Owner of one session's `SafetyContext`, through which every call goes.
pub struct SafetyManager {
    context: SafetyContext,
}

impl SafetyManager {
    pub closed spec fn wf(&self) -> bool {
        self.context.wf()
    }

    pub closed spec fn depth(&self) -> u32 {
        self.context.depth()
    }

    pub closed spec fn nonces(&self) -> Map<Seq<u8>, u64> {
        self.context.nonces()
    }

    pub closed spec fn version(&self) -> u32 {
        self.context.version()
    }

    pub fn new() -> (r: Self)
        ensures
            r.wf(),
            r.depth() == 0,
            r.depth() <= MAX_CALL_DEPTH,
            r.nonces() == Map::<Seq<u8>, u64>::empty(),
            r.version() == PROTOCOL_VERSION,
    {
        Self { context: SafetyContext::new() }
    }

    pub fn enter_call(&mut self) -> (r: Result<(), Error>)
        requires
            old(self).wf(),
        ensures
            final(self).wf(),
            final(self).depth() <= MAX_CALL_DEPTH,
            r.is_ok() <==> entered(old(self).depth()).is_some(),
            r.is_ok() ==> final(self).depth() == entered(old(self).depth()).unwrap(),
            r.is_err() ==> final(self).depth() == old(self).depth() && r.unwrap_err() is MaxDepthExceeded,
            final(self).nonces() == old(self).nonces(),
            final(self).version() == old(self).version(),
    {
        self.context.enter_call()
    }

    pub fn exit_call(&mut self)
        requires
            old(self).wf(),
        ensures
            final(self).wf(),
            final(self).depth() <= MAX_CALL_DEPTH,
            final(self).depth() == exited(old(self).depth()),
            final(self).nonces() == old(self).nonces(),
            final(self).version() == old(self).version(),
    {
        self.context.exit_call()
    }

    pub fn verify_and_increment_nonce(&mut self, actor: &[u8], nonce: u64) -> (r: Result<(), Error>)
        requires
            old(self).wf(),
        ensures
            final(self).wf(),
            final(self).depth() <= MAX_CALL_DEPTH,
            r.is_ok() <==> nonce_step(old(self).nonces(), actor@, nonce).is_some(),
            r.is_ok() ==> final(self).nonces() == nonce_step(old(self).nonces(), actor@, nonce).unwrap(),
            r.is_err() ==> final(self).nonces() == old(self).nonces() && r.unwrap_err() is InvalidNonce,
            forall|a: Seq<u8>|
                #[trigger] expected_nonce(final(self).nonces(), a) == if r.is_ok() && a == actor@ {
                    (nonce + 1) as u64
                } else {
                    expected_nonce(old(self).nonces(), a)
                },
            final(self).depth() == old(self).depth(),
            final(self).version() == old(self).version(),
    {
        self.context.verify_and_increment_nonce(actor, nonce)
    }

    pub fn get_nonce(&self, actor: &[u8]) -> (r: u64)
        requires
            self.wf(),
        ensures
            r == expected_nonce(self.nonces(), actor@),
    {
        self.context.get_nonce(actor)
    }

    pub fn check_protocol_version(&self, version: u32) -> (r: Result<(), Error>)
        ensures
            r.is_ok() <==> version == self.version(),
            r.is_err() ==> r.unwrap_err() is InvalidProtocolVersion,
    {
        self.context.check_protocol_version(version)
    }
}

impl Default for SafetyManager {
    fn default() -> (r: Self)
        ensures
            r.wf(),
            r.depth() == 0,
            r.depth() <= MAX_CALL_DEPTH,
            r.nonces() == Map::<Seq<u8>, u64>::empty(),
            r.version() == PROTOCOL_VERSION,
    {
        Self::new()
    }
}

/// Strict nonce sequencing: for an actor never seen, nonce 0 is accepted;
/// repeating 0 or skipping to 2 is then rejected, and 1 is accepted.
pub proof fn lemma_nonce_strict_sequencing(nonces: Map<Seq<u8>, u64>, actor: Seq<u8>)
    requires
        !nonces.contains_key(actor),
    ensures
        nonce_step(nonces, actor, 0) is Some,
        nonce_step(nonce_step(nonces, actor, 0).unwrap(), actor, 0) is None,
        nonce_step(nonce_step(nonces, actor, 0).unwrap(), actor, 2) is None,
        nonce_step(nonce_step(nonces, actor, 0).unwrap(), actor, 1) is Some,
        expected_nonce(
            nonce_step(nonce_step(nonces, actor, 0).unwrap(), actor, 1).unwrap(),
            actor,
        ) == 2,
{
    let m1 = nonces.insert(actor, 1);
    assert(nonce_step(nonces, actor, 0) == Some(m1));
    assert(expected_nonce(m1, actor) == 1);
    assert(expected_nonce(m1.insert(actor, 2), actor) == 2);
}

/// Depth reached from zero after `n` successful entries.
pub open spec fn depth_after_entries(n: nat) -> Option<u32>
    decreases n,
{
    if n == 0 {
        Some(0)
    } else {
        match depth_after_entries((n - 1) as nat) {
            Some(d) => entered(d),
            None => None,
        }
    }
}

/// Call-depth bound: from depth zero, `MAX_CALL_DEPTH` entries succeed, the
/// next one fails, and after one exit a further entry succeeds again.
pub proof fn lemma_call_depth_bound()
    ensures
        forall|n: nat| n <= MAX_CALL_DEPTH ==> #[trigger] depth_after_entries(n) == Some(n as u32),
        entered(depth_after_entries(MAX_CALL_DEPTH as nat).unwrap()) is None,
        entered(exited(depth_after_entries(MAX_CALL_DEPTH as nat).unwrap())) == Some(MAX_CALL_DEPTH),
{
    assert forall|n: nat| n <= MAX_CALL_DEPTH implies #[trigger] depth_after_entries(n) == Some(
        n as u32,
    ) by {
        lemma_depth_after_entries(n);
    }
    lemma_depth_after_entries(MAX_CALL_DEPTH as nat);
}

proof fn lemma_depth_after_entries(n: nat)
    requires
        n <= MAX_CALL_DEPTH,
    ensures
        depth_after_entries(n) == Some(n as u32),
    decreases n,
{
    if n > 0 {
        lemma_depth_after_entries((n - 1) as nat);
    }
}

} // verus!
