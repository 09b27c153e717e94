//! Which client owns the microphone and the speaker.
//!
//! Exactly one client per owner holds the voice session. A dead previous
//! owner never holds the slot forever — only a still-live owner can refuse a
//! non-takeover claim — and a takeover is explicit.

use std::sync::Arc;
use vstd::prelude::*;
use crate::chars::str_eq;


verus! {

/// One connected client that can hold the voice session.
pub trait VoiceClient {
    /// A stable identity for this client, used for slot comparison.
    fn client_id(&self) -> &str;

    /// Whether the socket is still open. A client that does not know is
    /// alive, so it can never be evicted by default.
    fn is_alive(&self) -> bool {
        true
    }

    /// Called on the client that just lost the slot.
    fn deactivate(&self, replacement_id: &str) {
    }
}

/// What a claim answered.
pub struct ActivationResult<C: ?Sized> {
    /// Whether the claim succeeded.
    pub granted: bool,
    /// The client that held the slot before, when there was one and the slot
    /// did not stay with the claimant.
    pub previous: Option<Arc<C>>,
}

struct Slot<C: ?Sized> {
    owner: String,
    client_id: String,
    client: Arc<C>,
}

/// The per-owner voice slot table.
pub struct ActiveVoiceClients<C: ?Sized> {
    slots: Vec<Slot<C>>,
}

/// What a claim by the client reporting `id` does to the table `before`
/// (owner → holder's id; `holders`: owner → holder), when another holder's
/// liveness is `alive`: a re-claim by the holder is granted and moves
/// nothing; with no holder the claimant takes the slot; with another holder
/// the claim reports that holder and takes the slot exactly when it is a
/// takeover or that holder is dead, and otherwise leaves the table as it was.
pub open spec fn activated<C: ?Sized>(
    before: Map<Seq<char>, Seq<char>>,
    holders: Map<Seq<char>, Arc<C>>,
    owner: Seq<char>,
    id: Seq<char>,
    takeover: bool,
    alive: bool,
    r: ActivationResult<C>,
    after: Map<Seq<char>, Seq<char>>,
) -> bool {
    &&& before.contains_key(owner) && before[owner] != id ==> r.granted == (takeover || !alive)
    &&& before.contains_key(owner) && before[owner] == id ==> r.granted && r.previous is None && after == before
    &&& !before.contains_key(owner) ==> r.granted && r.previous is None && after == before.insert(owner, id)
    &&& before.contains_key(owner) && before[owner] != id ==> r.previous == Some(holders[owner]) && (if r.granted {
        after == before.insert(owner, id)
    } else {
        !takeover && after == before
    })
    &&& takeover ==> r.granted
    &&& r.granted ==> after.contains_key(owner) && after[owner] == id
}

/// Who holds the slots after a claim of `owner` by `client` answered `r`:
/// a granted claim that took the slot from another holder (`previous` is
/// set) or found it empty hands `owner`'s slot to `client`; every other
/// slot, and every slot after a refused claim or a re-claim by the holder,
/// keeps its holder.
pub open spec fn handed<C: ?Sized>(
    before: Map<Seq<char>, Seq<char>>,
    holders: Map<Seq<char>, Arc<C>>,
    owner: Seq<char>,
    r: ActivationResult<C>,
    client: Arc<C>,
    after_holders: Map<Seq<char>, Arc<C>>,
) -> bool {
    if r.granted && (r.previous is Some || !before.contains_key(owner)) {
        after_holders == holders.insert(owner, client)
    } else {
        after_holders == holders
    }
}

impl<C: VoiceClient + ?Sized> ActiveVoiceClients<C> {
    spec fn owners(&self) -> Seq<Seq<char>> {
        self.slots@.map_values(|s: Slot<C>| s.owner@)
    }

    /// Each owner holds at most one slot.
    pub closed spec fn wf(&self) -> bool {
        forall|i: int, j: int|
            0 <= i < j < self.slots@.len() ==> #[trigger] self.slots@[i].owner@
                != #[trigger] self.slots@[j].owner@
    }

    /// Owner → the id of the client holding that owner's slot.
    pub closed spec fn view(&self) -> Map<Seq<char>, Seq<char>> {
        Map::new(
            |o: Seq<char>| exists|i: int| 0 <= i < self.slots@.len() && self.slots@[i].owner@ == o,
            |o: Seq<char>|
                self.slots@[choose|i: int|
                    0 <= i < self.slots@.len() && self.slots@[i].owner@ == o].client_id@,
        )
    }

    /// Owner → the client holding that owner's slot.
    pub closed spec fn holders(&self) -> Map<Seq<char>, Arc<C>> {
        Map::new(
            |o: Seq<char>| exists|i: int| 0 <= i < self.slots@.len() && self.slots@[i].owner@ == o,
            |o: Seq<char>|
                self.slots@[choose|i: int|
                    0 <= i < self.slots@.len() && self.slots@[i].owner@ == o].client,
        )
    }

    proof fn lemma_slot(&self, i: int)
        requires
            self.wf(),
            0 <= i < self.slots@.len(),
        ensures
            self.view().contains_key(self.slots@[i].owner@),
            self.view()[self.slots@[i].owner@] == self.slots@[i].client_id@,
            self.holders()[self.slots@[i].owner@] == self.slots@[i].client,
    {
        let o = self.slots@[i].owner@;
        let j = choose|j: int| 0 <= j < self.slots@.len() && self.slots@[j].owner@ == o;
        assert(0 <= j < self.slots@.len() && self.slots@[j].owner@ == o);
        if i < j {
            assert(self.slots@[i].owner@ != self.slots@[j].owner@);
        } else if j < i {
            assert(self.slots@[j].owner@ != self.slots@[i].owner@);
        }
    }

    /// An empty table.
    pub fn new() -> (r: Self)
        ensures
            r.wf(),
            r@ == Map::<Seq<char>, Seq<char>>::empty(),
    {
        let r = ActiveVoiceClients { slots: Vec::new() };
        assert(r@ =~= Map::<Seq<char>, Seq<char>>::empty());
        r
    }

    fn find(&self, owner_id: &str) -> (r: Option<usize>)
        requires
            self.wf(),
        ensures
            r matches Some(i) ==> i < self.slots@.len() && self.slots@[i as int].owner@
                == owner_id@,
            r is None ==> !self@.contains_key(owner_id@),
    {
        let mut i: usize = 0;
        while i < self.slots.len()
            invariant
                i <= self.slots@.len(),
                forall|j: int| 0 <= j < i ==> self.slots@[j].owner@ != owner_id@,
            decreases self.slots.len() - i,
        {
            if str_eq(self.slots[i].owner.as_str(), owner_id) {
                return Some(i);
            }
            i = i + 1;
        }
        None
    }

    /// Claim the slot for `client`, which reports `client_id`, when the
    /// current holder (if it is another client) reports `holder_alive`: a
    /// re-claim by the current holder is granted with no previous; a live
    /// previous holder refuses a claim without `takeover`; otherwise the
    /// previous holder is deactivated and the slot changes hands to `client`.
    pub fn activate_decided(
        &mut self,
        owner_id: &str,
        client_id: &str,
        client: Arc<C>,
        takeover: bool,
        holder_alive: bool,
    ) -> (r: ActivationResult<C>)
        requires
            old(self).wf(),
        ensures
            final(self).wf(),
            activated(old(self)@, old(self).holders(), owner_id@, client_id@, takeover, holder_alive, r, final(self)@),
            handed(old(self)@, old(self).holders(), owner_id@, r, client, final(self).holders()),
    {
        let ghost client_arg = client;
        let cid = string_of(client_id);
        let found = self.find(owner_id);
        match found {
            Some(i) => {
                proof {
                    self.lemma_slot(i as int);
                }
                if str_eq(self.slots[i].client_id.as_str(), cid.as_str()) {
                    return ActivationResult { granted: true, previous: None };
                }
                let previous: Arc<C> = Arc::clone(&self.slots[i].client);
                if holder_alive && !takeover {
                    return ActivationResult { granted: false, previous: Some(previous) };
                }
                previous.deactivate(client_id);
                let ghost before = *self;
                let owner = string_of(owner_id);
                self.slots.set(i, Slot { owner, client_id: cid, client });
                proof {
                    assert forall|a: int, b: int|
                        0 <= a < b < self.slots@.len() implies #[trigger] self.slots@[a].owner@
                        != #[trigger] self.slots@[b].owner@ by {
                        assert(before.slots@[a].owner@ != before.slots@[b].owner@);
                    }
                    assert forall|o: Seq<char>| #[trigger]
                        self@.contains_key(o) == before@.insert(owner_id@, cid@).contains_key(o) by {
                        if exists|j: int| 0 <= j < before.slots@.len() && before.slots@[j].owner@ == o {
                            let j = choose|j: int|
                                0 <= j < before.slots@.len() && before.slots@[j].owner@ == o;
                            assert(self.slots@[j].owner@ == o);
                        }
                        if exists|j: int| 0 <= j < self.slots@.len() && self.slots@[j].owner@ == o {
                            let j = choose|j: int|
                                0 <= j < self.slots@.len() && self.slots@[j].owner@ == o;
                            assert(before.slots@[j].owner@ == o);
                        }
                    }
                    assert forall|o: Seq<char>| #[trigger] self@.contains_key(o) implies self@[o]
                        == before@.insert(owner_id@, cid@)[o] by {
                        let j = choose|j: int|
                            0 <= j < self.slots@.len() && self.slots@[j].owner@ == o;
                        self.lemma_slot(j);
                        if j != i {
                            before.lemma_slot(j);
                        }
                    }
                    assert(self@ =~= before@.insert(owner_id@, cid@));
                    self.lemma_slot(i as int);
                    assert forall|o: Seq<char>| #[trigger] self.holders().contains_key(o)
                        == before.holders().insert(owner_id@, client_arg).contains_key(o) by {
                        assert(self.holders().contains_key(o) == self@.contains_key(o));
                        assert(before.holders().contains_key(o) == before@.contains_key(o));
                    }
                    assert forall|o: Seq<char>| #[trigger] self.holders().contains_key(o) implies self.holders()[o]
                        == before.holders().insert(owner_id@, client_arg)[o] by {
                        assert(self.holders().contains_key(o) == self@.contains_key(o));
                        let j = choose|j: int|
                            0 <= j < self.slots@.len() && self.slots@[j].owner@ == o;
                        self.lemma_slot(j);
                        if j != i {
                            before.lemma_slot(j);
                        }
                    }
                    assert(self.holders() =~= before.holders().insert(owner_id@, client_arg));
                }
                ActivationResult { granted: true, previous: Some(previous) }
            },
            None => {
                let ghost before = *self;
                let owner = string_of(owner_id);
                self.slots.push(Slot { owner, client_id: cid, client });
                proof {
                    let n = before.slots@.len();
                    assert forall|a: int, b: int|
                        0 <= a < b < self.slots@.len() implies #[trigger] self.slots@[a].owner@
                        != #[trigger] self.slots@[b].owner@ by {
                        if b == n {
                            assert(before.slots@[a].owner@ != owner_id@ || false) by {
                                if before.slots@[a].owner@ == owner_id@ {
                                    assert(before@.contains_key(owner_id@));
                                }
                            }
                        } else {
                            assert(before.slots@[a].owner@ != before.slots@[b].owner@);
                        }
                    }
                    assert forall|o: Seq<char>| #[trigger]
                        self@.contains_key(o) == before@.insert(owner_id@, cid@).contains_key(o) by {
                        if exists|j: int| 0 <= j < before.slots@.len() && before.slots@[j].owner@ == o {
                            let j = choose|j: int|
                                0 <= j < before.slots@.len() && before.slots@[j].owner@ == o;
                            assert(self.slots@[j].owner@ == o);
                        }
                        if o == owner_id@ {
                            assert(self.slots@[n as int].owner@ == o);
                        }
                        if exists|j: int| 0 <= j < self.slots@.len() && self.slots@[j].owner@ == o {
                            let j = choose|j: int|
                                0 <= j < self.slots@.len() && self.slots@[j].owner@ == o;
                            if j < n {
                                assert(before.slots@[j].owner@ == o);
                            }
                        }
                    }
                    assert forall|o: Seq<char>| #[trigger] self@.contains_key(o) implies self@[o]
                        == before@.insert(owner_id@, cid@)[o] by {
                        let j = choose|j: int|
                            0 <= j < self.slots@.len() && self.slots@[j].owner@ == o;
                        self.lemma_slot(j);
                        if j < n {
                            before.lemma_slot(j);
                        }
                    }
                    assert(self@ =~= before@.insert(owner_id@, cid@));
                    self.lemma_slot(n as int);
                    assert forall|o: Seq<char>| #[trigger] self.holders().contains_key(o)
                        == before.holders().insert(owner_id@, client_arg).contains_key(o) by {
                        assert(self.holders().contains_key(o) == self@.contains_key(o));
                        assert(before.holders().contains_key(o) == before@.contains_key(o));
                    }
                    assert forall|o: Seq<char>| #[trigger] self.holders().contains_key(o) implies self.holders()[o]
                        == before.holders().insert(owner_id@, client_arg)[o] by {
                        assert(self.holders().contains_key(o) == self@.contains_key(o));
                        let j = choose|j: int|
                            0 <= j < self.slots@.len() && self.slots@[j].owner@ == o;
                        self.lemma_slot(j);
                        if j < n {
                            before.lemma_slot(j);
                        }
                    }
                    assert(self.holders() =~= before.holders().insert(owner_id@, client_arg));
                }
                ActivationResult { granted: true, previous: None }
            },
        }
    }
}

fn string_of(s: &str) -> (r: String)
    ensures
        r@ == s@,
{
    s.to_owned()
}


impl<C: VoiceClient + ?Sized> ActiveVoiceClients<C> {
    /// Claim the slot for `client`, which reports `client_id`: another
    /// holder is asked whether it is still alive, and the claim is decided
    /// as [`Self::activate_decided`] with its answer.
    pub fn activate_as(&mut self, owner_id: &str, client_id: &str, client: Arc<C>, takeover: bool) -> (r:
        ActivationResult<C>)
        requires
            old(self).wf(),
        ensures
            final(self).wf(),
            exists|alive: bool| #[trigger] activated(old(self)@, old(self).holders(), owner_id@, client_id@, takeover, alive, r, final(self)@),
            handed(old(self)@, old(self).holders(), owner_id@, r, client, final(self).holders()),
    {
        let alive = if self.is_active(owner_id, client_id) {
            true
        } else {
            match self.active(owner_id) {
                Some(holder) => holder.is_alive(),
                None => false,
            }
        };
        let ghost before = *self;
        let r = self.activate_decided(owner_id, client_id, client, takeover, alive);
        assert(activated(before@, before.holders(), owner_id@, client_id@, takeover, alive, r, self@));
        r
    }

    /// Claim the slot for `client` under the identity it reports when asked:
    /// the claim behaves as [`Self::activate_as`] with that identity.
    pub fn activate(&mut self, owner_id: &str, client: Arc<C>, takeover: bool) -> (r: ActivationResult<C>)
        requires
            old(self).wf(),
        ensures
            final(self).wf(),
            exists|id: Seq<char>, alive: bool| #[trigger] activated(old(self)@, old(self).holders(), owner_id@, id, takeover, alive, r, final(self)@),
            handed(old(self)@, old(self).holders(), owner_id@, r, client, final(self).holders()),
    {
        let id = string_of(client.client_id());
        let ghost before = *self;
        let r = self.activate_as(owner_id, id.as_str(), client, takeover);
        let ghost alive = choose|alive: bool| activated(before@, before.holders(), owner_id@, id@, takeover, alive, r, self@);
        assert(activated(before@, before.holders(), owner_id@, id@, takeover, alive, r, self@));
        r
    }

    /// Release the slot, if `client_id` still holds it. Answers whether
    /// anything changed.
    pub fn release(&mut self, owner_id: &str, client_id: &str) -> (r: bool)
        requires
            old(self).wf(),
        ensures
            final(self).wf(),
            r == (old(self)@.contains_key(owner_id@) && old(self)@[owner_id@] == client_id@),
            r ==> final(self)@ == old(self)@.remove(owner_id@),
            r ==> final(self)@.len() + 1 == old(self)@.len(),
            !r ==> final(self)@ == old(self)@,
    {
        proof {
            self.lemma_len();
        }
        match self.find(owner_id) {
            None => false,
            Some(i) => {
                proof {
                    self.lemma_slot(i as int);
                }
                if !str_eq(self.slots[i].client_id.as_str(), client_id) {
                    return false;
                }
                let ghost before = *self;
                self.slots.remove(i);
                proof {
                    let n = before.slots@.len();
                    assert forall|a: int, b: int|
                        0 <= a < b < self.slots@.len() implies #[trigger] self.slots@[a].owner@
                        != #[trigger] self.slots@[b].owner@ by {
                        let a2 = if a < i { a } else { a + 1 };
                        let b2 = if b < i { b } else { b + 1 };
                        assert(self.slots@[a] == before.slots@[a2]);
                        assert(self.slots@[b] == before.slots@[b2]);
                        assert(before.slots@[a2].owner@ != before.slots@[b2].owner@);
                    }
                    assert forall|o: Seq<char>| #[trigger]
                        self@.contains_key(o) == before@.remove(owner_id@).contains_key(o) by {
                        if exists|j: int| 0 <= j < before.slots@.len() && before.slots@[j].owner@ == o {
                            let j = choose|j: int|
                                0 <= j < before.slots@.len() && before.slots@[j].owner@ == o;
                            if j < i {
                                assert(self.slots@[j] == before.slots@[j]);
                            } else if j > i {
                                assert(self.slots@[j - 1] == before.slots@[j]);
                            } else {
                                assert(o == owner_id@);
                            }
                        }
                        if exists|j: int| 0 <= j < self.slots@.len() && self.slots@[j].owner@ == o {
                            let j = choose|j: int|
                                0 <= j < self.slots@.len() && self.slots@[j].owner@ == o;
                            let j2 = if j < i { j } else { j + 1 };
                            assert(self.slots@[j] == before.slots@[j2]);
                            if o == owner_id@ {
                                if j2 < i {
                                    assert(before.slots@[j2].owner@ != before.slots@[i as int].owner@);
                                } else {
                                    assert(before.slots@[i as int].owner@ != before.slots@[j2].owner@);
                                }
                            }
                        }
                    }
                    assert forall|o: Seq<char>| #[trigger] self@.contains_key(o) implies self@[o]
                        == before@.remove(owner_id@)[o] by {
                        let j = choose|j: int|
                            0 <= j < self.slots@.len() && self.slots@[j].owner@ == o;
                        self.lemma_slot(j);
                        let j2 = if j < i { j } else { j + 1 };
                        assert(self.slots@[j] == before.slots@[j2]);
                        before.lemma_slot(j2);
                    }
                    assert(self@ =~= before@.remove(owner_id@));
                }
                true
            },
        }
    }

    /// Whether `client_id` holds `owner_id`'s slot.
    pub fn is_active(&self, owner_id: &str, client_id: &str) -> (r: bool)
        requires
            self.wf(),
        ensures
            r == (self@.contains_key(owner_id@) && self@[owner_id@] == client_id@),
    {
        match self.find(owner_id) {
            None => false,
            Some(i) => {
                proof {
                    self.lemma_slot(i as int);
                }
                str_eq(self.slots[i].client_id.as_str(), client_id)
            },
        }
    }

    /// The client holding `owner_id`'s slot.
    pub fn active(&self, owner_id: &str) -> (r: Option<Arc<C>>)
        requires
            self.wf(),
        ensures
            r is Some == self@.contains_key(owner_id@),
            r matches Some(c) ==> c == self.holders()[owner_id@],
    {
        match self.find(owner_id) {
            None => None,
            Some(i) => {
                proof {
                    self.lemma_slot(i as int);
                }
                Some(Arc::clone(&self.slots[i].client))
            },
        }
    }

    /// How many owners have an active client.
    pub fn len(&self) -> (r: usize)
        requires
            self.wf(),
        ensures
            r == self@.len(),
    {
        proof {
            self.lemma_len();
        }
        self.slots.len()
    }

    /// Whether no owner has an active client.
    pub fn is_empty(&self) -> (r: bool)
        requires
            self.wf(),
        ensures
            r == (self@.len() == 0),
    {
        proof {
            self.lemma_len();
        }
        self.slots.len() == 0
    }

    /// The table is finite, so its length counts its owners, and an owner
    /// has a holder exactly when it has a holder's id.
    pub proof fn lemma_finite(&self)
        requires
            self.wf(),
        ensures
            self@.dom().finite(),
            self.holders().dom() == self@.dom(),
    {
        self.lemma_len();
        assert(self.holders().dom() =~= self@.dom());
    }

    proof fn lemma_len(&self)
        requires
            self.wf(),
        ensures
            self@.dom().finite(),
            self@.len() == self.slots@.len(),
    {
        let owners = self.owners();
        assert forall|i: int, j: int| 0 <= i < j < owners.len() implies owners[i] != owners[j] by {
            assert(owners[i] == self.slots@[i].owner@);
            assert(owners[j] == self.slots@[j].owner@);
        }
        assert(owners.no_duplicates());
        owners.unique_seq_to_set();
        assert forall|o: Seq<char>| #[trigger] self@.dom().contains(o) == owners.to_set().contains(o) by {
            if self@.dom().contains(o) {
                let j = choose|j: int|
                    0 <= j < self.slots@.len() && self.slots@[j].owner@ == o;
                assert(owners[j] == o);
            }
            if owners.to_set().contains(o) {
                let j = choose|j: int| 0 <= j < owners.len() && owners[j] == o;
                assert(self.slots@[j].owner@ == o);
            }
        }
        assert(self@.dom() =~= owners.to_set());
    }
}

/// What a client declared it can do with audio.
#[derive(Clone, Copy, Debug, Default, PartialEq, Eq)]
pub struct DeclaredCapabilities {
    /// The legacy single flag, used only when the explicit pair is absent.
    pub voice_enabled: bool,
    /// Explicit capture capability, when the client stated one.
    pub input_enabled: Option<bool>,
    /// Explicit playback capability, when the client stated one.
    pub output_enabled: Option<bool>,
    /// A client that will never play audio.
    pub text_only: bool,
}

/// What the Gateway concluded.
#[derive(Clone, Copy, Debug, Default, PartialEq, Eq)]
pub struct VoiceCapabilities {
    /// May capture.
    pub input_enabled: bool,
    /// May play.
    pub output_enabled: bool,
    /// Competes for the per-owner voice slot.
    pub participates_in_voice_arbitration: bool,
}

/// The capabilities a declaration resolves to.
pub open spec fn voice_capabilities_spec(declared: DeclaredCapabilities) -> VoiceCapabilities {
    let output = match declared.output_enabled {
        Some(e) => e,
        None => declared.voice_enabled,
    };
    VoiceCapabilities {
        input_enabled: match declared.input_enabled {
            Some(e) => e && !declared.text_only,
            None => output && !declared.text_only,
        },
        output_enabled: output,
        participates_in_voice_arbitration: output && !declared.text_only,
    }
}

/// Resolve a client's declaration: output defaults to the legacy flag;
/// input defaults to output and not text-only; `text_only` vetoes input and
/// arbitration but not output.
pub fn client_voice_capabilities(declared: DeclaredCapabilities) -> (r: VoiceCapabilities)
    ensures
        r == voice_capabilities_spec(declared),
{
    let can_output = match declared.output_enabled {
        Some(e) => e,
        None => declared.voice_enabled,
    };
    let can_input = match declared.input_enabled {
        Some(enabled) => enabled && !declared.text_only,
        None => can_output && !declared.text_only,
    };
    VoiceCapabilities {
        input_enabled: can_input,
        output_enabled: can_output,
        participates_in_voice_arbitration: can_output && !declared.text_only,
    }
}

/// A text-only client never captures and never competes for the voice slot,
/// whatever else it declared; what it may play is decided as for any other
/// client.
pub proof fn lemma_text_only_never_captures(declared: DeclaredCapabilities)
    requires
        declared.text_only,
    ensures
        !voice_capabilities_spec(declared).input_enabled,
        !voice_capabilities_spec(declared).participates_in_voice_arbitration,
        voice_capabilities_spec(declared).output_enabled == voice_capabilities_spec(
            DeclaredCapabilities { text_only: false, ..declared },
        ).output_enabled,
{
}

} // verus!
