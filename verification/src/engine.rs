//! The chat engine's decisions: how each command from the user interface
//! changes the engine's state, and what the engine must then do.
use vstd::prelude::*;

use crate::chat::{key_text_is_32_both, next_ctr, ChatKeys, ChatKeysError, ChatPublisher};
use crate::wire::{spec_sealed_wire, spec_sealing_header};
use vstd::utf8::encode_utf8;
use crate::crypto::AEAD_MAX_MESSAGE_LEN;
use crate::error::MoqSecureError;
use crate::legacy_chat::string_views;
use crate::text::{spec_trim, str_eq};
use crate::key_store::spec_key_text_bytes;
use crate::util::{ensure_tracking_name, SubscriptionParams};

verus! {

/// A command from the user interface.
pub enum EngineCmd {
    SetRelay { relay: String },
    SetBroadcast { broadcast: String },
    SetPublishTrack { track: String },
    SetPublishKeys { key_id: u8, aead_key: String, signing_private_seed_or_bytes: String },
    Publish { text: String },
    AddSubscription { params: SubscriptionParams },
    RemoveSubscription { track: String },
    Shutdown,
}

/// What the engine must do after a command.
pub enum EngineAction {
    Nothing,
    /// Set up a publisher for the current track with the stored keys.
    BuildPublisher,
    /// Publish these frame bytes on the current track.
    SendFrame(Vec<u8>),
    /// Start a subscriber task for these parameters.
    SpawnSubscriber(SubscriptionParams),
    /// Stop the subscriber task of this track.
    AbortSubscriber(String),
    /// Stop these subscriber tasks, acknowledge, and stop the engine.
    Shutdown(Vec<String>),
    /// The publish keys could not be built: the engine stops with this error.
    Fatal(ChatKeysError),
    /// Sealing a message failed.
    SendFailed(MoqSecureError),
}

/// The engine's state.
pub struct EngineState {
    pub relay_url: Option<String>,
    pub broadcast_name: String,
    pub publish_track: String,
    pub publisher_keys: Option<ChatKeys>,
    pub publisher: Option<ChatPublisher>,
    /// Tracks with a running subscriber task, each once.
    pub subscriptions: Vec<String>,
}

/// The wire bytes `p` sends for `text`: its UTF-8 bytes sealed at the
/// publisher's counter (see `ChatPublisher::seal_message`).
pub open spec fn spec_publish_wire(p: ChatPublisher, text: Seq<char>) -> Seq<u8> {
    spec_sealed_wire(
        p.keys.aead_key@,
        p.keys.signing_private@,
        spec_sealing_header(p.keys.key_id, p.ctr, p.n_signed, true, 1, 0),
        encode_utf8(text),
    )
}

/// The publisher after sealing one message: its counter has advanced.
pub open spec fn spec_advanced(p: ChatPublisher) -> ChatPublisher {
    ChatPublisher { keys: p.keys, n_signed: p.n_signed, ctr: next_ctr(p.ctr) }
}

/// Appending a track that is not there keeps every track once.
proof fn lemma_push_keeps_unique(s: Seq<Seq<char>>, t: Seq<char>)
    requires
        s.no_duplicates(),
        !s.contains(t),
    ensures
        s.push(t).no_duplicates(),
{
    let r = s.push(t);
    assert forall|i: int, j: int| 0 <= i < r.len() && 0 <= j < r.len() && i != j implies r[i]
        != r[j] by {
        if i == s.len() {
            assert(r[j] == s[j]);
        } else if j == s.len() {
            assert(r[i] == s[i]);
        } else {
            assert(r[i] == s[i] && r[j] == s[j]);
        }
    }
}

/// Removing an entry keeps every track once.
proof fn lemma_remove_keeps_unique(s: Seq<Seq<char>>, k: int)
    requires
        s.no_duplicates(),
        0 <= k < s.len(),
    ensures
        s.remove(k).no_duplicates(),
{
    let r = s.remove(k);
    assert forall|i: int, j: int| 0 <= i < r.len() && 0 <= j < r.len() && i != j implies r[i]
        != r[j] by {
        let si = if i < k { i } else { i + 1 };
        let sj = if j < k { j } else { j + 1 };
        assert(r[i] == s[si] && r[j] == s[sj]);
    }
}

/// The two states agree on everything but the subscriptions.
pub open spec fn same_settings(a: EngineState, b: EngineState) -> bool {
    &&& a.relay_url == b.relay_url
    &&& a.broadcast_name == b.broadcast_name
    &&& a.publish_track == b.publish_track
    &&& a.publisher_keys == b.publisher_keys
    &&& a.publisher == b.publisher
}

/// Whether a track is among the subscriptions.
pub open spec fn spec_subscribed(subs: Seq<String>, track: Seq<char>) -> bool {
    string_views(subs).contains(track)
}

impl EngineState {
    /// Each track has at most one subscriber task.
    pub open spec fn wf(&self) -> bool {
        string_views(self.subscriptions@).no_duplicates()
    }

    /// No relay, broadcast `broadcast`, track `track`, no keys, no
    /// subscriptions.
    pub fn new() -> (r: Self)
        ensures
            r.relay_url is None,
            r.broadcast_name@ == "broadcast"@,
            r.publish_track@ == "track"@,
            r.publisher_keys is None,
            r.publisher is None,
            r.subscriptions@.len() == 0,
            r.wf(),
    {
        EngineState {
            relay_url: None,
            broadcast_name: String::from_str("broadcast"),
            publish_track: String::from_str("track"),
            publisher_keys: None,
            publisher: None,
            subscriptions: Vec::new(),
        }
    }

    /// Whether `track` has a running subscriber task, and where.
    fn find_subscription(&self, track: &str) -> (r: Option<usize>)
        ensures
            match r {
                Some(i) => i < self.subscriptions@.len() && self.subscriptions@[i as int]@ == track@
                    && spec_subscribed(self.subscriptions@, track@),
                None => !spec_subscribed(self.subscriptions@, track@),
            },
    {
        let mut i: usize = 0;
        while i < self.subscriptions.len()
            invariant
                i <= self.subscriptions@.len(),
                forall|j: int| 0 <= j < i ==> self.subscriptions@[j]@ != track@,
            decreases self.subscriptions@.len() - i,
        {
            if str_eq(self.subscriptions[i].as_str(), track) {
                assert(string_views(self.subscriptions@)[i as int] == track@);
                return Some(i);
            }
            i = i + 1;
        }
        assert(!string_views(self.subscriptions@).contains(track@)) by {
            if string_views(self.subscriptions@).contains(track@) {
                let k = choose|k: int|
                    0 <= k < string_views(self.subscriptions@).len() && string_views(
                        self.subscriptions@,
                    )[k] == track@;
                assert(self.subscriptions@[k]@ == track@);
            }
        }
        None
    }

    /// Seals `text` with the current publisher, if there is one.
    fn publish(&mut self, text: &str) -> (r: EngineAction)
        requires
            encode_utf8(text@).len() < AEAD_MAX_MESSAGE_LEN,
        ensures
            final(self).relay_url == old(self).relay_url,
            final(self).broadcast_name == old(self).broadcast_name,
            final(self).publish_track == old(self).publish_track,
            final(self).publisher_keys == old(self).publisher_keys,
            final(self).subscriptions == old(self).subscriptions,
            match old(self).publisher {
                None => r is Nothing && final(self).publisher is None,
                Some(p) => r matches EngineAction::SendFrame(b) && b@ == spec_publish_wire(p, text@)
                    && final(self).publisher == Some(spec_advanced(p)),
            },
    {
        let mut publisher = None;
        std::mem::swap(&mut publisher, &mut self.publisher);
        match publisher {
            None => EngineAction::Nothing,
            Some(mut p) => {
                let bytes = text.as_bytes();
                let r = match p.seal_message(bytes) {
                    Ok(frame) => EngineAction::SendFrame(frame),
                    Err(e) => EngineAction::SendFailed(e),
                };
                self.publisher = Some(p);
                r
            },
        }
    }

    /// Applies one command.
    pub fn handle(&mut self, cmd: EngineCmd) -> (r: EngineAction)
        requires
            cmd matches EngineCmd::Publish { text } ==> encode_utf8(text@).len() < AEAD_MAX_MESSAGE_LEN,
        ensures
            old(self).wf() ==> final(self).wf(),
            match cmd {
                EngineCmd::SetRelay { relay } => {
                    &&& r is Nothing
                    &&& final(self).relay_url == Some(relay)
                    &&& final(self).broadcast_name == old(self).broadcast_name
                    &&& final(self).publish_track == old(self).publish_track
                    &&& final(self).publisher_keys == old(self).publisher_keys
                    &&& final(self).publisher == old(self).publisher
                    &&& final(self).subscriptions == old(self).subscriptions
                },
                EngineCmd::SetBroadcast { broadcast } => {
                    &&& r is Nothing
                    &&& final(self).broadcast_name == broadcast
                    &&& final(self).relay_url == old(self).relay_url
                    &&& final(self).publish_track == old(self).publish_track
                    &&& final(self).publisher_keys == old(self).publisher_keys
                    &&& final(self).publisher == old(self).publisher
                    &&& final(self).subscriptions == old(self).subscriptions
                },
                EngineCmd::SetPublishTrack { track } => {
                    &&& final(self).publish_track@ == (if spec_trim(track@).len() == 0 {
                        "default"@
                    } else {
                        spec_trim(track@)
                    })
                    &&& (if old(self).publisher_keys is Some && old(self).relay_url is Some {
                        r is BuildPublisher
                    } else {
                        r is Nothing
                    })
                    &&& final(self).relay_url == old(self).relay_url
                    &&& final(self).broadcast_name == old(self).broadcast_name
                    &&& final(self).publisher_keys == old(self).publisher_keys
                    &&& final(self).publisher == old(self).publisher
                    &&& final(self).subscriptions == old(self).subscriptions
                },
                EngineCmd::SetPublishKeys { key_id, aead_key, signing_private_seed_or_bytes } => {
                    &&& final(self).relay_url == old(self).relay_url
                    &&& final(self).broadcast_name == old(self).broadcast_name
                    &&& final(self).publish_track == old(self).publish_track
                    &&& final(self).publisher == old(self).publisher
                    &&& final(self).subscriptions == old(self).subscriptions
                    &&& if key_text_is_32_both(aead_key@, signing_private_seed_or_bytes@) {
                        &&& final(self).publisher_keys matches Some(k) && k.key_id == key_id && Some(
                            k.aead_key@,
                        ) == spec_key_text_bytes(aead_key@) && Some(k.signing_private@)
                            == spec_key_text_bytes(signing_private_seed_or_bytes@) && k.wf()
                        &&& (if old(self).relay_url is Some {
                            r is BuildPublisher
                        } else {
                            r is Nothing
                        })
                    } else {
                        r is Fatal && final(self).publisher_keys == old(self).publisher_keys
                    }
                },
                EngineCmd::Publish { text } => {
                    &&& final(self).relay_url == old(self).relay_url
                    &&& final(self).broadcast_name == old(self).broadcast_name
                    &&& final(self).publish_track == old(self).publish_track
                    &&& final(self).publisher_keys == old(self).publisher_keys
                    &&& final(self).subscriptions == old(self).subscriptions
                    &&& match old(self).publisher {
                        None => r is Nothing && final(self).publisher is None,
                        Some(p) => r matches EngineAction::SendFrame(b) && b@ == spec_publish_wire(
                            p,
                            text@,
                        ) && final(self).publisher == Some(spec_advanced(p)),
                    }
                },
                EngineCmd::AddSubscription { params } => {
                    &&& same_settings(*old(self), *final(self))
                    &&& if old(self).relay_url is None || spec_subscribed(
                        old(self).subscriptions@,
                        params.track@,
                    ) {
                        r is Nothing && final(self).subscriptions == old(self).subscriptions
                    } else {
                        &&& r matches EngineAction::SpawnSubscriber(p) && p@ == params@
                        &&& string_views(final(self).subscriptions@) == string_views(
                            old(self).subscriptions@,
                        ).push(params.track@)
                    }
                },
                EngineCmd::RemoveSubscription { track } => {
                    &&& same_settings(*old(self), *final(self))
                    &&& !spec_subscribed(old(self).subscriptions@, track@) ==> r is Nothing
                        && final(self).subscriptions == old(self).subscriptions
                    &&& spec_subscribed(old(self).subscriptions@, track@) ==> (
                    r matches EngineAction::AbortSubscriber(t) && t@ == track@ && exists|i: int|
                        0 <= i < old(self).subscriptions@.len() && old(self).subscriptions@[i]@
                            == track@ && final(self).subscriptions@ == old(self).subscriptions@.remove(
                            i,
                        ))
                },
                EngineCmd::Shutdown => {
                    &&& same_settings(*old(self), *final(self))
                    &&& r matches EngineAction::Shutdown(all) && string_views(all@) == string_views(
                        old(self).subscriptions@,
                    )
                    &&& final(self).subscriptions@.len() == 0
                },
            },
    {
        match cmd {
            EngineCmd::SetRelay { relay } => {
                self.relay_url = Some(relay);
                EngineAction::Nothing
            },
            EngineCmd::SetBroadcast { broadcast } => {
                self.broadcast_name = broadcast;
                EngineAction::Nothing
            },
            EngineCmd::SetPublishTrack { track } => {
                self.publish_track = ensure_tracking_name(track.as_str());
                if self.publisher_keys.is_some() && self.relay_url.is_some() {
                    EngineAction::BuildPublisher
                } else {
                    EngineAction::Nothing
                }
            },
            EngineCmd::SetPublishKeys { key_id, aead_key, signing_private_seed_or_bytes } => {
                match ChatKeys::from_strings(
                    key_id,
                    aead_key.as_str(),
                    signing_private_seed_or_bytes.as_str(),
                ) {
                    Err(e) => EngineAction::Fatal(e),
                    Ok(keys) => {
                        self.publisher_keys = Some(keys);
                        if self.relay_url.is_some() {
                            EngineAction::BuildPublisher
                        } else {
                            EngineAction::Nothing
                        }
                    },
                }
            },
            EngineCmd::Publish { text } => self.publish(text.as_str()),
            EngineCmd::AddSubscription { params } => {
                if self.relay_url.is_none() {
                    return EngineAction::Nothing;
                }
                match self.find_subscription(params.track.as_str()) {
                    Some(_) => EngineAction::Nothing,
                    None => {
                        let ghost before = self.subscriptions@;
                        self.subscriptions.push(params.track.clone());
                        assert(string_views(self.subscriptions@) =~= string_views(before).push(
                            params.track@,
                        ));
                        proof {
                            if string_views(before).no_duplicates() {
                                lemma_push_keeps_unique(string_views(before), params.track@);
                            }
                        }
                        EngineAction::SpawnSubscriber(params)
                    },
                }
            },
            EngineCmd::RemoveSubscription { track } => {
                match self.find_subscription(track.as_str()) {
                    None => EngineAction::Nothing,
                    Some(i) => {
                        let ghost before = self.subscriptions@;
                        let removed = self.subscriptions.remove(i);
                        proof {
                            assert(string_views(self.subscriptions@) =~= string_views(before).remove(
                                i as int,
                            ));
                            if string_views(before).no_duplicates() {
                                lemma_remove_keeps_unique(string_views(before), i as int);
                            }
                        }
                        EngineAction::AbortSubscriber(removed)
                    },
                }
            },
            EngineCmd::Shutdown => {
                let mut all: Vec<String> = Vec::new();
                std::mem::swap(&mut self.subscriptions, &mut all);
                EngineAction::Shutdown(all)
            },
        }
    }
}

} // verus!
