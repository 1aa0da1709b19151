//! The chat window's own state and what its buttons do with the text
//! fields: the subscription list (one entry per track), the received
//! messages, and the feed shown for each track.
use vstd::prelude::*;

use crate::chat::{key_text_is_32_both, ChatKeys};
use crate::crypto::spec_ed25519_public_key;
use crate::encoding::spec_hex_encode;
use crate::key_store::spec_key_text_bytes;
use crate::legacy_chat::string_views;
use crate::text::{spec_decimal, spec_trim, str_eq, trim_whitespace};
use crate::util::{
    ensure_tracking_name, IncomingMessage, IncomingMessageView, SubscriptionParams,
    SubscriptionParamsView,
};

verus! {

/// At most this many messages are shown per track.
pub const FEED_LIMIT: usize = 200;

pub open spec fn param_views(s: Seq<SubscriptionParams>) -> Seq<SubscriptionParamsView> {
    s.map_values(|p: SubscriptionParams| p@)
}

pub open spec fn message_views(s: Seq<IncomingMessage>) -> Seq<IncomingMessageView> {
    s.map_values(|m: IncomingMessage| m@)
}

/// `subs` without the entries of `track`, in order.
pub open spec fn spec_without_track(
    subs: Seq<SubscriptionParamsView>,
    track: Seq<char>,
) -> Seq<SubscriptionParamsView>
    decreases subs.len(),
{
    if subs.len() == 0 {
        Seq::empty()
    } else {
        let rest = spec_without_track(subs.drop_last(), track);
        if subs.last().0 == track {
            rest
        } else {
            rest.push(subs.last())
        }
    }
}

/// No track occurs twice.
pub open spec fn tracks_unique(subs: Seq<SubscriptionParamsView>) -> bool {
    forall|i: int, j: int| 0 <= i < j < subs.len() ==> subs[i].0 != subs[j].0
}

/// The track name typed into the subscription field, as used: trimmed, or
/// `default` when blank.
pub open spec fn spec_track_name(s: Seq<char>) -> Seq<char> {
    if spec_trim(s).len() == 0 {
        "default"@
    } else {
        spec_trim(s)
    }
}

/// One line of the feed: `[ts] text`.
pub open spec fn spec_feed_line(m: IncomingMessageView) -> Seq<char> {
    "["@ + m.1 + "] "@ + m.2
}

/// The feed of `track`: the lines of its last `limit` messages, newest
/// first.
pub open spec fn spec_recent(msgs: Seq<IncomingMessageView>, track: Seq<char>, limit: nat) -> Seq<
    Seq<char>,
>
    decreases msgs.len(),
{
    if msgs.len() == 0 || limit == 0 {
        Seq::empty()
    } else if msgs.last().0 == track {
        seq![spec_feed_line(msgs.last())] + spec_recent(msgs.drop_last(), track, (limit - 1) as nat)
    } else {
        spec_recent(msgs.drop_last(), track, limit)
    }
}

/// What is left after removing a track's entries: every entry comes from
/// `subs`, none has that track, and no track occurs twice if none did.
proof fn lemma_without_track(subs: Seq<SubscriptionParamsView>, track: Seq<char>)
    ensures
        forall|k: int|
            0 <= k < spec_without_track(subs, track).len() ==> #[trigger] spec_without_track(
                subs,
                track,
            )[k].0 != track && subs.contains(spec_without_track(subs, track)[k]),
        tracks_unique(subs) ==> tracks_unique(spec_without_track(subs, track)),
    decreases subs.len(),
{
    if subs.len() > 0 {
        let front = subs.drop_last();
        lemma_without_track(front, track);
        let rest = spec_without_track(front, track);
        assert forall|k: int| 0 <= k < rest.len() implies subs.contains(#[trigger] rest[k]) by {
            let j = choose|j: int| 0 <= j < front.len() && front[j] == rest[k];
            assert(subs[j] == rest[k]);
        }
        if subs.last().0 != track {
            let r = rest.push(subs.last());
            assert(subs[subs.len() - 1] == subs.last());
            assert forall|k: int| 0 <= k < r.len() implies #[trigger] r[k].0 != track
                && subs.contains(r[k]) by {
                if k < rest.len() {
                    assert(r[k] == rest[k]);
                }
            }
            if tracks_unique(subs) {
                assert(tracks_unique(front));
                assert forall|i: int, j: int| 0 <= i < j < r.len() implies r[i].0 != r[j].0 by {
                    if j == r.len() - 1 {
                        let x = choose|x: int| 0 <= x < front.len() && front[x] == rest[i];
                        assert(subs[x] == r[i]);
                        assert(x < subs.len() - 1);
                    } else {
                        assert(r[i] == rest[i] && r[j] == rest[j]);
                    }
                }
            }
        }
    }
}

/// Removing a track's entries keeps exactly the entries of every other
/// track, in their order: what is left is `subs` filtered by the track.
pub proof fn law_without_track_is_filter(subs: Seq<SubscriptionParamsView>, track: Seq<char>)
    ensures
        spec_without_track(subs, track) == subs.filter(|p: SubscriptionParamsView| p.0 != track),
        forall|i: int|
            0 <= i < subs.len() && subs[i].0 != track ==> #[trigger] spec_without_track(
                subs,
                track,
            ).contains(subs[i]),
        forall|k: int|
            0 <= k < spec_without_track(subs, track).len() ==> #[trigger] spec_without_track(
                subs,
                track,
            )[k].0 != track,
    decreases subs.len(),
{
    let pred = |p: SubscriptionParamsView| p.0 != track;
    reveal(Seq::filter);
    if subs.len() > 0 {
        law_without_track_is_filter(subs.drop_last(), track);
    }
    assert(spec_without_track(subs, track) == subs.filter(pred));
    assert forall|i: int| 0 <= i < subs.len() && subs[i].0 != track implies #[trigger] spec_without_track(
        subs,
        track,
    ).contains(subs[i]) by {
        subs.lemma_filter_contains(pred, i);
    }
    assert forall|k: int| 0 <= k < spec_without_track(subs, track).len() implies #[trigger] spec_without_track(
        subs,
        track,
    )[k].0 != track by {
        subs.lemma_filter_pred(pred, k);
    }
}

/// A message received on another track leaves a track's feed as it was.
pub proof fn law_feed_ignores_other_tracks(
    msgs: Seq<IncomingMessageView>,
    m: IncomingMessageView,
    track: Seq<char>,
    limit: nat,
)
    requires
        m.0 != track,
    ensures
        spec_recent(msgs.push(m), track, limit) == spec_recent(msgs, track, limit),
{
    assert(msgs.push(m).drop_last() =~= msgs);
}

/// A message received on the track comes first in its feed, ahead of the
/// earlier ones, which keep their places up to the limit.
pub proof fn law_feed_newest_first(
    msgs: Seq<IncomingMessageView>,
    m: IncomingMessageView,
    track: Seq<char>,
    limit: nat,
)
    requires
        m.0 == track,
        limit > 0,
    ensures
        spec_recent(msgs.push(m), track, limit) == seq![spec_feed_line(m)] + spec_recent(
            msgs,
            track,
            (limit - 1) as nat,
        ),
{
    assert(msgs.push(m).drop_last() =~= msgs);
}

/// `line` is the feed line of some message received on exactly `track`.
pub open spec fn is_line_of_track(
    msgs: Seq<IncomingMessageView>,
    track: Seq<char>,
    line: Seq<char>,
) -> bool {
    exists|j: int| 0 <= j < msgs.len() && msgs[j].0 == track && line == spec_feed_line(msgs[j])
}

/// The message that line `k` of a track's feed comes from.
proof fn lemma_feed_line_source(
    msgs: Seq<IncomingMessageView>,
    track: Seq<char>,
    limit: nat,
    k: int,
) -> (j: int)
    requires
        0 <= k < spec_recent(msgs, track, limit).len(),
    ensures
        0 <= j < msgs.len(),
        msgs[j].0 == track,
        spec_recent(msgs, track, limit)[k] == spec_feed_line(msgs[j]),
    decreases msgs.len(),
{
    let front = msgs.drop_last();
    if msgs.last().0 == track {
        let rest = spec_recent(front, track, (limit - 1) as nat);
        assert(spec_recent(msgs, track, limit) =~= seq![spec_feed_line(msgs.last())] + rest);
        if k == 0 {
            msgs.len() - 1
        } else {
            let j = lemma_feed_line_source(front, track, (limit - 1) as nat, k - 1);
            assert(msgs[j] == front[j]);
            j
        }
    } else {
        let j = lemma_feed_line_source(front, track, limit, k);
        assert(msgs[j] == front[j]);
        j
    }
}

/// A feed never has more lines than its limit.
proof fn lemma_feed_len(msgs: Seq<IncomingMessageView>, track: Seq<char>, limit: nat)
    ensures
        spec_recent(msgs, track, limit).len() <= limit,
    decreases msgs.len(),
{
    if msgs.len() > 0 && limit > 0 {
        if msgs.last().0 == track {
            lemma_feed_len(msgs.drop_last(), track, (limit - 1) as nat);
        } else {
            lemma_feed_len(msgs.drop_last(), track, limit);
        }
    }
}

/// Every line of a track's feed is the line of a message received on
/// exactly that track, and the feed has at most `limit` lines.
pub proof fn law_feed_lines_from_track(msgs: Seq<IncomingMessageView>, track: Seq<char>, limit: nat)
    ensures
        spec_recent(msgs, track, limit).len() <= limit,
        forall|k: int|
            0 <= k < spec_recent(msgs, track, limit).len() ==> #[trigger] is_line_of_track(
                msgs,
                track,
                spec_recent(msgs, track, limit)[k],
            ),
{
    lemma_feed_len(msgs, track, limit);
    assert forall|k: int| 0 <= k < spec_recent(msgs, track, limit).len() implies #[trigger] is_line_of_track(
        msgs,
        track,
        spec_recent(msgs, track, limit)[k],
    ) by {
        let j = lemma_feed_line_source(msgs, track, limit, k);
        assert(msgs[j].0 == track);
    }
}

/// A copy of `p` with the same content.
fn copy_params(p: &SubscriptionParams) -> (r: SubscriptionParams)
    ensures
        r@ == p@,
{
    SubscriptionParams {
        track: String::from_str(p.track.as_str()),
        publisher_key_id: p.publisher_key_id,
        publisher_aead_key: String::from_str(p.publisher_aead_key.as_str()),
        publisher_signing_public_key: String::from_str(p.publisher_signing_public_key.as_str()),
    }
}

/// The entries of `subs` whose track is not `track`, in order.
fn without_track(subs: &Vec<SubscriptionParams>, track: &str) -> (r: Vec<SubscriptionParams>)
    ensures
        param_views(r@) == spec_without_track(param_views(subs@), track@),
{
    let mut out: Vec<SubscriptionParams> = Vec::new();
    let mut i: usize = 0;
    assert(param_views(subs@.take(0)) =~= Seq::<SubscriptionParamsView>::empty());
    while i < subs.len()
        invariant
            i <= subs@.len(),
            param_views(out@) == spec_without_track(param_views(subs@.take(i as int)), track@),
        decreases subs@.len() - i,
    {
        let ghost before = out@;
        let p = &subs[i];
        assert(param_views(subs@.take(i + 1)).drop_last() =~= param_views(subs@.take(i as int)));
        assert(param_views(subs@.take(i + 1)).last() == p@);
        if !str_eq(p.track.as_str(), track) {
            out.push(copy_params(p));
            assert(param_views(out@) =~= param_views(before).push(p@));
        }
        i = i + 1;
    }
    assert(subs@.take(subs@.len() as int) =~= subs@);
    out
}

/// The chat window's subscriptions and received messages.
pub struct ChatUiModel {
    pub subscriptions: Vec<SubscriptionParams>,
    pub messages: Vec<IncomingMessage>,
}

impl ChatUiModel {
    /// No track is subscribed twice.
    pub open spec fn wf(&self) -> bool {
        tracks_unique(param_views(self.subscriptions@))
    }

    /// No subscriptions, no messages.
    pub fn new() -> (r: Self)
        ensures
            r.wf(),
            r.subscriptions@.len() == 0,
            r.messages@.len() == 0,
    {
        ChatUiModel { subscriptions: Vec::new(), messages: Vec::new() }
    }

    /// "Add subscription": when both key fields hold text, the entry for
    /// the track (trimmed, `default` when blank) replaces any earlier one
    /// and goes last; the returned parameters are sent to the engine.
    pub fn add_subscription(
        &mut self,
        sub_track: &str,
        key_id: u8,
        aead_key: &str,
        verify_key: &str,
    ) -> (r: Option<SubscriptionParams>)
        ensures
            r is Some <==> (spec_trim(verify_key@).len() > 0 && spec_trim(aead_key@).len() > 0),
            match r {
                Some(p) => {
                    &&& p@ == (spec_track_name(sub_track@), key_id, aead_key@, verify_key@)
                    &&& param_views(final(self).subscriptions@) == spec_without_track(
                        param_views(old(self).subscriptions@),
                        p@.0,
                    ).push(p@)
                },
                None => final(self).subscriptions@ == old(self).subscriptions@,
            },
            old(self).wf() ==> final(self).wf(),
            final(self).messages@ == old(self).messages@,
    {
        let v = trim_whitespace(verify_key);
        let a = trim_whitespace(aead_key);
        if v.unicode_len() == 0 || a.unicode_len() == 0 {
            return None;
        }
        let track = ensure_tracking_name(sub_track);
        let params = SubscriptionParams {
            track,
            publisher_key_id: key_id,
            publisher_aead_key: String::from_str(aead_key),
            publisher_signing_public_key: String::from_str(verify_key),
        };
        let mut kept = without_track(&self.subscriptions, params.track.as_str());
        let ghost w = param_views(kept@);
        kept.push(copy_params(&params));
        assert(param_views(kept@) =~= w.push(params@));
        proof {
            lemma_without_track(param_views(old(self).subscriptions@), params@.0);
            if tracks_unique(param_views(old(self).subscriptions@)) {
                assert forall|i: int, j: int|
                    0 <= i < j < param_views(kept@).len() implies param_views(kept@)[i].0
                    != param_views(kept@)[j].0 by {
                    if j == w.len() {
                        assert(w[i].0 != params@.0);
                    } else {
                        assert(param_views(kept@)[i] == w[i] && param_views(kept@)[j] == w[j]);
                    }
                }
            }
        }
        self.subscriptions = kept;
        Some(params)
    }

    /// "Remove subscription": when the track field holds text, the entry
    /// for the trimmed track goes; the track is sent to the engine.
    pub fn remove_subscription(&mut self, sub_track: &str) -> (r: Option<String>)
        ensures
            r is Some <==> spec_trim(sub_track@).len() > 0,
            match r {
                Some(t) => t@ == spec_trim(sub_track@) && param_views(final(self).subscriptions@)
                    == spec_without_track(param_views(old(self).subscriptions@), t@),
                None => final(self).subscriptions@ == old(self).subscriptions@,
            },
            old(self).wf() ==> final(self).wf(),
            final(self).messages@ == old(self).messages@,
    {
        let t = trim_whitespace(sub_track);
        if t.unicode_len() == 0 {
            return None;
        }
        let kept = without_track(&self.subscriptions, t);
        proof {
            lemma_without_track(param_views(old(self).subscriptions@), t@);
        }
        self.subscriptions = kept;
        Some(String::from_str(t))
    }

    /// Keeps a received message.
    pub fn record_incoming(&mut self, msg: IncomingMessage)
        ensures
            message_views(final(self).messages@) == message_views(old(self).messages@).push(msg@),
            final(self).subscriptions@ == old(self).subscriptions@,
    {
        let ghost before = self.messages@;
        self.messages.push(msg);
        assert(message_views(self.messages@) =~= message_views(before).push(msg@));
    }

    /// The feed of `track`: `[ts] text` for its last `FEED_LIMIT` messages,
    /// newest first; empty when none was received.
    pub fn feed_for(&self, track: &str) -> (r: Vec<String>)
        ensures
            string_views(r@) == spec_recent(message_views(self.messages@), track@, FEED_LIMIT as nat),
    {
        let ghost msgs = message_views(self.messages@);
        let mut out: Vec<String> = Vec::new();
        let mut i: usize = self.messages.len();
        assert(msgs.take(i as int) =~= msgs);
        assert(string_views(out@) =~= Seq::<Seq<char>>::empty());
        while i > 0 && out.len() < FEED_LIMIT
            invariant
                i <= self.messages@.len(),
                msgs == message_views(self.messages@),
                out@.len() <= FEED_LIMIT,
                spec_recent(msgs, track@, FEED_LIMIT as nat) == string_views(out@) + spec_recent(
                    msgs.take(i as int),
                    track@,
                    (FEED_LIMIT - out@.len()) as nat,
                ),
            decreases i,
        {
            let m = &self.messages[i - 1];
            let ghost prefix = msgs.take(i as int);
            assert(prefix.drop_last() =~= msgs.take(i - 1));
            assert(prefix.last() == m@);
            if str_eq(m.track.as_str(), track) {
                let ghost before = out@;
                let mut line = String::from_str("[");
                line.append(m.ts.as_str());
                line.append("] ");
                line.append(m.plaintext.as_str());
                assert(line@ == spec_feed_line(m@));
                out.push(line);
                assert(string_views(out@) =~= string_views(before).push(spec_feed_line(m@)));
                assert(string_views(out@) + spec_recent(
                    msgs.take(i - 1),
                    track@,
                    (FEED_LIMIT - out@.len()) as nat,
                ) =~= string_views(before) + spec_recent(
                    prefix,
                    track@,
                    (FEED_LIMIT - before.len()) as nat,
                ));
            }
            i = i - 1;
        }
        assert(spec_recent(msgs.take(i as int), track@, (FEED_LIMIT - out@.len()) as nat)
            =~= Seq::<Seq<char>>::empty());
        out
    }
}

/// "Send message": the trimmed text, unless it is blank.
pub fn publish_text(input: &str) -> (r: Option<String>)
    ensures
        r is Some <==> spec_trim(input@).len() > 0,
        r matches Some(t) ==> t@ == spec_trim(input@),
{
    let t = trim_whitespace(input);
    if t.unicode_len() == 0 {
        None
    } else {
        Some(String::from_str(t))
    }
}

/// The public verify key shown for the publish keys: its hex when both key
/// texts are usable, else `Publish key parse error: ` and the reason.
pub fn derived_public_key_text(key_id: u8, aead_key: &str, signing_seed: &str) -> (r: Result<
    String,
    String,
>)
    ensures
        r is Ok <==> key_text_is_32_both(aead_key@, signing_seed@),
        match r {
            Ok(h) => h@ == spec_hex_encode(
                spec_ed25519_public_key(spec_key_text_bytes(signing_seed@)->Some_0),
            ),
            Err(m) => {
                &&& m@.take(25) == "Publish key parse error: "@
                &&& (spec_key_text_bytes(aead_key@) matches Some(a) && a.len() != 32) ==> m@
                    == "Publish key parse error: "@ + "aead key must be 32 bytes (decoded "@
                    + spec_decimal(spec_key_text_bytes(aead_key@)->Some_0.len()) + " bytes)"@
            },
        },
{
    match ChatKeys::from_strings(key_id, aead_key, signing_seed) {
        Ok(keys) => Ok(keys.signing_verify_hex()),
        Err(e) => {
            let mut m = String::from_str("Publish key parse error: ");
            let text = e.message();
            m.append(text.as_str());
            proof {
                reveal_strlit("Publish key parse error: ");
                assert(m@.take(25) =~= "Publish key parse error: "@);
            }
            Err(m)
        },
    }
}

} // verus!
