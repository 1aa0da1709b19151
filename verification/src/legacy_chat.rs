//! The interactive chat shell of the earlier format: key parsing, the
//! publisher's per-line framing, and the subscriber shell's commands and
//! state.
use vstd::prelude::*;
use vstd::utf8::encode_utf8;

use crate::codec::{read_array32, zeros};
use crate::crypto::{ed25519_key_check, ed25519_public_key, spec_ed25519_key_valid, AEAD_MAX_MESSAGE_LEN};
use crate::encoding::{
    base64_standard_decode, hex_decode, hex_encode, is_hex64, looks_like_hex64, spec_base64_standard_decode,
    spec_hex_decode, spec_hex_encode,
};
use crate::error::MoqSecureError;
use crate::key_store::{is_single_key_table, single_key_table};
use crate::wire::result_bytes;
use crate::random::thread_random_bytes;
use crate::text::{
    find_str, lemma_find_first, spec_find, spec_trim, spec_trim_end, str_eq, trim_end_whitespace, trim_whitespace,
    is_whitespace, spec_is_whitespace,
};

verus! {

/// The key id the shell publishes and subscribes with.
pub const DEFAULT_KEY_ID: u8 = 0;

/// The counter of the first published frame.
pub const DEFAULT_CTR_START: u64 = 1;

/// The bytes that 32-byte key text denotes before the length check: after
/// trimming, 64 hex digits as hex, anything else as padded Base64.
pub open spec fn spec_key32_text(s: Seq<char>) -> Option<Seq<u8>> {
    let t = spec_trim(s);
    if is_hex64(t) {
        Some(spec_hex_decode(t))
    } else {
        spec_base64_standard_decode(t)
    }
}

/// Parses a 32-byte key written as 64 hex digits or as padded Base64; the
/// error names `label`.
pub fn parse_key32(s: &str, label: &str) -> (r: Result<[u8; 32], String>)
    ensures
        r is Ok <==> (spec_key32_text(s@) matches Some(b) && b.len() == 32),
        match r {
            Ok(k) => Some(k@) == spec_key32_text(s@),
            Err(m) => !is_hex64(spec_trim(s@)) && (if spec_key32_text(s@) is None {
                m@ == "decoding base64 "@ + label@
            } else {
                m@ == label@ + " base64 decoded to wrong length"@
            }),
        },
{
    let ss = trim_whitespace(s);
    if looks_like_hex64(ss) {
        let bytes = match hex_decode(ss) {
            Ok(v) => v,
            Err(_) => {
                let mut m = String::from_str("decoding hex ");
                m.append(label);
                return Err(m);
            },
        };
        if bytes.len() != 32 {
            let mut m = String::from_str(label);
            m.append(" hex decoded to wrong length");
            return Err(m);
        }
        let k = read_array32(bytes.as_slice(), 0);
        assert(k@ =~= bytes@);
        return Ok(k);
    }
    let bytes = match base64_standard_decode(ss) {
        Ok(v) => v,
        Err(_) => {
            let mut m = String::from_str("decoding base64 ");
            m.append(label);
            return Err(m);
        },
    };
    if bytes.len() != 32 {
        let mut m = String::from_str(label);
        m.append(" base64 decoded to wrong length");
        return Err(m);
    }
    let k = read_array32(bytes.as_slice(), 0);
    assert(k@ =~= bytes@);
    Ok(k)
}

/// Parses an Ed25519 signing seed (32 bytes, hex or Base64).
pub fn parse_signing_key_seed(s: &str) -> (r: Result<[u8; 32], String>)
    ensures
        r is Ok <==> (spec_key32_text(s@) matches Some(b) && b.len() == 32),
        r matches Ok(k) ==> Some(k@) == spec_key32_text(s@),
{
    parse_key32(s, "signingKey")
}

/// Parses an Ed25519 public verify key (32 bytes, hex or Base64) and
/// checks that it is a valid public key.
pub fn parse_verify_key(s: &str) -> (r: Result<[u8; 32], String>)
    ensures
        r is Ok <==> (spec_key32_text(s@) matches Some(b) && b.len() == 32
            && spec_ed25519_key_valid(b)),
        r matches Ok(k) ==> Some(k@) == spec_key32_text(s@),
{
    let pk = match parse_key32(s, "verifyKey") {
        Ok(k) => k,
        Err(m) => {
            return Err(m);
        },
    };
    match ed25519_key_check(&pk) {
        Ok(()) => Ok(pk),
        Err(m) => Err(m),
    }
}

/// 32 random bytes (thread-local generator).
pub fn gen_random_32() -> [u8; 32] {
    let b = thread_random_bytes(32);
    read_array32(b.as_slice(), 0)
}

/// A random track name: 4 random bytes as 8 lowercase hex digits.
pub fn gen_track_name_8hex() -> (r: String)
    ensures
        exists|b: Seq<u8>| b.len() == 4 && r@ == spec_hex_encode(b),
{
    let b = thread_random_bytes(4);
    hex_encode(b.as_slice())
}

/// The value between `start` and the next `end` after the first `start` in
/// `d`, unless it is blank.
pub open spec fn spec_try_candidate(d: Seq<char>, start: Seq<char>, end: Seq<char>) -> Option<
    Seq<char>,
> {
    match spec_find(d, start) {
        None => None,
        Some(i) => {
            let s = d.subrange(i + start.len(), d.len() as int);
            match spec_find(s, end) {
                None => None,
                Some(j) => {
                    let v = s.subrange(0, j);
                    if spec_trim(v).len() > 0 {
                        Some(v)
                    } else {
                        None
                    }
                },
            }
        },
    }
}

/// The first non-blank value among `track: "…"`, `track_name: "…"`,
/// `track='…'` and `track_name='…'` in the text.
pub open spec fn spec_extract_track_name(d: Seq<char>) -> Option<Seq<char>> {
    match spec_try_candidate(d, "track: \""@, "\""@) {
        Some(v) => Some(v),
        None => match spec_try_candidate(d, "track_name: \""@, "\""@) {
            Some(v) => Some(v),
            None => match spec_try_candidate(d, "track='"@, "'"@) {
                Some(v) => Some(v),
                None => spec_try_candidate(d, "track_name='"@, "'"@),
            },
        },
    }
}

fn try_candidate(d: &str, start: &str, end: &str) -> (r: Option<String>)
    ensures
        match r {
            Some(v) => spec_try_candidate(d@, start@, end@) == Some(v@),
            None => spec_try_candidate(d@, start@, end@) is None,
        },
{
    let i = match find_str(d, start) {
        Some(i) => i,
        None => {
            return None;
        },
    };
    let dn = d.unicode_len();
    let sn = start.unicode_len();
    proof {
        assert(spec_find(d@, start@) == Some(i as int));
        lemma_find_in_bounds(d@, start@, 0);
    }
    let s = d.substring_char(i + sn, dn);
    let j = match find_str(s, end) {
        Some(j) => j,
        None => {
            return None;
        },
    };
    proof {
        lemma_find_in_bounds(s@, end@, 0);
    }
    let v = s.substring_char(0, j);
    let t = trim_whitespace(v);
    if t.unicode_len() > 0 {
        Some(String::from_str(v))
    } else {
        None
    }
}

/// A position found by `spec_find_from` leaves room for the needle.
proof fn lemma_find_in_bounds(h: Seq<char>, n: Seq<char>, k: int)
    ensures
        spec_find_from_bounds(h, n, k),
    decreases h.len() + 1 - k,
{
    if k < 0 || k + n.len() > h.len() {
    } else if h.subrange(k, k + n.len()) == n {
    } else {
        lemma_find_in_bounds(h, n, k + 1);
    }
}

/// Whatever position `spec_find_from` returns is in bounds.
pub open spec fn spec_find_from_bounds(h: Seq<char>, n: Seq<char>, k: int) -> bool {
    crate::text::spec_find_from(h, n, k) matches Some(i) ==> 0 <= i && i + n.len() <= h.len()
}

/// The announced track name is read from `track: "…"`: in text where that
/// marker first occurs right after `p`, the name is everything up to the
/// next double quote, whatever follows it, as long as it is not blank.
pub proof fn law_track_name_after_marker(p: Seq<char>, v: Seq<char>, q: Seq<char>)
    requires
        forall|i: int| 0 <= i && i + 8 <= p.len() ==> #[trigger] p.subrange(i, i + 8) != "track: \""@,
        forall|i: int| 0 <= i < v.len() ==> v[i] != '"',
        spec_trim(v).len() > 0,
    ensures
        spec_extract_track_name(p + "track: \""@ + v + "\""@ + q) == Some(v),
{
    reveal_strlit("track: \"");
    reveal_strlit("\"");
    let marker = "track: \""@;
    let quote = "\""@;
    let d = p + marker + v + quote + q;
    let m = p.len() as int;
    assert(marker.len() == 8);
    assert(d.subrange(m, m + 8) =~= marker);
    assert forall|k: int| 0 <= k < m implies #[trigger] d.subrange(k, k + marker.len()) != marker by {
        if k + 8 <= m {
            assert(d.subrange(k, k + 8) =~= p.subrange(k, k + 8));
        } else {
            let j = m - k;
            assert(d.subrange(k, k + 8)[j] == d[m]);
            assert(d[m] == 't');
            assert(marker[j] != 't');
        }
    }
    lemma_find_first(d, marker, m);
    let rest = d.subrange(m + 8, d.len() as int);
    assert(rest =~= v + quote + q);
    let vl = v.len() as int;
    assert(rest.subrange(vl, vl + 1) =~= quote);
    assert forall|k: int| 0 <= k < vl implies #[trigger] rest.subrange(k, k + quote.len()) != quote by {
        assert(rest.subrange(k, k + 1)[0] == v[k]);
    }
    lemma_find_first(rest, quote, vl);
    assert(rest.subrange(0, vl) =~= v);
}

/// Heuristically extracts a track name from the debug text of an
/// announcement (see `spec_extract_track_name`).
pub fn extract_track_name_from_debug_heuristic(dbg: &str) -> (r: Option<String>)
    ensures
        match r {
            Some(v) => spec_extract_track_name(dbg@) == Some(v@),
            None => spec_extract_track_name(dbg@) is None,
        },
{
    if let Some(v) = try_candidate(dbg, "track: \"", "\"") {
        return Some(v);
    }
    if let Some(v) = try_candidate(dbg, "track_name: \"", "\"") {
        return Some(v);
    }
    if let Some(v) = try_candidate(dbg, "track='", "'") {
        return Some(v);
    }
    if let Some(v) = try_candidate(dbg, "track_name='", "'") {
        return Some(v);
    }
    None
}

/// Splitting `s[i..]` into whitespace-separated words, given the word in
/// progress `cur` and the words found so far.
pub open spec fn spec_words_from(s: Seq<char>, i: int, cur: Seq<char>, acc: Seq<Seq<char>>) -> Seq<
    Seq<char>,
>
    decreases s.len() - i,
{
    if i >= s.len() {
        if cur.len() > 0 {
            acc.push(cur)
        } else {
            acc
        }
    } else if spec_is_whitespace(s[i]) {
        spec_words_from(
            s,
            i + 1,
            Seq::empty(),
            if cur.len() > 0 {
                acc.push(cur)
            } else {
                acc
            },
        )
    } else {
        spec_words_from(s, i + 1, cur.push(s[i]), acc)
    }
}

/// The whitespace-separated words of `s` (`str::split_whitespace`).
pub open spec fn spec_words(s: Seq<char>) -> Seq<Seq<char>> {
    spec_words_from(s, 0, Seq::empty(), Seq::empty())
}

/// The texts of a list of strings.
pub open spec fn string_views(v: Seq<String>) -> Seq<Seq<char>> {
    v.map_values(|x: String| x@)
}

/// The whitespace-separated words of `s`.
pub fn split_whitespace(s: &str) -> (r: Vec<String>)
    ensures
        string_views(r@) == spec_words(s@),
{
    let n = s.unicode_len();
    let mut out: Vec<String> = Vec::new();
    let mut in_word = false;
    let mut start: usize = 0;
    let mut i: usize = 0;
    assert(string_views(out@) =~= Seq::<Seq<char>>::empty());
    while i < n
        invariant
            i <= n,
            n == s@.len(),
            start <= i,
            spec_words(s@) == spec_words_from(
                s@,
                i as int,
                if in_word {
                    s@.subrange(start as int, i as int)
                } else {
                    Seq::empty()
                },
                string_views(out@),
            ),
            in_word ==> start < i,
        decreases n - i,
    {
        let c = s.get_char(i);
        let ghost cur = if in_word {
            s@.subrange(start as int, i as int)
        } else {
            Seq::<char>::empty()
        };
        if is_whitespace(c) {
            if in_word {
                let w = String::from_str(s.substring_char(start, i));
                let ghost before = out@;
                out.push(w);
                assert(string_views(out@) =~= string_views(before).push(cur));
            }
            in_word = false;
        } else {
            if !in_word {
                start = i;
                in_word = true;
            }
            assert(s@.subrange(start as int, i + 1) =~= cur.push(c));
        }
        i = i + 1;
    }
    if in_word {
        let w = String::from_str(s.substring_char(start, n));
        let ghost before = out@;
        out.push(w);
        assert(string_views(out@) =~= string_views(before).push(s@.subrange(start as int, n as int)));
    }
    out
}

/// A command typed into the subscriber shell.
pub enum ShellCommand {
    /// A blank line.
    Empty,
    Help,
    Quit,
    /// `subscribe-announced <y|n>`
    SubscribeAnnounced(String),
    /// `sub <trackName> <verifyKey> <encryptionKey>`
    Sub(String, String, String),
    /// `submine <encryptionKey>`
    SubMine(String),
    Unknown,
}

/// The content of a `ShellCommand`.
pub ghost enum ShellCommandModel {
    Empty,
    Help,
    Quit,
    SubscribeAnnounced(Seq<char>),
    Sub(Seq<char>, Seq<char>, Seq<char>),
    SubMine(Seq<char>),
    Unknown,
}

impl View for ShellCommand {
    type V = ShellCommandModel;

    open spec fn view(&self) -> ShellCommandModel {
        match self {
            ShellCommand::Empty => ShellCommandModel::Empty,
            ShellCommand::Help => ShellCommandModel::Help,
            ShellCommand::Quit => ShellCommandModel::Quit,
            ShellCommand::SubscribeAnnounced(v) => ShellCommandModel::SubscribeAnnounced(v@),
            ShellCommand::Sub(t, k, e) => ShellCommandModel::Sub(t@, k@, e@),
            ShellCommand::SubMine(e) => ShellCommandModel::SubMine(e@),
            ShellCommand::Unknown => ShellCommandModel::Unknown,
        }
    }
}

/// The command a typed line denotes: its words after trimming, matched
/// against `help`, `quit`, `subscribe-announced v`, `sub t vk enc` and
/// `submine enc`.
pub open spec fn spec_shell_command(line: Seq<char>) -> ShellCommandModel {
    let t = spec_trim(line);
    let w = spec_words(t);
    if t.len() == 0 {
        ShellCommandModel::Empty
    } else if w.len() == 1 && w[0] == "help"@ {
        ShellCommandModel::Help
    } else if w.len() == 1 && w[0] == "quit"@ {
        ShellCommandModel::Quit
    } else if w.len() == 2 && w[0] == "subscribe-announced"@ {
        ShellCommandModel::SubscribeAnnounced(w[1])
    } else if w.len() == 4 && w[0] == "sub"@ {
        ShellCommandModel::Sub(w[1], w[2], w[3])
    } else if w.len() == 2 && w[0] == "submine"@ {
        ShellCommandModel::SubMine(w[1])
    } else {
        ShellCommandModel::Unknown
    }
}

/// Reads a typed shell line (see `spec_shell_command`).
pub fn parse_shell_command(line: &str) -> (r: ShellCommand)
    ensures
        r@ == spec_shell_command(line@),
{
    let t = trim_whitespace(line);
    if t.unicode_len() == 0 {
        return ShellCommand::Empty;
    }
    let parts = split_whitespace(t);
    let ghost w = spec_words(t@);
    assert(parts@.len() == w.len());
    assert(forall|i: int| 0 <= i < parts@.len() ==> #[trigger] parts@[i]@ == w[i]) by {
        assert forall|i: int| 0 <= i < parts@.len() implies #[trigger] parts@[i]@ == w[i] by {
            assert(string_views(parts@)[i] == parts@[i]@);
        }
    }
    if parts.len() == 1 && str_eq(parts[0].as_str(), "help") {
        return ShellCommand::Help;
    }
    if parts.len() == 1 && str_eq(parts[0].as_str(), "quit") {
        return ShellCommand::Quit;
    }
    if parts.len() == 2 && str_eq(parts[0].as_str(), "subscribe-announced") {
        return ShellCommand::SubscribeAnnounced(parts[1].clone());
    }
    if parts.len() == 4 && str_eq(parts[0].as_str(), "sub") {
        return ShellCommand::Sub(parts[1].clone(), parts[2].clone(), parts[3].clone());
    }
    if parts.len() == 2 && str_eq(parts[0].as_str(), "submine") {
        return ShellCommand::SubMine(parts[1].clone());
    }
    ShellCommand::Unknown
}

/// `y`, `Y`, `yes` or `YES`.
pub open spec fn spec_is_yes(s: Seq<char>) -> bool {
    s == "y"@ || s == "Y"@ || s == "yes"@ || s == "YES"@
}

/// Whether an answer means yes (`y`, `Y`, `yes` or `YES`).
pub fn is_yes(s: &str) -> (r: bool)
    ensures
        r == spec_is_yes(s@),
{
    str_eq(s, "y") || str_eq(s, "Y") || str_eq(s, "yes") || str_eq(s, "YES")
}

/// What the shell answers to a command.
pub enum ShellReply {
    /// A blank line: nothing to do.
    Nothing,
    Help,
    Quit,
    /// The answer for the next announcement was recorded.
    AnnounceChoiceSet(bool),
    BadVerifyKey(String),
    BadEncryptionKey(String),
    /// A subscription to this track is queued until the broadcast is online.
    QueuedManual(String),
    /// `submine` needs this shell's own signing key, which it lacks.
    SubmineNeedsSigningKey,
    /// A subscription to the local track is queued.
    QueuedSubmine(String),
    Unknown,
}

/// What the shell does after the user answered the announcement prompt.
pub enum AnnounceStep {
    /// Ask for the publisher's keys and subscribe to this track.
    PromptKeys(String),
    /// The user said yes but no track name could be extracted.
    CannotExtractName,
    /// The user said no; any queued manual subscription was dropped.
    Declined,
}

/// The subscriber shell's state: the active subscription's keys and
/// lease, the pending choices, and a queued manual subscription.
pub struct ShellState {
    pub lease_remaining: u8,
    pub active_verify_key: Option<[u8; 32]>,
    pub active_keys: [[u8; 32]; 256],
    pub pending_announce_subscribe: Option<bool>,
    pub last_announced_track_name: Option<String>,
    pub pending_manual_sub: Option<(String, [u8; 32], [u8; 32])>,
}

impl ShellState {
    /// No subscription, nothing pending, and an all-zero key table.
    pub fn new() -> (r: Self)
        ensures
            r.lease_remaining == 0,
            r.active_verify_key is None,
            r.pending_announce_subscribe is None,
            r.last_announced_track_name is None,
            r.pending_manual_sub is None,
            forall|j: int| 0 <= j < 256 ==> #[trigger] r.active_keys@[j]@ == zeros(32),
    {
        let zero = [0u8; 32];
        assert(zero@ =~= zeros(32));
        ShellState {
            lease_remaining: 0,
            active_verify_key: None,
            active_keys: [zero; 256],
            pending_announce_subscribe: None,
            last_announced_track_name: None,
            pending_manual_sub: None,
        }
    }

    /// The broadcast came online; remembers the announced track name when
    /// one could be extracted.
    pub fn on_announce_online(&mut self, announced_track: Option<String>)
        ensures
            final(self).last_announced_track_name == (match announced_track {
                Some(t) => Some(t),
                None => old(self).last_announced_track_name,
            }),
            final(self).lease_remaining == old(self).lease_remaining,
            final(self).active_verify_key == old(self).active_verify_key,
            final(self).active_keys == old(self).active_keys,
            final(self).pending_announce_subscribe == old(self).pending_announce_subscribe,
            final(self).pending_manual_sub == old(self).pending_manual_sub,
    {
        if let Some(t) = announced_track {
            self.last_announced_track_name = Some(t);
        }
    }

    /// Records the answer to "subscribe to the announced track?" and says
    /// what to do next: prompt for keys of the announced track, report that
    /// no name is known, or (on no) drop any queued manual subscription.
    pub fn answer_announce_prompt(&mut self, answer: &str) -> (r: AnnounceStep)
        ensures
            final(self).pending_announce_subscribe == Some(spec_is_yes(answer@)),
            final(self).lease_remaining == old(self).lease_remaining,
            final(self).active_verify_key == old(self).active_verify_key,
            final(self).active_keys == old(self).active_keys,
            final(self).last_announced_track_name == old(self).last_announced_track_name,
            match r {
                AnnounceStep::PromptKeys(t) => spec_is_yes(answer@)
                    && old(self).last_announced_track_name == Some(t)
                    && final(self).pending_manual_sub == old(self).pending_manual_sub,
                AnnounceStep::CannotExtractName => spec_is_yes(answer@)
                    && old(self).last_announced_track_name is None
                    && final(self).pending_manual_sub == old(self).pending_manual_sub,
                AnnounceStep::Declined => !spec_is_yes(answer@) && final(self).pending_manual_sub is None,
            },
    {
        let yes = is_yes(answer);
        self.pending_announce_subscribe = Some(yes);
        if yes {
            match &self.last_announced_track_name {
                Some(t) => AnnounceStep::PromptKeys(t.clone()),
                None => AnnounceStep::CannotExtractName,
            }
        } else {
            self.pending_manual_sub = None;
            AnnounceStep::Declined
        }
    }

    /// Starts decrypting a newly subscribed track with these keys: the
    /// encryption key is used for `DEFAULT_KEY_ID`, and the lease restarts.
    pub fn activate(&mut self, verify_key: [u8; 32], encryption_key: [u8; 32])
        ensures
            final(self).active_verify_key == Some(verify_key),
            is_single_key_table(final(self).active_keys, DEFAULT_KEY_ID, encryption_key),
            final(self).lease_remaining == 0,
            final(self).pending_announce_subscribe == old(self).pending_announce_subscribe,
            final(self).last_announced_track_name == old(self).last_announced_track_name,
            final(self).pending_manual_sub == old(self).pending_manual_sub,
    {
        self.active_verify_key = Some(verify_key);
        self.active_keys = single_key_table(DEFAULT_KEY_ID, encryption_key);
        self.lease_remaining = 0;
    }

    /// The broadcast went offline: no active subscription, no lease.
    pub fn on_announce_offline(&mut self)
        ensures
            final(self).active_verify_key is None,
            final(self).lease_remaining == 0,
            final(self).active_keys == old(self).active_keys,
            final(self).pending_announce_subscribe == old(self).pending_announce_subscribe,
            final(self).last_announced_track_name == old(self).last_announced_track_name,
            final(self).pending_manual_sub == old(self).pending_manual_sub,
    {
        self.active_verify_key = None;
        self.lease_remaining = 0;
    }

    /// Takes the queued manual subscription, if any.
    pub fn take_pending_manual_sub(&mut self) -> (r: Option<(String, [u8; 32], [u8; 32])>)
        ensures
            r == old(self).pending_manual_sub,
            final(self).pending_manual_sub is None,
            final(self).lease_remaining == old(self).lease_remaining,
            final(self).active_verify_key == old(self).active_verify_key,
            final(self).active_keys == old(self).active_keys,
            final(self).pending_announce_subscribe == old(self).pending_announce_subscribe,
            final(self).last_announced_track_name == old(self).last_announced_track_name,
    {
        let r = self.pending_manual_sub.take();
        r
    }

    /// Applies a typed command: records the announcement answer, or parses
    /// keys and queues a manual subscription (`sub`) or one to the local
    /// track with this shell's own verify key (`submine`).
    pub fn apply_command(
        &mut self,
        cmd: ShellCommand,
        my_signing_seed: Option<[u8; 32]>,
        local_track_name: &str,
    ) -> (r: ShellReply)
        ensures
            final(self).lease_remaining == old(self).lease_remaining,
            final(self).active_verify_key == old(self).active_verify_key,
            final(self).active_keys == old(self).active_keys,
            final(self).last_announced_track_name == old(self).last_announced_track_name,
            match cmd@ {
                ShellCommandModel::SubscribeAnnounced(v) => final(self).pending_announce_subscribe
                    == Some(spec_is_yes(v)) && r == ShellReply::AnnounceChoiceSet(spec_is_yes(v))
                    && final(self).pending_manual_sub == old(self).pending_manual_sub,
                ShellCommandModel::Sub(t, vk, enc) => {
                    &&& final(self).pending_announce_subscribe == old(self).pending_announce_subscribe
                    &&& match r {
                        ShellReply::BadVerifyKey(_) => !(spec_key32_text(vk) matches Some(b) && b.len()
                            == 32 && spec_ed25519_key_valid(b)) && final(self).pending_manual_sub
                            == old(self).pending_manual_sub,
                        ShellReply::BadEncryptionKey(_) => !(spec_key32_text(enc) matches Some(b)
                            && b.len() == 32) && final(self).pending_manual_sub
                            == old(self).pending_manual_sub,
                        ShellReply::QueuedManual(q) => q@ == t && (final(self).pending_manual_sub
                            matches Some((qt, qvk, qenc)) && qt@ == t && Some(qvk@)
                            == spec_key32_text(vk) && spec_ed25519_key_valid(qvk@) && Some(qenc@)
                            == spec_key32_text(enc)),
                        _ => false,
                    }
                },
                ShellCommandModel::SubMine(enc) => {
                    &&& final(self).pending_announce_subscribe == old(self).pending_announce_subscribe
                    &&& match r {
                        ShellReply::SubmineNeedsSigningKey => my_signing_seed is None
                            && final(self).pending_manual_sub == old(self).pending_manual_sub,
                        ShellReply::BadEncryptionKey(_) => my_signing_seed is Some && !(spec_key32_text(
                            enc,
                        ) matches Some(b) && b.len() == 32) && final(self).pending_manual_sub
                            == old(self).pending_manual_sub,
                        ShellReply::QueuedSubmine(q) => q@ == local_track_name@ && (my_signing_seed
                            matches Some(seed) && final(self).pending_manual_sub matches Some(
                            (qt, qvk, qenc),
                        ) && qt@ == local_track_name@ && qvk@ == crate::crypto::spec_ed25519_public_key(
                            seed@,
                        ) && Some(qenc@) == spec_key32_text(enc)),
                        _ => false,
                    }
                },
                _ => {
                    &&& final(self).pending_announce_subscribe == old(self).pending_announce_subscribe
                    &&& final(self).pending_manual_sub == old(self).pending_manual_sub
                    &&& match cmd@ {
                        ShellCommandModel::Empty => r is Nothing,
                        ShellCommandModel::Help => r is Help,
                        ShellCommandModel::Quit => r is Quit,
                        _ => r is Unknown,
                    }
                },
            },
    {
        match cmd {
            ShellCommand::Empty => ShellReply::Nothing,
            ShellCommand::Help => ShellReply::Help,
            ShellCommand::Quit => ShellReply::Quit,
            ShellCommand::Unknown => ShellReply::Unknown,
            ShellCommand::SubscribeAnnounced(v) => {
                let yes = is_yes(v.as_str());
                self.pending_announce_subscribe = Some(yes);
                ShellReply::AnnounceChoiceSet(yes)
            },
            ShellCommand::Sub(t, vk_str, enc_str) => {
                let vk = match parse_verify_key(vk_str.as_str()) {
                    Ok(v) => v,
                    Err(m) => {
                        return ShellReply::BadVerifyKey(m);
                    },
                };
                let enc = match parse_key32(enc_str.as_str(), "encryptionKey") {
                    Ok(k) => k,
                    Err(m) => {
                        return ShellReply::BadEncryptionKey(m);
                    },
                };
                let reply = ShellReply::QueuedManual(t.clone());
                self.pending_manual_sub = Some((t, vk, enc));
                reply
            },
            ShellCommand::SubMine(enc_str) => {
                let seed = match my_signing_seed {
                    Some(s) => s,
                    None => {
                        return ShellReply::SubmineNeedsSigningKey;
                    },
                };
                let vk = ed25519_public_key(&seed);
                let enc = match parse_key32(enc_str.as_str(), "encryptionKey") {
                    Ok(k) => k,
                    Err(m) => {
                        return ShellReply::BadEncryptionKey(m);
                    },
                };
                let name = String::from_str(local_track_name);
                let reply = ShellReply::QueuedSubmine(String::from_str(local_track_name));
                self.pending_manual_sub = Some((name, vk, enc));
                reply
            },
        }
    }

    /// Verifies and decrypts a frame of the active subscription (see
    /// `legacy::spec_decrypt_frame`); `None` when no subscription is
    /// active.
    pub fn open_frame(&mut self, frame_bytes: &[u8]) -> (r: Option<Result<Vec<u8>, MoqSecureError>>)
        ensures
            final(self).active_verify_key == old(self).active_verify_key,
            final(self).active_keys == old(self).active_keys,
            final(self).pending_announce_subscribe == old(self).pending_announce_subscribe,
            final(self).last_announced_track_name == old(self).last_announced_track_name,
            final(self).pending_manual_sub == old(self).pending_manual_sub,
            match old(self).active_verify_key {
                None => r is None && final(self).lease_remaining == old(self).lease_remaining,
                Some(vk) => r matches Some(res) && (
                    result_bytes(res),
                    final(self).lease_remaining,
                ) == crate::legacy::spec_decrypt_frame(
                    old(self).active_keys,
                    vk@,
                    old(self).lease_remaining,
                    frame_bytes@,
                ),
            },
    {
        match self.active_verify_key {
            None => None,
            Some(vk) => Some(
                crate::legacy::decrypt_frame(
                    &self.active_keys,
                    &vk,
                    &mut self.lease_remaining,
                    frame_bytes,
                ),
            ),
        }
    }
}

/// The shell's publisher: one frame of the earlier format per non-blank
/// typed line, signed, with an advancing counter.
pub struct LegacyPublisher {
    pub keys: [[u8; 32]; 256],
    pub signing_key: [u8; 32],
    pub ctr: u64,
    pub n_signed: u8,
}

impl LegacyPublisher {
    /// A publisher with `encryption_key` under `DEFAULT_KEY_ID`, counter
    /// `DEFAULT_CTR_START` and every frame signed.
    pub fn new(encryption_key: [u8; 32], signing_key: [u8; 32]) -> (r: Self)
        ensures
            is_single_key_table(r.keys, DEFAULT_KEY_ID, encryption_key),
            r.signing_key == signing_key,
            r.ctr == DEFAULT_CTR_START,
            r.n_signed == 1,
    {
        LegacyPublisher {
            keys: single_key_table(DEFAULT_KEY_ID, encryption_key),
            signing_key,
            ctr: DEFAULT_CTR_START,
            n_signed: 1,
        }
    }

    /// The wire bytes for a typed line (trailing whitespace removed), or
    /// `None` for a blank line; the counter advances per frame.
    pub fn frame_for_line(&mut self, line: &str) -> (r: Option<Vec<u8>>)
        requires
            encode_utf8(spec_trim_end(line@)).len() < AEAD_MAX_MESSAGE_LEN,
        ensures
            final(self).keys == old(self).keys,
            final(self).signing_key == old(self).signing_key,
            final(self).n_signed == old(self).n_signed,
            match r {
                None => spec_trim_end(line@).len() == 0 && final(self).ctr == old(self).ctr,
                Some(b) => {
                    &&& spec_trim_end(line@).len() > 0
                    &&& final(self).ctr == crate::chat::next_ctr(old(self).ctr)
                    &&& b@ == crate::legacy::spec_sealed_wire(
                        old(self).keys@[DEFAULT_KEY_ID as int]@,
                        old(self).signing_key@,
                        DEFAULT_KEY_ID,
                        old(self).ctr,
                        old(self).n_signed,
                        if old(self).n_signed != 0 {
                            1u8
                        } else {
                            0u8
                        },
                        encode_utf8(spec_trim_end(line@)),
                    )
                },
            },
    {
        let msg = trim_end_whitespace(line);
        if msg.unicode_len() == 0 {
            return None;
        }
        let bytes = msg.as_bytes();
        let ef = crate::legacy::encrypt_frame(
            &self.keys,
            &self.signing_key,
            DEFAULT_KEY_ID,
            self.ctr,
            self.n_signed,
            true,
            bytes,
        );
        self.ctr = self.ctr.wrapping_add(1);
        Some(ef.serialize())
    }
}

} // verus!
