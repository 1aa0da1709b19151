//! Small helpers of the chat front ends: names, times, generated keys and
//! the copy-paste subscribe command.
use vstd::prelude::*;

use crate::chat::ChatKeys;
use crate::encoding::{hex_encode, spec_hex_encode};
use crate::random::{os_random_bytes, random_u8};
use crate::text::{
    digit_char, push_decimal, push_two_digits, spec_decimal, spec_trim, trim_whitespace,
};

verus! {

/// What a subscriber needs to follow one publisher's track.
#[derive(Clone, Debug)]
pub struct SubscriptionParams {
    pub track: String,
    pub publisher_key_id: u8,
    pub publisher_aead_key: String,
    pub publisher_signing_public_key: String,
}

/// A decrypted message with its track and receive time.
#[derive(Clone, Debug)]
pub struct IncomingMessage {
    pub track: String,
    pub ts: String,
    pub plaintext: String,
}

/// The content of a `SubscriptionParams`: track, key id, AEAD key text and
/// verify key text.
pub type SubscriptionParamsView = (Seq<char>, u8, Seq<char>, Seq<char>);

impl View for SubscriptionParams {
    type V = SubscriptionParamsView;

    open spec fn view(&self) -> SubscriptionParamsView {
        (
            self.track@,
            self.publisher_key_id,
            self.publisher_aead_key@,
            self.publisher_signing_public_key@,
        )
    }
}

/// The content of an `IncomingMessage`: track, time stamp and text.
pub type IncomingMessageView = (Seq<char>, Seq<char>, Seq<char>);

impl View for IncomingMessage {
    type V = IncomingMessageView;

    open spec fn view(&self) -> IncomingMessageView {
        (self.track@, self.ts@, self.plaintext@)
    }
}

/// Calls `SystemTime::now().duration_since(UNIX_EPOCH)` of std and takes
/// whole seconds (0 if the clock is before the epoch). Nothing is claimed
/// of the value: it is the time.
#[verifier::external_body]
fn now_unix_secs() -> u64 {
    std::time::SystemTime::now().duration_since(std::time::UNIX_EPOCH).unwrap_or_default().as_secs()
}

/// `hh:mm:ss` (UTC, zero padded) of a time given in seconds since the
/// epoch.
pub open spec fn spec_hhmmss(secs: u64) -> Seq<char> {
    let s = secs % 86400;
    let hh = s / 3600;
    let mm = (s % 3600) / 60;
    let ss = s % 60;
    seq![digit_char((hh / 10) as int), digit_char((hh % 10) as int), ':', digit_char(
        (mm / 10) as int,
    ), digit_char((mm % 10) as int), ':', digit_char((ss / 10) as int), digit_char(
        (ss % 10) as int,
    )]
}

/// `hh:mm:ss` (UTC) of a time in seconds since the epoch.
pub fn hhmmss_of_unix_secs(secs: u64) -> (r: String)
    ensures
        r@ == spec_hhmmss(secs),
{
    let s = secs % 86400;
    let hh = s / 3600;
    let mm = (s % 3600) / 60;
    let ss = s % 60;
    let mut out = String::new();
    push_two_digits(&mut out, hh);
    out.append(":");
    push_two_digits(&mut out, mm);
    out.append(":");
    push_two_digits(&mut out, ss);
    proof {
        reveal_strlit(":");
    }
    assert(out@ =~= spec_hhmmss(secs));
    out
}

/// The current UTC time of day as `hh:mm:ss`.
pub fn time_only_hhmmss() -> (r: String)
    ensures
        exists|secs: u64| r@ == spec_hhmmss(secs),
{
    let secs = now_unix_secs();
    hhmmss_of_unix_secs(secs)
}

/// A random byte from the operating system.
pub fn gen_u8_random() -> u8 {
    let b = os_random_bytes(1);
    b[0]
}

/// 32 random bytes written as lowercase hex (a fresh AEAD key).
pub fn gen_hex_or_b64_aead_32_bytes_hex() -> (r: String)
    ensures
        exists|b: Seq<u8>| b.len() == 32 && r@ == spec_hex_encode(b),
{
    let b = os_random_bytes(32);
    hex_encode(b.as_slice())
}

/// 32 random bytes written as lowercase hex (a fresh signing seed).
pub fn gen_hex_signing_private_seed_32() -> (r: String)
    ensures
        exists|b: Seq<u8>| b.len() == 32 && r@ == spec_hex_encode(b),
{
    let b = os_random_bytes(32);
    hex_encode(b.as_slice())
}

/// 8 random bytes written as lowercase hex (a fresh track name).
pub fn random_track_hex() -> (r: String)
    ensures
        exists|b: Seq<u8>| b.len() == 8 && r@ == spec_hex_encode(b),
{
    let b = os_random_bytes(8);
    hex_encode(b.as_slice())
}

/// A random key id (thread-local generator).
pub fn gen_key_id() -> u8 {
    random_u8()
}

/// The track name to use: the trimmed text, or `default` when that is
/// empty.
pub fn ensure_tracking_name(s: &str) -> (r: String)
    ensures
        r@ == (if spec_trim(s@).len() == 0 {
            "default"@
        } else {
            spec_trim(s@)
        }),
{
    let t = trim_whitespace(s);
    if t.unicode_len() == 0 {
        String::from_str("default")
    } else {
        String::from_str(t)
    }
}

/// `s` with every `'` written as `'\''`.
pub open spec fn spec_escape_quotes(s: Seq<char>) -> Seq<char>
    decreases s.len(),
{
    if s.len() == 0 {
        Seq::empty()
    } else {
        spec_escape_quotes(s.drop_last()) + (if s.last() == '\'' {
            seq!['\'', '\\', '\'', '\'']
        } else {
            seq![s.last()]
        })
    }
}

/// `s` single-quoted for a POSIX shell.
pub open spec fn spec_shell_escape(s: Seq<char>) -> Seq<char> {
    seq!['\''] + spec_escape_quotes(s) + seq!['\'']
}

/// Text without a single quote is quoted as it stands; a single quote
/// closes the quoting, is escaped, and reopens it.
pub proof fn law_shell_escape(s: Seq<char>, t: Seq<char>)
    ensures
        (forall|i: int| 0 <= i < s.len() ==> s[i] != '\'') ==> spec_escape_quotes(s) == s,
        spec_escape_quotes(s + t) == spec_escape_quotes(s) + spec_escape_quotes(t),
        spec_escape_quotes(seq!['\'']) == seq!['\'', '\\', '\'', '\''],
        spec_shell_escape(s) == seq!['\''] + spec_escape_quotes(s) + seq!['\''],
    decreases t.len(),
{
    lemma_escape_plain(s);
    if t.len() > 0 {
        law_shell_escape(s, t.drop_last());
        assert((s + t).drop_last() =~= s + t.drop_last());
        assert((s + t).last() == t.last());
    } else {
        assert(s + t =~= s);
        assert(spec_escape_quotes(t) =~= Seq::<char>::empty());
    }
    let one = seq!['\''];
    assert(one.drop_last() =~= Seq::<char>::empty());
    assert(spec_escape_quotes(one.drop_last()) =~= Seq::<char>::empty());
    assert(one.last() == '\'');
    assert(spec_escape_quotes(one) =~= Seq::<char>::empty() + seq!['\'', '\\', '\'', '\'']);
}

proof fn lemma_escape_plain(s: Seq<char>)
    ensures
        (forall|i: int| 0 <= i < s.len() ==> s[i] != '\'') ==> spec_escape_quotes(s) == s,
    decreases s.len(),
{
    if s.len() > 0 {
        lemma_escape_plain(s.drop_last());
        if forall|i: int| 0 <= i < s.len() ==> s[i] != '\'' {
            assert(s.last() == s[s.len() - 1]);
            assert(spec_escape_quotes(s) =~= s.drop_last().push(s.last()));
            assert(s.drop_last().push(s.last()) =~= s);
        }
    }
}

/// `s` single-quoted for a POSIX shell (`'` becomes `'\''`).
pub fn shell_escape(s: &str) -> (r: String)
    ensures
        r@ == spec_shell_escape(s@),
{
    proof {
        reveal_strlit("'");
        reveal_strlit("'\\''");
    }
    let mut out = String::from_str("'");
    let n = s.unicode_len();
    let mut i: usize = 0;
    while i < n
        invariant
            i <= n,
            n == s@.len(),
            out@ == seq!['\''] + spec_escape_quotes(s@.subrange(0, i as int)),
        decreases n - i,
    {
        let c = s.get_char(i);
        let ghost pre = s@.subrange(0, i as int);
        let ghost next = s@.subrange(0, i + 1);
        assert(next.drop_last() =~= pre);
        assert(next.last() == c);
        let ghost piece = if c == '\'' {
            seq!['\'', '\\', '\'', '\'']
        } else {
            seq![c]
        };
        assert(spec_escape_quotes(next) == spec_escape_quotes(pre) + piece);
        if c == '\'' {
            out.append("'\\''");
            proof {
                reveal_strlit("'\\''");
            }
            assert("'\\''"@ =~= piece);
        } else {
            let one = s.substring_char(i, i + 1);
            assert(one@ =~= piece);
            out.append(one);
        }
        i = i + 1;
        assert(out@ =~= seq!['\''] + spec_escape_quotes(s@.subrange(0, i as int)));
    }
    assert(s@.subrange(0, n as int) =~= s@);
    out.append("'");
    assert(out@ =~= spec_shell_escape(s@));
    out
}

/// The copy-paste command that starts a subscriber for this publisher:
/// relay, broadcast, track, key id, AEAD key and signing seed, each
/// shell-quoted, with `--tls-disable-verify` when it was given.
pub open spec fn spec_subscribe_command(
    relay: Seq<char>,
    broadcast: Seq<char>,
    tls_disable_verify: bool,
    track: Seq<char>,
    keys: ChatKeys,
) -> Seq<char> {
    "moq-secure-chat-cli --relay "@ + spec_shell_escape(relay) + " --broadcast "@
        + spec_shell_escape(broadcast) + " --track "@ + spec_shell_escape(track) + (
    if tls_disable_verify {
        " --tls-disable-verify --role subscribe --key-id "@
    } else {
        " --role subscribe --key-id "@
    }) + spec_decimal(keys.key_id as nat) + " --aead-key "@ + spec_shell_escape(
        spec_hex_encode(keys.aead_key@),
    ) + " --signing-private-seed "@ + spec_shell_escape(spec_hex_encode(keys.signing_private@))
}

/// `w` occurs in `s`.
pub open spec fn text_contains(s: Seq<char>, w: Seq<char>) -> bool {
    exists|i: int| 0 <= i && i + w.len() <= s.len() && #[trigger] s.subrange(i, i + w.len()) == w
}

/// The subscribe command always starts a subscriber (`--role subscribe`),
/// and the two variants differ only in that `--tls-disable-verify` stands
/// in front of the role when TLS verification is disabled.
pub proof fn law_subscribe_command_role(
    relay: Seq<char>,
    broadcast: Seq<char>,
    track: Seq<char>,
    keys: ChatKeys,
)
    ensures
        text_contains(spec_subscribe_command(relay, broadcast, false, track, keys), " --role subscribe --key-id "@),
        text_contains(spec_subscribe_command(relay, broadcast, true, track, keys), " --role subscribe --key-id "@),
        exists|n: int|
            0 <= n <= spec_subscribe_command(relay, broadcast, false, track, keys).len()
                && #[trigger] spec_subscribe_command(relay, broadcast, true, track, keys)
                == spec_subscribe_command(relay, broadcast, false, track, keys).subrange(0, n)
                + " --tls-disable-verify"@ + spec_subscribe_command(
                relay,
                broadcast,
                false,
                track,
                keys,
            ).subrange(n, spec_subscribe_command(relay, broadcast, false, track, keys).len() as int),
{
    reveal_strlit(" --tls-disable-verify --role subscribe --key-id ");
    reveal_strlit(" --role subscribe --key-id ");
    reveal_strlit(" --tls-disable-verify");
    let role = " --role subscribe --key-id "@;
    let flag = " --tls-disable-verify"@;
    let head = "moq-secure-chat-cli --relay "@ + spec_shell_escape(relay) + " --broadcast "@
        + spec_shell_escape(broadcast) + " --track "@ + spec_shell_escape(track);
    let tail = spec_decimal(keys.key_id as nat) + " --aead-key "@ + spec_shell_escape(
        spec_hex_encode(keys.aead_key@),
    ) + " --signing-private-seed "@ + spec_shell_escape(spec_hex_encode(keys.signing_private@));
    let off = spec_subscribe_command(relay, broadcast, false, track, keys);
    let on = spec_subscribe_command(relay, broadcast, true, track, keys);
    assert(" --tls-disable-verify --role subscribe --key-id "@ =~= flag + role);
    assert(off =~= head + role + tail);
    assert(on =~= head + flag + role + tail);
    let n = head.len() as int;
    assert(off.subrange(n, n + role.len()) =~= role);
    assert(on.subrange(n + flag.len(), n + flag.len() + role.len()) =~= role);
    assert(off.subrange(0, n) =~= head);
    assert(off.subrange(n, off.len() as int) =~= role + tail);
    assert(on =~= off.subrange(0, n) + flag + off.subrange(n, off.len() as int));
}

/// Appends `s` single-quoted.
fn push_escaped(out: &mut String, s: &str)
    ensures
        final(out)@ == old(out)@ + spec_shell_escape(s@),
{
    let e = shell_escape(s);
    out.append(e.as_str());
}

/// The copy-paste subscribe command for a publisher (see
/// `spec_subscribe_command`).
pub fn build_subscribe_command(
    relay: &str,
    broadcast: &str,
    tls_disable_verify: bool,
    track: &str,
    keys: &ChatKeys,
) -> (r: String)
    ensures
        r@ == spec_subscribe_command(relay@, broadcast@, tls_disable_verify, track@, *keys),
{
    let mut out = String::from_str("moq-secure-chat-cli --relay ");
    push_escaped(&mut out, relay);
    out.append(" --broadcast ");
    push_escaped(&mut out, broadcast);
    out.append(" --track ");
    push_escaped(&mut out, track);
    if tls_disable_verify {
        out.append(" --tls-disable-verify --role subscribe --key-id ");
    } else {
        out.append(" --role subscribe --key-id ");
    }
    push_decimal(&mut out, keys.key_id as u64);
    out.append(" --aead-key ");
    let aead_hex = keys.aead_key_hex();
    push_escaped(&mut out, aead_hex.as_str());
    out.append(" --signing-private-seed ");
    let seed_hex = keys.signing_private_hex_seed();
    push_escaped(&mut out, seed_hex.as_str());
    assert(out@ =~= spec_subscribe_command(relay@, broadcast@, tls_disable_verify, track@, *keys));
    out
}

/// The copy-paste command that starts a subscriber with the publisher's
/// public verify key: binary path, relay, broadcast, track, key id, AEAD
/// key and verify key, each shell-quoted, then `--tls-disable-verify` when
/// it was given, then `subscribe`.
pub open spec fn spec_subscriber_command(
    bin: Seq<char>,
    relay: Seq<char>,
    broadcast: Seq<char>,
    track: Seq<char>,
    keys: ChatKeys,
    tls_disable_verify: bool,
) -> Seq<char> {
    spec_shell_escape(bin) + " --relay "@ + spec_shell_escape(relay) + " --broadcast "@
        + spec_shell_escape(broadcast) + " --track "@ + spec_shell_escape(track) + " --key-id "@
        + spec_decimal(keys.key_id as nat) + " --aead-key "@ + spec_shell_escape(
        spec_hex_encode(keys.aead_key@),
    ) + " --signing-public-key "@ + spec_shell_escape(spec_hex_encode(keys.signing_verify@)) + (
    if tls_disable_verify {
        " --tls-disable-verify subscribe"@
    } else {
        " subscribe"@
    })
}

/// The copy-paste subscriber command (see `spec_subscriber_command`).
pub fn subscriber_command(
    bin: &str,
    relay: &str,
    broadcast: &str,
    track: &str,
    keys: &ChatKeys,
    tls_disable_verify: bool,
) -> (r: String)
    ensures
        r@ == spec_subscriber_command(bin@, relay@, broadcast@, track@, *keys, tls_disable_verify),
{
    let mut out = String::new();
    push_escaped(&mut out, bin);
    out.append(" --relay ");
    push_escaped(&mut out, relay);
    out.append(" --broadcast ");
    push_escaped(&mut out, broadcast);
    out.append(" --track ");
    push_escaped(&mut out, track);
    out.append(" --key-id ");
    push_decimal(&mut out, keys.key_id as u64);
    out.append(" --aead-key ");
    let aead_hex = keys.aead_key_hex();
    push_escaped(&mut out, aead_hex.as_str());
    out.append(" --signing-public-key ");
    let verify_hex = keys.signing_verify_hex();
    push_escaped(&mut out, verify_hex.as_str());
    if tls_disable_verify {
        out.append(" --tls-disable-verify subscribe");
    } else {
        out.append(" subscribe");
    }
    assert(out@ =~= spec_subscriber_command(bin@, relay@, broadcast@, track@, *keys, tls_disable_verify));
    out
}

} // verus!
