use base64::engine::general_purpose::STANDARD;
use base64::Engine;
use ed25519_dalek::SigningKey;
use moq_secure::chat::{ChatKeys, ChatPublisher, ChatSubscriber};
use moq_secure::engine::{EngineAction, EngineCmd, EngineState};
use moq_secure::legacy_chat::{
    extract_track_name_from_debug_heuristic, gen_track_name_8hex, is_yes, parse_key32,
    parse_shell_command, parse_signing_key_seed, parse_verify_key, split_whitespace,
    AnnounceStep, LegacyPublisher, ShellCommand, ShellReply, ShellState,
};
use moq_secure::util::{
    build_subscribe_command, ensure_tracking_name, gen_hex_or_b64_aead_32_bytes_hex,
    gen_hex_signing_private_seed_32, hhmmss_of_unix_secs, random_track_hex, shell_escape,
    subscriber_command, time_only_hhmmss, SubscriptionParams,
};
use moq_secure::MoqSecureError;
use moq_secure::chat::{decode_aead_key, ChatKeysError};
use moq_secure::ui_model::{derived_public_key_text, publish_text, ChatUiModel, FEED_LIMIT};
use moq_secure::util::IncomingMessage;

const ENC: [u8; 32] = [0x61; 32];
const SEED: [u8; 32] = [0x62; 32];

fn verify_key(seed: &[u8; 32]) -> [u8; 32] {
    SigningKey::from_bytes(seed).verifying_key().to_bytes()
}

#[test]
fn parse_key32_accepts_hex_and_base64() {
    assert_eq!(parse_key32(&hex::encode(ENC), "k").unwrap(), ENC);
    assert_eq!(parse_key32(&format!(" {} ", STANDARD.encode(ENC)), "k").unwrap(), ENC);
    assert_eq!(parse_signing_key_seed(&hex::encode(SEED)).unwrap(), SEED);
    assert_eq!(parse_verify_key(&hex::encode(verify_key(&SEED))).unwrap(), verify_key(&SEED));
}

#[test]
fn parse_key32_errors_name_the_key() {
    assert_eq!(parse_key32("%%%", "encryptionKey").unwrap_err(), "decoding base64 encryptionKey");
    assert_eq!(
        parse_key32(&STANDARD.encode([1u8; 10]), "encryptionKey").unwrap_err(),
        "encryptionKey base64 decoded to wrong length"
    );
    assert!(parse_verify_key("%%%").is_err());
}

#[test]
fn shell_commands_are_recognised() {
    assert!(matches!(parse_shell_command("   "), ShellCommand::Empty));
    assert!(matches!(parse_shell_command(" help "), ShellCommand::Help));
    assert!(matches!(parse_shell_command("quit"), ShellCommand::Quit));
    match parse_shell_command("subscribe-announced  y") {
        ShellCommand::SubscribeAnnounced(v) => assert_eq!(v, "y"),
        _ => panic!("expected subscribe-announced"),
    }
    match parse_shell_command("sub t1 vk enc") {
        ShellCommand::Sub(t, vk, enc) => {
            assert_eq!((t.as_str(), vk.as_str(), enc.as_str()), ("t1", "vk", "enc"))
        }
        _ => panic!("expected sub"),
    }
    match parse_shell_command("submine\tenc") {
        ShellCommand::SubMine(e) => assert_eq!(e, "enc"),
        _ => panic!("expected submine"),
    }
    assert!(matches!(parse_shell_command("sub a b"), ShellCommand::Unknown));
    assert!(matches!(parse_shell_command("help me"), ShellCommand::Unknown));
    assert_eq!(split_whitespace("  a  bb\tc \n"), vec!["a", "bb", "c"]);
}

#[test]
fn yes_answers() {
    for y in ["y", "Y", "yes", "YES"] {
        assert!(is_yes(y));
    }
    for n in ["n", "Yes", "", "yes "] {
        assert!(!is_yes(n));
    }
}

#[test]
fn track_name_heuristic() {
    assert_eq!(
        extract_track_name_from_debug_heuristic("Announce { track: \"chat\", x: 1 }"),
        Some("chat".to_string())
    );
    assert_eq!(
        extract_track_name_from_debug_heuristic("A { track_name: \"room\" }"),
        Some("room".to_string())
    );
    assert_eq!(
        extract_track_name_from_debug_heuristic("track='abc' other"),
        Some("abc".to_string())
    );
    assert_eq!(
        extract_track_name_from_debug_heuristic("track: \"  \" track_name='x1'"),
        Some("x1".to_string())
    );
    assert_eq!(extract_track_name_from_debug_heuristic("nothing here"), None);
}

#[test]
fn shell_state_announcement_flow() {
    let mut st = ShellState::new();
    assert!(matches!(st.answer_announce_prompt("y"), AnnounceStep::CannotExtractName));
    assert_eq!(st.pending_announce_subscribe, Some(true));
    st.on_announce_online(Some("abc".to_string()));
    match st.answer_announce_prompt("yes") {
        AnnounceStep::PromptKeys(t) => assert_eq!(t, "abc"),
        _ => panic!("expected prompt"),
    }
    let vk = hex::encode(verify_key(&SEED));
    let enc = hex::encode(ENC);
    let reply = st.apply_command(parse_shell_command(&format!("sub t2 {} {}", vk, enc)), None, "mine");
    assert!(matches!(reply, ShellReply::QueuedManual(ref t) if t == "t2"));
    assert!(matches!(st.answer_announce_prompt("n"), AnnounceStep::Declined));
    assert!(st.take_pending_manual_sub().is_none());
    assert_eq!(st.pending_announce_subscribe, Some(false));
}

#[test]
fn shell_state_commands() {
    let mut st = ShellState::new();
    assert!(matches!(
        st.apply_command(ShellCommand::SubscribeAnnounced("Y".to_string()), None, "l"),
        ShellReply::AnnounceChoiceSet(true)
    ));
    assert!(matches!(st.apply_command(ShellCommand::Help, None, "l"), ShellReply::Help));
    assert!(matches!(st.apply_command(ShellCommand::Quit, None, "l"), ShellReply::Quit));
    assert!(matches!(st.apply_command(ShellCommand::Empty, None, "l"), ShellReply::Nothing));
    assert!(matches!(st.apply_command(ShellCommand::Unknown, None, "l"), ShellReply::Unknown));
    assert!(matches!(
        st.apply_command(parse_shell_command("submine abc"), None, "l"),
        ShellReply::SubmineNeedsSigningKey
    ));
    match st.apply_command(parse_shell_command("submine %%%"), Some(SEED), "l") {
        ShellReply::BadEncryptionKey(m) => assert_eq!(m, "decoding base64 encryptionKey"),
        _ => panic!("expected bad key"),
    }
    match st.apply_command(parse_shell_command("sub t %%% abc"), None, "l") {
        ShellReply::BadVerifyKey(m) => assert_eq!(m, "decoding base64 verifyKey"),
        _ => panic!("expected bad verify key"),
    }
    let reply = st.apply_command(parse_shell_command(&format!("submine {}", hex::encode(ENC))), Some(SEED), "local");
    assert!(matches!(reply, ShellReply::QueuedSubmine(ref t) if t == "local"));
    let (t, vk, enc) = st.take_pending_manual_sub().unwrap();
    assert_eq!(t, "local");
    assert_eq!(vk, verify_key(&SEED));
    assert_eq!(enc, ENC);
}

#[test]
fn legacy_publisher_to_shell_round_trip() {
    let mut publisher = LegacyPublisher::new(ENC, SEED);
    assert!(publisher.frame_for_line("   \n").is_none());
    assert_eq!(publisher.ctr, 1);
    let f1 = publisher.frame_for_line("hello world  \n").unwrap();
    let f2 = publisher.frame_for_line("second").unwrap();
    assert_eq!(publisher.ctr, 3);

    let mut st = ShellState::new();
    assert!(st.open_frame(&f1).is_none());
    st.activate(verify_key(&SEED), ENC);
    assert_eq!(st.open_frame(&f1).unwrap().unwrap(), b"hello world".to_vec());
    assert_eq!(st.lease_remaining, 1);
    assert_eq!(st.open_frame(&f2).unwrap().unwrap(), b"second".to_vec());
    st.on_announce_offline();
    assert!(st.active_verify_key.is_none());
    assert!(st.open_frame(&f2).is_none());

    let mut other = ShellState::new();
    other.activate(verify_key(&[1u8; 32]), ENC);
    assert!(matches!(other.open_frame(&f1), Some(Err(MoqSecureError::InvalidSignature))));
}

#[test]
fn chat_publisher_to_subscriber_round_trip() {
    let keys = ChatKeys::from_aead_and_signing(5, ENC, SEED);
    let mut publisher = ChatPublisher::new(keys);
    let mut subscriber = ChatSubscriber::new(keys);
    let f0 = publisher.seal_message(b"first").unwrap();
    let f1 = publisher.seal_message(b"second").unwrap();
    assert_eq!(publisher.ctr, 2);
    assert_eq!(subscriber.open_message(&f0).unwrap(), b"first".to_vec());
    assert_eq!(subscriber.lease_remaining, 1);
    assert_eq!(subscriber.open_message(&f1).unwrap(), b"second".to_vec());

    let stranger = ChatKeys::from_aead_and_signing(5, ENC, [3u8; 32]);
    let mut wrong = ChatSubscriber::new(stranger);
    assert!(matches!(wrong.open_message(&f0), Err(MoqSecureError::InvalidSignature)));
    assert!(matches!(subscriber.open_message(&f0[..10]), Err(MoqSecureError::TruncatedFrame)));
}

#[test]
fn time_formatting() {
    assert_eq!(hhmmss_of_unix_secs(0), "00:00:00");
    assert_eq!(hhmmss_of_unix_secs(3600 * 13 + 60 * 5 + 9), "13:05:09");
    assert_eq!(hhmmss_of_unix_secs(86400 + 59), "00:00:59");
    let now = time_only_hhmmss();
    assert_eq!(now.len(), 8);
    assert_eq!(&now[2..3], ":");
}

#[test]
fn generated_key_text() {
    let aead = gen_hex_or_b64_aead_32_bytes_hex();
    assert_eq!(aead.len(), 64);
    assert_eq!(hex::decode(&aead).unwrap().len(), 32);
    let seed = gen_hex_signing_private_seed_32();
    assert_eq!(hex::decode(&seed).unwrap().len(), 32);
    let t = random_track_hex();
    assert_eq!(hex::decode(&t).unwrap().len(), 8);
    let t8 = gen_track_name_8hex();
    assert_eq!(t8.len(), 8);
}

#[test]
fn tracking_name_defaults() {
    assert_eq!(ensure_tracking_name("  chat  "), "chat");
    assert_eq!(ensure_tracking_name(" \t "), "default");
}

#[test]
fn shell_quoting() {
    assert_eq!(shell_escape("abc"), "'abc'");
    assert_eq!(shell_escape("it's"), "'it'\\''s'");
    assert_eq!(shell_escape(""), "''");
}

#[test]
fn copy_paste_commands() {
    let keys = ChatKeys::from_aead_and_signing(7, ENC, SEED);
    let cmd = build_subscribe_command("https://relay", "b", true, "t", &keys);
    assert_eq!(
        cmd,
        format!(
            "moq-secure-chat-cli --relay 'https://relay' --broadcast 'b' --track 't' --tls-disable-verify --role subscribe --key-id 7 --aead-key '{}' --signing-private-seed '{}'",
            hex::encode(ENC),
            hex::encode(SEED)
        )
    );
    let cmd2 = subscriber_command("/bin/x", "r", "b", "t", &keys, false);
    assert_eq!(
        cmd2,
        format!(
            "'/bin/x' --relay 'r' --broadcast 'b' --track 't' --key-id 7 --aead-key '{}' --signing-public-key '{}' subscribe",
            hex::encode(ENC),
            hex::encode(verify_key(&SEED))
        )
    );
}

fn params(track: &str) -> SubscriptionParams {
    SubscriptionParams {
        track: track.to_string(),
        publisher_key_id: 1,
        publisher_aead_key: hex::encode(ENC),
        publisher_signing_public_key: hex::encode(verify_key(&SEED)),
    }
}

#[test]
fn engine_decisions() {
    let mut e = EngineState::new();
    assert_eq!(e.broadcast_name, "broadcast");
    assert_eq!(e.publish_track, "track");
    assert!(matches!(e.handle(EngineCmd::AddSubscription { params: params("a") }), EngineAction::Nothing));
    assert!(matches!(e.handle(EngineCmd::Publish { text: "hi".to_string() }), EngineAction::Nothing));
    assert!(matches!(
        e.handle(EngineCmd::SetPublishKeys {
            key_id: 2,
            aead_key: hex::encode(ENC),
            signing_private_seed_or_bytes: hex::encode(SEED),
        }),
        EngineAction::Nothing
    ));
    assert!(matches!(
        e.handle(EngineCmd::SetRelay { relay: "https://relay".to_string() }),
        EngineAction::Nothing
    ));
    assert!(matches!(
        e.handle(EngineCmd::SetPublishTrack { track: "  ".to_string() }),
        EngineAction::BuildPublisher
    ));
    assert_eq!(e.publish_track, "default");
    assert!(matches!(
        e.handle(EngineCmd::AddSubscription { params: params("a") }),
        EngineAction::SpawnSubscriber(ref p) if p.track == "a"
    ));
    assert!(matches!(e.handle(EngineCmd::AddSubscription { params: params("a") }), EngineAction::Nothing));
    assert!(matches!(
        e.handle(EngineCmd::AddSubscription { params: params("b") }),
        EngineAction::SpawnSubscriber(_)
    ));
    assert!(matches!(
        e.handle(EngineCmd::RemoveSubscription { track: "a".to_string() }),
        EngineAction::AbortSubscriber(ref t) if t == "a"
    ));
    assert!(matches!(
        e.handle(EngineCmd::RemoveSubscription { track: "zz".to_string() }),
        EngineAction::Nothing
    ));
    assert!(matches!(
        e.handle(EngineCmd::SetPublishKeys {
            key_id: 2,
            aead_key: "%%%".to_string(),
            signing_private_seed_or_bytes: hex::encode(SEED),
        }),
        EngineAction::Fatal(_)
    ));
    match e.handle(EngineCmd::Shutdown) {
        EngineAction::Shutdown(all) => assert_eq!(all, vec!["b".to_string()]),
        _ => panic!("expected shutdown"),
    }
    assert!(e.subscriptions.is_empty());
}

#[test]
fn engine_publishes_with_a_publisher() {
    let mut e = EngineState::new();
    let keys = ChatKeys::from_aead_and_signing(4, ENC, SEED);
    e.publisher = Some(ChatPublisher::new(keys));
    match e.handle(EngineCmd::Publish { text: "msg".to_string() }) {
        EngineAction::SendFrame(bytes) => {
            let mut sub = ChatSubscriber::new(keys);
            assert_eq!(sub.open_message(&bytes).unwrap(), b"msg".to_vec());
        }
        _ => panic!("expected a frame"),
    }
    assert_eq!(e.publisher.as_ref().unwrap().ctr, 1);
}

#[test]
fn chat_keys_error_messages() {
    assert_eq!(ChatKeysError::KeyIdOutOfRange(300).message(), "key_id must be 0..=255 (got 300)");
    assert_eq!(
        ChatKeysError::AeadKeyWrongLen(16).message(),
        "aead key must be 32 bytes (decoded 16 bytes)"
    );
    assert_eq!(
        ChatKeysError::DecodeFailed("bad".to_string()).message(),
        "failed to decode key string as hex or base64: bad"
    );
}

#[test]
fn ui_model_subscriptions_replace_by_track() {
    let mut ui = ChatUiModel::new();
    assert!(ui.add_subscription("a", 1, "key", "   ").is_none());
    assert!(ui.add_subscription("a", 1, "", "vk").is_none());
    let p = ui.add_subscription("  a ", 1, "key1", "vk1").unwrap();
    assert_eq!(p.track, "a");
    assert_eq!(p.publisher_aead_key, "key1");
    ui.add_subscription(" ", 2, "key2", "vk2").unwrap();
    ui.add_subscription("a", 3, "key3", "vk3").unwrap();
    let tracks: Vec<&str> = ui.subscriptions.iter().map(|s| s.track.as_str()).collect();
    assert_eq!(tracks, vec!["default", "a"]);
    assert_eq!(ui.subscriptions[1].publisher_key_id, 3);
    assert!(ui.remove_subscription("  ").is_none());
    assert_eq!(ui.remove_subscription(" default ").unwrap(), "default");
    assert_eq!(ui.subscriptions.len(), 1);
    assert_eq!(ui.remove_subscription("zz").unwrap(), "zz");
    assert_eq!(ui.subscriptions.len(), 1);
}

#[test]
fn ui_model_feed_is_newest_first_and_limited() {
    let mut ui = ChatUiModel::new();
    assert!(ui.feed_for("a").is_empty());
    for i in 0..250 {
        ui.record_incoming(IncomingMessage {
            track: if i % 2 == 0 { "a".to_string() } else { "b".to_string() },
            ts: format!("t{i}"),
            plaintext: format!("m{i}"),
        });
    }
    let feed = ui.feed_for("b");
    assert_eq!(feed.len(), 125);
    assert_eq!(feed[0], "[t249] m249");
    assert_eq!(feed[124], "[t1] m1");
    for i in 250..450 {
        ui.record_incoming(IncomingMessage {
            track: "a".to_string(),
            ts: format!("t{i}"),
            plaintext: format!("m{i}"),
        });
    }
    let feed_a = ui.feed_for("a");
    assert_eq!(feed_a.len(), FEED_LIMIT);
    assert_eq!(feed_a[0], "[t449] m449");
    assert_eq!(feed_a[FEED_LIMIT - 1], "[t250] m250");
}

#[test]
fn ui_publish_and_derived_key() {
    assert_eq!(publish_text("  hi \n").unwrap(), "hi");
    assert!(publish_text(" \t ").is_none());
    let ok = derived_public_key_text(1, &hex::encode(ENC), &hex::encode(SEED)).unwrap();
    assert_eq!(ok, hex::encode(verify_key(&SEED)));
    let err = derived_public_key_text(1, &STANDARD.encode([0u8; 8]), &hex::encode(SEED)).unwrap_err();
    assert_eq!(err, "Publish key parse error: aead key must be 32 bytes (decoded 8 bytes)");
}

#[test]
fn aead_key_text_decoding() {
    assert_eq!(decode_aead_key(&format!(" {} ", hex::encode(ENC))).unwrap(), ENC);
    let unpadded = base64::engine::general_purpose::STANDARD_NO_PAD.encode(ENC);
    assert_eq!(decode_aead_key(&unpadded).unwrap(), ENC);
    assert!(matches!(decode_aead_key(&STANDARD.encode([1u8; 20])), Err(ChatKeysError::AeadKeyWrongLen(20))));
    assert!(matches!(decode_aead_key("%%%"), Err(ChatKeysError::DecodeFailed(_))));
}

#[test]
fn publisher_counter_wraps_and_each_frame_differs() {
    let keys = ChatKeys::from_aead_and_signing(5, ENC, SEED);
    let mut publisher = ChatPublisher::new(keys);
    publisher.ctr = u64::MAX;
    let f1 = publisher.seal_message(b"same").unwrap();
    assert_eq!(publisher.ctr, 0);
    let f2 = publisher.seal_message(b"same").unwrap();
    assert_eq!(publisher.ctr, 1);
    assert_ne!(f1, f2);
    assert_eq!(&f1[6..14], &u64::MAX.to_be_bytes());
    assert_eq!(&f2[6..14], &0u64.to_be_bytes());
}
