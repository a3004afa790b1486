use mcml_game::game_lan::{lan_join_plan, lan_uses_v6, JoinStep, LanInterface};
use mcml_game::game_lan::{build_motd, get_motd, GameMotd, LAN_PATTERN};
use mcml_game::game_log::CompiledPattern;

#[test]
fn lan_announcements() {
    let p = CompiledPattern::compile(LAN_PATTERN).unwrap();
    let m = get_motd(&p, "[MOTD]My World[/MOTD][AD]25565[/AD]").unwrap();
    assert_eq!(m.motd, "My World");
    assert_eq!(m.ip, "25565");
    assert!(get_motd(&p, "nothing here").is_none());
    let text = build_motd(&GameMotd { motd: "A".to_string(), ip: "1".to_string() });
    assert_eq!(text, "[MOTD]A[/MOTD][AD]1[/AD]");
    let back = get_motd(&p, &text).unwrap();
    assert_eq!(back.motd, "A");
    assert_eq!(back.ip, "1");
}

#[test]
fn lan_join_plan_by_interface() {
    let ifs = vec![
        LanInterface { loopback: true, ipv6: false, index: Some(1) },
        LanInterface { loopback: false, ipv6: false, index: Some(2) },
        LanInterface { loopback: true, ipv6: true, index: Some(1) },
        LanInterface { loopback: false, ipv6: true, index: Some(3) },
    ];
    assert!(lan_uses_v6(&ifs));
    assert_eq!(lan_join_plan(&ifs), vec![JoinStep::V4(1), JoinStep::V6(3)]);
    let v4_only = vec![
        LanInterface { loopback: false, ipv6: false, index: None },
        LanInterface { loopback: true, ipv6: true, index: None },
    ];
    assert!(!lan_uses_v6(&v4_only));
    assert_eq!(lan_join_plan(&v4_only), vec![JoinStep::V4(0)]);
}
