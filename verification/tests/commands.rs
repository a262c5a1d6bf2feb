use clash_cli::api::{Config, History, ProxyItem, Traffic, TunConfig};
use clash_cli::cli::{action_label, InboundMode, PolicyMode, ProxyAction};
use clash_cli::config::{
    config_file_name, find_problem, is_config_name, is_remote, name_or_found, url_path,
    validate_config, with_yaml_suffix, ConfigProblem,
};
use clash_cli::endpoint::{delay_url, proxy_url, Endpoint, DEFAULT_API_URL};
use clash_cli::node::{
    default_index, delay_text, grade_delay, node_labels, selector_names, DelayGrade,
};
use clash_cli::roster::find_proxy;
use clash_cli::status::{
    format_speed, group_statuses, is_active, memory_label, node_delay, tun_enabled, GroupStatus,
    NodeDelay,
};
use clash_cli::stream::{first_traffic, TrafficError};
use clash_cli::system::{get_arch, get_os, SystemError};
use clash_cli::text::{bytes_contain, bytes_end_with, bytes_start_with, find_byte, find_last_byte};
use clash_cli::tun::{plan_inbound, TunEdit, TunProbe, TunSection};

fn proxy(name: &str, kind: &str, now: Option<&str>, delays: Option<Vec<u64>>) -> (String, ProxyItem) {
    (
        name.to_string(),
        ProxyItem {
            name: name.to_string(),
            proxy_type: kind.to_string(),
            all: None,
            now: now.map(|n| n.to_string()),
            history: delays.map(|ds| {
                ds.into_iter().map(|delay| History { time: String::new(), delay }).collect()
            }),
        },
    )
}

fn strings(items: &[&str]) -> Vec<String> {
    items.iter().map(|s| s.to_string()).collect()
}

#[test]
fn policy_modes_by_name() {
    assert_eq!(PolicyMode::Global.name(), "Global");
    assert_eq!(PolicyMode::Rule.name(), "Rule");
    assert_eq!(PolicyMode::Direct.name(), "Direct");
    assert_eq!(PolicyMode::Rule.to_string(), "Rule");
}

#[test]
fn service_actions() {
    assert_eq!(ProxyAction::Start.verb(), "start");
    assert_eq!(ProxyAction::Stop.verb(), "stop");
    assert_eq!(ProxyAction::Restart.verb(), "restart");
    assert_eq!(ProxyAction::Status.verb(), "status");
    assert!(ProxyAction::Start.controls_service());
    assert!(ProxyAction::Restart.controls_service());
    assert!(!ProxyAction::Status.controls_service());
    assert_eq!(action_label("start"), "启动");
    assert_eq!(action_label("stop"), "停止");
    assert_eq!(action_label("restart"), "重启");
    assert_eq!(action_label("reload"), "reload");
}

#[test]
fn release_names_of_machines() {
    assert_eq!(get_arch("x86_64"), Ok("amd64"));
    assert_eq!(get_arch("aarch64"), Ok("arm64"));
    assert_eq!(get_arch("arm"), Ok("armv7"));
    assert_eq!(get_arch("riscv64"), Err(SystemError::UnsupportedArch("riscv64".to_string())));
    assert_eq!(
        get_arch("riscv64").unwrap_err().message(),
        "Unsupported architecture: riscv64"
    );
}

#[test]
fn release_names_of_systems() {
    assert_eq!(get_os("linux"), Ok("linux"));
    assert_eq!(get_os("macos"), Ok("darwin"));
    assert_eq!(get_os("windows"), Err(SystemError::UnsupportedOs("windows".to_string())));
    assert_eq!(get_os("windows").unwrap_err().message(), "Unsupported OS: windows");
}

#[test]
fn endpoints() {
    assert_eq!(DEFAULT_API_URL, "http://127.0.0.1:9090");
    assert_eq!(Endpoint::Proxies.url(DEFAULT_API_URL), "http://127.0.0.1:9090/proxies");
    assert_eq!(Endpoint::Configs.url("b"), "b/configs");
    assert_eq!(Endpoint::Traffic.url("b"), "b/traffic");
    assert_eq!(Endpoint::Version.url("b"), "b/version");
    assert_eq!(Endpoint::Connections.url("b"), "b/connections");
    assert_eq!(Endpoint::Logs.url("b"), "b/logs?level=info");
    assert_eq!(proxy_url("b", "GLOBAL"), "b/proxies/GLOBAL");
}

#[test]
fn delay_address_encodes_the_name() {
    assert_eq!(
        delay_url("b", "node-1_a.b~c"),
        "b/proxies/node-1_a.b~c/delay?timeout=5000&url=http://www.gstatic.com/generate_204"
    );
    assert_eq!(
        delay_url("b", "香港 01/a?b"),
        "b/proxies/%E9%A6%99%E6%B8%AF%2001%2Fa%3Fb/delay?timeout=5000&url=http://www.gstatic.com/generate_204"
    );
    assert_eq!(
        delay_url("b", ""),
        "b/proxies//delay?timeout=5000&url=http://www.gstatic.com/generate_204"
    );
}

#[test]
fn first_line_of_a_chunk_is_the_reading() {
    assert_eq!(
        first_traffic(b"{\"up\":3,\"down\":4}\n{\"up\":5,\"down\":6}\n"),
        Ok(Traffic { up: 3, down: 4 })
    );
    assert_eq!(first_traffic(b"{\"up\":3,\"down\":4}"), Ok(Traffic { up: 3, down: 4 }));
    assert_eq!(first_traffic(b"\n{\"up\":3,\"down\":4}"), Err(TrafficError::Malformed));
    assert_eq!(first_traffic(b"{\"up\":3"), Err(TrafficError::Malformed));
    assert_eq!(first_traffic(b""), Err(TrafficError::NoData));
}

#[test]
fn delays_are_graded() {
    assert_eq!(grade_delay(0), DelayGrade::Good);
    assert_eq!(grade_delay(199), DelayGrade::Good);
    assert_eq!(grade_delay(200), DelayGrade::Fair);
    assert_eq!(grade_delay(499), DelayGrade::Fair);
    assert_eq!(grade_delay(500), DelayGrade::Poor);
    assert_eq!(delay_text(87), "87 ms");
}

#[test]
fn selector_groups_are_sorted() {
    let proxies = vec![
        proxy("b", "Selector", None, None),
        proxy("auto", "URLTest", None, None),
        proxy("a", "Selector", None, None),
        proxy("GLOBAL", "Selector", None, None),
        proxy("node", "Vmess", None, None),
    ];
    assert_eq!(selector_names(&proxies), strings(&["GLOBAL", "a", "b"]));
    let mut want: Vec<String> = proxies
        .iter()
        .filter(|(_, p)| p.proxy_type == "Selector")
        .map(|(n, _)| n.clone())
        .collect();
    want.sort();
    assert_eq!(selector_names(&proxies), want);
    assert!(selector_names(&vec![]).is_empty());
}

#[test]
fn node_menu_marks_the_current_node() {
    let all = strings(&["hk", "jp", "us"]);
    assert_eq!(node_labels(&all, "jp"), strings(&["hk", "jp (当前)", "us"]));
    assert_eq!(node_labels(&all, ""), all);
    assert_eq!(default_index(&all, "us"), 2);
    assert_eq!(default_index(&all, "hk"), 0);
    assert_eq!(default_index(&all, "de"), 0);
    assert_eq!(default_index(&strings(&["a", "b", "a", "b"]), "b"), 1);
    assert_eq!(default_index(&vec![], "x"), 0);
}

fn float_speed(speed: u64) -> String {
    if speed < 1024 {
        format!("{} B/s", speed)
    } else if speed < 1024 * 1024 {
        format!("{:.2} KB/s", speed as f64 / 1024.0)
    } else {
        format!("{:.2} MB/s", speed as f64 / 1024.0 / 1024.0)
    }
}

#[test]
fn overview_rates() {
    assert_eq!(format_speed(0), "0 B/s");
    assert_eq!(format_speed(1023), "1023 B/s");
    assert_eq!(format_speed(1024), "1.00 KB/s");
    assert_eq!(format_speed(1536), "1.50 KB/s");
    assert_eq!(format_speed(1100), "1.07 KB/s");
    assert_eq!(format_speed(1048576), "1.00 MB/s");
    assert_eq!(format_speed(1048576 * 5 / 2), "2.50 MB/s");
}

#[test]
fn overview_rates_agree_with_float_formatting() {
    for speed in 0..70_000u64 {
        assert_eq!(format_speed(speed), float_speed(speed));
    }
    let mut speed: u64 = 3;
    while speed < u64::MAX / 3 {
        for delta in [0u64, 1, 5, 6, 52, 53, 512, 1024, 5243, 10486, 52429] {
            assert_eq!(format_speed(speed + delta), float_speed(speed + delta));
            assert_eq!(format_speed(speed - delta.min(speed)), float_speed(speed - delta.min(speed)));
        }
        speed = speed * 2 + 1;
    }
    for speed in [u64::MAX, u64::MAX - 1023, (1 << 53) + 1, (1 << 60) + 129] {
        assert_eq!(format_speed(speed), float_speed(speed));
    }
}

#[test]
fn halves_go_to_the_even_neighbour() {
    assert_eq!(format_speed(1029), "1.00 KB/s");
    assert_eq!(format_speed(1024 + 128), "1.12 KB/s");
    assert_eq!(format_speed(1024 + 384), "1.38 KB/s");
    assert_eq!(memory_label("1280"), Some("1.2 MB".to_string()));
    assert_eq!(memory_label("1792"), Some("1.8 MB".to_string()));
}

#[test]
fn memory_in_use() {
    assert_eq!(memory_label("0"), Some("0.0 MB".to_string()));
    assert_eq!(memory_label("1024"), Some("1.0 MB".to_string()));
    assert_eq!(memory_label("52340"), Some(format!("{:.1} MB", 52340.0 / 1024.0)));
    assert_eq!(memory_label(""), None);
    assert_eq!(memory_label("12 kb"), None);
    for kb in (0..300_000u64).step_by(7) {
        assert_eq!(memory_label(&kb.to_string()), Some(format!("{:.1} MB", kb as f64 / 1024.0)));
    }
}

#[test]
fn service_state() {
    assert!(is_active("active"));
    assert!(!is_active("inactive"));
    assert!(!is_active("active\n"));
    assert!(!is_active(""));
}

#[test]
fn inbound_mode_of_a_configuration() {
    let mut config = Config { port: None, mixed_port: Some(7890), mode: "Rule".to_string(), log_level: None, tun: None };
    assert!(!tun_enabled(&config));
    config.tun = Some(TunConfig { enable: false });
    assert!(!tun_enabled(&config));
    config.tun = Some(TunConfig { enable: true });
    assert!(tun_enabled(&config));
}

#[test]
fn delay_of_a_node() {
    let (_, fast) = proxy("n", "Vmess", None, Some(vec![0, 42]));
    let (_, silent) = proxy("n", "Vmess", None, Some(vec![42, 0]));
    let (_, fresh) = proxy("n", "Vmess", None, Some(vec![]));
    let (_, bare) = proxy("n", "Vmess", None, None);
    assert_eq!(node_delay(Some(&fast)), NodeDelay::Millis(42));
    assert_eq!(node_delay(Some(&silent)), NodeDelay::NoData);
    assert_eq!(node_delay(Some(&fresh)), NodeDelay::NoData);
    assert_eq!(node_delay(Some(&bare)), NodeDelay::NoData);
    assert_eq!(node_delay(None), NodeDelay::Unknown);
}

#[test]
fn proxies_are_found_by_the_name_they_are_listed_under() {
    let proxies = vec![
        proxy("a", "Vmess", None, Some(vec![1])),
        proxy("b", "Vmess", None, Some(vec![2])),
        proxy("a", "Vmess", None, Some(vec![3])),
    ];
    assert_eq!(find_proxy(&proxies, "a"), Some(&proxies[0].1));
    assert_eq!(find_proxy(&proxies, "b"), Some(&proxies[1].1));
    assert_eq!(find_proxy(&proxies, "c"), None);
    assert_eq!(find_proxy(&vec![], "a"), None);
}

#[test]
fn overview_lists_groups_with_their_selection() {
    let proxies = vec![
        proxy("hk", "Vmess", None, Some(vec![30, 55])),
        proxy("manual", "Selector", Some("jp"), None),
        proxy("jp", "Vmess", None, Some(vec![])),
        proxy("GLOBAL", "Selector", Some("auto"), None),
        proxy("auto", "URLTest", Some("hk"), Some(vec![9])),
        proxy("empty", "Selector", None, None),
        proxy("lost", "Selector", Some("gone"), None),
    ];
    let status = |name: &str, now: &str, delay: NodeDelay| GroupStatus {
        name: name.to_string(),
        now: now.to_string(),
        delay,
    };
    assert_eq!(
        group_statuses(&proxies),
        vec![
            status("GLOBAL", "auto", NodeDelay::Millis(9)),
            status("auto", "hk", NodeDelay::Millis(55)),
            status("lost", "gone", NodeDelay::Unknown),
            status("manual", "jp", NodeDelay::NoData),
        ]
    );
}

#[test]
fn yaml_names() {
    assert_eq!(with_yaml_suffix("a".to_string()), "a.yaml");
    assert_eq!(with_yaml_suffix("a.yaml".to_string()), "a.yaml");
    assert_eq!(with_yaml_suffix("a.yml".to_string()), "a.yml");
    assert_eq!(with_yaml_suffix("a.YAML".to_string()), "a.YAML.yaml");
    assert_eq!(with_yaml_suffix("".to_string()), ".yaml");
    assert_eq!(with_yaml_suffix(".yml".to_string()), ".yml");
}

#[test]
fn address_without_its_query() {
    assert_eq!(url_path("https://h/p/f.yaml?token=1&flag=clash"), "https://h/p/f.yaml");
    assert_eq!(url_path("https://h/p"), "https://h/p");
    assert_eq!(url_path("?a?b"), "");
    assert_eq!(url_path("配置?x"), "配置");
    assert_eq!(url_path(""), "");
}

#[test]
fn name_of_a_new_configuration() {
    assert_eq!(config_file_name("https://h/sub?x=1", Some("work".to_string())), "work.yaml");
    assert_eq!(config_file_name("https://h/sub?x=1", Some("work.yml".to_string())), "work.yml");
    assert_eq!(config_file_name("https://h/p/f.yaml?token=1", None), "f.yaml");
    assert_eq!(config_file_name("https://h/link/abc?clash=1", None), "abc.yaml");
    assert_eq!(config_file_name("/home/me/my.yml", None), "my.yml");
    assert_eq!(config_file_name("", None), "subscription.yaml");
    assert_eq!(config_file_name("/", None), "subscription.yaml");
    assert_eq!(name_or_found(None, None), "subscription.yaml");
    assert_eq!(name_or_found(None, Some("x".to_string())), "x.yaml");
    assert_eq!(name_or_found(Some("n".to_string()), Some("x".to_string())), "n.yaml");
}

#[test]
fn where_a_configuration_comes_from() {
    assert!(is_remote("http://h/x"));
    assert!(is_remote("https://h/x"));
    assert!(!is_remote("/etc/x.yaml"));
    assert!(!is_remote("htt"));
    assert!(!is_remote(""));
}

#[test]
fn files_on_offer() {
    assert!(is_config_name("work.yaml"));
    assert!(is_config_name("work.yml"));
    assert!(is_config_name("a.b.yaml"));
    assert!(!is_config_name("config.yaml"));
    assert!(is_config_name("config.yml"));
    assert!(!is_config_name("work.yaml.bak"));
    assert!(!is_config_name("yaml"));
    assert!(!is_config_name(".yaml"));
    assert!(!is_config_name("work.YAML"));
    assert!(!is_config_name("work."));
    assert!(!is_config_name(""));
    for name in ["work.yaml", ".yaml", "..yaml", "a.", "a.b.yml", "yml", ".a.yml", "config.yaml"] {
        let ext = std::path::Path::new(name).extension();
        let want = ext.map_or(false, |e| e == "yaml" || e == "yml") && name != "config.yaml";
        assert_eq!(is_config_name(name), want);
    }
}

#[test]
fn a_configuration_is_accepted() {
    assert_eq!(validate_config("proxies:\n  - name: a\n"), Ok(()));
    assert_eq!(validate_config("proxy-providers: {}\n"), Ok(()));
    assert_eq!(validate_config("mixed-port: 7890\nmode: rule\n"), Ok(()));
    assert_eq!(validate_config("port: 7890"), Ok(()));
    assert_eq!(validate_config("{\"port\": 1}"), Ok(()));
}

#[test]
fn what_is_no_configuration_is_told_apart() {
    let word = "dm1lc3M6Ly9leUoySWpvaU1pSXNJbkJ6SWpvaTVMaXQ1WnU5SWl3aVlXUmtJam9p";
    assert_eq!(validate_config(word), Err(ConfigProblem::Base64));
    assert_eq!(validate_config(&format!("  {}\n\n", word)), Err(ConfigProblem::Base64));
    assert_eq!(validate_config("trojan://pw@host:443\nss://abc@host:1\n"), Err(ConfigProblem::NodeList));
    assert_eq!(validate_config("vmess://abc def"), Err(ConfigProblem::NodeList));
    assert_eq!(validate_config("<!DOCTYPE HTML>\n<html><body>login</body></html>"), Err(ConfigProblem::Html));
    assert_eq!(validate_config("<HTML lang=\"zh\">"), Err(ConfigProblem::Html));
    assert_eq!(validate_config("mode: rule\n"), Err(ConfigProblem::NotConfig));
    assert_eq!(validate_config("- proxies\n- port\n"), Err(ConfigProblem::NotConfig));
    assert_eq!(validate_config(""), Err(ConfigProblem::NotConfig));
    assert_eq!(validate_config("a: [1, 2"), Err(ConfigProblem::NotConfig));
    assert_eq!(
        ConfigProblem::NotConfig.message(),
        "文件不是有效的 Clash YAML 配置文件。"
    );
}

#[test]
fn problems_in_their_order() {
    let word = "x".repeat(51);
    assert_eq!(find_problem("ss://", &word, "<html"), ConfigProblem::Base64);
    assert_eq!(find_problem("ss://", &"x".repeat(50), "<html"), ConfigProblem::NodeList);
    assert_eq!(find_problem("ss://", &format!("{} y", word), "<html"), ConfigProblem::NodeList);
    assert_eq!(find_problem("s://", &format!("{}\ny", word), "<html"), ConfigProblem::Html);
    assert_eq!(find_problem("", "", "<!doctype html>"), ConfigProblem::Html);
    assert_eq!(find_problem("", "", "<htm"), ConfigProblem::NotConfig);
}

#[test]
fn byte_search() {
    assert!(bytes_contain(b"abcabd", b"abd"));
    assert!(bytes_contain(b"abc", b""));
    assert!(bytes_contain(b"", b""));
    assert!(!bytes_contain(b"", b"a"));
    assert!(!bytes_contain(b"ab", b"abc"));
    assert!(!bytes_contain(b"abcabc", b"abd"));
    assert!(bytes_end_with(b"abc", b"bc"));
    assert!(bytes_end_with(b"abc", b""));
    assert!(!bytes_end_with(b"bc", b"abc"));
    assert!(bytes_start_with(b"abc", b"ab"));
    assert!(!bytes_start_with(b"abc", b"b"));
    assert_eq!(find_byte(b"a?b?", b'?'), 1);
    assert_eq!(find_byte(b"ab", b'?'), 2);
    assert_eq!(find_last_byte(b"a.b.c", b'.'), Some(3));
    assert_eq!(find_last_byte(b"abc", b'.'), None);
}

#[test]
fn switching_the_virtual_interface_on() {
    let section = |is_mapping, has_enable| Some(TunSection { is_mapping, has_enable });
    assert_eq!(
        plan_inbound(InboundMode::Tun, TunProbe { is_mapping: true, tun: section(true, true) }),
        TunEdit::SetEnable(true)
    );
    assert_eq!(
        plan_inbound(InboundMode::Tun, TunProbe { is_mapping: true, tun: section(true, false) }),
        TunEdit::AddEnable
    );
    assert_eq!(
        plan_inbound(InboundMode::Tun, TunProbe { is_mapping: true, tun: section(false, false) }),
        TunEdit::Nothing
    );
    assert_eq!(
        plan_inbound(InboundMode::Tun, TunProbe { is_mapping: true, tun: None }),
        TunEdit::AddSection
    );
    assert_eq!(
        plan_inbound(InboundMode::Tun, TunProbe { is_mapping: false, tun: None }),
        TunEdit::Nothing
    );
}

#[test]
fn switching_the_virtual_interface_off() {
    let section = |is_mapping, has_enable| Some(TunSection { is_mapping, has_enable });
    assert_eq!(
        plan_inbound(InboundMode::Http, TunProbe { is_mapping: true, tun: section(true, true) }),
        TunEdit::SetEnable(false)
    );
    assert_eq!(
        plan_inbound(InboundMode::Http, TunProbe { is_mapping: true, tun: section(true, false) }),
        TunEdit::Nothing
    );
    assert_eq!(
        plan_inbound(InboundMode::Http, TunProbe { is_mapping: true, tun: None }),
        TunEdit::Nothing
    );
}
