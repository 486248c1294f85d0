use synkmusic_rpc::paths::{
    base_dirs, flatpak_socket_candidates, join_path, known_socket_candidates, paths_equal,
    pipe_candidates, socket_candidates, socket_name_string,
};

fn s(x: &str) -> Option<String> {
    Some(x.to_string())
}

#[test]
fn base_dirs_appends_tmp() {
    let dirs = base_dirs(&vec![s("/run/user/1000"), None, None, None]);
    assert_eq!(dirs, vec!["/run/user/1000".to_string(), "/tmp".to_string()]);
}

#[test]
fn base_dirs_skips_repeated_paths() {
    let dirs = base_dirs(&vec![s("/run/user/1000"), s("/tmp/"), s("/tmp"), s("/run/user//1000/")]);
    assert_eq!(dirs, vec!["/run/user/1000".to_string(), "/tmp/".to_string()]);
}

#[test]
fn base_dirs_with_no_environment() {
    assert_eq!(base_dirs(&vec![None, None, None, None]), vec!["/tmp".to_string()]);
}

#[test]
fn paths_equal_as_std_compares() {
    let cases = [
        ("/tmp", "/tmp/"),
        ("/tmp", "//tmp"),
        ("a/./b", "a/b"),
        ("./a", "a"),
        ("./a", "./a/"),
        (".", "./"),
        ("/.", "/"),
        ("a/../b", "b"),
        ("", "."),
        (".a", "a"),
        ("/a", "a"),
    ];
    for (a, b) in cases {
        assert_eq!(
            paths_equal(a, b),
            std::path::Path::new(a) == std::path::Path::new(b),
            "{a:?} vs {b:?}"
        );
    }
}

#[test]
fn join_path_as_std_joins() {
    let cases = [
        ("/tmp", ""),
        ("/tmp", "discord-ipc-0"),
        ("/tmp/", "discord-ipc-0"),
        ("/tmp/", ""),
        ("", "discord-ipc-0"),
        ("/tmp", "/abs"),
        ("rel", "snap.discord"),
    ];
    for (a, b) in cases {
        let joined = std::path::Path::new(a).join(b);
        assert_eq!(join_path(a, b), joined.to_str().unwrap(), "{a:?} + {b:?}");
    }
}

#[test]
fn socket_names() {
    assert_eq!(socket_name_string(0), "discord-ipc-0");
    assert_eq!(socket_name_string(9), "discord-ipc-9");
}

#[test]
fn socket_candidates_in_dir() {
    let c = socket_candidates("/run/user/1000");
    assert_eq!(c.len(), 10);
    assert_eq!(c[0], "/run/user/1000/discord-ipc-0");
    assert_eq!(c[9], "/run/user/1000/discord-ipc-9");
}

#[test]
fn known_candidates_order() {
    let c = known_socket_candidates("/tmp");
    assert_eq!(c.len(), 60);
    assert_eq!(c[0], "/tmp/discord-ipc-0");
    assert_eq!(c[10], "/tmp/app/com.discordapp.Discord/discord-ipc-0");
    assert_eq!(c[23], "/tmp/app/dev.vencord.Vesktop/discord-ipc-3");
    assert_eq!(c[39], "/tmp/app/dev.equibop.equibop/discord-ipc-9");
    assert_eq!(c[45], "/tmp/snap.discord/discord-ipc-5");
    assert_eq!(c[59], "/tmp/snap.discord-canary/discord-ipc-9");
}

#[test]
fn flatpak_candidates() {
    let c = flatpak_socket_candidates("/run/user/1000/.flatpak/com.discordapp.Discord");
    assert_eq!(c.len(), 10);
    assert_eq!(c[2], "/run/user/1000/.flatpak/com.discordapp.Discord/xdg-run/discord-ipc-2");
}

#[test]
fn windows_pipes() {
    let c = pipe_candidates();
    assert_eq!(c.len(), 10);
    assert_eq!(c[0], r"\\.\pipe\discord-ipc-0");
    assert_eq!(c[7], r"\\.\pipe\discord-ipc-7");
}
