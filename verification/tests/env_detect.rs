use anima_linux::env_detect::{
    always_on_top_value, detect, gsettings_always_on_top_key, is_gnome, is_safe_keybinding,
    names_gnome, parse_always_on_top_key, DisplayEnv,
};

#[test]
fn labels_of_each_environment() {
    assert_eq!(DisplayEnv::X11.label(), "X11 (native)");
    assert_eq!(DisplayEnv::XWaylandExplicit.label(), "XWayland (configured)");
    assert_eq!(DisplayEnv::XWaylandImplicit.label(), "XWayland (auto-detected)");
    assert_eq!(DisplayEnv::NativeWayland.label(), "Native Wayland");
    assert_eq!(DisplayEnv::Unknown.label(), "Unknown");
}

#[test]
fn labels_differ() {
    let all = [
        DisplayEnv::X11,
        DisplayEnv::XWaylandExplicit,
        DisplayEnv::XWaylandImplicit,
        DisplayEnv::NativeWayland,
        DisplayEnv::Unknown,
    ];
    for a in all.iter() {
        for b in all.iter() {
            if a != b {
                assert_ne!(a.label(), b.label());
            }
        }
    }
}

#[test]
fn hints_work_on_x11_and_xwayland_only() {
    assert!(DisplayEnv::X11.taskbar_hiding_possible());
    assert!(DisplayEnv::XWaylandExplicit.taskbar_hiding_possible());
    assert!(DisplayEnv::XWaylandImplicit.taskbar_hiding_possible());
    assert!(!DisplayEnv::NativeWayland.taskbar_hiding_possible());
    assert!(!DisplayEnv::Unknown.taskbar_hiding_possible());
    assert!(DisplayEnv::X11.is_x11_or_xwayland());
    assert!(DisplayEnv::XWaylandImplicit.is_x11_or_xwayland());
    assert!(!DisplayEnv::NativeWayland.is_x11_or_xwayland());
    assert!(!DisplayEnv::Unknown.is_x11_or_xwayland());
}

#[test]
fn detect_wayland_session_with_display_and_x11_backend() {
    assert_eq!(detect("wayland", true, true, "x11"), DisplayEnv::XWaylandExplicit);
    assert_eq!(detect("", true, true, "x11"), DisplayEnv::XWaylandExplicit);
}

#[test]
fn detect_wayland_session_with_display_without_backend() {
    assert_eq!(detect("wayland", false, true, ""), DisplayEnv::XWaylandImplicit);
    assert_eq!(detect("wayland", true, true, "wayland"), DisplayEnv::XWaylandImplicit);
}

#[test]
fn detect_pure_wayland() {
    assert_eq!(detect("wayland", true, false, "x11"), DisplayEnv::NativeWayland);
    assert_eq!(detect("", true, false, ""), DisplayEnv::NativeWayland);
}

#[test]
fn detect_x11() {
    assert_eq!(detect("x11", false, true, ""), DisplayEnv::X11);
    assert_eq!(detect("x11", false, false, ""), DisplayEnv::X11);
    assert_eq!(detect("", false, true, ""), DisplayEnv::X11);
    assert_eq!(detect("tty", false, true, "x11"), DisplayEnv::X11);
}

#[test]
fn detect_unknown() {
    assert_eq!(detect("", false, false, ""), DisplayEnv::Unknown);
    assert_eq!(detect("tty", false, false, "x11"), DisplayEnv::Unknown);
    // Matching is exact: a capitalised session type is not recognised.
    assert_eq!(detect("Wayland", false, false, ""), DisplayEnv::Unknown);
}

#[test]
fn a_display_means_hints_work() {
    for session in ["", "x11", "wayland", "tty"].iter() {
        for backend in ["", "x11", "wayland"].iter() {
            for wayland in [false, true].iter() {
                assert!(detect(session, *wayland, true, backend).taskbar_hiding_possible());
            }
        }
    }
}

#[test]
fn gnome_detection() {
    assert!(is_gnome("GNOME", false));
    assert!(is_gnome("ubuntu:GNOME", false));
    assert!(is_gnome("gnome-classic", false));
    assert!(is_gnome("KDE", true));
    assert!(!is_gnome("KDE", false));
    assert!(!is_gnome("", false));
    assert!(!is_gnome("gnom", false));
}

#[test]
fn gnome_name_match_is_on_lowercase_text() {
    assert!(names_gnome("ubuntu:gnome"));
    assert!(!names_gnome("ubuntu:GNOME"));
    assert!(!names_gnome(""));
}

#[test]
fn parse_single_keybinding() {
    assert_eq!(parse_always_on_top_key("['<Control><Super>t']\n"), Some("<Control><Super>t".to_string()));
    assert_eq!(parse_always_on_top_key("  ['<Super>a']  "), Some("<Super>a".to_string()));
}

#[test]
fn parse_empty_lists() {
    assert_eq!(parse_always_on_top_key("@as []\n"), None);
    assert_eq!(parse_always_on_top_key("[]"), None);
    assert_eq!(parse_always_on_top_key(" [] \n"), None);
    assert_eq!(parse_always_on_top_key("['']"), None);
    assert_eq!(parse_always_on_top_key(""), None);
}

#[test]
fn parse_keeps_inner_text() {
    // Only the outer brackets, white space and quotes are stripped.
    assert_eq!(parse_always_on_top_key("[' x ']"), Some(" x ".to_string()));
    assert_eq!(parse_always_on_top_key("[[ 'a' ]]"), Some("a".to_string()));
    assert_eq!(parse_always_on_top_key("['a', 'b']"), Some("a', 'b".to_string()));
}

#[test]
fn gsettings_output_decoding() {
    assert_eq!(gsettings_always_on_top_key(true, b"['<Super>t']\n"), Some("<Super>t".to_string()));
    assert_eq!(gsettings_always_on_top_key(false, b"['<Super>t']\n"), None);
    assert_eq!(gsettings_always_on_top_key(true, b"@as []\n"), None);
    // Invalid UTF-8 becomes U+FFFD and is kept.
    assert_eq!(gsettings_always_on_top_key(true, b"['a\xffb']"), Some("a\u{fffd}b".to_string()));
}

#[test]
fn keybinding_safety() {
    assert!(is_safe_keybinding("<Control><Super>t"));
    assert!(is_safe_keybinding("<Primary>F1"));
    assert!(is_safe_keybinding("a_b-c"));
    assert!(is_safe_keybinding(""));
    assert!(is_safe_keybinding("é"));
    assert!(!is_safe_keybinding("<Super>t'; rm"));
    assert!(!is_safe_keybinding("a b"));
    assert!(!is_safe_keybinding("['x']"));
    assert!(is_safe_keybinding(&"a".repeat(64)));
    assert!(!is_safe_keybinding(&"a".repeat(65)));
    // The limit is on bytes: 33 two-byte letters are 66 bytes.
    assert!(is_safe_keybinding(&"é".repeat(32)));
    assert!(!is_safe_keybinding(&"é".repeat(33)));
}

#[test]
fn setting_value_for_a_keybinding() {
    assert_eq!(always_on_top_value("<Control><Super>t"), Some("['<Control><Super>t']".to_string()));
    assert_eq!(always_on_top_value("x y"), None);
}

#[test]
fn written_keybinding_reads_back() {
    for key in ["<Control><Super>t", "<Alt>F12", "a", "é_1"].iter() {
        let value = always_on_top_value(key).unwrap();
        assert_eq!(parse_always_on_top_key(&value), Some(key.to_string()));
    }
    // As gsettings prints it, with a trailing newline.
    let value = always_on_top_value("<Super>k").unwrap();
    assert_eq!(parse_always_on_top_key(&format!("{}\n", value)), Some("<Super>k".to_string()));
    // The empty key is accepted but reads back as no keybinding.
    let value = always_on_top_value("").unwrap();
    assert_eq!(parse_always_on_top_key(&value), None);
}

#[test]
fn keybinding_never_holds_list_or_shell_syntax() {
    for key in ["a,b", "a$b", "a;b", "a'b", "a[b", "a]b", "a@b", "a b", "a\tb", "a\u{3000}b"].iter() {
        assert_eq!(always_on_top_value(key), None);
    }
}
