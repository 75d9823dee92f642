use helios::identity::get_pc_host;
use helios::identity::os_display;

#[test]
fn os_linux_with_version() {
    assert_eq!(os_display(Some("Linux".to_string()), Some("6.1".to_string())), "Linux 6.1");
}

#[test]
fn os_no_name() {
    assert_eq!(os_display(None, Some("1.0".to_string())), "Unknown 1.0");
    assert_eq!(os_display(None, None), "Unknown");
}

#[test]
fn os_darwin_marketing_names() {
    assert_eq!(
        os_display(Some("Darwin".to_string()), Some("14.2".to_string())),
        "macOS 14.2 Sonoma"
    );
    assert_eq!(
        os_display(Some("Darwin".to_string()), Some("26.0".to_string())),
        "macOS 26.0 Tahoe"
    );
    assert_eq!(
        os_display(Some("Darwin".to_string()), Some("10.11.6".to_string())),
        "OS X 10.11.6 El Capitan"
    );
    assert_eq!(
        os_display(Some("Darwin".to_string()), Some("10.4".to_string())),
        "Mac OS X 10.4 Tiger"
    );
}

#[test]
fn os_darwin_prefix_order() {
    // 10.16 must match before the shorter 10.1 that would shadow it.
    assert_eq!(
        os_display(Some("Darwin".to_string()), Some("10.16.1".to_string())),
        "macOS 10.16.1 Big Sur"
    );
    assert_eq!(
        os_display(Some("Darwin".to_string()), Some("10.1.5".to_string())),
        "Mac OS X 10.1.5 Puma"
    );
}

#[test]
fn os_darwin_without_version() {
    assert_eq!(os_display(Some("Darwin".to_string()), None), "macOS");
}

#[test]
fn os_darwin_unmatched_version() {
    assert_eq!(os_display(Some("Darwin".to_string()), Some("9.8".to_string())), "Darwin");
}

#[test]
fn host_all_fields() {
    assert_eq!(
        get_pc_host(
            Some("ThinkPad".to_string()),
            Some("20XW".to_string()),
            Some("X1 Carbon".to_string())
        ),
        "ThinkPad 20XW (X1 Carbon)"
    );
}

#[test]
fn host_virtualization_marker() {
    assert_eq!(
        get_pc_host(None, Some("Standard PC (Q35 + ICH9, 2009)".to_string()), None),
        "KVM/QEMU Standard PC (Q35 + ICH9, 2009)"
    );
}

#[test]
fn host_empty_fields_omitted() {
    assert_eq!(get_pc_host(None, None, None), "");
    assert_eq!(get_pc_host(Some("   ".to_string()), None, Some("\t".to_string())), "");
    assert_eq!(get_pc_host(None, None, Some("1.0".to_string())), "(1.0)");
}

#[test]
fn host_fields_trimmed() {
    assert_eq!(
        get_pc_host(Some(" Fam ".to_string()), Some(" Model\n".to_string()), None),
        "Fam Model"
    );
}
