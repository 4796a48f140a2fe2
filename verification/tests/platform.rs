use curlmux::async_loop::AsyncEventLoop;
use curlmux::libpath::{get_lib_path, set_lib_path, LibPathConfig, PlatformInfo};
use curlmux::loader::{is_library_loaded, plan_load, record_load, LoadPlan, LoaderCache};
use curlmux::logger::{
    enable_logging, get_log_level, is_logging_enabled, set_log_level, should_log, LogLevel,
    LoggerState,
};
use curlmux::socket::{interpret_watch_event, select_event_mask, SocketInterest};
use curlmux::utils::{get_ptr_address, str_contains, str_eq};

#[test]
fn ptr_address_is_a_hex_token() {
    assert_eq!(get_ptr_address(0), "0x0");
    assert_eq!(get_ptr_address(15), "0xf");
    assert_eq!(get_ptr_address(255), "0xff");
    assert_eq!(get_ptr_address(0xdead_beef), "0xdeadbeef");
    assert_eq!(get_ptr_address(u64::MAX), "0xffffffffffffffff");
}

#[test]
fn substring_search_finds_and_rejects() {
    assert!(str_contains("win32-extra", "win32"));
    assert!(str_contains("win32", "win32"));
    assert!(str_contains("anything", ""));
    assert!(!str_contains("linux-gnu", "win32"));
    assert!(!str_contains("w", "win32"));
    assert!(str_contains("aaab", "aab"));
}

#[test]
fn string_equality_compares_characters() {
    assert!(str_eq("arm", "arm"));
    assert!(!str_eq("arm", "arm64"));
    assert!(!str_eq("", "a"));
    assert!(str_eq("", ""));
}

#[test]
fn platform_classification_maps_names() {
    let linux = PlatformInfo::classify("x86_64", "linux", false);
    assert_eq!(linux.arch, "x86_64");
    assert_eq!(linux.os, "linux-gnu");
    assert!(linux.variant.is_none());

    let musl = PlatformInfo::classify("aarch64", "linux", true);
    assert_eq!(musl.os, "linux-musl");

    let arm = PlatformInfo::classify("arm", "linux", false);
    assert_eq!(arm.os, "linux-gnueabihf");

    let windows = PlatformInfo::classify("x86", "windows", false);
    assert_eq!(windows.arch, "i386");
    assert_eq!(windows.os, "win32");

    let mac = PlatformInfo::classify("aarch64", "macos", false);
    assert_eq!(mac.os, "macos");

    let other = PlatformInfo::classify("riscv64", "freebsd", false);
    assert_eq!(other.arch, "riscv64");
    assert_eq!(other.os, "freebsd");
}

#[test]
fn download_filename_is_exact() {
    let p = PlatformInfo::classify("x86_64", "linux", false);
    assert_eq!(
        p.get_download_filename(false),
        "@tocha688/libcurl-v1.0.0-x86_64-linux-gnu.tar.gz"
    );
    assert_eq!(
        p.get_download_filename(true),
        "lib@tocha688/libcurl-v1.0.0-x86_64-linux-gnu.tar.gz"
    );
}

#[test]
fn download_filename_fixes_windows_arch() {
    let p = PlatformInfo::classify("x86", "windows", false);
    assert_eq!(
        p.get_download_filename(false),
        "@tocha688/libcurl-v1.0.0-i686-win32.tar.gz"
    );
}

#[test]
fn download_url_is_exact() {
    let p = PlatformInfo::classify("aarch64", "macos", false);
    assert_eq!(
        p.get_download_url(true),
        "https://github.com/lexiforest/@tocha688/libcurl/releases/download/v1.0.0/lib@tocha688/libcurl-v1.0.0-aarch64-macos.tar.gz"
    );
}

#[test]
fn lib_path_is_stored_and_returned() {
    let mut config = LibPathConfig::new();
    assert_eq!(get_lib_path(&config), None);
    set_lib_path(&mut config, String::from("/opt/native/libfoo.so"));
    assert_eq!(
        get_lib_path(&config),
        Some(String::from("/opt/native/libfoo.so"))
    );
}

#[test]
fn loader_cache_loads_once() {
    let mut cache = LoaderCache::new();
    assert!(!is_library_loaded(&cache));
    assert!(matches!(plan_load(&cache, None), LoadPlan::MissingPath));
    match plan_load(&cache, Some(String::from("/lib/a.so"))) {
        LoadPlan::LoadFrom(p) => assert_eq!(p, "/lib/a.so"),
        _ => panic!("expected a load"),
    }
    record_load(&mut cache, false);
    assert!(!is_library_loaded(&cache));
    record_load(&mut cache, true);
    assert!(is_library_loaded(&cache));
    record_load(&mut cache, false);
    assert!(is_library_loaded(&cache));
    assert!(matches!(
        plan_load(&cache, Some(String::from("/lib/a.so"))),
        LoadPlan::AlreadyLoaded
    ));
    assert!(matches!(plan_load(&cache, None), LoadPlan::MissingPath));
}

#[test]
fn logging_threshold_filters_by_severity() {
    let mut state = LoggerState::new();
    assert!(!is_logging_enabled(&state));
    assert!(!should_log(&state, LogLevel::Error));
    enable_logging(&mut state, true);
    assert!(is_logging_enabled(&state));
    assert_eq!(get_log_level(&state), LogLevel::Info);
    assert!(!should_log(&state, LogLevel::Debug));
    assert!(should_log(&state, LogLevel::Info));
    assert!(should_log(&state, LogLevel::Warn));
    assert!(should_log(&state, LogLevel::Error));
    set_log_level(&mut state, LogLevel::Warn);
    assert!(!should_log(&state, LogLevel::Info));
    assert!(should_log(&state, LogLevel::Warn));
    set_log_level(&mut state, LogLevel::Error);
    assert!(!should_log(&state, LogLevel::Warn));
    assert!(should_log(&state, LogLevel::Error));
    set_log_level(&mut state, LogLevel::Debug);
    assert!(should_log(&state, LogLevel::Debug));
    enable_logging(&mut state, false);
    assert!(!should_log(&state, LogLevel::Error));
}

#[test]
fn event_masks_compose_readiness_bits() {
    assert_eq!(select_event_mask(false, false), 0);
    assert_eq!(select_event_mask(true, false), 1);
    assert_eq!(select_event_mask(false, true), 2);
    assert_eq!(select_event_mask(true, true), 3);
}

#[test]
fn watch_events_translate_to_interests() {
    assert_eq!(interpret_watch_event(0), SocketInterest::Idle);
    assert_eq!(interpret_watch_event(1), SocketInterest::Read);
    assert_eq!(interpret_watch_event(2), SocketInterest::Write);
    assert_eq!(interpret_watch_event(3), SocketInterest::ReadWrite);
    assert_eq!(interpret_watch_event(4), SocketInterest::Detach);
    assert_eq!(interpret_watch_event(99), SocketInterest::Other);
    assert_eq!(interpret_watch_event(-1), SocketInterest::Other);
}

#[test]
fn event_loop_starts_one_monitor_per_socket() {
    let mut el = AsyncEventLoop::new();
    let started = el.add_reader(5).expect("first reader starts a monitor");
    assert_eq!(started.len(), 36);
    assert!(el.add_reader(5).is_none());
    assert!(el.add_writer(5).is_none());
    assert_eq!(el.callback_counts(5), (2, 1));
    assert_eq!(el.monitor_interest(5), (true, true));
    assert_eq!(el.monitor_interest(6), (false, false));

    let other = el.add_writer(6).expect("new socket starts a monitor");
    assert_eq!(other.len(), 36);
    assert_ne!(started, other);
}

#[test]
fn event_loop_stops_the_monitor_with_the_last_callback() {
    let mut el = AsyncEventLoop::new();
    let id = el.add_reader(9).unwrap();
    assert!(el.add_writer(9).is_none());
    assert!(el.remove_reader(9).is_none());
    assert_eq!(el.monitor_interest(9), (false, true));
    let stopped = el.remove_writer(9).expect("last callback stops the monitor");
    assert_eq!(stopped, id);
    assert_eq!(el.monitor_interest(9), (false, false));
    assert!(el.remove_reader(9).is_none());
    assert!(el.remove_writer(9).is_none());
}
