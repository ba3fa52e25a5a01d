use valet::mingw_setup::{prepend_msys_path, toolchain_env, toolchain_for_target};
use valet::napi::{
    check_status, js_error_debug_message, status_debug_message, status_description,
    status_message, value_type_name,
};
use valet::winhook::{jump_thunk, proc_name};

#[test]
fn napi_status_reports() {
    assert_eq!(check_status(0), Ok(()));
    assert_eq!(check_status(9), Err(9));
    assert_eq!(status_description(1), "invalid argument");
    assert_eq!(status_description(20), "detachable arraybuffer expected");
    assert_eq!(status_description(21), "unknown error");
    assert_eq!(status_message(10), "js error #pending exception: 10");
    assert_eq!(status_debug_message(3), "js error #string expected: 3 (code 3)");
    assert_eq!(js_error_debug_message("oops"), "JsError(oops)");
}

#[test]
fn napi_status_codes_match_nj_sys() {
    assert_eq!(status_description(nj_sys::napi_status_napi_invalid_arg), "invalid argument");
    assert_eq!(status_description(nj_sys::napi_status_napi_queue_full), "queue full");
    assert_eq!(status_description(nj_sys::napi_status_napi_closing), "closing");
    assert_eq!(check_status(nj_sys::napi_status_napi_ok), Ok(()));
    assert_eq!(value_type_name(nj_sys::napi_valuetype_napi_bigint), "bigint");
    assert_eq!(value_type_name(nj_sys::napi_valuetype_napi_undefined), "undefined");
}

#[test]
fn napi_value_type_names() {
    assert_eq!(value_type_name(0), "undefined");
    assert_eq!(value_type_name(6), "object");
    assert_eq!(value_type_name(42), "?");
}

#[test]
fn mingw_toolchains() {
    let t = toolchain_for_target("i686-pc-windows-gnu").unwrap();
    assert_eq!((t.goarch, t.msys_dir), ("386", "/mingw32/bin"));
    let t = toolchain_for_target("x86_64-pc-windows-gnu").unwrap();
    assert_eq!((t.goarch, t.msys_dir), ("amd64", "/mingw64/bin"));
    assert!(toolchain_for_target("x86_64-unknown-linux-gnu").is_none());
    assert_eq!(prepend_msys_path("C:\\Windows", "C:\\msys64\\mingw64\\bin"), "C:\\msys64\\mingw64\\bin;C:\\Windows");
    let env = toolchain_env(&t, "C:\\m", "P");
    let pairs: Vec<(&str, &str)> = env.iter().map(|(k, v)| (k.as_str(), v.as_str())).collect();
    assert_eq!(pairs, vec![("CGO_ENABLED", "1"), ("GOOS", "windows"), ("GOARCH", "amd64"), ("PATH", "C:\\m;P")]);
}

#[test]
fn proc_name_is_the_last_path_segment() {
    assert_eq!(proc_name("nj_sys::napi_create_object"), "napi_create_object");
    assert_eq!(proc_name("a::b::c"), "c");
    assert_eq!(proc_name("plain"), "plain");
    assert_eq!(proc_name(""), "");
    for s in [":::a", "a::", "::", "a:::b", "::::x", "a:b"] {
        assert_eq!(proc_name(s), s.split("::").last().unwrap(), "input {:?}", s);
    }
}

#[test]
fn jump_thunks_embed_the_address() {
    assert_eq!(
        jump_thunk(0x1122_3344_5566_7788, true),
        vec![0x48, 0xb8, 0x88, 0x77, 0x66, 0x55, 0x44, 0x33, 0x22, 0x11, 0xff, 0xe0]
    );
    assert_eq!(jump_thunk(0x1122_3344, false), vec![0xb8, 0x44, 0x33, 0x22, 0x11, 0xff, 0xe0]);
}
