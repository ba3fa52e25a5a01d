use valet::napi_stub::{napi_setup_rs, napi_stub_c, push_debug_str, NAPI_STUB_C_HEADER, SETUP_RS_HEADER};

fn names() -> Vec<String> {
    vec!["napi_create_int32".to_string(), "napi_get_cb_info".to_string()]
}

#[test]
fn setup_rs_hooks_each_function_in_order() {
    let expected = [
        "/// Patches N-API functions, replacing the stubs with jumps\n",
        "/// to the actual implementations provided by node.exe\n",
        "pub unsafe fn setup() {\n",
        "   type F = *const ::std::ffi::c_void;\n",
        "   winhook::hook(\"napi_create_int32\", ::nj_sys::napi_create_int32 as F);\n",
        "   winhook::hook(\"napi_get_cb_info\", ::nj_sys::napi_get_cb_info as F);\n",
        "}\n",
    ]
    .concat();
    assert_eq!(napi_setup_rs(&names()), expected);
}

#[test]
fn setup_rs_matches_formatted_lines() {
    let mut expected = String::from(SETUP_RS_HEADER);
    for n in &names() {
        expected.push_str(&format!("   winhook::hook({:?}, ::nj_sys::{} as F);\n", n, n));
    }
    expected.push_str("}\n");
    assert_eq!(napi_setup_rs(&names()), expected);
}

#[test]
fn stub_c_defines_each_stub_in_order() {
    let text = napi_stub_c(&names());
    assert!(text.starts_with("\n#include <stdlib.h>\n#include <stdio.h>\n\n#define stub(name) void name() { \\\n    asm(\"ud2\");"));
    assert!(text.ends_with("}\n            \nstub(napi_create_int32)\nstub(napi_get_cb_info)\n"));
    assert_eq!(text, format!("{}stub(napi_create_int32)\nstub(napi_get_cb_info)\n", NAPI_STUB_C_HEADER));
}

#[test]
fn no_functions_gives_the_bare_files() {
    assert_eq!(napi_setup_rs(&Vec::new()), format!("{}}}\n", SETUP_RS_HEADER));
    assert_eq!(napi_stub_c(&Vec::new()), NAPI_STUB_C_HEADER);
}

#[test]
fn debug_quoting_matches_std_for_every_ascii_character() {
    let all: String = (0u8..128).map(|b| b as char).collect();
    let mut out = String::new();
    push_debug_str(&mut out, &all);
    assert_eq!(out, format!("{:?}", all));
    for b in 0u8..128 {
        let s = (b as char).to_string();
        let mut out = String::from("x");
        push_debug_str(&mut out, &s);
        assert_eq!(out, format!("x{:?}", s));
    }
}
