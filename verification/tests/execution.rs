use promptforge::execution::{execution_id, new_execution_id};
use promptforge::lua_limits::{log_byte_budget, DEFAULT_LUA_LOG_EVENTS};

#[test]
fn execution_id_formats_two_hex_words() {
    assert_eq!(execution_id(0, 0), "cli-00000000000000000000000000000000");
    assert_eq!(
        execution_id(0x0123_4567_89ab_cdef, u64::MAX),
        "cli-0123456789abcdefffffffffffffffff"
    );
    assert_eq!(execution_id(255, 16), format!("cli-{:016x}{:016x}", 255u64, 16u64));
}

#[test]
fn fresh_execution_ids_have_the_documented_shape() {
    let id = new_execution_id();
    assert!(id.starts_with("cli-") && id.len() == 36, "{id}");
    assert!(id[4..].chars().all(|c| c.is_ascii_hexdigit() && !c.is_ascii_uppercase()));
}

#[test]
fn log_byte_budget_scales_with_events() {
    assert_eq!(log_byte_budget(0), 0);
    assert_eq!(log_byte_budget(1), 256);
    assert_eq!(log_byte_budget(DEFAULT_LUA_LOG_EVENTS), 262_144);
    assert_eq!(log_byte_budget(u32::MAX), (u32::MAX as usize).saturating_mul(256));
}
