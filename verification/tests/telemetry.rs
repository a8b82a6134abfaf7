use openagent_plugins::telemetry::{
    command_end_message, command_start_message, message_fits, COMMAND_END_PREFIX, COMMAND_START_PREFIX,
};

#[test]
fn command_messages() {
    assert_eq!(command_start_message("build --release"), "telemetry: command start -- build --release");
    assert_eq!(command_end_message("{\"ok\":true}"), "telemetry: command end -- {\"ok\":true}");
}

#[test]
fn message_capacity_is_256_bytes() {
    let fits = "x".repeat(256 - COMMAND_START_PREFIX.len());
    assert!(message_fits(COMMAND_START_PREFIX, &fits));
    assert!(!message_fits(COMMAND_START_PREFIX, &format!("{}x", fits)));
    assert!(message_fits(COMMAND_END_PREFIX, &"é".repeat(115)));
    assert!(!message_fits(COMMAND_END_PREFIX, &"é".repeat(116)));
    assert_eq!(command_start_message(&fits).len(), 256);
}
