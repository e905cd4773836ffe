use ferroclaw::bash_exec::{check_dangerous, combine_output, truncate, BashExecTool, DEFAULT_TIMEOUT_SECS, MAX_OUTPUT_BYTES};
use ferroclaw::error::FerroError;

#[test]
fn defaults_and_identity() {
    let t = BashExecTool::new();
    assert_eq!(t.timeout_secs(), DEFAULT_TIMEOUT_SECS);
    assert_eq!(t.timeout_secs(), 30);
    assert_eq!(BashExecTool::default().timeout_secs(), 30);
    assert_eq!(BashExecTool::with_timeout(5).timeout_secs(), 5);
    assert_eq!(t.name(), "bash_exec");
    assert!(t.description().starts_with("Execute a bash command"));
    assert_eq!(MAX_OUTPUT_BYTES, 10 * 1024);
}

#[test]
fn dangerous_fragments_are_reported_in_list_order() {
    assert_eq!(check_dangerous("sudo rm -rf / --no-preserve-root"), vec!["rm -rf /".to_string(), "sudo".to_string()]);
    assert_eq!(check_dangerous("sudo ls"), vec!["sudo".to_string()]);
    assert_eq!(check_dangerous("dd if=/dev/zero of=x; mkfs.ext4 y"), vec!["mkfs".to_string(), "dd if=".to_string()]);
    assert!(check_dangerous("ls -la").is_empty());
    assert_eq!(check_dangerous(":(){ :|:& };:"), vec![":(){ :|:& };:".to_string()]);
}

#[test]
fn truncation_cuts_at_the_byte_limit() {
    assert_eq!(truncate("short".to_string(), 10), "short");
    assert_eq!(truncate("exactly10!".to_string(), 10), "exactly10!");
    assert_eq!(truncate("0123456789abc".to_string(), 10), "0123456789\n… [output truncated at 10 bytes]");
    assert_eq!(truncate("héllo".to_string(), 3), "hé\n… [output truncated at 3 bytes]");
}

#[test]
fn input_is_read_from_json() {
    let t = BashExecTool::new();
    let (cmd, secs) = t.parse_input("{\"command\":\"ls -la\"}").unwrap();
    assert_eq!(cmd, "ls -la");
    assert_eq!(secs, 30);
    let (cmd, secs) = BashExecTool::with_timeout(9).parse_input("{\"command\":\"pwd\",\"timeout_secs\":2}").unwrap();
    assert_eq!(cmd, "pwd");
    assert_eq!(secs, 2);
    let (_, secs) = t.parse_input("{\"command\":\"pwd\",\"timeout_secs\":\"2\"}").unwrap();
    assert_eq!(secs, 30);
    let e = t.parse_input("{\"cmd\":\"ls\"}").err().unwrap();
    assert!(matches!(e, FerroError::ToolExecution { ref tool, ref message } if tool == "bash_exec" && message == "missing 'command' field"));
    assert!(t.parse_input("{\"command\":3}").is_err());
    assert!(t.parse_input("not json").is_err());
}

#[test]
fn finished_commands_become_results() {
    let t = BashExecTool::new();
    let ok = t.finished_result("id1".into(), "out\n".into(), true, Some(0));
    assert_eq!(ok.tool_call_id, "id1");
    assert_eq!(ok.tool_name, "bash_exec");
    assert_eq!(ok.output, "out\n");
    assert!(!ok.is_error);
    let failed = t.finished_result("id2".into(), "oops".into(), false, Some(2));
    assert_eq!(failed.output, "[exit 2]\noops");
    assert!(failed.is_error);
    let killed = t.finished_result("id3".into(), "".into(), false, None);
    assert_eq!(killed.output, "[exit -1]\n");
    let long = "x".repeat(MAX_OUTPUT_BYTES + 5);
    let big = t.finished_result("id4".into(), long, true, Some(0));
    assert!(big.output.ends_with("\n… [output truncated at 10240 bytes]"));
    assert_eq!(big.output.len(), MAX_OUTPUT_BYTES + "\n… [output truncated at 10240 bytes]".len());
}

#[test]
fn output_streams_are_combined_leniently() {
    assert_eq!(combine_output(b"out\n", b"err\n"), "out\nerr\n");
    assert_eq!(combine_output(&[b'a', 0xff], b""), "a\u{fffd}");
}

#[test]
fn errors_of_the_tool() {
    let t = BashExecTool::new();
    assert_eq!(t.timeout_error(30).message(), "Tool execution error: bash_exec — timed out after 30s");
    assert_eq!(t.spawn_error("no bash".into()).message(), "Tool execution error: bash_exec — no bash");
}

#[test]
fn cuts_inside_a_character_fall_back_to_its_start() {
    // 'é' takes two bytes: a cut at byte 2 of "aé" would split it.
    assert_eq!(truncate("aéb".to_string(), 2), "a\n… [output truncated at 2 bytes]");
    assert_eq!(truncate("aéb".to_string(), 3), "aé\n… [output truncated at 3 bytes]");
    assert_eq!(truncate("€uro".to_string(), 2), "\n… [output truncated at 2 bytes]");
    let t = BashExecTool::new();
    let long = format!("a{}", "é".repeat(6000));
    let r = t.finished_result("id".into(), long, true, Some(0));
    let kept = format!("a{}", "é".repeat(5119));
    assert_eq!(r.output, format!("{kept}\n… [output truncated at 10240 bytes]"));
    assert!(!r.is_error);
}
