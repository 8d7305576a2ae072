use kether_internal_services_server::call_for_sub::{
    account_id, call_for_sub_message, call_for_sub_plan, caller_name, CallForSubPayload,
};
use kether_internal_services_server::http::HttpStatus;
use kether_internal_services_server::live_server::{
    after_failed_query, is_retryable_query_error, server_cache_key, QueryRetry, ServerQueryCache,
};
use kether_internal_services_server::plan_ws::{initial_state_message, plan_stream_step, PlanStreamAction, PlanStreamEvent};
use kether_internal_services_server::repl::{
    action_closes, daemon_command_effect, help_lines, interpret_input, is_console_key, repl_action, request_report,
    unknown_command_message, DaemonCommand, ReplAction, ReplSignal,
};
use kether_internal_services_server::service::{cors_allowed_origins, SERVICE_PORT};

#[test]
fn console_commands_are_recognised() {
    assert!(interpret_input("q") == ReplAction::Quit);
    assert!(interpret_input("  quit \n") == ReplAction::Quit);
    assert!(interpret_input("exit") == ReplAction::Quit);
    assert!(interpret_input("h") == ReplAction::Help);
    assert!(interpret_input("help") == ReplAction::Help);
    assert!(interpret_input("R") == ReplAction::Request(DaemonCommand::Restart));
    assert!(interpret_input("restart") == ReplAction::Request(DaemonCommand::Restart));
    assert!(interpret_input("S") == ReplAction::Request(DaemonCommand::Stop));
    assert!(interpret_input("stop") == ReplAction::Request(DaemonCommand::Stop));
    assert!(interpret_input("   ") == ReplAction::Ignore);
    assert!(interpret_input("r") == ReplAction::Unknown);
    assert!(interpret_input("Quit") == ReplAction::Unknown);
}

#[test]
fn console_signals_and_closing() {
    assert!(repl_action(&ReplSignal::CtrlC) == ReplAction::Interrupted);
    assert!(repl_action(&ReplSignal::CtrlD) == ReplAction::EndOfInput);
    assert!(repl_action(&ReplSignal::ReadError("tty".to_string())) == ReplAction::ReadFailed);
    assert!(repl_action(&ReplSignal::Line("stop".to_string())) == ReplAction::Request(DaemonCommand::Stop));
    assert!(action_closes(&ReplAction::Quit));
    assert!(action_closes(&ReplAction::Request(DaemonCommand::Restart)));
    assert!(action_closes(&ReplAction::EndOfInput));
    assert!(action_closes(&ReplAction::ReadFailed));
    assert!(!action_closes(&ReplAction::Help));
    assert!(!action_closes(&ReplAction::Interrupted));
    assert!(!action_closes(&ReplAction::Unknown));
    assert!(!action_closes(&ReplAction::Ignore));
}

#[test]
fn console_messages() {
    assert_eq!(help_lines().len(), 5);
    assert_eq!(help_lines()[0], "Available commands:");
    assert_eq!(unknown_command_message(" foo "), "Unknown command: foo. Type 'help' for available commands.");
    assert_eq!(request_report(DaemonCommand::Restart, None), (true, "Daemon command channel unavailable.".to_string()));
    assert_eq!(request_report(DaemonCommand::Stop, Some(Ok(()))), (false, "Stop requested. Closing REPL...".to_string()));
    assert_eq!(
        request_report(DaemonCommand::Restart, Some(Err("closed".to_string()))),
        (true, "Failed to request daemon restart: closed".to_string())
    );
    assert!(is_console_key('c') && is_console_key('C') && !is_console_key('x'));
    assert!(daemon_command_effect(DaemonCommand::Restart).0);
    assert!(!daemon_command_effect(DaemonCommand::Stop).0);
}

#[test]
fn plan_stream_initial_state() {
    assert_eq!(initial_state_message(Some(1234567890), 1000), "SET 1234567890");
    assert_eq!(initial_state_message(Some(1000), 1000), "CLEAR");
    assert_eq!(initial_state_message(Some(999), 1000), "CLEAR");
    assert_eq!(initial_state_message(None, 1000), "CLEAR");
}

#[test]
fn plan_stream_steps() {
    match plan_stream_step(PlanStreamEvent::Ping(vec![1, 2])) {
        PlanStreamAction::Pong(p) => assert_eq!(p, vec![1, 2]),
        _ => panic!("expected a pong"),
    }
    match plan_stream_step(PlanStreamEvent::Broadcast("SET 5".to_string())) {
        PlanStreamAction::Forward(m) => assert_eq!(m, "SET 5"),
        _ => panic!("expected a forward"),
    }
    match plan_stream_step(PlanStreamEvent::ChannelClosed) {
        PlanStreamAction::CloseWith(m) => assert_eq!(m, "Connection closed"),
        _ => panic!("expected a close"),
    }
    assert!(matches!(plan_stream_step(PlanStreamEvent::Close), PlanStreamAction::Stop));
    assert!(matches!(plan_stream_step(PlanStreamEvent::ReceiveError), PlanStreamAction::Stop));
    assert!(matches!(plan_stream_step(PlanStreamEvent::StreamEnded), PlanStreamAction::Stop));
    assert!(matches!(plan_stream_step(PlanStreamEvent::Lagged(3)), PlanStreamAction::Continue));
    assert!(matches!(plan_stream_step(PlanStreamEvent::Timeout), PlanStreamAction::Continue));
    assert!(matches!(plan_stream_step(PlanStreamEvent::OtherMessage), PlanStreamAction::Continue));
}

#[test]
fn query_retries_network_errors_with_backoff() {
    assert!(is_retryable_query_error("Io(TimedOut)"));
    assert!(is_retryable_query_error("PacketReceive"));
    assert!(!is_retryable_query_error("BadGame"));
    assert_eq!(after_failed_query(1, "WouldBlock"), QueryRetry::RetryAfter(500));
    assert_eq!(after_failed_query(2, "connect timeout"), QueryRetry::RetryAfter(1000));
    assert_eq!(after_failed_query(3, "connect timeout"), QueryRetry::GiveUp);
    assert_eq!(after_failed_query(1, "PacketBad"), QueryRetry::GiveUp);
}

#[test]
fn query_cache_covers_failures_for_a_minute() {
    let mut cache: ServerQueryCache<String> = ServerQueryCache::new();
    assert_eq!(cache.fallback_at("1.2.3.4", 27015, 0), None);
    cache.store_at("1.2.3.4", 27015, "Kether".to_string(), 1000);
    assert_eq!(cache.fallback_at("1.2.3.4", 27015, 1000), Some(&"Kether".to_string()));
    assert_eq!(cache.fallback_at("1.2.3.4", 27015, 60999), Some(&"Kether".to_string()));
    assert_eq!(cache.fallback_at("1.2.3.4", 27015, 61000), None);
    assert_eq!(cache.fallback_at("1.2.3.4", 27016, 1000), None);
    cache.store_at("1.2.3.4", 27015, "Kether 2".to_string(), 70000);
    assert_eq!(cache.fallback_at("1.2.3.4", 27015, 70001), Some(&"Kether 2".to_string()));
    cache.store("5.6.7.8", 1, "now".to_string());
    assert_eq!(cache.fallback_now("5.6.7.8", 1), Some(&"now".to_string()));
    assert_eq!(server_cache_key("1.2.3.4", 27015), "1.2.3.4:27015");
}

#[test]
fn call_for_sub_message_mentions_caller_and_online() {
    let payload = CallForSubPayload { steam_id: 76561198012345678 };
    assert_eq!(account_id(76561198012345678), 52079950);
    assert_eq!(
        call_for_sub_message(payload.steam_id, "Player"),
        "[mention=52079950]@Player[/mention] called for a sub, [mention=here]@online[/mention]"
    );
    assert_eq!(
        call_for_sub_plan(&payload, Ok(vec!["Player".to_string(), "Other".to_string()])),
        Ok("[mention=52079950]@Player[/mention] called for a sub, [mention=here]@online[/mention]".to_string())
    );
    assert_eq!(call_for_sub_plan(&payload, Ok(vec![])), Err(HttpStatus::BadRequest));
    assert_eq!(call_for_sub_plan(&payload, Err("503".to_string())), Err(HttpStatus::InternalServerError));
    assert_eq!(caller_name(Ok(vec!["a".to_string()])), Ok("a".to_string()));
}

#[test]
fn service_settings() {
    assert_eq!(SERVICE_PORT, 3001);
    let origins = cors_allowed_origins();
    assert_eq!(origins.len(), 8);
    assert!(origins.contains(&"https://kether.pl"));
    assert!(origins.contains(&"http://104.245.245.137"));
}
