use std::sync::OnceLock;
use std::sync::atomic::{AtomicUsize, Ordering};

use daneel::app_state::{ServerAppState, cached_result};
use daneel::gateway::config::LoadedGatewayConfig;

#[derive(Clone, Debug, PartialEq, Eq)]
struct MockAdapter {
    name: &'static str,
}

/// The process-wide cache as a program keeps it: the slot is filled once, and each call
/// hands out what the slot holds.
fn cached_app_state<'a, A, F: FnOnce() -> Result<ServerAppState<A>, String>>(
    slot: &'a OnceLock<Result<ServerAppState<A>, String>>,
    init: F,
) -> Result<&'a ServerAppState<A>, String> {
    cached_result(slot.get_or_init(init))
}

#[test]
fn app_state_initializes_with_mock_adapter() {
    let adapter = MockAdapter {
        name: "mock-adapter",
    };
    let state = ServerAppState::from_loader(
        || LoadedGatewayConfig::new("test-token", "ws://127.0.0.1:18789/"),
        adapter.clone(),
    )
    .expect("build app state with mock adapter");

    assert_eq!(state.gateway_config().token, "test-token");
    assert_eq!(state.gateway_config().ws_url, "ws://127.0.0.1:18789/");
    assert_eq!(state.adapter(), &adapter);
}

#[test]
fn app_state_initialization_fails_cleanly_with_invalid_config() {
    let error = ServerAppState::from_loader(
        || LoadedGatewayConfig::new("", "ws://127.0.0.1:18789/"),
        MockAdapter {
            name: "mock-adapter",
        },
    )
    .expect_err("reject invalid config");

    assert!(error.contains("No gateway auth token"));
}

#[test]
fn cached_app_state_initializes_only_once() {
    let slot = OnceLock::new();
    let init_count = AtomicUsize::new(0);

    let first = cached_app_state(&slot, || {
        init_count.fetch_add(1, Ordering::SeqCst);
        ServerAppState::from_loader(
            || LoadedGatewayConfig::new("test-token", "ws://127.0.0.1:18789/"),
            MockAdapter {
                name: "mock-adapter",
            },
        )
    })
    .expect("initialize cached app state");

    let second = cached_app_state(&slot, || {
        init_count.fetch_add(1, Ordering::SeqCst);
        ServerAppState::from_loader(
            || LoadedGatewayConfig::new("another-token", "ws://127.0.0.1:18790/"),
            MockAdapter {
                name: "other-adapter",
            },
        )
    })
    .expect("reuse cached app state");

    assert_eq!(init_count.load(Ordering::SeqCst), 1);
    assert!(std::ptr::eq(first, second));
    assert_eq!(second.gateway_config().token, "test-token");
    assert_eq!(second.adapter().name, "mock-adapter");
}

#[test]
fn cached_app_state_reuses_the_first_error() {
    let slot = OnceLock::new();
    let init_count = AtomicUsize::new(0);

    let first = cached_app_state(&slot, || {
        init_count.fetch_add(1, Ordering::SeqCst);
        ServerAppState::from_loader(
            || LoadedGatewayConfig::new("", "ws://127.0.0.1:18789/"),
            MockAdapter {
                name: "mock-adapter",
            },
        )
    })
    .expect_err("cache the first initialization error");

    let second = cached_app_state(&slot, || {
        init_count.fetch_add(1, Ordering::SeqCst);
        ServerAppState::from_loader(
            || LoadedGatewayConfig::new("test-token", "ws://127.0.0.1:18789/"),
            MockAdapter {
                name: "other-adapter",
            },
        )
    })
    .expect_err("reuse cached initialization error");

    assert_eq!(init_count.load(Ordering::SeqCst), 1);
    assert_eq!(first, second);
    assert!(second.contains("No gateway auth token"));
}

#[test]
fn cached_result_hands_out_the_state_or_a_copy_of_the_error() {
    let stored: Result<ServerAppState<MockAdapter>, String> = ServerAppState::from_loader(
        || LoadedGatewayConfig::new("test-token", "ws://127.0.0.1:18789/"),
        MockAdapter { name: "mock-adapter" },
    );
    let state = cached_result(&stored).expect("cached state");
    assert_eq!(state.gateway_config().token, "test-token");

    let failed: Result<ServerAppState<MockAdapter>, String> = Err("boom".to_string());
    assert_eq!(cached_result(&failed).err(), Some("boom".to_string()));
}

#[test]
fn server_app_state_new_keeps_its_parts() {
    let config = LoadedGatewayConfig::new("tok", "ws://example/").expect("config");
    let state = ServerAppState::new(config.clone(), MockAdapter { name: "a" });
    assert_eq!(state.gateway_config(), &config);
    assert_eq!(state.adapter().name, "a");
}
