use volo_client::client::{
    Call, CallError, Client, Completion, MakeClientTransport, TMessageType,
};

fn started(kind: TMessageType, should_reuse: bool) -> Call {
    let (call, target) = Call::start::<&str, String>(Some("10.0.0.1:8080"), kind, should_reuse)
        .expect("an address was given");
    assert_eq!(target, "10.0.0.1:8080");
    call
}

#[test]
fn a_call_without_an_address_fails_at_once() {
    let refused = Call::start::<&str, String>(None, TMessageType::Call, true);
    assert_eq!(refused, Err(CallError::AddressRequired));
    let refused = Call::start::<&str, String>(None, TMessageType::OneWay, false);
    assert_eq!(refused, Err(CallError::AddressRequired));
}

#[test]
fn start_hands_the_address_on() {
    let (_, target) =
        Call::start::<u16, String>(Some(8080), TMessageType::Call, false).expect("address given");
    assert_eq!(target, 8080);
}

#[test]
fn only_the_one_way_kind_is_one_way() {
    assert!(started(TMessageType::OneWay, true).one_way());
    assert!(!started(TMessageType::Call, true).one_way());
    assert!(!started(TMessageType::Reply, true).one_way());
    assert!(!started(TMessageType::Exception, true).one_way());
}

#[test]
fn a_two_way_call_without_a_response_is_an_unexpected_end_of_file() {
    let done = started(TMessageType::Call, true).finish::<u32, String>(Ok(None));
    assert_eq!(done.result, Err(CallError::EndOfFile));
    assert!(!done.reuse);
    assert_eq!(
        CallError::<String>::EndOfFile.message(),
        Some("an unexpected end of file from server")
    );
}

#[test]
fn a_one_way_call_returns_no_response() {
    let done = started(TMessageType::OneWay, true).finish::<u32, String>(Ok(None));
    assert_eq!(done, Completion { reuse: true, result: Ok(None) });
    let done = started(TMessageType::OneWay, false).finish::<u32, String>(Ok(None));
    assert_eq!(done, Completion { reuse: false, result: Ok(None) });
}

#[test]
fn a_response_is_returned_unchanged() {
    let done = started(TMessageType::Call, false).finish::<u32, String>(Ok(Some(42)));
    assert_eq!(done.result, Ok(Some(42)));
    let done = started(TMessageType::OneWay, false).finish::<u32, String>(Ok(Some(43)));
    assert_eq!(done.result, Ok(Some(43)));
}

#[test]
fn an_error_of_the_transport_is_returned_unchanged() {
    let done =
        started(TMessageType::Call, true).finish::<u32, String>(Err("broken pipe".to_string()));
    assert_eq!(done.result, Err(CallError::Transport("broken pipe".to_string())));
    assert!(!done.reuse);
    let done =
        started(TMessageType::OneWay, true).finish::<u32, String>(Err("timed out".to_string()));
    assert_eq!(done.result, Err(CallError::Transport("timed out".to_string())));
    assert!(!done.reuse);
}

#[test]
fn the_transport_is_reused_after_a_success_with_the_policy_enabled() {
    let done = started(TMessageType::Call, true).finish::<u32, String>(Ok(Some(1)));
    assert_eq!(done, Completion { reuse: true, result: Ok(Some(1)) });
}

#[test]
fn the_transport_is_not_reused_with_the_policy_disabled() {
    let done = started(TMessageType::Call, false).finish::<u32, String>(Ok(Some(1)));
    assert_eq!(done, Completion { reuse: false, result: Ok(Some(1)) });
}

#[test]
fn the_transport_is_not_reused_after_an_error() {
    let done = started(TMessageType::Call, true).finish::<u32, String>(Err("reset".to_string()));
    assert!(!done.reuse);
    let done = started(TMessageType::Call, true).finish::<u32, String>(Ok(None));
    assert!(!done.reuse);
    let done = started(TMessageType::Call, false).finish::<u32, String>(Err("reset".to_string()));
    assert!(!done.reuse);
}

#[test]
fn the_orchestrator_describes_its_own_errors() {
    assert_eq!(CallError::<String>::AddressRequired.message(), Some("address is required"));
    assert_eq!(
        CallError::<String>::EndOfFile.message(),
        Some("an unexpected end of file from server")
    );
    assert_eq!(CallError::Transport("refused".to_string()).message(), None);
}

#[test]
fn a_factory_keeps_its_dialer_and_codec() {
    let factory: MakeClientTransport<&str, u8, (), ()> = MakeClientTransport::new("dialer", 7);
    assert_eq!(*factory.make_transport(), "dialer");
    assert_eq!(*factory.make_codec(), 7);
    let copy = factory.clone();
    assert_eq!(*copy.make_transport(), "dialer");
    assert_eq!(*copy.make_codec(), 7);
}

#[test]
fn a_client_is_made_of_a_factory_and_pool_settings() {
    let client: Client<(), (), &str, u8, u32> = Client::new("dialer", Some(16), 7);
    let copy = client.clone();
    let (factory, pool_cfg) = client.into_parts();
    assert_eq!(*factory.make_transport(), "dialer");
    assert_eq!(*factory.make_codec(), 7);
    assert_eq!(pool_cfg, Some(16));
    let (factory, pool_cfg) = copy.into_parts();
    assert_eq!(*factory.make_transport(), "dialer");
    assert_eq!(*factory.make_codec(), 7);
    assert_eq!(pool_cfg, Some(16));

    let plain: Client<(), (), &str, u8, u32> = Client::new("other", None, 9);
    let (factory, pool_cfg) = plain.into_parts();
    assert_eq!(*factory.make_transport(), "other");
    assert_eq!(*factory.make_codec(), 9);
    assert_eq!(pool_cfg, None);
}
