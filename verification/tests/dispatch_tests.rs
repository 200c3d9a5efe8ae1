use backup_fam::command::{Command, Direction, Opcode};
use backup_fam::dispatch::{Action, CacheEntry, Dispatcher, IdempotencyCache};

fn fetch(id: u64, ttl: u32) -> Command {
    Command::request(Opcode::FetchChunk, id, ttl, vec![7])
}

#[test]
fn a_response_is_forwarded_for_resolution() {
    let mut d = Dispatcher::new();
    let response = Command::answer(&fetch(5, 100), Opcode::FetchChunk, vec![1]);
    assert_eq!(d.on_command(1, response.clone(), 0), Action::Resolve { correlation_id: 5, response });
}

#[test]
fn a_request_without_a_handler_gets_an_error() {
    let mut d = Dispatcher::new();
    let expected = Command {
        opcode: Opcode::Error,
        command_id: 5,
        ttl_ms: 100,
        direction: Direction::Response,
        correlation_id: 5,
        payload: vec![],
    };
    assert_eq!(d.on_command(1, fetch(5, 100), 0), Action::Reply(expected));
}

#[test]
fn a_new_request_goes_to_its_handler() {
    let mut d = Dispatcher::new();
    d.register_handler(Opcode::FetchChunk, 11);
    d.register_handler(Opcode::Ping, 12);
    assert_eq!(d.on_command(1, fetch(5, 100), 0), Action::Invoke { handler: 11, request: fetch(5, 100) });
    let ping = Command::request(Opcode::Ping, 6, 100, vec![]);
    assert_eq!(d.on_command(1, ping.clone(), 0), Action::Invoke { handler: 12, request: ping });
}

#[test]
fn a_later_handler_replaces_an_earlier_one() {
    let mut d = Dispatcher::new();
    d.register_handler(Opcode::Error, 1);
    d.register_handler(Opcode::Error, 2);
    let c = Command::request(Opcode::Error, 6, 100, vec![]);
    assert_eq!(d.on_command(1, c.clone(), 0), Action::Invoke { handler: 2, request: c });
}

#[test]
fn redelivery_within_ttl_gets_the_same_response_and_no_handler() {
    let mut d = Dispatcher::new();
    d.register_handler(Opcode::FetchChunk, 11);
    let request = fetch(5, 2000);
    assert_eq!(d.on_command(1, request.clone(), 990), Action::Invoke { handler: 11, request: request.clone() });
    assert_eq!(d.on_command(1, request.clone(), 995), Action::InProgress);
    assert_eq!(d.on_command(2, request.clone(), 995), Action::Invoke { handler: 11, request: request.clone() });
    let first = d.finish(1, &request, Ok(vec![9, 9]), 1000);
    assert_eq!(
        first,
        Command {
            opcode: Opcode::FetchChunk,
            command_id: 5,
            ttl_ms: 2000,
            direction: Direction::Response,
            correlation_id: 5,
            payload: vec![9, 9],
        }
    );
    assert_eq!(d.on_command(1, request.clone(), 1500), Action::Reply(first.clone()));
    assert_eq!(d.on_command(1, request.clone(), 2999), Action::Reply(first));
    assert_eq!(d.on_command(2, request.clone(), 2999), Action::InProgress);
    assert_eq!(d.on_command(1, request.clone(), 3000), Action::Invoke { handler: 11, request });
}

#[test]
fn the_cache_is_keyed_by_origin_and_id() {
    let mut d = Dispatcher::new();
    d.register_handler(Opcode::FetchChunk, 11);
    let request = fetch(5, 2000);
    d.finish(1, &request, Ok(vec![9]), 0);
    assert_eq!(d.on_command(2, request.clone(), 1), Action::Invoke { handler: 11, request });
    assert_eq!(d.on_command(1, fetch(6, 2000), 1), Action::Invoke { handler: 11, request: fetch(6, 2000) });
}

#[test]
fn a_handler_failure_becomes_a_correlated_error() {
    let mut d = Dispatcher::new();
    let request = fetch(5, 2000);
    let response = d.finish(1, &request, Err(vec![b'n', b'o']), 0);
    assert_eq!(response.opcode, Opcode::Error);
    assert_eq!(response.correlation_id, 5);
    assert_eq!(response.direction, Direction::Response);
    assert_eq!(response.payload, vec![b'n', b'o']);
    assert_eq!(d.on_command(1, request, 1), Action::Reply(response));
}

#[test]
fn unknown_opcode_reply_is_a_correlated_error() {
    let r = Dispatcher::on_unknown_opcode(77);
    assert_eq!(
        r,
        Command {
            opcode: Opcode::Error,
            command_id: 77,
            ttl_ms: 0,
            direction: Direction::Response,
            correlation_id: 77,
            payload: vec![],
        }
    );
}

#[test]
fn garbage_collection_drops_only_expired_entries() {
    let mut c = IdempotencyCache::new();
    let a = Command::answer(&fetch(1, 10), Opcode::FetchChunk, vec![1]);
    let b = Command::answer(&fetch(2, 10), Opcode::FetchChunk, vec![2]);
    c.store(CacheEntry { origin: 1, command_id: 1, expires_at: 10, response: a.clone() });
    c.store(CacheEntry { origin: 1, command_id: 2, expires_at: 20, response: b.clone() });
    assert_eq!(c.len(), 2);
    assert_eq!(c.lookup(1, 1, 9), Some(a));
    assert_eq!(c.lookup(1, 1, 10), None);
    c.collect_garbage(10);
    assert_eq!(c.len(), 1);
    assert_eq!(c.lookup(1, 2, 10), Some(b));
    assert_eq!(c.lookup(1, 2, 20), None);
}

#[test]
fn dispatcher_garbage_collection_keeps_live_answers() {
    let mut d = Dispatcher::new();
    d.register_handler(Opcode::FetchChunk, 11);
    let first = d.finish(1, &fetch(5, 100), Ok(vec![1]), 0);
    d.finish(1, &fetch(6, 10), Ok(vec![2]), 0);
    d.collect_garbage(50);
    assert_eq!(d.on_command(1, fetch(5, 100), 60), Action::Reply(first));
    assert_eq!(d.on_command(1, fetch(6, 10), 60), Action::Invoke { handler: 11, request: fetch(6, 10) });
}

#[test]
fn the_latest_entry_for_a_request_wins() {
    let mut c = IdempotencyCache::new();
    let a = Command::answer(&fetch(1, 10), Opcode::FetchChunk, vec![1]);
    let b = Command::answer(&fetch(1, 10), Opcode::FetchChunk, vec![2]);
    c.store(CacheEntry { origin: 1, command_id: 1, expires_at: 10, response: a });
    c.store(CacheEntry { origin: 1, command_id: 1, expires_at: 10, response: b.clone() });
    assert_eq!(c.lookup(1, 1, 0), Some(b));
}
