use tangara::connection::{
    eval_result, lua_command, lua_output, Dispatch, Dispatcher, LuaError, Request,
};
use tangara::console::{sync_request, Exchange, PromptScanner, Scan, Step, SyncError};

const PROMPT: &[u8] = " → ".as_bytes();

/// Feeds the device's bytes to an exchange; returns what ended it, the
/// writes it asked for, and how many bytes it consumed.
fn drive(ex: &mut Exchange, device: &[u8]) -> (Option<Step>, Vec<Vec<u8>>, usize) {
    let mut writes = Vec::new();
    for (i, b) in device.iter().enumerate() {
        match ex.on_byte(*b) {
            Step::Continue => {}
            Step::Write(w) => writes.push(w),
            end => return (Some(end), writes, i + 1),
        }
    }
    (None, writes, device.len())
}

#[test]
fn prompt_bytes() {
    assert_eq!(PROMPT, &[0x20, 0xe2, 0x86, 0x92, 0x20]);
    assert_eq!(sync_request(), b"\n".to_vec());
}

#[test]
fn sync_stops_right_after_prompt() {
    let mut device = b"garbage\n".to_vec();
    device.extend_from_slice(PROMPT);
    let prompt_end = device.len();
    device.extend_from_slice(b"next");
    let mut ex = Exchange::sync();
    let (end, writes, used) = drive(&mut ex, &device);
    assert!(matches!(end, Some(Step::Done(ref v)) if v.is_empty()));
    assert!(writes.is_empty());
    assert_eq!(used, prompt_end);
    assert_eq!(&device[used..], b"next");
    assert!(ex.is_finished());
}

#[test]
fn sync_without_prompt_gives_up() {
    let device = vec![b'a'; 70000];
    let mut ex = Exchange::sync();
    let (end, _, used) = drive(&mut ex, &device);
    assert!(matches!(end, Some(Step::Failed(SyncError::TooMuchOutput))));
    assert_eq!(used, 65536);
}

#[test]
fn prompt_completing_at_the_limit_is_found() {
    let mut device = vec![b'a'; 65536 - 5];
    device.extend_from_slice(PROMPT);
    let mut ex = Exchange::sync();
    let (end, _, used) = drive(&mut ex, &device);
    assert!(matches!(end, Some(Step::Done(_))));
    assert_eq!(used, 65536);
}

#[test]
fn scanner_returns_bytes_before_prompt() {
    let mut s = PromptScanner::new();
    let mut found = None;
    let mut input = b"abc".to_vec();
    input.extend_from_slice(PROMPT);
    for b in input {
        if let Scan::Found(v) = s.push(b) {
            found = Some(v);
        }
    }
    assert_eq!(found, Some(b"abc".to_vec()));
}

#[test]
fn lua_command_template() {
    assert_eq!(lua_command(b"1+41"), b"luarun \"io.stdout:write((1+41))\"".to_vec());
}

#[test]
fn lua_command_escapes() {
    assert_eq!(
        lua_command(br#"print("a\b")"#),
        br#"luarun "io.stdout:write((print(\"a\\b\")))""#.to_vec()
    );
}

#[test]
fn evaluate_yields_42() {
    let command = lua_command(b"1+41");
    let mut ex = Exchange::command(command.clone());
    let mut device = b"stale".to_vec();
    device.extend_from_slice(PROMPT);
    device.extend_from_slice(&command);
    device.extend_from_slice(b"\r\n42");
    device.extend_from_slice(PROMPT);
    let (end, writes, used) = drive(&mut ex, &device);
    let mut sent = command.clone();
    sent.push(b'\n');
    assert_eq!(writes, vec![sent]);
    assert_eq!(used, device.len());
    let raw = match end {
        Some(Step::Done(v)) => v,
        _ => panic!("exchange did not finish"),
    };
    let text = eval_result(Some(raw)).ok().unwrap();
    assert_eq!(text, "42");
}

#[test]
fn echo_mismatch_is_fatal() {
    let mut ex = Exchange::command(b"ab".to_vec());
    let mut device = PROMPT.to_vec();
    device.extend_from_slice(b"aX\r\n");
    let (end, _, used) = drive(&mut ex, &device);
    assert!(matches!(
        end,
        Some(Step::Failed(SyncError::UnexpectedData { expected: b'b', received: b'X' }))
    ));
    assert_eq!(used, PROMPT.len() + 2);
}

#[test]
fn missing_carriage_return_is_fatal() {
    let mut ex = Exchange::command(b"x".to_vec());
    let mut device = PROMPT.to_vec();
    device.extend_from_slice(b"x\n");
    let (end, _, _) = drive(&mut ex, &device);
    assert!(matches!(
        end,
        Some(Step::Failed(SyncError::UnexpectedData { expected: b'\r', received: b'\n' }))
    ));
}

#[test]
fn invalid_utf8_output() {
    assert!(matches!(lua_output(vec![0x34, 0xff]), Err(LuaError::InvalidUtf8(_))));
    assert_eq!(lua_output("→ ok".as_bytes().to_vec()).ok().unwrap(), "→ ok");
}

#[test]
fn commands_never_overlap() {
    let mut d = Dispatcher::new();
    let first = d.on_request(Request::Command(b"one".to_vec()));
    assert!(matches!(first, Dispatch::Execute(ref c) if c == b"one"));
    // a second caller while the first command is on the wire waits
    let second = d.on_request(Request::Command(b"two".to_vec()));
    let deferred = match second {
        Dispatch::Defer(r) => r,
        _ => panic!("second command must wait"),
    };
    d.on_complete(true);
    let again = d.on_request(deferred);
    assert!(matches!(again, Dispatch::Execute(ref c) if c == b"two"));
}

#[test]
fn evaluate_after_disconnect_is_lost_connection() {
    let mut d = Dispatcher::new();
    assert!(matches!(d.on_request(Request::Disconnect), Dispatch::Close));
    assert!(d.is_closed());
    for _ in 0..3 {
        assert!(matches!(d.on_request(Request::Command(b"x".to_vec())), Dispatch::Reject));
        assert!(matches!(d.on_request(Request::Disconnect), Dispatch::Reject));
    }
    assert!(matches!(eval_result(None), Err(LuaError::Connection(_))));
}

#[test]
fn failed_exchange_closes_the_loop() {
    let mut d = Dispatcher::new();
    let _ = d.on_request(Request::Command(b"x".to_vec()));
    d.on_complete(false);
    assert!(d.is_closed());
    assert!(matches!(d.on_request(Request::Command(b"y".to_vec())), Dispatch::Reject));
}
