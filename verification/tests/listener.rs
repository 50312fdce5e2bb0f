use std::sync::atomic::{AtomicBool, Ordering};
use std::sync::Arc;

use redis_event::handler::{
    DefaultRDBParser, Event, EventHandler, ModuleParser, NoOpEventHandler, NoOpModuleParser,
    RDBParser,
};
use redis_event::handshake::{after_receive, Action, Command, Input, Onward, Received, State};
use redis_event::heartbeat::{Beat, Heartbeat, Message, PERIOD};
use redis_event::listener::{
    decode_dump_length, encode_ack, encode_auth, encode_port, encode_psync, encode_sync,
    to_arguments, Builder, Config, ListenError, Listener, Mode, NextStep,
};
use redis_event::rdb::object::{Object, RdbError};
use redis_event::reader::{ReadError, Reader};
use redis_event::resp::{decode_resp, Resp, RespError};
use redis_event::text::{nth_word, same, starts_with};

struct Recorder {
    events: Vec<Event>,
}

impl EventHandler for Recorder {
    fn handle(&mut self, event: Event) {
        self.events.push(event);
    }
}

type Plain = Listener<DefaultRDBParser<NoOpModuleParser>, Recorder, NoOpModuleParser>;

fn config(password: &[u8], is_aof: bool, is_discard_rdb: bool) -> Config {
    Config {
        is_discard_rdb,
        is_aof,
        addr: String::from("127.0.0.1:6379"),
        password: password.to_vec(),
        repl_id: b"?".to_vec(),
        repl_offset: -1,
        read_timeout: None,
        write_timeout: None,
    }
}

fn listener(password: &[u8], is_aof: bool, is_discard_rdb: bool) -> Plain {
    let mut builder = Builder::new();
    builder.with_config(config(password, is_aof, is_discard_rdb));
    builder.with_event_handler(Recorder { events: vec![] });
    builder.with_control_flag(Arc::new(AtomicBool::new(true)));
    builder.build()
}

fn reply(bytes: &[u8]) -> Result<Resp, RespError> {
    let mut r = Reader::new(bytes.to_vec());
    decode_resp(&mut r)
}

fn shown<T: std::fmt::Debug>(v: &T) -> String {
    format!("{:?}", v)
}

fn small_dump() -> Vec<u8> {
    let mut out = b"REDIS0006".to_vec();
    out.extend_from_slice(&[0, 1, b'k', 1, b'v', 0xFF]);
    out.extend_from_slice(&[0u8; 8]);
    out
}

#[test]
fn builder_starts_empty_and_collects_its_parts() {
    let mut builder = Builder::<DefaultRDBParser<NoOpModuleParser>, NoOpEventHandler, NoOpModuleParser>::new();
    assert!(builder.config.is_none());
    assert!(builder.rdb_parser.is_none());
    assert!(builder.event_handler.is_none());
    assert!(builder.module_parser.is_none());
    assert!(builder.control_flag.is_none());
    assert!(!builder.is_complete());
    builder.with_config(config(b"secret", true, false));
    assert_eq!(builder.config.as_ref().unwrap().password, b"secret".to_vec());
    assert!(!builder.is_complete());
    builder.with_rdb_parser(DefaultRDBParser { module_parser: None });
    assert!(builder.rdb_parser.is_some());
    builder.with_event_handler(NoOpEventHandler {});
    assert!(builder.event_handler.is_some());
    builder.with_module_parser(NoOpModuleParser {});
    assert!(builder.module_parser.is_some());
    let flag = Arc::new(AtomicBool::new(true));
    builder.with_control_flag(flag.clone());
    assert!(builder.is_complete());
    let listener = builder.build();
    assert_eq!(listener.config.repl_id, b"?".to_vec());
    assert_eq!(listener.config.repl_offset, -1);
    assert!(listener.config.is_aof);
    assert!(listener.rdb_parser.is_some());
    assert!(listener.fallback.module_parser.is_some());
    assert!(listener.is_running());
    flag.store(false, Ordering::Relaxed);
    assert!(!listener.is_running());
}

#[test]
fn commands_on_the_wire() {
    assert_eq!(encode_auth(b"pw"), b"*2\r\n$4\r\nAUTH\r\n$2\r\npw\r\n".to_vec());
    assert_eq!(
        encode_port(6380),
        b"*3\r\n$8\r\nREPLCONF\r\n$14\r\nlistening-port\r\n$4\r\n6380\r\n".to_vec()
    );
    assert_eq!(encode_psync(b"?", -1), b"*3\r\n$5\r\nPSYNC\r\n$1\r\n?\r\n$2\r\n-1\r\n".to_vec());
    assert_eq!(encode_sync(), b"*1\r\n$4\r\nSYNC\r\n".to_vec());
    assert_eq!(
        encode_ack(1234),
        b"*3\r\n$8\r\nREPLCONF\r\n$3\r\nACK\r\n$4\r\n1234\r\n".to_vec()
    );
}

#[test]
fn words_and_prefixes() {
    assert!(starts_with(b"FULLRESYNC abc 1", b"FULLRESYNC"));
    assert!(!starts_with(b"FULL", b"FULLRESYNC"));
    assert!(starts_with(b"x", b""));
    assert!(same(b"abc", b"abc"));
    assert!(!same(b"abc", b"abcd"));
    assert_eq!(nth_word(b"  a \t bc\r\n d", 0), Some(b"a".to_vec()));
    assert_eq!(nth_word(b"  a \t bc\r\n d", 1), Some(b"bc".to_vec()));
    assert_eq!(nth_word(b"  a \t bc\r\n d", 2), Some(b"d".to_vec()));
    assert_eq!(nth_word(b"  a \t bc\r\n d", 3), None);
    assert_eq!(nth_word(b"   ", 0), None);
}

#[test]
fn full_resync_adopts_id_and_offset() {
    let mut l = listener(b"", true, false);
    let r = l.on_psync_reply(reply(b"+FULLRESYNC 8de1787ba490483314a4d30f1c628bc5025eb761 2443808505\r\n"));
    assert_eq!(shown(&r), shown(&Ok::<NextStep, ListenError>(NextStep::FullSync)));
    assert_eq!(l.config.repl_id, b"8de1787ba490483314a4d30f1c628bc5025eb761".to_vec());
    assert_eq!(l.config.repl_offset, 2443808505);
}

#[test]
fn full_resync_without_id_or_offset_is_a_protocol_failure() {
    for line in [&b"+FULLRESYNC\r\n"[..], b"+FULLRESYNC abc\r\n", b"+FULLRESYNC abc xyz\r\n"] {
        let mut l = listener(b"", true, false);
        let r = l.on_psync_reply(reply(line));
        assert_eq!(shown(&r), shown(&Err::<NextStep, ListenError>(ListenError::Protocol)));
        assert_eq!(l.config.repl_id, b"?".to_vec());
        assert_eq!(l.config.repl_offset, -1);
    }
}

#[test]
fn continue_may_bring_a_new_id() {
    let mut l = listener(b"", true, false);
    l.config.repl_offset = 77;
    let r = l.on_psync_reply(reply(b"+CONTINUE\r\n"));
    assert_eq!(shown(&r), shown(&Ok::<NextStep, ListenError>(NextStep::PartialResync)));
    assert_eq!(l.config.repl_id, b"?".to_vec());
    let r = l.on_psync_reply(reply(b"+CONTINUE newid\r\n"));
    assert_eq!(shown(&r), shown(&Ok::<NextStep, ListenError>(NextStep::PartialResync)));
    assert_eq!(l.config.repl_id, b"newid".to_vec());
    assert_eq!(l.config.repl_offset, 77);
}

#[test]
fn transient_answers_ask_to_wait() {
    for line in [
        &b"+NOMASTERLINK Can't SYNC while not connected with my master\r\n"[..],
        b"+LOADING Redis is loading the dataset in memory\r\n",
        b"-NOMASTERLINK Can't SYNC while not connected with my master\r\n",
        b"-LOADING Redis is loading the dataset in memory\r\n",
    ] {
        let mut l = listener(b"", true, false);
        let r = l.on_psync_reply(reply(line));
        assert_eq!(shown(&r), shown(&Ok::<NextStep, ListenError>(NextStep::Wait)));
    }
}

#[test]
fn unknown_psync_changes_mode_only_on_the_literal_text() {
    let mut l = listener(b"", true, false);
    let r = l.on_psync_reply(reply(b"-ERR unknown command 'PSYNC'\r\n"));
    assert_eq!(shown(&r), shown(&Ok::<NextStep, ListenError>(NextStep::ChangeMode)));
    let r = l.on_psync_reply(reply(b"-ERR unknown command 'PSYNC' \r\n"));
    assert_eq!(
        shown(&r),
        shown(&Err::<NextStep, ListenError>(ListenError::Resp(RespError::Server(
            b"ERR unknown command 'PSYNC' ".to_vec()
        ))))
    );
    let r = l.on_psync_reply(reply(b":1\r\n"));
    assert_eq!(shown(&r), shown(&Err::<NextStep, ListenError>(ListenError::Protocol)));
    let r = l.on_psync_reply(reply(b"+PONG\r\n"));
    assert_eq!(shown(&r), shown(&Err::<NextStep, ListenError>(ListenError::Protocol)));
    let r = l.on_psync_reply(reply(b"+OK"));
    assert_eq!(
        shown(&r),
        shown(&Err::<NextStep, ListenError>(ListenError::Resp(RespError::Read(
            ReadError::UnexpectedEof
        ))))
    );
}

#[test]
fn dump_header_gives_the_length() {
    let mut r = Reader::new(b"$175\r\nREDIS".to_vec());
    assert_eq!(shown(&decode_dump_length(&mut r)), shown(&Ok::<u64, ListenError>(175)));
    assert_eq!(r.offset(), 6);
    let mut r = Reader::new(b"+OK\r\n".to_vec());
    assert_eq!(shown(&decode_dump_length(&mut r)), shown(&Err::<u64, ListenError>(ListenError::Protocol)));
    let mut r = Reader::new(b"$-1\r\n".to_vec());
    assert_eq!(shown(&decode_dump_length(&mut r)), shown(&Err::<u64, ListenError>(ListenError::Protocol)));
    let mut r = Reader::new(b"$12".to_vec());
    assert_eq!(
        shown(&decode_dump_length(&mut r)),
        shown(&Err::<u64, ListenError>(ListenError::Resp(RespError::Read(ReadError::UnexpectedEof))))
    );
}

#[test]
fn arguments_must_all_be_bulks() {
    let items = vec![Resp::BulkBytes(Some(b"GET".to_vec())), Resp::BulkBytes(Some(b"k".to_vec()))];
    assert_eq!(to_arguments(&items), Some(vec![b"GET".to_vec(), b"k".to_vec()]));
    assert_eq!(to_arguments(&vec![]), Some(vec![]));
    assert_eq!(to_arguments(&vec![Resp::BulkBytes(None)]), None);
    assert_eq!(to_arguments(&vec![Resp::BulkBytes(Some(vec![])), Resp::Int(1)]), None);
}

#[test]
fn offset_advances_by_the_bytes_of_each_command() {
    let mut l = listener(b"", true, false);
    l.config.repl_offset = 100;
    let first = b"*3\r\n$3\r\nSET\r\n$1\r\nk\r\n$1\r\nv\r\n";
    let second = b"*1\r\n$4\r\nPING\r\n";
    let mut stream = first.to_vec();
    stream.extend_from_slice(second);
    stream.extend_from_slice(b"*2\r\n$3\r\nDEL");
    let mut r = Reader::new(stream);
    assert_eq!(shown(&l.receive_aof(&mut r)), shown(&Ok::<i64, ListenError>(127)));
    assert_eq!(l.config.repl_offset, 100 + first.len() as i64);
    assert_eq!(shown(&l.receive_aof(&mut r)), shown(&Ok::<i64, ListenError>(141)));
    assert_eq!(l.config.repl_offset, 127 + second.len() as i64);
    let got = l.receive_aof(&mut r);
    assert_eq!(
        shown(&got),
        shown(&Err::<i64, ListenError>(ListenError::Resp(RespError::Read(ReadError::UnexpectedEof))))
    );
    assert_eq!(l.config.repl_offset, 141);
    assert_eq!(r.unmark(), Err(ReadError::NotMarked));
    let events = &l.event_handler.as_ref().unwrap().events;
    assert_eq!(
        *events,
        vec![
            Event::AOF(vec![b"SET".to_vec(), b"k".to_vec(), b"v".to_vec()]),
            Event::AOF(vec![b"PING".to_vec()]),
        ]
    );
}

#[test]
fn offset_never_goes_back() {
    let mut l = listener(b"", true, false);
    let mut stream = Vec::new();
    for _ in 0..5 {
        stream.extend_from_slice(b"*1\r\n$4\r\nPING\r\n");
    }
    stream.extend_from_slice(b"+OK\r\n");
    let mut r = Reader::new(stream);
    let mut last = l.config.repl_offset;
    for _ in 0..7 {
        let _ = l.receive_aof(&mut r);
        assert!(l.config.repl_offset >= last);
        last = l.config.repl_offset;
    }
    assert_eq!(last, -1 + 5 * 14);
}

#[test]
fn a_command_that_is_no_array_of_bulks_is_a_protocol_failure() {
    let mut l = listener(b"", true, false);
    let mut r = Reader::new(b"+OK\r\n*1\r\n:1\r\n*-1\r\n".to_vec());
    for _ in 0..3 {
        let got = l.next_command(&mut r);
        assert_eq!(shown(&got), shown(&Err::<Vec<Vec<u8>>, ListenError>(ListenError::Protocol)));
    }
    assert_eq!(l.config.repl_offset, -1);
}

#[test]
fn offset_overflow_is_reported() {
    let mut l = listener(b"", true, false);
    l.config.repl_offset = i64::MAX - 13;
    let mut r = Reader::new(b"*1\r\n$4\r\nPING\r\n".to_vec());
    let got = l.next_command(&mut r);
    assert_eq!(shown(&got), shown(&Err::<Vec<Vec<u8>>, ListenError>(ListenError::Overflow)));
    assert_eq!(l.config.repl_offset, i64::MAX - 13);
    l.config.repl_offset = i64::MAX - 14;
    let mut r = Reader::new(b"*1\r\n$4\r\nPING\r\n".to_vec());
    assert!(l.next_command(&mut r).is_ok());
    assert_eq!(l.config.repl_offset, i64::MAX);
}

#[test]
fn discarding_skips_exactly_the_dump() {
    let mut l = listener(b"", true, true);
    let mut data = vec![7u8; 10];
    data.extend_from_slice(b"*1\r\n$4\r\nPING\r\n");
    let mut r = Reader::new(data);
    assert!(l.load_snapshot(&mut r, 10).is_ok());
    assert_eq!(r.offset(), 10);
    assert!(l.event_handler.as_ref().unwrap().events.is_empty());
    assert_eq!(shown(&l.receive_aof(&mut r)), shown(&Ok::<i64, ListenError>(13)));
    let mut r = Reader::new(vec![7u8; 10]);
    let got = l.load_snapshot(&mut r, 11);
    assert_eq!(
        shown(&got),
        shown(&Err::<(), ListenError>(ListenError::Resp(RespError::Read(ReadError::UnexpectedEof))))
    );
    assert_eq!(r.offset(), 0);
}

#[test]
fn loading_hands_every_object_to_the_handler() {
    let mut l = listener(b"", false, false);
    let data = small_dump();
    let n = data.len() as u64;
    let mut r = Reader::new(data);
    assert!(l.load_snapshot(&mut r, n).is_ok());
    let events = &l.event_handler.as_ref().unwrap().events;
    assert_eq!(events.len(), 2);
    assert_eq!(events[1], Event::RDB(Object::EOR));
    let mut r = Reader::new(small_dump());
    let got = l.load_snapshot(&mut r, n + 1);
    assert_eq!(shown(&got), shown(&Err::<(), ListenError>(ListenError::Rdb(RdbError::Length))));
}

#[test]
fn a_parser_of_the_caller_takes_the_place_of_the_default() {
    struct Skipper {
        calls: usize,
    }
    impl RDBParser for Skipper {
        fn parse<H: EventHandler>(
            &mut self,
            reader: &mut Reader,
            length: u64,
            _handler: &mut H,
        ) -> Result<(), RdbError> {
            self.calls += 1;
            reader.skip(length).map_err(RdbError::Read)
        }
    }
    let mut builder = Builder::<Skipper, NoOpEventHandler, NoOpModuleParser>::new();
    builder.with_config(config(b"", false, false));
    builder.with_rdb_parser(Skipper { calls: 0 });
    builder.with_control_flag(Arc::new(AtomicBool::new(true)));
    let mut l = builder.build();
    let mut r = Reader::new(vec![1, 2, 3]);
    assert!(l.load_snapshot(&mut r, 3).is_ok());
    assert_eq!(l.rdb_parser.as_ref().unwrap().calls, 1);
    assert_eq!(r.offset(), 3);
}

#[test]
fn the_module_parser_sees_the_records_of_modules() {
    struct Seen {
        ids: Vec<u64>,
    }
    impl ModuleParser for Seen {
        fn parse(&mut self, id: u64, payload: &[u8]) {
            assert_eq!(payload, &[2u8, 7, 0][..]);
            self.ids.push(id);
        }
    }
    let mut builder = Builder::<DefaultRDBParser<Seen>, NoOpEventHandler, Seen>::new();
    builder.with_config(config(b"", false, false));
    builder.with_module_parser(Seen { ids: vec![] });
    builder.with_control_flag(Arc::new(AtomicBool::new(true)));
    let mut l = builder.build();
    let mut data = b"REDIS0009".to_vec();
    data.extend_from_slice(&[7, 1, b'm', 9, 2, 7, 0, 0xFF]);
    data.extend_from_slice(&[0u8; 8]);
    let n = data.len() as u64;
    let mut r = Reader::new(data);
    assert!(l.load_snapshot(&mut r, n).is_ok());
    assert_eq!(l.fallback.module_parser.as_ref().unwrap().ids, vec![9]);
}

fn send(action: &Action) -> Option<(Command, Vec<u8>)> {
    match action {
        Action::Send(c, bytes) => Some((*c, bytes.clone())),
        _ => None,
    }
}

#[test]
fn handshake_with_password_and_full_resync() {
    let mut l = listener(b"pw", true, false);
    let (s, a) = l.step(State::Init, Input::Connected(50000), true);
    assert_eq!(s, State::Auth(50000));
    assert_eq!(send(&a), Some((Command::Auth, encode_auth(b"pw"))));
    let (s, a) = l.step(s, Input::Reply(reply(b"+OK\r\n")), true);
    assert_eq!(s, State::Port);
    assert_eq!(send(&a), Some((Command::ListeningPort, encode_port(50000))));
    let (s, a) = l.step(s, Input::Reply(reply(b"+OK\r\n")), true);
    assert_eq!(s, State::PSync);
    assert_eq!(send(&a), Some((Command::PSync, encode_psync(b"?", -1))));
    let (s, a) = l.step(s, Input::Reply(reply(b"+FULLRESYNC abc 10\r\n")), true);
    assert_eq!(s, State::Dump(Mode::PSync));
    assert_eq!(shown(&a), shown(&Action::ReadDump));
    assert_eq!(l.config.repl_id, b"abc".to_vec());
    assert_eq!(l.config.repl_offset, 10);
    let (s, a) = l.step(s, Input::Length(Ok(175)), true);
    assert_eq!(s, State::Loading(Mode::PSync));
    assert_eq!(shown(&a), shown(&Action::Load(175)));
    let (s, a) = l.step(s, Input::Loaded(Ok(())), true);
    assert_eq!(s, State::Stream);
    assert_eq!(shown(&a), shown(&Action::Stream(true)));
}

#[test]
fn handshake_without_password_skips_auth() {
    let mut l = listener(b"", false, false);
    let (s, a) = l.step(State::Init, Input::Connected(1), true);
    assert_eq!(s, State::Port);
    assert_eq!(send(&a), Some((Command::ListeningPort, encode_port(1))));
}

#[test]
fn refused_password_ends_the_session() {
    let mut l = listener(b"pw", true, false);
    let (s, _) = l.step(State::Init, Input::Connected(1), true);
    let (s, a) = l.step(s, Input::Reply(reply(b"-ERR invalid password\r\n")), true);
    assert_eq!(s, State::Done);
    assert_eq!(
        shown(&a),
        shown(&Action::Finish(Err(ListenError::Auth(b"ERR invalid password".to_vec()))))
    );
    let (s, a) = l.step(State::Auth(1), Input::Reply(reply(b"+PONG\r\n")), true);
    assert_eq!(s, State::Done);
    assert_eq!(shown(&a), shown(&Action::Finish(Err(ListenError::Protocol))));
}

#[test]
fn psync_fallback() {
    let mut l = listener(b"", true, false);
    let mut sent = Vec::new();
    let (s, a) = l.step(State::Init, Input::Connected(7000), true);
    sent.push(send(&a).unwrap().0);
    let (s, a) = l.step(s, Input::Reply(reply(b"+OK\r\n")), true);
    sent.push(send(&a).unwrap().0);
    let (s, a) = l.step(s, Input::Reply(reply(b"-ERR unknown command 'PSYNC'\r\n")), true);
    assert_eq!(s, State::Dump(Mode::Sync));
    assert_eq!(send(&a), Some((Command::Sync, b"*1\r\n$4\r\nSYNC\r\n".to_vec())));
    sent.push(send(&a).unwrap().0);
    assert_eq!(sent, vec![Command::ListeningPort, Command::PSync, Command::Sync]);

    let dump = small_dump();
    let mut wire = format!("${}\r\n", dump.len()).into_bytes();
    wire.extend_from_slice(&dump);
    let mut r = Reader::new(wire);
    let (s, a) = l.step(s, Input::Length(decode_dump_length(&mut r)), true);
    assert_eq!(s, State::Loading(Mode::Sync));
    let n = match a {
        Action::Load(n) => n,
        other => panic!("{:?}", other),
    };
    assert_eq!(n, dump.len() as u64);
    let loaded = l.load_snapshot(&mut r, n);
    assert_eq!(r.remaining(), 0);
    let (s, a) = l.step(s, Input::Loaded(loaded), true);
    assert_eq!(s, State::Done);
    assert_eq!(shown(&a), shown(&Action::Finish(Ok(()))));
    let events = &l.event_handler.as_ref().unwrap().events;
    assert_eq!(events.last(), Some(&Event::RDB(Object::EOR)));
}

#[test]
fn waiting_asks_again_while_running() {
    let mut l = listener(b"", true, false);
    let (s, a) = l.step(State::PSync, Input::Reply(reply(b"-LOADING wait\r\n")), true);
    assert_eq!(s, State::Wait);
    assert_eq!(shown(&a), shown(&Action::Sleep));
    let (s, a) = l.step(s, Input::Slept, true);
    assert_eq!(s, State::PSync);
    assert_eq!(send(&a), Some((Command::PSync, encode_psync(b"?", -1))));
    let (s, a) = l.step(s, Input::Reply(reply(b"+NOMASTERLINK\r\n")), false);
    assert_eq!(s, State::Done);
    assert_eq!(shown(&a), shown(&Action::Finish(Ok(()))));
}

#[test]
fn partial_resync_goes_to_the_stream_or_stops() {
    let mut l = listener(b"", true, false);
    let (s, a) = l.step(State::PSync, Input::Reply(reply(b"+CONTINUE\r\n")), true);
    assert_eq!(s, State::Stream);
    assert_eq!(shown(&a), shown(&Action::Stream(true)));
    let (_, a) = l.step(State::PSync, Input::Reply(reply(b"+CONTINUE\r\n")), false);
    assert_eq!(shown(&a), shown(&Action::Stream(false)));
    let mut l = listener(b"", false, false);
    let (s, a) = l.step(State::PSync, Input::Reply(reply(b"+CONTINUE\r\n")), true);
    assert_eq!(s, State::Done);
    assert_eq!(shown(&a), shown(&Action::Finish(Ok(()))));
    let (s, a) = l.step(State::Loading(Mode::PSync), Input::Loaded(Ok(())), true);
    assert_eq!(s, State::Done);
    assert_eq!(shown(&a), shown(&Action::Finish(Ok(()))));
}

#[test]
fn failures_and_unexpected_inputs_end_the_session() {
    let mut l = listener(b"", true, false);
    let (s, a) = l.step(State::Dump(Mode::PSync), Input::Length(Err(ListenError::Protocol)), true);
    assert_eq!(s, State::Done);
    assert_eq!(shown(&a), shown(&Action::Finish(Err(ListenError::Protocol))));
    let (s, a) = l.step(
        State::Loading(Mode::PSync),
        Input::Loaded(Err(ListenError::Rdb(RdbError::BadMagic))),
        true,
    );
    assert_eq!(s, State::Done);
    assert_eq!(shown(&a), shown(&Action::Finish(Err(ListenError::Rdb(RdbError::BadMagic)))));
    let (s, a) = l.step(State::Port, Input::Reply(reply(b"-ERR no\r\n")), true);
    assert_eq!(s, State::Done);
    assert_eq!(
        shown(&a),
        shown(&Action::Finish(Err(ListenError::Resp(RespError::Server(b"ERR no".to_vec())))))
    );
    for state in [State::Init, State::Port, State::Wait, State::Stream, State::Done] {
        let (s, a) = l.step(state, Input::Length(Ok(1)), true);
        assert_eq!(s, State::Done);
        assert_eq!(shown(&a), shown(&Action::Finish(Err(ListenError::Protocol))));
    }
}

#[test]
fn following_the_stream() {
    let (note, next) = after_receive(Received::Command(42), true, true);
    assert_eq!(note, Some(Message::Offset(42)));
    assert_eq!(shown(&next), shown(&Onward::Read));
    let (note, next) = after_receive(Received::Command(42), false, false);
    assert_eq!(note, None);
    assert_eq!(shown(&next), shown(&Onward::Finish(Ok(()))));
    let (note, next) = after_receive(Received::TimedOut, true, true);
    assert_eq!(note, None);
    assert_eq!(shown(&next), shown(&Onward::Read));
    let (_, next) = after_receive(Received::TimedOut, true, false);
    assert_eq!(shown(&next), shown(&Onward::Finish(Ok(()))));
    let (note, next) = after_receive(Received::Failed(ListenError::Overflow), true, true);
    assert_eq!(note, None);
    assert_eq!(shown(&next), shown(&Onward::Finish(Err(ListenError::Overflow))));
}

#[test]
fn heartbeat_acknowledges_every_half_second() {
    assert_eq!(PERIOD, 500);
    let mut h = Heartbeat::new(0);
    for k in 1..=5u64 {
        assert_eq!(h.on_wake(None, 500 * k), Beat::Ack(encode_ack(0)));
        assert_eq!(h.timer, 500 * k);
    }
}

#[test]
fn heartbeat_waits_for_a_full_period() {
    let mut h = Heartbeat::new(1000);
    assert_eq!(h.on_wake(Some(Message::Offset(14)), 1200), Beat::Idle);
    assert_eq!(h.offset, 14);
    assert_eq!(h.on_wake(Some(Message::Offset(28)), 1499), Beat::Idle);
    assert_eq!(h.on_wake(None, 1500), Beat::Ack(encode_ack(28)));
    assert_eq!(h, Heartbeat { offset: 28, timer: 1500 });
    assert_eq!(h.on_wake(Some(Message::Offset(42)), 2100), Beat::Ack(encode_ack(42)));
    assert_eq!(h.on_wake(None, 100), Beat::Idle);
    assert_eq!(h, Heartbeat { offset: 42, timer: 2100 });
}

#[test]
fn heartbeat_stops_on_terminate() {
    let mut h = Heartbeat::new(0);
    assert_eq!(h.on_wake(Some(Message::Terminate), 10_000), Beat::Stop);
    assert_eq!(h, Heartbeat { offset: 0, timer: 0 });
}
