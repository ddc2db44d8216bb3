use turbo_genesis_sdk::borsh;
use turbo_session::command::{Command, CommandKind, Program};
use turbo_session::counter::{AddCommand, Counter, ResetCommand};
use turbo_session::error::{CommandError, ErrorClass};
use turbo_session::hello::Greet;
use turbo_session::log::LogEntry;
use turbo_session::store::{IoError, Store};

const OWNER: &str = "6e3f4a52-owner";

fn program() -> Program {
    let mut program = Program::new(OWNER);
    assert!(program.register("greet", CommandKind::Greet));
    assert!(program.register("add", CommandKind::Add));
    assert!(program.register("reset", CommandKind::Reset));
    program
}

fn stored(store: &Store) -> i32 {
    Counter::load(store).value
}

#[test]
fn store_starts_empty_and_writable() {
    let store = Store::new();
    assert!(store.is_writable());
    assert_eq!(store.read("counter"), None);
    assert_eq!(store.read(""), None);
}

#[test]
fn store_write_replaces_the_whole_record() {
    let mut store = Store::new();
    assert_eq!(store.write("k", vec![1, 2, 3, 4, 5]), Ok(()));
    assert_eq!(store.read("k"), Some(vec![1, 2, 3, 4, 5]));
    assert_eq!(store.write("k", vec![9]), Ok(()));
    assert_eq!(store.read("k"), Some(vec![9]));
    assert_eq!(store.read("other"), None);
}

#[test]
fn store_keeps_keys_apart() {
    let mut store = Store::new();
    store.write("a", vec![1]).unwrap();
    store.write("b", vec![2]).unwrap();
    store.write("a", vec![3]).unwrap();
    assert_eq!(store.read("a"), Some(vec![3]));
    assert_eq!(store.read("b"), Some(vec![2]));
}

#[test]
fn store_that_is_not_writable_refuses_and_keeps_its_records() {
    let mut store = Store::new();
    store.write("k", vec![7]).unwrap();
    store.set_writable(false);
    assert!(!store.is_writable());
    assert_eq!(store.write("k", vec![8]), Err(IoError));
    assert_eq!(store.write("new", vec![1]), Err(IoError));
    assert_eq!(store.read("k"), Some(vec![7]));
    assert_eq!(store.read("new"), None);
    store.set_writable(true);
    assert_eq!(store.write("k", vec![8]), Ok(()));
    assert_eq!(store.read("k"), Some(vec![8]));
}

#[test]
fn counter_record_is_four_bytes_least_significant_first() {
    assert_eq!(Counter { value: 0 }.encode(), vec![0, 0, 0, 0]);
    assert_eq!(Counter { value: 1 }.encode(), vec![1, 0, 0, 0]);
    assert_eq!(Counter { value: 258 }.encode(), vec![2, 1, 0, 0]);
    assert_eq!(Counter { value: -1 }.encode(), vec![255, 255, 255, 255]);
    assert_eq!(Counter { value: -2 }.encode(), vec![254, 255, 255, 255]);
    assert_eq!(Counter { value: i32::MAX }.encode(), vec![255, 255, 255, 127]);
    assert_eq!(Counter { value: i32::MIN }.encode(), vec![0, 0, 0, 128]);
    assert_eq!(Counter { value: 0x1234_5678 }.encode(), vec![0x78, 0x56, 0x34, 0x12]);
}

#[test]
fn counter_record_is_what_borsh_writes() {
    for value in [0, 1, -1, 100, -100, 65536, i32::MAX, i32::MIN, 0x1234_5678, -0x1234_5678] {
        assert_eq!(Counter { value }.encode(), borsh::to_vec(&value).unwrap());
        assert_eq!(Counter::decode(&borsh::to_vec(&value).unwrap()), Some(Counter { value }));
    }
}

#[test]
fn counter_record_reads_back() {
    for value in [0, 1, -1, 127, 128, 255, 256, -256, 1 << 24, -(1 << 24), i32::MAX, i32::MIN] {
        let counter = Counter { value };
        assert_eq!(Counter::decode(&counter.encode()), Some(counter));
    }
}

#[test]
fn counter_record_of_another_length_is_no_counter() {
    assert_eq!(Counter::decode(&[]), None);
    assert_eq!(Counter::decode(&[1, 2, 3]), None);
    assert_eq!(Counter::decode(&[1, 2, 3, 4, 5]), None);
}

#[test]
fn absent_counter_reads_as_zero_again_and_again() {
    let store = Store::new();
    assert_eq!(Counter::load(&store), Counter { value: 0 });
    assert_eq!(Counter::load(&store), Counter { value: 0 });
    assert_eq!(Counter::load(&store), Counter { value: 0 });
    assert_eq!(store.read("counter"), None);
}

#[test]
fn unreadable_counter_record_reads_as_zero() {
    let mut store = Store::new();
    store.write("counter", vec![1, 2]).unwrap();
    assert_eq!(Counter::load(&store), Counter { value: 0 });
}

#[test]
fn other_keys_do_not_show_as_the_counter() {
    let mut store = Store::new();
    store.write("counters", Counter { value: 5 }.encode()).unwrap();
    assert_eq!(Counter::load(&store), Counter { value: 0 });
}

#[test]
fn amount_is_the_signed_delta() {
    assert_eq!(AddCommand::Plus(100).amount(), 100);
    assert_eq!(AddCommand::Minus(100).amount(), -100);
    assert_eq!(AddCommand::Plus(-7).amount(), -7);
    assert_eq!(AddCommand::Minus(-7).amount(), 7);
    assert_eq!(AddCommand::Plus(0).amount(), 0);
    assert_eq!(AddCommand::Minus(0).amount(), 0);
    assert_eq!(AddCommand::Plus(i32::MIN).amount(), i32::MIN);
    assert_eq!(AddCommand::Minus(i32::MAX).amount(), -i32::MAX);
}

#[test]
fn add_payload_is_direction_then_number() {
    assert_eq!(AddCommand::Plus(100).encode(), vec![0, 100, 0, 0, 0]);
    assert_eq!(AddCommand::Minus(100).encode(), vec![1, 100, 0, 0, 0]);
    assert_eq!(AddCommand::Plus(-1).encode(), vec![0, 255, 255, 255, 255]);
    assert_eq!(AddCommand::decode(&[0, 100, 0, 0, 0]), Some(AddCommand::Plus(100)));
    assert_eq!(AddCommand::decode(&[1, 0, 1, 0, 0]), Some(AddCommand::Minus(256)));
    assert_eq!(AddCommand::decode(&[1, 0, 0, 0, 128]), Some(AddCommand::Minus(i32::MIN)));
}

#[test]
fn add_payload_that_is_malformed_is_no_command() {
    assert_eq!(AddCommand::decode(&[]), None);
    assert_eq!(AddCommand::decode(&[0]), None);
    assert_eq!(AddCommand::decode(&[0, 1, 2, 3]), None);
    assert_eq!(AddCommand::decode(&[0, 1, 2, 3, 4, 5]), None);
    assert_eq!(AddCommand::decode(&[2, 1, 0, 0, 0]), None);
    assert_eq!(AddCommand::decode(&[255, 1, 0, 0, 0]), None);
}

#[test]
fn add_payload_reads_back() {
    for n in [0, 1, -1, 100, i32::MAX, i32::MIN] {
        for command in [AddCommand::Plus(n), AddCommand::Minus(n)] {
            assert_eq!(AddCommand::decode(&command.encode()), Some(command));
        }
    }
}

#[test]
fn add_starts_from_zero_and_reports_both_events() {
    let mut store = Store::new();
    let mut log = Vec::new();
    assert_eq!(AddCommand::Plus(100).run("ann", &mut store, &mut log), Ok(()));
    assert_eq!(stored(&store), 100);
    assert_eq!(store.read("counter"), Some(vec![100, 0, 0, 0]));
    assert_eq!(
        log,
        vec![
            LogEntry::Requested { user_id: "ann".to_string(), command: AddCommand::Plus(100) },
            LogEntry::Incremented { counter: Counter { value: 100 } },
        ]
    );
}

#[test]
fn add_accumulates_over_dispatches() {
    let mut store = Store::new();
    let mut log = Vec::new();
    let deltas = [
        AddCommand::Plus(100),
        AddCommand::Minus(30),
        AddCommand::Plus(5),
        AddCommand::Minus(200),
        AddCommand::Plus(-4),
        AddCommand::Minus(-9),
    ];
    for command in deltas {
        assert_eq!(command.run("ann", &mut store, &mut log), Ok(()));
    }
    assert_eq!(stored(&store), 100 - 30 + 5 - 200 - 4 + 9);
    assert_eq!(log.len(), 12);
}

#[test]
fn add_ends_the_same_in_any_order() {
    let deltas = [
        AddCommand::Plus(7),
        AddCommand::Minus(19),
        AddCommand::Plus(1000),
        AddCommand::Minus(1),
    ];
    let orders: [[usize; 4]; 4] = [[0, 1, 2, 3], [3, 2, 1, 0], [2, 0, 3, 1], [1, 3, 0, 2]];
    for order in orders {
        let mut store = Store::new();
        store.write("counter", Counter { value: 50 }.encode()).unwrap();
        let mut log = Vec::new();
        for i in order {
            assert_eq!(deltas[i].run("ann", &mut store, &mut log), Ok(()));
        }
        assert_eq!(stored(&store), 50 + 7 - 19 + 1000 - 1);
    }
}

#[test]
fn add_out_of_range_is_refused_and_changes_nothing() {
    let mut store = Store::new();
    store.write("counter", Counter { value: i32::MAX }.encode()).unwrap();
    let mut log = Vec::new();
    assert_eq!(
        AddCommand::Plus(1).run("ann", &mut store, &mut log),
        Err(CommandError::HandlerFailure("counter out of range".to_string()))
    );
    assert_eq!(stored(&store), i32::MAX);
    assert_eq!(
        log,
        vec![LogEntry::Requested { user_id: "ann".to_string(), command: AddCommand::Plus(1) }]
    );
    store.write("counter", Counter { value: i32::MIN }.encode()).unwrap();
    assert!(AddCommand::Minus(1).run("ann", &mut store, &mut log).is_err());
    assert!(AddCommand::Plus(-1).run("ann", &mut store, &mut log).is_err());
    assert_eq!(stored(&store), i32::MIN);
}

#[test]
fn add_reaches_both_ends_of_the_range() {
    let mut store = Store::new();
    let mut log = Vec::new();
    assert_eq!(AddCommand::Plus(i32::MAX).run("ann", &mut store, &mut log), Ok(()));
    assert_eq!(stored(&store), i32::MAX);
    assert_eq!(AddCommand::Minus(i32::MAX).run("ann", &mut store, &mut log), Ok(()));
    assert_eq!(AddCommand::Plus(i32::MIN).run("ann", &mut store, &mut log), Ok(()));
    assert_eq!(stored(&store), i32::MIN);
}

#[test]
fn add_can_take_away_the_least_number() {
    let mut store = Store::new();
    store.write("counter", Counter { value: -1 }.encode()).unwrap();
    let mut log = Vec::new();
    assert_eq!(AddCommand::Minus(i32::MIN).run("ann", &mut store, &mut log), Ok(()));
    assert_eq!(stored(&store), i32::MAX);
    assert!(AddCommand::Minus(i32::MIN).run("ann", &mut store, &mut log).is_err());
    assert_eq!(stored(&store), i32::MAX);
}

#[test]
fn add_on_a_store_that_takes_no_write_is_an_io_error() {
    let mut store = Store::new();
    store.write("counter", Counter { value: 3 }.encode()).unwrap();
    store.set_writable(false);
    let mut log = Vec::new();
    assert_eq!(AddCommand::Plus(4).run("ann", &mut store, &mut log), Err(CommandError::IoError));
    assert_eq!(stored(&store), 3);
    assert!(!store.is_writable());
    assert_eq!(
        log,
        vec![
            LogEntry::Requested { user_id: "ann".to_string(), command: AddCommand::Plus(4) },
            LogEntry::Incremented { counter: Counter { value: 7 } },
        ]
    );
}

#[test]
fn reset_by_the_owner_overwrites_to_zero() {
    let mut store = Store::new();
    store.write("counter", Counter { value: 41 }.encode()).unwrap();
    assert_eq!(ResetCommand.run(OWNER, OWNER, &mut store), Ok(()));
    assert_eq!(stored(&store), 0);
    assert_eq!(store.read("counter"), Some(vec![0, 0, 0, 0]));
}

#[test]
fn reset_writes_the_record_even_where_there_was_none() {
    let mut store = Store::new();
    assert_eq!(ResetCommand.run(OWNER, OWNER, &mut store), Ok(()));
    assert_eq!(store.read("counter"), Some(vec![0, 0, 0, 0]));
}

#[test]
fn reset_by_anyone_else_is_unauthorized_and_changes_nothing() {
    let mut store = Store::new();
    store.write("counter", Counter { value: 41 }.encode()).unwrap();
    assert_eq!(
        ResetCommand.run("mallory", OWNER, &mut store),
        Err(CommandError::Unauthorized("YOU NOT DA OWNER!".to_string()))
    );
    assert_eq!(stored(&store), 41);
    assert_eq!(store.read("counter"), Some(vec![41, 0, 0, 0]));
    assert!(ResetCommand.run("", OWNER, &mut store).is_err());
    assert!(ResetCommand.run("6e3f4a52-owne", OWNER, &mut store).is_err());
    assert!(ResetCommand.run("6e3f4a52-owner ", OWNER, &mut store).is_err());
    assert_eq!(stored(&store), 41);
}

#[test]
fn reset_is_refused_before_the_store_is_tried() {
    let mut store = Store::new();
    store.set_writable(false);
    assert_eq!(
        ResetCommand.run("mallory", OWNER, &mut store),
        Err(CommandError::Unauthorized("YOU NOT DA OWNER!".to_string()))
    );
    assert_eq!(ResetCommand.run(OWNER, OWNER, &mut store), Err(CommandError::IoError));
}

#[test]
fn greet_reports_the_caller() {
    let mut log = Vec::new();
    assert_eq!(Greet.run("ann", &mut log), Ok(()));
    assert_eq!(Greet.run("bob", &mut log), Ok(()));
    assert_eq!(
        log,
        vec![
            LogEntry::Greeted { user_id: "ann".to_string() },
            LogEntry::Greeted { user_id: "bob".to_string() },
        ]
    );
}

#[test]
fn register_takes_each_name_once() {
    let mut program = Program::new(OWNER);
    assert_eq!(program.lookup("add"), None);
    assert!(program.register("add", CommandKind::Add));
    assert!(!program.register("add", CommandKind::Reset));
    assert_eq!(program.lookup("add"), Some(CommandKind::Add));
    assert!(program.register("reset", CommandKind::Reset));
    assert_eq!(program.lookup("reset"), Some(CommandKind::Reset));
    assert_eq!(program.lookup("Add"), None);
}

#[test]
fn decode_goes_by_the_kind_of_handler() {
    assert_eq!(CommandKind::Greet.decode(&[]), Some(Command::Greet(Greet)));
    assert_eq!(CommandKind::Reset.decode(&[]), Some(Command::Reset(ResetCommand)));
    assert_eq!(CommandKind::Greet.decode(&[0]), None);
    assert_eq!(CommandKind::Reset.decode(&[0, 1, 0, 0, 0]), None);
    assert_eq!(
        CommandKind::Add.decode(&[1, 5, 0, 0, 0]),
        Some(Command::Add(AddCommand::Minus(5)))
    );
    assert_eq!(CommandKind::Add.decode(&[]), None);
}

#[test]
fn dispatch_unknown_command_fails_and_touches_nothing() {
    let program = program();
    let mut store = Store::new();
    store.write("counter", Counter { value: 9 }.encode()).unwrap();
    let mut log = Vec::new();
    for name in ["", "ADD", "add ", "increment", "resett"] {
        assert_eq!(
            program.dispatch(name, &[0, 1, 0, 0, 0], OWNER, &mut store, &mut log),
            Err(CommandError::UnknownCommand)
        );
    }
    assert_eq!(stored(&store), 9);
    assert!(log.is_empty());
    let empty = Program::new(OWNER);
    assert_eq!(
        empty.dispatch("add", &[0, 1, 0, 0, 0], OWNER, &mut store, &mut log),
        Err(CommandError::UnknownCommand)
    );
}

#[test]
fn dispatch_malformed_payload_is_a_decode_error() {
    let program = program();
    let mut store = Store::new();
    let mut log = Vec::new();
    assert_eq!(
        program.dispatch("add", &[0, 1, 0, 0], "ann", &mut store, &mut log),
        Err(CommandError::DecodeError)
    );
    assert_eq!(
        program.dispatch("add", &[7, 1, 0, 0, 0], "ann", &mut store, &mut log),
        Err(CommandError::DecodeError)
    );
    assert_eq!(
        program.dispatch("reset", &[0], OWNER, &mut store, &mut log),
        Err(CommandError::DecodeError)
    );
    assert_eq!(
        program.dispatch("greet", &[1, 2], "ann", &mut store, &mut log),
        Err(CommandError::DecodeError)
    );
    assert_eq!(store.read("counter"), None);
    assert!(log.is_empty());
}

#[test]
fn dispatch_runs_the_handler_once() {
    let program = program();
    let mut store = Store::new();
    let mut log = Vec::new();
    let plus = AddCommand::Plus(100).encode();
    let minus = AddCommand::Minus(100).encode();
    assert_eq!(program.dispatch("add", &plus, "ann", &mut store, &mut log), Ok(()));
    assert_eq!(stored(&store), 100);
    assert_eq!(program.dispatch("add", &plus, "bob", &mut store, &mut log), Ok(()));
    assert_eq!(stored(&store), 200);
    assert_eq!(program.dispatch("add", &minus, "ann", &mut store, &mut log), Ok(()));
    assert_eq!(stored(&store), 100);
    assert_eq!(log.len(), 6);
    assert_eq!(program.dispatch("greet", &[], "ann", &mut store, &mut log), Ok(()));
    assert_eq!(log[6], LogEntry::Greeted { user_id: "ann".to_string() });
    assert_eq!(stored(&store), 100);
}

#[test]
fn dispatch_reset_goes_by_the_programs_owner() {
    let program = program();
    let mut store = Store::new();
    let mut log = Vec::new();
    let plus = AddCommand::Plus(100).encode();
    program.dispatch("add", &plus, "ann", &mut store, &mut log).unwrap();
    assert_eq!(
        program.dispatch("reset", &[], "ann", &mut store, &mut log),
        Err(CommandError::Unauthorized("YOU NOT DA OWNER!".to_string()))
    );
    assert_eq!(stored(&store), 100);
    assert_eq!(program.dispatch("reset", &[], OWNER, &mut store, &mut log), Ok(()));
    assert_eq!(stored(&store), 0);
    assert_eq!(log.len(), 2);
}

#[test]
fn dispatch_takes_the_payload_that_borsh_writes() {
    let program = program();
    let mut store = Store::new();
    let mut log = Vec::new();
    let payload = borsh::to_vec(&(1u8, 42i32)).unwrap();
    assert_eq!(program.dispatch("add", &payload, "ann", &mut store, &mut log), Ok(()));
    assert_eq!(stored(&store), -42);
    let unit = borsh::to_vec(&()).unwrap();
    assert_eq!(program.dispatch("reset", &unit, OWNER, &mut store, &mut log), Ok(()));
    assert_eq!(stored(&store), 0);
}

#[test]
fn errors_fall_into_three_classes() {
    assert_eq!(CommandError::UnknownCommand.class(), ErrorClass::BadRequest);
    assert_eq!(CommandError::DecodeError.class(), ErrorClass::BadRequest);
    assert_eq!(CommandError::Unauthorized("no".to_string()).class(), ErrorClass::Rejected);
    assert_eq!(CommandError::HandlerFailure("no".to_string()).class(), ErrorClass::Rejected);
    assert_eq!(CommandError::IoError.class(), ErrorClass::Transient);
}

#[test]
fn errors_carry_the_handlers_message_word_for_word() {
    assert_eq!(
        CommandError::Unauthorized("YOU NOT DA OWNER!".to_string()).message(),
        "YOU NOT DA OWNER!"
    );
    assert_eq!(CommandError::HandlerFailure("x y".to_string()).message(), "x y");
    assert_eq!(CommandError::UnknownCommand.message(), "unknown command");
    assert_eq!(CommandError::DecodeError.message(), "malformed payload");
    assert_eq!(CommandError::IoError.message(), "store unavailable");
}

#[test]
fn add_misses_only_the_deltas_that_were_refused() {
    let mut store = Store::new();
    let mut log = Vec::new();
    let series = [
        (AddCommand::Plus(i32::MAX), true),
        (AddCommand::Plus(1), false),
        (AddCommand::Minus(i32::MAX), true),
        (AddCommand::Plus(i32::MIN), true),
        (AddCommand::Minus(1), false),
        (AddCommand::Plus(10), true),
    ];
    let mut served: i64 = 0;
    for (command, serve) in series {
        assert_eq!(command.run("ann", &mut store, &mut log).is_ok(), serve);
        if serve {
            served += command.amount() as i64;
        }
    }
    assert_eq!(stored(&store) as i64, served);
    assert_eq!(stored(&store), i32::MIN + 10);
}
